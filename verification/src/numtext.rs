//! Reading and writing unsigned integers as text, with the rules of Rust's
//! `from_str_radix` (an optional `+`, then at least one digit, no overflow)
//! and of `to_string` (decimal, no leading zeros).
use vstd::prelude::*;

verus! {

/// The value of an ASCII digit in the given radix (10 or 16; hexadecimal
/// digits in either case), if it is one.
pub open spec fn spec_digit(b: u8, radix: u32) -> Option<u32> {
    if 48 <= b <= 57 && (b - 48) < radix {
        Some((b - 48) as u32)
    } else if radix == 16 && 97 <= b <= 102 {
        Some((b - 87) as u32)
    } else if radix == 16 && 65 <= b <= 70 {
        Some((b - 55) as u32)
    } else {
        None
    }
}

/// Every byte is a digit of the radix.
pub open spec fn spec_all_digits(b: Seq<u8>, radix: u32) -> bool {
    forall|i: int| 0 <= i < b.len() ==> (#[trigger] spec_digit(b[i], radix)) is Some
}

/// The value of a string of digits, most significant first.
pub open spec fn spec_digits_value(b: Seq<u8>, radix: u32) -> int
    decreases b.len(),
{
    if b.len() == 0 {
        0
    } else {
        spec_digits_value(b.drop_last(), radix) * radix + spec_digit(b.last(), radix).unwrap()
    }
}

/// The digits after an optional leading `+`.
pub open spec fn spec_unsigned_digits(b: Seq<u8>) -> Seq<u8> {
    if b.len() > 0 && b[0] == 43 {
        b.drop_first()
    } else {
        b
    }
}

/// What `from_str_radix` gives for an unsigned type whose largest value is
/// `max`: the value when the text is an optional `+` and at least one digit,
/// all of the radix, and the value does not exceed `max`; else nothing.
pub open spec fn spec_parse_unsigned(b: Seq<u8>, radix: u32, max: u64) -> Option<u64> {
    let d = spec_unsigned_digits(b);
    if d.len() > 0 && spec_all_digits(d, radix) && spec_digits_value(d, radix) <= max {
        Some(spec_digits_value(d, radix) as u64)
    } else {
        None
    }
}

proof fn lemma_digits_value_nonneg(b: Seq<u8>, radix: u32)
    requires
        spec_all_digits(b, radix),
    ensures
        spec_digits_value(b, radix) >= 0,
    decreases b.len(),
{
    if b.len() > 0 {
        assert(spec_all_digits(b.drop_last(), radix)) by {
            assert forall|i: int| 0 <= i < b.drop_last().len() implies (#[trigger] spec_digit(
                b.drop_last()[i],
                radix,
            )) is Some by {
                assert(b.drop_last()[i] == b[i]);
            }
        }
        lemma_digits_value_nonneg(b.drop_last(), radix);
        assert(spec_digit(b[b.len() - 1], radix) is Some);
        assert(spec_digits_value(b.drop_last(), radix) * radix >= 0) by (nonlinear_arith)
            requires
                spec_digits_value(b.drop_last(), radix) >= 0,
        ;
    }
}

/// Once a prefix's value exceeds `max`, so does the value of any longer prefix.
proof fn lemma_digits_value_grows(b: Seq<u8>, radix: u32, k: int)
    requires
        spec_all_digits(b, radix),
        0 <= k <= b.len(),
        radix >= 1,
    ensures
        spec_digits_value(b, radix) >= spec_digits_value(b.subrange(0, k), radix),
    decreases b.len() - k,
{
    if k < b.len() {
        let p = b.subrange(0, k + 1);
        assert(p.drop_last() =~= b.subrange(0, k));
        assert(spec_all_digits(b.subrange(0, k), radix)) by {
            assert forall|i: int| 0 <= i < k implies (#[trigger] spec_digit(
                b.subrange(0, k)[i],
                radix,
            )) is Some by {
                assert(b.subrange(0, k)[i] == b[i]);
            }
        }
        lemma_digits_value_nonneg(b.subrange(0, k), radix);
        assert(spec_digit(b[k], radix) is Some);
        assert(p.last() == b[k]);
        let v = spec_digits_value(b.subrange(0, k), radix);
        assert(v * radix >= v) by (nonlinear_arith)
            requires
                v >= 0,
                radix >= 1,
        ;
        lemma_digits_value_grows(b, radix, k + 1);
    } else {
        assert(b.subrange(0, k) =~= b);
    }
}

fn digit_value(b: u8, radix: u32) -> (r: Option<u32>)
    ensures
        r == spec_digit(b, radix),
{
    if 48 <= b && b <= 57 && ((b - 48) as u32) < radix {
        Some((b - 48) as u32)
    } else if radix == 16 && 97 <= b && b <= 102 {
        Some((b - 87) as u32)
    } else if radix == 16 && 65 <= b && b <= 70 {
        Some((b - 55) as u32)
    } else {
        None
    }
}

/// `from_str_radix` for an unsigned type whose largest value is `max`.
pub fn parse_unsigned(b: &[u8], radix: u32, max: u64) -> (r: Option<u64>)
    requires
        radix == 10 || radix == 16,
    ensures
        r == spec_parse_unsigned(b@, radix, max),
        r matches Some(v) ==> v <= max,
{
    let start: usize = if b.len() > 0 && b[0] == 43 {
        1
    } else {
        0
    };
    let ghost d = spec_unsigned_digits(b@);
    proof {
        assert(d =~= b@.subrange(start as int, b@.len() as int));
    }
    if start == b.len() {
        return None;
    }
    let mut value: u64 = 0;
    let mut i: usize = start;
    while i < b.len()
        invariant
            start <= i <= b@.len(),
            d == b@.subrange(start as int, b@.len() as int),
            d == spec_unsigned_digits(b@),
            d.len() > 0,
            radix == 10 || radix == 16,
            spec_all_digits(d.subrange(0, i - start), radix),
            value as int == spec_digits_value(d.subrange(0, i - start), radix),
            value <= max,
        decreases b@.len() - i,
    {
        let ghost k = i - start;
        proof {
            assert(d.subrange(0, k + 1).drop_last() =~= d.subrange(0, k));
            assert(d.subrange(0, k + 1).last() == b@[i as int]);
        }
        match digit_value(b[i], radix) {
            None => {
                proof {
                    assert(d[k] == b@[i as int]);
                    assert(spec_digit(d[k], radix) is None);
                    assert(!spec_all_digits(d, radix));
                }
                return None;
            },
            Some(dv) => {
                proof {
                    assert(spec_all_digits(d.subrange(0, k + 1), radix)) by {
                        assert forall|j: int| 0 <= j < k + 1 implies (#[trigger] spec_digit(
                            d.subrange(0, k + 1)[j],
                            radix,
                        )) is Some by {
                            if j < k {
                                assert(d.subrange(0, k + 1)[j] == d.subrange(0, k)[j]);
                            }
                        }
                    }
                }
                let next = value.checked_mul(radix as u64);
                let next = match next {
                    Some(n) => n.checked_add(dv as u64),
                    None => None,
                };
                match next {
                    Some(n) if n <= max => {
                        value = n;
                        i = i + 1;
                    },
                    _ => {
                        proof {
                            // The value of the prefix read so far already exceeds `max`
                            // (or `u64`), and the whole string's value is at least that.
                            assert(d[k] == b@[i as int]);
                            assert(spec_digits_value(d.subrange(0, k + 1), radix) == value * radix
                                + dv);
                            assert(value * radix + dv > max);
                            if spec_all_digits(d, radix) {
                                lemma_digits_value_grows(d, radix, k + 1);
                            }
                        }
                        return None;
                    },
                }
            },
        }
    }
    proof {
        assert(d.subrange(0, i - start) =~= d);
    }
    Some(value)
}

/// The decimal text of a number, without leading zeros.
pub open spec fn spec_decimal(v: nat) -> Seq<char>
    decreases v,
{
    if v < 10 {
        seq![(48 + v) as char]
    } else {
        spec_decimal(v / 10) + seq![(48 + v % 10) as char]
    }
}

/// The decimal text of `v`, as `to_string` writes it.
pub fn decimal_string(v: u64) -> (s: String)
    ensures
        s@ == spec_decimal(v as nat),
{
    let mut rev: Vec<char> = Vec::new();
    let mut x: u64 = v;
    // digits are produced least significant first
    let ghost mut suffix: Seq<char> = seq![];
    loop
        invariant_except_break
            spec_decimal(v as nat) == spec_decimal(x as nat) + suffix,
        invariant
            rev@.len() == suffix.len(),
            forall|i: int| 0 <= i < suffix.len() ==> rev@[i] == suffix[suffix.len() - 1 - i],
        ensures
            spec_decimal(v as nat) == suffix,
        decreases x,
    {
        let digit = (48 + (x % 10) as u8) as char;
        if x < 10 {
            rev.push(digit);
            proof {
                let old_suffix = suffix;
                suffix = seq![digit] + suffix;
                assert(spec_decimal(x as nat) == seq![digit]);
                assert(spec_decimal(v as nat) =~= suffix);
                assert forall|i: int| 0 <= i < suffix.len() implies rev@[i] == suffix[suffix.len() - 1
                    - i] by {
                    if i < old_suffix.len() {
                        assert(suffix[suffix.len() - 1 - i] == old_suffix[old_suffix.len() - 1 - i]);
                    }
                }
            }
            break ;
        }
        rev.push(digit);
        proof {
            let old_suffix = suffix;
            suffix = seq![digit] + suffix;
            assert(spec_decimal(x as nat) == spec_decimal((x / 10) as nat) + seq![digit]);
            assert(spec_decimal(v as nat) =~= spec_decimal((x / 10) as nat) + suffix);
            assert forall|i: int| 0 <= i < suffix.len() implies rev@[i] == suffix[suffix.len() - 1
                - i] by {
                if i < old_suffix.len() {
                    assert(suffix[suffix.len() - 1 - i] == old_suffix[old_suffix.len() - 1 - i]);
                }
            }
        }
        x = x / 10;
    }
    let mut out: Vec<char> = Vec::new();
    let mut j: usize = rev.len();
    while j > 0
        invariant
            j <= rev@.len(),
            rev@.len() == suffix.len(),
            forall|i: int| 0 <= i < suffix.len() ==> rev@[i] == suffix[suffix.len() - 1 - i],
            out@ == suffix.subrange(0, rev@.len() - j),
        decreases j,
    {
        j = j - 1;
        out.push(rev[j]);
        proof {
            assert(out@ =~= suffix.subrange(0, rev@.len() - j));
        }
    }
    proof {
        assert(out@ =~= suffix);
    }
    crate::host::string_from_chars(&out)
}

/// The ASCII bytes of the decimal text of `v`.
pub open spec fn spec_decimal_bytes(v: nat) -> Seq<u8>
    decreases v,
{
    if v < 10 {
        seq![(48 + v) as u8]
    } else {
        spec_decimal_bytes(v / 10).push((48 + v % 10) as u8)
    }
}

/// The decimal text of a number is ASCII, and its UTF-8 bytes are
/// [`spec_decimal_bytes`].
pub proof fn lemma_decimal_encoding(v: nat)
    ensures
        vstd::utf8::is_ascii_chars(spec_decimal(v)),
        vstd::utf8::encode_utf8(spec_decimal(v)) == spec_decimal_bytes(v),
    decreases v,
{
    let t = spec_decimal(v);
    let b = spec_decimal_bytes(v);
    if v >= 10 {
        lemma_decimal_encoding(v / 10);
    }
    assert(t.len() == b.len() && forall|i: int| 0 <= i < t.len() ==> '\0' <= t[i] <= '\u{7f}'
        && t[i] as u8 == b[i]) by {
        if v >= 10 {
            let t0 = spec_decimal(v / 10);
            let b0 = spec_decimal_bytes(v / 10);
            vstd::utf8::is_ascii_chars_encode_utf8(t0);
            assert forall|i: int| 0 <= i < t.len() implies '\0' <= t[i] <= '\u{7f}' && t[i] as u8
                == b[i] by {
                if i < t0.len() {
                    assert(t[i] == t0[i]);
                    assert(b[i] == b0[i]);
                    assert(t0[i] as u8 == vstd::utf8::encode_utf8(t0)[i]);
                }
            }
        }
    }
    vstd::utf8::is_ascii_chars_encode_utf8(t);
    assert(vstd::utf8::encode_utf8(t) =~= b);
}

/// The decimal bytes of a number are digits worth that number, and do not
/// start with `+`.
pub proof fn lemma_decimal_bytes_value(v: nat)
    ensures
        spec_decimal_bytes(v).len() > 0,
        spec_decimal_bytes(v)[0] != 43,
        spec_all_digits(spec_decimal_bytes(v), 10),
        spec_digits_value(spec_decimal_bytes(v), 10) == v,
    decreases v,
{
    let b = spec_decimal_bytes(v);
    if v < 10 {
        assert(b.drop_last() =~= Seq::<u8>::empty());
        assert(spec_digit(b[0], 10) == Some(v as u32));
        assert(spec_digits_value(b.drop_last(), 10) == 0);
        assert(b.last() == b[0]);
        assert(spec_digits_value(b, 10) == spec_digits_value(b.drop_last(), 10) * 10 + spec_digit(
            b.last(),
            10,
        ).unwrap());
    } else {
        let b0 = spec_decimal_bytes(v / 10);
        lemma_decimal_bytes_value(v / 10);
        assert(b.drop_last() =~= b0);
        assert(b[0] == b0[0]);
        assert(spec_digit(b.last(), 10) == Some((v % 10) as u32));
        assert forall|i: int| 0 <= i < b.len() implies (#[trigger] spec_digit(b[i], 10)) is Some by {
            if i < b0.len() {
                assert(b[i] == b0[i]);
            }
        }
        assert(v == (v / 10) * 10 + v % 10) by (nonlinear_arith);
        assert(spec_digits_value(b, 10) == spec_digits_value(b0, 10) * 10 + spec_digit(
            b.last(),
            10,
        ).unwrap());
    }
}

} // verus!
