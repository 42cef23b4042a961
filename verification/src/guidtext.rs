//! The registry text of a GUID reads back as the same GUID.
use vstd::prelude::*;

use vstd::utf8::{encode_utf8, is_ascii_chars, is_ascii_chars_encode_utf8};

use crate::numtext::{spec_digit, spec_digits_value, spec_parse_unsigned};
use crate::seqs::lemma_first_index;
use crate::winenum::{
    after_dash, before_dash, has_dash, hex_digit, spec_guid_body, spec_guid_eq,
    spec_guid_fields, spec_guid_of, spec_guid_parses, spec_guid_reaches_tail,
    spec_guid_text, spec_hex, spec_hex_pair, Guid,
};

verus! {

/// The bytes of an ASCII text, one per character.
pub open spec fn ascii_bytes(s: Seq<char>) -> Seq<u8> {
    Seq::new(s.len(), |i: int| s[i] as u8)
}

/// The hexadecimal digits of `v` as bytes.
pub open spec fn hex_bytes(v: nat, width: nat) -> Seq<u8> {
    ascii_bytes(spec_hex(v, width))
}

/// Sixteen to the power `w`.
pub open spec fn pow16(w: nat) -> nat
    decreases w,
{
    if w == 0 {
        1
    } else {
        16 * pow16((w - 1) as nat)
    }
}

proof fn lemma_pow16_values()
    ensures
        pow16(2) == 0x100,
        pow16(4) == 0x10000,
        pow16(8) == 0x1_0000_0000,
{
    assert(pow16(0) == 1);
    assert(pow16(1) == 16);
    assert(pow16(2) == 0x100);
    assert(pow16(3) == 0x1000);
    assert(pow16(4) == 0x10000);
    assert(pow16(5) == 0x10_0000);
    assert(pow16(6) == 0x100_0000);
    assert(pow16(7) == 0x1000_0000);
    assert(pow16(8) == 0x1_0000_0000);
}

proof fn lemma_ascii_add(a: Seq<char>, b: Seq<char>)
    ensures
        is_ascii_chars(a) && is_ascii_chars(b) ==> is_ascii_chars(a + b),
        ascii_bytes(a + b) == ascii_bytes(a) + ascii_bytes(b),
{
    if is_ascii_chars(a) && is_ascii_chars(b) {
        assert forall|i| 0 <= i < (a + b).len() implies '\0' <= #[trigger] (a + b)[i] <= '\u{7f}' by {
            if i < a.len() {
                assert((a + b)[i] == a[i]);
            } else {
                assert((a + b)[i] == b[i - a.len()]);
            }
        }
    }
    assert(ascii_bytes(a + b) =~= ascii_bytes(a) + ascii_bytes(b));
}

/// A hexadecimal digit's byte is a digit of radix 16 with that value, and
/// neither a sign, a dash nor a byte above ASCII.
proof fn lemma_hex_digit_byte(k: nat)
    requires
        k < 16,
    ensures
        '\0' <= hex_digit(k) <= '\u{7f}',
        spec_digit(hex_digit(k) as u8, 16) == Some(k as u32),
        hex_digit(k) as u8 != 0x2d,
        hex_digit(k) as u8 != 43,
        (hex_digit(k) as u8) < 0x80,
{
}

/// What [`lemma_hex_bytes`] shows of the digits of `v`.
pub open spec fn hex_bytes_facts(v: nat, width: nat) -> bool {
    &&& is_ascii_chars(spec_hex(v, width))
    &&& hex_bytes(v, width).len() == width
    &&& forall|i: int|
        0 <= i < width ==> {
            &&& spec_digit(#[trigger] hex_bytes(v, width)[i], 16) is Some
            &&& hex_bytes(v, width)[i] != 0x2d
            &&& hex_bytes(v, width)[i] != 43
            &&& hex_bytes(v, width)[i] < 0x80
        }
    &&& v < pow16(width) ==> spec_digits_value(hex_bytes(v, width), 16) == v
}

/// The digits of `v`: `width` of them, all hexadecimal, none a sign, a dash
/// or above ASCII; their value is `v` when `v` has no more digits.
proof fn lemma_hex_bytes(v: nat, width: nat)
    ensures
        is_ascii_chars(spec_hex(v, width)),
        hex_bytes(v, width).len() == width,
        forall|i: int|
            0 <= i < width ==> {
                &&& spec_digit(#[trigger] hex_bytes(v, width)[i], 16) is Some
                &&& hex_bytes(v, width)[i] != 0x2d
                &&& hex_bytes(v, width)[i] != 43
                &&& hex_bytes(v, width)[i] < 0x80
            },
        v < pow16(width) ==> spec_digits_value(hex_bytes(v, width), 16) == v,
        hex_bytes_facts(v, width),
    decreases width,
{
    if width > 0 {
        let w1 = (width - 1) as nat;
        lemma_hex_bytes(v / 16, w1);
        lemma_hex_digit_byte(v % 16);
        let p = spec_hex(v / 16, w1);
        let c = hex_digit(v % 16);
        assert(spec_hex(v, width) == p.push(c));
        assert forall|i| 0 <= i < p.push(c).len() implies '\0' <= #[trigger] p.push(c)[i]
            <= '\u{7f}' by {
            if i < p.len() {
                assert(p.push(c)[i] == p[i]);
            }
        }
        let hb = hex_bytes(v, width);
        let hp = hex_bytes(v / 16, w1);
        assert(hb =~= hp.push(c as u8));
        assert(hb.drop_last() =~= hp);
        assert forall|i: int| 0 <= i < width implies {
            &&& spec_digit(#[trigger] hb[i], 16) is Some
            &&& hb[i] != 0x2d
            &&& hb[i] != 43
            &&& hb[i] < 0x80
        } by {
            if i < w1 {
                assert(hb[i] == hp[i]);
            }
        }
        if v < pow16(width) {
            assert(v / 16 < pow16(w1));
            assert(spec_digits_value(hb, 16) == spec_digits_value(hp, 16) * 16 + (v % 16));
        }
    } else {
        assert(hex_bytes(v, width) =~= Seq::<u8>::empty());
    }
}

/// The value of digits written one after the other.
proof fn lemma_digits_value_add(a: Seq<u8>, b: Seq<u8>)
    ensures
        spec_digits_value(a + b, 16) == spec_digits_value(a, 16) * pow16(b.len()) + spec_digits_value(
            b,
            16,
        ),
    decreases b.len(),
{
    if b.len() == 0 {
        assert(a + b =~= a);
        assert(pow16(0) == 1);
        assert(spec_digits_value(b, 16) == 0);
    } else {
        let b1 = b.drop_last();
        lemma_digits_value_add(a, b1);
        assert((a + b).drop_last() =~= a + b1);
        assert((a + b).last() == b.last());
        let x = spec_digits_value(a, 16);
        let y = spec_digits_value(b1, 16);
        let p = pow16(b1.len());
        let dl = spec_digit(b.last(), 16).unwrap();
        assert(spec_digits_value(a + b, 16) == spec_digits_value(a + b1, 16) * 16 + dl);
        assert(b.drop_last() == b1);
        assert(spec_digits_value(b, 16) == y * 16 + dl);
        assert(pow16(b.len()) == 16 * p);
        assert((x * p + y) * 16 == x * (16 * p) + y * 16) by (nonlinear_arith);
    }
}

/// Text made of `f`, a dash and `r`, where `f` has no dash: the first dash
/// is the one after `f`.
proof fn lemma_split_at_dash(f: Seq<u8>, r: Seq<u8>)
    requires
        forall|i: int| 0 <= i < f.len() ==> #[trigger] f[i] != 0x2d,
    ensures
        has_dash(f + seq![0x2du8] + r),
        before_dash(f + seq![0x2du8] + r) == f,
        after_dash(f + seq![0x2du8] + r) == r,
{
    let s = f + seq![0x2du8] + r;
    assert forall|m: int| 0 <= m < f.len() implies s[m] != 0x2d by {
        assert(s[m] == f[m]);
    }
    lemma_first_index(s, 0x2du8, f.len() as int);
    assert(s.subrange(0, f.len() as int) =~= f);
    assert(s.subrange(f.len() as int + 1, s.len() as int) =~= r);
}

/// A field of hexadecimal digits reads as its value.
proof fn lemma_parse_field(f: Seq<u8>, v: nat, max: u64)
    requires
        f.len() > 0,
        forall|i: int| 0 <= i < f.len() ==> (spec_digit(#[trigger] f[i], 16) is Some && f[i] != 43),
        spec_digits_value(f, 16) == v,
        v <= max,
    ensures
        spec_parse_unsigned(f, 16, max) == Some(v as u64),
{
    assert(f[0] != 43);
}

/// The last field of a GUID's text: six pairs of digits.
pub open spec fn tail_bytes(g: Guid) -> Seq<u8> {
    hex_bytes(g.data4@[2] as nat, 2) + hex_bytes(g.data4@[3] as nat, 2) + hex_bytes(
        g.data4@[4] as nat,
        2,
    ) + hex_bytes(g.data4@[5] as nat, 2) + hex_bytes(g.data4@[6] as nat, 2) + hex_bytes(
        g.data4@[7] as nat,
        2,
    )
}

/// The fourth field of a GUID's text: two pairs of digits.
pub open spec fn clock_bytes(g: Guid) -> Seq<u8> {
    hex_bytes(g.data4@[0] as nat, 2) + hex_bytes(g.data4@[1] as nat, 2)
}

/// The five fields of a GUID's text.
pub open spec fn field_bytes(g: Guid) -> Seq<Seq<u8>> {
    seq![
        hex_bytes(g.data1 as nat, 8),
        hex_bytes(g.data2 as nat, 4),
        hex_bytes(g.data3 as nat, 4),
        clock_bytes(g),
        tail_bytes(g),
    ]
}

/// A GUID's text without its braces: the five fields between dashes.
pub open spec fn body_bytes(g: Guid) -> Seq<u8> {
    let f = field_bytes(g);
    let dash = seq![0x2du8];
    f[0] + (dash + (f[1] + (dash + (f[2] + (dash + (f[3] + (dash + f[4])))))))
}

proof fn lemma_all_hex_bytes(g: Guid)
    ensures
        forall|i: int| 0 <= i < 8 ==> #[trigger] hex_bytes_facts(g.data4@[i] as nat, 2),
        hex_bytes_facts(g.data1 as nat, 8),
        hex_bytes_facts(g.data2 as nat, 4),
        hex_bytes_facts(g.data3 as nat, 4),
{
    let x = g.data4@;
    assert(x.len() == 8);
    lemma_hex_bytes(g.data1 as nat, 8);
    lemma_hex_bytes(g.data2 as nat, 4);
    lemma_hex_bytes(g.data3 as nat, 4);
    assert forall|i: int| 0 <= i < 8 implies #[trigger] hex_bytes_facts(x[i] as nat, 2) by {
        lemma_hex_bytes(x[i] as nat, 2);
    }
}

/// The bytes of a GUID's text: its body between braces.
proof fn lemma_text_bytes(g: Guid)
    ensures
        is_ascii_chars(spec_guid_text(g)),
        encode_utf8(spec_guid_text(g)) == seq![0x7bu8] + body_bytes(g) + seq![0x7du8],
{
    let t = spec_guid_text(g);
    let x = g.data4@;
    assert(x.len() == 8);
    lemma_all_hex_bytes(g);
    assert(hex_bytes_facts(x[0] as nat, 2));
    assert(hex_bytes_facts(x[1] as nat, 2));
    assert(hex_bytes_facts(x[2] as nat, 2));
    assert(hex_bytes_facts(x[3] as nat, 2));
    assert(hex_bytes_facts(x[4] as nat, 2));
    assert(hex_bytes_facts(x[5] as nat, 2));
    assert(hex_bytes_facts(x[6] as nat, 2));
    assert(hex_bytes_facts(x[7] as nat, 2));
    let h1 = spec_hex(g.data1 as nat, 8);
    let h2 = spec_hex(g.data2 as nat, 4);
    let h3 = spec_hex(g.data3 as nat, 4);
    let k0 = spec_hex(x[0] as nat, 2);
    let k1 = spec_hex(x[1] as nat, 2);
    let k2 = spec_hex(x[2] as nat, 2);
    let k3 = spec_hex(x[3] as nat, 2);
    let k4 = spec_hex(x[4] as nat, 2);
    let k5 = spec_hex(x[5] as nat, 2);
    let k6 = spec_hex(x[6] as nat, 2);
    let k7 = spec_hex(x[7] as nat, 2);
    let ob = seq!['{'];
    let da = seq!['-'];
    let cb = seq!['}'];
    assert(is_ascii_chars(ob) && is_ascii_chars(da) && is_ascii_chars(cb));
    assert(ascii_bytes(ob) =~= seq![0x7bu8]);
    assert(ascii_bytes(da) =~= seq![0x2du8]);
    assert(ascii_bytes(cb) =~= seq![0x7du8]);
    let t1 = ob + h1;
    lemma_ascii_add(ob, h1);
    let t2 = t1 + da;
    lemma_ascii_add(t1, da);
    let t3 = t2 + h2;
    lemma_ascii_add(t2, h2);
    let t4 = t3 + da;
    lemma_ascii_add(t3, da);
    let t5 = t4 + h3;
    lemma_ascii_add(t4, h3);
    let t6 = t5 + da;
    lemma_ascii_add(t5, da);
    let t7 = t6 + k0;
    lemma_ascii_add(t6, k0);
    let t8 = t7 + k1;
    lemma_ascii_add(t7, k1);
    let t9 = t8 + da;
    lemma_ascii_add(t8, da);
    let t10 = t9 + k2;
    lemma_ascii_add(t9, k2);
    let t11 = t10 + k3;
    lemma_ascii_add(t10, k3);
    let t12 = t11 + k4;
    lemma_ascii_add(t11, k4);
    let t13 = t12 + k5;
    lemma_ascii_add(t12, k5);
    let t14 = t13 + k6;
    lemma_ascii_add(t13, k6);
    let t15 = t14 + k7;
    lemma_ascii_add(t14, k7);
    let t16 = t15 + cb;
    lemma_ascii_add(t15, cb);
    assert(t == t16);
    is_ascii_chars_encode_utf8(t);
    assert(encode_utf8(t) =~= ascii_bytes(t));
    assert(ascii_bytes(t) =~= seq![0x7bu8] + body_bytes(g) + seq![0x7du8]);
}

/// The bytes of a GUID's text followed by a NUL.
proof fn lemma_text_nul_bytes(g: Guid)
    ensures
        encode_utf8(spec_guid_text(g) + seq!['\0']) == seq![0x7bu8] + body_bytes(g) + seq![0x7du8]
            + seq![0u8],
{
    let t = spec_guid_text(g);
    let nul = seq!['\0'];
    lemma_text_bytes(g);
    assert(is_ascii_chars(nul));
    lemma_ascii_add(t, nul);
    is_ascii_chars_encode_utf8(t);
    is_ascii_chars_encode_utf8(t + nul);
    assert(encode_utf8(t) =~= ascii_bytes(t));
    assert(ascii_bytes(nul) =~= seq![0u8]);
    assert(encode_utf8(t + nul) =~= ascii_bytes(t + nul));
    assert(encode_utf8(t + nul) =~= seq![0x7bu8] + body_bytes(g) + seq![0x7du8] + seq![0u8]);
}

/// The body of a GUID's text, with or without a trailing NUL.
proof fn lemma_text_body(g: Guid)
    ensures
        spec_guid_body(encode_utf8(spec_guid_text(g))) == body_bytes(g),
        spec_guid_body(encode_utf8(spec_guid_text(g) + seq!['\0'])) == body_bytes(g),
{
    lemma_text_bytes(g);
    lemma_text_nul_bytes(g);
    let body = body_bytes(g);
    assert(spec_guid_body(seq![0x7bu8] + body + seq![0x7du8]) =~= body);
    assert(spec_guid_body(seq![0x7bu8] + body + seq![0x7du8] + seq![0u8]) =~= body);
}

/// The fields of a GUID's text are the five runs of digits.
proof fn lemma_body_fields(g: Guid, b: Seq<u8>)
    requires
        spec_guid_body(b) == body_bytes(g),
    ensures
        spec_guid_fields(b) == Some(field_bytes(g)),
{
    lemma_all_hex_bytes(g);
    let x = g.data4@;
    assert(x.len() == 8);
    assert(hex_bytes_facts(x[0] as nat, 2));
    assert(hex_bytes_facts(x[1] as nat, 2));
    let f = field_bytes(g);
    let dash = seq![0x2du8];
    let body = body_bytes(g);
    let p0 = hex_bytes(x[0] as nat, 2);
    let p1 = hex_bytes(x[1] as nat, 2);
    assert forall|i: int| 0 <= i < f[3].len() implies #[trigger] f[3][i] != 0x2d by {
        if i < 2 {
            assert(f[3][i] == p0[i]);
        } else {
            assert(f[3][i] == p1[i - 2]);
        }
    }
    assert(forall|i: int| 0 <= i < f[0].len() ==> #[trigger] f[0][i] != 0x2d);
    assert(forall|i: int| 0 <= i < f[1].len() ==> #[trigger] f[1][i] != 0x2d);
    assert(forall|i: int| 0 <= i < f[2].len() ==> #[trigger] f[2][i] != 0x2d);
    let r3 = f[4];
    let r2 = f[3] + (dash + r3);
    let r1 = f[2] + (dash + r2);
    let r0 = f[1] + (dash + r1);
    assert(f[3] + dash + r3 =~= r2);
    assert(f[2] + dash + r2 =~= r1);
    assert(f[1] + dash + r1 =~= r0);
    assert(f[0] + dash + r0 =~= body);
    lemma_split_at_dash(f[0], r0);
    lemma_split_at_dash(f[1], r1);
    lemma_split_at_dash(f[2], r2);
    lemma_split_at_dash(f[3], r3);
    reveal(spec_guid_fields);
    assert(spec_guid_fields(b).unwrap() =~= f);
}

/// Text whose fields are those of `g` reads back as `g`.
proof fn lemma_fields_roundtrip(g: Guid, b: Seq<u8>)
    requires
        spec_guid_fields(b) == Some(field_bytes(g)),
    ensures
        spec_guid_parses(b),
        forall|h: Guid| #[trigger] spec_guid_of(b, h) ==> spec_guid_eq(h, g),
{
    let x = g.data4@;
    assert(x.len() == 8);
    lemma_all_hex_bytes(g);
    let fields = spec_guid_fields(b).unwrap();
    assert(fields == field_bytes(g));
    let f0 = fields[0];
    let f1 = fields[1];
    let f2 = fields[2];
    let f3 = fields[3];
    let f4 = fields[4];
    let p0 = hex_bytes(x[0] as nat, 2);
    let p1 = hex_bytes(x[1] as nat, 2);
    let p2 = hex_bytes(x[2] as nat, 2);
    let p3 = hex_bytes(x[3] as nat, 2);
    let p4 = hex_bytes(x[4] as nat, 2);
    let p5 = hex_bytes(x[5] as nat, 2);
    let p6 = hex_bytes(x[6] as nat, 2);
    let p7 = hex_bytes(x[7] as nat, 2);
    assert(hex_bytes_facts(x[0] as nat, 2));
    assert(hex_bytes_facts(x[1] as nat, 2));
    assert(hex_bytes_facts(x[2] as nat, 2));
    assert(hex_bytes_facts(x[3] as nat, 2));
    assert(hex_bytes_facts(x[4] as nat, 2));
    assert(hex_bytes_facts(x[5] as nat, 2));
    assert(hex_bytes_facts(x[6] as nat, 2));
    assert(hex_bytes_facts(x[7] as nat, 2));
    assert(f3 == p0 + p1);
    assert(f4 == p2 + p3 + p4 + p5 + p6 + p7);

    // The head fields read as numbers.
    lemma_pow16_values();
    lemma_parse_field(f0, g.data1 as nat, 0xffff_ffff);
    lemma_parse_field(f1, g.data2 as nat, 0xffff);
    lemma_parse_field(f2, g.data3 as nat, 0xffff);
    assert forall|i: int| 0 <= i < f3.len() implies spec_digit(#[trigger] f3[i], 16) is Some
        && f3[i] != 43 by {
        if i < 2 {
            assert(f3[i] == p0[i]);
        } else {
            assert(f3[i] == p1[i - 2]);
        }
    }
    lemma_digits_value_add(p0, p1);
    let d = x[0] * 256 + x[1];
    assert(spec_digits_value(f3, 16) == d);
    lemma_parse_field(f3, d as nat, 0xffff);
    assert(f4.len() == 12);
    assert(spec_guid_reaches_tail(b));

    // The six pairs of the last field.
    assert(f4.subrange(0, 2) =~= p2);
    assert(f4.subrange(2, 4) =~= p3);
    assert(f4.subrange(4, 6) =~= p4);
    assert(f4.subrange(6, 8) =~= p5);
    assert(f4.subrange(8, 10) =~= p6);
    assert(f4.subrange(10, 12) =~= p7);
    lemma_parse_field(p2, x[2] as nat, 255);
    lemma_parse_field(p3, x[3] as nat, 255);
    lemma_parse_field(p4, x[4] as nat, 255);
    lemma_parse_field(p5, x[5] as nat, 255);
    lemma_parse_field(p6, x[6] as nat, 255);
    lemma_parse_field(p7, x[7] as nat, 255);
    assert forall|i: int| 0 <= i < 6 implies (#[trigger] spec_hex_pair(f4, i)) == Some(
        x[2 + i] as u64,
    ) by {
        if i == 0 {
        } else if i == 1 {
        } else if i == 2 {
        } else if i == 3 {
        } else if i == 4 {
        } else {
        }
    }
    assert(spec_guid_parses(b));

    // Whatever the text is read as is the GUID that was written.
    assert forall|h: Guid| #[trigger] spec_guid_of(b, h) implies spec_guid_eq(h, g) by {
        assert(h.data4@[0] == x[0]);
        assert(h.data4@[1] == x[1]);
        assert forall|i: int| 0 <= i < 8 implies #[trigger] h.data4@[i] == x[i] by {
            if i >= 2 {
                assert(spec_hex_pair(f4, i - 2) == Some(x[i] as u64));
                assert(h.data4@[2 + (i - 2)] == spec_hex_pair(fields[4], i - 2).unwrap());
            }
        }
        assert(h.data4@ =~= x);
    }
}

/// The registry text of a GUID, as [`Guid::debug_string`] writes it, is read
/// back by [`try_parse_guid`](crate::winenum::try_parse_guid) as the same
/// GUID, and so is that text with a terminating NUL: each parses, and every
/// GUID it is read as equals the one that was written.
pub proof fn guid_text_roundtrip(g: Guid)
    ensures
        spec_guid_parses(encode_utf8(spec_guid_text(g))),
        forall|h: Guid| #[trigger]
            spec_guid_of(encode_utf8(spec_guid_text(g)), h) ==> spec_guid_eq(h, g),
        spec_guid_parses(encode_utf8(spec_guid_text(g) + seq!['\0'])),
        forall|h: Guid| #[trigger]
            spec_guid_of(encode_utf8(spec_guid_text(g) + seq!['\0']), h) ==> spec_guid_eq(h, g),
{
    lemma_text_body(g);
    let b = encode_utf8(spec_guid_text(g));
    let bn = encode_utf8(spec_guid_text(g) + seq!['\0']);
    lemma_body_fields(g, b);
    lemma_body_fields(g, bn);
    lemma_fields_roundtrip(g, b);
    lemma_fields_roundtrip(g, bn);
}

} // verus!
