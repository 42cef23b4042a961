//! Transfer payloads travel as URL-safe base64 without padding; the `base64`
//! crate does the encoding.
use vstd::prelude::*;

use base64::engine::general_purpose::URL_SAFE_NO_PAD;
use base64::Engine;

verus! {

/// What `URL_SAFE_NO_PAD.decode` returns for a text: the bytes whose
/// encoding it is, or nothing where it is the encoding of no bytes (a
/// character outside the alphabet, padding, a length that leaves a single
/// character over, or bits set past the last byte).
pub open spec fn spec_b64_decode(text: Seq<char>) -> Option<Seq<u8>> {
    if exists|b: Seq<u8>| spec_b64_encode(b) == text {
        Some(choose|b: Seq<u8>| spec_b64_encode(b) == text)
    } else {
        None
    }
}

/// The character of a 6-bit value in the URL-safe base64 alphabet:
/// `A`-`Z`, `a`-`z`, `0`-`9`, `-`, `_`.
pub open spec fn b64_char(v: int) -> char {
    if v < 26 {
        (65 + v) as char
    } else if v < 52 {
        (97 + (v - 26)) as char
    } else if v < 62 {
        (48 + (v - 52)) as char
    } else if v == 62 {
        '-'
    } else {
        '_'
    }
}

/// What `URL_SAFE_NO_PAD.encode` returns for some bytes: each group of three
/// bytes becomes four characters of six bits each, most significant first; a
/// last group of one or two bytes becomes two or three characters, its bits
/// padded with zeros, and no `=` follows.
pub open spec fn spec_b64_encode(data: Seq<u8>) -> Seq<char>
    decreases data.len(),
{
    if data.len() == 0 {
        seq![]
    } else if data.len() == 1 {
        let a = data[0] as int;
        seq![b64_char(a / 4), b64_char((a % 4) * 16)]
    } else if data.len() == 2 {
        let a = data[0] as int;
        let b = data[1] as int;
        seq![b64_char(a / 4), b64_char((a % 4) * 16 + b / 16), b64_char((b % 16) * 4)]
    } else {
        let a = data[0] as int;
        let b = data[1] as int;
        let c = data[2] as int;
        seq![
            b64_char(a / 4),
            b64_char((a % 4) * 16 + b / 16),
            b64_char((b % 16) * 4 + c / 64),
            b64_char(c % 64),
        ] + spec_b64_encode(data.subrange(3, data.len() as int))
    }
}

/// The number of characters that encoding `n` bytes gives.
pub open spec fn spec_b64_len(n: int) -> int {
    let rest: int = if n % 3 == 0 {
        0
    } else if n % 3 == 1 {
        2
    } else {
        3
    };
    4 * (n / 3) + rest
}

proof fn lemma_b64_len(data: Seq<u8>)
    ensures
        spec_b64_encode(data).len() == spec_b64_len(data.len() as int),
    decreases data.len(),
{
    if data.len() >= 3 {
        lemma_b64_len(data.subrange(3, data.len() as int));
    }
}

proof fn lemma_b64_char_injective(v: int, w: int)
    requires
        0 <= v < 64,
        0 <= w < 64,
        b64_char(v) == b64_char(w),
    ensures
        v == w,
{
}

/// Different bytes never encode to the same text.
proof fn lemma_b64_encode_injective(a: Seq<u8>, b: Seq<u8>)
    requires
        spec_b64_encode(a) == spec_b64_encode(b),
    ensures
        a == b,
    decreases a.len(),
{
    lemma_b64_len(a);
    lemma_b64_len(b);
    let n = a.len() as int;
    let m = b.len() as int;
    assert(n == m) by {
        if n / 3 < m / 3 {
            assert(spec_b64_len(n) < spec_b64_len(m));
        } else if m / 3 < n / 3 {
            assert(spec_b64_len(m) < spec_b64_len(n));
        }
    }
    let ea = spec_b64_encode(a);
    let eb = spec_b64_encode(b);
    if n == 1 {
        let x = a[0] as int;
        let y = b[0] as int;
        assert(ea[0] == eb[0] && ea[1] == eb[1]);
        lemma_b64_char_injective(x / 4, y / 4);
        lemma_b64_char_injective((x % 4) * 16, (y % 4) * 16);
        assert(a =~= b);
    } else if n == 2 {
        let x = a[0] as int;
        let y = b[0] as int;
        let x1 = a[1] as int;
        let y1 = b[1] as int;
        assert(ea[0] == eb[0] && ea[1] == eb[1] && ea[2] == eb[2]);
        lemma_b64_char_injective(x / 4, y / 4);
        lemma_b64_char_injective((x % 4) * 16 + x1 / 16, (y % 4) * 16 + y1 / 16);
        lemma_b64_char_injective((x1 % 16) * 4, (y1 % 16) * 4);
        assert(a =~= b);
    } else if n >= 3 {
        let x = a[0] as int;
        let y = b[0] as int;
        let x1 = a[1] as int;
        let y1 = b[1] as int;
        let x2 = a[2] as int;
        let y2 = b[2] as int;
        let ra = a.subrange(3, n);
        let rb = b.subrange(3, m);
        assert(ea[0] == eb[0] && ea[1] == eb[1] && ea[2] == eb[2] && ea[3] == eb[3]);
        lemma_b64_char_injective(x / 4, y / 4);
        lemma_b64_char_injective((x % 4) * 16 + x1 / 16, (y % 4) * 16 + y1 / 16);
        lemma_b64_char_injective((x1 % 16) * 4 + x2 / 64, (y1 % 16) * 4 + y2 / 64);
        lemma_b64_char_injective(x2 % 64, y2 % 64);
        assert(x == y && x1 == y1 && x2 == y2);
        assert(spec_b64_encode(ra) =~= ea.subrange(4, ea.len() as int));
        assert(spec_b64_encode(rb) =~= eb.subrange(4, eb.len() as int));
        lemma_b64_encode_injective(ra, rb);
        assert(a =~= b) by {
            assert forall|i: int| 0 <= i < n implies a[i] == b[i] by {
                if i >= 3 {
                    assert(a[i] == ra[i - 3]);
                    assert(b[i] == rb[i - 3]);
                }
            }
        }
    } else {
        assert(a =~= b);
    }
}

/// Decoding the encoding of some bytes gives those bytes back.
pub proof fn b64_roundtrip(data: Seq<u8>)
    ensures
        spec_b64_decode(spec_b64_encode(data)) == Some(data),
{
    let t = spec_b64_encode(data);
    assert(exists|b: Seq<u8>| spec_b64_encode(b) == t);
    let c = choose|b: Seq<u8>| spec_b64_encode(b) == t;
    lemma_b64_encode_injective(c, data);
}

/// `base64::Engine::decode` with the `URL_SAFE_NO_PAD` engine; an error is
/// reported as `None`. The engine refuses padding and bits set past the last
/// byte, so it accepts exactly the texts that its encoder writes, and gives
/// back the bytes that encode to the text.
#[verifier::external_body]
fn b64_decode_call(text: &str) -> (r: Option<Vec<u8>>)
    ensures
        match r {
            Some(v) => spec_b64_encode(v@) == text@,
            None => forall|b: Seq<u8>| spec_b64_encode(b) != text@,
        },
{
    URL_SAFE_NO_PAD.decode(text).ok()
}

/// Decodes unpadded URL-safe base64.
pub(crate) fn b64_decode(text: &str) -> (r: Option<Vec<u8>>)
    ensures
        match r {
            Some(v) => spec_b64_decode(text@) == Some(v@),
            None => spec_b64_decode(text@) is None,
        },
{
    let r = b64_decode_call(text);
    proof {
        if r is Some {
            b64_roundtrip(r.unwrap()@);
        }
    }
    r
}

/// `base64::Engine::encode` with the `URL_SAFE_NO_PAD` engine: the unpadded
/// URL-safe base64 text of the bytes. It panics only when the encoded length
/// overflows `usize`, which the bound on the input rules out.
#[verifier::external_body]
pub(crate) fn b64_encode(data: &[u8]) -> (r: String)
    requires
        data@.len() <= usize::MAX / 2,
    ensures
        r@ == spec_b64_encode(data@),
{
    URL_SAFE_NO_PAD.encode(data)
}

} // verus!
