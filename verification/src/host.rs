//! Standard-library primitives that vstd leaves unspecified: building a
//! `String`, checked `char` construction, and the host's byte order; with
//! that order, 32-bit numbers are read and written in verified code.
use vstd::prelude::*;

verus! {

/// Little-endian 32-bit value of four bytes.
pub open spec fn le32(b0: u8, b1: u8, b2: u8, b3: u8) -> u32 {
    (b0 as int + b1 as int * 0x100 + b2 as int * 0x10000 + b3 as int * 0x1000000) as u32
}

/// Four bytes read as a 32-bit number, little-endian when `le`, else
/// big-endian.
pub open spec fn read32(b0: u8, b1: u8, b2: u8, b3: u8, le: bool) -> u32 {
    if le {
        le32(b0, b1, b2, b3)
    } else {
        le32(b3, b2, b1, b0)
    }
}

/// Byte `i` (0 the lowest) of `v`.
pub open spec fn byte_of(v: u32, i: int) -> u8 {
    ((v as int / pow256(i)) % 0x100) as u8
}

/// 256 to the power `i`, for `i` up to 3.
pub open spec fn pow256(i: int) -> int {
    if i == 0 {
        1
    } else if i == 1 {
        0x100
    } else if i == 2 {
        0x10000
    } else {
        0x1000000
    }
}

/// The four bytes of `v` as they lie in memory, little-endian when `le`,
/// else big-endian.
pub open spec fn bytes32(v: u32, le: bool) -> Seq<u8> {
    if le {
        seq![byte_of(v, 0), byte_of(v, 1), byte_of(v, 2), byte_of(v, 3)]
    } else {
        seq![byte_of(v, 3), byte_of(v, 2), byte_of(v, 1), byte_of(v, 0)]
    }
}

/// `u16::from_ne_bytes` of the bytes 1 and 0: 1 on a little-endian host and
/// 256 on a big-endian one, the only two orders std supports.
#[verifier::external_body]
fn host_order_probe() -> (r: u16)
    ensures
        r == 1 || r == 256,
{
    u16::from_ne_bytes([1, 0])
}

/// Whether the host stores numbers little-endian.
pub fn host_is_little_endian() -> bool {
    host_order_probe() == 1
}

/// Four bytes read as a 32-bit number in the given order.
pub fn read_u32(b0: u8, b1: u8, b2: u8, b3: u8, le: bool) -> (r: u32)
    ensures
        r == read32(b0, b1, b2, b3, le),
{
    let (x0, x1, x2, x3) = if le {
        (b0, b1, b2, b3)
    } else {
        (b3, b2, b1, b0)
    };
    let r = (x0 as u32) + (x1 as u32) * 0x100 + (x2 as u32) * 0x10000 + (x3 as u32) * 0x1000000;
    r
}

pub proof fn lemma_bytes_of(v: u32)
    ensures
        le32(byte_of(v, 0), byte_of(v, 1), byte_of(v, 2), byte_of(v, 3)) == v,
        swap_bytes32(v) == le32(byte_of(v, 3), byte_of(v, 2), byte_of(v, 1), byte_of(v, 0)),
{
    let x = v as int;
    assert(x == x % 0x100 + (x / 0x100 % 0x100) * 0x100 + (x / 0x10000 % 0x100) * 0x10000 + (x
        / 0x1000000 % 0x100) * 0x1000000);
}

/// The four bytes of `v` in the given order.
pub fn write_u32(v: u32, le: bool) -> (r: [u8; 4])
    ensures
        r@ == bytes32(v, le),
        read32(r@[0], r@[1], r@[2], r@[3], le) == v,
{
    let b0 = (v % 0x100) as u8;
    let b1 = (v / 0x100 % 0x100) as u8;
    let b2 = (v / 0x10000 % 0x100) as u8;
    let b3 = (v / 0x1000000 % 0x100) as u8;
    proof {
        lemma_bytes_of(v);
    }
    let r = if le {
        [b0, b1, b2, b3]
    } else {
        [b3, b2, b1, b0]
    };
    assert(r@ =~= bytes32(v, le));
    r
}

/// `v` with its four bytes in reverse order.
pub fn swap_u32(v: u32) -> (r: u32)
    ensures
        r == swap_bytes32(v),
{
    let b = write_u32(v, true);
    proof {
        lemma_bytes_of(v);
    }
    read_u32(b[3], b[2], b[1], b[0], true)
}

/// `String::from_iter` over the characters of `chars`: the string holds exactly those characters.
#[verifier::external_body]
pub fn string_from_chars(chars: &Vec<char>) -> (s: String)
    ensures
        s@ == chars@,
{
    String::from_iter(chars.iter())
}

/// `char::from_u32`: `Some` of the character with that code exactly when the
/// value is a Unicode scalar value, as std documents.
#[verifier::external_body]
pub fn char_from_u32(v: u32) -> (r: Option<char>)
    ensures
        vstd::utf8::is_scalar(v) ==> r == Some(v as char),
        !vstd::utf8::is_scalar(v) ==> r is None,
{
    char::from_u32(v)
}

/// The value with its four bytes in reverse order.
pub open spec fn swap_bytes32(v: u32) -> u32 {
    le32(
        ((v as int / 0x1000000) % 0x100) as u8,
        ((v as int / 0x10000) % 0x100) as u8,
        ((v as int / 0x100) % 0x100) as u8,
        (v as int % 0x100) as u8,
    )
}

/// `char::is_whitespace`: the Unicode `White_Space` property.
pub open spec fn spec_is_whitespace(c: char) -> bool {
    let v = c as u32;
    (0x09 <= v <= 0x0d) || v == 0x20 || v == 0x85 || v == 0xa0 || v == 0x1680 || (0x2000 <= v
        <= 0x200a) || v == 0x2028 || v == 0x2029 || v == 0x202f || v == 0x205f || v == 0x3000
}

/// The text without its leading whitespace.
pub open spec fn spec_trim_start(s: Seq<char>) -> Seq<char>
    decreases s.len(),
{
    if s.len() > 0 && spec_is_whitespace(s[0]) {
        spec_trim_start(s.drop_first())
    } else {
        s
    }
}

/// The text without its trailing whitespace.
pub open spec fn spec_trim_end(s: Seq<char>) -> Seq<char>
    decreases s.len(),
{
    if s.len() > 0 && spec_is_whitespace(s.last()) {
        spec_trim_end(s.drop_last())
    } else {
        s
    }
}

/// The text without leading and trailing whitespace, as `str::trim` gives it.
pub open spec fn spec_trim(s: Seq<char>) -> Seq<char> {
    spec_trim_end(spec_trim_start(s))
}

/// `std::str::from_utf8`: the text the bytes encode when they are valid
/// UTF-8, and nothing otherwise.
#[verifier::external_body]
pub fn utf8_str(b: &[u8]) -> (r: Option<&str>)
    ensures
        r is Some <==> vstd::utf8::valid_utf8(b@),
        r matches Some(s) ==> s@ == vstd::utf8::decode_utf8(b@),
{
    std::str::from_utf8(b).ok()
}

/// `str::trim`: the text with leading and trailing whitespace removed, where
/// whitespace is the Unicode `White_Space` property.
#[verifier::external_body]
pub fn trim_str(s: &str) -> (r: &str)
    ensures
        r@ == spec_trim(s@),
{
    s.trim()
}

} // verus!
