//! The fixed-layout descriptor codec shared by all standard descriptors.
use vstd::prelude::*;

verus! {

/// Little-endian 16-bit value made of two wire bytes.
pub open spec fn le16(lo: u8, hi: u8) -> u16 {
    (lo as int + hi as int * 256) as u16
}

/// Low byte of a 16-bit value on the wire.
pub open spec fn lo8(v: u16) -> u8 {
    (v as int % 256) as u8
}

/// High byte of a 16-bit value on the wire.
pub open spec fn hi8(v: u16) -> u8 {
    (v as int / 256) as u8
}

pub fn read_le16(lo: u8, hi: u8) -> (r: u16)
    ensures
        r == le16(lo, hi),
{
    lo as u16 + (hi as u16) * 256
}

pub fn write_lo8(v: u16) -> (r: u8)
    ensures
        r == lo8(v),
{
    (v % 256) as u8
}

pub fn write_hi8(v: u16) -> (r: u8)
    ensures
        r == hi8(v),
{
    (v / 256) as u8
}

/// Splitting a value into its two bytes and joining them again gives it back.
pub proof fn lemma_le16_split(v: u16)
    ensures
        le16(lo8(v), hi8(v)) == v,
{
}

/// Joining two bytes and splitting the value again gives them back.
pub proof fn lemma_le16_join(lo: u8, hi: u8)
    ensures
        lo8(le16(lo, hi)) == lo,
        hi8(le16(lo, hi)) == hi,
{
}

/// A descriptor with a fixed wire layout whose first two bytes are
/// `bLength` and `bDescriptorType`.
pub trait USBDescriptor: Sized + Copy {
    /// Number of bytes of the wire layout.
    spec fn spec_size() -> nat;

    /// The descriptor held in the first `spec_size()` bytes of `b`.
    spec fn spec_decode(b: Seq<u8>) -> Self;

    /// The wire layout of a descriptor.
    spec fn spec_encode(self) -> Seq<u8>;

    /// Number of bytes of the wire layout.
    fn size() -> (n: usize)
        ensures
            n == Self::spec_size(),
            n >= 2,
    ;

    /// Reads the descriptor from the first `size()` bytes of `b`.
    fn decode(b: &[u8]) -> (d: Self)
        requires
            b@.len() >= Self::spec_size(),
        ensures
            d == Self::spec_decode(b@.subrange(0, Self::spec_size() as int)),
    ;

    /// The wire layout of this descriptor.
    fn to_bytes(&self) -> (r: Vec<u8>)
        ensures
            r@ == self.spec_encode(),
    ;

    /// Encoding then decoding gives the descriptor back, and the encoding has the layout's size.
    proof fn lemma_encode_decode(d: Self)
        ensures
            d.spec_encode().len() == Self::spec_size(),
            Self::spec_decode(d.spec_encode()) == d,
    ;

    /// Decoding then encoding gives the bytes back.
    proof fn lemma_decode_encode(b: Seq<u8>)
        requires
            b.len() == Self::spec_size(),
        ensures
            Self::spec_decode(b).spec_encode() == b,
    ;

    /// Parses a descriptor at the start of `b`. The remainder starts after
    /// the descriptor's stated `bLength`, which may differ from the layout's size.
    fn from_bytes(b: &[u8]) -> (res: Option<(Self, &[u8])>)
        requires
            b@.len() >= Self::spec_size() ==> b@[0] <= b@.len(),
        ensures
            b@.len() < Self::spec_size() ==> res is None,
            b@.len() >= Self::spec_size() ==> (res matches Some((d, rest)) && d == Self::spec_decode(
                b@.subrange(0, Self::spec_size() as int),
            ) && rest@ == b@.subrange(b@[0] as int, b@.len() as int)),
    {
        let expected_sz = Self::size();
        if b.len() < expected_sz {
            None
        } else {
            let stated_len = b[0] as usize;
            let rest = b.split_at(stated_len).1;
            Some((Self::decode(b), rest))
        }
    }
}

/// Reading back what `to_bytes` wrote gives the same descriptor: the codec of
/// every fixed-layout descriptor is lossless.
pub proof fn descriptor_roundtrip<D: USBDescriptor>(d: D)
    ensures
        d.spec_encode().len() == D::spec_size(),
        D::spec_decode(d.spec_encode()) == d,
{
    D::lemma_encode_decode(d);
}

/// Writing back what was read from exactly one layout's worth of bytes gives those bytes.
pub proof fn bytes_roundtrip<D: USBDescriptor>(b: Seq<u8>)
    requires
        b.len() == D::spec_size(),
    ensures
        D::spec_decode(b).spec_encode() == b,
{
    D::lemma_decode_encode(b);
}

} // verus!
