//! Decoding the descriptors that make up a configuration descriptor set.
use vstd::prelude::*;

use crate::ch9_core::{
    descriptor_types, spec_string_descriptor_ok, ConfigDescriptor, EndpointDescriptor,
    GenericDescriptorHeader, InterfaceDescriptor, StringDescriptor,
};
use crate::descriptor::USBDescriptor;

verus! {

/// Things which can be decoded from a configuration descriptor
#[non_exhaustive]
#[derive(Clone, Debug)]
pub enum DescriptorRef {
    Config(ConfigDescriptor),
    String(StringDescriptor),
    Interface(InterfaceDescriptor),
    Endpoint(EndpointDescriptor),
    UnknownDescriptor(Vec<u8>),
}

/// The mathematical value of a decoded descriptor.
pub enum DescriptorView {
    Config(ConfigDescriptor),
    /// `bLength`, `bDescriptorType` and the payload bytes.
    String(u8, u8, Seq<u8>),
    Interface(InterfaceDescriptor),
    Endpoint(EndpointDescriptor),
    UnknownDescriptor(Seq<u8>),
}

impl View for DescriptorRef {
    type V = DescriptorView;

    open spec fn view(&self) -> DescriptorView {
        match self {
            DescriptorRef::Config(d) => DescriptorView::Config(*d),
            DescriptorRef::String(d) => DescriptorView::String(d.bLength, d.bDescriptorType, d.bytes@),
            DescriptorRef::Interface(d) => DescriptorView::Interface(*d),
            DescriptorRef::Endpoint(d) => DescriptorView::Endpoint(*d),
            DescriptorRef::UnknownDescriptor(b) => DescriptorView::UnknownDescriptor(b@),
        }
    }
}

/// The next descriptor at the start of `s` and the number of bytes it takes
/// (its `bLength`), or `None` when decoding stops there: fewer than two bytes
/// left, a known descriptor type with fewer bytes than its layout, or a string
/// descriptor that does not fit.
pub open spec fn spec_next(s: Seq<u8>) -> Option<(DescriptorView, int)> {
    if s.len() < 2 {
        None
    } else {
        let ty = s[1];
        let len = s[0] as int;
        if ty == descriptor_types::CONFIGURATION || ty == descriptor_types::OTHER_SPEED_CONFIGURATION {
            if s.len() < 9 {
                None
            } else {
                Some((DescriptorView::Config(ConfigDescriptor::spec_decode(s.subrange(0, 9))), len))
            }
        } else if ty == descriptor_types::INTERFACE {
            if s.len() < 9 {
                None
            } else {
                Some(
                    (
                        DescriptorView::Interface(InterfaceDescriptor::spec_decode(s.subrange(0, 9))),
                        len,
                    ),
                )
            }
        } else if ty == descriptor_types::STRING {
            if spec_string_descriptor_ok(s) {
                Some((DescriptorView::String(s[0], s[1], s.subrange(2, len)), len))
            } else {
                None
            }
        } else if ty == descriptor_types::ENDPOINT {
            if s.len() < 7 {
                None
            } else {
                Some(
                    (
                        DescriptorView::Endpoint(EndpointDescriptor::spec_decode(s.subrange(0, 7))),
                        len,
                    ),
                )
            }
        } else {
            Some((DescriptorView::UnknownDescriptor(s.subrange(0, len)), len))
        }
    }
}

/// Where decoding the next descriptor would fail outright: a header whose
/// stated length runs past the end of the input. Reading the two-byte header
/// already moves past `bLength`, whatever the descriptor's type, so this
/// holds of every type, a string descriptor or one too short for its layout
/// included.
pub open spec fn spec_next_overruns(s: Seq<u8>) -> bool {
    s.len() >= 2 && s[0] > s.len()
}

/// A descriptor set that can be walked to its end: no header overruns the
/// input and every descriptor decoded on the way takes at least one byte.
pub open spec fn spec_well_framed(s: Seq<u8>) -> bool
    decreases s.len(),
{
    if spec_next_overruns(s) {
        false
    } else {
        match spec_next(s) {
            None => true,
            Some((_, n)) => 0 < n <= s.len() && spec_well_framed(s.subrange(n, s.len() as int)),
        }
    }
}

/// Every descriptor that walking a well-framed set yields, in order.
pub open spec fn spec_descriptors(s: Seq<u8>) -> Seq<DescriptorView>
    decreases s.len(),
{
    match spec_next(s) {
        None => seq![],
        Some((d, n)) => if 0 < n <= s.len() {
            seq![d] + spec_descriptors(s.subrange(n, s.len() as int))
        } else {
            seq![d]
        },
    }
}

/// Decode things which can exist in a configuration descriptor
pub struct ParseDescriptorSet<'a>(&'a [u8]);

impl<'a> View for ParseDescriptorSet<'a> {
    type V = Seq<u8>;

    closed spec fn view(&self) -> Seq<u8> {
        self.0@
    }
}

/// Starts decoding the descriptors in `inp`.
pub fn parse_descriptor_set(inp: &[u8]) -> (r: ParseDescriptorSet<'_>)
    ensures
        r@ == inp@,
{
    ParseDescriptorSet(inp)
}

/// Whether `s` can be walked to its end without a header overrunning the
/// input or a descriptor of length zero.
pub fn is_well_framed(s: &[u8]) -> (r: bool)
    ensures
        r == spec_well_framed(s@),
{
    let mut rest = parse_descriptor_set(s);
    loop
        invariant
            spec_well_framed(s@) == spec_well_framed(rest@),
        decreases rest@.len(),
    {
        if rest.0.len() >= 2 && (rest.0[0] as usize) > rest.0.len() {
            return false;
        }
        let before_len = rest.0.len();
        match rest.next() {
            None => {
                return true;
            },
            Some(_) => {
                if rest.0.len() == before_len {
                    return false;
                }
            },
        }
    }
}

impl<'a> ParseDescriptorSet<'a> {
    /// Decodes the next descriptor and moves past its stated length; `None`
    /// (with nothing consumed) where decoding stops.
    pub fn next(&mut self) -> (r: Option<DescriptorRef>)
        requires
            !spec_next_overruns(old(self)@),
        ensures
            match spec_next(old(self)@) {
                None => r is None && final(self)@ == old(self)@,
                Some((d, n)) => {
                    &&& r matches Some(x) && x@ == d
                    &&& 0 <= n <= old(self)@.len()
                    &&& final(self)@ == old(self)@.subrange(n, old(self)@.len() as int)
                },
            },
    {
        let s = self.0;
        if let Some((generic_desc, _)) = GenericDescriptorHeader::from_bytes(s) {
            let desc_ty = generic_desc.bDescriptorType;
            let ghost hdr = s@.subrange(0, 2);
            proof {
                assert(hdr[1] == s@[1]);
                assert(hdr[0] == s@[0]);
            }
            if desc_ty == descriptor_types::CONFIGURATION || desc_ty
                == descriptor_types::OTHER_SPEED_CONFIGURATION {
                match ConfigDescriptor::from_bytes(s) {
                    Some((d, rest)) => {
                        self.0 = rest;
                        Some(DescriptorRef::Config(d))
                    },
                    None => None,
                }
            } else if desc_ty == descriptor_types::INTERFACE {
                match InterfaceDescriptor::from_bytes(s) {
                    Some((d, rest)) => {
                        self.0 = rest;
                        Some(DescriptorRef::Interface(d))
                    },
                    None => None,
                }
            } else if desc_ty == descriptor_types::STRING {
                match StringDescriptor::try_from_bytes(s) {
                    Some((d, rest)) => {
                        self.0 = rest;
                        Some(DescriptorRef::String(d))
                    },
                    None => None,
                }
            } else if desc_ty == descriptor_types::ENDPOINT {
                match EndpointDescriptor::from_bytes(s) {
                    Some((d, rest)) => {
                        self.0 = rest;
                        Some(DescriptorRef::Endpoint(d))
                    },
                    None => None,
                }
            } else {
                let len = generic_desc.bLength as usize;
                let (head, rest) = s.split_at(len);
                self.0 = rest;
                Some(DescriptorRef::UnknownDescriptor(vstd::slice::slice_to_vec(head)))
            }
        } else {
            None
        }
    }

    /// Every remaining descriptor, in order: what iterating to the end yields.
    pub fn descriptors(&mut self) -> (r: Vec<DescriptorRef>)
        requires
            spec_well_framed(old(self)@),
        ensures
            r@.len() == spec_descriptors(old(self)@).len(),
            forall|i: int| 0 <= i < r@.len() ==> (#[trigger] r@[i])@ == spec_descriptors(old(self)@)[i],
    {
        let ghost start = self@;
        assert(start == old(self)@);
        let mut out: Vec<DescriptorRef> = Vec::new();
        proof {
            assert(out@.map_values(|d: DescriptorRef| d@) + spec_descriptors(start) =~= spec_descriptors(start));
        }
        loop
            invariant
                start == old(self)@,
                spec_well_framed(self@),
                spec_descriptors(start) == out@.map_values(|d: DescriptorRef| d@) + spec_descriptors(
                    self@,
                ),
            decreases self@.len(),
        {
            let ghost before = self@;
            match self.next() {
                None => {
                    proof {
                        assert(spec_next(before) is None);
                        assert(spec_descriptors(before) =~= Seq::<DescriptorView>::empty());
                        assert(out@.map_values(|d: DescriptorRef| d@).len() == out@.len());
                        assert(out@.map_values(|d: DescriptorRef| d@) + spec_descriptors(before)
                            =~= out@.map_values(|d: DescriptorRef| d@));
                        assert(spec_descriptors(start) == out@.map_values(|d: DescriptorRef| d@));
                        assert forall|i: int| 0 <= i < out@.len() implies (#[trigger] out@[i])@
                            == spec_descriptors(start)[i] by {
                            assert(out@.map_values(|d: DescriptorRef| d@)[i] == out@[i]@);
                        }
                    }
                    return out;
                },
                Some(d) => {
                    let ghost old_out = out@;
                    out.push(d);
                    proof {
                        assert(out@.map_values(|d: DescriptorRef| d@) =~= old_out.map_values(
                            |d: DescriptorRef| d@,
                        ).push(d@));
                        assert(spec_descriptors(start) =~= out@.map_values(|d: DescriptorRef| d@)
                            + spec_descriptors(self@));
                    }
                },
            }
        }
    }
}


/// Walking a descriptor set reads each descriptor by the type in its header
/// and steps over its stated length: a configuration (type 2, or 7 for the
/// other speed) or interface (type 4) descriptor needs its nine bytes, an
/// endpoint descriptor (type 5) its seven, and a string descriptor (type 3) a
/// stated length from 2 up to what is left; any other type is passed on as
/// its raw bytes. Fewer than two bytes, or a known type that does not fit,
/// end the walk.
pub proof fn descriptor_walk_follows_headers(s: Seq<u8>)
    ensures
        s.len() < 2 ==> spec_next(s) is None,
        s.len() >= 2 ==> {
            let ty = s[1];
            let len = s[0] as int;
            &&& (ty == 2 || ty == 7) ==> spec_next(s) == if s.len() >= 9 {
                Some((DescriptorView::Config(ConfigDescriptor::spec_decode(s.subrange(0, 9))), len))
            } else {
                None
            }
            &&& ty == 4 ==> spec_next(s) == if s.len() >= 9 {
                Some(
                    (DescriptorView::Interface(InterfaceDescriptor::spec_decode(s.subrange(0, 9))), len),
                )
            } else {
                None
            }
            &&& ty == 5 ==> spec_next(s) == if s.len() >= 7 {
                Some(
                    (DescriptorView::Endpoint(EndpointDescriptor::spec_decode(s.subrange(0, 7))), len),
                )
            } else {
                None
            }
            &&& ty == 3 ==> spec_next(s) == if 2 <= len <= s.len() {
                Some((DescriptorView::String(s[0], s[1], s.subrange(2, len)), len))
            } else {
                None
            }
            &&& (ty != 2 && ty != 7 && ty != 4 && ty != 5 && ty != 3) ==> spec_next(s) == Some(
                (DescriptorView::UnknownDescriptor(s.subrange(0, len)), len),
            )
        },
{
}

} // verus!
