//! The bookkeeping of the macOS backend: UUIDs of IOKit plug-in interfaces,
//! the interface search that matches every interface, and the pipes through
//! which IOKit reaches each endpoint of a claimed interface.
use vstd::prelude::*;

use std::collections::HashMap;

use crate::ch9_core::{descriptor_types, DeviceDescriptor};
use crate::descriptor::USBDescriptor;
use crate::protocol::Errors;

verus! {

broadcast use vstd::std_specs::hash::group_hash_axioms;

/// The sixteen bytes of a UUID, as CoreFoundation passes them by value.
#[derive(Clone, Copy)]
pub struct CFUUIDBytes {
    bytes: [u8; 16],
}

/// An uppercase hexadecimal digit.
pub open spec fn hex_upper(v: nat) -> char {
    if v < 10 {
        (48 + v) as char
    } else {
        (55 + v) as char
    }
}

/// The two uppercase hexadecimal digits of a byte.
pub open spec fn spec_hex_byte(b: u8) -> Seq<char> {
    seq![hex_upper(b as nat / 16), hex_upper(b as nat % 16)]
}

/// Two uppercase hexadecimal digits for each byte of `b[from..to]`.
pub open spec fn spec_hex_run(b: Seq<u8>, from: int, to: int) -> Seq<char>
    decreases to - from,
{
    if to <= from {
        seq![]
    } else {
        spec_hex_run(b, from, to - 1) + spec_hex_byte(b[to - 1])
    }
}

/// A UUID written in the usual way: 8, 4, 4, 4 and 12 uppercase digits
/// separated by dashes.
pub open spec fn spec_uuid_text(b: Seq<u8>) -> Seq<char> {
    spec_hex_run(b, 0, 4) + seq!['-'] + spec_hex_run(b, 4, 6) + seq!['-'] + spec_hex_run(b, 6, 8)
        + seq!['-'] + spec_hex_run(b, 8, 10) + seq!['-'] + spec_hex_run(b, 10, 16)
}

/// Appends two uppercase hexadecimal digits for each byte of `b[from..to]`.
fn push_hex_run(out: &mut Vec<char>, b: &[u8; 16], from: usize, to: usize)
    requires
        from <= to <= 16,
    ensures
        final(out)@ == old(out)@ + spec_hex_run(b@, from as int, to as int),
{
    let ghost base = out@;
    let mut i = from;
    while i < to
        invariant
            from <= i <= to <= 16,
            out@ == base + spec_hex_run(b@, from as int, i as int),
        decreases to - i,
    {
        let x = b[i];
        let hi = x / 16;
        let lo = x % 16;
        let c_hi = if hi < 10 {
            (48 + hi) as char
        } else {
            (55 + hi) as char
        };
        let c_lo = if lo < 10 {
            (48 + lo) as char
        } else {
            (55 + lo) as char
        };
        out.push(c_hi);
        out.push(c_lo);
        proof {
            assert(spec_hex_run(b@, from as int, i + 1) == spec_hex_run(b@, from as int, i as int)
                + spec_hex_byte(b@[i as int]));
            assert(out@ =~= base + spec_hex_run(b@, from as int, i + 1));
        }
        i = i + 1;
    }
}

impl CFUUIDBytes {
    /// The bytes of the UUID, in order.
    pub closed spec fn spec_bytes(&self) -> Seq<u8> {
        self.bytes@
    }

    /// A UUID made of these bytes.
    pub fn new(bytes: [u8; 16]) -> (r: Self)
        ensures
            r.spec_bytes() == bytes@,
    {
        CFUUIDBytes { bytes }
    }

    /// The UUID as it is written to the log.
    pub fn debug_string(&self) -> (r: String)
        ensures
            r@ == spec_uuid_text(self.spec_bytes()),
    {
        let mut out: Vec<char> = Vec::new();
        push_hex_run(&mut out, &self.bytes, 0, 4);
        out.push('-');
        push_hex_run(&mut out, &self.bytes, 4, 6);
        out.push('-');
        push_hex_run(&mut out, &self.bytes, 6, 8);
        out.push('-');
        push_hex_run(&mut out, &self.bytes, 8, 10);
        out.push('-');
        push_hex_run(&mut out, &self.bytes, 10, 16);
        assert(out@ =~= spec_uuid_text(self.spec_bytes()));
        crate::host::string_from_chars(&out)
    }
}

/// The device descriptor of a device whose fields IOKit reports one by one.
#[allow(non_snake_case)]
pub fn device_descriptor_from_fields(
    bcdUSB: u16,
    bMaxPacketSize0: u8,
    bDeviceClass: u8,
    bDeviceSubClass: u8,
    bDeviceProtocol: u8,
    idVendor: u16,
    idProduct: u16,
    bcdDevice: u16,
    iManufacturer: u8,
    iProduct: u8,
    iSerialNumber: u8,
    bNumConfigurations: u8,
) -> (r: DeviceDescriptor)
    ensures
        r == (DeviceDescriptor {
            bLength: 18,
            bDescriptorType: descriptor_types::DEVICE,
            bcdUSB,
            bDeviceClass,
            bDeviceSubClass,
            bDeviceProtocol,
            bMaxPacketSize0,
            idVendor,
            idProduct,
            bcdDevice,
            iManufacturer,
            iProduct,
            iSerialNumber,
            bNumConfigurations,
        }),
{
    DeviceDescriptor {
        bLength: DeviceDescriptor::size() as u8,
        bDescriptorType: descriptor_types::DEVICE,
        bcdUSB,
        bDeviceClass,
        bDeviceSubClass,
        bDeviceProtocol,
        bMaxPacketSize0,
        idVendor,
        idProduct,
        bcdDevice,
        iManufacturer,
        iProduct,
        iSerialNumber,
        bNumConfigurations,
    }
}

/// What IOKit is asked for when looking up a device's interfaces; `0xffff`
/// in a field matches any value.
#[allow(non_snake_case)]
#[derive(Clone, Copy, PartialEq, Eq, Structural, Debug)]
pub struct IOUSBFindInterfaceRequest {
    pub bInterfaceClass: u16,
    pub bInterfaceSubClass: u16,
    pub bInterfaceProtocol: u16,
    pub bAlternateSetting: u16,
}

/// The value of a field of [`IOUSBFindInterfaceRequest`] that matches anything.
pub const K_IOUSB_FIND_INTERFACE_DONT_CARE: u16 = 0xffff;

/// The search that matches every interface of a device.
pub fn find_every_interface() -> (r: IOUSBFindInterfaceRequest)
    ensures
        r.bInterfaceClass == K_IOUSB_FIND_INTERFACE_DONT_CARE,
        r.bInterfaceSubClass == K_IOUSB_FIND_INTERFACE_DONT_CARE,
        r.bInterfaceProtocol == K_IOUSB_FIND_INTERFACE_DONT_CARE,
        r.bAlternateSetting == K_IOUSB_FIND_INTERFACE_DONT_CARE,
{
    IOUSBFindInterfaceRequest {
        bInterfaceClass: K_IOUSB_FIND_INTERFACE_DONT_CARE,
        bInterfaceSubClass: K_IOUSB_FIND_INTERFACE_DONT_CARE,
        bInterfaceProtocol: K_IOUSB_FIND_INTERFACE_DONT_CARE,
        bAlternateSetting: K_IOUSB_FIND_INTERFACE_DONT_CARE,
    }
}

/// What IOKit reports about one pipe of an interface.
#[derive(Clone, Copy, PartialEq, Eq, Structural, Debug)]
pub struct PipeProperties {
    /// Nonzero for a device-to-host pipe.
    pub direction: u8,
    pub number: u8,
    pub transfer_type: u8,
    pub max_packet_size: u16,
    pub interval: u8,
}

/// The endpoint address of a pipe: its number, with the top bit set for a
/// device-to-host pipe.
pub open spec fn spec_endpoint_address(p: PipeProperties) -> u8 {
    if p.direction != 0 {
        p.number | 0x80
    } else {
        p.number
    }
}

impl PipeProperties {
    /// The endpoint address of the pipe.
    pub fn endpoint_address(&self) -> (r: u8)
        ensures
            r == spec_endpoint_address(*self),
    {
        if self.direction != 0 {
            self.number | 0x80
        } else {
            self.number
        }
    }
}

/// The endpoint addresses of the pipes that could be read, in pipe order;
/// a pipe whose properties could not be read is left out.
pub open spec fn spec_endpoint_addresses(pipes: Seq<Option<PipeProperties>>) -> Seq<u8>
    decreases pipes.len(),
{
    if pipes.len() == 0 {
        seq![]
    } else {
        spec_endpoint_addresses(pipes.drop_last()) + match pipes.last() {
            Some(p) => seq![spec_endpoint_address(p)],
            None => seq![],
        }
    }
}

/// The endpoint addresses of an interface's pipes (pipe `i + 1` is the
/// `i`th entry of `pipes`).
pub fn endpoint_addresses(pipes: &[Option<PipeProperties>]) -> (r: Vec<u8>)
    ensures
        r@ == spec_endpoint_addresses(pipes@),
{
    let mut out: Vec<u8> = Vec::new();
    let mut i: usize = 0;
    while i < pipes.len()
        invariant
            i <= pipes@.len(),
            out@ == spec_endpoint_addresses(pipes@.subrange(0, i as int)),
        decreases pipes@.len() - i,
    {
        let ghost pre = pipes@.subrange(0, i as int + 1);
        assert(pre.drop_last() =~= pipes@.subrange(0, i as int));
        match &pipes[i] {
            Some(p) => out.push(p.endpoint_address()),
            None => {},
        }
        assert(out@ =~= spec_endpoint_addresses(pre));
        i = i + 1;
    }
    assert(pipes@.subrange(0, i as int) =~= pipes@);
    out
}

/// The pipe table after an interface's endpoints are registered: endpoint
/// `eps[k]` is reached through pipe `k + 1` of the interface with index
/// `iface_idx`. A later entry for the same endpoint wins.
pub open spec fn spec_register_pipes(
    m: Map<u8, (usize, u8)>,
    iface_idx: usize,
    eps: Seq<u8>,
) -> Map<u8, (usize, u8)>
    decreases eps.len(),
{
    if eps.len() == 0 {
        m
    } else {
        spec_register_pipes(m, iface_idx, eps.drop_last()).insert(
            eps.last(),
            (iface_idx, eps.len() as u8),
        )
    }
}

/// Registers the endpoints of a newly claimed (or newly configured)
/// interface; says whether any of them was already registered when its turn
/// came (by an earlier interface, or earlier in `eps`).
pub fn register_pipes(
    pipes: &mut HashMap<u8, (usize, u8)>,
    iface_idx: usize,
    eps: &Vec<u8>,
) -> (duplicate: bool)
    ensures
        final(pipes)@ == spec_register_pipes(old(pipes)@, iface_idx, eps@),
        duplicate <==> exists|k: int|
            0 <= k < eps@.len() && #[trigger] spec_register_pipes(
                old(pipes)@,
                iface_idx,
                eps@.subrange(0, k),
            ).contains_key(eps@[k]),
{
    let ghost start = pipes@;
    let mut duplicate = false;
    let mut k: usize = 0;
    while k < eps.len()
        invariant
            k <= eps@.len(),
            pipes@ == spec_register_pipes(start, iface_idx, eps@.subrange(0, k as int)),
            duplicate <==> exists|j: int|
                0 <= j < k && #[trigger] spec_register_pipes(
                    start,
                    iface_idx,
                    eps@.subrange(0, j),
                ).contains_key(eps@[j]),
        decreases eps@.len() - k,
    {
        let ghost pre = eps@.subrange(0, k as int + 1);
        assert(pre.drop_last() =~= eps@.subrange(0, k as int));
        let ghost before = pipes@;
        let old = pipes.insert(eps[k], (iface_idx, (k + 1) as u8));
        if old.is_some() {
            duplicate = true;
        }
        proof {
            assert(old is Some <==> before.contains_key(eps@[k as int]));
            if duplicate {
                if old is Some {
                    assert(spec_register_pipes(start, iface_idx, eps@.subrange(0, k as int)).contains_key(
                        eps@[k as int],
                    ));
                }
            }
        }
        k = k + 1;
    }
    assert(eps@.subrange(0, k as int) =~= eps@);
    duplicate
}

/// Forgets the endpoints of an interface that was released or changed.
pub fn unregister_pipes(pipes: &mut HashMap<u8, (usize, u8)>, eps: &Vec<u8>)
    ensures
        final(pipes)@ == old(pipes)@.remove_keys(eps@.to_set()),
{
    let ghost start = pipes@;
    let mut k: usize = 0;
    while k < eps.len()
        invariant
            k <= eps@.len(),
            pipes@ == start.remove_keys(eps@.subrange(0, k as int).to_set()),
        decreases eps@.len() - k,
    {
        pipes.remove(&eps[k]);
        proof {
            assert(eps@.subrange(0, k as int + 1) =~= eps@.subrange(0, k as int).push(eps@[k as int]));
            eps@.subrange(0, k as int).lemma_push_to_set_commute(eps@[k as int]);
            assert(pipes@ =~= start.remove_keys(eps@.subrange(0, k as int + 1).to_set()));
        }
        k = k + 1;
    }
    assert(eps@.subrange(0, k as int) =~= eps@);
}

/// The interface index and pipe through which an endpoint is reached; an
/// endpoint without a pipe is not a valid number.
pub fn pipe_for_endpoint(pipes: &HashMap<u8, (usize, u8)>, ep: u8) -> (r: Result<(usize, u8), Errors>)
    ensures
        pipes@.contains_key(ep) ==> r == Ok::<(usize, u8), Errors>(pipes@[ep]),
        !pipes@.contains_key(ep) ==> r == Err::<(usize, u8), Errors>(Errors::InvalidNumber),
{
    match pipes.get(&ep) {
        Some(p) => Ok(*p),
        None => Err(Errors::InvalidNumber),
    }
}


/// After an interface's endpoints are registered, each of them is reached
/// through that interface, by the pipe that follows its last place in the
/// list (pipe `k + 1` for place `k`), and every other endpoint is reached as
/// before.
#[verifier::rlimit(40)]
pub proof fn registered_endpoints_reach_their_pipes(
    m: Map<u8, (usize, u8)>,
    iface_idx: usize,
    eps: Seq<u8>,
)
    ensures
        forall|k: int|
            0 <= k < eps.len() && (forall|j: int| k < j < eps.len() ==> eps[j] != eps[k]) ==> {
                &&& spec_register_pipes(m, iface_idx, eps).contains_key(#[trigger] eps[k])
                &&& spec_register_pipes(m, iface_idx, eps)[eps[k]] == (iface_idx, (k + 1) as u8)
            },
        forall|e: u8|
            !eps.contains(e) ==> (#[trigger] spec_register_pipes(m, iface_idx, eps).contains_key(e)
                == m.contains_key(e) && (m.contains_key(e) ==> spec_register_pipes(
                m,
                iface_idx,
                eps,
            )[e] == m[e])),
    decreases eps.len(),
{
    if eps.len() > 0 {
        let p = eps.drop_last();
        registered_endpoints_reach_their_pipes(m, iface_idx, p);
        let r = spec_register_pipes(m, iface_idx, eps);
        let rp = spec_register_pipes(m, iface_idx, p);
        let last = eps.len() - 1;
        assert(r == rp.insert(eps[last], (iface_idx, eps.len() as u8)));
        assert forall|k: int|
            0 <= k < eps.len() && (forall|j: int| k < j < eps.len() ==> eps[j] != eps[k]) implies {
                &&& r.contains_key(#[trigger] eps[k])
                &&& r[eps[k]] == (iface_idx, (k + 1) as u8)
            } by {
            if k < last {
                assert(eps[last] != eps[k]);
                assert(p[k] == eps[k]);
                assert forall|j: int| k < j < p.len() implies p[j] != p[k] by {
                    assert(p[j] == eps[j]);
                }
                assert(rp.contains_key(p[k]) && rp[p[k]] == (iface_idx, (k + 1) as u8));
            } else {
                assert(k == last);
            }
        }
        assert forall|e: u8| !eps.contains(e) implies (#[trigger] r.contains_key(e) == m.contains_key(e)
            && (m.contains_key(e) ==> r[e] == m[e])) by {
            assert(e != eps[last]);
            assert(!p.contains(e)) by {
                if p.contains(e) {
                    let j = choose|j: int| 0 <= j < p.len() && p[j] == e;
                    assert(eps[j] == e);
                }
            }
        }
    }
}

} // verus!
