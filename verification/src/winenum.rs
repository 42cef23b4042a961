//! The text handling of Windows device enumeration: GUIDs as the registry
//! writes them, `REG_MULTI_SZ` lists, Configuration Manager error names,
//! driver names, and the instance ids and location strings that tell which
//! interface and which hub port a device is.
use vstd::prelude::*;
use vstd::string::*;

use crate::ch9_core::{descriptor_types, spec_string_descriptor_ok, DeviceDescriptor, StringDescriptor};
use crate::descriptor::{le16, read_le16};
use crate::descriptor_set::{
    parse_descriptor_set, spec_descriptors, spec_well_framed, DescriptorRef, DescriptorView,
};
use crate::device::blobs_view;
use crate::numtext::{decimal_string, parse_unsigned, spec_decimal, spec_parse_unsigned};
use crate::seqs::{find_byte, first_index, lemma_split_start, lemma_split_step, split_seq};

verus! {

/// A GUID in the layout Windows uses.
#[derive(Clone, Copy, Debug)]
pub struct Guid {
    pub data1: u32,
    pub data2: u16,
    pub data3: u16,
    pub data4: [u8; 8],
}

/// A lowercase hexadecimal digit.
pub open spec fn hex_digit(v: nat) -> char {
    if v < 10 {
        (48 + v) as char
    } else {
        (87 + v) as char
    }
}

/// The lowest `width` hexadecimal digits of `v`, most significant first.
pub open spec fn spec_hex(v: nat, width: nat) -> Seq<char>
    decreases width,
{
    if width == 0 {
        seq![]
    } else {
        spec_hex(v / 16, (width - 1) as nat).push(hex_digit(v % 16))
    }
}

/// Appends the lowest `width` hexadecimal digits of `v`.
fn push_hex(out: &mut Vec<char>, v: u64, width: usize)
    ensures
        final(out)@ == old(out)@ + spec_hex(v as nat, width as nat),
    decreases width,
{
    if width > 0 {
        push_hex(out, v / 16, width - 1);
        let d = (v % 16) as u8;
        let c = if d < 10 {
            (48 + d) as char
        } else {
            (87 + d) as char
        };
        out.push(c);
        proof {
            assert(spec_hex(v as nat, width as nat) == spec_hex((v / 16) as nat, (width - 1) as nat).push(
                hex_digit((v % 16) as nat),
            ));
        }
    }
}

/// The text of a GUID in registry form, lowercase:
/// `{xxxxxxxx-xxxx-xxxx-xxxx-xxxxxxxxxxxx}`.
pub open spec fn spec_guid_text(g: Guid) -> Seq<char> {
    seq!['{'] + spec_hex(g.data1 as nat, 8) + seq!['-'] + spec_hex(g.data2 as nat, 4) + seq!['-']
        + spec_hex(g.data3 as nat, 4) + seq!['-'] + spec_hex(g.data4@[0] as nat, 2) + spec_hex(
        g.data4@[1] as nat,
        2,
    ) + seq!['-'] + spec_hex(g.data4@[2] as nat, 2) + spec_hex(g.data4@[3] as nat, 2) + spec_hex(
        g.data4@[4] as nat,
        2,
    ) + spec_hex(g.data4@[5] as nat, 2) + spec_hex(g.data4@[6] as nat, 2) + spec_hex(
        g.data4@[7] as nat,
        2,
    ) + seq!['}']
}

impl Guid {
    /// The GUID in registry form, as it is written to the log.
    pub fn debug_string(&self) -> (r: String)
        ensures
            r@ == spec_guid_text(*self),
    {
        let mut out: Vec<char> = Vec::new();
        out.push('{');
        push_hex(&mut out, self.data1 as u64, 8);
        out.push('-');
        push_hex(&mut out, self.data2 as u64, 4);
        out.push('-');
        push_hex(&mut out, self.data3 as u64, 4);
        out.push('-');
        push_hex(&mut out, self.data4[0] as u64, 2);
        push_hex(&mut out, self.data4[1] as u64, 2);
        out.push('-');
        let mut i: usize = 2;
        while i < 8
            invariant
                2 <= i <= 8,
                out@ == seq!['{'] + spec_hex(self.data1 as nat, 8) + seq!['-'] + spec_hex(
                    self.data2 as nat,
                    4,
                ) + seq!['-'] + spec_hex(self.data3 as nat, 4) + seq!['-'] + spec_hex(
                    self.data4@[0] as nat,
                    2,
                ) + spec_hex(self.data4@[1] as nat, 2) + seq!['-'] + spec_hex_bytes(
                    self.data4@.subrange(2, i as int),
                ),
            decreases 8 - i,
        {
            let ghost before = out@;
            push_hex(&mut out, self.data4[i] as u64, 2);
            proof {
                let s = self.data4@.subrange(2, i as int + 1);
                assert(s.drop_last() =~= self.data4@.subrange(2, i as int));
                assert(spec_hex_bytes(s) == spec_hex_bytes(s.drop_last()) + spec_hex(
                    s.last() as nat,
                    2,
                ));
                assert(out@ =~= before + spec_hex(self.data4@[i as int] as nat, 2));
            }
            i = i + 1;
        }
        out.push('}');
        proof {
            let s = self.data4@.subrange(2, 8);
            assert(spec_hex_bytes(s) =~= spec_hex(self.data4@[2] as nat, 2) + spec_hex(
                self.data4@[3] as nat,
                2,
            ) + spec_hex(self.data4@[4] as nat, 2) + spec_hex(self.data4@[5] as nat, 2) + spec_hex(
                self.data4@[6] as nat,
                2,
            ) + spec_hex(self.data4@[7] as nat, 2)) by {
                reveal_with_fuel(spec_hex_bytes, 7);
                assert(s.drop_last() =~= self.data4@.subrange(2, 7));
                assert(s.drop_last().drop_last() =~= self.data4@.subrange(2, 6));
                assert(s.drop_last().drop_last().drop_last() =~= self.data4@.subrange(2, 5));
                assert(s.drop_last().drop_last().drop_last().drop_last() =~= self.data4@.subrange(
                    2,
                    4,
                ));
                assert(s.drop_last().drop_last().drop_last().drop_last().drop_last()
                    =~= self.data4@.subrange(2, 3));
                assert(self.data4@.subrange(2, 3).drop_last() =~= Seq::<u8>::empty());
            }
            assert(out@ =~= spec_guid_text(*self));
        }
        crate::host::string_from_chars(&out)
    }
}

/// Two hexadecimal digits for each byte.
pub open spec fn spec_hex_bytes(b: Seq<u8>) -> Seq<char>
    decreases b.len(),
{
    if b.len() == 0 {
        seq![]
    } else {
        spec_hex_bytes(b.drop_last()) + spec_hex(b.last() as nat, 2)
    }
}

/// Whether two GUIDs are the same, field by field.
pub open spec fn spec_guid_eq(a: Guid, b: Guid) -> bool {
    a.data1 == b.data1 && a.data2 == b.data2 && a.data3 == b.data3 && a.data4@ == b.data4@
}

/// Compares two GUIDs field by field.
pub fn guid_eq(a: &Guid, b: &Guid) -> (r: bool)
    ensures
        r == spec_guid_eq(*a, *b),
{
    if a.data1 != b.data1 || a.data2 != b.data2 || a.data3 != b.data3 {
        return false;
    }
    let mut i: usize = 0;
    while i < 8
        invariant
            i <= 8,
            forall|j: int| 0 <= j < i ==> a.data4@[j] == b.data4@[j],
        decreases 8 - i,
    {
        if a.data4[i] != b.data4[i] {
            return false;
        }
        i = i + 1;
    }
    assert(a.data4@ =~= b.data4@);
    true
}

/// Whether `g` is among the GUIDs of `list`.
pub fn guid_listed(list: &[Guid], g: &Guid) -> (r: bool)
    ensures
        r <==> exists|i: int| 0 <= i < list@.len() && spec_guid_eq(#[trigger] list@[i], *g),
{
    let mut i: usize = 0;
    while i < list.len()
        invariant
            i <= list@.len(),
            forall|j: int| 0 <= j < i ==> !spec_guid_eq(#[trigger] list@[j], *g),
        decreases list@.len() - i,
    {
        if guid_eq(&list[i], g) {
            return true;
        }
        i = i + 1;
    }
    false
}

/// `s` without a leading `c`.
pub open spec fn strip_first(s: Seq<u8>, c: u8) -> Seq<u8> {
    if s.len() > 0 && s[0] == c {
        s.drop_first()
    } else {
        s
    }
}

/// `s` without a trailing `c`.
pub open spec fn strip_last(s: Seq<u8>, c: u8) -> Seq<u8> {
    if s.len() > 0 && s.last() == c {
        s.drop_last()
    } else {
        s
    }
}

/// A GUID's text without its opening brace, its terminating NUL and its
/// closing brace, each where present.
pub open spec fn spec_guid_body(b: Seq<u8>) -> Seq<u8> {
    strip_last(strip_last(strip_first(b, 0x7b), 0), 0x7d)
}

/// `s` holds a dash.
pub open spec fn has_dash(s: Seq<u8>) -> bool {
    first_index(s, 0x2du8) < s.len()
}

/// What comes before the first dash of `s`.
pub open spec fn before_dash(s: Seq<u8>) -> Seq<u8> {
    s.subrange(0, first_index(s, 0x2du8))
}

/// What comes after the first dash of `s`.
pub open spec fn after_dash(s: Seq<u8>) -> Seq<u8> {
    s.subrange(first_index(s, 0x2du8) + 1, s.len() as int)
}

/// The five fields of a GUID's text: the body split at its first four
/// dashes (the last field keeps any further dashes), if it has four.
#[verifier::opaque]
pub open spec fn spec_guid_fields(b: Seq<u8>) -> Option<Seq<Seq<u8>>> {
    let s0 = spec_guid_body(b);
    let s1 = after_dash(s0);
    let s2 = after_dash(s1);
    let s3 = after_dash(s2);
    if has_dash(s0) && has_dash(s1) && has_dash(s2) && has_dash(s3) {
        Some(seq![before_dash(s0), before_dash(s1), before_dash(s2), before_dash(s3), after_dash(s3)])
    } else {
        None
    }
}

/// The byte written as the `i`th pair of hexadecimal digits of `e`.
pub open spec fn spec_hex_pair(e: Seq<u8>, i: int) -> Option<u64> {
    spec_parse_unsigned(e.subrange(2 * i, 2 * i + 2), 16, 255)
}

/// The head fields of a GUID's text all read as numbers and its last field
/// is twelve bytes long, so that its byte pairs are read in turn.
pub open spec fn spec_guid_reaches_tail(b: Seq<u8>) -> bool {
    match spec_guid_fields(b) {
        Some(f) => {
            &&& spec_parse_unsigned(f[0], 16, 0xffff_ffff) is Some
            &&& spec_parse_unsigned(f[1], 16, 0xffff) is Some
            &&& spec_parse_unsigned(f[2], 16, 0xffff) is Some
            &&& spec_parse_unsigned(f[3], 16, 0xffff) is Some
            &&& f[4].len() == 12
        },
        None => false,
    }
}

/// The text holds a GUID: five fields, the first of up to eight hexadecimal
/// digits, the next three of up to four, the last of six pairs.
pub open spec fn spec_guid_parses(b: Seq<u8>) -> bool {
    spec_guid_reaches_tail(b) && forall|i: int|
        0 <= i < 6 ==> (#[trigger] spec_hex_pair(spec_guid_fields(b).unwrap()[4], i)) is Some
}

/// The GUID that a text holds: the first three fields as numbers, the
/// fourth as two bytes (high first), and the six pairs of the last.
pub open spec fn spec_guid_of(b: Seq<u8>, g: Guid) -> bool {
    let f = spec_guid_fields(b).unwrap();
    let d = spec_parse_unsigned(f[3], 16, 0xffff).unwrap();
    &&& g.data1 == spec_parse_unsigned(f[0], 16, 0xffff_ffff).unwrap()
    &&& g.data2 == spec_parse_unsigned(f[1], 16, 0xffff).unwrap()
    &&& g.data3 == spec_parse_unsigned(f[2], 16, 0xffff).unwrap()
    &&& g.data4@.len() == 8
    &&& g.data4@[0] == d / 256
    &&& g.data4@[1] == d % 256
    &&& forall|i: int| 0 <= i < 6 ==> g.data4@[2 + i] == (#[trigger] spec_hex_pair(f[4], i)).unwrap()
}

/// The positions of the GUID body within `b`: after an opening brace, and
/// before a terminating NUL and a closing brace.
fn guid_body_bounds(b: &[u8]) -> (r: (usize, usize))
    ensures
        r.0 <= r.1 <= b@.len(),
        b@.subrange(r.0 as int, r.1 as int) == spec_guid_body(b@),
{
    let ghost bs = b@;
    let mut lo: usize = 0;
    let mut hi: usize = b.len();
    if hi > lo && b[lo] == 0x7b {
        lo = lo + 1;
    }
    assert(bs.subrange(lo as int, hi as int) =~= strip_first(bs, 0x7b));
    if hi > lo && b[hi - 1] == 0 {
        hi = hi - 1;
    }
    assert(bs.subrange(lo as int, hi as int) =~= strip_last(strip_first(bs, 0x7b), 0));
    if hi > lo && b[hi - 1] == 0x7d {
        hi = hi - 1;
    }
    assert(bs.subrange(lo as int, hi as int) =~= spec_guid_body(bs));
    (lo, hi)
}

/// The positions of the first four dashes of the GUID body, if it has four.
fn guid_dashes(b: &[u8]) -> (r: Option<(usize, usize, usize, usize, usize, usize)>)
    ensures
        r is Some <==> spec_guid_fields(b@) is Some,
        r matches Some((lo, d0, d1, d2, d3, hi)) ==> {
            &&& lo <= d0 < d1 < d2 < d3 < hi <= b@.len()
            &&& spec_guid_fields(b@).unwrap() == seq![
                b@.subrange(lo as int, d0 as int),
                b@.subrange(d0 + 1, d1 as int),
                b@.subrange(d1 + 1, d2 as int),
                b@.subrange(d2 + 1, d3 as int),
                b@.subrange(d3 + 1, hi as int),
            ]
        },
{
    let ghost bs = b@;
    reveal(spec_guid_fields);
    let (lo, hi) = guid_body_bounds(b);
    let ghost s0 = bs.subrange(lo as int, hi as int);
    let d0 = find_byte(b, lo, hi, 0x2d);
    if d0 == hi {
        return None;
    }
    let ghost s1 = bs.subrange(d0 + 1, hi as int);
    assert(s1 =~= after_dash(s0));
    let d1 = find_byte(b, d0 + 1, hi, 0x2d);
    if d1 == hi {
        return None;
    }
    let ghost s2 = bs.subrange(d1 + 1, hi as int);
    assert(s2 =~= after_dash(s1));
    let d2 = find_byte(b, d1 + 1, hi, 0x2d);
    if d2 == hi {
        return None;
    }
    let ghost s3 = bs.subrange(d2 + 1, hi as int);
    assert(s3 =~= after_dash(s2));
    let d3 = find_byte(b, d2 + 1, hi, 0x2d);
    if d3 == hi {
        return None;
    }
    assert(before_dash(s0) =~= bs.subrange(lo as int, d0 as int));
    assert(before_dash(s1) =~= bs.subrange(d0 + 1, d1 as int));
    assert(before_dash(s2) =~= bs.subrange(d1 + 1, d2 as int));
    assert(before_dash(s3) =~= bs.subrange(d2 + 1, d3 as int));
    assert(after_dash(s3) =~= bs.subrange(d3 + 1, hi as int));
    Some((lo, d0, d1, d2, d3, hi))
}

/// The six bytes written as pairs of hexadecimal digits in `b[from..from + 12]`.
fn parse_hex_pairs(b: &[u8], from: usize) -> (r: Option<Vec<u8>>)
    requires
        from + 12 <= b@.len(),
    ensures
        ({
            let e = b@.subrange(from as int, from + 12);
            &&& r is Some <==> forall|i: int| 0 <= i < 6 ==> (#[trigger] spec_hex_pair(e, i)) is Some
            &&& r matches Some(p) ==> p@.len() == 6 && forall|i: int|
                0 <= i < 6 ==> (#[trigger] spec_hex_pair(e, i)) == Some(p@[i] as u64)
        }),
{
    let ghost e = b@.subrange(from as int, from + 12);
    let n = b.len();
    let end: usize = from + 12;
    let mut pairs: Vec<u8> = Vec::new();
    let mut i: usize = 0;
    while i < 6
        invariant
            i <= 6,
            end == from + 12,
            end <= b@.len(),
            e == b@.subrange(from as int, from + 12),
            pairs@.len() == i,
            forall|j: int| 0 <= j < i ==> (#[trigger] spec_hex_pair(e, j)) == Some(pairs@[j] as u64),
        decreases 6 - i,
    {
        assert(e.subrange(2 * i as int, 2 * i as int + 2) =~= b@.subrange(
            from + 2 * i,
            from + 2 * i + 2,
        ));
        match parse_unsigned(vstd::slice::slice_subrange(b, from + 2 * i, from + 2 * i + 2), 16, 255) {
            Some(v) => {
                assert(v <= 255);
                pairs.push(v as u8);
            },
            None => {
                assert(spec_hex_pair(e, i as int) is None);
                return None;
            },
        }
        i = i + 1;
    }
    Some(pairs)
}

/// Reads a GUID from its registry text (`{...}`, possibly NUL-terminated).
/// A text whose last field would be cut inside a character is no GUID
/// either: such a field holds a byte that is no hexadecimal digit.
pub fn try_parse_guid(text: &str) -> (r: Option<Guid>)
    ensures
        r is Some <==> spec_guid_parses(text.spec_bytes()),
        r matches Some(g) ==> spec_guid_of(text.spec_bytes(), g),
{
    let b = text.as_bytes();
    let (lo, d0, d1, d2, d3, hi) = match guid_dashes(b) {
        Some(x) => x,
        None => return None,
    };
    let a = match parse_unsigned(vstd::slice::slice_subrange(b, lo, d0), 16, 0xffff_ffff) {
        Some(v) => v as u32,
        None => return None,
    };
    let bb = match parse_unsigned(vstd::slice::slice_subrange(b, d0 + 1, d1), 16, 0xffff) {
        Some(v) => v as u16,
        None => return None,
    };
    let c = match parse_unsigned(vstd::slice::slice_subrange(b, d1 + 1, d2), 16, 0xffff) {
        Some(v) => v as u16,
        None => return None,
    };
    let d = match parse_unsigned(vstd::slice::slice_subrange(b, d2 + 1, d3), 16, 0xffff) {
        Some(v) => v as u16,
        None => return None,
    };
    if hi - (d3 + 1) != 12 {
        return None;
    }
    let pairs = match parse_hex_pairs(b, d3 + 1) {
        Some(p) => p,
        None => return None,
    };
    let data4: [u8; 8] = [
        (d / 256) as u8,
        (d % 256) as u8,
        pairs[0],
        pairs[1],
        pairs[2],
        pairs[3],
        pairs[4],
        pairs[5],
    ];
    let g = Guid { data1: a, data2: bb, data3: c, data4 };
    assert(forall|i: int| 0 <= i < 6 ==> g.data4@[2 + i] == pairs@[i]);
    Some(g)
}

/// An error code of the Configuration Manager (`CR_...`).
#[derive(Clone, Copy, PartialEq, Eq, Structural, Debug)]
pub struct CfgMgrError(pub u32);

impl From<u32> for CfgMgrError {
    fn from(value: u32) -> (r: Self) {
        CfgMgrError(value)
    }
}

impl vstd::std_specs::convert::FromSpecImpl<u32> for CfgMgrError {
    open spec fn obeys_from_spec() -> bool {
        true
    }

    open spec fn from_spec(value: u32) -> Self {
        CfgMgrError(value)
    }
}

/// The name of a Configuration Manager error code, where it has one.
pub open spec fn spec_cfgmgr_name(code: u32) -> Option<Seq<char>> {
    match code {
        0 => Some("CR_SUCCESS"@),
        1 => Some("CR_DEFAULT"@),
        2 => Some("CR_OUT_OF_MEMORY"@),
        3 => Some("CR_INVALID_POINTER"@),
        4 => Some("CR_INVALID_FLAG"@),
        5 => Some("CR_INVALID_DEVNODE/INST"@),
        6 => Some("CR_INVALID_RES_DES"@),
        7 => Some("CR_INVALID_LOG_CONF"@),
        8 => Some("CR_INVALID_ARBITRATOR"@),
        9 => Some("CR_INVALID_NODELIST"@),
        10 => Some("CR_DEVNODE/INST_HAS_REQS"@),
        11 => Some("CR_INVALID_RESOURCEID"@),
        12 => Some("CR_DLVXD_NOT_FOUND"@),
        13 => Some("CR_NO_SUCH_DEVNODE/INST"@),
        14 => Some("CR_NO_MORE_LOG_CONF"@),
        15 => Some("CR_NO_MORE_RES_DES"@),
        16 => Some("CR_ALREADY_SUCH_DEVNODE/INST"@),
        17 => Some("CR_INVALID_RANGE_LIST"@),
        18 => Some("CR_INVALID_RANGE"@),
        19 => Some("CR_FAILURE"@),
        20 => Some("CR_NO_SUCH_LOGICAL_DEV"@),
        21 => Some("CR_CREATE_BLOCKED"@),
        22 => Some("CR_NOT_SYSTEM_VM"@),
        23 => Some("CR_REMOVE_VETOED"@),
        24 => Some("CR_APM_VETOED"@),
        25 => Some("CR_INVALID_LOAD_TYPE"@),
        26 => Some("CR_BUFFER_SMALL"@),
        27 => Some("CR_NO_ARBITRATOR"@),
        28 => Some("CR_NO_REGISTRY_HANDLE"@),
        29 => Some("CR_REGISTRY_ERROR"@),
        30 => Some("CR_INVALID_DEVICE_ID"@),
        31 => Some("CR_INVALID_DATA"@),
        32 => Some("CR_INVALID_API"@),
        33 => Some("CR_DEVLOADER_NOT_READY"@),
        34 => Some("CR_NEED_RESTART"@),
        35 => Some("CR_NO_MORE_HW_PROFILES"@),
        36 => Some("CR_DEVICE_NOT_THERE"@),
        37 => Some("CR_NO_SUCH_VALUE"@),
        38 => Some("CR_WRONG_TYPE"@),
        39 => Some("CR_INVALID_PRIORITY"@),
        40 => Some("CR_NOT_DISABLEABLE"@),
        41 => Some("CR_FREE_RESOURCES"@),
        42 => Some("CR_QUERY_VETOED"@),
        43 => Some("CR_CANT_SHARE_IRQ"@),
        44 => Some("CR_NO_DEPENDENT"@),
        45 => Some("CR_SAME_RESOURCES"@),
        46 => Some("CR_NO_SUCH_REGISTRY_KEY"@),
        47 => Some("CR_INVALID_MACHINENAME"@),
        48 => Some("CR_REMOTE_COMM_FAILURE"@),
        49 => Some("CR_MACHINE_UNAVAILABLE"@),
        50 => Some("CR_NO_CM_SERVICES"@),
        51 => Some("CR_ACCESS_DENIED"@),
        52 => Some("CR_CALL_NOT_IMPLEMENTED"@),
        53 => Some("CR_INVALID_PROPERTY"@),
        54 => Some("CR_DEVICE_INTERFACE_ACTIVE"@),
        55 => Some("CR_NO_SUCH_DEVICE_INTERFACE"@),
        56 => Some("CR_INVALID_REFERENCE_STRING"@),
        57 => Some("CR_INVALID_CONFLICT_LIST"@),
        58 => Some("CR_INVALID_INDEX"@),
        59 => Some("CR_INVALID_STRUCTURE_SIZE"@),
        _ => None,
    }
}

/// How a Configuration Manager error is written: its name, or `unknown
/// error` and the number.
pub open spec fn spec_cfgmgr_text(code: u32) -> Seq<char> {
    match spec_cfgmgr_name(code) {
        Some(name) => name,
        None => "unknown error "@ + spec_decimal(code as nat),
    }
}

impl CfgMgrError {
    /// The error as it is written to the log.
    pub fn describe(&self) -> (r: String)
        ensures
            r@ == spec_cfgmgr_text(self.0),
    {
        match self.0 {
            0 => String::from_str("CR_SUCCESS"),
            1 => String::from_str("CR_DEFAULT"),
            2 => String::from_str("CR_OUT_OF_MEMORY"),
            3 => String::from_str("CR_INVALID_POINTER"),
            4 => String::from_str("CR_INVALID_FLAG"),
            5 => String::from_str("CR_INVALID_DEVNODE/INST"),
            6 => String::from_str("CR_INVALID_RES_DES"),
            7 => String::from_str("CR_INVALID_LOG_CONF"),
            8 => String::from_str("CR_INVALID_ARBITRATOR"),
            9 => String::from_str("CR_INVALID_NODELIST"),
            10 => String::from_str("CR_DEVNODE/INST_HAS_REQS"),
            11 => String::from_str("CR_INVALID_RESOURCEID"),
            12 => String::from_str("CR_DLVXD_NOT_FOUND"),
            13 => String::from_str("CR_NO_SUCH_DEVNODE/INST"),
            14 => String::from_str("CR_NO_MORE_LOG_CONF"),
            15 => String::from_str("CR_NO_MORE_RES_DES"),
            16 => String::from_str("CR_ALREADY_SUCH_DEVNODE/INST"),
            17 => String::from_str("CR_INVALID_RANGE_LIST"),
            18 => String::from_str("CR_INVALID_RANGE"),
            19 => String::from_str("CR_FAILURE"),
            20 => String::from_str("CR_NO_SUCH_LOGICAL_DEV"),
            21 => String::from_str("CR_CREATE_BLOCKED"),
            22 => String::from_str("CR_NOT_SYSTEM_VM"),
            23 => String::from_str("CR_REMOVE_VETOED"),
            24 => String::from_str("CR_APM_VETOED"),
            25 => String::from_str("CR_INVALID_LOAD_TYPE"),
            26 => String::from_str("CR_BUFFER_SMALL"),
            27 => String::from_str("CR_NO_ARBITRATOR"),
            28 => String::from_str("CR_NO_REGISTRY_HANDLE"),
            29 => String::from_str("CR_REGISTRY_ERROR"),
            30 => String::from_str("CR_INVALID_DEVICE_ID"),
            31 => String::from_str("CR_INVALID_DATA"),
            32 => String::from_str("CR_INVALID_API"),
            33 => String::from_str("CR_DEVLOADER_NOT_READY"),
            34 => String::from_str("CR_NEED_RESTART"),
            35 => String::from_str("CR_NO_MORE_HW_PROFILES"),
            36 => String::from_str("CR_DEVICE_NOT_THERE"),
            37 => String::from_str("CR_NO_SUCH_VALUE"),
            38 => String::from_str("CR_WRONG_TYPE"),
            39 => String::from_str("CR_INVALID_PRIORITY"),
            40 => String::from_str("CR_NOT_DISABLEABLE"),
            41 => String::from_str("CR_FREE_RESOURCES"),
            42 => String::from_str("CR_QUERY_VETOED"),
            43 => String::from_str("CR_CANT_SHARE_IRQ"),
            44 => String::from_str("CR_NO_DEPENDENT"),
            45 => String::from_str("CR_SAME_RESOURCES"),
            46 => String::from_str("CR_NO_SUCH_REGISTRY_KEY"),
            47 => String::from_str("CR_INVALID_MACHINENAME"),
            48 => String::from_str("CR_REMOTE_COMM_FAILURE"),
            49 => String::from_str("CR_MACHINE_UNAVAILABLE"),
            50 => String::from_str("CR_NO_CM_SERVICES"),
            51 => String::from_str("CR_ACCESS_DENIED"),
            52 => String::from_str("CR_CALL_NOT_IMPLEMENTED"),
            53 => String::from_str("CR_INVALID_PROPERTY"),
            54 => String::from_str("CR_DEVICE_INTERFACE_ACTIVE"),
            55 => String::from_str("CR_NO_SUCH_DEVICE_INTERFACE"),
            56 => String::from_str("CR_INVALID_REFERENCE_STRING"),
            57 => String::from_str("CR_INVALID_CONFLICT_LIST"),
            58 => String::from_str("CR_INVALID_INDEX"),
            59 => String::from_str("CR_INVALID_STRUCTURE_SIZE"),
            _ => String::from_str("unknown error ").concat(decimal_string(self.0 as u64).as_str()),
        }
    }
}

/// A piece of a `REG_MULTI_SZ` list as its own NUL-terminated string.
pub open spec fn nul_terminated(s: Seq<u16>) -> Seq<u16> {
    s.push(0u16)
}

/// The list without its last string, where that string is empty.
pub open spec fn drop_empty_last(l: Seq<Seq<u16>>) -> Seq<Seq<u16>> {
    if l.len() > 0 && l.last() == seq![0u16] {
        l.drop_last()
    } else {
        l
    }
}

/// The strings of a `REG_MULTI_SZ` value: the units split at each NUL, each
/// piece NUL-terminated, and up to two empty strings dropped from the end
/// (the list itself ends in two NULs).
pub open spec fn spec_multi_sz(inp: Seq<u16>) -> Seq<Seq<u16>> {
    drop_empty_last(
        drop_empty_last(split_seq(inp, 0u16).map_values(|p: Seq<u16>| nul_terminated(p))),
    )
}

/// The units `s[from..to]` followed by a NUL.
fn nul_terminated_copy(s: &[u16], from: usize, to: usize) -> (r: Vec<u16>)
    requires
        from <= to <= s@.len(),
    ensures
        r@ == nul_terminated(s@.subrange(from as int, to as int)),
{
    let mut out: Vec<u16> = Vec::new();
    let mut i = from;
    while i < to
        invariant
            from <= i <= to <= s@.len(),
            out@ == s@.subrange(from as int, i as int),
        decreases to - i,
    {
        out.push(s[i]);
        i = i + 1;
        assert(out@ =~= s@.subrange(from as int, i as int));
    }
    out.push(0);
    out
}

/// Whether a string is empty apart from its terminating NUL.
fn is_empty_string(v: &Vec<u16>) -> (r: bool)
    ensures
        r == (v@ == seq![0u16]),
{
    let r = v.len() == 1 && v[0] == 0;
    if r {
        assert(v@ =~= seq![0u16]);
    }
    r
}

/// Splits a `REG_MULTI_SZ` value into its NUL-terminated strings.
pub fn multi_sz_to_list(inp: &[u16]) -> (r: Vec<Vec<u16>>)
    ensures
        r@.len() == spec_multi_sz(inp@).len(),
        forall|i: int| 0 <= i < r@.len() ==> (#[trigger] r@[i])@ == spec_multi_sz(inp@)[i],
{
    let ghost s = inp@;
    let mut out: Vec<Vec<u16>> = Vec::new();
    let ghost mut done: Seq<Seq<u16>> = Seq::empty();
    let mut start: usize = 0;
    let mut j: usize = 0;
    proof {
        lemma_split_start(s, 0u16);
    }
    while j < inp.len()
        invariant
            inp@ == s,
            start <= j <= s.len(),
            split_seq(s.subrange(0, j as int), 0u16) == done.push(s.subrange(start as int, j as int)),
            out@.len() == done.len(),
            forall|i: int| 0 <= i < out@.len() ==> (#[trigger] out@[i])@ == nul_terminated(done[i]),
        decreases s.len() - j,
    {
        proof {
            lemma_split_step(s, 0u16, done, start as int, j as int);
        }
        if inp[j] == 0 {
            let piece = nul_terminated_copy(inp, start, j);
            proof {
                done = done.push(s.subrange(start as int, j as int));
            }
            out.push(piece);
            start = j + 1;
        }
        j = j + 1;
    }
    let piece = nul_terminated_copy(inp, start, inp.len());
    out.push(piece);
    proof {
        assert(s.subrange(0, s.len() as int) == s);
        done = done.push(s.subrange(start as int, s.len() as int));
    }
    let ghost all = split_seq(s, 0u16).map_values(|p: Seq<u16>| nul_terminated(p));
    assert(out@.len() == all.len());
    assert(forall|i: int| 0 <= i < out@.len() ==> (#[trigger] out@[i])@ == all[i]);
    let ghost one = drop_empty_last(all);
    if out.len() > 0 && is_empty_string(&out[out.len() - 1]) {
        out.pop();
    }
    assert(out@.len() == one.len());
    assert(forall|i: int| 0 <= i < out@.len() ==> (#[trigger] out@[i])@ == one[i]);
    if out.len() > 0 && is_empty_string(&out[out.len() - 1]) {
        out.pop();
    }
    out
}

/// An ASCII letter in lower case; every other byte unchanged.
pub open spec fn ascii_lower(b: u8) -> u8 {
    if 65 <= b <= 90 {
        (b + 32) as u8
    } else {
        b
    }
}

/// The text with its ASCII letters in lower case.
pub open spec fn spec_ascii_lowercase(b: Seq<u8>) -> Seq<u8> {
    b.map_values(|x: u8| ascii_lower(x))
}

/// A copy of the bytes with ASCII letters in lower case.
pub fn ascii_lowercase(b: &[u8]) -> (r: Vec<u8>)
    ensures
        r@ == spec_ascii_lowercase(b@),
{
    let mut out: Vec<u8> = Vec::new();
    let mut i: usize = 0;
    while i < b.len()
        invariant
            i <= b@.len(),
            out@ == spec_ascii_lowercase(b@.subrange(0, i as int)),
        decreases b@.len() - i,
    {
        let x = b[i];
        let l = if 65 <= x && x <= 90 {
            x + 32
        } else {
            x
        };
        out.push(l);
        i = i + 1;
        assert(out@ =~= spec_ascii_lowercase(b@.subrange(0, i as int)));
    }
    assert(b@.subrange(0, i as int) =~= b@);
    out
}

/// A wide string equals an ASCII text, ignoring the case of ASCII letters,
/// as `eq_ignore_ascii_case` compares them: a unit outside ASCII never
/// matches.
pub open spec fn spec_wide_eq_ignore_ascii_case(name: Seq<u16>, expected: Seq<char>) -> bool {
    &&& name.len() == expected.len()
    &&& forall|i: int|
        0 <= i < name.len() ==> name[i] < 128 && ascii_lower(name[i] as u8) == ascii_lower(
            expected[i] as u8,
        )
}

/// Compares a wide string with an ASCII text, ignoring the case of ASCII letters.
pub fn wide_eq_ignore_ascii_case(name: &[u16], expected: &str) -> (r: bool)
    requires
        vstd::utf8::is_ascii_chars(expected@),
    ensures
        r == spec_wide_eq_ignore_ascii_case(name@, expected@),
{
    let e = expected.as_bytes();
    proof {
        vstd::utf8::is_ascii_chars_encode_utf8(expected@);
    }
    if name.len() != e.len() {
        return false;
    }
    let mut i: usize = 0;
    while i < name.len()
        invariant
            i <= name@.len(),
            name@.len() == e@.len(),
            e@.len() == expected@.len(),
            forall|k: int| 0 <= k < e@.len() ==> e@[k] == expected@[k] as u8,
            forall|k: int|
                0 <= k < i ==> name@[k] < 128 && ascii_lower(name@[k] as u8) == ascii_lower(
                    expected@[k] as u8,
                ),
        decreases name@.len() - i,
    {
        let u = name[i];
        if u >= 128 {
            return false;
        }
        let a = u as u8;
        let la = if 65 <= a && a <= 90 {
            a + 32
        } else {
            a
        };
        let b = e[i];
        let lb = if 65 <= b && b <= 90 {
            b + 32
        } else {
            b
        };
        if la != lb {
            return false;
        }
        i = i + 1;
    }
    true
}

/// The driver is WinUSB (`WinUSB`, NUL-terminated).
pub fn is_winusb_driver(name: &[u16]) -> (r: bool)
    ensures
        r == spec_wide_eq_ignore_ascii_case(name@, "WinUSB\0"@),
{
    proof {
        reveal_strlit("WinUSB\0");
    }
    wide_eq_ignore_ascii_case(name, "WinUSB\0")
}

/// Whether an interface that appeared is worth probing: its service is
/// WinUSB and the interface class it was announced under is one of the
/// WinUSB classes registered for it. Otherwise it is ignored and nothing is
/// recorded.
pub fn should_probe(service: &[u16], listed: &[Guid], g: &Guid) -> (r: bool)
    ensures
        r == (spec_wide_eq_ignore_ascii_case(service@, "WinUSB\0"@) && exists|i: int|
            0 <= i < listed@.len() && spec_guid_eq(#[trigger] listed@[i], *g)),
{
    is_winusb_driver(service) && guid_listed(listed, g)
}

/// The parent's driver is the one Windows uses for composite devices
/// (`usbccgp`), or the one some Samsung devices use in its place
/// (`dg_ssudbus`), NUL-terminated.
pub fn is_composite_parent_driver(name: &[u16]) -> (r: bool)
    ensures
        r == (spec_wide_eq_ignore_ascii_case(name@, "usbccgp\0"@) || spec_wide_eq_ignore_ascii_case(
            name@,
            "dg_ssudbus\0"@,
        )),
{
    proof {
        reveal_strlit("usbccgp\0");
        reveal_strlit("dg_ssudbus\0");
    }
    wide_eq_ignore_ascii_case(name, "usbccgp\0") || wide_eq_ignore_ascii_case(name, "dg_ssudbus\0")
}

/// `lit` stands in `s` at position `at`.
pub open spec fn has_at(s: Seq<u8>, at: int, lit: Seq<u8>) -> bool {
    at + lit.len() <= s.len() && s.subrange(at, at + lit.len()) == lit
}

/// Whether `lit` stands in `s` at position `at`.
fn matches_at(s: &[u8], at: usize, lit: &[u8]) -> (r: bool)
    ensures
        r == has_at(s@, at as int, lit@),
{
    if at > s.len() || s.len() - at < lit.len() {
        return false;
    }
    let n = s.len();
    let mut i: usize = 0;
    while i < lit.len()
        invariant
            i <= lit@.len(),
            n == s@.len(),
            at + lit@.len() <= n,
            forall|k: int| 0 <= k < i ==> s@[at + k] == lit@[k],
        decreases lit@.len() - i,
    {
        if s[at + i] != lit[i] {
            assert(s@.subrange(at as int, at + lit@.len())[i as int] != lit@[i as int]);
            return false;
        }
        i = i + 1;
    }
    assert(s@.subrange(at as int, at + lit@.len()) =~= lit@);
    true
}

/// `usb\vid_`
pub open spec fn spec_vid_prefix() -> Seq<u8> {
    seq![0x75u8, 0x73u8, 0x62u8, 0x5cu8, 0x76u8, 0x69u8, 0x64u8, 0x5fu8]
}

/// `&pid_`
pub open spec fn spec_pid_marker() -> Seq<u8> {
    seq![0x26u8, 0x70u8, 0x69u8, 0x64u8, 0x5fu8]
}

/// `&mi_`
pub open spec fn spec_mi_marker() -> Seq<u8> {
    seq![0x26u8, 0x6du8, 0x69u8, 0x5fu8]
}

/// The interface number of a composite device's child from its instance id
/// (`USB\VID_xxxx&PID_xxxx&MI_xx...`, compared in lower case): the two
/// hexadecimal digits after `&MI_`, which must be followed by more text.
pub open spec fn spec_interface_number(id: Seq<u8>) -> Option<u8> {
    let l = spec_ascii_lowercase(id);
    if has_at(l, 0, spec_vid_prefix()) && l.len() > 12 && has_at(l, 12, spec_pid_marker()) && l.len()
        > 21 && has_at(l, 21, spec_mi_marker()) && l.len() > 27 {
        match spec_parse_unsigned(l.subrange(25, 27), 16, 255) {
            Some(v) => Some(v as u8),
            None => None,
        }
    } else {
        None
    }
}

/// The interface number of a composite device's child, from its instance id.
/// An id with a character that straddles one of the fixed positions holds no
/// interface number: a marker or a digit is missing there.
pub fn interface_number_from_instance_id(id: &str) -> (r: Option<u8>)
    ensures
        r == spec_interface_number(id.spec_bytes()),
{
    let l = ascii_lowercase(id.as_bytes());
    let vid: [u8; 8] = [0x75, 0x73, 0x62, 0x5c, 0x76, 0x69, 0x64, 0x5f];
    let pid: [u8; 5] = [0x26, 0x70, 0x69, 0x64, 0x5f];
    let mi: [u8; 4] = [0x26, 0x6d, 0x69, 0x5f];
    assert(vid@ == spec_vid_prefix());
    assert(pid@ == spec_pid_marker());
    assert(mi@ == spec_mi_marker());
    let ls = l.as_slice();
    if !matches_at(ls, 0, vid.as_slice()) || l.len() <= 12 {
        return None;
    }
    if !matches_at(ls, 12, pid.as_slice()) || l.len() <= 21 {
        return None;
    }
    if !matches_at(ls, 21, mi.as_slice()) || l.len() <= 27 {
        return None;
    }
    match parse_unsigned(vstd::slice::slice_subrange(ls, 25, 27), 16, 255) {
        Some(v) => Some(v as u8),
        None => None,
    }
}

/// `port_#`
pub open spec fn spec_port_prefix() -> Seq<u8> {
    seq![0x70u8, 0x6fu8, 0x72u8, 0x74u8, 0x5fu8, 0x23u8]
}

/// The hub port of a device from its location text (`Port_#0002.Hub_#0001`,
/// compared in lower case): the decimal number between `port_#` and the
/// first dot.
pub open spec fn spec_hub_port(loc: Seq<u8>) -> Option<u32> {
    let l = spec_ascii_lowercase(loc);
    let rest = l.subrange(6, l.len() as int);
    let k = first_index(rest, 0x2eu8);
    if has_at(l, 0, spec_port_prefix()) && k < rest.len() {
        match spec_parse_unsigned(rest.subrange(0, k), 10, 0xffff_ffff) {
            Some(v) => Some(v as u32),
            None => None,
        }
    } else {
        None
    }
}

/// The hub port of a device, from its location text.
pub fn hub_port_from_location_info(loc: &str) -> (r: Option<u32>)
    ensures
        r == spec_hub_port(loc.spec_bytes()),
{
    let l = ascii_lowercase(loc.as_bytes());
    let port: [u8; 6] = [0x70, 0x6f, 0x72, 0x74, 0x5f, 0x23];
    assert(port@ == spec_port_prefix());
    let ls = l.as_slice();
    if !matches_at(ls, 0, port.as_slice()) {
        return None;
    }
    let dot = find_byte(ls, 6, l.len(), 0x2e);
    if dot == l.len() {
        return None;
    }
    let ghost rest = l@.subrange(6, l@.len() as int);
    assert(rest.subrange(0, dot - 6) =~= l@.subrange(6, dot as int));
    match parse_unsigned(vstd::slice::slice_subrange(ls, 6, dot), 10, 0xffff_ffff) {
        Some(v) => Some(v as u32),
        None => None,
    }
}

/// The descriptor type of a BOS descriptor.
pub const BOS_DESCRIPTOR_TYPE: u8 = 15;

/// Descriptors whose full length is their `wTotalLength` field (configuration
/// and BOS descriptors); for the others it is `bLength`.
pub open spec fn spec_is_long_descriptor(desc_ty: u8) -> bool {
    desc_ty == descriptor_types::CONFIGURATION || desc_ty == BOS_DESCRIPTOR_TYPE
}

/// The `wValue` of a GET_DESCRIPTOR request: the type in the high byte and
/// the index in the low byte.
pub fn descriptor_request_value(desc_ty: u8, desc_idx: u8) -> (r: u16)
    ensures
        r == desc_ty * 256 + desc_idx,
{
    (desc_ty as u16) * 256 + (desc_idx as u16)
}

/// How many bytes the first request for a descriptor reads: enough to see
/// its type and its full length.
pub fn probe_request_length(desc_ty: u8) -> (r: u16)
    ensures
        r == (if spec_is_long_descriptor(desc_ty) { 4u16 } else { 2u16 }),
{
    if desc_ty == descriptor_types::CONFIGURATION || desc_ty == BOS_DESCRIPTOR_TYPE {
        4
    } else {
        2
    }
}

/// The full length of a descriptor from the bytes that the first request
/// read; `None` when the device answered with another type of descriptor.
pub fn descriptor_length_from_probe(desc_ty: u8, probe: [u8; 4]) -> (r: Option<usize>)
    ensures
        r == (if probe@[1] != desc_ty {
            None
        } else if spec_is_long_descriptor(desc_ty) {
            Some((probe@[2] + probe@[3] * 256) as usize)
        } else {
            Some(probe@[0] as usize)
        }),
{
    if probe[1] != desc_ty {
        None
    } else if desc_ty == descriptor_types::CONFIGURATION || desc_ty == BOS_DESCRIPTOR_TYPE {
        Some((probe[2] as usize) + (probe[3] as usize) * 256)
    } else {
        Some(probe[0] as usize)
    }
}

/// Devices of USB 2.01 and later have a BOS descriptor.
pub fn wants_bos_descriptor(bcd_usb: u16) -> (r: bool)
    ensures
        r == (bcd_usb >= 0x0201),
{
    bcd_usb >= 0x0201
}

/// The language of a device's strings from its string descriptor zero: the
/// first language id it lists, if it is a string descriptor listing one.
pub fn string_language(desc: &[u8]) -> (r: Option<u16>)
    ensures
        r == (if spec_string_descriptor_ok(desc@) && desc@[0] >= 4 {
            Some(le16(desc@[2], desc@[3]))
        } else {
            None
        }),
{
    match StringDescriptor::try_from_bytes(desc) {
        Some((lang_desc, _)) => {
            if lang_desc.bytes.len() >= 2 {
                Some(read_le16(lang_desc.bytes[0], lang_desc.bytes[1]))
            } else {
                None
            }
        },
        None => None,
    }
}

/// The index as a one-element list when it names a string; empty for 0.
pub open spec fn nonzero_index(i: u8) -> Seq<u8> {
    if i != 0 {
        seq![i]
    } else {
        seq![]
    }
}

/// The string indices named by configuration and interface descriptors, in order.
pub open spec fn spec_descriptor_string_ids(ds: Seq<DescriptorView>) -> Seq<u8>
    decreases ds.len(),
{
    if ds.len() == 0 {
        seq![]
    } else {
        spec_descriptor_string_ids(ds.drop_last()) + match ds.last() {
            DescriptorView::Config(d) => nonzero_index(d.iConfiguration),
            DescriptorView::Interface(d) => nonzero_index(d.iInterface),
            _ => seq![],
        }
    }
}

/// The string indices named in each configuration descriptor set, in order.
pub open spec fn spec_config_string_ids(blobs: Seq<Seq<u8>>) -> Seq<u8>
    decreases blobs.len(),
{
    if blobs.len() == 0 {
        seq![]
    } else {
        spec_config_string_ids(blobs.drop_last()) + spec_descriptor_string_ids(
            spec_descriptors(blobs.last()),
        )
    }
}

/// The string descriptors to fetch when a device is first seen, in order:
/// the language list, the manufacturer, product and serial number strings,
/// and the strings named by configurations and interfaces.
pub open spec fn spec_strings_to_cache(dev: DeviceDescriptor, blobs: Seq<Seq<u8>>) -> Seq<u8> {
    seq![0u8] + nonzero_index(dev.iManufacturer) + nonzero_index(dev.iProduct) + nonzero_index(
        dev.iSerialNumber,
    ) + spec_config_string_ids(blobs)
}

/// The string indices named by one descriptor set, appended to `out`.
fn push_descriptor_string_ids(out: &mut Vec<u8>, blob: &Vec<u8>)
    requires
        spec_well_framed(blob@),
    ensures
        final(out)@ == old(out)@ + spec_descriptor_string_ids(spec_descriptors(blob@)),
{
    let mut p = parse_descriptor_set(blob.as_slice());
    let ds = p.descriptors();
    let ghost all = spec_descriptors(blob@);
    let ghost base = out@;
    let mut j: usize = 0;
    while j < ds.len()
        invariant
            j <= ds@.len(),
            ds@.len() == all.len(),
            forall|i: int| 0 <= i < ds@.len() ==> (#[trigger] ds@[i])@ == all[i],
            out@ == base + spec_descriptor_string_ids(all.subrange(0, j as int)),
        decreases ds@.len() - j,
    {
        let ghost pre = all.subrange(0, j as int + 1);
        assert(pre.drop_last() =~= all.subrange(0, j as int));
        assert(pre.last() == ds@[j as int]@);
        match &ds[j] {
            DescriptorRef::Config(d) => {
                if d.iConfiguration != 0 {
                    out.push(d.iConfiguration);
                }
            },
            DescriptorRef::Interface(d) => {
                if d.iInterface != 0 {
                    out.push(d.iInterface);
                }
            },
            _ => {},
        }
        assert(out@ =~= base + spec_descriptor_string_ids(pre));
        j = j + 1;
    }
    assert(all.subrange(0, j as int) =~= all);
}

/// The string descriptors to fetch when a device is first seen.
pub fn strings_to_cache(dev: &DeviceDescriptor, config_descs: &Vec<Vec<u8>>) -> (r: Vec<u8>)
    requires
        forall|i: int| 0 <= i < config_descs@.len() ==> spec_well_framed(#[trigger] config_descs@[i]@),
    ensures
        r@ == spec_strings_to_cache(*dev, blobs_view(config_descs@)),
{
    let mut out: Vec<u8> = Vec::new();
    out.push(0);
    if dev.iManufacturer != 0 {
        out.push(dev.iManufacturer);
    }
    if dev.iProduct != 0 {
        out.push(dev.iProduct);
    }
    if dev.iSerialNumber != 0 {
        out.push(dev.iSerialNumber);
    }
    let ghost head = out@;
    assert(head =~= seq![0u8] + nonzero_index(dev.iManufacturer) + nonzero_index(dev.iProduct)
        + nonzero_index(dev.iSerialNumber));
    let ghost blobs = blobs_view(config_descs@);
    let mut k: usize = 0;
    while k < config_descs.len()
        invariant
            k <= config_descs@.len(),
            blobs == blobs_view(config_descs@),
            forall|i: int| 0 <= i < config_descs@.len() ==> spec_well_framed(#[trigger] config_descs@[i]@),
            out@ == head + spec_config_string_ids(blobs.subrange(0, k as int)),
        decreases config_descs@.len() - k,
    {
        let ghost pre = blobs.subrange(0, k as int + 1);
        assert(pre.drop_last() =~= blobs.subrange(0, k as int));
        assert(pre.last() == config_descs@[k as int]@);
        push_descriptor_string_ids(&mut out, &config_descs[k]);
        assert(out@ =~= head + spec_config_string_ids(pre));
        k = k + 1;
    }
    assert(blobs.subrange(0, k as int) =~= blobs);
    out
}

} // verus!
