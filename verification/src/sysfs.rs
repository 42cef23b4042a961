//! What the Linux backend reads out of sysfs: numbers written as text, the
//! interfaces of the active configuration, the character device's name, and
//! the device itself as it is first reported.
use vstd::prelude::*;
use vstd::string::*;

use std::collections::HashMap;

use crate::ch9_core::DeviceDescriptor;
use crate::descriptor::USBDescriptor;
use crate::descriptor_set::spec_well_framed;
use crate::device::{USBDeviceState, USBInterfaceState};
use crate::host::{spec_trim, trim_str, utf8_str};
use crate::numtext::{decimal_string, parse_unsigned, spec_decimal, spec_parse_unsigned};

verus! {

broadcast use vstd::std_specs::hash::group_hash_axioms;

/// The text of a sysfs file: its contents without surrounding whitespace, or
/// nothing where they are not UTF-8.
pub open spec fn spec_sysfs_text(contents: Seq<u8>) -> Seq<char> {
    spec_trim(
        if vstd::utf8::valid_utf8(contents) {
            vstd::utf8::decode_utf8(contents)
        } else {
            Seq::empty()
        },
    )
}

/// The byte-sized number that a sysfs file holds in the given radix, or 0
/// where it holds none.
pub open spec fn spec_sysfs_u8(contents: Seq<u8>, radix: u32) -> u8 {
    match spec_parse_unsigned(vstd::utf8::encode_utf8(spec_sysfs_text(contents)), radix, 255) {
        Some(v) => v as u8,
        None => 0,
    }
}

/// Reads a byte-sized number from the contents of a sysfs file, as
/// `u8::from_str_radix` on the trimmed text; 0 when there is none.
pub fn parse_sysfs_u8(contents: &[u8], radix: u32) -> (r: u8)
    requires
        radix == 10 || radix == 16,
    ensures
        r == spec_sysfs_u8(contents@, radix),
{
    let text: &str = match utf8_str(contents) {
        Some(s) => s,
        None => {
            proof {
                reveal_strlit("");
            }
            ""
        },
    };
    let t = trim_str(text);
    match parse_unsigned(t.as_bytes(), radix, 255) {
        Some(v) => v as u8,
        None => 0,
    }
}

/// The state of one interface as sysfs reports it: `bInterfaceNumber` in
/// hexadecimal and `bAlternateSetting` in decimal, unclaimed.
pub open spec fn spec_sysfs_interface(iface_file: Seq<u8>, alt_file: Seq<u8>) -> (u8, USBInterfaceState) {
    (
        spec_sysfs_u8(iface_file, 16),
        USBInterfaceState { alt_setting: spec_sysfs_u8(alt_file, 10), claimed: false },
    )
}

/// Records an interface found in sysfs from the contents of its
/// `bInterfaceNumber` file and of its `bAlternateSetting` file (a missing
/// one counts as empty). Says whether an interface with that number was
/// already recorded; the new state replaces it.
pub fn record_sysfs_interface(
    if_states: &mut HashMap<u8, USBInterfaceState>,
    iface_file: &[u8],
    alt_setting_file: Option<&[u8]>,
) -> (duplicate: bool)
    ensures
        ({
            let alt = match alt_setting_file {
                Some(a) => a@,
                None => Seq::<u8>::empty(),
            };
            let (i, st) = spec_sysfs_interface(iface_file@, alt);
            &&& final(if_states)@ == old(if_states)@.insert(i, st)
            &&& duplicate == old(if_states)@.contains_key(i)
        }),
{
    let iface = parse_sysfs_u8(iface_file, 16);
    let alt_setting = match alt_setting_file {
        Some(a) => parse_sysfs_u8(a, 10),
        None => {
            let empty: Vec<u8> = Vec::new();
            assert(empty@ == Seq::<u8>::empty());
            parse_sysfs_u8(empty.as_slice(), 10)
        },
    };
    let old = if_states.insert(iface, USBInterfaceState { alt_setting, claimed: false });
    old.is_some()
}

/// The two file descriptors of a Linux device: its sysfs directory and its
/// `/dev/bus/usb` node; `-1` while not open.
#[derive(Debug)]
pub struct LinuxHandles {
    pub sysfs_fd: i32,
    pub dev_fd: i32,
}

impl LinuxHandles {
    /// Handles that refer to nothing yet.
    pub fn new() -> (r: Self)
        ensures
            r.sysfs_fd == -1,
            r.dev_fd == -1,
    {
        LinuxHandles { sysfs_fd: -1, dev_fd: -1 }
    }
}

/// The major number of a Linux device number.
pub open spec fn spec_dev_major(rdev: u64) -> u32 {
    (((rdev & 0xFFFFF000_00000000u64) >> 32u64) | ((rdev & 0xFFF00u64) >> 8u64)) as u32
}

/// The minor number of a Linux device number.
pub open spec fn spec_dev_minor(rdev: u64) -> u32 {
    (((rdev & 0xFFF_FFF0_0000u64) >> 12u64) | (rdev & 0xFFu64)) as u32
}

/// The major number of a Linux device number.
pub fn dev_major(rdev: u64) -> (r: u32)
    ensures
        r == spec_dev_major(rdev),
{
    (((rdev & 0xFFFFF000_00000000u64) >> 32u64) | ((rdev & 0xFFF00u64) >> 8u64)) as u32
}

/// The minor number of a Linux device number.
pub fn dev_minor(rdev: u64) -> (r: u32)
    ensures
        r == spec_dev_minor(rdev),
{
    (((rdev & 0xFFF_FFF0_0000u64) >> 12u64) | (rdev & 0xFFu64)) as u32
}

/// The name of a character device's directory under `/sys/dev/char`:
/// `major:minor` in decimal.
pub fn sysfs_char_dev_name(rdev: u64) -> (r: String)
    ensures
        r@ == spec_decimal(spec_dev_major(rdev) as nat) + seq![':'] + spec_decimal(
            spec_dev_minor(rdev) as nat,
        ),
{
    let maj = decimal_string(dev_major(rdev) as u64);
    let min = decimal_string(dev_minor(rdev) as u64);
    proof {
        reveal_strlit(":");
    }
    let with_colon = maj.concat(":");
    with_colon.concat(min.as_str())
}

/// A device that sysfs describes is usable when its `descriptors` file starts
/// with a device descriptor.
pub open spec fn spec_sysfs_has_device(all_descriptors: Seq<u8>) -> bool {
    all_descriptors.len() >= DeviceDescriptor::spec_size()
}

/// The device reported from its sysfs files: `descriptors` (the device
/// descriptor followed by every configuration's descriptors, kept as one
/// blob), the three name files already read as text, `bConfigurationValue`,
/// and the interfaces found. `None` when there is no device descriptor.
pub fn device_from_sysfs(
    all_descriptors: &[u8],
    vendor_name: Option<String>,
    product_name: Option<String>,
    serial_number: Option<String>,
    configuration_file: &[u8],
    if_states: HashMap<u8, USBInterfaceState>,
) -> (r: Option<USBDeviceState>)
    requires
        spec_sysfs_has_device(all_descriptors@) ==> all_descriptors@[0] <= all_descriptors@.len(),
        spec_sysfs_has_device(all_descriptors@) ==> spec_well_framed(
            all_descriptors@.subrange(all_descriptors@[0] as int, all_descriptors@.len() as int),
        ),
    ensures
        r is None <==> !spec_sysfs_has_device(all_descriptors@),
        r matches Some(d) ==> {
            &&& d.device_descriptor == DeviceDescriptor::spec_decode(
                all_descriptors@.subrange(0, 18),
            )
            &&& d.config_descriptors@.len() == 1
            &&& d.config_descriptors@[0]@ == all_descriptors@.subrange(
                all_descriptors@[0] as int,
                all_descriptors@.len() as int,
            )
            &&& d.vendor_name == vendor_name
            &&& d.product_name == product_name
            &&& d.serial_number == serial_number
            &&& !d.opened
            &&& d.current_configuration_id == spec_sysfs_u8(configuration_file@, 10)
            &&& d.current_if_state@ == if_states@
            &&& ({
                let expected = crate::device::spec_reformat_all(
                    crate::device::blobs_view(d.config_descriptors@),
                    d.current_configuration_id,
                    if_states@,
                    true,
                );
                &&& crate::protocol::configs_view(d.reformatted_config_descriptors@) == expected.0
                &&& d.ep_to_idx@ == expected.1
            })
        },
{
    let (dev_desc, rest) = match DeviceDescriptor::from_bytes(all_descriptors) {
        Some(x) => x,
        None => return None,
    };
    let current_config = parse_sysfs_u8(configuration_file, 10);
    let blob = vstd::slice::slice_to_vec(rest);
    let mut config_descriptors: Vec<Vec<u8>> = Vec::new();
    config_descriptors.push(blob);
    let ghost blobs = config_descriptors@;
    assert(forall|i: int|
        0 <= i < config_descriptors@.len() ==> spec_well_framed(#[trigger] config_descriptors@[i]@));
    Some(
        USBDeviceState::new(
            dev_desc,
            config_descriptors,
            vendor_name,
            product_name,
            serial_number,
            current_config,
            if_states,
            true,
        ),
    )
}

} // verus!
