//! What the helper knows about one USB device, independent of the operating
//! system: its configurations as reported to the extension, which interface
//! owns each endpoint, and the open/claim state the requests work on.
use vstd::prelude::*;

use std::collections::HashMap;

use crate::descriptor_set::{
    parse_descriptor_set, spec_descriptors, spec_well_framed, DescriptorRef, DescriptorView,
};
use crate::numtext::{decimal_string, spec_decimal};
use crate::protocol::{
    clone_configurations, clone_opt_string, configs_view, opt_text, DeviceConfiguration,
    DeviceConfigurationView, DeviceEndpoint, DeviceInterface, DeviceInterfaceView, Errors,
    ResponseMessage, ResponseMessageView,
};

verus! {

broadcast use vstd::std_specs::hash::group_hash_axioms;

#[derive(Clone, Copy, PartialEq, Eq, Structural, Debug)]
pub enum USBTransferDirection {
    HostToDevice,
    DeviceToHost,
}

/// State regarding each interface
#[derive(Clone, Copy, PartialEq, Eq, Structural, Debug)]
pub struct USBInterfaceState {
    pub alt_setting: u8,
    pub claimed: bool,
}

/// For the "new" API, whether operations on a device should send a completion *now* or not
#[derive(Clone, Copy, PartialEq, Eq, Structural, Debug)]
pub enum DeviceOpResult {
    /// The request is already finished, and the framework should send an *empty* completion
    SendCompletionNow,
    /// The request is in progress, or otherwise the framework should *not* send anything
    ManualCompletion,
}

/// The configurations gathered so far while walking descriptor sets, the one
/// being built, and the endpoint-to-interface map.
pub struct ReformatState {
    pub configs: Seq<DeviceConfigurationView>,
    pub current: Option<DeviceConfigurationView>,
    pub eps: Map<u8, u8>,
}

/// A configuration with no interfaces yet.
pub open spec fn spec_new_config(value: u8, index: u8) -> DeviceConfigurationView {
    DeviceConfigurationView { bConfigurationValue: value, iConfiguration: index, interfaces: seq![] }
}

/// The alternate setting reported for an interface: the one the device is
/// using when the interface belongs to the active configuration and its state
/// is known, else 0.
pub open spec fn spec_current_alt_setting(
    cfg_value: u8,
    iface: u8,
    current_config: u8,
    if_state: Map<u8, USBInterfaceState>,
) -> u8 {
    if cfg_value == current_config {
        if if_state.contains_key(iface) {
            if_state[iface].alt_setting
        } else {
            0
        }
    } else {
        0
    }
}

/// What one decoded descriptor does to the state. A configuration descriptor
/// starts a configuration (or, when one is already being built, closes it and
/// starts the next one if the descriptor sets are `concatenated`, else is
/// ignored); an interface descriptor is added to the configuration being
/// built; an endpoint descriptor is added to its last interface and recorded
/// as owned by that interface. Anything else, and anything without the
/// configuration or interface it belongs to, changes nothing.
pub open spec fn spec_reformat_step(
    st: ReformatState,
    d: DescriptorView,
    current_config: u8,
    if_state: Map<u8, USBInterfaceState>,
    concatenated: bool,
) -> ReformatState {
    match d {
        DescriptorView::Config(c) => match st.current {
            Some(cur) => if concatenated {
                ReformatState {
                    configs: st.configs.push(cur),
                    current: Some(spec_new_config(c.bConfigurationValue, c.iConfiguration)),
                    eps: st.eps,
                }
            } else {
                st
            },
            None => ReformatState {
                configs: st.configs,
                current: Some(spec_new_config(c.bConfigurationValue, c.iConfiguration)),
                eps: st.eps,
            },
        },
        DescriptorView::Interface(i) => match st.current {
            Some(cur) => {
                let iface = DeviceInterfaceView {
                    bInterfaceNumber: i.bInterfaceNumber,
                    bAlternateSetting: i.bAlternateSetting,
                    bInterfaceClass: i.bInterfaceClass,
                    bInterfaceSubClass: i.bInterfaceSubClass,
                    bInterfaceProtocol: i.bInterfaceProtocol,
                    iInterface: i.iInterface,
                    current_alt_setting: spec_current_alt_setting(
                        cur.bConfigurationValue,
                        i.bInterfaceNumber,
                        current_config,
                        if_state,
                    ),
                    endpoints: seq![],
                };
                ReformatState {
                    configs: st.configs,
                    current: Some(
                        DeviceConfigurationView {
                            bConfigurationValue: cur.bConfigurationValue,
                            iConfiguration: cur.iConfiguration,
                            interfaces: cur.interfaces.push(iface),
                        },
                    ),
                    eps: st.eps,
                }
            },
            None => st,
        },
        DescriptorView::Endpoint(e) => match st.current {
            Some(cur) => if cur.interfaces.len() > 0 {
                let last = cur.interfaces.last();
                let ep = DeviceEndpoint {
                    bEndpointAddress: e.bEndpointAddress,
                    bmAttributes: e.bmAttributes,
                    wMaxPacketSize: e.wMaxPacketSize,
                };
                let new_last = DeviceInterfaceView {
                    bInterfaceNumber: last.bInterfaceNumber,
                    bAlternateSetting: last.bAlternateSetting,
                    bInterfaceClass: last.bInterfaceClass,
                    bInterfaceSubClass: last.bInterfaceSubClass,
                    bInterfaceProtocol: last.bInterfaceProtocol,
                    iInterface: last.iInterface,
                    current_alt_setting: last.current_alt_setting,
                    endpoints: last.endpoints.push(ep),
                };
                ReformatState {
                    configs: st.configs,
                    current: Some(
                        DeviceConfigurationView {
                            bConfigurationValue: cur.bConfigurationValue,
                            iConfiguration: cur.iConfiguration,
                            interfaces: cur.interfaces.update(cur.interfaces.len() - 1, new_last),
                        },
                    ),
                    eps: st.eps.insert(e.bEndpointAddress, last.bInterfaceNumber),
                }
            } else {
                st
            },
            None => st,
        },
        _ => st,
    }
}

/// The state after the descriptors `ds`, in order.
pub open spec fn spec_reformat_descs(
    st: ReformatState,
    ds: Seq<DescriptorView>,
    current_config: u8,
    if_state: Map<u8, USBInterfaceState>,
    concatenated: bool,
) -> ReformatState
    decreases ds.len(),
{
    if ds.len() == 0 {
        st
    } else {
        spec_reformat_step(
            spec_reformat_descs(st, ds.drop_last(), current_config, if_state, concatenated),
            ds.last(),
            current_config,
            if_state,
            concatenated,
        )
    }
}

/// The configurations and endpoint map after one more descriptor set: its
/// descriptors are walked from no current configuration, and what is being
/// built at the end is added (a placeholder with value 0 where the set held
/// no configuration descriptor).
pub open spec fn spec_reformat_blob(
    configs: Seq<DeviceConfigurationView>,
    eps: Map<u8, u8>,
    blob: Seq<u8>,
    current_config: u8,
    if_state: Map<u8, USBInterfaceState>,
    concatenated: bool,
) -> (Seq<DeviceConfigurationView>, Map<u8, u8>) {
    let st = spec_reformat_descs(
        ReformatState { configs, current: None, eps },
        spec_descriptors(blob),
        current_config,
        if_state,
        concatenated,
    );
    (
        st.configs.push(
            match st.current {
                Some(c) => c,
                None => spec_new_config(0, 0),
            },
        ),
        st.eps,
    )
}

/// The configurations and endpoint map for a list of descriptor sets.
pub open spec fn spec_reformat_all(
    blobs: Seq<Seq<u8>>,
    current_config: u8,
    if_state: Map<u8, USBInterfaceState>,
    concatenated: bool,
) -> (Seq<DeviceConfigurationView>, Map<u8, u8>)
    decreases blobs.len(),
{
    if blobs.len() == 0 {
        (seq![], Map::empty())
    } else {
        let prev = spec_reformat_all(blobs.drop_last(), current_config, if_state, concatenated);
        spec_reformat_blob(prev.0, prev.1, blobs.last(), current_config, if_state, concatenated)
    }
}

/// The views of the byte strings in a list.
pub open spec fn blobs_view(v: Seq<Vec<u8>>) -> Seq<Seq<u8>> {
    v.map_values(|b: Vec<u8>| b@)
}

pub open spec fn opt_config_view(c: Option<DeviceConfiguration>) -> Option<DeviceConfigurationView> {
    match c {
        Some(c) => Some(c@),
        None => None,
    }
}

fn new_config(value: u8, index: u8) -> (r: DeviceConfiguration)
    ensures
        r@ == spec_new_config(value, index),
{
    let r = DeviceConfiguration { bConfigurationValue: value, iConfiguration: index, interfaces: Vec::new() };
    proof {
        assert(r@.interfaces =~= Seq::<DeviceInterfaceView>::empty());
    }
    r
}

fn reformat_step(
    configs: &mut Vec<DeviceConfiguration>,
    current: &mut Option<DeviceConfiguration>,
    eps: &mut HashMap<u8, u8>,
    desc: DescriptorRef,
    current_config: u8,
    if_state: &HashMap<u8, USBInterfaceState>,
    concatenated: bool,
)
    ensures
        ({
            let st = spec_reformat_step(
                ReformatState {
                    configs: configs_view(old(configs)@),
                    current: opt_config_view(*old(current)),
                    eps: old(eps)@,
                },
                desc@,
                current_config,
                if_state@,
                concatenated,
            );
            &&& configs_view(final(configs)@) == st.configs
            &&& opt_config_view(*final(current)) == st.current
            &&& final(eps)@ == st.eps
        }),
{
    match desc {
        DescriptorRef::Config(d) => {
            if current.is_some() {
                if concatenated {
                    // All configurations arrive in one concatenated set:
                    // close the current one and start the next.
                    let prev = current.take().unwrap();
                    let ghost old_configs = configs@;
                    configs.push(prev);
                    proof {
                        assert(configs_view(configs@) =~= configs_view(old_configs).push(prev@));
                    }
                    *current = Some(new_config(d.bConfigurationValue, d.iConfiguration));
                }
            } else {
                *current = Some(new_config(d.bConfigurationValue, d.iConfiguration));
            }
        },
        DescriptorRef::Interface(d) => {
            if current.is_some() {
                let mut cur = current.take().unwrap();
                let current_alt_setting = if cur.bConfigurationValue == current_config {
                    match if_state.get(&d.bInterfaceNumber) {
                        Some(x) => x.alt_setting,
                        None => 0,
                    }
                } else {
                    // If the configuration isn't active, default the alt setting to 0
                    0
                };
                let iface = DeviceInterface {
                    bInterfaceNumber: d.bInterfaceNumber,
                    bAlternateSetting: d.bAlternateSetting,
                    bInterfaceClass: d.bInterfaceClass,
                    bInterfaceSubClass: d.bInterfaceSubClass,
                    bInterfaceProtocol: d.bInterfaceProtocol,
                    iInterface: d.iInterface,
                    current_alt_setting,
                    endpoints: Vec::new(),
                };
                let ghost old_ifaces = cur.interfaces@;
                cur.interfaces.push(iface);
                proof {
                    assert(iface@.endpoints =~= Seq::<DeviceEndpoint>::empty());
                    assert(cur.interfaces@.map_values(|i: DeviceInterface| i@) =~= old_ifaces.map_values(
                        |i: DeviceInterface| i@,
                    ).push(iface@));
                }
                *current = Some(cur);
            }
        },
        DescriptorRef::Endpoint(d) => {
            if current.is_some() {
                let mut cur = current.take().unwrap();
                if cur.interfaces.len() > 0 {
                    let ghost old_ifaces = cur.interfaces@;
                    let mut last = cur.interfaces.pop().unwrap();
                    let ghost old_last = last;
                    eps.insert(d.bEndpointAddress, last.bInterfaceNumber);
                    let ep = DeviceEndpoint {
                        bEndpointAddress: d.bEndpointAddress,
                        bmAttributes: d.bmAttributes,
                        wMaxPacketSize: d.wMaxPacketSize,
                    };
                    last.endpoints.push(ep);
                    cur.interfaces.push(last);
                    proof {
                        let n = old_ifaces.len() - 1;
                        assert(old_ifaces.map_values(|i: DeviceInterface| i@).last() == old_last@);
                        assert(cur.interfaces@ =~= old_ifaces.update(n, last));
                        assert(cur.interfaces@.map_values(|i: DeviceInterface| i@)
                            =~= old_ifaces.map_values(|i: DeviceInterface| i@).update(n, last@));
                    }
                }
                *current = Some(cur);
            }
        },
        _ => {},
    }
}

/// Gathers the configurations to report to the extension from the raw
/// configuration descriptor sets, and which interface owns each endpoint.
/// `concatenated` says that one set may hold several configurations one after
/// the other (as Linux reports them) rather than one set per configuration
/// (as macOS does).
pub fn reformat_config_descriptors(
    config_descriptors: &Vec<Vec<u8>>,
    current_config: u8,
    if_state: &HashMap<u8, USBInterfaceState>,
    concatenated: bool,
) -> (r: (Vec<DeviceConfiguration>, HashMap<u8, u8>))
    requires
        forall|i: int|
            0 <= i < config_descriptors@.len() ==> spec_well_framed(
                #[trigger] config_descriptors@[i]@,
            ),
    ensures
        ({
            let expected = spec_reformat_all(
                blobs_view(config_descriptors@),
                current_config,
                if_state@,
                concatenated,
            );
            &&& configs_view(r.0@) == expected.0
            &&& r.1@ == expected.1
        }),
{
    let mut ep_to_idx: HashMap<u8, u8> = HashMap::new();
    let mut configs: Vec<DeviceConfiguration> = Vec::new();
    let mut k: usize = 0;
    proof {
        assert(blobs_view(config_descriptors@).subrange(0, 0) =~= Seq::<Seq<u8>>::empty());
        assert(configs_view(configs@) =~= Seq::<DeviceConfigurationView>::empty());
    }
    while k < config_descriptors.len()
        invariant
            k <= config_descriptors@.len(),
            forall|i: int|
                0 <= i < config_descriptors@.len() ==> spec_well_framed(
                    #[trigger] config_descriptors@[i]@,
                ),
            ({
                let sofar = spec_reformat_all(
                    blobs_view(config_descriptors@).subrange(0, k as int),
                    current_config,
                    if_state@,
                    concatenated,
                );
                &&& configs_view(configs@) == sofar.0
                &&& ep_to_idx@ == sofar.1
            }),
        decreases config_descriptors@.len() - k,
    {
        let blob = &config_descriptors[k];
        let ghost configs0 = configs_view(configs@);
        let ghost eps0 = ep_to_idx@;
        let mut this_config_desc: Option<DeviceConfiguration> = None;
        let mut it = parse_descriptor_set(blob.as_slice());
        let ghost mut done: Seq<DescriptorView> = seq![];
        proof {
            assert(spec_descriptors(blob@) =~= done + spec_descriptors(it@));
        }
        loop
            invariant
                spec_well_framed(it@),
                spec_descriptors(blob@) == done + spec_descriptors(it@),
                ({
                    let st = spec_reformat_descs(
                        ReformatState { configs: configs0, current: None, eps: eps0 },
                        done,
                        current_config,
                        if_state@,
                        concatenated,
                    );
                    &&& configs_view(configs@) == st.configs
                    &&& opt_config_view(this_config_desc) == st.current
                    &&& ep_to_idx@ == st.eps
                }),
            ensures
                spec_descriptors(blob@) == done,
                ({
                    let st = spec_reformat_descs(
                        ReformatState { configs: configs0, current: None, eps: eps0 },
                        done,
                        current_config,
                        if_state@,
                        concatenated,
                    );
                    &&& configs_view(configs@) == st.configs
                    &&& opt_config_view(this_config_desc) == st.current
                    &&& ep_to_idx@ == st.eps
                }),
            decreases it@.len(),
        {
            let ghost before = it@;
            match it.next() {
                None => {
                    proof {
                        assert(spec_descriptors(before) =~= Seq::<DescriptorView>::empty());
                        assert(done + Seq::<DescriptorView>::empty() =~= done);
                    }
                    break ;
                },
                Some(desc) => {
                    let ghost d = desc@;
                    reformat_step(
                        &mut configs,
                        &mut this_config_desc,
                        &mut ep_to_idx,
                        desc,
                        current_config,
                        &if_state,
                        concatenated,
                    );
                    proof {
                        let old_done = done;
                        done = done.push(d);
                        assert(done.drop_last() =~= old_done);
                        assert(spec_descriptors(blob@) =~= done + spec_descriptors(it@));
                    }
                },
            }
        }
        let last = match this_config_desc {
            Some(c) => c,
            None => new_config(0, 0),
        };
        let ghost before_push = configs@;
        configs.push(last);
        proof {
            assert(configs_view(configs@) =~= configs_view(before_push).push(last@));
            let blobs = blobs_view(config_descriptors@);
            assert(blobs.subrange(0, k + 1).drop_last() =~= blobs.subrange(0, k as int));
            assert(blobs.subrange(0, k + 1).last() == blob@);
            let prev = spec_reformat_all(blobs.subrange(0, k as int), current_config, if_state@, concatenated);
            assert(prev.0 == configs0);
            assert(prev.1 == eps0);
            assert(spec_reformat_all(blobs.subrange(0, k + 1), current_config, if_state@, concatenated)
                == spec_reformat_blob(prev.0, prev.1, blob@, current_config, if_state@, concatenated));
        }
        k = k + 1;
    }
    proof {
        assert(blobs_view(config_descriptors@).subrange(0, k as int) =~= blobs_view(
            config_descriptors@,
        ));
    }
    (configs, ep_to_idx)
}


/// `kIOReturnExclusiveAccess`: another process holds the device or interface.
pub const K_IO_RETURN_EXCLUSIVE_ACCESS: i32 = -536870203;
/// `kIOUSBPipeStalled`: the endpoint answered with a STALL.
pub const K_IO_USB_PIPE_STALLED: i32 = -536854449;
/// `kIOReturnOverrun`: the device sent more data than asked for.
pub const K_IO_RETURN_OVERRUN: i32 = -536870168;

/// How an operation goes on once its checks have passed: either it is
/// already answered, or the operating system has to do it.
#[derive(Clone, Copy, PartialEq, Eq, Structural, Debug)]
pub enum OpStep {
    Done(DeviceOpResult),
    CallOs,
}

/// What the helper keeps about a device besides its operating-system handles.
#[derive(Debug)]
pub struct USBDeviceState {
    pub device_descriptor: crate::ch9_core::DeviceDescriptor,
    pub config_descriptors: Vec<Vec<u8>>,
    pub vendor_name: Option<String>,
    pub product_name: Option<String>,
    pub serial_number: Option<String>,
    pub reformatted_config_descriptors: Vec<DeviceConfiguration>,
    /// Map from bEndpointAddress to bInterfaceNumber
    ///
    /// Different interfaces cannot use the same endpoints
    pub ep_to_idx: HashMap<u8, u8>,
    pub opened: bool,
    pub current_configuration_id: u8,
    /// Map from bInterfaceNumber to state
    pub current_if_state: HashMap<u8, USBInterfaceState>,
}

/// The part of a device's state that requests read and change.
pub struct DeviceStateView {
    pub opened: bool,
    pub config: u8,
    pub ifs: Map<u8, USBInterfaceState>,
    pub eps: Map<u8, u8>,
}

/// Answer to a request on a device that is not open.
pub open spec fn spec_check_open(s: DeviceStateView) -> Result<(), Errors> {
    if s.opened {
        Ok(())
    } else {
        Err(Errors::InvalidState)
    }
}

/// Opening: nothing to do when already open.
pub open spec fn spec_open_step(s: DeviceStateView) -> OpStep {
    if s.opened {
        OpStep::Done(DeviceOpResult::SendCompletionNow)
    } else {
        OpStep::CallOs
    }
}

/// How an operating-system failure code is reported for open and claim:
/// exclusive access means someone else holds it.
pub open spec fn spec_claim_error(code: i32) -> Errors {
    if code == K_IO_RETURN_EXCLUSIVE_ACCESS {
        Errors::AlreadyClaimed
    } else {
        Errors::TransferError
    }
}

/// Claiming: the device must be open and the interface known; an interface
/// already claimed needs nothing more.
pub open spec fn spec_claim_step(s: DeviceStateView, iface: u8) -> Result<OpStep, Errors> {
    if !s.opened {
        Err(Errors::InvalidState)
    } else if !s.ifs.contains_key(iface) {
        Err(Errors::InvalidNumber)
    } else if s.ifs[iface].claimed {
        Ok(OpStep::Done(DeviceOpResult::SendCompletionNow))
    } else {
        Ok(OpStep::CallOs)
    }
}

/// Releasing or changing the alternate setting: the device must be open, the
/// interface known and claimed.
pub open spec fn spec_claimed_iface_step(s: DeviceStateView, iface: u8) -> Result<(), Errors> {
    if !s.opened {
        Err(Errors::InvalidState)
    } else if !s.ifs.contains_key(iface) {
        Err(Errors::InvalidNumber)
    } else if !s.ifs[iface].claimed {
        Err(Errors::InvalidState)
    } else {
        Ok(())
    }
}

/// A transfer on an endpoint: the device must be open, the endpoint belong to
/// a known interface, and that interface be claimed. Gives the interface.
pub open spec fn spec_endpoint_step(s: DeviceStateView, ep: u8) -> Result<u8, Errors> {
    if !s.opened {
        Err(Errors::InvalidState)
    } else if !s.eps.contains_key(ep) {
        Err(Errors::InvalidNumber)
    } else if !s.ifs.contains_key(s.eps[ep]) {
        Err(Errors::InvalidNumber)
    } else if !s.ifs[s.eps[ep]].claimed {
        Err(Errors::InvalidState)
    } else {
        Ok(s.eps[ep])
    }
}

/// A control transfer: the device must be open; one addressed to an
/// interface needs that interface claimed, one addressed to an endpoint needs
/// the endpoint's interface claimed (an index above `0xff` names no endpoint).
pub open spec fn spec_ctrl_step(s: DeviceStateView, request_type: u8, index: u16) -> Result<(), Errors> {
    if !s.opened {
        Err(Errors::InvalidState)
    } else if request_type & 0x1f == 1 {
        spec_claimed_iface_step(s, (index as int % 256) as u8)
    } else if request_type & 0x1f == 2 {
        if index > 0xff {
            Err(Errors::InvalidNumber)
        } else {
            match spec_endpoint_step(s, index as u8) {
                Ok(_) => Ok(()),
                Err(e) => Err(e),
            }
        }
    } else {
        Ok(())
    }
}

/// The interface is known and claimed.
pub open spec fn spec_is_claimed(ifs: Map<u8, USBInterfaceState>, i: u8) -> bool {
    ifs.contains_key(i) && ifs[i].claimed
}

/// The state with `opened` changed.
pub open spec fn spec_with_opened(s: DeviceStateView, opened: bool) -> DeviceStateView {
    DeviceStateView { opened, config: s.config, ifs: s.ifs, eps: s.eps }
}

/// The state with the active configuration changed.
pub open spec fn spec_with_config(s: DeviceStateView, config: u8) -> DeviceStateView {
    DeviceStateView { opened: s.opened, config, ifs: s.ifs, eps: s.eps }
}

/// The state with new interface states.
pub open spec fn spec_with_interfaces(s: DeviceStateView, ifs: Map<u8, USBInterfaceState>) -> DeviceStateView {
    DeviceStateView { opened: s.opened, config: s.config, ifs, eps: s.eps }
}

/// The interface's state with `claimed` changed.
pub open spec fn spec_set_claimed(s: DeviceStateView, iface: u8, claimed: bool) -> DeviceStateView {
    DeviceStateView {
        opened: s.opened,
        config: s.config,
        ifs: s.ifs.insert(iface, USBInterfaceState { alt_setting: s.ifs[iface].alt_setting, claimed }),
        eps: s.eps,
    }
}

/// The interface's state with its alternate setting changed.
pub open spec fn spec_set_alt(s: DeviceStateView, iface: u8, alt: u8) -> DeviceStateView {
    DeviceStateView {
        opened: s.opened,
        config: s.config,
        ifs: s.ifs.insert(iface, USBInterfaceState { alt_setting: alt, claimed: s.ifs[iface].claimed }),
        eps: s.eps,
    }
}

/// Result of an operating-system call that completes the request at once.
pub open spec fn spec_completed_now(os: Result<(), i32>) -> Result<DeviceOpResult, Errors> {
    match os {
        Ok(()) => Ok(DeviceOpResult::SendCompletionNow),
        Err(_) => Err(Errors::TransferError),
    }
}

/// Result of submitting a transfer: its completion is sent later. A stall
/// reported at submission is told apart only where `stall_aware`.
pub open spec fn spec_submitted(os: Result<(), i32>, stall_aware: bool) -> Result<
    DeviceOpResult,
    Errors,
> {
    match os {
        Ok(()) => Ok(DeviceOpResult::ManualCompletion),
        Err(code) => if stall_aware && code == K_IO_USB_PIPE_STALLED {
            Err(Errors::Stall)
        } else {
            Err(Errors::TransferError)
        },
    }
}

impl USBDeviceState {
    pub open spec fn state(&self) -> DeviceStateView {
        DeviceStateView {
            opened: self.opened,
            config: self.current_configuration_id,
            ifs: self.current_if_state@,
            eps: self.ep_to_idx@,
        }
    }

    /// Fields a request never changes.
    pub open spec fn same_identity(&self, other: &USBDeviceState) -> bool {
        &&& self.device_descriptor == other.device_descriptor
        &&& self.config_descriptors@ == other.config_descriptors@
        &&& self.vendor_name == other.vendor_name
        &&& self.product_name == other.product_name
        &&& self.serial_number == other.serial_number
        &&& self.reformatted_config_descriptors@ == other.reformatted_config_descriptors@
    }

    /// A device as found when it is plugged in: not open, interfaces in their
    /// probed state, and the configurations worked out from the descriptors.
    pub fn new(
        device_descriptor: crate::ch9_core::DeviceDescriptor,
        config_descriptors: Vec<Vec<u8>>,
        vendor_name: Option<String>,
        product_name: Option<String>,
        serial_number: Option<String>,
        current_configuration_id: u8,
        current_if_state: HashMap<u8, USBInterfaceState>,
        concatenated: bool,
    ) -> (r: USBDeviceState)
        requires
            forall|i: int|
                0 <= i < config_descriptors@.len() ==> spec_well_framed(
                    #[trigger] config_descriptors@[i]@,
                ),
        ensures
            r.device_descriptor == device_descriptor,
            r.config_descriptors@ == config_descriptors@,
            r.vendor_name == vendor_name,
            r.product_name == product_name,
            r.serial_number == serial_number,
            !r.opened,
            r.current_configuration_id == current_configuration_id,
            r.current_if_state@ == current_if_state@,
            ({
                let expected = spec_reformat_all(
                    blobs_view(config_descriptors@),
                    current_configuration_id,
                    current_if_state@,
                    concatenated,
                );
                &&& configs_view(r.reformatted_config_descriptors@) == expected.0
                &&& r.ep_to_idx@ == expected.1
            }),
    {
        let (configs, eps) = reformat_config_descriptors(
            &config_descriptors,
            current_configuration_id,
            &current_if_state,
            concatenated,
        );
        USBDeviceState {
            device_descriptor,
            config_descriptors,
            vendor_name,
            product_name,
            serial_number,
            reformatted_config_descriptors: configs,
            ep_to_idx: eps,
            opened: false,
            current_configuration_id,
            current_if_state,
        }
    }

    pub fn check_open(&self) -> (r: Result<(), Errors>)
        ensures
            r == spec_check_open(self.state()),
    {
        if !self.opened {
            Err(Errors::InvalidState)
        } else {
            Ok(())
        }
    }

    pub fn open_step(&self) -> (r: OpStep)
        ensures
            r == spec_open_step(self.state()),
    {
        if self.opened {
            OpStep::Done(DeviceOpResult::SendCompletionNow)
        } else {
            OpStep::CallOs
        }
    }

    /// After the operating system was asked to open the device.
    pub fn finish_open(&mut self, os: Result<(), i32>) -> (r: Result<DeviceOpResult, Errors>)
        ensures
            final(self).same_identity(old(self)),
            match os {
                Ok(()) => r == Ok::<DeviceOpResult, Errors>(DeviceOpResult::SendCompletionNow)
                    && final(self).state() == spec_with_opened(old(self).state(), true),
                Err(code) => r == Err::<DeviceOpResult, Errors>(spec_claim_error(code))
                    && final(self).state() == old(self).state(),
            },
    {
        match os {
            Ok(()) => {
                self.opened = true;
                Ok(DeviceOpResult::SendCompletionNow)
            },
            Err(code) => {
                if code == K_IO_RETURN_EXCLUSIVE_ACCESS {
                    Err(Errors::AlreadyClaimed)
                } else {
                    Err(Errors::TransferError)
                }
            },
        }
    }

    /// The claimed interfaces, in increasing order; closing the device
    /// releases them first.
    pub fn claimed_interfaces(&self) -> (r: Vec<u8>)
        ensures
            forall|i: u8| r@.contains(i) <==> #[trigger] spec_is_claimed(self.current_if_state@, i),
            forall|a: int, b: int| 0 <= a < b < r@.len() ==> r@[a] < r@[b],
    {
        let mut out: Vec<u8> = Vec::new();
        let mut n: u16 = 0;
        while n < 256
            invariant
                n <= 256,
                forall|i: u8|
                    (i < n) ==> (out@.contains(i) <==> #[trigger] spec_is_claimed(
                        self.current_if_state@,
                        i,
                    )),
                forall|k: int| 0 <= k < out@.len() ==> out@[k] < n,
                forall|a: int, b: int| 0 <= a < b < out@.len() ==> out@[a] < out@[b],
            decreases 256 - n,
        {
            let i = n as u8;
            let ghost old_out = out@;
            let mut pushed = false;
            match self.current_if_state.get(&i) {
                Some(st) => {
                    if st.claimed {
                        out.push(i);
                        pushed = true;
                    }
                },
                None => {},
            }
            proof {
                let m = self.current_if_state@;
                assert(i as int == n as int);
                assert(!old_out.contains(i)) by {
                    if old_out.contains(i) {
                        let k = choose|k: int| 0 <= k < old_out.len() && old_out[k] == i;
                        assert(old_out[k] < n);
                    }
                }
                assert(pushed <==> spec_is_claimed(m, i));
                assert forall|j: u8| (j < n + 1) implies (out@.contains(j) <==> #[trigger] spec_is_claimed(
                    m,
                    j,
                )) by {
                    if j != i {
                        assert(j < n);
                        assert(old_out.contains(j) <==> spec_is_claimed(m, j));
                        if out@.contains(j) {
                            let k = choose|k: int| 0 <= k < out@.len() && out@[k] == j;
                            if pushed {
                                assert(k < old_out.len());
                            }
                            assert(old_out[k] == j);
                        }
                        if old_out.contains(j) {
                            let k = choose|k: int| 0 <= k < old_out.len() && old_out[k] == j;
                            assert(out@[k] == j);
                        }
                    } else {
                        if pushed {
                            assert(out@[out@.len() - 1] == j);
                        }
                    }
                }
            }
            n = n + 1;
        }
        out
    }

    /// Records that closing the device released this interface.
    pub fn mark_released(&mut self, iface: u8)
        requires
            old(self).current_if_state@.contains_key(iface),
        ensures
            final(self).same_identity(old(self)),
            final(self).state() == spec_set_claimed(old(self).state(), iface, false),
    {
        let st = *self.current_if_state.get(&iface).unwrap();
        self.current_if_state.insert(iface, USBInterfaceState { alt_setting: st.alt_setting, claimed: false });
    }

    /// After the operating system was asked to close the device.
    pub fn finish_close(&mut self, os: Result<(), i32>) -> (r: Result<DeviceOpResult, Errors>)
        ensures
            final(self).same_identity(old(self)),
            r == spec_completed_now(os),
            os is Ok ==> final(self).state() == spec_with_opened(old(self).state(), false),
            os is Err ==> final(self).state() == old(self).state(),
    {
        match os {
            Ok(()) => {
                self.opened = false;
                Ok(DeviceOpResult::SendCompletionNow)
            },
            Err(_) => Err(Errors::TransferError),
        }
    }

    /// After the operating system was asked to change the configuration. On
    /// success the device is in the new configuration; the interfaces then
    /// have to be probed again.
    pub fn finish_set_configuration(&mut self, value: u8, os: Result<(), i32>) -> (r: Result<
        DeviceOpResult,
        Errors,
    >)
        ensures
            final(self).same_identity(old(self)),
            r == spec_completed_now(os),
            os is Ok ==> final(self).state() == spec_with_config(old(self).state(), value),
            os is Err ==> final(self).state() == old(self).state(),
    {
        match os {
            Ok(()) => {
                self.current_configuration_id = value;
                Ok(DeviceOpResult::SendCompletionNow)
            },
            Err(_) => Err(Errors::TransferError),
        }
    }

    /// Takes the interfaces found after a configuration change.
    pub fn set_interfaces(&mut self, if_state: HashMap<u8, USBInterfaceState>)
        ensures
            final(self).same_identity(old(self)),
            final(self).state() == spec_with_interfaces(old(self).state(), if_state@),
    {
        self.current_if_state = if_state;
    }

    pub fn claim_step(&self, iface: u8) -> (r: Result<OpStep, Errors>)
        ensures
            r == spec_claim_step(self.state(), iface),
    {
        self.check_open()?;
        match self.current_if_state.get(&iface) {
            None => Err(Errors::InvalidNumber),
            Some(st) => {
                if st.claimed {
                    Ok(OpStep::Done(DeviceOpResult::SendCompletionNow))
                } else {
                    Ok(OpStep::CallOs)
                }
            },
        }
    }

    /// After the operating system was asked to claim the interface.
    pub fn finish_claim(&mut self, iface: u8, os: Result<(), i32>) -> (r: Result<
        DeviceOpResult,
        Errors,
    >)
        requires
            old(self).current_if_state@.contains_key(iface),
        ensures
            final(self).same_identity(old(self)),
            match os {
                Ok(()) => r == Ok::<DeviceOpResult, Errors>(DeviceOpResult::SendCompletionNow)
                    && final(self).state() == spec_set_claimed(old(self).state(), iface, true),
                Err(code) => r == Err::<DeviceOpResult, Errors>(spec_claim_error(code))
                    && final(self).state() == old(self).state(),
            },
    {
        match os {
            Ok(()) => {
                let st = *self.current_if_state.get(&iface).unwrap();
                self.current_if_state.insert(
                    iface,
                    USBInterfaceState { alt_setting: st.alt_setting, claimed: true },
                );
                Ok(DeviceOpResult::SendCompletionNow)
            },
            Err(code) => {
                if code == K_IO_RETURN_EXCLUSIVE_ACCESS {
                    Err(Errors::AlreadyClaimed)
                } else {
                    Err(Errors::TransferError)
                }
            },
        }
    }

    /// Checks for releasing an interface or changing its alternate setting.
    pub fn claimed_iface_step(&self, iface: u8) -> (r: Result<(), Errors>)
        ensures
            r == spec_claimed_iface_step(self.state(), iface),
    {
        self.check_open()?;
        match self.current_if_state.get(&iface) {
            None => Err(Errors::InvalidNumber),
            Some(st) => {
                if !st.claimed {
                    Err(Errors::InvalidState)
                } else {
                    Ok(())
                }
            },
        }
    }

    /// After the operating system was asked to release the interface.
    pub fn finish_release(&mut self, iface: u8, os: Result<(), i32>) -> (r: Result<
        DeviceOpResult,
        Errors,
    >)
        requires
            old(self).current_if_state@.contains_key(iface),
        ensures
            final(self).same_identity(old(self)),
            r == spec_completed_now(os),
            os is Ok ==> final(self).state() == spec_set_claimed(old(self).state(), iface, false),
            os is Err ==> final(self).state() == old(self).state(),
    {
        match os {
            Ok(()) => {
                self.mark_released(iface);
                Ok(DeviceOpResult::SendCompletionNow)
            },
            Err(_) => Err(Errors::TransferError),
        }
    }

    /// After the operating system was asked to select an alternate setting.
    pub fn finish_set_alt(&mut self, iface: u8, alt: u8, os: Result<(), i32>) -> (r: Result<
        DeviceOpResult,
        Errors,
    >)
        requires
            old(self).current_if_state@.contains_key(iface),
        ensures
            final(self).same_identity(old(self)),
            r == spec_completed_now(os),
            os is Ok ==> final(self).state() == spec_set_alt(old(self).state(), iface, alt),
            os is Err ==> final(self).state() == old(self).state(),
    {
        match os {
            Ok(()) => {
                let st = *self.current_if_state.get(&iface).unwrap();
                self.current_if_state.insert(
                    iface,
                    USBInterfaceState { alt_setting: alt, claimed: st.claimed },
                );
                Ok(DeviceOpResult::SendCompletionNow)
            },
            Err(_) => Err(Errors::TransferError),
        }
    }

    /// Checks for a transfer on an endpoint; gives the owning interface.
    pub fn endpoint_step(&self, ep: u8) -> (r: Result<u8, Errors>)
        ensures
            r == spec_endpoint_step(self.state(), ep),
    {
        self.check_open()?;
        let iface = match self.ep_to_idx.get(&ep) {
            None => return Err(Errors::InvalidNumber),
            Some(i) => *i,
        };
        match self.current_if_state.get(&iface) {
            None => Err(Errors::InvalidNumber),
            Some(st) => {
                if !st.claimed {
                    Err(Errors::InvalidState)
                } else {
                    Ok(iface)
                }
            },
        }
    }

    /// Checks for a control transfer.
    pub fn ctrl_step(&self, request_type: u8, index: u16) -> (r: Result<(), Errors>)
        ensures
            r == spec_ctrl_step(self.state(), request_type, index),
    {
        self.check_open()?;
        if request_type & 0x1f == 1 {
            // If it's an interface transfer, check if the interface is claimed
            let iface = (index % 256) as u8;
            self.claimed_iface_step(iface)
        } else if request_type & 0x1f == 2 {
            // If it's an endpoint transfer, check if the endpoint exists and if the interface is claimed
            if index > 0xff {
                return Err(Errors::InvalidNumber);
            }
            match self.endpoint_step(index as u8) {
                Ok(_) => Ok(()),
                Err(e) => Err(e),
            }
        } else {
            Ok(())
        }
    }
}

impl USBDeviceState {
    /// The message that announces this device to the extension under the
    /// session id `sessionid`: its descriptor fields, names and configurations.
    pub fn plug_notification(&self, sessionid: u64) -> (r: ResponseMessage)
        ensures
            r@ == (ResponseMessageView::NewDevice {
                sid: spec_decimal(sessionid as nat),
                bcdUSB: self.device_descriptor.bcdUSB,
                bDeviceClass: self.device_descriptor.bDeviceClass,
                bDeviceSubClass: self.device_descriptor.bDeviceSubClass,
                bDeviceProtocol: self.device_descriptor.bDeviceProtocol,
                idVendor: self.device_descriptor.idVendor,
                idProduct: self.device_descriptor.idProduct,
                bcdDevice: self.device_descriptor.bcdDevice,
                manufacturer: opt_text(self.vendor_name),
                product: opt_text(self.product_name),
                serial: opt_text(self.serial_number),
                current_config: self.current_configuration_id,
                configs: configs_view(self.reformatted_config_descriptors@),
            }),
    {
        ResponseMessage::NewDevice {
            sid: decimal_string(sessionid),
            bcdUSB: self.device_descriptor.bcdUSB,
            bDeviceClass: self.device_descriptor.bDeviceClass,
            bDeviceSubClass: self.device_descriptor.bDeviceSubClass,
            bDeviceProtocol: self.device_descriptor.bDeviceProtocol,
            idVendor: self.device_descriptor.idVendor,
            idProduct: self.device_descriptor.idProduct,
            bcdDevice: self.device_descriptor.bcdDevice,
            manufacturer: clone_opt_string(&self.vendor_name),
            product: clone_opt_string(&self.product_name),
            serial: clone_opt_string(&self.serial_number),
            current_config: self.current_configuration_id,
            configs: clone_configurations(&self.reformatted_config_descriptors),
        }
    }
}

/// The message that tells the extension that the device with session id
/// `sessionid` is gone.
pub fn unplug_notification(sessionid: u64) -> (r: ResponseMessage)
    ensures
        r@ == (ResponseMessageView::UnplugDevice { sid: spec_decimal(sessionid as nat) }),
{
    ResponseMessage::UnplugDevice { sid: decimal_string(sessionid) }
}

/// The answer to a request that completes at once from an operating-system result.
pub fn completed_now(os: Result<(), i32>) -> (r: Result<DeviceOpResult, Errors>)
    ensures
        r == spec_completed_now(os),
{
    match os {
        Ok(()) => Ok(DeviceOpResult::SendCompletionNow),
        Err(_) => Err(Errors::TransferError),
    }
}

/// The answer to submitting a transfer.
pub fn submitted(os: Result<(), i32>, stall_aware: bool) -> (r: Result<DeviceOpResult, Errors>)
    ensures
        r == spec_submitted(os, stall_aware),
{
    match os {
        Ok(()) => Ok(DeviceOpResult::ManualCompletion),
        Err(code) => {
            if stall_aware && code == K_IO_USB_PIPE_STALLED {
                Err(Errors::Stall)
            } else {
                Err(Errors::TransferError)
            }
        },
    }
}

/// A device that is not open refuses every request that needs it open with
/// `InvalidState`, before looking at interfaces or endpoints.
pub proof fn unopened_device_refuses(s: DeviceStateView, iface: u8, ep: u8, request_type: u8, index: u16)
    requires
        !s.opened,
    ensures
        spec_check_open(s) == Err::<(), Errors>(Errors::InvalidState),
        spec_claim_step(s, iface) == Err::<OpStep, Errors>(Errors::InvalidState),
        spec_claimed_iface_step(s, iface) == Err::<(), Errors>(Errors::InvalidState),
        spec_endpoint_step(s, ep) == Err::<u8, Errors>(Errors::InvalidState),
        spec_ctrl_step(s, request_type, index) == Err::<(), Errors>(Errors::InvalidState),
{
}

/// Opening an open device, or claiming a claimed interface, is answered at
/// once without asking the operating system again.
pub proof fn repeated_open_and_claim_are_noops(s: DeviceStateView, iface: u8)
    requires
        s.opened,
        s.ifs.contains_key(iface),
        s.ifs[iface].claimed,
    ensures
        spec_open_step(s) == OpStep::Done(DeviceOpResult::SendCompletionNow),
        spec_claim_step(s, iface) == Ok::<OpStep, Errors>(OpStep::Done(DeviceOpResult::SendCompletionNow)),
{
}

/// Claiming an unclaimed interface and then releasing it (both succeeding at
/// the operating system) leaves the device as it was; in between, the
/// interface is claimed, so transfers on its endpoints pass their checks.
pub proof fn claim_then_release_restores(s: DeviceStateView, iface: u8)
    requires
        s.opened,
        s.ifs.contains_key(iface),
        !s.ifs[iface].claimed,
    ensures
        spec_claim_step(s, iface) == Ok::<OpStep, Errors>(OpStep::CallOs),
        spec_claimed_iface_step(spec_set_claimed(s, iface, true), iface) == Ok::<(), Errors>(()),
        forall|ep: u8|
            s.eps.contains_key(ep) && s.eps[ep] == iface ==> spec_endpoint_step(
                #[trigger] spec_set_claimed(s, iface, true),
                ep,
            ) == Ok::<u8, Errors>(iface),
        spec_set_claimed(spec_set_claimed(s, iface, true), iface, false) == s,
{
    let s2 = spec_set_claimed(spec_set_claimed(s, iface, true), iface, false);
    assert(s2.ifs =~= s.ifs);
}

/// On an open device, claiming asks the operating system exactly when the
/// interface is known and not yet claimed, and answers at once when it is
/// already claimed; releasing or selecting an alternate setting is let
/// through exactly when the interface is known and claimed. An unknown
/// interface is refused with `InvalidNumber`, releasing an unclaimed one with
/// `InvalidState`.
pub proof fn interface_requests_follow_claims(s: DeviceStateView, iface: u8)
    requires
        s.opened,
    ensures
        spec_claim_step(s, iface) == Ok::<OpStep, Errors>(OpStep::CallOs) <==> (s.ifs.contains_key(
            iface,
        ) && !s.ifs[iface].claimed),
        spec_claim_step(s, iface) == Ok::<OpStep, Errors>(
            OpStep::Done(DeviceOpResult::SendCompletionNow),
        ) <==> (s.ifs.contains_key(iface) && s.ifs[iface].claimed),
        !s.ifs.contains_key(iface) ==> spec_claim_step(s, iface) == Err::<OpStep, Errors>(
            Errors::InvalidNumber,
        ),
        spec_claimed_iface_step(s, iface) is Ok <==> (s.ifs.contains_key(iface)
            && s.ifs[iface].claimed),
        s.ifs.contains_key(iface) && !s.ifs[iface].claimed ==> spec_claimed_iface_step(s, iface)
            == Err::<(), Errors>(Errors::InvalidState),
        !s.ifs.contains_key(iface) ==> spec_claimed_iface_step(s, iface) == Err::<(), Errors>(
            Errors::InvalidNumber,
        ),
{
}

/// On an open device, a transfer on an endpoint is let through exactly when
/// the endpoint belongs to a known interface that is claimed, and then it is
/// that interface that carries it; an endpoint of a known interface that is
/// not claimed is refused with `InvalidState`, any other with
/// `InvalidNumber`.
pub proof fn transfers_need_their_interface_claimed(s: DeviceStateView, ep: u8)
    requires
        s.opened,
    ensures
        spec_endpoint_step(s, ep) is Ok <==> (s.eps.contains_key(ep) && s.ifs.contains_key(s.eps[ep])
            && s.ifs[s.eps[ep]].claimed),
        spec_endpoint_step(s, ep) matches Ok(i) ==> i == s.eps[ep],
        s.eps.contains_key(ep) && s.ifs.contains_key(s.eps[ep]) && !s.ifs[s.eps[ep]].claimed
            ==> spec_endpoint_step(s, ep) == Err::<u8, Errors>(Errors::InvalidState),
        !(s.eps.contains_key(ep) && s.ifs.contains_key(s.eps[ep])) ==> spec_endpoint_step(s, ep)
            == Err::<u8, Errors>(Errors::InvalidNumber),
{
}

/// On an open device, a control transfer addressed to an interface (the low
/// five bits of the request type are 1) is let through exactly when the
/// interface named by the low byte of the index is known and claimed; one
/// addressed to an endpoint (they are 2) exactly when the index names an
/// endpoint whose interface is known and claimed; any other is let through.
/// A known target that is not claimed is refused with `InvalidState`,
/// anything else with `InvalidNumber`.
pub proof fn control_transfers_need_their_target_claimed(
    s: DeviceStateView,
    request_type: u8,
    index: u16,
)
    requires
        s.opened,
    ensures
        request_type & 0x1f == 1 ==> {
            let iface = (index as int % 256) as u8;
            &&& (spec_ctrl_step(s, request_type, index) is Ok <==> (s.ifs.contains_key(iface)
                && s.ifs[iface].claimed))
            &&& (s.ifs.contains_key(iface) && !s.ifs[iface].claimed ==> spec_ctrl_step(
                s,
                request_type,
                index,
            ) == Err::<(), Errors>(Errors::InvalidState))
            &&& (!s.ifs.contains_key(iface) ==> spec_ctrl_step(s, request_type, index) == Err::<
                (),
                Errors,
            >(Errors::InvalidNumber))
        },
        request_type & 0x1f == 2 ==> {
            let ep = index as u8;
            &&& (spec_ctrl_step(s, request_type, index) is Ok <==> (index <= 0xff
                && s.eps.contains_key(ep) && s.ifs.contains_key(s.eps[ep]) && s.ifs[s.eps[ep]].claimed))
            &&& (index <= 0xff && s.eps.contains_key(ep) && s.ifs.contains_key(s.eps[ep])
                && !s.ifs[s.eps[ep]].claimed ==> spec_ctrl_step(s, request_type, index) == Err::<
                (),
                Errors,
            >(Errors::InvalidState))
            &&& (!(index <= 0xff && s.eps.contains_key(ep) && s.ifs.contains_key(s.eps[ep]))
                ==> spec_ctrl_step(s, request_type, index) == Err::<(), Errors>(
                Errors::InvalidNumber,
            ))
        },
        request_type & 0x1f != 1 && request_type & 0x1f != 2 ==> spec_ctrl_step(
            s,
            request_type,
            index,
        ) == Ok::<(), Errors>(()),
{
}

/// The interface lists an endpoint with this address.
pub open spec fn spec_interface_lists(iv: DeviceInterfaceView, ep: u8) -> bool {
    exists|k: int| 0 <= k < iv.endpoints.len() && (#[trigger] iv.endpoints[k]).bEndpointAddress == ep
}

/// The configuration has an interface with this number that lists the endpoint.
pub open spec fn spec_config_lists(cv: DeviceConfigurationView, iface: u8, ep: u8) -> bool {
    exists|i: int|
        0 <= i < cv.interfaces.len() && (#[trigger] cv.interfaces[i]).bInterfaceNumber == iface
            && spec_interface_lists(cv.interfaces[i], ep)
}

/// Some configuration has an interface with this number that lists the endpoint.
pub open spec fn spec_endpoint_listed(cfgs: Seq<DeviceConfigurationView>, ep: u8, iface: u8) -> bool {
    exists|c: int| 0 <= c < cfgs.len() && spec_config_lists(#[trigger] cfgs[c], iface, ep)
}

/// Every configuration gathered or being built.
pub open spec fn spec_all_configs(st: ReformatState) -> Seq<DeviceConfigurationView> {
    match st.current {
        Some(c) => st.configs.push(c),
        None => st.configs,
    }
}

/// Every endpoint of the map is listed by an interface with the number it maps to.
pub open spec fn spec_eps_listed(cfgs: Seq<DeviceConfigurationView>, eps: Map<u8, u8>) -> bool {
    forall|e: u8| #[trigger] eps.contains_key(e) ==> spec_endpoint_listed(cfgs, e, eps[e])
}

/// A listing in some configurations stays a listing once more are added.
proof fn lemma_listed_prefix(a: Seq<DeviceConfigurationView>, b: Seq<DeviceConfigurationView>, eps: Map<u8, u8>)
    requires
        spec_eps_listed(a, eps),
        a.len() <= b.len(),
        forall|c: int| 0 <= c < a.len() ==> b[c] == a[c],
    ensures
        spec_eps_listed(b, eps),
{
    assert forall|e: u8| #[trigger] eps.contains_key(e) implies spec_endpoint_listed(b, e, eps[e]) by {
        let c = choose|c: int| 0 <= c < a.len() && spec_config_lists(#[trigger] a[c], eps[e], e);
        assert(spec_config_lists(b[c], eps[e], e));
    }
}

/// One descriptor keeps every endpoint of the map listed.
proof fn lemma_step_keeps_listed(
    st: ReformatState,
    d: DescriptorView,
    current_config: u8,
    if_state: Map<u8, USBInterfaceState>,
    concatenated: bool,
)
    requires
        spec_eps_listed(spec_all_configs(st), st.eps),
    ensures
        ({
            let st2 = spec_reformat_step(st, d, current_config, if_state, concatenated);
            spec_eps_listed(spec_all_configs(st2), st2.eps)
        }),
{
    let st2 = spec_reformat_step(st, d, current_config, if_state, concatenated);
    let a = spec_all_configs(st);
    let b = spec_all_configs(st2);
    match d {
        DescriptorView::Config(_) => {
            lemma_listed_prefix(a, b, st.eps);
        },
        DescriptorView::Interface(_) => {
            if let Some(cur) = st.current {
                let cur2 = st2.current.unwrap();
                assert forall|e: u8| #[trigger] st.eps.contains_key(e) implies spec_endpoint_listed(
                    b,
                    e,
                    st.eps[e],
                ) by {
                    let c = choose|c: int| 0 <= c < a.len() && spec_config_lists(#[trigger] a[c], st.eps[e], e);
                    if c < st.configs.len() {
                        assert(b[c] == a[c]);
                        assert(spec_config_lists(b[c], st.eps[e], e));
                    } else {
                        let i = choose|i: int|
                            0 <= i < cur.interfaces.len() && (#[trigger] cur.interfaces[i]).bInterfaceNumber
                                == st.eps[e] && spec_interface_lists(cur.interfaces[i], e);
                        assert(cur2.interfaces[i] == cur.interfaces[i]);
                        assert(spec_config_lists(cur2, st.eps[e], e));
                        assert(b[c] == cur2);
                    }
                }
            }
        },
        DescriptorView::Endpoint(ed) => {
            if let Some(cur) = st.current {
                if cur.interfaces.len() > 0 {
                    let cur2 = st2.current.unwrap();
                    let li = cur.interfaces.len() - 1;
                    let last = cur.interfaces[li];
                    let new_last = cur2.interfaces[li];
                    assert(new_last.endpoints == last.endpoints.push(
                        DeviceEndpoint {
                            bEndpointAddress: ed.bEndpointAddress,
                            bmAttributes: ed.bmAttributes,
                            wMaxPacketSize: ed.wMaxPacketSize,
                        },
                    ));
                    assert forall|e: u8| #[trigger] st2.eps.contains_key(e) implies spec_endpoint_listed(
                        b,
                        e,
                        st2.eps[e],
                    ) by {
                        let lc = st.configs.len() as int;
                        if e == ed.bEndpointAddress {
                            assert(new_last.endpoints[last.endpoints.len() as int].bEndpointAddress == e);
                            assert(spec_interface_lists(new_last, e));
                            assert(spec_config_lists(cur2, last.bInterfaceNumber, e));
                            assert(b[lc] == cur2);
                        } else {
                            assert(st.eps.contains_key(e));
                            let c = choose|c: int|
                                0 <= c < a.len() && spec_config_lists(#[trigger] a[c], st.eps[e], e);
                            if c < lc {
                                assert(b[c] == a[c]);
                                assert(spec_config_lists(b[c], st2.eps[e], e));
                            } else {
                                let i = choose|i: int|
                                    0 <= i < cur.interfaces.len() && (#[trigger] cur.interfaces[i]).bInterfaceNumber
                                        == st.eps[e] && spec_interface_lists(cur.interfaces[i], e);
                                let k = choose|k: int|
                                    0 <= k < cur.interfaces[i].endpoints.len() && (#[trigger] cur.interfaces[i].endpoints[k]).bEndpointAddress
                                        == e;
                                if i < li {
                                    assert(cur2.interfaces[i] == cur.interfaces[i]);
                                } else {
                                    assert(new_last.endpoints[k] == last.endpoints[k]);
                                }
                                assert(cur2.interfaces[i].endpoints[k].bEndpointAddress == e);
                                assert(spec_interface_lists(cur2.interfaces[i], e));
                                assert(spec_config_lists(cur2, st2.eps[e], e));
                                assert(b[lc] == cur2);
                            }
                        }
                    }
                }
            }
        },
        _ => {},
    }
}

/// Walking descriptors keeps every endpoint of the map listed.
proof fn lemma_descs_keep_listed(
    st: ReformatState,
    ds: Seq<DescriptorView>,
    current_config: u8,
    if_state: Map<u8, USBInterfaceState>,
    concatenated: bool,
)
    requires
        spec_eps_listed(spec_all_configs(st), st.eps),
    ensures
        ({
            let st2 = spec_reformat_descs(st, ds, current_config, if_state, concatenated);
            spec_eps_listed(spec_all_configs(st2), st2.eps)
        }),
    decreases ds.len(),
{
    if ds.len() > 0 {
        lemma_descs_keep_listed(st, ds.drop_last(), current_config, if_state, concatenated);
        lemma_step_keeps_listed(
            spec_reformat_descs(st, ds.drop_last(), current_config, if_state, concatenated),
            ds.last(),
            current_config,
            if_state,
            concatenated,
        );
    }
}

/// Every endpoint in the endpoint-to-interface map that the configurations
/// are reported with belongs to an interface with the number it maps to: some
/// reported configuration has an interface with that number that lists it.
pub proof fn endpoints_belong_to_their_interfaces(
    blobs: Seq<Seq<u8>>,
    current_config: u8,
    if_state: Map<u8, USBInterfaceState>,
    concatenated: bool,
)
    ensures
        ({
            let (cfgs, eps) = spec_reformat_all(blobs, current_config, if_state, concatenated);
            forall|e: u8| #[trigger] eps.contains_key(e) ==> spec_endpoint_listed(cfgs, e, eps[e])
        }),
    decreases blobs.len(),
{
    if blobs.len() > 0 {
        let prev = spec_reformat_all(blobs.drop_last(), current_config, if_state, concatenated);
        endpoints_belong_to_their_interfaces(blobs.drop_last(), current_config, if_state, concatenated);
        let st0 = ReformatState { configs: prev.0, current: None, eps: prev.1 };
        assert(spec_eps_listed(spec_all_configs(st0), st0.eps));
        let ds = spec_descriptors(blobs.last());
        lemma_descs_keep_listed(st0, ds, current_config, if_state, concatenated);
        let st = spec_reformat_descs(st0, ds, current_config, if_state, concatenated);
        let out = spec_reformat_all(blobs, current_config, if_state, concatenated);
        lemma_listed_prefix(spec_all_configs(st), out.0, st.eps);
        assert(spec_eps_listed(out.0, out.1));
    }
}


/// How the operating system's answers are reported: success of an
/// operation that completes at once is an empty completion and any failure a
/// transfer error; a failure to open or claim because someone else holds the
/// device (IOKit's exclusive-access code) is reported as already claimed; a
/// submitted transfer completes later, and a stall at submission is told
/// apart (IOKit's pipe-stalled code) only where the backend does so.
pub proof fn os_answers_are_reported(os: Result<(), i32>, stall_aware: bool, code: i32)
    ensures
        spec_completed_now(os) == if os is Ok {
            Ok::<DeviceOpResult, Errors>(DeviceOpResult::SendCompletionNow)
        } else {
            Err::<DeviceOpResult, Errors>(Errors::TransferError)
        },
        spec_claim_error(code) == if code == -536870203i32 {
            Errors::AlreadyClaimed
        } else {
            Errors::TransferError
        },
        os is Ok ==> spec_submitted(os, stall_aware) == Ok::<DeviceOpResult, Errors>(
            DeviceOpResult::ManualCompletion,
        ),
        os matches Err(c) ==> spec_submitted(os, stall_aware) == Err::<DeviceOpResult, Errors>(
            if stall_aware && c == -536854449i32 {
                Errors::Stall
            } else {
                Errors::TransferError
            },
        ),
{
}

} // verus!
