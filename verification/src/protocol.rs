//! Messages exchanged with the browser extension. Their JSON form is produced
//! and read outside this crate; here they are plain values.
use vstd::prelude::*;

verus! {

#[non_exhaustive]
#[derive(Clone, Copy, PartialEq, Eq, Structural, Debug)]
pub enum Errors {
    /// The device was not found
    ///
    /// This can happen either when the device ID is totally bogus,
    /// or when surprise removal happens.
    DeviceNotFound,
    /// A request was too big
    ///
    /// For example, a control transfer of more than 0xffff bytes,
    /// an isoc transfer of too many packets, etc.
    ///
    /// We do not attempt to hide platform-specific quirks.
    RequestTooBig,
    /// Device returned STALL condition
    Stall,
    /// Some kind of error occurred, but we are not required to be any more specific
    TransferError,
    /// Attempted to do something while the device is not properly opened or claimed
    InvalidState,
    /// A number (interface, endpoint) wasn't valid
    InvalidNumber,
    /// An interface is already claimed
    AlreadyClaimed,
}

#[derive(Clone, Copy, PartialEq, Eq, Structural, Debug)]
pub enum IsocPacketState {
    /// The packet completed normally (serialized as `Ok`).
    Success,
    Babble,
    Error,
}

#[allow(non_snake_case)]
#[derive(Clone, Copy, PartialEq, Eq, Structural, Debug)]
pub struct DeviceEndpoint {
    pub bEndpointAddress: u8,
    pub bmAttributes: u8,
    pub wMaxPacketSize: u16,
}

#[allow(non_snake_case)]
#[derive(Clone, Debug)]
pub struct DeviceInterface {
    pub bInterfaceNumber: u8,
    pub bAlternateSetting: u8,
    pub bInterfaceClass: u8,
    pub bInterfaceSubClass: u8,
    pub bInterfaceProtocol: u8,
    pub iInterface: u8,
    pub current_alt_setting: u8,
    pub endpoints: Vec<DeviceEndpoint>,
}

/// The mathematical value of a [`DeviceInterface`].
#[allow(non_snake_case)]
pub struct DeviceInterfaceView {
    pub bInterfaceNumber: u8,
    pub bAlternateSetting: u8,
    pub bInterfaceClass: u8,
    pub bInterfaceSubClass: u8,
    pub bInterfaceProtocol: u8,
    pub iInterface: u8,
    pub current_alt_setting: u8,
    pub endpoints: Seq<DeviceEndpoint>,
}

impl View for DeviceInterface {
    type V = DeviceInterfaceView;

    open spec fn view(&self) -> DeviceInterfaceView {
        DeviceInterfaceView {
            bInterfaceNumber: self.bInterfaceNumber,
            bAlternateSetting: self.bAlternateSetting,
            bInterfaceClass: self.bInterfaceClass,
            bInterfaceSubClass: self.bInterfaceSubClass,
            bInterfaceProtocol: self.bInterfaceProtocol,
            iInterface: self.iInterface,
            current_alt_setting: self.current_alt_setting,
            endpoints: self.endpoints@,
        }
    }
}

#[allow(non_snake_case)]
#[derive(Clone, Debug)]
pub struct DeviceConfiguration {
    pub bConfigurationValue: u8,
    pub iConfiguration: u8,
    pub interfaces: Vec<DeviceInterface>,
}

/// The mathematical value of a [`DeviceConfiguration`].
#[allow(non_snake_case)]
pub struct DeviceConfigurationView {
    pub bConfigurationValue: u8,
    pub iConfiguration: u8,
    pub interfaces: Seq<DeviceInterfaceView>,
}

impl View for DeviceConfiguration {
    type V = DeviceConfigurationView;

    open spec fn view(&self) -> DeviceConfigurationView {
        DeviceConfigurationView {
            bConfigurationValue: self.bConfigurationValue,
            iConfiguration: self.iConfiguration,
            interfaces: self.interfaces@.map_values(|i: DeviceInterface| i@),
        }
    }
}

/// The views of a list of configurations.
pub open spec fn configs_view(v: Seq<DeviceConfiguration>) -> Seq<DeviceConfigurationView> {
    v.map_values(|c: DeviceConfiguration| c@)
}

#[allow(non_snake_case)]
#[derive(Debug)]
pub enum ResponseMessage {
    NewDevice {
        sid: String,
        bcdUSB: u16,
        bDeviceClass: u8,
        bDeviceSubClass: u8,
        bDeviceProtocol: u8,
        idVendor: u16,
        idProduct: u16,
        bcdDevice: u16,
        manufacturer: Option<String>,
        product: Option<String>,
        serial: Option<String>,
        current_config: u8,
        configs: Vec<DeviceConfiguration>,
    },
    UnplugDevice { sid: String },
    RequestError { txn_id: String, error: Errors, bytes_written: u64 },
    RequestComplete { txn_id: String, babble: bool, data: Option<String>, bytes_written: u64 },
    IsocRequestComplete {
        txn_id: String,
        data: Option<String>,
        pkt_status: Vec<IsocPacketState>,
        pkt_len: Vec<u32>,
    },
}

#[derive(Debug)]
pub enum RequestMessage {
    ControlTransfer {
        sid: String,
        txn_id: String,
        request_type: u8,
        request: u8,
        value: u16,
        index: u16,
        data: Option<String>,
        length: Option<u16>,
        _timeout_internal: Option<u64>,
    },
    DataTransfer { sid: String, txn_id: String, ep: u8, data: Option<String>, length: Option<u32> },
    ClearHalt { sid: String, txn_id: String, ep: u8 },
    IsocTransfer { sid: String, txn_id: String, ep: u8, data: Option<String>, pkt_len: Vec<u32> },
    OpenDevice { sid: String, txn_id: String },
    CloseDevice { sid: String, txn_id: String },
    ResetDevice { sid: String, txn_id: String },
    SetConfiguration { sid: String, txn_id: String, value: u8 },
    ClaimInterface { sid: String, txn_id: String, value: u8 },
    ReleaseInterface { sid: String, txn_id: String, value: u8 },
    SetAltInterface { sid: String, txn_id: String, iface: u8, alt: u8 },
}

impl RequestMessage {
    /// The transaction id that every request carries.
    pub open spec fn spec_txn_id(&self) -> Seq<char> {
        match self {
            RequestMessage::ControlTransfer { txn_id, .. } => txn_id@,
            RequestMessage::DataTransfer { txn_id, .. } => txn_id@,
            RequestMessage::ClearHalt { txn_id, .. } => txn_id@,
            RequestMessage::IsocTransfer { txn_id, .. } => txn_id@,
            RequestMessage::OpenDevice { txn_id, .. } => txn_id@,
            RequestMessage::CloseDevice { txn_id, .. } => txn_id@,
            RequestMessage::ResetDevice { txn_id, .. } => txn_id@,
            RequestMessage::SetConfiguration { txn_id, .. } => txn_id@,
            RequestMessage::ClaimInterface { txn_id, .. } => txn_id@,
            RequestMessage::ReleaseInterface { txn_id, .. } => txn_id@,
            RequestMessage::SetAltInterface { txn_id, .. } => txn_id@,
        }
    }

    /// The session id that every request carries.
    pub open spec fn spec_sid(&self) -> Seq<char> {
        match self {
            RequestMessage::ControlTransfer { sid, .. } => sid@,
            RequestMessage::DataTransfer { sid, .. } => sid@,
            RequestMessage::ClearHalt { sid, .. } => sid@,
            RequestMessage::IsocTransfer { sid, .. } => sid@,
            RequestMessage::OpenDevice { sid, .. } => sid@,
            RequestMessage::CloseDevice { sid, .. } => sid@,
            RequestMessage::ResetDevice { sid, .. } => sid@,
            RequestMessage::SetConfiguration { sid, .. } => sid@,
            RequestMessage::ClaimInterface { sid, .. } => sid@,
            RequestMessage::ReleaseInterface { sid, .. } => sid@,
            RequestMessage::SetAltInterface { sid, .. } => sid@,
        }
    }

    pub fn txn_id(&self) -> (r: &str)
        ensures
            r@ == self.spec_txn_id(),
    {
        match self {
            RequestMessage::ControlTransfer { txn_id, .. } => txn_id.as_str(),
            RequestMessage::DataTransfer { txn_id, .. } => txn_id.as_str(),
            RequestMessage::ClearHalt { txn_id, .. } => txn_id.as_str(),
            RequestMessage::IsocTransfer { txn_id, .. } => txn_id.as_str(),
            RequestMessage::OpenDevice { txn_id, .. } => txn_id.as_str(),
            RequestMessage::CloseDevice { txn_id, .. } => txn_id.as_str(),
            RequestMessage::ResetDevice { txn_id, .. } => txn_id.as_str(),
            RequestMessage::SetConfiguration { txn_id, .. } => txn_id.as_str(),
            RequestMessage::ClaimInterface { txn_id, .. } => txn_id.as_str(),
            RequestMessage::ReleaseInterface { txn_id, .. } => txn_id.as_str(),
            RequestMessage::SetAltInterface { txn_id, .. } => txn_id.as_str(),
        }
    }
}


/// The mathematical value of a [`ResponseMessage`].
#[allow(non_snake_case)]
pub enum ResponseMessageView {
    NewDevice {
        sid: Seq<char>,
        bcdUSB: u16,
        bDeviceClass: u8,
        bDeviceSubClass: u8,
        bDeviceProtocol: u8,
        idVendor: u16,
        idProduct: u16,
        bcdDevice: u16,
        manufacturer: Option<Seq<char>>,
        product: Option<Seq<char>>,
        serial: Option<Seq<char>>,
        current_config: u8,
        configs: Seq<DeviceConfigurationView>,
    },
    UnplugDevice { sid: Seq<char> },
    RequestError { txn_id: Seq<char>, error: Errors, bytes_written: u64 },
    RequestComplete {
        txn_id: Seq<char>,
        babble: bool,
        data: Option<Seq<char>>,
        bytes_written: u64,
    },
    IsocRequestComplete {
        txn_id: Seq<char>,
        data: Option<Seq<char>>,
        pkt_status: Seq<IsocPacketState>,
        pkt_len: Seq<u32>,
    },
}

pub open spec fn opt_text(s: Option<String>) -> Option<Seq<char>> {
    match s {
        Some(s) => Some(s@),
        None => None,
    }
}

impl View for ResponseMessage {
    type V = ResponseMessageView;

    open spec fn view(&self) -> ResponseMessageView {
        match self {
            ResponseMessage::NewDevice {
                sid,
                bcdUSB,
                bDeviceClass,
                bDeviceSubClass,
                bDeviceProtocol,
                idVendor,
                idProduct,
                bcdDevice,
                manufacturer,
                product,
                serial,
                current_config,
                configs,
            } => ResponseMessageView::NewDevice {
                sid: sid@,
                bcdUSB: *bcdUSB,
                bDeviceClass: *bDeviceClass,
                bDeviceSubClass: *bDeviceSubClass,
                bDeviceProtocol: *bDeviceProtocol,
                idVendor: *idVendor,
                idProduct: *idProduct,
                bcdDevice: *bcdDevice,
                manufacturer: opt_text(*manufacturer),
                product: opt_text(*product),
                serial: opt_text(*serial),
                current_config: *current_config,
                configs: configs_view(configs@),
            },
            ResponseMessage::UnplugDevice { sid } => ResponseMessageView::UnplugDevice { sid: sid@ },
            ResponseMessage::RequestError { txn_id, error, bytes_written } =>
                ResponseMessageView::RequestError {
                txn_id: txn_id@,
                error: *error,
                bytes_written: *bytes_written,
            },
            ResponseMessage::RequestComplete { txn_id, babble, data, bytes_written } =>
                ResponseMessageView::RequestComplete {
                txn_id: txn_id@,
                babble: *babble,
                data: opt_text(*data),
                bytes_written: *bytes_written,
            },
            ResponseMessage::IsocRequestComplete { txn_id, data, pkt_status, pkt_len } =>
                ResponseMessageView::IsocRequestComplete {
                txn_id: txn_id@,
                data: opt_text(*data),
                pkt_status: pkt_status@,
                pkt_len: pkt_len@,
            },
        }
    }
}

/// A copy of an optional text.
pub fn clone_opt_string(s: &Option<String>) -> (r: Option<String>)
    ensures
        opt_text(r) == opt_text(*s),
{
    match s {
        Some(t) => Some(t.clone()),
        None => None,
    }
}

/// A deep copy of an interface.
pub fn clone_interface(i: &DeviceInterface) -> (r: DeviceInterface)
    ensures
        r@ == i@,
{
    let mut endpoints: Vec<DeviceEndpoint> = Vec::new();
    let mut k: usize = 0;
    while k < i.endpoints.len()
        invariant
            k <= i.endpoints@.len(),
            endpoints@ == i.endpoints@.subrange(0, k as int),
        decreases i.endpoints@.len() - k,
    {
        endpoints.push(i.endpoints[k]);
        k = k + 1;
        proof {
            assert(endpoints@ =~= i.endpoints@.subrange(0, k as int));
        }
    }
    proof {
        assert(i.endpoints@.subrange(0, k as int) =~= i.endpoints@);
    }
    DeviceInterface {
        bInterfaceNumber: i.bInterfaceNumber,
        bAlternateSetting: i.bAlternateSetting,
        bInterfaceClass: i.bInterfaceClass,
        bInterfaceSubClass: i.bInterfaceSubClass,
        bInterfaceProtocol: i.bInterfaceProtocol,
        iInterface: i.iInterface,
        current_alt_setting: i.current_alt_setting,
        endpoints,
    }
}

/// A deep copy of a configuration.
pub fn clone_configuration(c: &DeviceConfiguration) -> (r: DeviceConfiguration)
    ensures
        r@ == c@,
{
    let mut interfaces: Vec<DeviceInterface> = Vec::new();
    let mut k: usize = 0;
    while k < c.interfaces.len()
        invariant
            k <= c.interfaces@.len(),
            interfaces@.len() == k,
            forall|j: int| 0 <= j < k ==> (#[trigger] interfaces@[j])@ == c.interfaces@[j]@,
        decreases c.interfaces@.len() - k,
    {
        interfaces.push(clone_interface(&c.interfaces[k]));
        k = k + 1;
    }
    let r = DeviceConfiguration {
        bConfigurationValue: c.bConfigurationValue,
        iConfiguration: c.iConfiguration,
        interfaces,
    };
    proof {
        assert(r@.interfaces =~= c@.interfaces);
    }
    r
}

/// A deep copy of a list of configurations.
pub fn clone_configurations(v: &Vec<DeviceConfiguration>) -> (r: Vec<DeviceConfiguration>)
    ensures
        configs_view(r@) == configs_view(v@),
{
    let mut out: Vec<DeviceConfiguration> = Vec::new();
    let mut k: usize = 0;
    while k < v.len()
        invariant
            k <= v@.len(),
            out@.len() == k,
            forall|j: int| 0 <= j < k ==> (#[trigger] out@[j])@ == v@[j]@,
        decreases v@.len() - k,
    {
        out.push(clone_configuration(&v[k]));
        k = k + 1;
    }
    proof {
        assert(configs_view(out@) =~= configs_view(v@));
    }
    out
}

} // verus!
