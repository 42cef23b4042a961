//! Turning a request from the extension into a command for one device: the
//! session id is read, the payload decoded, the direction and sizes checked.
use vstd::prelude::*;

use crate::b64::{b64_decode, spec_b64_decode, spec_b64_encode};
use crate::device::USBTransferDirection;
use crate::numtext::{
    lemma_decimal_bytes_value, lemma_decimal_encoding, parse_unsigned, spec_decimal,
    spec_decimal_bytes, spec_parse_unsigned, spec_unsigned_digits,
};
use crate::protocol::{Errors, RequestMessage};

verus! {

/// Why a request cannot be handled at all. The helper gives up on such a
/// request rather than answering it.
#[derive(Clone, Copy, PartialEq, Eq, Structural, Debug)]
pub enum MalformedReason {
    /// The session id is not a decimal `u64`.
    BadSessionId,
    /// The payload is not valid unpadded URL-safe base64.
    BadPayload,
    /// The payload and length do not match the transfer's direction.
    Inconsistent,
}

/// The payload of a request once decoded.
#[derive(Debug)]
pub enum Payload {
    Absent,
    Invalid,
    Bytes(Vec<u8>),
}

pub enum PayloadView {
    Absent,
    Invalid,
    Bytes(Seq<u8>),
}

impl View for Payload {
    type V = PayloadView;

    open spec fn view(&self) -> PayloadView {
        match self {
            Payload::Absent => PayloadView::Absent,
            Payload::Invalid => PayloadView::Invalid,
            Payload::Bytes(b) => PayloadView::Bytes(b@),
        }
    }
}

/// What an operation on a device is asked to do.
#[derive(Debug)]
pub enum DeviceCommand {
    OpenDevice,
    CloseDevice,
    ResetDevice,
    SetConfiguration { value: u8 },
    ClaimInterface { value: u8 },
    ReleaseInterface { value: u8 },
    SetAltInterface { iface: u8, alt: u8 },
    ControlTransfer {
        dir: USBTransferDirection,
        request_type: u8,
        request: u8,
        value: u16,
        index: u16,
        len: u16,
        buf: Vec<u8>,
        timeout: u64,
    },
    DataTransfer { dir: USBTransferDirection, ep: u8, len: u32, buf: Vec<u8> },
    ClearHalt { ep: u8 },
    IsocTransfer {
        dir: USBTransferDirection,
        ep: u8,
        total_len: usize,
        pkt_len: Vec<u32>,
        buf: Vec<u8>,
    },
}

pub enum DeviceCommandView {
    OpenDevice,
    CloseDevice,
    ResetDevice,
    SetConfiguration { value: u8 },
    ClaimInterface { value: u8 },
    ReleaseInterface { value: u8 },
    SetAltInterface { iface: u8, alt: u8 },
    ControlTransfer {
        dir: USBTransferDirection,
        request_type: u8,
        request: u8,
        value: u16,
        index: u16,
        len: u16,
        buf: Seq<u8>,
        timeout: u64,
    },
    DataTransfer { dir: USBTransferDirection, ep: u8, len: u32, buf: Seq<u8> },
    ClearHalt { ep: u8 },
    IsocTransfer {
        dir: USBTransferDirection,
        ep: u8,
        total_len: usize,
        pkt_len: Seq<u32>,
        buf: Seq<u8>,
    },
}

impl View for DeviceCommand {
    type V = DeviceCommandView;

    open spec fn view(&self) -> DeviceCommandView {
        match self {
            DeviceCommand::OpenDevice => DeviceCommandView::OpenDevice,
            DeviceCommand::CloseDevice => DeviceCommandView::CloseDevice,
            DeviceCommand::ResetDevice => DeviceCommandView::ResetDevice,
            DeviceCommand::SetConfiguration { value } => DeviceCommandView::SetConfiguration {
                value: *value,
            },
            DeviceCommand::ClaimInterface { value } => DeviceCommandView::ClaimInterface {
                value: *value,
            },
            DeviceCommand::ReleaseInterface { value } => DeviceCommandView::ReleaseInterface {
                value: *value,
            },
            DeviceCommand::SetAltInterface { iface, alt } => DeviceCommandView::SetAltInterface {
                iface: *iface,
                alt: *alt,
            },
            DeviceCommand::ControlTransfer {
                dir,
                request_type,
                request,
                value,
                index,
                len,
                buf,
                timeout,
            } => DeviceCommandView::ControlTransfer {
                dir: *dir,
                request_type: *request_type,
                request: *request,
                value: *value,
                index: *index,
                len: *len,
                buf: buf@,
                timeout: *timeout,
            },
            DeviceCommand::DataTransfer { dir, ep, len, buf } => DeviceCommandView::DataTransfer {
                dir: *dir,
                ep: *ep,
                len: *len,
                buf: buf@,
            },
            DeviceCommand::ClearHalt { ep } => DeviceCommandView::ClearHalt { ep: *ep },
            DeviceCommand::IsocTransfer { dir, ep, total_len, pkt_len, buf } =>
                DeviceCommandView::IsocTransfer {
                dir: *dir,
                ep: *ep,
                total_len: *total_len,
                pkt_len: pkt_len@,
                buf: buf@,
            },
        }
    }
}

/// What to do with a request.
#[derive(Debug)]
pub enum RequestPlan {
    /// The request breaks the protocol; the helper stops.
    Malformed(MalformedReason),
    /// Answer with this error without touching any device.
    Reject(Errors),
    /// Run the command on the device with this session id.
    Run { sid: u64, command: DeviceCommand },
}

pub enum RequestPlanView {
    Malformed(MalformedReason),
    Reject(Errors),
    Run { sid: u64, command: DeviceCommandView },
}

impl View for RequestPlan {
    type V = RequestPlanView;

    open spec fn view(&self) -> RequestPlanView {
        match self {
            RequestPlan::Malformed(r) => RequestPlanView::Malformed(*r),
            RequestPlan::Reject(e) => RequestPlanView::Reject(*e),
            RequestPlan::Run { sid, command } => RequestPlanView::Run {
                sid: *sid,
                command: command@,
            },
        }
    }
}

/// The session id written in a request: a decimal `u64`.
pub open spec fn spec_parse_sid(sid: Seq<char>) -> Option<u64> {
    spec_parse_unsigned(vstd::utf8::encode_utf8(sid), 10, 0xffff_ffff_ffff_ffff)
}

/// Reads a session id as `str::parse::<u64>` does.
pub fn parse_sid(sid: &str) -> (r: Option<u64>)
    ensures
        r == spec_parse_sid(sid@),
{
    parse_unsigned(sid.as_bytes(), 10, 0xffff_ffff_ffff_ffff)
}

/// The decoded form of an optional base64 payload.
pub open spec fn spec_payload(data: Option<Seq<char>>) -> PayloadView {
    match data {
        None => PayloadView::Absent,
        Some(t) => match spec_b64_decode(t) {
            None => PayloadView::Invalid,
            Some(b) => PayloadView::Bytes(b),
        },
    }
}

pub open spec fn opt_string_view(s: Option<String>) -> Option<Seq<char>> {
    match s {
        Some(s) => Some(s@),
        None => None,
    }
}

/// Decodes an optional base64 payload.
pub fn decode_payload(data: &Option<String>) -> (r: Payload)
    ensures
        r@ == spec_payload(opt_string_view(*data)),
{
    match data {
        None => Payload::Absent,
        Some(t) => match b64_decode(t.as_str()) {
            None => Payload::Invalid,
            Some(b) => Payload::Bytes(b),
        },
    }
}

/// Runs `command` on the session named by `sid`, or gives up on a bad id.
pub open spec fn spec_run(sid: Seq<char>, command: DeviceCommandView) -> RequestPlanView {
    match spec_parse_sid(sid) {
        None => RequestPlanView::Malformed(MalformedReason::BadSessionId),
        Some(s) => RequestPlanView::Run { sid: s, command },
    }
}

/// Plan for a control transfer. The direction comes from the top bit of the
/// request type: device-to-host needs a length and no payload, host-to-device
/// a payload and no length. More than `0xffff` bytes is refused as too big.
pub open spec fn spec_plan_control(
    sid: Seq<char>,
    request_type: u8,
    request: u8,
    value: u16,
    index: u16,
    payload: PayloadView,
    length: Option<u16>,
    timeout: Option<u64>,
) -> RequestPlanView {
    let t = match timeout {
        Some(t) => t,
        None => 0,
    };
    if request_type & 0x80 != 0 {
        match (payload, length) {
            (PayloadView::Absent, Some(l)) => spec_run(
                sid,
                DeviceCommandView::ControlTransfer {
                    dir: USBTransferDirection::DeviceToHost,
                    request_type,
                    request,
                    value,
                    index,
                    len: l,
                    buf: seq![],
                    timeout: t,
                },
            ),
            _ => RequestPlanView::Malformed(MalformedReason::Inconsistent),
        }
    } else {
        match (payload, length) {
            (PayloadView::Bytes(b), None) => if b.len() > 0xffff {
                RequestPlanView::Reject(Errors::RequestTooBig)
            } else {
                spec_run(
                    sid,
                    DeviceCommandView::ControlTransfer {
                        dir: USBTransferDirection::HostToDevice,
                        request_type,
                        request,
                        value,
                        index,
                        len: b.len() as u16,
                        buf: b,
                        timeout: t,
                    },
                )
            },
            (PayloadView::Invalid, None) => RequestPlanView::Malformed(MalformedReason::BadPayload),
            _ => RequestPlanView::Malformed(MalformedReason::Inconsistent),
        }
    }
}

/// Plan for a control transfer whose payload is already decoded.
pub fn plan_control_transfer(
    sid: &str,
    request_type: u8,
    request: u8,
    value: u16,
    index: u16,
    payload: Payload,
    length: Option<u16>,
    timeout: Option<u64>,
) -> (r: RequestPlan)
    ensures
        r@ == spec_plan_control(sid@, request_type, request, value, index, payload@, length, timeout),
{
    let timeout = match timeout {
        Some(t) => t,
        None => 0,
    };
    let dir;
    let buf: Vec<u8>;
    let len: usize;
    if request_type & 0x80 != 0 {
        match (payload, length) {
            (Payload::Absent, Some(l)) => {
                dir = USBTransferDirection::DeviceToHost;
                len = l as usize;
                buf = Vec::with_capacity(len);
            },
            _ => return RequestPlan::Malformed(MalformedReason::Inconsistent),
        }
    } else {
        match (payload, length) {
            (Payload::Bytes(b), None) => {
                dir = USBTransferDirection::HostToDevice;
                len = b.len();
                buf = b;
            },
            (Payload::Invalid, None) => return RequestPlan::Malformed(MalformedReason::BadPayload),
            _ => return RequestPlan::Malformed(MalformedReason::Inconsistent),
        }
    }
    // Deal with data size limits
    if len > 0xffff {
        return RequestPlan::Reject(Errors::RequestTooBig);
    }
    match parse_sid(sid) {
        None => RequestPlan::Malformed(MalformedReason::BadSessionId),
        Some(s) => RequestPlan::Run {
            sid: s,
            command: DeviceCommand::ControlTransfer {
                dir,
                request_type,
                request,
                value,
                index,
                len: len as u16,
                buf,
                timeout,
            },
        },
    }
}

/// Plan for a bulk or interrupt transfer. The direction comes from the
/// endpoint address: IN needs a length and no payload, OUT a payload and no
/// length. More than `u32::MAX` bytes is refused as too big.
pub open spec fn spec_plan_data(sid: Seq<char>, ep: u8, payload: PayloadView, length: Option<
    u32,
>) -> RequestPlanView {
    if ep & 0x80 != 0 {
        match (payload, length) {
            (PayloadView::Absent, Some(l)) => spec_run(
                sid,
                DeviceCommandView::DataTransfer {
                    dir: USBTransferDirection::DeviceToHost,
                    ep,
                    len: l,
                    buf: seq![],
                },
            ),
            _ => RequestPlanView::Malformed(MalformedReason::Inconsistent),
        }
    } else {
        match (payload, length) {
            (PayloadView::Bytes(b), None) => if b.len() > 0xffff_ffff {
                RequestPlanView::Reject(Errors::RequestTooBig)
            } else {
                spec_run(
                    sid,
                    DeviceCommandView::DataTransfer {
                        dir: USBTransferDirection::HostToDevice,
                        ep,
                        len: b.len() as u32,
                        buf: b,
                    },
                )
            },
            (PayloadView::Invalid, None) => RequestPlanView::Malformed(MalformedReason::BadPayload),
            _ => RequestPlanView::Malformed(MalformedReason::Inconsistent),
        }
    }
}

/// Plan for a bulk or interrupt transfer whose payload is already decoded.
pub fn plan_data_transfer(sid: &str, ep: u8, payload: Payload, length: Option<u32>) -> (r:
    RequestPlan)
    ensures
        r@ == spec_plan_data(sid@, ep, payload@, length),
{
    let dir;
    let buf: Vec<u8>;
    let len: u64;
    if ep & 0x80 != 0 {
        match (payload, length) {
            (Payload::Absent, Some(l)) => {
                dir = USBTransferDirection::DeviceToHost;
                len = l as u64;
                buf = Vec::with_capacity(l as usize);
            },
            _ => return RequestPlan::Malformed(MalformedReason::Inconsistent),
        }
    } else {
        match (payload, length) {
            (Payload::Bytes(b), None) => {
                dir = USBTransferDirection::HostToDevice;
                len = b.len() as u64;
                buf = b;
            },
            (Payload::Invalid, None) => return RequestPlan::Malformed(MalformedReason::BadPayload),
            _ => return RequestPlan::Malformed(MalformedReason::Inconsistent),
        }
    }
    // Deal with data size limits
    if len > 0xffff_ffff {
        return RequestPlan::Reject(Errors::RequestTooBig);
    }
    match parse_sid(sid) {
        None => RequestPlan::Malformed(MalformedReason::BadSessionId),
        Some(s) => RequestPlan::Run {
            sid: s,
            command: DeviceCommand::DataTransfer { dir, ep, len: len as u32, buf },
        },
    }
}

/// Sum of the packet lengths.
pub open spec fn spec_sum(v: Seq<u32>) -> int
    decreases v.len(),
{
    if v.len() == 0 {
        0
    } else {
        spec_sum(v.drop_last()) + v.last()
    }
}

/// The buffer resized to `n` bytes: cut, or padded with zeros.
pub open spec fn spec_resize(b: Seq<u8>, n: int) -> Seq<u8> {
    Seq::new(n as nat, |i: int| if i < b.len() { b[i] } else { 0u8 })
}

/// Plan for an isochronous transfer. More than `u32::MAX` packets, a packet of
/// more than `0xffff` bytes, or a total that does not fit in `usize`, is
/// refused as too big. The direction comes from the endpoint address: IN
/// needs no payload, OUT needs one, which is cut or padded with zeros to the
/// total of the packet lengths.
pub open spec fn spec_plan_isoc(
    sid: Seq<char>,
    ep: u8,
    payload: PayloadView,
    pkt_len: Seq<u32>,
) -> RequestPlanView {
    if pkt_len.len() > 0xffff_ffff || (exists|i: int|
        0 <= i < pkt_len.len() && #[trigger] pkt_len[i] > 0xffff) || spec_sum(pkt_len)
        > usize::MAX {
        RequestPlanView::Reject(Errors::RequestTooBig)
    } else {
        let total = spec_sum(pkt_len);
        if ep & 0x80 != 0 {
            match payload {
                PayloadView::Absent => spec_run(
                    sid,
                    DeviceCommandView::IsocTransfer {
                        dir: USBTransferDirection::DeviceToHost,
                        ep,
                        total_len: total as usize,
                        pkt_len,
                        buf: seq![],
                    },
                ),
                _ => RequestPlanView::Malformed(MalformedReason::Inconsistent),
            }
        } else {
            match payload {
                PayloadView::Bytes(b) => spec_run(
                    sid,
                    DeviceCommandView::IsocTransfer {
                        dir: USBTransferDirection::HostToDevice,
                        ep,
                        total_len: total as usize,
                        pkt_len,
                        buf: spec_resize(b, total),
                    },
                ),
                PayloadView::Invalid => RequestPlanView::Malformed(MalformedReason::BadPayload),
                PayloadView::Absent => RequestPlanView::Malformed(MalformedReason::Inconsistent),
            }
        }
    }
}

proof fn lemma_sum_bounded(v: Seq<u32>)
    requires
        forall|i: int| 0 <= i < v.len() ==> #[trigger] v[i] <= 0xffff,
    ensures
        0 <= spec_sum(v) <= v.len() * 0xffff,
    decreases v.len(),
{
    if v.len() > 0 {
        lemma_sum_bounded(v.drop_last());
    }
}

fn resize_buffer(b: Vec<u8>, n: usize) -> (r: Vec<u8>)
    ensures
        r@ == spec_resize(b@, n as int),
{
    let mut out: Vec<u8> = Vec::with_capacity(n);
    let mut i: usize = 0;
    while i < n
        invariant
            i <= n,
            out@ == spec_resize(b@, n as int).subrange(0, i as int),
        decreases n - i,
    {
        if i < b.len() {
            out.push(b[i]);
        } else {
            out.push(0);
        }
        i = i + 1;
        proof {
            assert(out@ =~= spec_resize(b@, n as int).subrange(0, i as int));
        }
    }
    proof {
        assert(spec_resize(b@, n as int).subrange(0, n as int) =~= spec_resize(b@, n as int));
    }
    out
}

/// Plan for an isochronous transfer whose payload is already decoded.
pub fn plan_isoc_transfer(sid: &str, ep: u8, payload: Payload, pkt_len: Vec<u32>) -> (r:
    RequestPlan)
    ensures
        r@ == spec_plan_isoc(sid@, ep, payload@, pkt_len@),
{
    // Deal with data size limits
    let num_pkts = pkt_len.len();
    if num_pkts as u64 > 0xffff_ffff {
        return RequestPlan::Reject(Errors::RequestTooBig);
    }
    let mut total: u64 = 0;
    let mut i: usize = 0;
    while i < num_pkts
        invariant
            i <= num_pkts,
            num_pkts == pkt_len@.len(),
            num_pkts <= 0xffff_ffff,
            forall|j: int| 0 <= j < i ==> #[trigger] pkt_len@[j] <= 0xffff,
            total == spec_sum(pkt_len@.subrange(0, i as int)),
            total <= i * 0xffff,
        decreases num_pkts - i,
    {
        let l = pkt_len[i];
        if l > 0xffff {
            return RequestPlan::Reject(Errors::RequestTooBig);
        }
        proof {
            assert(pkt_len@.subrange(0, i + 1).drop_last() =~= pkt_len@.subrange(0, i as int));
        }
        total = total + l as u64;
        i = i + 1;
    }
    proof {
        assert(pkt_len@.subrange(0, i as int) =~= pkt_len@);
    }
    if total > usize::MAX as u64 {
        return RequestPlan::Reject(Errors::RequestTooBig);
    }
    let total_len = total as usize;
    // Deal with data
    let dir;
    let buf: Vec<u8>;
    if ep & 0x80 != 0 {
        match payload {
            Payload::Absent => {
                dir = USBTransferDirection::DeviceToHost;
                buf = Vec::with_capacity(total_len);
            },
            _ => return RequestPlan::Malformed(MalformedReason::Inconsistent),
        }
    } else {
        match payload {
            Payload::Bytes(b) => {
                dir = USBTransferDirection::HostToDevice;
                buf = resize_buffer(b, total_len);
            },
            Payload::Invalid => return RequestPlan::Malformed(MalformedReason::BadPayload),
            Payload::Absent => return RequestPlan::Malformed(MalformedReason::Inconsistent),
        }
    }
    match parse_sid(sid) {
        None => RequestPlan::Malformed(MalformedReason::BadSessionId),
        Some(s) => RequestPlan::Run {
            sid: s,
            command: DeviceCommand::IsocTransfer { dir, ep, total_len, pkt_len, buf },
        },
    }
}

/// What the helper does with a request from the extension.
pub open spec fn spec_plan_request(msg: RequestMessage) -> RequestPlanView {
    match msg {
        RequestMessage::OpenDevice { sid, .. } => spec_run(sid@, DeviceCommandView::OpenDevice),
        RequestMessage::CloseDevice { sid, .. } => spec_run(sid@, DeviceCommandView::CloseDevice),
        RequestMessage::ResetDevice { sid, .. } => spec_run(sid@, DeviceCommandView::ResetDevice),
        RequestMessage::SetConfiguration { sid, value, .. } => spec_run(
            sid@,
            DeviceCommandView::SetConfiguration { value },
        ),
        RequestMessage::ClaimInterface { sid, value, .. } => spec_run(
            sid@,
            DeviceCommandView::ClaimInterface { value },
        ),
        RequestMessage::ReleaseInterface { sid, value, .. } => spec_run(
            sid@,
            DeviceCommandView::ReleaseInterface { value },
        ),
        RequestMessage::SetAltInterface { sid, iface, alt, .. } => spec_run(
            sid@,
            DeviceCommandView::SetAltInterface { iface, alt },
        ),
        RequestMessage::ClearHalt { sid, ep, .. } => spec_run(sid@, DeviceCommandView::ClearHalt { ep }),
        RequestMessage::ControlTransfer {
            sid,
            request_type,
            request,
            value,
            index,
            data,
            length,
            _timeout_internal,
            ..
        } => spec_plan_control(
            sid@,
            request_type,
            request,
            value,
            index,
            spec_payload(opt_string_view(data)),
            length,
            _timeout_internal,
        ),
        RequestMessage::DataTransfer { sid, ep, data, length, .. } => spec_plan_data(
            sid@,
            ep,
            spec_payload(opt_string_view(data)),
            length,
        ),
        RequestMessage::IsocTransfer { sid, ep, data, pkt_len, .. } => spec_plan_isoc(
            sid@,
            ep,
            spec_payload(opt_string_view(data)),
            pkt_len@,
        ),
    }
}

fn run(sid: &str, command: DeviceCommand) -> (r: RequestPlan)
    ensures
        r@ == spec_run(sid@, command@),
{
    match parse_sid(sid) {
        None => RequestPlan::Malformed(MalformedReason::BadSessionId),
        Some(s) => RequestPlan::Run { sid: s, command },
    }
}

/// Decides what to do with a request from the extension: the command to run
/// on which device, an error to answer at once, or that the request is malformed.
pub fn plan_request(msg: RequestMessage) -> (r: RequestPlan)
    ensures
        r@ == spec_plan_request(msg),
{
    match msg {
        RequestMessage::OpenDevice { sid, .. } => run(sid.as_str(), DeviceCommand::OpenDevice),
        RequestMessage::CloseDevice { sid, .. } => run(sid.as_str(), DeviceCommand::CloseDevice),
        RequestMessage::ResetDevice { sid, .. } => run(sid.as_str(), DeviceCommand::ResetDevice),
        RequestMessage::SetConfiguration { sid, value, .. } => run(
            sid.as_str(),
            DeviceCommand::SetConfiguration { value },
        ),
        RequestMessage::ClaimInterface { sid, value, .. } => run(
            sid.as_str(),
            DeviceCommand::ClaimInterface { value },
        ),
        RequestMessage::ReleaseInterface { sid, value, .. } => run(
            sid.as_str(),
            DeviceCommand::ReleaseInterface { value },
        ),
        RequestMessage::SetAltInterface { sid, iface, alt, .. } => run(
            sid.as_str(),
            DeviceCommand::SetAltInterface { iface, alt },
        ),
        RequestMessage::ClearHalt { sid, ep, .. } => run(sid.as_str(), DeviceCommand::ClearHalt { ep }),
        RequestMessage::ControlTransfer {
            sid,
            request_type,
            request,
            value,
            index,
            data,
            length,
            _timeout_internal,
            ..
        } => {
            let payload = decode_payload(&data);
            plan_control_transfer(
                sid.as_str(),
                request_type,
                request,
                value,
                index,
                payload,
                length,
                _timeout_internal,
            )
        },
        RequestMessage::DataTransfer { sid, ep, data, length, .. } => {
            let payload = decode_payload(&data);
            plan_data_transfer(sid.as_str(), ep, payload, length)
        },
        RequestMessage::IsocTransfer { sid, ep, data, pkt_len, .. } => {
            let payload = decode_payload(&data);
            plan_isoc_transfer(sid.as_str(), ep, payload, pkt_len)
        },
    }
}

/// The session id that a plug notification announces (its decimal text) is
/// read back as the same id from every request that names it.
pub proof fn session_id_text_roundtrip(v: u64)
    ensures
        spec_parse_sid(spec_decimal(v as nat)) == Some(v),
{
    lemma_decimal_encoding(v as nat);
    lemma_decimal_bytes_value(v as nat);
    let b = spec_decimal_bytes(v as nat);
    assert(spec_unsigned_digits(b) == b);
}

/// A request that is run is run on the session it names: the plan's session
/// id is the one written in the request. Together with
/// [`session_id_text_roundtrip`], a request naming the id a plug notification
/// announced reaches that device.
pub proof fn requests_run_on_their_session(msg: RequestMessage)
    ensures
        spec_plan_request(msg) matches RequestPlanView::Run { sid, .. } ==> spec_parse_sid(
            msg.spec_sid(),
        ) == Some(sid),
{
}


/// The session id a plan runs on, or that it gives up on the id.
pub open spec fn runs_on_session(sid: Seq<char>, plan: RequestPlanView, command: DeviceCommandView) -> bool {
    match spec_parse_sid(sid) {
        Some(n) => plan == (RequestPlanView::Run { sid: n, command }),
        None => plan == RequestPlanView::Malformed(MalformedReason::BadSessionId),
    }
}

/// Every request is planned as the command of its own kind, with its own
/// fields, on the session it names: opening opens, releasing an interface
/// releases that interface, selecting an alternate setting selects that
/// setting of that interface, and so on. A request whose session id is not a
/// number is given up on.
pub proof fn requests_plan_their_own_command(msg: RequestMessage)
    ensures
        match msg {
            RequestMessage::OpenDevice { sid, .. } => runs_on_session(
                sid@,
                spec_plan_request(msg),
                DeviceCommandView::OpenDevice,
            ),
            RequestMessage::CloseDevice { sid, .. } => runs_on_session(
                sid@,
                spec_plan_request(msg),
                DeviceCommandView::CloseDevice,
            ),
            RequestMessage::ResetDevice { sid, .. } => runs_on_session(
                sid@,
                spec_plan_request(msg),
                DeviceCommandView::ResetDevice,
            ),
            RequestMessage::SetConfiguration { sid, value, .. } => runs_on_session(
                sid@,
                spec_plan_request(msg),
                DeviceCommandView::SetConfiguration { value },
            ),
            RequestMessage::ClaimInterface { sid, value, .. } => runs_on_session(
                sid@,
                spec_plan_request(msg),
                DeviceCommandView::ClaimInterface { value },
            ),
            RequestMessage::ReleaseInterface { sid, value, .. } => runs_on_session(
                sid@,
                spec_plan_request(msg),
                DeviceCommandView::ReleaseInterface { value },
            ),
            RequestMessage::SetAltInterface { sid, iface, alt, .. } => runs_on_session(
                sid@,
                spec_plan_request(msg),
                DeviceCommandView::SetAltInterface { iface, alt },
            ),
            RequestMessage::ClearHalt { sid, ep, .. } => runs_on_session(
                sid@,
                spec_plan_request(msg),
                DeviceCommandView::ClearHalt { ep },
            ),
            _ => true,
        },
{
}

/// A control transfer that is run is the request's own: the same request
/// type, request, value and index, the given timeout (0 when none), and the
/// direction that the top bit of the request type names. Reading from the
/// device takes the requested length into an empty buffer and carries no
/// payload; writing sends exactly the bytes the payload text encodes, as many
/// as there are, and carries no length. Such a well-formed request on a
/// numbered session is run; a payload over `0xffff` bytes is refused as too
/// big.
pub proof fn control_transfers_are_planned_as_asked(msg: RequestMessage)
    ensures
        msg matches RequestMessage::ControlTransfer {
            sid,
            request_type,
            request,
            value,
            index,
            data,
            length,
            _timeout_internal,
            ..
        } ==> {
            &&& (spec_plan_request(msg) matches RequestPlanView::Run { sid: n, command }
                ==> {
                &&& spec_parse_sid(sid@) == Some(n)
                &&& command matches DeviceCommandView::ControlTransfer {
                    dir,
                    request_type: rt,
                    request: rq,
                    value: v,
                    index: ix,
                    len,
                    buf,
                    timeout,
                } && {
                    &&& rt == request_type && rq == request && v == value && ix == index
                    &&& timeout == (if _timeout_internal is Some {
                        _timeout_internal.unwrap()
                    } else {
                        0u64
                    })
                    &&& (dir == USBTransferDirection::DeviceToHost <==> request_type & 0x80 != 0)
                    &&& (dir == USBTransferDirection::DeviceToHost ==> data is None && length
                        == Some(len) && buf.len() == 0)
                    &&& (dir == USBTransferDirection::HostToDevice ==> length is None && data is Some
                        && spec_b64_encode(buf) == data.unwrap()@ && len as int == buf.len())
                }
            })
            &&& (spec_parse_sid(sid@) is Some && request_type & 0x80 != 0 && data is None
                && length is Some ==> spec_plan_request(msg) is Run)
            &&& (request_type & 0x80 == 0 && length is None && data is Some && spec_b64_decode(
                data.unwrap()@,
            ) is Some ==> if spec_b64_decode(data.unwrap()@).unwrap().len() > 0xffff {
                spec_plan_request(msg) == RequestPlanView::Reject(Errors::RequestTooBig)
            } else {
                spec_parse_sid(sid@) is Some ==> spec_plan_request(msg) is Run
            })
        },
{
    if let RequestMessage::ControlTransfer { data, .. } = msg {
        if data is Some {
            let t = data.unwrap()@;
            if spec_b64_decode(t) is Some {
                assert(spec_b64_encode(spec_b64_decode(t).unwrap()) == t);
            }
        }
    }
}

/// A bulk or interrupt transfer that is run is the request's own: the same
/// endpoint, in the direction its top bit names. Reading takes the requested
/// length into an empty buffer and carries no payload; writing sends exactly
/// the bytes the payload text encodes, as many as there are. Such a
/// well-formed request on a numbered session is run; a payload over
/// `0xffff_ffff` bytes is refused as too big.
pub proof fn data_transfers_are_planned_as_asked(msg: RequestMessage)
    ensures
        msg matches RequestMessage::DataTransfer { sid, ep, data, length, .. } ==> {
            &&& (spec_plan_request(msg) matches RequestPlanView::Run { sid: n, command }
                ==> {
                &&& spec_parse_sid(sid@) == Some(n)
                &&& command matches DeviceCommandView::DataTransfer { dir, ep: e, len, buf } && {
                    &&& e == ep
                    &&& (dir == USBTransferDirection::DeviceToHost <==> ep & 0x80 != 0)
                    &&& (dir == USBTransferDirection::DeviceToHost ==> data is None && length
                        == Some(len) && buf.len() == 0)
                    &&& (dir == USBTransferDirection::HostToDevice ==> length is None && data is Some
                        && spec_b64_encode(buf) == data.unwrap()@ && len as int == buf.len())
                }
            })
            &&& (spec_parse_sid(sid@) is Some && ep & 0x80 != 0 && data is None && length is Some
                ==> spec_plan_request(msg) is Run)
            &&& (ep & 0x80 == 0 && length is None && data is Some && spec_b64_decode(
                data.unwrap()@,
            ) is Some ==> if spec_b64_decode(data.unwrap()@).unwrap().len() > 0xffff_ffff {
                spec_plan_request(msg) == RequestPlanView::Reject(Errors::RequestTooBig)
            } else {
                spec_parse_sid(sid@) is Some ==> spec_plan_request(msg) is Run
            })
        },
{
    if let RequestMessage::DataTransfer { data, .. } = msg {
        if data is Some {
            let t = data.unwrap()@;
            if spec_b64_decode(t) is Some {
                assert(spec_b64_encode(spec_b64_decode(t).unwrap()) == t);
            }
        }
    }
}

/// An isochronous transfer that is run is the request's own: the same
/// endpoint, in the direction its top bit names, the same packet lengths,
/// and a total that is their sum. Reading carries no payload and an empty
/// buffer; writing sends a buffer of exactly the total, which begins with the
/// bytes the payload text encodes (as many as fit) and is zero after them.
#[verifier::rlimit(40)]
pub proof fn isoc_transfers_are_planned_as_asked(msg: RequestMessage)
    ensures
        msg matches RequestMessage::IsocTransfer { sid, ep, data, pkt_len, .. } ==> (spec_plan_request(
            msg,
        ) matches RequestPlanView::Run { sid: n, command } ==> {
            &&& spec_parse_sid(sid@) == Some(n)
            &&& command matches DeviceCommandView::IsocTransfer {
                dir,
                ep: e,
                total_len,
                pkt_len: lens,
                buf,
            } && {
                &&& e == ep
                &&& lens == pkt_len@
                &&& total_len as int == spec_sum(pkt_len@)
                &&& (dir == USBTransferDirection::DeviceToHost <==> ep & 0x80 != 0)
                &&& (dir == USBTransferDirection::DeviceToHost ==> data is None && buf.len() == 0)
                &&& (dir == USBTransferDirection::HostToDevice ==> data is Some && {
                    let sent = spec_b64_decode(data.unwrap()@).unwrap();
                    &&& spec_b64_encode(sent) == data.unwrap()@
                    &&& buf.len() == total_len
                    &&& forall|i: int|
                        0 <= i < buf.len() ==> #[trigger] buf[i] == if i < sent.len() {
                            sent[i]
                        } else {
                            0u8
                        }
                })
            }
        }),
{
    if let RequestMessage::IsocTransfer { sid, ep, data, pkt_len, .. } = msg {
        let payload = spec_payload(opt_string_view(data));
        assert(spec_plan_request(msg) == spec_plan_isoc(sid@, ep, payload, pkt_len@));
        let lens = pkt_len@;
        if !(exists|i: int| 0 <= i < lens.len() && #[trigger] lens[i] > 0xffff) {
            assert(forall|i: int| 0 <= i < lens.len() ==> #[trigger] lens[i] <= 0xffff);
            lemma_sum_bounded(lens);
        }
        if data is Some {
            let t = data.unwrap()@;
            if spec_b64_decode(t) is Some {
                assert(spec_b64_encode(spec_b64_decode(t).unwrap()) == t);
            }
        }
    }
}

} // verus!
