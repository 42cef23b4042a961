//! The message sent to the extension when a transfer finishes, worked out
//! from what each operating system reports.
use vstd::prelude::*;

use crate::b64::{b64_encode, b64_roundtrip, spec_b64_decode, spec_b64_encode};
use crate::device::{
    DeviceOpResult, USBTransferDirection, K_IO_RETURN_OVERRUN, K_IO_USB_PIPE_STALLED,
};
use crate::protocol::{Errors, IsocPacketState, RequestMessage, ResponseMessage, ResponseMessageView};
use crate::request::{spec_plan_request, RequestPlanView};

verus! {

/// `EPIPE` on Linux: the endpoint stalled.
pub const LINUX_EPIPE: i32 = 32;
/// `EOVERFLOW` on Linux: the device sent more data than asked for.
pub const LINUX_EOVERFLOW: i32 = 75;

/// `-EOVERFLOW` as the kernel stores it in the unsigned status of an
/// isochronous packet.
pub const LINUX_EOVERFLOW_PACKET: u32 = 0xffff_ffb5;
/// `ERROR_GEN_FAILURE` on Windows, which is how WinUSB reports a stall.
pub const WIN_ERROR_GEN_FAILURE: u32 = 31;

/// What is sent back at once for a handled request: an empty completion when
/// the request is already finished, nothing when its completion comes later,
/// and the error otherwise.
pub open spec fn spec_immediate_reply(
    txn_id: Seq<char>,
    result: Result<DeviceOpResult, Errors>,
) -> Option<ResponseMessageView> {
    match result {
        Ok(DeviceOpResult::SendCompletionNow) => Some(
            ResponseMessageView::RequestComplete {
                txn_id,
                babble: false,
                data: None,
                bytes_written: 0,
            },
        ),
        Ok(DeviceOpResult::ManualCompletion) => None,
        Err(error) => Some(ResponseMessageView::RequestError { txn_id, error, bytes_written: 0 }),
    }
}

/// The reply owed at once to the request `txn_id`, given how it was handled.
pub fn immediate_reply(txn_id: String, result: Result<DeviceOpResult, Errors>) -> (r: Option<
    ResponseMessage,
>)
    ensures
        match r {
            Some(m) => spec_immediate_reply(txn_id@, result) == Some(m@),
            None => spec_immediate_reply(txn_id@, result) is None,
        },
{
    match result {
        Ok(DeviceOpResult::SendCompletionNow) => Some(
            ResponseMessage::RequestComplete { txn_id, babble: false, data: None, bytes_written: 0 },
        ),
        Ok(DeviceOpResult::ManualCompletion) => None,
        Err(error) => Some(ResponseMessage::RequestError { txn_id, error, bytes_written: 0 }),
    }
}

/// The encoded payload of a device-to-host transfer; nothing otherwise.
pub open spec fn spec_in_data(dir: USBTransferDirection, data: Seq<u8>) -> Option<Seq<char>> {
    if dir == USBTransferDirection::DeviceToHost {
        Some(spec_b64_encode(data))
    } else {
        None
    }
}

fn in_data(dir: USBTransferDirection, data: &[u8]) -> (r: Option<String>)
    requires
        data@.len() <= usize::MAX / 2,
    ensures
        crate::protocol::opt_text(r) == spec_in_data(dir, data@),
{
    if dir == USBTransferDirection::DeviceToHost {
        Some(b64_encode(data))
    } else {
        None
    }
}

/// Linux: a control URB's buffer starts with the 8-byte setup packet, which
/// is not part of the data returned.
pub open spec fn spec_linux_completion(
    txn_id: Seq<char>,
    status: i32,
    actual_length: i32,
    dir: USBTransferDirection,
    is_control: bool,
    buf: Seq<u8>,
) -> ResponseMessageView {
    if status == -LINUX_EPIPE {
        ResponseMessageView::RequestError {
            txn_id,
            error: Errors::Stall,
            bytes_written: actual_length as u64,
        }
    } else if status == 0 || status == -LINUX_EOVERFLOW {
        ResponseMessageView::RequestComplete {
            txn_id,
            babble: status == -LINUX_EOVERFLOW,
            data: spec_in_data(
                dir,
                if is_control {
                    buf.subrange(8, buf.len() as int)
                } else {
                    buf
                },
            ),
            bytes_written: actual_length as u64,
        }
    } else {
        ResponseMessageView::RequestError {
            txn_id,
            error: Errors::TransferError,
            bytes_written: actual_length as u64,
        }
    }
}

/// The message for a finished Linux URB: a stall, a completion (with
/// babble when the device overran), or a transfer error.
pub fn linux_completion_response(
    txn_id: String,
    status: i32,
    actual_length: i32,
    dir: USBTransferDirection,
    is_control: bool,
    buf: &[u8],
) -> (r: ResponseMessage)
    requires
        buf@.len() <= usize::MAX / 2,
        is_control && dir == USBTransferDirection::DeviceToHost && (status == 0 || status
            == -LINUX_EOVERFLOW) ==> buf@.len() >= 8,
    ensures
        r@ == spec_linux_completion(txn_id@, status, actual_length, dir, is_control, buf@),
{
    if status == -LINUX_EPIPE {
        ResponseMessage::RequestError {
            txn_id,
            error: Errors::Stall,
            bytes_written: actual_length as u64,
        }
    } else if status == 0 || status == -LINUX_EOVERFLOW {
        let babble = status == -LINUX_EOVERFLOW;
        let data = if dir == USBTransferDirection::DeviceToHost {
            if is_control {
                Some(b64_encode(buf.split_at(8).1))
            } else {
                Some(b64_encode(buf))
            }
        } else {
            None
        };
        ResponseMessage::RequestComplete { txn_id, babble, data, bytes_written: actual_length as u64 }
    } else {
        ResponseMessage::RequestError {
            txn_id,
            error: Errors::TransferError,
            bytes_written: actual_length as u64,
        }
    }
}

/// What the kernel reports for one isochronous packet.
#[derive(Clone, Copy, PartialEq, Eq, Structural, Debug)]
pub struct IsoPacketResult {
    pub status: u32,
    pub actual_length: u32,
}

/// Linux: a packet is fine, babbled (`-EOVERFLOW`), or failed.
pub open spec fn spec_linux_packet_state(status: u32) -> IsocPacketState {
    if status == 0 {
        IsocPacketState::Success
    } else if status == LINUX_EOVERFLOW_PACKET {
        IsocPacketState::Babble
    } else {
        IsocPacketState::Error
    }
}

/// Linux: an isochronous URB fails as a whole when a packet failed or the URB
/// status is neither success nor overflow; otherwise every packet's state and
/// length is reported.
pub open spec fn spec_linux_iso_completion(
    txn_id: Seq<char>,
    urb_status: i32,
    urb_actual_length: i32,
    packets: Seq<IsoPacketResult>,
    dir: USBTransferDirection,
    buf: Seq<u8>,
) -> ResponseMessageView {
    let states = packets.map_values(|p: IsoPacketResult| spec_linux_packet_state(p.status));
    if (exists|i: int| 0 <= i < packets.len() && #[trigger] states[i] == IsocPacketState::Error)
        || (urb_status != 0 && urb_status != -LINUX_EOVERFLOW) {
        ResponseMessageView::RequestError {
            txn_id,
            error: Errors::TransferError,
            bytes_written: urb_actual_length as u64,
        }
    } else {
        ResponseMessageView::IsocRequestComplete {
            txn_id,
            data: spec_in_data(dir, buf),
            pkt_status: states,
            pkt_len: packets.map_values(|p: IsoPacketResult| p.actual_length),
        }
    }
}

/// The message for a finished Linux isochronous URB.
pub fn linux_iso_completion_response(
    txn_id: String,
    urb_status: i32,
    urb_actual_length: i32,
    packets: &[IsoPacketResult],
    dir: USBTransferDirection,
    buf: &[u8],
) -> (r: ResponseMessage)
    requires
        buf@.len() <= usize::MAX / 2,
    ensures
        r@ == spec_linux_iso_completion(
            txn_id@,
            urb_status,
            urb_actual_length,
            packets@,
            dir,
            buf@,
        ),
{
    let ghost states = packets@.map_values(|p: IsoPacketResult| spec_linux_packet_state(p.status));
    let mut had_unwanted_error = false;
    let num_pkts = packets.len();
    let mut pkt_status: Vec<IsocPacketState> = Vec::with_capacity(num_pkts);
    let mut pkt_lens: Vec<u32> = Vec::with_capacity(num_pkts);
    let mut i: usize = 0;
    while i < num_pkts
        invariant
            i <= num_pkts,
            num_pkts == packets@.len(),
            states == packets@.map_values(|p: IsoPacketResult| spec_linux_packet_state(p.status)),
            pkt_status@ == states.subrange(0, i as int),
            pkt_lens@ == packets@.map_values(|p: IsoPacketResult| p.actual_length).subrange(
                0,
                i as int,
            ),
            had_unwanted_error <==> exists|j: int|
                0 <= j < i && #[trigger] states[j] == IsocPacketState::Error,
        decreases num_pkts - i,
    {
        let p = packets[i];
        let st = if p.status == 0 {
            IsocPacketState::Success
        } else if p.status == LINUX_EOVERFLOW_PACKET {
            IsocPacketState::Babble
        } else {
            had_unwanted_error = true;
            IsocPacketState::Error
        };
        pkt_status.push(st);
        pkt_lens.push(p.actual_length);
        proof {
            assert(states[i as int] == st);
            assert(pkt_status@ =~= states.subrange(0, i + 1));
            assert(pkt_lens@ =~= packets@.map_values(|p: IsoPacketResult| p.actual_length).subrange(
                0,
                i + 1,
            ));
            if st == IsocPacketState::Error {
                assert(states[i as int] == IsocPacketState::Error);
            }
        }
        i = i + 1;
    }
    proof {
        assert(pkt_status@ =~= states);
        assert(pkt_lens@ =~= packets@.map_values(|p: IsoPacketResult| p.actual_length));
    }
    let data = in_data(dir, buf);
    if had_unwanted_error || (urb_status != 0 && urb_status != -LINUX_EOVERFLOW) {
        // An error, of a type we don't "tolerate"
        ResponseMessage::RequestError {
            txn_id,
            error: Errors::TransferError,
            bytes_written: urb_actual_length as u64,
        }
    } else {
        ResponseMessage::IsocRequestComplete { txn_id, data, pkt_status, pkt_len: pkt_lens }
    }
}

/// macOS: the result code of a finished transfer decides between a stall, a
/// completion (babble on overrun) and a transfer error; `data` holds the bytes received.
pub open spec fn spec_macos_completion(
    txn_id: Seq<char>,
    result: i32,
    actual_len: u64,
    dir: USBTransferDirection,
    data: Seq<u8>,
) -> ResponseMessageView {
    if result == K_IO_USB_PIPE_STALLED {
        ResponseMessageView::RequestError { txn_id, error: Errors::Stall, bytes_written: actual_len }
    } else if result == 0 || result == K_IO_RETURN_OVERRUN {
        ResponseMessageView::RequestComplete {
            txn_id,
            babble: result == K_IO_RETURN_OVERRUN,
            data: spec_in_data(dir, data),
            bytes_written: actual_len,
        }
    } else {
        ResponseMessageView::RequestError {
            txn_id,
            error: Errors::TransferError,
            bytes_written: actual_len,
        }
    }
}

/// The message for a finished macOS transfer.
pub fn macos_completion_response(
    txn_id: String,
    result: i32,
    actual_len: u64,
    dir: USBTransferDirection,
    data: &[u8],
) -> (r: ResponseMessage)
    requires
        data@.len() <= usize::MAX / 2,
    ensures
        r@ == spec_macos_completion(txn_id@, result, actual_len, dir, data@),
{
    if result == K_IO_USB_PIPE_STALLED {
        ResponseMessage::RequestError { txn_id, error: Errors::Stall, bytes_written: actual_len }
    } else if result == 0 || result == K_IO_RETURN_OVERRUN {
        let babble = result == K_IO_RETURN_OVERRUN;
        let data = in_data(dir, data);
        ResponseMessage::RequestComplete { txn_id, babble, data, bytes_written: actual_len }
    } else {
        ResponseMessage::RequestError {
            txn_id,
            error: Errors::TransferError,
            bytes_written: actual_len,
        }
    }
}

/// What macOS reports for one isochronous frame.
#[derive(Clone, Copy, PartialEq, Eq, Structural, Debug)]
pub struct IsocFrameResult {
    pub status: i32,
    pub act_count: u16,
}

/// macOS: a frame is fine, babbled (overrun), or failed.
pub open spec fn spec_macos_frame_state(status: i32) -> IsocPacketState {
    if status == 0 {
        IsocPacketState::Success
    } else if status == K_IO_RETURN_OVERRUN {
        IsocPacketState::Babble
    } else {
        IsocPacketState::Error
    }
}

/// Total number of bytes the frames received.
pub open spec fn spec_frames_total(frames: Seq<IsocFrameResult>) -> int
    decreases frames.len(),
{
    if frames.len() == 0 {
        0
    } else {
        spec_frames_total(frames.drop_last()) + frames.last().act_count
    }
}

/// macOS: an isochronous transfer fails as a whole when a frame failed or the
/// result is neither success nor overrun; the data received are the first
/// bytes of the buffer, as many as all frames together received.
pub open spec fn spec_macos_isoc_completion(
    txn_id: Seq<char>,
    result: i32,
    frames: Seq<IsocFrameResult>,
    dir: USBTransferDirection,
    buf: Seq<u8>,
) -> ResponseMessageView {
    let states = frames.map_values(|f: IsocFrameResult| spec_macos_frame_state(f.status));
    let total = spec_frames_total(frames);
    if (exists|i: int| 0 <= i < frames.len() && #[trigger] states[i] == IsocPacketState::Error)
        || (result != 0 && result != K_IO_RETURN_OVERRUN) {
        ResponseMessageView::RequestError {
            txn_id,
            error: Errors::TransferError,
            bytes_written: total as u64,
        }
    } else {
        ResponseMessageView::IsocRequestComplete {
            txn_id,
            data: spec_in_data(dir, buf.subrange(0, total)),
            pkt_status: states,
            pkt_len: frames.map_values(|f: IsocFrameResult| f.act_count as u32),
        }
    }
}

/// The message for a finished macOS isochronous transfer.
pub fn macos_isoc_completion_response(
    txn_id: String,
    result: i32,
    frames: &[IsocFrameResult],
    dir: USBTransferDirection,
    buf: &[u8],
) -> (r: ResponseMessage)
    requires
        buf@.len() <= usize::MAX / 2,
        dir == USBTransferDirection::DeviceToHost ==> spec_frames_total(frames@) <= buf@.len(),
        frames@.len() * 0xffff <= usize::MAX,
    ensures
        r@ == spec_macos_isoc_completion(txn_id@, result, frames@, dir, buf@),
{
    let ghost states = frames@.map_values(|f: IsocFrameResult| spec_macos_frame_state(f.status));
    let mut had_unwanted_error = false;
    let num = frames.len();
    let mut pkt_status: Vec<IsocPacketState> = Vec::with_capacity(num);
    let mut pkt_lens: Vec<u32> = Vec::with_capacity(num);
    let mut total_len: usize = 0;
    let mut i: usize = 0;
    while i < num
        invariant
            i <= num,
            num == frames@.len(),
            num * 0xffff <= usize::MAX,
            states == frames@.map_values(|f: IsocFrameResult| spec_macos_frame_state(f.status)),
            pkt_status@ == states.subrange(0, i as int),
            pkt_lens@ == frames@.map_values(|f: IsocFrameResult| f.act_count as u32).subrange(
                0,
                i as int,
            ),
            total_len == spec_frames_total(frames@.subrange(0, i as int)),
            total_len <= i * 0xffff,
            had_unwanted_error <==> exists|j: int|
                0 <= j < i && #[trigger] states[j] == IsocPacketState::Error,
        decreases num - i,
    {
        let f = frames[i];
        let st = if f.status == 0 {
            IsocPacketState::Success
        } else if f.status == K_IO_RETURN_OVERRUN {
            IsocPacketState::Babble
        } else {
            had_unwanted_error = true;
            IsocPacketState::Error
        };
        pkt_status.push(st);
        pkt_lens.push(f.act_count as u32);
        proof {
            assert(frames@.subrange(0, i + 1).drop_last() =~= frames@.subrange(0, i as int));
            assert(states[i as int] == st);
            assert(pkt_status@ =~= states.subrange(0, i + 1));
            assert(pkt_lens@ =~= frames@.map_values(|f: IsocFrameResult| f.act_count as u32).subrange(
                0,
                i + 1,
            ));
            assert((i + 1) * 0xffff == i * 0xffff + 0xffff);
        }
        total_len = total_len + f.act_count as usize;
        i = i + 1;
    }
    proof {
        assert(pkt_status@ =~= states);
        assert(pkt_lens@ =~= frames@.map_values(|f: IsocFrameResult| f.act_count as u32));
        assert(frames@.subrange(0, i as int) =~= frames@);
    }
    let data = if dir == USBTransferDirection::DeviceToHost {
        Some(b64_encode(buf.split_at(total_len).0))
    } else {
        None
    };
    if had_unwanted_error || (result != 0 && result != K_IO_RETURN_OVERRUN) {
        // An error, of a type we don't "tolerate"
        ResponseMessage::RequestError {
            txn_id,
            error: Errors::TransferError,
            bytes_written: total_len as u64,
        }
    } else {
        ResponseMessage::IsocRequestComplete { txn_id, data, pkt_status, pkt_len: pkt_lens }
    }
}

/// What WinUSB reports for one received isochronous packet: where it lies in
/// the buffer, its length and status.
#[derive(Clone, Copy, PartialEq, Eq, Structural, Debug)]
pub struct IsoRxPacket {
    pub offset: u32,
    pub length: u32,
    pub status: i32,
}

/// The received packets' bytes, one after the other.
pub open spec fn spec_gather(buf: Seq<u8>, packets: Seq<IsoRxPacket>) -> Seq<u8>
    decreases packets.len(),
{
    if packets.len() == 0 {
        seq![]
    } else {
        let p = packets.last();
        spec_gather(buf, packets.drop_last()) + buf.subrange(
            p.offset as int,
            p.offset + p.length,
        )
    }
}

/// Every packet lies inside the buffer.
pub open spec fn spec_packets_in_buffer(buf: Seq<u8>, packets: Seq<IsoRxPacket>) -> bool {
    forall|i: int| 0 <= i < packets.len() ==> #[trigger] packets[i].offset + packets[i].length <= buf.len()
}

/// Windows: a stall is reported as a general failure; a non-isochronous
/// transfer completes without babble detection; an isochronous one reports
/// the requested lengths when sending, and the received packets (failing as a
/// whole if one failed) when receiving.
pub open spec fn spec_windows_completion(
    txn_id: Seq<char>,
    status: u32,
    nbytes: u32,
    dir: USBTransferDirection,
    is_isoc: bool,
    requested_pkt_len: Seq<u32>,
    rx_packets: Seq<IsoRxPacket>,
    buf: Seq<u8>,
) -> ResponseMessageView {
    if status == WIN_ERROR_GEN_FAILURE {
        ResponseMessageView::RequestError { txn_id, error: Errors::Stall, bytes_written: nbytes as u64 }
    } else if status == 0 {
        if !is_isoc {
            ResponseMessageView::RequestComplete {
                txn_id,
                babble: false,
                data: spec_in_data(dir, buf),
                bytes_written: nbytes as u64,
            }
        } else if dir == USBTransferDirection::HostToDevice {
            ResponseMessageView::IsocRequestComplete {
                txn_id,
                data: None,
                pkt_status: Seq::new(requested_pkt_len.len(), |i: int| IsocPacketState::Success),
                pkt_len: requested_pkt_len,
            }
        } else if exists|i: int| 0 <= i < rx_packets.len() && #[trigger] rx_packets[i].status != 0 {
            ResponseMessageView::RequestError {
                txn_id,
                error: Errors::TransferError,
                bytes_written: nbytes as u64,
            }
        } else {
            ResponseMessageView::IsocRequestComplete {
                txn_id,
                data: Some(spec_b64_encode(spec_gather(buf, rx_packets))),
                pkt_status: Seq::new(rx_packets.len(), |i: int| IsocPacketState::Success),
                pkt_len: rx_packets.map_values(|p: IsoRxPacket| p.length),
            }
        }
    } else {
        ResponseMessageView::RequestError {
            txn_id,
            error: Errors::TransferError,
            bytes_written: nbytes as u64,
        }
    }
}

/// The number of bytes all received packets hold together.
pub open spec fn spec_rx_total(packets: Seq<IsoRxPacket>) -> int
    decreases packets.len(),
{
    if packets.len() == 0 {
        0
    } else {
        spec_rx_total(packets.drop_last()) + packets.last().length
    }
}

proof fn lemma_gather_len(buf: Seq<u8>, packets: Seq<IsoRxPacket>)
    requires
        spec_packets_in_buffer(buf, packets),
    ensures
        spec_gather(buf, packets).len() == spec_rx_total(packets),
    decreases packets.len(),
{
    if packets.len() > 0 {
        let p = packets.drop_last();
        assert(spec_packets_in_buffer(buf, p)) by {
            assert forall|i: int| 0 <= i < p.len() implies #[trigger] p[i].offset + p[i].length
                <= buf.len() by {
                assert(p[i] == packets[i]);
            }
        }
        lemma_gather_len(buf, p);
        assert(packets[packets.len() - 1].offset + packets[packets.len() - 1].length <= buf.len());
    }
}

/// The message for a finished WinUSB transfer.
pub fn windows_completion_response(
    txn_id: String,
    status: u32,
    nbytes: u32,
    dir: USBTransferDirection,
    is_isoc: bool,
    requested_pkt_len: Vec<u32>,
    rx_packets: &[IsoRxPacket],
    buf: &[u8],
) -> (r: ResponseMessage)
    requires
        buf@.len() <= usize::MAX / 2,
        spec_packets_in_buffer(buf@, rx_packets@),
        spec_rx_total(rx_packets@) <= usize::MAX / 2,
    ensures
        r@ == spec_windows_completion(
            txn_id@,
            status,
            nbytes,
            dir,
            is_isoc,
            requested_pkt_len@,
            rx_packets@,
            buf@,
        ),
{
    if status == WIN_ERROR_GEN_FAILURE {
        // This is a stall, apparently
        return ResponseMessage::RequestError {
            txn_id,
            error: Errors::Stall,
            bytes_written: nbytes as u64,
        };
    }
    if status != 0 {
        return ResponseMessage::RequestError {
            txn_id,
            error: Errors::TransferError,
            bytes_written: nbytes as u64,
        };
    }
    if !is_isoc {
        let data = in_data(dir, buf);
        return ResponseMessage::RequestComplete {
            txn_id,
            babble: false,
            data,
            bytes_written: nbytes as u64,
        };
    }
    match dir {
        USBTransferDirection::HostToDevice => {
            // The requester is told the packet lengths it asked for, since
            // nothing else is known.
            let n = requested_pkt_len.len();
            let mut pkt_status: Vec<IsocPacketState> = Vec::with_capacity(n);
            let mut k: usize = 0;
            while k < n
                invariant
                    k <= n,
                    pkt_status@ =~= Seq::new(k as nat, |i: int| IsocPacketState::Success),
                decreases n - k,
            {
                pkt_status.push(IsocPacketState::Success);
                k = k + 1;
            }
            ResponseMessage::IsocRequestComplete {
                txn_id,
                data: None,
                pkt_status,
                pkt_len: requested_pkt_len,
            }
        },
        USBTransferDirection::DeviceToHost => {
            let num_pkts = rx_packets.len();
            let mut had_unwanted_error = false;
            let mut pkt_status: Vec<IsocPacketState> = Vec::with_capacity(num_pkts);
            let mut pkt_lens: Vec<u32> = Vec::with_capacity(num_pkts);
            let mut data_buf: Vec<u8> = Vec::new();
            let mut i: usize = 0;
            while i < num_pkts
                invariant
                    i <= num_pkts,
                    num_pkts == rx_packets@.len(),
                    spec_packets_in_buffer(buf@, rx_packets@),
                    buf@.len() <= usize::MAX / 2,
                    spec_rx_total(rx_packets@) <= usize::MAX / 2,
                    data_buf@ == spec_gather(buf@, rx_packets@.subrange(0, i as int)),
                    pkt_lens@ == rx_packets@.map_values(|p: IsoRxPacket| p.length).subrange(
                        0,
                        i as int,
                    ),
                    pkt_status@.len() == i,
                    !had_unwanted_error ==> pkt_status@ =~= Seq::new(
                        i as nat,
                        |j: int| IsocPacketState::Success,
                    ),
                    had_unwanted_error <==> exists|j: int|
                        0 <= j < i && #[trigger] rx_packets@[j].status != 0,
                decreases num_pkts - i,
            {
                let p = rx_packets[i];
                if p.status == 0 {
                    pkt_status.push(IsocPacketState::Success);
                } else {
                    had_unwanted_error = true;
                    pkt_status.push(IsocPacketState::Error);
                }
                pkt_lens.push(p.length);
                // Windows apparently doesn't require isoc rx packets to be contiguous
                assert(rx_packets@[i as int].offset + rx_packets@[i as int].length <= buf@.len());
                let start = p.offset as usize;
                let end = start + p.length as usize;
                let ghost before = data_buf@;
                let mut j = start;
                while j < end
                    invariant
                        start <= j <= end,
                        end <= buf@.len(),
                        data_buf@ == before + buf@.subrange(start as int, j as int),
                    decreases end - j,
                {
                    data_buf.push(buf[j]);
                    j = j + 1;
                    proof {
                        assert(data_buf@ =~= before + buf@.subrange(start as int, j as int));
                    }
                }
                proof {
                    let s = rx_packets@.subrange(0, i + 1);
                    assert(s.drop_last() =~= rx_packets@.subrange(0, i as int));
                    assert(s.last() == p);
                    assert(pkt_lens@ =~= rx_packets@.map_values(|p: IsoRxPacket| p.length).subrange(
                        0,
                        i + 1,
                    ));
                    if p.status != 0 {
                        assert(rx_packets@[i as int].status != 0);
                    }
                }
                i = i + 1;
            }
            proof {
                assert(rx_packets@.subrange(0, i as int) =~= rx_packets@);
                assert(pkt_lens@ =~= rx_packets@.map_values(|p: IsoRxPacket| p.length));
                lemma_gather_len(buf@, rx_packets@);
            }
            if had_unwanted_error {
                ResponseMessage::RequestError {
                    txn_id,
                    error: Errors::TransferError,
                    bytes_written: nbytes as u64,
                }
            } else {
                let data = Some(b64_encode(data_buf.as_slice()));
                ResponseMessage::IsocRequestComplete { txn_id, data, pkt_status, pkt_len: pkt_lens }
            }
        },
    }
}

/// A request that is refused, whether by planning or later by its device, is
/// answered at once with that error under its own transaction id, with
/// nothing written.
pub proof fn refused_requests_are_answered(msg: RequestMessage, e: Errors)
    requires
        spec_plan_request(msg) == RequestPlanView::Reject(e),
    ensures
        spec_immediate_reply(msg.spec_txn_id(), Err(e)) == Some(
            ResponseMessageView::RequestError { txn_id: msg.spec_txn_id(), error: e, bytes_written: 0 },
        ),
{
}


/// The data a reply carries: for a read, text that decodes to exactly the
/// bytes received; for a write, none.
pub open spec fn carries_received(data: Option<Seq<char>>, dir: USBTransferDirection, received: Seq<u8>) -> bool {
    &&& (data is Some <==> dir == USBTransferDirection::DeviceToHost)
    &&& (data is Some ==> spec_b64_decode(data.unwrap()) == Some(received))
}

/// A finished macOS transfer is answered under its own transaction id with
/// the number of bytes IOKit reports. It completes exactly when IOKit reports
/// success or an overrun, and it is reported as babble exactly on an overrun;
/// a completed read carries the bytes received. A stall is reported as a
/// stall, any other failure as a transfer error.
pub proof fn macos_completions_follow_the_os_result(
    txn_id: Seq<char>,
    result: i32,
    actual_len: u64,
    dir: USBTransferDirection,
    data: Seq<u8>,
)
    ensures
        ({
            let r = spec_macos_completion(txn_id, result, actual_len, dir, data);
            &&& (r is RequestComplete <==> (result == 0 || result == K_IO_RETURN_OVERRUN))
            &&& (r is RequestComplete || r is RequestError)
            &&& (r matches ResponseMessageView::RequestComplete { txn_id: t, babble, data: d, bytes_written }
                ==> {
                &&& t == txn_id
                &&& bytes_written == actual_len
                &&& babble == (result == K_IO_RETURN_OVERRUN)
                &&& carries_received(d, dir, data)
            })
            &&& (r matches ResponseMessageView::RequestError { txn_id: t, error, bytes_written }
                ==> {
                &&& t == txn_id
                &&& bytes_written == actual_len
                &&& (error == Errors::Stall <==> result == K_IO_USB_PIPE_STALLED)
                &&& (error == Errors::Stall || error == Errors::TransferError)
            })
        }),
{
    b64_roundtrip(data);
}

/// A finished Linux transfer is answered under its own transaction id with
/// the length the kernel reports. It completes exactly on success or an
/// overflow, and it is reported as babble exactly on an overflow; a completed
/// read carries the bytes received (for a control transfer, those after its
/// eight-byte setup packet). A broken pipe is reported as a stall, any other
/// failure as a transfer error.
pub proof fn linux_completions_follow_the_urb_status(
    txn_id: Seq<char>,
    status: i32,
    actual_length: i32,
    dir: USBTransferDirection,
    is_control: bool,
    buf: Seq<u8>,
)
    ensures
        ({
            let r = spec_linux_completion(txn_id, status, actual_length, dir, is_control, buf);
            let received = if is_control {
                buf.subrange(8, buf.len() as int)
            } else {
                buf
            };
            &&& (r is RequestComplete <==> (status == 0 || status == -LINUX_EOVERFLOW))
            &&& (r is RequestComplete || r is RequestError)
            &&& (r matches ResponseMessageView::RequestComplete { txn_id: t, babble, data: d, bytes_written }
                ==> {
                &&& t == txn_id
                &&& bytes_written == actual_length as u64
                &&& babble == (status == -LINUX_EOVERFLOW)
                &&& carries_received(d, dir, received)
            })
            &&& (r matches ResponseMessageView::RequestError { txn_id: t, error, bytes_written }
                ==> {
                &&& t == txn_id
                &&& bytes_written == actual_length as u64
                &&& (error == Errors::Stall <==> status == -LINUX_EPIPE)
                &&& (error == Errors::Stall || error == Errors::TransferError)
            })
        }),
{
    let received = if is_control {
        buf.subrange(8, buf.len() as int)
    } else {
        buf
    };
    b64_roundtrip(received);
}

/// A finished Linux isochronous transfer fails as a whole exactly when a
/// packet failed (neither success nor overflow) or the URB did; otherwise
/// each packet is reported as fine or babbled (on overflow), with its own
/// length, and a read carries the buffer.
pub proof fn linux_iso_completions_follow_the_packets(
    txn_id: Seq<char>,
    urb_status: i32,
    urb_actual_length: i32,
    packets: Seq<IsoPacketResult>,
    dir: USBTransferDirection,
    buf: Seq<u8>,
)
    ensures
        ({
            let r = spec_linux_iso_completion(txn_id, urb_status, urb_actual_length, packets, dir, buf);
            let failed = (exists|i: int|
                0 <= i < packets.len() && #[trigger] packets[i].status != 0 && packets[i].status
                    != 0xffff_ffb5u32) || (urb_status != 0 && urb_status
                != -LINUX_EOVERFLOW);
            &&& (r is RequestError <==> failed)
            &&& (r is RequestError || r is IsocRequestComplete)
            &&& (r matches ResponseMessageView::RequestError { txn_id: t, error, bytes_written }
                ==> t == txn_id && error == Errors::TransferError && bytes_written
                == urb_actual_length as u64)
            &&& (r matches ResponseMessageView::IsocRequestComplete {
                txn_id: t,
                data: d,
                pkt_status,
                pkt_len,
            } ==> {
                &&& t == txn_id
                &&& carries_received(d, dir, buf)
                &&& pkt_status.len() == packets.len()
                &&& pkt_len.len() == packets.len()
                &&& forall|i: int|
                    0 <= i < packets.len() ==> {
                        &&& pkt_len[i] == (#[trigger] packets[i]).actual_length
                        &&& (pkt_status[i] == IsocPacketState::Babble <==> packets[i].status
                            == 0xffff_ffb5u32)
                        &&& (pkt_status[i] == IsocPacketState::Success <==> packets[i].status == 0)
                    }
            })
        }),
{
    b64_roundtrip(buf);
    let states = packets.map_values(|p: IsoPacketResult| spec_linux_packet_state(p.status));
    assert forall|i: int| 0 <= i < packets.len() implies {
        &&& (#[trigger] states[i] == IsocPacketState::Babble <==> packets[i].status
            == 0xffff_ffb5u32)
        &&& (states[i] == IsocPacketState::Success <==> packets[i].status == 0)
    } by {
        assert(states[i] == spec_linux_packet_state(packets[i].status));
    }
    assert((exists|i: int| 0 <= i < packets.len() && #[trigger] states[i] == IsocPacketState::Error)
        <==> (exists|i: int|
        0 <= i < packets.len() && #[trigger] packets[i].status != 0 && packets[i].status
            != 0xffff_ffb5u32)) by {
        if exists|i: int| 0 <= i < packets.len() && #[trigger] states[i] == IsocPacketState::Error {
            let i = choose|i: int| 0 <= i < packets.len() && #[trigger] states[i] == IsocPacketState::Error;
            assert(packets[i].status != 0);
        }
        if exists|i: int|
            0 <= i < packets.len() && #[trigger] packets[i].status != 0 && packets[i].status
                != 0xffff_ffb5u32 {
            let i = choose|i: int|
                0 <= i < packets.len() && #[trigger] packets[i].status != 0 && packets[i].status
                    != 0xffff_ffb5u32;
            assert(states[i] == IsocPacketState::Error);
        }
    }
}


/// A finished macOS isochronous transfer fails as a whole exactly when a
/// frame failed (neither success nor overrun) or the transfer did; otherwise
/// each frame is reported as fine, or babbled on an overrun, with the count
/// it received, and a read carries the first bytes of the buffer, as many as
/// all frames received together.
pub proof fn macos_isoc_completions_follow_the_frames(
    txn_id: Seq<char>,
    result: i32,
    frames: Seq<IsocFrameResult>,
    dir: USBTransferDirection,
    buf: Seq<u8>,
)
    requires
        dir == USBTransferDirection::DeviceToHost ==> spec_frames_total(frames) <= buf.len(),
    ensures
        ({
            let r = spec_macos_isoc_completion(txn_id, result, frames, dir, buf);
            let failed = (exists|i: int|
                0 <= i < frames.len() && #[trigger] frames[i].status != 0 && frames[i].status
                    != K_IO_RETURN_OVERRUN) || (result != 0 && result != K_IO_RETURN_OVERRUN);
            &&& (r is RequestError <==> failed)
            &&& (r is RequestError || r is IsocRequestComplete)
            &&& (r matches ResponseMessageView::RequestError { txn_id: t, error, .. } ==> t == txn_id
                && error == Errors::TransferError)
            &&& (r matches ResponseMessageView::IsocRequestComplete {
                txn_id: t,
                data: d,
                pkt_status,
                pkt_len,
            } ==> {
                &&& t == txn_id
                &&& carries_received(d, dir, buf.subrange(0, spec_frames_total(frames)))
                &&& pkt_status.len() == frames.len()
                &&& pkt_len.len() == frames.len()
                &&& forall|i: int|
                    0 <= i < frames.len() ==> {
                        &&& pkt_len[i] == (#[trigger] frames[i]).act_count as u32
                        &&& (pkt_status[i] == IsocPacketState::Babble <==> frames[i].status
                            == K_IO_RETURN_OVERRUN)
                        &&& (pkt_status[i] == IsocPacketState::Success <==> frames[i].status == 0)
                    }
            })
        }),
{
    let states = frames.map_values(|f: IsocFrameResult| spec_macos_frame_state(f.status));
    assert forall|i: int| 0 <= i < frames.len() implies {
        &&& (#[trigger] states[i] == IsocPacketState::Babble <==> frames[i].status
            == K_IO_RETURN_OVERRUN)
        &&& (states[i] == IsocPacketState::Success <==> frames[i].status == 0)
        &&& (states[i] == IsocPacketState::Error <==> (frames[i].status != 0 && frames[i].status
            != K_IO_RETURN_OVERRUN))
    } by {
        assert(states[i] == spec_macos_frame_state(frames[i].status));
    }
    if dir == USBTransferDirection::DeviceToHost {
        b64_roundtrip(buf.subrange(0, spec_frames_total(frames)));
    }
    assert((exists|i: int| 0 <= i < frames.len() && #[trigger] states[i] == IsocPacketState::Error)
        <==> (exists|i: int|
        0 <= i < frames.len() && #[trigger] frames[i].status != 0 && frames[i].status
            != K_IO_RETURN_OVERRUN)) by {
        if exists|i: int| 0 <= i < frames.len() && #[trigger] states[i] == IsocPacketState::Error {
            let i = choose|i: int| 0 <= i < frames.len() && #[trigger] states[i] == IsocPacketState::Error;
            assert(frames[i].status != 0);
        }
        if exists|i: int|
            0 <= i < frames.len() && #[trigger] frames[i].status != 0 && frames[i].status
                != K_IO_RETURN_OVERRUN {
            let i = choose|i: int|
                0 <= i < frames.len() && #[trigger] frames[i].status != 0 && frames[i].status
                    != K_IO_RETURN_OVERRUN;
            assert(states[i] == IsocPacketState::Error);
        }
    }
}

/// A finished WinUSB transfer is answered under its own transaction id. A
/// general failure is reported as a stall and any other failure as a
/// transfer error, with the bytes transferred. A transfer that is not
/// isochronous completes without babble, a read carrying the buffer. An
/// isochronous write reports every packet fine with the length asked for. An
/// isochronous read fails exactly when a packet did, and otherwise reports
/// each packet fine with its own length and carries the packets' bytes one
/// after the other.
pub proof fn windows_completions_follow_the_status(
    txn_id: Seq<char>,
    status: u32,
    nbytes: u32,
    dir: USBTransferDirection,
    is_isoc: bool,
    requested_pkt_len: Seq<u32>,
    rx_packets: Seq<IsoRxPacket>,
    buf: Seq<u8>,
)
    ensures
        ({
            let r = spec_windows_completion(
                txn_id,
                status,
                nbytes,
                dir,
                is_isoc,
                requested_pkt_len,
                rx_packets,
                buf,
            );
            &&& (status != 0 ==> r == ResponseMessageView::RequestError {
                txn_id,
                error: if status == 31 {
                    Errors::Stall
                } else {
                    Errors::TransferError
                },
                bytes_written: nbytes as u64,
            })
            &&& (status == 0 && !is_isoc ==> r is RequestComplete)
            &&& (status == 0 && !is_isoc ==> (r matches ResponseMessageView::RequestComplete {
                txn_id: t,
                babble,
                data: d,
                bytes_written,
            } ==> t == txn_id && !babble && bytes_written == nbytes as u64 && carries_received(
                d,
                dir,
                buf,
            )))
            &&& (status == 0 && is_isoc && dir == USBTransferDirection::HostToDevice ==> r is IsocRequestComplete)
            &&& (status == 0 && is_isoc && dir == USBTransferDirection::HostToDevice ==> (r matches ResponseMessageView::IsocRequestComplete {
                txn_id: t,
                data: d,
                pkt_status,
                pkt_len,
            } ==> t == txn_id && d is None && pkt_len == requested_pkt_len && pkt_status.len()
                == requested_pkt_len.len() && forall|i: int|
                0 <= i < pkt_status.len() ==> #[trigger] pkt_status[i] == IsocPacketState::Success))
            &&& (status == 0 && is_isoc && dir == USBTransferDirection::DeviceToHost ==> {
                &&& (r is RequestError <==> exists|i: int|
                    0 <= i < rx_packets.len() && #[trigger] rx_packets[i].status != 0)
                &&& (r is RequestError || r is IsocRequestComplete)
                &&& (r matches ResponseMessageView::RequestError { txn_id: t, error, .. } ==> t
                    == txn_id && error == Errors::TransferError)
                &&& (r matches ResponseMessageView::IsocRequestComplete {
                    txn_id: t,
                    data: d,
                    pkt_status,
                    pkt_len,
                } ==> t == txn_id && carries_received(d, dir, spec_gather(buf, rx_packets))
                    && pkt_len.len() == rx_packets.len() && pkt_status.len() == rx_packets.len()
                    && forall|i: int|
                    0 <= i < rx_packets.len() ==> #[trigger] pkt_len[i] == rx_packets[i].length
                        && pkt_status[i] == IsocPacketState::Success)
            })
        }),
{
    b64_roundtrip(buf);
    b64_roundtrip(spec_gather(buf, rx_packets));
}


/// A request that finished at once is answered with an empty completion, one
/// that finishes later is not answered now, and a refused one is answered
/// with its error; the answer carries the request's transaction id and
/// nothing written.
pub proof fn immediate_replies_follow_the_result(txn_id: Seq<char>, result: Result<DeviceOpResult, Errors>)
    ensures
        result == Ok::<DeviceOpResult, Errors>(DeviceOpResult::SendCompletionNow) ==> spec_immediate_reply(
            txn_id,
            result,
        ) == Some(
            ResponseMessageView::RequestComplete { txn_id, babble: false, data: None, bytes_written: 0 },
        ),
        result == Ok::<DeviceOpResult, Errors>(DeviceOpResult::ManualCompletion) ==> spec_immediate_reply(
            txn_id,
            result,
        ) is None,
        result matches Err(e) ==> spec_immediate_reply(txn_id, result) == Some(
            ResponseMessageView::RequestError { txn_id, error: e, bytes_written: 0 },
        ),
{
}

} // verus!
