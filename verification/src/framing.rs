//! The framing of native messaging on stdin and stdout: each message is
//! preceded by its length as a 32-bit number in the host's byte order.
use vstd::prelude::*;

use crate::host::{bytes32, host_is_little_endian, lemma_bytes_of, read32, read_u32, write_u32};

verus! {

/// The longest message the helper sends (1 MiB); a longer one is a bug.
pub const MAX_MESSAGE_LEN: usize = 0x10_0000;

/// The bytes written for a message: its length in four bytes, in the host's
/// byte order, then the message.
pub fn frame_message(data: &[u8]) -> (r: Vec<u8>)
    requires
        data@.len() <= MAX_MESSAGE_LEN,
    ensures
        r@.len() == data@.len() + 4,
        exists|le: bool| r@.subrange(0, 4) == #[trigger] bytes32(data@.len() as u32, le),
        r@.subrange(4, r@.len() as int) == data@,
{
    let le = host_is_little_endian();
    let len = write_u32(data.len() as u32, le);
    let mut out: Vec<u8> = Vec::new();
    out.push(len[0]);
    out.push(len[1]);
    out.push(len[2]);
    out.push(len[3]);
    let mut i: usize = 0;
    while i < data.len()
        invariant
            i <= data@.len(),
            out@.len() == i + 4,
            out@[0] == len@[0] && out@[1] == len@[1] && out@[2] == len@[2] && out@[3] == len@[3],
            out@.subrange(4, out@.len() as int) == data@.subrange(0, i as int),
        decreases data@.len() - i,
    {
        out.push(data[i]);
        i = i + 1;
        assert(out@.subrange(4, out@.len() as int) =~= data@.subrange(0, i as int));
    }
    assert(data@.subrange(0, i as int) =~= data@);
    assert(out@.subrange(0, 4) =~= bytes32(data@.len() as u32, le));
    out
}

/// The length of the message that follows a four-byte header, read in the
/// host's byte order.
pub fn message_length(header: [u8; 4]) -> (r: u32)
    ensures
        exists|le: bool| r == read32(header@[0], header@[1], header@[2], header@[3], le),
{
    let le = host_is_little_endian();
    read_u32(header[0], header[1], header[2], header[3], le)
}

/// A header read in the byte order it was written in gives back the length
/// that was written: on one machine, [`message_length`] of the header that
/// [`frame_message`] writes is the message's length.
pub proof fn frame_length_reads_back(n: u32, le: bool)
    ensures
        read32(bytes32(n, le)[0], bytes32(n, le)[1], bytes32(n, le)[2], bytes32(n, le)[3], le) == n,
{
    lemma_bytes_of(n);
}

} // verus!
