//! Framing of what crosses the guest boundary.
//!
//! The guest reads, in order and once: the raw console image bytes, then
//! the encoded event log. It writes, in order and once: the final frame
//! index as a 4-byte little-endian word, then the fixed-length frame
//! buffer. Those two writes are the entirety of the guest's public
//! output, so the host parses them back with the exact inverse layout.

use crate::codec::encode;
use crate::codec::spec_encode;
use crate::engine::FRAME_BUFFER_LEN;
use crate::events::CommittedOutput;
use crate::events::ControllerEvent;
use crate::events::ReplayError;
use vstd::bytes::lemma_auto_spec_u32_to_from_le_bytes;
use vstd::bytes::spec_u32_to_le_bytes;
use vstd::bytes::u32_from_le_bytes;
use vstd::bytes::u32_to_le_bytes;
use vstd::prelude::*;
use vstd::slice::slice_subrange;
use vstd::slice::slice_to_vec;

verus! {

/// Everything the host hands the guest: the raw console image, then the
/// encoded event log. No other input channel exists inside the guest.
pub struct GuestInputBundle {
    pub image: Vec<u8>,
    pub encoded_log: Vec<u8>,
}

/// Serialize a replay's inputs into exactly the byte streams the guest
/// expects: the image passed through raw, the log through the wire codec.
pub fn prepare_inputs(image: &[u8], log: &Vec<ControllerEvent>) -> (r: GuestInputBundle)
    ensures
        r.image@ == image@,
        r.encoded_log@ == spec_encode(log@),
{
    GuestInputBundle { image: slice_to_vec(image), encoded_log: encode(log) }
}

/// The guest's public output on the wire.
pub open spec fn spec_committed_bytes(out: CommittedOutput) -> Seq<u8> {
    spec_u32_to_le_bytes(out.final_frame_index) + out.frame_buffer@
}

/// Write a committed output as the guest emits it.
pub fn encode_committed_output(out: &CommittedOutput) -> (r: Vec<u8>)
    ensures
        r@ == spec_committed_bytes(*out),
{
    let mut r = u32_to_le_bytes(out.final_frame_index);
    let mut buf = slice_to_vec(out.frame_buffer.as_slice());
    r.append(&mut buf);
    r
}

/// Parse the guest's public output back on the host. The frame buffer is
/// fixed-length, so any other byte count is a shape error.
pub fn decode_committed_output(bytes: &[u8]) -> (r: Result<CommittedOutput, ReplayError>)
    ensures
        r is Ok <==> bytes@.len() == 4 + FRAME_BUFFER_LEN as int,
        r is Ok ==> spec_committed_bytes(r->Ok_0) == bytes@,
        r is Ok ==> r->Ok_0.frame_buffer@.len() == FRAME_BUFFER_LEN as int,
        r is Err ==> r->Err_0 == ReplayError::InvalidBufferShape,
{
    if bytes.len() != 4 + FRAME_BUFFER_LEN {
        return Err(ReplayError::InvalidBufferShape);
    }
    let idx = u32_from_le_bytes(slice_subrange(bytes, 0, 4));
    let buf = slice_to_vec(slice_subrange(bytes, 4, bytes.len()));
    proof {
        lemma_auto_spec_u32_to_from_le_bytes();
        assert(spec_u32_to_le_bytes(idx) =~= bytes@.subrange(0, 4));
        assert(spec_u32_to_le_bytes(idx) + bytes@.subrange(4, bytes@.len() as int) =~= bytes@);
    }
    Ok(CommittedOutput { final_frame_index: idx, frame_buffer: buf })
}

/// The output framing loses nothing: two outputs with the same bytes
/// agree on the frame index and the buffer, so writing and parsing the
/// boundary is a round trip.
pub proof fn lemma_committed_bytes_injective(a: CommittedOutput, b: CommittedOutput)
    requires
        spec_committed_bytes(a) == spec_committed_bytes(b),
    ensures
        a.final_frame_index == b.final_frame_index,
        a.frame_buffer@ == b.frame_buffer@,
{
    lemma_auto_spec_u32_to_from_le_bytes();
    let ba = spec_committed_bytes(a);
    let bb = spec_committed_bytes(b);
    assert(spec_u32_to_le_bytes(a.final_frame_index) =~= ba.subrange(0, 4));
    assert(spec_u32_to_le_bytes(b.final_frame_index) =~= bb.subrange(0, 4));
    assert(a.frame_buffer@ =~= ba.subrange(4, ba.len() as int));
    assert(b.frame_buffer@ =~= bb.subrange(4, bb.len() as int));
}

} // verus!
