//! Materializing a committed frame buffer as a viewable image.
//!
//! A pure convenience for human inspection, outside the proof's trust
//! boundary: the committed buffer is PNG-encoded in memory. Writing the
//! result anywhere is the caller's side effect, never done here and
//! never inside a guest.

use crate::engine::FRAME_BUFFER_LEN;
use crate::engine::FRAME_HEIGHT;
use crate::engine::FRAME_WIDTH;
use crate::events::CommittedOutput;
use crate::events::ReplayError;
use vstd::prelude::*;

verus! {

/// The PNG encoding of an RGBA pixel buffer of the given dimensions.
pub uninterp spec fn png_of(width: u32, height: u32, pixels: Seq<u8>) -> Seq<u8>;

/// Relies on `image::ImageBuffer::from_raw` and `write_to`: PNG-encodes
/// an RGBA buffer of exactly width x height x 4 bytes into memory. The
/// encoder writes no timestamps, so the result is a function of the
/// dimensions and pixel bytes alone; with an exact-size buffer `from_raw`
/// always succeeds, and for nonzero dimensions — PNG admits no empty
/// image, so zero is excluded here — encoding into an in-memory cursor
/// cannot fail.
#[verifier::external_body]
fn png_encode_rgba(width: u32, height: u32, pixels: &Vec<u8>) -> (r: Vec<u8>)
    requires
        width > 0,
        height > 0,
        pixels@.len() == width as int * height as int * 4,
    ensures
        r@ == png_of(width, height, pixels@),
{
    let buf: image::ImageBuffer<image::Rgba<u8>, Vec<u8>> =
        image::ImageBuffer::from_raw(width, height, pixels.clone())
            .expect("buffer length matches the dimensions");
    let mut out: Vec<u8> = Vec::new();
    buf.write_to(&mut std::io::Cursor::new(&mut out), image::ImageFormat::Png)
        .expect("encoding into memory cannot fail");
    out
}

/// Render a committed output as PNG bytes: total for every well-formed
/// buffer, and `InvalidBufferShape` exactly when the buffer is not the
/// fixed width x height x 4 bytes.
pub fn render(out: &CommittedOutput) -> (r: Result<Vec<u8>, ReplayError>)
    ensures
        r is Ok <==> out.frame_buffer@.len() == FRAME_BUFFER_LEN as int,
        r is Ok ==> r->Ok_0@ == png_of(FRAME_WIDTH, FRAME_HEIGHT, out.frame_buffer@),
        r is Err ==> r->Err_0 == ReplayError::InvalidBufferShape,
{
    if out.frame_buffer.len() != FRAME_BUFFER_LEN {
        return Err(ReplayError::InvalidBufferShape);
    }
    proof {
        assert(FRAME_BUFFER_LEN as int == FRAME_WIDTH as int * FRAME_HEIGHT as int * 4);
    }
    Ok(png_encode_rgba(FRAME_WIDTH, FRAME_HEIGHT, &out.frame_buffer))
}

} // verus!
