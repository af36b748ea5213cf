//! The trusted boundary around the base64 and brotli crates: the two
//! decoding primitives the pipeline calls, each behind a contract that
//! names its result. Everything that reasons about those results is
//! verified code outside this module.

use vstd::prelude::*;
use base64::Engine;
use std::io::Read;

verus! {

/// The outcome of decoding standard-alphabet base64 text: the decoded
/// bytes, or nothing when the text is not valid base64.
pub uninterp spec fn b64_decoded(s: Seq<u8>) -> Option<Seq<u8>>;

/// The outcome of draining a brotli decompressor over one frame's bytes
/// until a zero-length read: the decompressed bytes on a clean end, or
/// nothing when the frame is malformed or truncated.
pub uninterp spec fn brotli_decompressed(s: Seq<u8>) -> Option<Seq<u8>>;

/// Every byte the drain of one frame hands out before it ends, whether
/// it ends cleanly or with a failure. When the frame is well formed this
/// is the decompressed stream itself.
pub uninterp spec fn brotli_drained(s: Seq<u8>) -> Seq<u8>;

/// Relies on base64::Engine::decode with the STANDARD engine: it returns
/// exactly the bytes the line encodes in the standard alphabet, and fails
/// exactly when the line has an invalid character, padding or length.
#[verifier::external_body]
pub(crate) fn b64_decode(line: &Vec<u8>) -> (r: Option<Vec<u8>>)
    ensures
        match r {
            Some(v) => b64_decoded(line@) == Some(v@),
            None => b64_decoded(line@) is None,
        },
{
    match base64::engine::general_purpose::STANDARD.decode(line.as_slice()) {
        Ok(v) => Some(v),
        Err(_) => None,
    }
}

/// One line's brotli decompression stage: a decompressor positioned over
/// the decoded bytes of a single frame.
#[verifier::external_body]
pub struct FrameReader {
    inner: brotli::Decompressor<std::io::Cursor<Vec<u8>>>,
}

/// The compressed frame a decompression stage was built over.
pub uninterp spec fn frame_source(r: FrameReader) -> Seq<u8>;

/// The concatenation of the chunks a decompression stage has handed out.
pub uninterp spec fn frame_emitted(r: FrameReader) -> Seq<u8>;

/// True until a zero-length read or a failure has ended the stream.
pub uninterp spec fn frame_live(r: FrameReader) -> bool;

/// Relies on brotli::Decompressor::new: a fresh decompressor over an
/// in-memory cursor, positioned at the start, with nothing emitted yet.
#[verifier::external_body]
pub(crate) fn frame_reader_new(data: Vec<u8>) -> (r: FrameReader)
    ensures
        frame_source(r) == data@,
        frame_emitted(r) == Seq::<u8>::empty(),
        frame_live(r),
{
    FrameReader { inner: brotli::Decompressor::new(std::io::Cursor::new(data), 4096) }
}

/// Relies on brotli::Decompressor::read: each call fills the front of
/// `buf` with the next decompressed bytes of the frame; it returns zero
/// bytes exactly at the clean end of the frame, and fails exactly when
/// the frame is malformed or truncated. An interrupted read of the
/// underlying source is retried inside the decompressor's own io
/// wrapper, so it never surfaces here.
#[verifier::external_body]
pub(crate) fn frame_read(fr: &mut FrameReader, buf: &mut Vec<u8>) -> (r: Result<usize, ()>)
    requires
        frame_live(*old(fr)),
        old(buf)@.len() > 0,
        frame_emitted(*old(fr)).is_prefix_of(brotli_drained(frame_source(*old(fr)))),
    ensures
        frame_source(*final(fr)) == frame_source(*old(fr)),
        final(buf)@.len() == old(buf)@.len(),
        match r {
            Ok(n) => {
                &&& n <= old(buf)@.len()
                &&& frame_emitted(*final(fr)) == frame_emitted(*old(fr)) + final(buf)@.take(
                    n as int,
                )
                &&& frame_emitted(*final(fr)).is_prefix_of(
                    brotli_drained(frame_source(*old(fr))),
                )
                &&& frame_live(*final(fr)) == (n != 0)
                &&& n == 0 ==> brotli_decompressed(frame_source(*old(fr))) == Some(
                    frame_emitted(*old(fr)),
                )
            },
            Err(()) => {
                &&& brotli_decompressed(frame_source(*old(fr))) is None
                &&& frame_emitted(*final(fr)) == frame_emitted(*old(fr))
                &&& !frame_live(*final(fr))
            },
        },
{
    match fr.inner.read(&mut buf[..]) {
        Ok(n) => Ok(n),
        Err(_) => Err(()),
    }
}

} // verus!
