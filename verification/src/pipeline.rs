//! The decode pipeline: one line is base64-decoded and brotli-
//! decompressed through a fixed 4096-byte working buffer; the driver
//! runs every line in input order, skips lines that are not valid
//! UTF-8, concatenates the decompressed frames, and stops at the first
//! failing line.

use vstd::prelude::*;
use crate::codec::{
    b64_decode, b64_decoded, brotli_decompressed, brotli_drained, frame_emitted, frame_live,
    frame_read, frame_reader_new, frame_source,
};
use crate::lines::{lines_of, split_lines, views_of};
use crate::utf8::is_valid_utf8;

verus! {

/// Why a run was aborted: the failing line was not valid base64, or its
/// decoded bytes were not a well-formed brotli frame.
#[derive(Clone, Copy, Debug, PartialEq, Eq, Structural)]
pub enum PipelineError {
    Decode,
    Decompress,
}

/// What one line's decode cycle yields: the decompressed frame, or the
/// stage that rejected the line.
pub open spec fn line_value(line: Seq<u8>) -> Result<Seq<u8>, PipelineError> {
    match b64_decoded(line) {
        None => Err(PipelineError::Decode),
        Some(c) => match brotli_decompressed(c) {
            None => Err(PipelineError::Decompress),
            Some(p) => Ok(p),
        },
    }
}

/// The bytes a run over these lines writes: the decompressed frames of
/// the processed lines in input order, up to the first failing line.
/// Lines that are not valid UTF-8 are skipped.
pub open spec fn pipeline_output(ls: Seq<Seq<u8>>) -> Seq<u8>
    decreases ls.len(),
{
    if ls.len() == 0 {
        Seq::empty()
    } else if !is_valid_utf8(ls.first()) {
        pipeline_output(ls.drop_first())
    } else {
        match line_value(ls.first()) {
            Ok(p) => p + pipeline_output(ls.drop_first()),
            Err(_) => Seq::empty(),
        }
    }
}

/// The first failure a run over these lines hits, if any.
pub open spec fn pipeline_failure(ls: Seq<Seq<u8>>) -> Option<PipelineError>
    decreases ls.len(),
{
    if ls.len() == 0 {
        None
    } else if !is_valid_utf8(ls.first()) {
        pipeline_failure(ls.drop_first())
    } else {
        match line_value(ls.first()) {
            Ok(_) => pipeline_failure(ls.drop_first()),
            Err(e) => Some(e),
        }
    }
}

fn zero_buf(n: usize) -> (r: Vec<u8>)
    ensures
        r@.len() == n,
{
    let mut v: Vec<u8> = Vec::new();
    let mut i: usize = 0;
    while i < n
        invariant
            i <= n,
            v@.len() == i,
        decreases n - i,
    {
        v.push(0);
        i = i + 1;
    }
    v
}

/// Runs one line through the base64 and brotli stages, pulling the
/// decompressed bytes through a fixed 4096-byte working buffer until a
/// zero-length read ends the frame. Returns the whole decompressed
/// frame, or the error of the stage that rejected the line; nothing
/// partial ever escapes.
pub fn decode_line(line: &Vec<u8>) -> (r: Result<Vec<u8>, PipelineError>)
    ensures
        match r {
            Ok(v) => line_value(line@) == Ok::<Seq<u8>, PipelineError>(v@),
            Err(e) => line_value(line@) == Err::<Seq<u8>, PipelineError>(e),
        },
{
    let decoded = match b64_decode(line) {
        Some(d) => d,
        None => {
            return Err(PipelineError::Decode);
        },
    };
    let ghost dec: Seq<u8> = decoded@;
    let mut fr = frame_reader_new(decoded);
    let mut buf = zero_buf(4096);
    let mut out: Vec<u8> = Vec::new();
    loop
        invariant
            b64_decoded(line@) == Some(dec),
            frame_source(fr) == dec,
            frame_live(fr),
            buf@.len() == 4096,
            out@ == frame_emitted(fr),
            frame_emitted(fr).is_prefix_of(brotli_drained(dec)),
        decreases brotli_drained(dec).len() - frame_emitted(fr).len(),
    {
        let ghost emitted0 = frame_emitted(fr);
        match frame_read(&mut fr, &mut buf) {
            Ok(n) => {
                if n == 0 {
                    return Ok(out);
                }
                let mut j: usize = 0;
                while j < n
                    invariant
                        j <= n,
                        n <= buf@.len(),
                        out@ == emitted0 + buf@.take(j as int),
                    decreases n - j,
                {
                    let b = buf[j];
                    out.push(b);
                    assert(buf@.take(j + 1 as int) =~= buf@.take(j as int).push(buf@[j as int]));
                    j = j + 1;
                }
                assert(out@ == frame_emitted(fr));
            },
            Err(()) => {
                return Err(PipelineError::Decompress);
            },
        }
    }
}

/// What a whole run produced: the bytes owed to the output file, and
/// the failure that aborted the run, if one did.
pub struct PipelineRun {
    pub bytes: Vec<u8>,
    pub failure: Option<PipelineError>,
}

/// Runs every line in input order: skips lines that are not valid
/// UTF-8, decodes and decompresses the others, and concatenates their
/// frames. Stops at the first failing line; the bytes of the completed
/// lines before it are still returned.
pub fn run_pipeline(lines: &Vec<Vec<u8>>) -> (r: PipelineRun)
    ensures
        r.bytes@ == pipeline_output(views_of(lines@)),
        r.failure == pipeline_failure(views_of(lines@)),
{
    let ghost ls = views_of(lines@);
    let n = lines.len();
    let mut out: Vec<u8> = Vec::new();
    let mut i: usize = 0;
    assert(ls.skip(0) =~= ls);
    assert(out@ + pipeline_output(ls) =~= pipeline_output(ls));
    while i < n
        invariant
            n == lines@.len(),
            i <= n,
            ls == views_of(lines@),
            pipeline_output(ls) == out@ + pipeline_output(ls.skip(i as int)),
            pipeline_failure(ls) == pipeline_failure(ls.skip(i as int)),
        decreases n - i,
    {
        let ghost t = ls.skip(i as int);
        assert(t.first() == lines@[i as int]@);
        assert(t.drop_first() =~= ls.skip(i as int + 1));
        let li = &lines[i];
        if crate::utf8::check_utf8(li) {
            match decode_line(li) {
                Ok(mut chunk) => {
                    let ghost out0 = out@;
                    let ghost c = chunk@;
                    out.append(&mut chunk);
                    assert(out@ =~= out0 + c);
                    assert((out0 + c) + pipeline_output(ls.skip(i as int + 1)) =~= out0 + (c
                        + pipeline_output(ls.skip(i as int + 1))));
                },
                Err(e) => {
                    assert(pipeline_output(t) =~= Seq::<u8>::empty());
                    assert(out@ + Seq::<u8>::empty() =~= out@);
                    return PipelineRun { bytes: out, failure: Some(e) };
                },
            }
        }
        i = i + 1;
    }
    assert(ls.skip(n as int) =~= Seq::<Seq<u8>>::empty());
    assert(out@ + Seq::<u8>::empty() =~= out@);
    PipelineRun { bytes: out, failure: None }
}

/// The whole decode run over the raw bytes of an input file: split into
/// lines, then run the pipeline over them.
pub fn run(data: &Vec<u8>) -> (r: PipelineRun)
    ensures
        r.bytes@ == pipeline_output(lines_of(data@)),
        r.failure == pipeline_failure(lines_of(data@)),
{
    let ls = split_lines(data);
    run_pipeline(&ls)
}

} // verus!
