use base64::Engine;
use std::io::Write;

use brotli_lines::lines::split_lines;
use brotli_lines::pipeline::{decode_line, run, run_pipeline, PipelineError};
use brotli_lines::utf8::check_utf8;

fn compress(payload: &[u8]) -> Vec<u8> {
    let mut out: Vec<u8> = Vec::new();
    {
        let mut w = brotli::CompressorWriter::new(&mut out, 4096, 5, 22);
        w.write_all(payload).unwrap();
    }
    out
}

fn encode_line(payload: &[u8]) -> Vec<u8> {
    base64::engine::general_purpose::STANDARD
        .encode(compress(payload))
        .into_bytes()
}

fn join_lines(lines: &[Vec<u8>], sep: &[u8]) -> Vec<u8> {
    let mut out: Vec<u8> = Vec::new();
    for (i, line) in lines.iter().enumerate() {
        if i > 0 {
            out.extend_from_slice(sep);
        }
        out.extend_from_slice(line);
    }
    out
}

#[test]
fn empty_input_yields_empty_output() {
    let data: Vec<u8> = Vec::new();
    let outcome = run(&data);
    assert_eq!(outcome.bytes, Vec::<u8>::new());
    assert_eq!(outcome.failure, None);
}

#[test]
fn hello_world_line() {
    let data = encode_line(b"hello world");
    let outcome = run(&data);
    assert_eq!(outcome.bytes, b"hello world".to_vec());
    assert_eq!(outcome.failure, None);
}

#[test]
fn decode_line_round_trips_one_payload() {
    let line = encode_line(b"xyz");
    assert_eq!(decode_line(&line), Ok(b"xyz".to_vec()));
}

#[test]
fn two_long_lines_cross_working_buffer() {
    let a: Vec<u8> = b"all work and no play makes jack a dull boy. "
        .iter()
        .cycle()
        .take(5000)
        .copied()
        .collect();
    let b: Vec<u8> = b"the quick brown fox jumps over the lazy dog. "
        .iter()
        .cycle()
        .take(5000)
        .copied()
        .collect();
    let data = join_lines(&[encode_line(&a), encode_line(&b)], b"\n");
    let outcome = run(&data);
    let mut expected = a.clone();
    expected.extend_from_slice(&b);
    assert_eq!(outcome.bytes, expected);
    assert_eq!(outcome.failure, None);
}

#[test]
fn payload_of_exactly_one_buffer_length() {
    let a: Vec<u8> = b"0123456789abcdef".iter().cycle().take(4096).copied().collect();
    let data = encode_line(&a);
    let outcome = run(&data);
    assert_eq!(outcome.bytes, a);
    assert_eq!(outcome.failure, None);
}

#[test]
fn single_line_spanning_several_buffers() {
    let a: Vec<u8> = b"a long and repetitive payload, stitched chunk by chunk. "
        .iter()
        .cycle()
        .take(10000)
        .copied()
        .collect();
    let outcome = run(&encode_line(&a));
    assert_eq!(outcome.bytes, a);
    assert_eq!(outcome.failure, None);
}

#[test]
fn round_trip_of_several_payloads() {
    let payloads: Vec<Vec<u8>> = vec![
        b"first".to_vec(),
        Vec::new(),
        b"a somewhat longer third payload with some repetition repetition".to_vec(),
        vec![0u8; 100],
    ];
    let lines: Vec<Vec<u8>> = payloads.iter().map(|p| encode_line(p)).collect();
    let data = join_lines(&lines, b"\n");
    let outcome = run(&data);
    let mut expected: Vec<u8> = Vec::new();
    for p in &payloads {
        expected.extend_from_slice(p);
    }
    assert_eq!(outcome.bytes, expected);
    assert_eq!(outcome.failure, None);
}

#[test]
fn swapping_two_lines_swaps_their_byte_ranges() {
    let a = b"alpha payload".to_vec();
    let b = b"beta payload, a little longer".to_vec();
    let forward = join_lines(&[encode_line(&a), encode_line(&b)], b"\n");
    let backward = join_lines(&[encode_line(&b), encode_line(&a)], b"\n");
    let out_fwd = run(&forward);
    let out_bwd = run(&backward);
    let mut ab = a.clone();
    ab.extend_from_slice(&b);
    let mut ba = b.clone();
    ba.extend_from_slice(&a);
    assert_eq!(out_fwd.bytes, ab);
    assert_eq!(out_bwd.bytes, ba);
    assert_eq!(out_fwd.failure, None);
    assert_eq!(out_bwd.failure, None);
}

#[test]
fn rerun_on_same_input_is_byte_identical() {
    let data = join_lines(&[encode_line(b"one"), encode_line(b"two")], b"\n");
    let first = run(&data);
    let second = run(&data);
    assert_eq!(first.bytes, second.bytes);
    assert_eq!(first.failure, second.failure);
}

#[test]
fn invalid_base64_line_aborts_with_decode_error() {
    let data = b"!!! not base64 !!!".to_vec();
    let outcome = run(&data);
    assert_eq!(outcome.failure, Some(PipelineError::Decode));
    assert_eq!(outcome.bytes, Vec::<u8>::new());
}

#[test]
fn base64_with_bad_length_aborts_with_decode_error() {
    let data = b"abcde".to_vec();
    let outcome = run(&data);
    assert_eq!(outcome.failure, Some(PipelineError::Decode));
}

#[test]
fn invalid_brotli_frame_aborts_with_decompression_error() {
    let data = base64::engine::general_purpose::STANDARD
        .encode(b"this is not a brotli frame")
        .into_bytes();
    let outcome = run(&data);
    assert_eq!(outcome.failure, Some(PipelineError::Decompress));
    assert_eq!(outcome.bytes, Vec::<u8>::new());
}

#[test]
fn abort_keeps_completed_prior_lines_only() {
    let bad = base64::engine::general_purpose::STANDARD
        .encode(b"garbage bytes")
        .into_bytes();
    let data = join_lines(
        &[encode_line(b"hello world"), bad, encode_line(b"never reached")],
        b"\n",
    );
    let outcome = run(&data);
    assert_eq!(outcome.bytes, b"hello world".to_vec());
    assert_eq!(outcome.failure, Some(PipelineError::Decompress));
}

#[test]
fn non_utf8_line_is_skipped() {
    let data = join_lines(
        &[encode_line(b"before"), vec![0xFF, 0xFE, 0x80], encode_line(b"after")],
        b"\n",
    );
    let outcome = run(&data);
    assert_eq!(outcome.bytes, b"beforeafter".to_vec());
    assert_eq!(outcome.failure, None);
}

#[test]
fn crlf_line_endings_are_stripped() {
    let data = join_lines(&[encode_line(b"one"), encode_line(b"two")], b"\r\n");
    let outcome = run(&data);
    assert_eq!(outcome.bytes, b"onetwo".to_vec());
    assert_eq!(outcome.failure, None);
}

#[test]
fn trailing_newline_adds_no_line() {
    let mut data = encode_line(b"only");
    data.push(b'\n');
    let outcome = run(&data);
    assert_eq!(outcome.bytes, b"only".to_vec());
    assert_eq!(outcome.failure, None);
}

#[test]
fn run_pipeline_matches_run_on_split_lines() {
    let data = join_lines(&[encode_line(b"aa"), encode_line(b"bb")], b"\n");
    let ls = split_lines(&data);
    let via_lines = run_pipeline(&ls);
    let via_bytes = run(&data);
    assert_eq!(via_lines.bytes, via_bytes.bytes);
    assert_eq!(via_lines.failure, via_bytes.failure);
}

#[test]
fn split_lines_handles_terminators() {
    let data = b"a\r\nb\nc".to_vec();
    let ls = split_lines(&data);
    assert_eq!(ls, vec![b"a".to_vec(), b"b".to_vec(), b"c".to_vec()]);
    let empty: Vec<u8> = Vec::new();
    assert_eq!(split_lines(&empty), Vec::<Vec<u8>>::new());
}

#[test]
fn split_lines_keeps_empty_middle_lines() {
    let data = b"a\n\nb\n".to_vec();
    let ls = split_lines(&data);
    assert_eq!(ls, vec![b"a".to_vec(), Vec::new(), b"b".to_vec()]);
}

#[test]
fn check_utf8_accepts_multibyte_sequences() {
    assert!(check_utf8(&b"plain ascii".to_vec()));
    assert!(check_utf8(&"héllo wörld".as_bytes().to_vec()));
    assert!(check_utf8(&"\u{20AC} and \u{1F600}".as_bytes().to_vec()));
    assert!(check_utf8(&Vec::new()));
}

#[test]
fn check_utf8_rejects_malformed_sequences() {
    assert!(!check_utf8(&vec![0x80]));
    assert!(!check_utf8(&vec![0xC0, 0x80]));
    assert!(!check_utf8(&vec![0xED, 0xA0, 0x80]));
    assert!(!check_utf8(&vec![0xE2, 0x82]));
    assert!(!check_utf8(&vec![0xF5, 0x80, 0x80, 0x80]));
    assert!(!check_utf8(&vec![0xF4, 0x90, 0x80, 0x80]));
}

#[test]
fn check_utf8_agrees_with_std() {
    let samples: Vec<Vec<u8>> = vec![
        b"abc".to_vec(),
        vec![0xC3, 0xA9],
        vec![0xC3],
        vec![0xE0, 0x9F, 0x80],
        vec![0xE0, 0xA0, 0x80],
        vec![0xF0, 0x8F, 0x80, 0x80],
        vec![0xF0, 0x90, 0x80, 0x80],
        vec![0xBF, 0x41],
    ];
    for s in samples {
        assert_eq!(check_utf8(&s), std::str::from_utf8(&s).is_ok());
    }
}

#[test]
fn blank_line_aborts_with_decompression_error() {
    let data = join_lines(&[encode_line(b"kept"), Vec::new(), encode_line(b"lost")], b"\n");
    let outcome = run(&data);
    assert_eq!(outcome.bytes, b"kept".to_vec());
    assert_eq!(outcome.failure, Some(PipelineError::Decompress));
}
