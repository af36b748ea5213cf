//! The laws of the pipeline, each stated over the spec functions the
//! executable contracts use, and proved.

use vstd::prelude::*;
use crate::lines::lines_of;
use crate::pipeline::{line_value, pipeline_failure, pipeline_output, PipelineError};
use crate::utf8::is_valid_utf8;

verus! {

/// The concatenation of a sequence of byte payloads, in order.
pub open spec fn concat_all(ps: Seq<Seq<u8>>) -> Seq<u8>
    decreases ps.len(),
{
    if ps.len() == 0 {
        Seq::empty()
    } else {
        ps.first() + concat_all(ps.drop_first())
    }
}

/// Round trip: when every line carries a well-formed frame that decodes
/// and decompresses to its payload, the run fails nowhere and writes
/// exactly the concatenation of the payloads, in input order.
pub proof fn lemma_round_trip(ls: Seq<Seq<u8>>, payloads: Seq<Seq<u8>>)
    requires
        ls.len() == payloads.len(),
        forall|i: int|
            0 <= i < ls.len() ==> is_valid_utf8(#[trigger] ls[i]) && line_value(ls[i]) == Ok::<
                Seq<u8>,
                PipelineError,
            >(payloads[i]),
    ensures
        pipeline_failure(ls) is None,
        pipeline_output(ls) == concat_all(payloads),
    decreases ls.len(),
{
    if ls.len() == 0 {
    } else {
        assert(is_valid_utf8(ls[0]) && line_value(ls[0]) == Ok::<Seq<u8>, PipelineError>(
            payloads[0],
        ));
        assert forall|i: int| 0 <= i < ls.drop_first().len() implies is_valid_utf8(
            #[trigger] ls.drop_first()[i],
        ) && line_value(ls.drop_first()[i]) == Ok::<Seq<u8>, PipelineError>(
            payloads.drop_first()[i],
        ) by {
            assert(ls.drop_first()[i] == ls[i + 1]);
            assert(payloads.drop_first()[i] == payloads[i + 1]);
        }
        lemma_round_trip(ls.drop_first(), payloads.drop_first());
    }
}

/// Order preservation: interchanging two lines of a fully well-formed
/// input changes the output only by the same interchange of their
/// decompressed byte ranges.
pub proof fn lemma_order_preservation(ls: Seq<Seq<u8>>, payloads: Seq<Seq<u8>>, a: int, b: int)
    requires
        ls.len() == payloads.len(),
        forall|i: int|
            0 <= i < ls.len() ==> is_valid_utf8(#[trigger] ls[i]) && line_value(ls[i]) == Ok::<
                Seq<u8>,
                PipelineError,
            >(payloads[i]),
        0 <= a < ls.len(),
        0 <= b < ls.len(),
    ensures
        pipeline_failure(ls.update(a, ls[b]).update(b, ls[a])) is None,
        pipeline_output(ls.update(a, ls[b]).update(b, ls[a])) == concat_all(
            payloads.update(a, payloads[b]).update(b, payloads[a]),
        ),
{
    let ls2 = ls.update(a, ls[b]).update(b, ls[a]);
    let ps2 = payloads.update(a, payloads[b]).update(b, payloads[a]);
    assert forall|i: int| 0 <= i < ls2.len() implies is_valid_utf8(#[trigger] ls2[i]) && line_value(
        ls2[i],
    ) == Ok::<Seq<u8>, PipelineError>(ps2[i]) by {
        if i == b {
            assert(ls2[i] == ls[a] && ps2[i] == payloads[a]);
        } else if i == a {
            assert(ls2[i] == ls[b] && ps2[i] == payloads[b]);
        } else {
            assert(ls2[i] == ls[i] && ps2[i] == payloads[i]);
        }
    }
    lemma_round_trip(ls2, ps2);
}

/// Re-running the pipeline over the same input yields byte-identical
/// output: what a run writes is a function of the input lines alone,
/// and the sink recreates the output file instead of appending to it.
pub proof fn lemma_rerun_identical(first: Seq<Seq<u8>>, second: Seq<Seq<u8>>)
    requires
        first == second,
    ensures
        pipeline_output(first) == pipeline_output(second),
        pipeline_failure(first) == pipeline_failure(second),
{
}

/// An empty input file yields an empty output: no lines, zero bytes
/// written, no failure.
pub proof fn lemma_empty_input()
    ensures
        lines_of(Seq::<u8>::empty()) == Seq::<Seq<u8>>::empty(),
        pipeline_output(lines_of(Seq::<u8>::empty())) == Seq::<u8>::empty(),
        pipeline_failure(lines_of(Seq::<u8>::empty())) is None,
{
    assert(lines_of(Seq::<u8>::empty()) =~= Seq::<Seq<u8>>::empty());
}

/// A failing line never contributes a partial chunk: when the lines
/// before `k` each carry a well-formed frame and line `k` is rejected,
/// the run aborts with line `k`'s error and writes exactly the
/// completed frames before it.
pub proof fn lemma_abort_keeps_completed_lines(
    ls: Seq<Seq<u8>>,
    payloads: Seq<Seq<u8>>,
    k: int,
    e: PipelineError,
)
    requires
        0 <= k < ls.len(),
        payloads.len() == k,
        forall|i: int|
            0 <= i < k ==> is_valid_utf8(#[trigger] ls[i]) && line_value(ls[i]) == Ok::<
                Seq<u8>,
                PipelineError,
            >(payloads[i]),
        is_valid_utf8(ls[k]),
        line_value(ls[k]) == Err::<Seq<u8>, PipelineError>(e),
    ensures
        pipeline_failure(ls) == Some(e),
        pipeline_output(ls) == concat_all(payloads),
    decreases k,
{
    if k == 0 {
    } else {
        assert forall|i: int| 0 <= i < k - 1 implies is_valid_utf8(
            #[trigger] ls.drop_first()[i],
        ) && line_value(ls.drop_first()[i]) == Ok::<Seq<u8>, PipelineError>(
            payloads.drop_first()[i],
        ) by {
            assert(ls.drop_first()[i] == ls[i + 1]);
            assert(payloads.drop_first()[i] == payloads[i + 1]);
        }
        assert(ls.drop_first()[k - 1] == ls[k]);
        lemma_abort_keeps_completed_lines(ls.drop_first(), payloads.drop_first(), k - 1, e);
    }
}

} // verus!
