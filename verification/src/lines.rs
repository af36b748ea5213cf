//! Splitting an input byte stream into text lines. A line ends at a
//! newline byte; the newline and an immediately preceding carriage
//! return are stripped; a final fragment without a newline is still a
//! line, and a trailing newline does not produce an extra empty line.

use vstd::prelude::*;

verus! {

/// `s` with one trailing carriage return removed, if present.
pub open spec fn strip_cr(s: Seq<u8>) -> Seq<u8> {
    if s.len() > 0 && s.last() == 13 {
        s.drop_last()
    } else {
        s
    }
}

/// The lines of `data` once `cur` has already been read as the start of
/// the current line.
pub open spec fn lines_from(data: Seq<u8>, cur: Seq<u8>) -> Seq<Seq<u8>>
    decreases data.len(),
{
    if data.len() == 0 {
        if cur.len() == 0 {
            Seq::empty()
        } else {
            seq![cur]
        }
    } else if data.first() == 10 {
        seq![strip_cr(cur)] + lines_from(data.drop_first(), Seq::empty())
    } else {
        lines_from(data.drop_first(), cur.push(data.first()))
    }
}

/// The lines of an input byte stream.
pub open spec fn lines_of(data: Seq<u8>) -> Seq<Seq<u8>> {
    lines_from(data, Seq::empty())
}

/// The byte sequences held by a sequence of byte vectors.
pub open spec fn views_of(v: Seq<Vec<u8>>) -> Seq<Seq<u8>> {
    Seq::new(v.len(), |i: int| v[i]@)
}

proof fn lemma_views_push(v: Seq<Vec<u8>>, x: Vec<u8>)
    ensures
        views_of(v.push(x)) =~= views_of(v).push(x@),
{
}

/// Splits the input bytes into lines, newline terminators stripped.
pub fn split_lines(data: &Vec<u8>) -> (r: Vec<Vec<u8>>)
    ensures
        views_of(r@) == lines_of(data@),
{
    let n = data.len();
    let mut out: Vec<Vec<u8>> = Vec::new();
    let mut cur: Vec<u8> = Vec::new();
    let mut i: usize = 0;
    assert(data@.skip(0) =~= data@);
    assert(views_of(out@) + lines_from(data@, cur@) =~= lines_of(data@));
    while i < n
        invariant
            n == data@.len(),
            i <= n,
            lines_of(data@) == views_of(out@) + lines_from(data@.skip(i as int), cur@),
        decreases n - i,
    {
        let ghost rest = data@.skip(i as int);
        let ghost cur0 = cur@;
        let ghost out0 = out@;
        assert(rest.first() == data@[i as int]);
        assert(rest.drop_first() =~= data@.skip(i as int + 1));
        if data[i] == 10 {
            if cur.len() > 0 && cur[cur.len() - 1] == 13 {
                cur.pop();
            }
            assert(cur@ =~= strip_cr(cur0));
            out.push(cur);
            cur = Vec::new();
            proof {
                lemma_views_push(out0, out@[out@.len() - 1]);
                assert(views_of(out@) =~= views_of(out0).push(strip_cr(cur0)));
                assert(views_of(out0) + lines_from(rest, cur0) =~= views_of(out@) + lines_from(
                    data@.skip(i as int + 1),
                    cur@,
                ));
            }
        } else {
            let b = data[i];
            cur.push(b);
            assert(lines_from(rest, cur0) == lines_from(data@.skip(i as int + 1), cur@));
        }
        i = i + 1;
    }
    assert(data@.skip(n as int) =~= Seq::<u8>::empty());
    if cur.len() > 0 {
        let ghost out0 = out@;
        let ghost cur0 = cur@;
        out.push(cur);
        proof {
            lemma_views_push(out0, out@[out@.len() - 1]);
            assert(views_of(out@) =~= views_of(out0) + seq![cur0]);
        }
    } else {
        assert(views_of(out@) + lines_from(Seq::<u8>::empty(), cur@) =~= views_of(out@));
    }
    out
}

} // verus!
