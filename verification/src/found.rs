//! Where the timestamps of a line are: a leftmost-first search for the
//! grammar, resumed after each match, and the clocks left out because a unit
//! of time follows them.

use vstd::prelude::*;
use crate::scan::{hm, hm_at, secs_end, secs_end_at, stamp_at, stamp_end};
use crate::words::{any_word_b, any_word_b_at, blank_end, blank_end_at, unit_table, units};

verus! {

/// The first timestamp that starts at or after `p`.
pub open spec fn next_stamp(s: Seq<u8>, p: int) -> Option<(int, int)>
    decreases s.len() + 1 - p,
{
    if p < 0 || p > s.len() {
        None
    } else {
        match stamp_at(s, p) {
            Some(e) => Some((p, e)),
            None => next_stamp(s, p + 1),
        }
    }
}

/// Every timestamp of `s` from `p` on, in order: each search resumes where
/// the last match ended.
pub open spec fn stamps_from(s: Seq<u8>, p: int) -> Seq<(int, int)>
    decreases s.len() + 1 - p,
{
    match next_stamp(s, p) {
        None => seq![],
        Some((a, e)) => if p <= a < e <= s.len() {
            seq![(a, e)] + stamps_from(s, e)
        } else {
            seq![]
        },
    }
}

proof fn lemma_next_stamp(s: Seq<u8>, p: int)
    ensures
        next_stamp(s, p) matches Some((a, e)) ==> p <= a && stamp_at(s, a) == Some(e),
    decreases s.len() + 1 - p,
{
    if 0 <= p <= s.len() && stamp_at(s, p) is None {
        lemma_next_stamp(s, p + 1);
    }
}

pub open spec fn spans_view(v: Seq<(usize, usize)>) -> Seq<(int, int)> {
    Seq::new(v.len(), |k: int| (v[k].0 as int, v[k].1 as int))
}

/// Every timestamp of the line, as the grammar finds them.
pub fn find_stamps(s: &[u8]) -> (r: Vec<(usize, usize)>)
    ensures
        spans_view(r@) == stamps_from(s@, 0),
        forall|k: int| 0 <= k < r@.len() ==> stamp_at(s@, (#[trigger] r@[k]).0 as int) == Some(r@[k].1 as int),
{
    let mut out: Vec<(usize, usize)> = Vec::new();
    let mut i: usize = 0;
    assert(spans_view(out@) + stamps_from(s@, 0) =~= stamps_from(s@, 0));
    while i < s.len()
        invariant
            i <= s.len(),
            stamps_from(s@, 0) == spans_view(out@) + stamps_from(s@, i as int),
            forall|k: int| 0 <= k < out@.len() ==> stamp_at(s@, (#[trigger] out@[k]).0 as int) == Some(out@[k].1 as int),
        decreases s.len() - i,
    {
        match stamp_end(s, i) {
            Some(e) => {
                assert(next_stamp(s@, i as int) == Some((i as int, e as int)));
                assert(stamps_from(s@, i as int) == seq![(i as int, e as int)] + stamps_from(s@, e as int));
                let ghost old_out = out@;
                out.push((i, e));
                assert(spans_view(out@) =~= spans_view(old_out) + seq![(i as int, e as int)]);
                assert(spans_view(out@) + stamps_from(s@, e as int) =~= spans_view(old_out) + (seq![
                    (i as int, e as int),
                ] + stamps_from(s@, e as int)));
                i = e;
            },
            None => {
                assert(next_stamp(s@, i as int) == next_stamp(s@, i + 1));
                proof { lemma_next_stamp(s@, i + 1); }
                assert(stamps_from(s@, i as int) == stamps_from(s@, i + 1));
                i += 1;
            },
        }
    }
    let last = stamp_end(s, i);
    assert(last is None);
    assert(next_stamp(s@, i + 1) == None::<(int, int)>);
    assert(stamps_from(s@, i as int) =~= Seq::<(int, int)>::empty());
    assert(spans_view(out@) + stamps_from(s@, i as int) =~= spans_view(out@));
    out
}

/// A clock alone: `^[0-9]{1,2}:[0-9]{2}(?::[0-9]{2}(?:\.[0-9]+)?)?$`.
pub open spec fn is_bare_time(t: Seq<u8>) -> bool {
    match hm(t, 0) {
        Some(k) => secs_end(t, k) == t.len(),
        None => false,
    }
}

pub fn bare_time(t: &[u8]) -> (r: bool)
    ensures
        r == is_bare_time(t@),
{
    match hm_at(t, 0) {
        Some(k) => secs_end_at(t, k) == t.len(),
        None => false,
    }
}

/// A unit of time follows `e`, after blanks: "Finished in 1:05 minutes".
pub open spec fn duration_follows(s: Seq<u8>, e: int) -> bool {
    let q = blank_end(s, e);
    q > e && any_word_b(s, q, units())
}

pub fn duration_follows_at(s: &[u8], e: usize) -> (r: bool)
    requires
        e <= s.len(),
    ensures
        r == duration_follows(s@, e as int),
{
    let q = blank_end_at(s, e);
    q > e && any_word_b_at(s, q, &unit_table(), Ghost(units()))
}

/// A clock followed by a unit of time is a duration, not a timestamp.
pub open spec fn keep_span(s: Seq<u8>, a: int, e: int) -> bool {
    !(is_bare_time(s.subrange(a, e)) && duration_follows(s, e))
}

} // verus!
