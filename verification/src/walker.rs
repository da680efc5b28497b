//! Splitting a full table buffer into structure spans.
//!
//! The walker reads a header, closes the formatted area from the declared
//! length, scans for the double-null terminator of the string region, emits
//! the span, and repeats. It never reads outside the buffer: malformed or
//! truncated input ends the walk with a diagnostic, and every structure
//! emitted before that point stays valid.

use vstd::prelude::*;
use crate::fields::copy_range;
use crate::structure::UndefinedStruct;

verus! {

/// The reserved structure type that marks the end of the table.
pub const END_OF_TABLE: u8 = 127;

/// Why a walk stopped. The offsets name the first byte of the structure at
/// which the walk gave up.
#[derive(Clone, Copy, PartialEq, Eq, Structural, Debug)]
pub enum WalkTermination {
    /// A structure with the reserved end-of-table type was reached.
    EndMarker,
    /// The buffer ended exactly at a structure boundary.
    BufferExhausted,
    /// The structure count limit supplied by the caller was reached.
    CountReached,
    /// Fewer than four bytes remained: no full header could be read.
    TruncatedHeader { offset: usize },
    /// A header declared a length under four: no boundary signal remains,
    /// so the rest of the buffer is unparseable.
    MalformedLength { offset: usize },
    /// A declared formatted area ran past the end of the buffer.
    TruncatedStructure { offset: usize },
}

/// The end of the string region that starts at `i`: two past the first
/// double null at or after `i`, or the buffer's end when no double null
/// occurs (a missing final terminator is a known firmware quirk).
pub open spec fn find_terminator(b: Seq<u8>, i: int) -> int
    recommends
        0 <= i <= b.len(),
    decreases b.len() - i,
    when 0 <= i <= b.len()
{
    if i + 2 > b.len() {
        b.len() as int
    } else if b[i] == 0 && b[i + 1] == 0 {
        i + 2
    } else {
        find_terminator(b, i + 1)
    }
}

pub proof fn lemma_find_terminator_bounds(b: Seq<u8>, i: int)
    requires
        0 <= i <= b.len(),
    ensures
        i <= find_terminator(b, i) <= b.len(),
    decreases b.len() - i,
{
    if i + 2 <= b.len() && !(b[i] == 0 && b[i + 1] == 0) {
        lemma_find_terminator_bounds(b, i + 1);
    }
}

/// `find_terminator` is pinned by a scan that saw no double null before `k`.
pub proof fn lemma_find_terminator_is(b: Seq<u8>, i: int, k: int)
    requires
        0 <= i <= k,
        k + 2 <= b.len(),
        forall|m: int| i <= m < k ==> !(#[trigger] b[m] == 0 && b[m + 1] == 0),
        b[k] == 0 && b[k + 1] == 0,
    ensures
        find_terminator(b, i) == k + 2,
    decreases k - i,
{
    if i < k {
        lemma_find_terminator_is(b, i + 1, k);
    }
}

/// `find_terminator` reaches the buffer's end when no double null occurs.
pub proof fn lemma_find_terminator_none(b: Seq<u8>, i: int)
    requires
        0 <= i <= b.len(),
        forall|m: int| i <= m && m + 2 <= b.len() ==> !(#[trigger] b[m] == 0 && b[m + 1] == 0),
    ensures
        find_terminator(b, i) == b.len(),
    decreases b.len() - i,
{
    if i + 2 <= b.len() {
        lemma_find_terminator_none(b, i + 1);
    }
}

/// One fewer structure allowed, where a limit is set at all.
pub open spec fn dec_limit(limit: Option<int>) -> Option<int> {
    match limit {
        Some(n) => Some(n - 1),
        None => None,
    }
}

/// The structure spans `(start, end)` that a walk from `p` emits.
pub open spec fn spec_spans(b: Seq<u8>, p: int, limit: Option<int>) -> Seq<(int, int)>
    recommends
        0 <= p <= b.len(),
    decreases b.len() - p,
    when 0 <= p <= b.len()
{
    if limit matches Some(n) && n <= 0 {
        Seq::empty()
    } else if p + 4 > b.len() {
        Seq::empty()
    } else if b[p] == END_OF_TABLE {
        Seq::empty()
    } else if b[p + 1] < 4 {
        Seq::empty()
    } else if p + b[p + 1] > b.len() {
        Seq::empty()
    } else {
        proof {
            lemma_find_terminator_bounds(b, p + b[p + 1]);
        }
        let e = find_terminator(b, p + b[p + 1]);
        seq![(p, e)] + spec_spans(b, e, dec_limit(limit))
    }
}

/// Why the walk from `p` stops, past the spans `spec_spans` lists.
pub open spec fn spec_termination(b: Seq<u8>, p: int, limit: Option<int>) -> WalkTermination
    recommends
        0 <= p <= b.len(),
    decreases b.len() - p,
    when 0 <= p <= b.len()
{
    if limit matches Some(n) && n <= 0 {
        WalkTermination::CountReached
    } else if p == b.len() {
        WalkTermination::BufferExhausted
    } else if p + 4 > b.len() {
        WalkTermination::TruncatedHeader { offset: p as usize }
    } else if b[p] == END_OF_TABLE {
        WalkTermination::EndMarker
    } else if b[p + 1] < 4 {
        WalkTermination::MalformedLength { offset: p as usize }
    } else if p + b[p + 1] > b.len() {
        WalkTermination::TruncatedStructure { offset: p as usize }
    } else {
        proof {
            lemma_find_terminator_bounds(b, p + b[p + 1]);
        }
        let e = find_terminator(b, p + b[p + 1]);
        spec_termination(b, e, dec_limit(limit))
    }
}

/// Law: no structure overlaps another. The emitted spans sit inside the
/// buffer in increasing order, the first starts at the walk's origin, and
/// each later structure starts exactly where the one before it ended.
pub proof fn lemma_spans_tile_the_buffer(b: Seq<u8>, p: int, limit: Option<int>)
    requires
        0 <= p <= b.len(),
    ensures
        ({
            let spans = spec_spans(b, p, limit);
            &&& forall|i: int| 0 <= i < spans.len() ==> p <= (#[trigger] spans[i]).0
                && spans[i].0 + 4 <= spans[i].1 <= b.len()
            &&& spans.len() > 0 ==> spans[0].0 == p
            &&& forall|i: int| 0 <= i < spans.len() - 1 ==> (#[trigger] spans[i]).1 == spans[i
                + 1].0
        }),
    decreases b.len() - p,
{
    let spans = spec_spans(b, p, limit);
    if spans.len() > 0 {
        let e = find_terminator(b, p + b[p + 1]);
        lemma_find_terminator_bounds(b, p + b[p + 1]);
        lemma_spans_tile_the_buffer(b, e, dec_limit(limit));
        let tail = spec_spans(b, e, dec_limit(limit));
        assert(spans == seq![(p, e)] + tail);
        assert forall|i: int| 0 <= i < spans.len() implies p <= (#[trigger] spans[i]).0
            && spans[i].0 + 4 <= spans[i].1 <= b.len() by {
            if i > 0 {
                assert(spans[i] == tail[i - 1]);
            }
        }
        assert forall|i: int| 0 <= i < spans.len() - 1 implies (#[trigger] spans[i]).1 == spans[i
            + 1].0 by {
            if i == 0 {
                if tail.len() > 0 {
                    assert(spans[1] == tail[0]);
                }
            } else {
                assert(spans[i] == tail[i - 1]);
                assert(spans[i + 1] == tail[i]);
            }
        }
    }
}

/// A caller-supplied structure count, as the spec model sees it.
pub open spec fn spec_limit(limit: Option<usize>) -> Option<int> {
    match limit {
        Some(n) => Some(n as int),
        None => None,
    }
}

/// What a walk over one buffer produced: the structures in table order, and
/// why walking stopped.
pub struct WalkResult {
    pub structures: Vec<UndefinedStruct>,
    pub termination: WalkTermination,
}

impl WalkResult {
    /// True when this is the complete walk of `b` under `limit`.
    pub open spec fn is_walk_of(&self, b: Seq<u8>, limit: Option<int>) -> bool {
        let spans = spec_spans(b, 0, limit);
        &&& self.structures@.len() == spans.len()
        &&& forall|i: int| 0 <= i < spans.len() ==> (#[trigger] self.structures@[i]).is_decode_of(
            b.subrange(spans[i].0, spans[i].1),
        )
        &&& self.termination == spec_termination(b, 0, limit)
    }
}

/// Walks the whole table buffer, emitting one decoded structure per span.
/// A `limit`, when given, caps how many structures are read (the 32-bit
/// entry point supplies such a count).
pub fn walk_table(raw: &Vec<u8>, limit: Option<usize>) -> (r: WalkResult)
    ensures
        r.is_walk_of(raw@, spec_limit(limit)),
{
    let ghost gl = spec_limit(limit);
    let ghost full = spec_spans(raw@, 0, gl);
    let mut structures: Vec<UndefinedStruct> = Vec::new();
    let mut p: usize = 0;
    let mut remaining: Option<usize> = limit;
    let mut done: Option<WalkTermination> = None;
    while done.is_none()
        invariant
            0 <= p <= raw@.len(),
            full == spec_spans(raw@, 0, gl),
            full.skip(structures@.len() as int) =~= spec_spans(
                raw@,
                p as int,
                spec_limit(remaining),
            ),
            structures@.len() <= full.len(),
            forall|i: int| 0 <= i < structures@.len() ==> (
            #[trigger] structures@[i]).is_decode_of(raw@.subrange(full[i].0, full[i].1)),
            spec_termination(raw@, 0, gl) == spec_termination(raw@, p as int, spec_limit(remaining)),
            done matches Some(t) ==> t == spec_termination(raw@, p as int, spec_limit(remaining))
                && spec_spans(raw@, p as int, spec_limit(remaining)).len() == 0,
        decreases raw@.len() - p, (if done is None { 1int } else { 0int }),
    {
        let ghost rl = spec_limit(remaining);
        let ghost rest = spec_spans(raw@, p as int, rl);
        let ghost k = structures@.len() as int;
        let at_limit: bool = match remaining {
            Some(n) => n == 0,
            None => false,
        };
        if at_limit {
            done = Some(WalkTermination::CountReached);
        } else if p == raw.len() {
            done = Some(WalkTermination::BufferExhausted);
        } else if raw.len() - p < 4 {
            done = Some(WalkTermination::TruncatedHeader { offset: p });
        } else if raw[p] == END_OF_TABLE {
            done = Some(WalkTermination::EndMarker);
        } else if raw[p + 1] < 4 {
            done = Some(WalkTermination::MalformedLength { offset: p });
        } else if (raw[p + 1] as usize) > raw.len() - p {
            done = Some(WalkTermination::TruncatedStructure { offset: p });
        } else {
            let q: usize = p + raw[p + 1] as usize;
            // scan for the first double null at or after the formatted area
            let mut j: usize = q;
            while raw.len() - j >= 2 && !(raw[j] == 0 && raw[j + 1] == 0)
                invariant
                    q <= j <= raw@.len(),
                    forall|m: int| q <= m < j ==> !(#[trigger] raw@[m] == 0 && raw@[m + 1] == 0),
                decreases raw@.len() - j,
            {
                j = j + 1;
            }
            let e: usize = if raw.len() - j >= 2 { j + 2 } else { raw.len() };
            proof {
                if j + 2 <= raw@.len() {
                    lemma_find_terminator_is(raw@, q as int, j as int);
                } else {
                    lemma_find_terminator_none(raw@, q as int);
                }
                assert(find_terminator(raw@, q as int) == e);
                assert(rest =~= seq![(p as int, e as int)] + spec_spans(
                    raw@,
                    e as int,
                    dec_limit(rl),
                ));
            }
            let span = copy_range(raw, p, e);
            let s = UndefinedStruct::new(&span);
            structures.push(s);
            proof {
                assert(full.skip(k) == rest);
                assert(full.skip(k)[0] == full[k + 0]);
                assert(full[k] == (p as int, e as int));
                assert(full.skip(k + 1) =~= rest.skip(1));
                assert(rest.skip(1) =~= spec_spans(raw@, e as int, dec_limit(rl)));
            }
            p = e;
            remaining = match remaining {
                Some(n) => Some(n - 1),
                None => None,
            };
        }
    }
    let termination = done.unwrap();
    proof {
        assert(full.skip(structures@.len() as int).len() == 0);
        assert(full.len() == structures@.len());
    }
    WalkResult { structures, termination }
}

} // verus!
