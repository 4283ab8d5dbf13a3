//! What holds of the frames of every table: each frame is the span of a run
//! of entries, spans nest along a call path, frames of one depth do not
//! overlap, and the root covers all samples.

use crate::frames::{
    closes, closing, emits, frames_of, frames_of_first, lemma_offset_grows, lemma_split_nonempty,
    run_end, run_start, shares, span_of, stack_at, FrameModel,
};
use crate::stacks::total_count;
use vstd::prelude::*;

verus! {

/// Frame `p` is one level above frame `k` and spans it.
pub open spec fn is_parent(frames: Seq<FrameModel>, p: int, k: int) -> bool {
    &&& 0 <= p < frames.len()
    &&& frames[p].depth + 1 == frames[k].depth
    &&& frames[k].within(frames[p])
}

/// The frames form the picture of a call tree over `total` samples: every
/// frame holds a sample and ends by `total`; of two frames of one depth the
/// earlier in the list ends before the later begins; every frame under depth
/// 0 lies within a frame one level up; and a frame of depth 0 spans
/// everything.
pub open spec fn tree_shaped(frames: Seq<FrameModel>, total: nat) -> bool {
    &&& forall|k: int|
        0 <= k < frames.len() ==> (#[trigger] frames[k]).start < frames[k].end <= total
    &&& forall|a: int, b: int|
        0 <= a < b < frames.len() && (#[trigger] frames[a]).depth == (#[trigger] frames[b]).depth
            ==> frames[a].end <= frames[b].start
    &&& forall|k: int|
        0 <= k < frames.len() && (#[trigger] frames[k]).depth > 0 ==> exists|p: int|
            is_parent(frames, p, k)
    &&& forall|k: int|
        0 <= k < frames.len() && (#[trigger] frames[k]).depth == 0 ==> frames[k].start == 0
            && frames[k].end == total
}

/// The samples of all frames at depth `d`, added up.
pub open spec fn level_span(frames: Seq<FrameModel>, d: nat) -> int
    decreases frames.len(),
{
    if frames.len() == 0 {
        0
    } else {
        level_span(frames.drop_last(), d) + if frames.last().depth == d {
            frames.last().duration()
        } else {
            0
        }
    }
}

/// A run begins at or before the entry it is taken from, ends at or after
/// it, and stays within the table.
pub proof fn lemma_run_bounds(table: Seq<(Seq<char>, u64)>, j: int, d: int)
    requires
        0 <= j < table.len(),
    ensures
        0 <= run_start(table, j, d) <= j,
        j <= run_end(table, j, d) < table.len(),
{
    lemma_run_start_bounds(table, j, d);
    lemma_run_end_bounds(table, j, d);
}

/// A run begins at or before the entry it is taken from.
proof fn lemma_run_start_bounds(table: Seq<(Seq<char>, u64)>, j: int, d: int)
    requires
        0 <= j < table.len(),
    ensures
        0 <= run_start(table, j, d) <= j,
    decreases j,
{
    if j > 0 && shares(stack_at(table, j - 1), stack_at(table, j), d) {
        lemma_run_start_bounds(table, j - 1, d);
    }
}

/// A run ends at or after the entry it is taken from, within the table.
proof fn lemma_run_end_bounds(table: Seq<(Seq<char>, u64)>, j: int, d: int)
    requires
        0 <= j < table.len(),
    ensures
        j <= run_end(table, j, d) < table.len(),
    decreases table.len() - j,
{
    if j + 1 < table.len() && shares(stack_at(table, j), stack_at(table, j + 1), d) {
        lemma_run_end_bounds(table, j + 1, d);
    }
}

/// Every entry from the start of a run to the entry it is taken from passes
/// through the same node.
proof fn lemma_run_shares_back(table: Seq<(Seq<char>, u64)>, j: int, d: int, k: int)
    requires
        0 <= j < table.len(),
        0 <= d < stack_at(table, j).len(),
        run_start(table, j, d) <= k <= j,
    ensures
        shares(stack_at(table, k), stack_at(table, j), d),
        run_start(table, k, d) == run_start(table, j, d),
    decreases j - k,
{
    if k < j {
        assert(shares(stack_at(table, j - 1), stack_at(table, j), d));
        lemma_run_shares_back(table, j - 1, d, k);
    }
}

/// Every entry from the entry a run is taken from to its end passes through
/// the same node.
proof fn lemma_run_shares_on(table: Seq<(Seq<char>, u64)>, j: int, d: int, k: int)
    requires
        0 <= j < table.len(),
        0 <= d < stack_at(table, j).len(),
        j <= k <= run_end(table, j, d),
    ensures
        shares(stack_at(table, k), stack_at(table, j), d),
        run_end(table, k, d) == run_end(table, j, d),
    decreases k - j,
{
    if j < k {
        assert(shares(stack_at(table, j), stack_at(table, j + 1), d));
        lemma_run_shares_on(table, j + 1, d, k);
    }
}

/// What a run is: the entries from its start to its end all pass through
/// the node that entry `j` has at depth `d`, and the entry before its start
/// and the entry after its end, where there are such, do not.
pub proof fn lemma_run_is_unbroken(table: Seq<(Seq<char>, u64)>, j: int, d: int)
    requires
        0 <= j < table.len(),
        0 <= d < stack_at(table, j).len(),
    ensures
        forall|k: int|
            run_start(table, j, d) <= k <= run_end(table, j, d) ==> shares(
                #[trigger] stack_at(table, k),
                stack_at(table, j),
                d,
            ),
        run_start(table, j, d) > 0 ==> !shares(
            stack_at(table, run_start(table, j, d) - 1),
            stack_at(table, j),
            d,
        ),
        run_end(table, j, d) + 1 < table.len() ==> !shares(
            stack_at(table, run_end(table, j, d) + 1),
            stack_at(table, j),
            d,
        ),
{
    let first = run_start(table, j, d);
    let last = run_end(table, j, d);
    lemma_run_bounds(table, j, d);
    assert forall|k: int| first <= k <= last implies shares(
        #[trigger] stack_at(table, k),
        stack_at(table, j),
        d,
    ) by {
        if k <= j {
            lemma_run_shares_back(table, j, d, k);
        } else {
            lemma_run_shares_on(table, j, d, k);
        }
    }
    lemma_run_shares_back(table, j, d, first);
    lemma_run_shares_on(table, j, d, last);
    assert(shares(stack_at(table, first), stack_at(table, j), d));
    assert(shares(stack_at(table, last), stack_at(table, j), d));
    if first > 0 && shares(stack_at(table, first - 1), stack_at(table, j), d) {
        assert(shares(stack_at(table, first - 1), stack_at(table, first), d));
        lemma_run_bounds(table, first - 1, d);
        assert(run_start(table, first, d) == run_start(table, first - 1, d));
        assert(false);
    }
    if last + 1 < table.len() && shares(stack_at(table, last + 1), stack_at(table, j), d) {
        assert(shares(stack_at(table, last), stack_at(table, last + 1), d));
        lemma_run_bounds(table, last + 1, d);
        assert(run_end(table, last, d) == run_end(table, last + 1, d));
        assert(false);
    }
}

/// A run that closes after entry `a` does not reach a later entry `b`.
proof fn lemma_run_start_after_close(table: Seq<(Seq<char>, u64)>, a: int, b: int, d: int)
    requires
        0 <= a < b < table.len(),
        closes(table, a, d),
    ensures
        run_start(table, b, d) > a,
    decreases b,
{
    if b - 1 > a && shares(stack_at(table, b - 1), stack_at(table, b), d) {
        lemma_run_start_after_close(table, a, b - 1, d);
    }
}

/// The run through a deeper node of one call stack begins no earlier than
/// the run through a node above it.
proof fn lemma_run_start_deeper(table: Seq<(Seq<char>, u64)>, j: int, d1: int, d2: int)
    requires
        0 <= j < table.len(),
        0 <= d1 <= d2,
    ensures
        run_start(table, j, d1) <= run_start(table, j, d2),
    decreases j,
{
    if j > 0 && shares(stack_at(table, j - 1), stack_at(table, j), d2) {
        assert(shares(stack_at(table, j - 1), stack_at(table, j), d1));
        lemma_run_start_deeper(table, j - 1, d1, d2);
    } else {
        lemma_run_start_bounds(table, j, d1);
    }
}

/// The run through a deeper node of one call stack ends no later than the
/// run through a node above it.
proof fn lemma_run_end_deeper(table: Seq<(Seq<char>, u64)>, j: int, d1: int, d2: int)
    requires
        0 <= j < table.len(),
        0 <= d1 <= d2,
    ensures
        run_end(table, j, d2) <= run_end(table, j, d1),
    decreases table.len() - j,
{
    if j + 1 < table.len() && shares(stack_at(table, j), stack_at(table, j + 1), d2) {
        assert(shares(stack_at(table, j), stack_at(table, j + 1), d1));
        lemma_run_end_deeper(table, j + 1, d1, d2);
    } else {
        lemma_run_end_bounds(table, j, d1);
    }
}

/// The last entry of a run passes through the same node as every entry of
/// the run, and so has the same span there.
proof fn lemma_same_run(table: Seq<(Seq<char>, u64)>, j: int, d: int)
    requires
        0 <= j < table.len(),
        0 <= d < stack_at(table, j).len(),
    ensures
        ({
            let e = run_end(table, j, d);
            &&& j <= e < table.len()
            &&& d < stack_at(table, e).len()
            &&& closes(table, e, d)
            &&& span_of(table, e, d) == span_of(table, j, d)
        }),
    decreases table.len() - j,
{
    if j + 1 < table.len() && shares(stack_at(table, j), stack_at(table, j + 1), d) {
        lemma_same_run(table, j + 1, d);
        assert(run_start(table, j + 1, d) == run_start(table, j, d));
    } else {
        assert(run_end(table, j, d) == j);
    }
}

/// Every call stack begins with the root, so all entries share depth 0.
proof fn lemma_root_shared(table: Seq<(Seq<char>, u64)>, j: int)
    requires
        0 <= j,
        j + 1 < table.len(),
    ensures
        shares(stack_at(table, j), stack_at(table, j + 1), 0),
{
    lemma_split_nonempty(table[j].0);
    lemma_split_nonempty(table[j + 1].0);
}

/// The run through the root is the whole table.
proof fn lemma_root_run(table: Seq<(Seq<char>, u64)>, j: int)
    requires
        0 <= j < table.len(),
    ensures
        run_start(table, j, 0) == 0,
        run_end(table, j, 0) == table.len() - 1,
{
    lemma_root_run_start(table, j);
    lemma_root_run_end(table, j);
}

/// The run through the root begins with the first entry.
proof fn lemma_root_run_start(table: Seq<(Seq<char>, u64)>, j: int)
    requires
        0 <= j < table.len(),
    ensures
        run_start(table, j, 0) == 0,
    decreases j,
{
    if j > 0 {
        lemma_root_shared(table, j - 1);
        lemma_root_run_start(table, j - 1);
    }
}

/// The run through the root ends with the last entry.
proof fn lemma_root_run_end(table: Seq<(Seq<char>, u64)>, j: int)
    requires
        0 <= j < table.len(),
    ensures
        run_end(table, j, 0) == table.len() - 1,
    decreases table.len() - j,
{
    if j + 1 < table.len() {
        lemma_root_shared(table, j);
        lemma_root_run_end(table, j + 1);
    }
}

/// Each frame that closes after entry `j` is a span of that entry, of a
/// depth under `below`, which closes there and holds a sample.
proof fn lemma_closing_at(table: Seq<(Seq<char>, u64)>, j: int, below: int, x: int)
    requires
        0 <= x < closing(table, j, below).len(),
    ensures
        ({
            let f = closing(table, j, below)[x];
            &&& f.depth < below
            &&& emits(table, j, f.depth as int)
            &&& f == span_of(table, j, f.depth as int)
        }),
    decreases below,
{
    let d = below - 1;
    if emits(table, j, d) {
        if x > 0 {
            lemma_closing_at(table, j, d, x - 1);
        }
    } else {
        assert(closing(table, j, below) =~= closing(table, j, d));
        lemma_closing_at(table, j, d, x);
    }
}

/// The frames that close after one entry stand deepest first.
proof fn lemma_closing_order(table: Seq<(Seq<char>, u64)>, j: int, below: int, x: int, y: int)
    requires
        0 <= x < y < closing(table, j, below).len(),
    ensures
        closing(table, j, below)[x].depth > closing(table, j, below)[y].depth,
    decreases below,
{
    let d = below - 1;
    if emits(table, j, d) {
        if x == 0 {
            lemma_closing_at(table, j, d, y - 1);
        } else {
            lemma_closing_order(table, j, d, x - 1, y - 1);
        }
    } else {
        assert(closing(table, j, below) =~= closing(table, j, d));
        lemma_closing_order(table, j, d, x, y);
    }
}

/// A span that closes after entry `j` with a sample is among the frames
/// that close there: the answer is its place.
proof fn lemma_closing_has(table: Seq<(Seq<char>, u64)>, j: int, below: int, d: int) -> (x: int)
    requires
        0 <= d < below,
        emits(table, j, d),
    ensures
        0 <= x < closing(table, j, below).len(),
        closing(table, j, below)[x] == span_of(table, j, d),
    decreases below,
{
    let top = below - 1;
    if top == d {
        0
    } else {
        let x = lemma_closing_has(table, j, top, d);
        if emits(table, j, top) {
            x + 1
        } else {
            assert(closing(table, j, below) =~= closing(table, j, top));
            x
        }
    }
}

/// The entry after which frame `k` of the first `m` entries closes.
pub open spec fn closer(table: Seq<(Seq<char>, u64)>, m: int, k: int) -> int
    decreases m,
{
    if m <= 0 {
        0
    } else if k < frames_of_first(table, m - 1).len() {
        closer(table, m - 1, k)
    } else {
        m - 1
    }
}

/// Each frame of the first `m` entries is a span of the entry after which
/// it closes.
proof fn lemma_frame_origin(table: Seq<(Seq<char>, u64)>, m: int, k: int)
    requires
        0 <= m <= table.len(),
        0 <= k < frames_of_first(table, m).len(),
    ensures
        ({
            let f = frames_of_first(table, m)[k];
            let j = closer(table, m, k);
            &&& 0 <= j < m
            &&& f.depth < stack_at(table, j).len()
            &&& emits(table, j, f.depth as int)
            &&& f == span_of(table, j, f.depth as int)
        }),
    decreases m,
{
    let prev = frames_of_first(table, m - 1).len() as int;
    if k < prev {
        lemma_frame_origin(table, m - 1, k);
    } else {
        lemma_closing_at(table, m - 1, stack_at(table, m - 1).len() as int, k - prev);
    }
}

/// The frames stand in the order of the entries after which they close,
/// and those of one entry deepest first.
proof fn lemma_frame_order(table: Seq<(Seq<char>, u64)>, m: int, a: int, b: int)
    requires
        0 <= m <= table.len(),
        0 <= a < b < frames_of_first(table, m).len(),
    ensures
        closer(table, m, a) <= closer(table, m, b),
        closer(table, m, a) == closer(table, m, b) ==> frames_of_first(table, m)[a].depth
            > frames_of_first(table, m)[b].depth,
    decreases m,
{
    let prev = frames_of_first(table, m - 1).len() as int;
    if b < prev {
        lemma_frame_order(table, m - 1, a, b);
    } else if a < prev {
        lemma_frame_origin(table, m - 1, a);
    } else {
        lemma_closing_order(
            table,
            m - 1,
            stack_at(table, m - 1).len() as int,
            a - prev,
            b - prev,
        );
    }
}

/// A span that closes after one of the first `m` entries with a sample is
/// among their frames: the answer is its place.
proof fn lemma_frame_present(table: Seq<(Seq<char>, u64)>, m: int, j: int, d: int) -> (k: int)
    requires
        0 <= j < m <= table.len(),
        0 <= d < stack_at(table, j).len(),
        emits(table, j, d),
    ensures
        0 <= k < frames_of_first(table, m).len(),
        frames_of_first(table, m)[k] == span_of(table, j, d),
    decreases m,
{
    if j == m - 1 {
        let x = lemma_closing_has(table, j, stack_at(table, j).len() as int, d);
        frames_of_first(table, m - 1).len() + x
    } else {
        lemma_frame_present(table, m - 1, j, d)
    }
}

/// Every frame is the span that some entry has at some depth of its call
/// stack: the answer names such an entry and depth for frame `k`.
pub proof fn lemma_frame_is_span(table: Seq<(Seq<char>, u64)>, k: int) -> (at: (int, int))
    requires
        0 <= k < frames_of(table).len(),
    ensures
        0 <= at.0 < table.len(),
        0 <= at.1 < stack_at(table, at.0).len(),
        frames_of(table)[k] == span_of(table, at.0, at.1),
        frames_of(table)[k].name == stack_at(table, at.0)[at.1],
{
    lemma_frame_origin(table, table.len() as int, k);
    (closer(table, table.len() as int, k), frames_of(table)[k].depth as int)
}

/// Every span that holds a sample is among the frames: the answer is its
/// place in the list.
pub proof fn lemma_span_is_frame(table: Seq<(Seq<char>, u64)>, j: int, d: int) -> (k: int)
    requires
        0 <= j < table.len(),
        0 <= d < stack_at(table, j).len(),
        span_of(table, j, d).start < span_of(table, j, d).end,
    ensures
        0 <= k < frames_of(table).len(),
        frames_of(table)[k] == span_of(table, j, d),
{
    lemma_same_run(table, j, d);
    lemma_frame_present(table, table.len() as int, run_end(table, j, d), d)
}

/// Containment: along the call stack of one entry, the span at a deeper
/// level lies within the span at every level above it.
pub proof fn lemma_containment(table: Seq<(Seq<char>, u64)>, j: int, outer: int, inner: int)
    requires
        0 <= j < table.len(),
        0 <= outer <= inner < stack_at(table, j).len(),
    ensures
        span_of(table, j, inner).within(span_of(table, j, outer)),
{
    lemma_run_start_deeper(table, j, outer, inner);
    lemma_run_end_deeper(table, j, outer, inner);
    lemma_run_bounds(table, j, outer);
    lemma_run_bounds(table, j, inner);
    lemma_offset_grows(table, run_start(table, j, outer), run_start(table, j, inner));
    lemma_offset_grows(table, run_end(table, j, inner) + 1, run_end(table, j, outer) + 1);
}

/// The frames of every table have the shape of a call tree over the total
/// of its counts.
pub proof fn lemma_frames_tree_shaped(table: Seq<(Seq<char>, u64)>)
    ensures
        tree_shaped(frames_of(table), total_count(table)),
{
    let n = table.len() as int;
    let frames = frames_of(table);
    let total = total_count(table);
    assert forall|k: int| 0 <= k < frames.len() implies (#[trigger] frames[k]).start
        < frames[k].end <= total by {
        lemma_frame_origin(table, n, k);
        let j = closer(table, n, k);
        lemma_offset_grows(table, j + 1, j + 1);
    }
    assert forall|a: int, b: int|
        0 <= a < b < frames.len() && (#[trigger] frames[a]).depth == (
        #[trigger] frames[b]).depth implies frames[a].end <= frames[b].start by {
        lemma_frame_origin(table, n, a);
        lemma_frame_origin(table, n, b);
        lemma_frame_order(table, n, a, b);
        let ja = closer(table, n, a);
        let jb = closer(table, n, b);
        let d = frames[a].depth as int;
        lemma_run_start_after_close(table, ja, jb, d);
        lemma_run_bounds(table, jb, d);
        lemma_offset_grows(table, ja + 1, run_start(table, jb, d));
    }
    assert forall|k: int| 0 <= k < frames.len() && (#[trigger] frames[k]).depth > 0 implies exists|
        p: int,
    |
        is_parent(frames, p, k) by {
        lemma_frame_origin(table, n, k);
        let j = closer(table, n, k);
        let d = frames[k].depth as int;
        lemma_containment(table, j, d - 1, d);
        let p = lemma_span_is_frame(table, j, d - 1);
        assert(is_parent(frames, p, k));
    }
    assert forall|k: int| 0 <= k < frames.len() && (#[trigger] frames[k]).depth == 0 implies
        frames[k].start == 0 && frames[k].end == total by {
        lemma_frame_origin(table, n, k);
        let j = closer(table, n, k);
        lemma_root_run(table, j);
        lemma_offset_grows(table, n, n);
        assert(table.take(0) =~= Seq::<(Seq<char>, u64)>::empty());
    }
}

/// The root spans everything: a table with a sample has, among its frames,
/// the root with its empty name, at depth 0, from 0 to the total. No frame
/// ends later.
pub proof fn lemma_root_spans(table: Seq<(Seq<char>, u64)>) -> (k: int)
    requires
        total_count(table) > 0,
    ensures
        0 <= k < frames_of(table).len(),
        frames_of(table)[k] == (FrameModel {
            name: Seq::empty(),
            depth: 0,
            start: 0,
            end: total_count(table),
        }),
        forall|i: int|
            0 <= i < frames_of(table).len() ==> (#[trigger] frames_of(table)[i]).end
                <= total_count(table),
{
    let n = table.len() as int;
    assert(n > 0) by {
        if n == 0 {
            assert(table =~= Seq::<(Seq<char>, u64)>::empty());
        }
    }
    lemma_frames_tree_shaped(table);
    lemma_root_run(table, n - 1);
    lemma_offset_grows(table, n, n);
    assert(table.take(0) =~= Seq::<(Seq<char>, u64)>::empty());
    lemma_split_nonempty(table[n - 1].0);
    lemma_span_is_frame(table, n - 1, 0)
}

/// Sibling order: of two frames of one depth, the one that stands earlier
/// in the list ends before the other begins. So the frames of a depth never
/// overlap, and they stand in the list in the order of their starts.
pub proof fn lemma_siblings_apart(table: Seq<(Seq<char>, u64)>, a: int, b: int)
    requires
        0 <= a < b < frames_of(table).len(),
        frames_of(table)[a].depth == frames_of(table)[b].depth,
    ensures
        frames_of(table)[a].end <= frames_of(table)[b].start,
        frames_of(table)[a].start < frames_of(table)[b].start,
{
    lemma_frames_tree_shaped(table);
}

/// Where no frame has depth `d`, that level holds no samples.
proof fn lemma_level_span_none(frames: Seq<FrameModel>, d: nat)
    requires
        forall|i: int| 0 <= i < frames.len() ==> (#[trigger] frames[i]).depth != d,
    ensures
        level_span(frames, d) == 0,
    decreases frames.len(),
{
    if frames.len() > 0 {
        let rest = frames.drop_last();
        assert forall|i: int| 0 <= i < rest.len() implies (#[trigger] rest[i]).depth != d by {
            assert(rest[i] == frames[i]);
        }
        lemma_level_span_none(rest, d);
    }
}

/// Where frame `k` alone has depth `d`, that level holds its samples.
proof fn lemma_level_span_single(frames: Seq<FrameModel>, d: nat, k: int)
    requires
        0 <= k < frames.len(),
        frames[k].depth == d,
        forall|i: int| 0 <= i < frames.len() && i != k ==> (#[trigger] frames[i]).depth != d,
    ensures
        level_span(frames, d) == frames[k].duration(),
    decreases frames.len(),
{
    let rest = frames.drop_last();
    if k == frames.len() - 1 {
        assert forall|i: int| 0 <= i < rest.len() implies (#[trigger] rest[i]).depth != d by {
            assert(rest[i] == frames[i]);
        }
        lemma_level_span_none(rest, d);
    } else {
        assert forall|i: int| 0 <= i < rest.len() && i != k implies (#[trigger] rest[i]).depth
            != d by {
            assert(rest[i] == frames[i]);
        }
        assert(rest[k] == frames[k]);
        lemma_level_span_single(rest, d, k);
    }
}

/// Coverage: the frames of depth 0 hold, taken together, as many samples as
/// the counts of the table add up to.
pub proof fn lemma_coverage(table: Seq<(Seq<char>, u64)>)
    ensures
        level_span(frames_of(table), 0) == total_count(table),
{
    let n = table.len() as int;
    let frames = frames_of(table);
    let total = total_count(table);
    lemma_frames_tree_shaped(table);
    if exists|k: int| 0 <= k < frames.len() && (#[trigger] frames[k]).depth == 0 {
        let k = choose|k: int| 0 <= k < frames.len() && (#[trigger] frames[k]).depth == 0;
        assert forall|i: int| 0 <= i < frames.len() && i != k implies (#[trigger] frames[i]).depth
            != 0 by {
            if frames[i].depth == 0 {
                if i < k {
                    assert(frames[i].end <= frames[k].start);
                } else {
                    assert(frames[k].end <= frames[i].start);
                }
            }
        }
        lemma_level_span_single(frames, 0, k);
    } else {
        lemma_level_span_none(frames, 0);
        if total > 0 {
            assert(n > 0) by {
                if n == 0 {
                    assert(table =~= Seq::<(Seq<char>, u64)>::empty());
                }
            }
            lemma_root_run(table, n - 1);
            lemma_offset_grows(table, n, n);
            assert(table.take(0) =~= Seq::<(Seq<char>, u64)>::empty());
            lemma_split_nonempty(table[n - 1].0);
            let k = lemma_span_is_frame(table, n - 1, 0);
            assert(frames[k].depth == 0);
        }
    }
}

} // verus!
