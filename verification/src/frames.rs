//! The interval builder: from sample counts by call path to the frames of a
//! flame graph, each an interval of sample time at a depth of the call tree.

use crate::shape::{lemma_frames_tree_shaped, tree_shaped};
use crate::stacks::{total_count, StackCounts};
use crate::text::texts;
use vstd::prelude::*;

verus! {

/// One bar of the flame graph: a node of the call tree with the span of
/// sample time that ran through it.
#[derive(Debug, Clone, PartialEq, Eq)]
pub struct Frame {
    /// The name of the call-tree node; empty for the root.
    pub name: String,
    /// The distance from the root, which has depth 0.
    pub depth: usize,
    /// Where the span begins, in sample time.
    pub start: u64,
    /// Where the span ends, in sample time.
    pub end: u64,
}

/// What a `Frame` stands for.
pub struct FrameModel {
    pub name: Seq<char>,
    pub depth: nat,
    pub start: nat,
    pub end: nat,
}

impl View for Frame {
    type V = FrameModel;

    open spec fn view(&self) -> FrameModel {
        FrameModel {
            name: self.name@,
            depth: self.depth as nat,
            start: self.start as nat,
            end: self.end as nat,
        }
    }
}

impl FrameModel {
    /// The number of samples in the span.
    pub open spec fn duration(self) -> int {
        self.end - self.start
    }

    /// The span of `self` lies within the span of `outer`.
    pub open spec fn within(self, outer: FrameModel) -> bool {
        outer.start <= self.start && self.end <= outer.end
    }
}

/// What a list of frames stands for.
pub open spec fn models(frames: Seq<Frame>) -> Seq<FrameModel> {
    Seq::new(frames.len(), |i: int| frames[i]@)
}

/// The names that a path joins with `;`, in order. A path without `;` is one
/// name, and the empty path is one empty name.
pub open spec fn split_path(path: Seq<char>) -> Seq<Seq<char>>
    decreases path.len(),
{
    if path.len() == 0 {
        seq![Seq::<char>::empty()]
    } else {
        let head = split_path(path.drop_last());
        if path.last() == ';' {
            head.push(Seq::<char>::empty())
        } else {
            head.drop_last().push(head.last().push(path.last()))
        }
    }
}

/// The call stack of a path: the root, whose name is empty, and then the
/// names of the path.
pub open spec fn stack_of(path: Seq<char>) -> Seq<Seq<char>> {
    seq![Seq::<char>::empty()] + split_path(path)
}

/// Every path has at least one name.
pub proof fn lemma_split_nonempty(path: Seq<char>)
    ensures
        split_path(path).len() >= 1,
    decreases path.len(),
{
    if path.len() > 0 {
        lemma_split_nonempty(path.drop_last());
    }
}

/// The names joined by `;` into one path.
pub open spec fn joined(names: Seq<Seq<char>>) -> Seq<char>
    decreases names.len(),
{
    if names.len() == 0 {
        Seq::empty()
    } else if names.len() == 1 {
        names[0]
    } else {
        joined(names.drop_last()) + seq![';'] + names.last()
    }
}

/// Splitting undoes joining: the names of a path hold no `;`, and joined by
/// `;` they give the path again.
pub proof fn lemma_split_joins(path: Seq<char>)
    ensures
        joined(split_path(path)) == path,
        forall|i: int, k: int|
            0 <= i < split_path(path).len() && 0 <= k < split_path(path)[i].len()
                ==> split_path(path)[i][k] != ';',
    decreases path.len(),
{
    let names = split_path(path);
    if path.len() == 0 {
        assert(joined(names) =~= path);
    } else {
        let before = path.drop_last();
        let head = split_path(before);
        let c = path.last();
        lemma_split_joins(before);
        lemma_split_nonempty(before);
        assert(path =~= before.push(c));
        if c == ';' {
            assert(names.drop_last() =~= head);
            assert(joined(names) =~= joined(head) + seq![';']);
            assert(joined(names) =~= path);
            assert forall|i: int, k: int|
                0 <= i < names.len() && 0 <= k < names[i].len() implies names[i][k] != ';' by {
                if i < head.len() {
                    assert(names[i] == head[i]);
                }
            }
        } else {
            let last = head.last().push(c);
            assert(names.last() == last);
            if head.len() == 1 {
                assert(joined(head) == head[0]);
                assert(joined(names) =~= joined(head).push(c));
            } else {
                assert(names.drop_last() =~= head.drop_last());
                assert(joined(names) =~= joined(head.drop_last()) + seq![';'] + last);
                assert(joined(head) =~= joined(head.drop_last()) + seq![';'] + head.last());
                assert(joined(names) =~= joined(head).push(c));
            }
            assert(joined(names) =~= path);
            assert forall|i: int, k: int|
                0 <= i < names.len() && 0 <= k < names[i].len() implies names[i][k] != ';' by {
                if i < head.len() - 1 {
                    assert(names[i] == head[i]);
                } else if k < head.last().len() {
                    assert(names[i][k] == head[head.len() - 1][k]);
                }
            }
        }
    }
}

/// The call stack of entry `j` of a table.
pub open spec fn stack_at(table: Seq<(Seq<char>, u64)>, j: int) -> Seq<Seq<char>> {
    stack_of(table[j].0)
}

/// The sample time at which entry `j` begins: the counts of the entries
/// before it, added up.
pub open spec fn offset(table: Seq<(Seq<char>, u64)>, j: int) -> nat {
    total_count(table.take(j))
}

/// Two call stacks run through the same node at depth `d`: both reach that
/// depth, and they name the same frames down to it.
pub open spec fn shares(a: Seq<Seq<char>>, b: Seq<Seq<char>>, d: int) -> bool {
    &&& 0 <= d < a.len()
    &&& d < b.len()
    &&& forall|k: int| 0 <= k <= d ==> a[k] == b[k]
}

/// The first entry of the unbroken run of entries that pass through the node
/// which entry `j` has at depth `d`.
pub open spec fn run_start(table: Seq<(Seq<char>, u64)>, j: int, d: int) -> int
    decreases j,
{
    if j > 0 && shares(stack_at(table, j - 1), stack_at(table, j), d) {
        run_start(table, j - 1, d)
    } else {
        j
    }
}

/// The last entry of the unbroken run of entries that pass through the node
/// which entry `j` has at depth `d`.
pub open spec fn run_end(table: Seq<(Seq<char>, u64)>, j: int, d: int) -> int
    decreases table.len() - j,
{
    if 0 <= j && j + 1 < table.len() && shares(stack_at(table, j), stack_at(table, j + 1), d) {
        run_end(table, j + 1, d)
    } else {
        j
    }
}

/// Entry `j` is the last of its run at depth `d`: the node closes after it.
pub open spec fn closes(table: Seq<(Seq<char>, u64)>, j: int, d: int) -> bool {
    !(j + 1 < table.len() && shares(stack_at(table, j), stack_at(table, j + 1), d))
}

/// The frame of the node that entry `j` has at depth `d`: it spans the
/// sample time of the whole run of entries that pass through that node.
pub open spec fn span_of(table: Seq<(Seq<char>, u64)>, j: int, d: int) -> FrameModel {
    FrameModel {
        name: stack_at(table, j)[d],
        depth: d as nat,
        start: offset(table, run_start(table, j, d)),
        end: offset(table, run_end(table, j, d) + 1),
    }
}

/// The node that entry `j` has at depth `d` closes after entry `j` and has
/// run for at least one sample, so it becomes a frame.
pub open spec fn emits(table: Seq<(Seq<char>, u64)>, j: int, d: int) -> bool {
    closes(table, j, d) && span_of(table, j, d).start < span_of(table, j, d).end
}

/// The frames that close after entry `j` at depths under `below`, the deepest
/// first. A node without samples gives no frame.
pub open spec fn closing(table: Seq<(Seq<char>, u64)>, j: int, below: int) -> Seq<FrameModel>
    decreases below,
{
    if below <= 0 {
        Seq::empty()
    } else {
        let d = below - 1;
        let head = if emits(table, j, d) {
            seq![span_of(table, j, d)]
        } else {
            Seq::empty()
        };
        head + closing(table, j, d)
    }
}

/// The frames that close after one of the first `n` entries, in the order
/// in which they close.
pub open spec fn frames_of_first(table: Seq<(Seq<char>, u64)>, n: int) -> Seq<FrameModel>
    decreases n,
{
    if n <= 0 {
        Seq::empty()
    } else {
        frames_of_first(table, n - 1) + closing(
            table,
            n - 1,
            stack_at(table, n - 1).len() as int,
        )
    }
}

/// All frames of a table: one for each node of the call tree and each
/// unbroken run of entries through it that holds a sample.
pub open spec fn frames_of(table: Seq<(Seq<char>, u64)>) -> Seq<FrameModel> {
    frames_of_first(table, table.len() as int)
}

/// The greatest depth among the frames; 0 where there is none.
pub open spec fn deepest(frames: Seq<FrameModel>) -> nat
    decreases frames.len(),
{
    if frames.len() == 0 {
        0
    } else {
        let rest = deepest(frames.drop_last());
        if frames.last().depth > rest {
            frames.last().depth
        } else {
            rest
        }
    }
}

/// The time at which an entry begins is no later than that at which a later
/// one begins, and none is later than the total.
pub proof fn lemma_offset_grows(table: Seq<(Seq<char>, u64)>, i: int, j: int)
    requires
        0 <= i <= j <= table.len(),
    ensures
        offset(table, i) <= offset(table, j),
        offset(table, j) <= total_count(table),
        offset(table, table.len() as int) == total_count(table),
        j < table.len() ==> offset(table, j + 1) == offset(table, j) + table[j].1,
    decreases table.len() - i,
{
    assert(table.take(table.len() as int) =~= table);
    if j < table.len() {
        assert(table.take(j + 1).drop_last() =~= table.take(j));
        lemma_offset_grows(table, j + 1, table.len() as int);
    }
    if i < j {
        assert(table.take(i + 1).drop_last() =~= table.take(i));
        lemma_offset_grows(table, i + 1, j);
    }
}

/// Splits a path into its call stack, root first.
pub fn call_stack(path: &Vec<char>) -> (names: Vec<String>)
    ensures
        texts(names@) == stack_of(path@),
{
    let mut names: Vec<String> = Vec::new();
    names.push(String::new());
    let mut name = String::new();
    let mut i: usize = 0;
    proof {
        assert(path@.take(0) =~= Seq::<char>::empty());
        assert(texts(names@).push(name@) =~= stack_of(path@.take(0)));
    }
    while i < path.len()
        invariant
            i <= path.len(),
            texts(names@).push(name@) == stack_of(path@.take(i as int)),
        decreases path.len() - i,
    {
        let c = path[i];
        proof {
            let before = path@.take(i as int);
            let now = path@.take(i + 1);
            assert(now.drop_last() =~= before);
            assert(now.last() == c);
            lemma_split_nonempty(before);
            let head = split_path(before);
            assert(stack_of(before).last() == head.last());
            let root = seq![Seq::<char>::empty()];
            assert(texts(names@) =~= texts(names@).push(name@).drop_last());
            assert((root + head).drop_last() =~= root + head.drop_last());
            assert(texts(names@) == root + head.drop_last());
            if c == ';' {
                assert(texts(names@.push(name)) =~= texts(names@).push(name@));
                assert((root + head).push(Seq::<char>::empty()) =~= root + head.push(
                    Seq::<char>::empty(),
                ));
                assert(texts(names@.push(name)).push(Seq::<char>::empty()) =~= stack_of(now));
            } else {
                assert((root + head.drop_last()).push(head.last().push(c)) =~= root
                    + head.drop_last().push(head.last().push(c)));
                assert(texts(names@).push(name@.push(c)) =~= stack_of(now));
            }
        }
        if c == ';' {
            names.push(name);
            name = String::new();
        } else {
            name.push(c);
        }
        i += 1;
    }
    proof {
        assert(path@.take(i as int) =~= path@);
        assert(texts(names@.push(name)) =~= texts(names@).push(name@));
    }
    names.push(name);
    names
}

/// The number of leading names that two call stacks have in common.
pub fn shared_depth(a: &Vec<String>, b: &Vec<String>) -> (n: usize)
    ensures
        n <= a.len(),
        n <= b.len(),
        forall|d: int| 0 <= d < n ==> shares(texts(a@), texts(b@), d),
        forall|d: int| n <= d ==> !shares(texts(a@), texts(b@), d),
{
    let mut n: usize = 0;
    while n < a.len() && n < b.len() && a[n] == b[n]
        invariant
            n <= a.len(),
            n <= b.len(),
            forall|k: int| 0 <= k < n ==> texts(a@)[k] == texts(b@)[k],
        decreases a.len() - n,
    {
        n += 1;
    }
    proof {
        assert forall|d: int| n <= d implies !shares(texts(a@), texts(b@), d) by {
            if shares(texts(a@), texts(b@), d) {
                assert(texts(a@)[n as int] == texts(b@)[n as int]);
            }
        }
    }
    n
}

/// Where no node under `below` closes after entry `j`, no frame does.
proof fn lemma_closing_none(table: Seq<(Seq<char>, u64)>, j: int, below: int)
    requires
        forall|d: int| 0 <= d < below ==> !closes(table, j, d),
    ensures
        closing(table, j, below) == Seq::<FrameModel>::empty(),
    decreases below,
{
    if below > 0 {
        lemma_closing_none(table, j, below - 1);
        assert(closing(table, j, below) =~= Seq::<FrameModel>::empty());
    }
}

/// The greatest depth after one more frame.
proof fn lemma_deepest_push(frames: Seq<FrameModel>, f: FrameModel)
    ensures
        deepest(frames.push(f)) == if f.depth > deepest(frames) {
            f.depth
        } else {
            deepest(frames)
        },
{
    assert(frames.push(f).drop_last() =~= frames);
}

/// Closes the nodes that the call stack `last` of entry `j` holds open at
/// depths from `keep` on, the deepest first, at the time `time`.
fn close_frames(
    frames: &mut Vec<Frame>,
    depth_max: &mut usize,
    last: &Vec<String>,
    open: &Vec<u64>,
    keep: usize,
    time: u64,
    Ghost(table): Ghost<Seq<(Seq<char>, u64)>>,
    Ghost(j): Ghost<int>,
)
    requires
        0 <= j < table.len(),
        texts(last@) == stack_at(table, j),
        open@.len() == last@.len(),
        forall|d: int| 0 <= d < open@.len() ==> open@[d] == offset(table, run_start(table, j, d)),
        keep <= last@.len(),
        time == offset(table, j + 1),
        forall|d: int| keep <= d < last@.len() ==> closes(table, j, d),
        forall|d: int| 0 <= d < keep ==> !closes(table, j, d),
        models(old(frames)@) == frames_of_first(table, j),
        *old(depth_max) == deepest(models(old(frames)@)),
    ensures
        models(final(frames)@) == frames_of_first(table, j + 1),
        *final(depth_max) == deepest(models(final(frames)@)),
{
    let ghost whole = frames_of_first(table, j + 1);
    let mut i: usize = last.len();
    proof {
        assert(stack_at(table, j).len() == last@.len());
    }
    while i > keep
        invariant
            0 <= j < table.len(),
            keep <= i <= last@.len(),
            texts(last@) == stack_at(table, j),
            open@.len() == last@.len(),
            forall|d: int|
                0 <= d < open@.len() ==> open@[d] == offset(table, run_start(table, j, d)),
            time == offset(table, j + 1),
            forall|d: int| keep <= d < last@.len() ==> closes(table, j, d),
            models(frames@) + closing(table, j, i as int) == whole,
            *depth_max == deepest(models(frames@)),
        decreases i,
    {
        i -= 1;
        let start = open[i];
        let ghost span = span_of(table, j, i as int);
        let ghost before = models(frames@);
        proof {
            assert(closes(table, j, i as int));
            assert(run_end(table, j, i as int) == j);
            assert(span.start == start);
            assert(span.end == time);
            assert(span.name == texts(last@)[i as int]);
        }
        if time > start {
            let frame = Frame { name: last[i].clone(), depth: i, start, end: time };
            proof {
                assert(frame@ == span);
                lemma_deepest_push(before, span);
                assert(models(frames@.push(frame)) =~= before.push(span));
                assert(before.push(span) + closing(table, j, i as int) =~= before + (seq![span]
                    + closing(table, j, i as int)));
            }
            frames.push(frame);
            if i > *depth_max {
                *depth_max = i;
            }
        } else {
            proof {
                assert(Seq::<FrameModel>::empty() + closing(table, j, i as int) =~= closing(
                    table,
                    j,
                    i as int,
                ));
            }
        }
    }
    proof {
        lemma_closing_none(table, j, keep as int);
        assert(models(frames@) + Seq::<FrameModel>::empty() =~= models(frames@));
    }
}

/// Builds the frames of a flame graph from sample counts by call path.
///
/// The entries are read in the order of their paths, each with the root put
/// before its names. A node of the call tree stays open as long as the
/// entries that follow pass through it, and closes with the first that does
/// not; it then becomes a frame that spans the samples counted while it was
/// open. Nodes without a sample give no frame. The answer holds the frames
/// in the order in which they close, the total number of samples, and the
/// greatest depth among the frames.
///
/// The open nodes are always those of the call stack read last, one at each
/// depth. So the table of open nodes is kept by depth: `open[d]` is the time
/// at which the node of name `last[d]` and depth `d` was opened.
pub fn process_stacks(stacks: &StackCounts) -> (out: (Vec<Frame>, u64, usize))
    requires
        stacks.wf(),
    ensures
        models(out.0@) == frames_of(stacks@),
        out.1 == total_count(stacks@),
        out.2 == deepest(frames_of(stacks@)),
        tree_shaped(models(out.0@), out.1 as nat),
{
    let n = stacks.len();
    let ghost table = stacks@;
    proof {
        stacks.lemma_wf();
        assert(table.take(0) =~= Seq::<(Seq<char>, u64)>::empty());
    }
    let mut frames: Vec<Frame> = Vec::new();
    let mut last: Vec<String> = Vec::new();
    let mut open: Vec<u64> = Vec::new();
    let mut time: u64 = 0;
    let mut depth_max: usize = 0;
    let mut j: usize = 0;
    proof {
        assert(models(frames@) =~= frames_of_first(table, -1));
    }
    while j < n
        invariant
            n == table.len(),
            table == stacks@,
            total_count(table) <= u64::MAX,
            j <= n,
            time == offset(table, j as int),
            models(frames@) == frames_of_first(table, j - 1),
            depth_max == deepest(models(frames@)),
            j == 0 ==> last@.len() == 0,
            j > 0 ==> texts(last@) == stack_at(table, j - 1),
            open@.len() == last@.len(),
            j > 0 ==> forall|d: int|
                0 <= d < open@.len() ==> open@[d] == offset(table, run_start(table, j - 1, d)),
        decreases n - j,
    {
        let this = call_stack(stacks.path_at(j));
        let keep = shared_depth(&last, &this);
        assert(texts(this@) == stack_at(table, j as int));
        if j > 0 {
            close_frames(
                &mut frames,
                &mut depth_max,
                &last,
                &open,
                keep,
                time,
                Ghost(table),
                Ghost(j - 1),
            );
        }
        open.truncate(keep);
        let mut d: usize = keep;
        while d < this.len()
            invariant
                j < n,
                n == table.len(),
                keep <= d <= this@.len(),
                open@.len() == d,
                texts(this@) == stack_at(table, j as int),
                time == offset(table, j as int),
                forall|k: int| keep <= k ==> !shares(texts(last@), texts(this@), k),
                j > 0 ==> texts(last@) == stack_at(table, j - 1),
                forall|k: int|
                    0 <= k < d ==> open@[k] == offset(table, run_start(table, j as int, k)),
            decreases this@.len() - d,
        {
            open.push(time);
            d += 1;
        }
        proof {
            lemma_offset_grows(table, j as int, j as int);
            lemma_offset_grows(table, j + 1, j + 1);
        }
        time = time + stacks.count_at(j);
        last = this;
        j += 1;
    }
    proof {
        lemma_offset_grows(table, n as int, n as int);
        lemma_frames_tree_shaped(table);
    }
    if n > 0 {
        close_frames(
            &mut frames,
            &mut depth_max,
            &last,
            &open,
            0,
            time,
            Ghost(table),
            Ghost(n - 1),
        );
    }
    (frames, time, depth_max)
}

} // verus!
