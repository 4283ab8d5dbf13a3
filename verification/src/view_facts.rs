//! What holds of every view: actions leave the frames alone, going back to
//! the first view undoes everything, leaving a zoom undoes the zoom, and
//! while subtrees are hidden the children of a frame fill its width.

use crate::frames::FrameModel;
use crate::shape::{is_parent, tree_shaped};
use crate::view::{
    covers, dressed, earlier, first_holder, group_total, handle, holds_slot, is_hidden,
    laid_placement, lead_total, lemma_group_total_bound, nothing_hidden, parent_of, ActionModel,
    HiddenStack, Placement, ViewState,
};
use vstd::prelude::*;

verus! {

/// No action changes the frames or their total.
pub proof fn lemma_step_keeps_frames(s: ViewState, action: ActionModel)
    ensures
        s.step(action).frames == s.frames,
        s.step(action).total == s.total,
{
}

/// No run of actions changes the frames or their total.
pub proof fn lemma_run_keeps_frames(s: ViewState, actions: Seq<ActionModel>)
    ensures
        s.run(actions).frames == s.frames,
        s.run(actions).total == s.total,
    decreases actions.len(),
{
    if actions.len() > 0 {
        lemma_run_keeps_frames(s, actions.drop_last());
        lemma_step_keeps_frames(s.run(actions.drop_last()), actions.last());
    }
}

/// The hidden subtrees only grow, but for the two actions that show them
/// all again.
pub proof fn lemma_hidden_grows(s: ViewState, action: ActionModel)
    requires
        !(action is ResetHidden),
        !(action is ResetAll),
    ensures
        s.hidden.subset_of(s.step(action).hidden),
{
}

/// A state that is in order stays in order under every action.
pub proof fn lemma_step_keeps_order(s: ViewState, action: ActionModel)
    requires
        s.wf(),
    ensures
        s.step(action).wf(),
{
}

/// Going back to the first view after any run of hiding, zooming and
/// searching gives the very state in which the view began.
pub proof fn lemma_reset_all_restores(
    frames: Seq<FrameModel>,
    total: nat,
    actions: Seq<ActionModel>,
)
    ensures
        ViewState::initial(frames, total).run(actions).reset_all() == ViewState::initial(
            frames,
            total,
        ),
{
    lemma_run_keeps_frames(ViewState::initial(frames, total), actions);
}

/// A search moves nothing: taking one up or ending it leaves every row
/// where it is, on the chart or off it.
pub proof fn lemma_search_moves_nothing(
    s: ViewState,
    pattern: Seq<char>,
    outcome: Option<Seq<bool>>,
    i: int,
)
    requires
        s.wf(),
        0 <= i < s.frames.len(),
    ensures
        s.set_search(pattern, outcome).rows[i].placement == s.rows[i].placement,
        s.set_search(pattern, outcome).rows[i].visible == s.rows[i].visible,
        s.clear_search().rows[i].placement == s.rows[i].placement,
        s.clear_search().rows[i].visible == s.rows[i].visible,
        s.set_search(pattern, outcome).hidden == s.hidden,
        s.set_search(pattern, outcome).zoom == s.zoom,
{
}

/// Among the frames of a call tree, no two have the same span at the same
/// depth: its span and its depth name a frame.
pub proof fn lemma_handles_differ(frames: Seq<FrameModel>, total: nat, a: int, b: int)
    requires
        tree_shaped(frames, total),
        total <= u64::MAX,
        0 <= a < frames.len(),
        0 <= b < frames.len(),
        frames[a].depth <= usize::MAX,
        frames[b].depth <= usize::MAX,
        a != b,
    ensures
        handle(frames[a]) != handle(frames[b]),
{
    assert(frames[a].start < frames[a].end <= total);
    assert(frames[b].start < frames[b].end <= total);
    if frames[a].depth == frames[b].depth {
        if a < b {
            assert(frames[a].end <= frames[b].start);
        } else {
            assert(frames[b].end <= frames[a].start);
        }
    }
}

/// The layout of the state is the one that making it anew would give.
pub open spec fn settled(s: ViewState) -> bool {
    s.rows == s.laid_rows()
}

/// A row dressed at some place stands at that place.
proof fn lemma_dressed_place(s: ViewState, i: int, placement: Placement)
    ensures
        dressed(s.frames, s.zoom, s.search, i, placement).placement == placement,
{
}

/// Every action leaves a state without zoom settled, if it was settled
/// before or had a zoom on.
proof fn lemma_step_settles(s: ViewState, action: ActionModel)
    requires
        s.wf(),
        s.zoom is None ==> settled(s),
    ensures
        s.step(action).zoom is None ==> settled(s.step(action)),
{
    let after = s.step(action);
    if after.zoom is None {
        match action {
            ActionModel::SetSearch(pattern, outcome) => {
                if after != s {
                    assert forall|i: int| 0 <= i < after.rows.len() implies after.rows[i]
                        == after.laid_rows()[i] by {
                        lemma_dressed_place(
                            s,
                            i,
                            laid_placement(s.frames, s.total, s.hidden, i),
                        );
                    }
                    assert(after.rows =~= after.laid_rows());
                }
            },
            ActionModel::ClearSearch => {
                assert forall|i: int| 0 <= i < after.rows.len() implies after.rows[i]
                    == after.laid_rows()[i] by {
                    lemma_dressed_place(s, i, laid_placement(s.frames, s.total, s.hidden, i));
                }
                assert(after.rows =~= after.laid_rows());
            },
            ActionModel::ZoomTo(t) => {},
            ActionModel::Hide(i) => {
                if 0 <= i < s.frames.len() {
                    assert(after.rows =~= after.laid_rows());
                }
            },
            ActionModel::ResetHidden => {
                assert(after.rows =~= after.laid_rows());
            },
            ActionModel::Recompute => {
                assert(after.rows =~= after.laid_rows());
            },
            ActionModel::ResetZoom => {
                assert(after.rows =~= after.laid_rows());
            },
            ActionModel::ResetAll => {
                assert(after.rows =~= after.laid_rows());
            },
        }
    }
}

/// The first view is in order where its frames can be shown.
pub proof fn lemma_initial_in_order(frames: Seq<FrameModel>, total: nat)
    requires
        total <= u64::MAX,
        frames.len() <= usize::MAX,
        forall|k: int|
            0 <= k < frames.len() ==> {
                &&& (#[trigger] frames[k]).start < frames[k].end <= total
                &&& frames[k].depth <= usize::MAX
            },
    ensures
        ViewState::initial(frames, total).wf(),
        settled(ViewState::initial(frames, total)),
{
    let first = ViewState::initial(frames, total);
    assert(first.rows =~= first.laid_rows());
}

/// After any run of actions from the first view, a state without zoom is
/// settled: its layout goes by the hidden subtrees alone.
pub proof fn lemma_unzoomed_is_settled(
    frames: Seq<FrameModel>,
    total: nat,
    actions: Seq<ActionModel>,
)
    requires
        ViewState::initial(frames, total).wf(),
    ensures
        ViewState::initial(frames, total).run(actions).wf(),
        ViewState::initial(frames, total).run(actions).zoom is None ==> settled(
            ViewState::initial(frames, total).run(actions),
        ),
    decreases actions.len(),
{
    let first = ViewState::initial(frames, total);
    if actions.len() == 0 {
        assert(first.rows =~= first.laid_rows());
    } else {
        lemma_unzoomed_is_settled(frames, total, actions.drop_last());
        let before = first.run(actions.drop_last());
        lemma_step_keeps_order(before, actions.last());
        lemma_step_settles(before, actions.last());
    }
}

/// Zooming into a frame and leaving the zoom at once gives back the state
/// from before the zoom, where that state had no zoom on and was settled.
pub proof fn lemma_zoom_round_trip(s: ViewState, t: int)
    requires
        s.wf(),
        s.zoom is None,
        settled(s),
    ensures
        s.zoom_to(t).reset_zoom() == s,
{
    let back = s.zoom_to(t).reset_zoom();
    assert(back.rows =~= s.rows);
}

/// Where a frame can hold frame `i`, a first such frame is found.
proof fn lemma_holder_found(
    frames: Seq<FrameModel>,
    hidden: Set<HiddenStack>,
    i: int,
    p: int,
    upto: int,
)
    requires
        0 <= p < upto,
        holds_slot(frames, hidden, p, i),
    ensures
        first_holder(frames, hidden, i, upto) is Some,
    decreases upto,
{
    if p < upto - 1 {
        lemma_holder_found(frames, hidden, i, p, upto - 1);
    }
}

/// The first holder of a frame, where there is one, is a frame that can
/// hold it.
pub proof fn lemma_first_holder_holds(
    frames: Seq<FrameModel>,
    hidden: Set<HiddenStack>,
    i: int,
    upto: int,
)
    requires
        first_holder(frames, hidden, i, upto) is Some,
    ensures
        0 <= first_holder(frames, hidden, i, upto)->0 < upto,
        holds_slot(frames, hidden, first_holder(frames, hidden, i, upto)->0, i),
    decreases upto,
{
    if upto > 0 && first_holder(frames, hidden, i, upto - 1) is Some {
        lemma_first_holder_holds(frames, hidden, i, upto - 1);
    }
}

/// Among the frames of a call tree, a frame that is not hidden always finds
/// its parent: the frame one level up that spans it is not hidden either.
pub proof fn lemma_no_orphans(frames: Seq<FrameModel>, total: nat, hidden: Set<HiddenStack>, i: int)
    requires
        tree_shaped(frames, total),
        0 <= i < frames.len(),
        !is_hidden(frames[i], hidden),
        frames[i].depth > 0,
    ensures
        parent_of(frames, hidden, i) is Some,
{
    let p = choose|p: int| is_parent(frames, p, i);
    if is_hidden(frames[p], hidden) {
        let h = choose|h: HiddenStack| hidden.contains(h) && covers(h, frames[p]);
        assert(covers(h, frames[i]));
    }
    assert(holds_slot(frames, hidden, p, i));
    lemma_holder_found(frames, hidden, i, p, frames.len() as int);
}

/// Among the frames of a call tree, only one frame can hold a given frame.
pub proof fn lemma_one_holder(
    frames: Seq<FrameModel>,
    total: nat,
    hidden: Set<HiddenStack>,
    i: int,
    p: int,
    q: int,
)
    requires
        tree_shaped(frames, total),
        0 <= i < frames.len(),
        holds_slot(frames, hidden, p, i),
        holds_slot(frames, hidden, q, i),
    ensures
        p == q,
{
    assert(frames[i].start < frames[i].end);
    if p < q {
        assert(frames[p].end <= frames[q].start);
    } else if q < p {
        assert(frames[q].end <= frames[p].start);
    }
}

/// The present width of frame `i` as a fraction of the chart: numerator and
/// denominator. A frame placed within its parent has its share of the
/// parent's present width.
pub open spec fn width_of(s: ViewState, i: int) -> (int, int)
    decreases s.frames[i].depth,
{
    match s.rows[i].placement {
        Placement::Off => (0, 1),
        Placement::Fixed { left, width } => (width.num as int, width.den as int),
        Placement::Share { parent, before, share, group } => {
            if 0 <= parent < s.frames.len() && s.frames[parent as int].depth < s.frames[i].depth {
                let w = width_of(s, parent as int);
                (w.0 * share, w.1 * group)
            } else {
                (0, 1)
            }
        },
    }
}

/// Frame `c` is placed within frame `p`.
pub open spec fn is_child(s: ViewState, c: int, p: int) -> bool {
    &&& 0 <= c < s.frames.len()
    &&& s.rows[c].placement is Share
    &&& s.rows[c].placement->parent == p
}

/// The numerators of the present widths of the children of frame `p` among
/// the frames before `upto`, added up. The widths of the children of one
/// frame all have the same denominator.
pub open spec fn children_width(s: ViewState, p: int, upto: int) -> int
    decreases upto,
{
    if upto <= 0 {
        0
    } else {
        children_width(s, p, upto - 1) + if is_child(s, upto - 1, p) {
            width_of(s, upto - 1).0
        } else {
            0
        }
    }
}

/// In a settled state with something hidden, the rows placed within frame
/// `p` are those of the frames whose parent is `p`, each with its own
/// samples as its share and the samples of all of them as the group.
pub proof fn lemma_child_row(s: ViewState, c: int, p: int)
    requires
        s.wf(),
        settled(s),
        !nothing_hidden(s.hidden),
        0 <= c < s.frames.len(),
        0 <= p,
    ensures
        is_child(s, c, p) == (parent_of(s.frames, s.hidden, c) == Some(p)),
        is_child(s, c, p) ==> {
            &&& p < s.frames.len()
            &&& s.frames[p].depth + 1 == s.frames[c].depth
            &&& s.rows[c].placement->share == s.frames[c].duration()
            &&& s.rows[c].placement->group == group_total(
                s.frames,
                s.hidden,
                p,
                s.frames.len() as int,
            )
            &&& s.rows[c].placement->group >= s.frames[c].duration() > 0
        },
{
    let n = s.frames.len() as int;
    assert(s.rows[c] == s.laid_rows()[c]);
    lemma_group_total_bound(s.frames, s.hidden, p, c, n);
    if parent_of(s.frames, s.hidden, c) is Some {
        let q = parent_of(s.frames, s.hidden, c)->0;
        lemma_first_holder_holds(s.frames, s.hidden, c, n);
        lemma_group_total_bound(s.frames, s.hidden, q, c, n);
        lemma_group_holds_child(s.frames, s.hidden, q, c, n);
        assert(n * u64::MAX <= usize::MAX * u64::MAX) by (nonlinear_arith)
            requires
                0 <= n <= usize::MAX,
        ;
        assert(usize::MAX * u64::MAX <= u64::MAX * u64::MAX) by (nonlinear_arith)
            requires
                usize::MAX <= u64::MAX,
        ;
    }
}

/// The group of a frame holds the samples of each of its children.
proof fn lemma_group_holds_child(
    frames: Seq<FrameModel>,
    hidden: Set<HiddenStack>,
    p: int,
    c: int,
    upto: int,
)
    requires
        0 <= c < upto <= frames.len(),
        parent_of(frames, hidden, c) == Some(p),
        forall|k: int|
            0 <= k < frames.len() ==> (#[trigger] frames[k]).start < frames[k].end,
    ensures
        group_total(frames, hidden, p, upto) >= frames[c].duration(),
    decreases upto,
{
    if c < upto - 1 {
        lemma_group_holds_child(frames, hidden, p, c, upto - 1);
        assert(frames[upto - 1].start < frames[upto - 1].end);
    } else {
        assert(group_total(frames, hidden, p, upto - 1) >= 0);
    }
}

/// The numerators of the widths of the children of frame `p` before `upto`
/// add up to the frame's own numerator times their samples.
proof fn lemma_children_width_upto(s: ViewState, p: int, upto: int)
    requires
        s.wf(),
        settled(s),
        !nothing_hidden(s.hidden),
        0 <= p < s.frames.len(),
        0 <= upto <= s.frames.len(),
    ensures
        children_width(s, p, upto) == width_of(s, p).0 * group_total(
            s.frames,
            s.hidden,
            p,
            upto,
        ),
    decreases upto,
{
    if upto > 0 {
        let c = upto - 1;
        let w = width_of(s, p).0;
        let g = group_total(s.frames, s.hidden, p, c) as int;
        let d = s.frames[c].duration();
        lemma_children_width_upto(s, p, c);
        lemma_child_row(s, c, p);
        if is_child(s, c, p) {
            assert(width_of(s, c).0 == w * d);
            assert(group_total(s.frames, s.hidden, p, upto) == g + d);
            assert(w * (g + d) == w * g + w * d) by (nonlinear_arith);
        } else {
            assert(group_total(s.frames, s.hidden, p, upto) == g);
        }
    } else {
        assert(width_of(s, p).0 * 0 == 0) by (nonlinear_arith);
    }
}

/// While subtrees are hidden, the children of a frame fill it: their widths,
/// which all have the frame's own denominator times the samples of the
/// group as denominator, have numerators that add up to the frame's own
/// numerator times the samples of the group. So where the frame has a
/// child, the widths of its children add up to its own width.
pub proof fn lemma_children_fill_parent(s: ViewState, p: int)
    requires
        s.wf(),
        settled(s),
        !nothing_hidden(s.hidden),
        0 <= p < s.frames.len(),
    ensures
        children_width(s, p, s.frames.len() as int) == width_of(s, p).0 * group_total(
            s.frames,
            s.hidden,
            p,
            s.frames.len() as int,
        ),
        forall|c: int|
            is_child(s, c, p) ==> {
                &&& (#[trigger] width_of(s, c)).1 == width_of(s, p).1 * group_total(
                    s.frames,
                    s.hidden,
                    p,
                    s.frames.len() as int,
                )
                &&& group_total(s.frames, s.hidden, p, s.frames.len() as int) > 0
            },
{
    lemma_children_width_upto(s, p, s.frames.len() as int);
    assert forall|c: int| is_child(s, c, p) implies {
        &&& (#[trigger] width_of(s, c)).1 == width_of(s, p).1 * group_total(
            s.frames,
            s.hidden,
            p,
            s.frames.len() as int,
        )
        &&& group_total(s.frames, s.hidden, p, s.frames.len() as int) > 0
    } by {
        lemma_child_row(s, c, p);
    }
}

/// What comes before a child and the child itself are part of the group;
/// and what comes before a later child holds what comes before an earlier
/// one, and that one too.
proof fn lemma_lead_grows(
    frames: Seq<FrameModel>,
    hidden: Set<HiddenStack>,
    p: int,
    c1: int,
    c2: int,
    upto: int,
)
    requires
        0 <= upto <= frames.len(),
        0 <= c1 < frames.len(),
        0 <= c2 < frames.len(),
        parent_of(frames, hidden, c1) == Some(p),
        parent_of(frames, hidden, c2) == Some(p),
        earlier(frames, c1, c2),
        forall|k: int| 0 <= k < frames.len() ==> (#[trigger] frames[k]).start < frames[k].end,
    ensures
        lead_total(frames, hidden, p, c2, upto) >= lead_total(frames, hidden, p, c1, upto) + if c1
            < upto {
            frames[c1].duration()
        } else {
            0
        },
        group_total(frames, hidden, p, upto) >= lead_total(frames, hidden, p, c2, upto) + if c2
            < upto {
            frames[c2].duration()
        } else {
            0
        },
    decreases upto,
{
    if upto > 0 {
        lemma_lead_grows(frames, hidden, p, c1, c2, upto - 1);
        assert(frames[upto - 1].start < frames[upto - 1].end);
    }
}

/// While subtrees are hidden, the children of a frame stand side by side
/// in the order of their starts: of two children, the later one begins no
/// earlier than where the earlier one ends, and the last ends within the
/// group. Together with the shares adding up to the group, this leaves no
/// gap between them.
pub proof fn lemma_children_side_by_side(s: ViewState, p: int, c1: int, c2: int)
    requires
        s.wf(),
        settled(s),
        !nothing_hidden(s.hidden),
        0 <= p,
        is_child(s, c1, p),
        is_child(s, c2, p),
        earlier(s.frames, c1, c2),
    ensures
        s.rows[c1].placement->before + s.rows[c1].placement->share
            <= s.rows[c2].placement->before,
        s.rows[c2].placement->before + s.rows[c2].placement->share
            <= s.rows[c2].placement->group,
        s.rows[c1].placement->group == s.rows[c2].placement->group,
{
    let n = s.frames.len() as int;
    lemma_child_row(s, c1, p);
    lemma_child_row(s, c2, p);
    assert(s.rows[c1] == s.laid_rows()[c1]);
    assert(s.rows[c2] == s.laid_rows()[c2]);
    lemma_lead_grows(s.frames, s.hidden, p, c1, c2, n);
    lemma_group_total_bound(s.frames, s.hidden, p, c1, n);
    lemma_group_total_bound(s.frames, s.hidden, p, c2, n);
    assert(n * u64::MAX <= usize::MAX * u64::MAX) by (nonlinear_arith)
        requires
            0 <= n <= usize::MAX,
    ;
    assert(usize::MAX * u64::MAX <= u64::MAX * u64::MAX) by (nonlinear_arith)
        requires
            usize::MAX <= u64::MAX,
    ;
}

/// While subtrees are hidden in the frames of a call tree, a frame is on
/// the chart exactly if it lies in none of the hidden subtrees.
pub proof fn lemma_visible_unless_hidden(s: ViewState, i: int)
    requires
        s.wf(),
        settled(s),
        tree_shaped(s.frames, s.total),
        0 <= i < s.frames.len(),
    ensures
        s.rows[i].visible == !is_hidden(s.frames[i], s.hidden),
{
    assert(s.rows[i] == s.laid_rows()[i]);
    if !is_hidden(s.frames[i], s.hidden) && s.frames[i].depth > 0 {
        lemma_no_orphans(s.frames, s.total, s.hidden, i);
    }
    if nothing_hidden(s.hidden) && is_hidden(s.frames[i], s.hidden) {
        let h = choose|h: HiddenStack| s.hidden.contains(h) && covers(h, s.frames[i]);
        assert(false);
    }
}

} // verus!
