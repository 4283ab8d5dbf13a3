//! The interactive view: what a reader of the chart sees after hiding
//! subtrees, zooming into a frame, and searching by name. The frames stay as
//! the builder made them; the view keeps, beside them, one row of display
//! state for each frame.

use crate::frames::{models, Frame, FrameModel};
use crate::geometry::Ratio;
use vstd::prelude::*;

verus! {

/// The root of a hidden subtree, named by its span and its depth.
#[derive(Clone, Copy, Debug, PartialEq, Eq, Structural)]
pub struct HiddenStack {
    pub start: u64,
    pub end: u64,
    pub depth: usize,
}

/// Where a frame stands on the chart at present.
#[derive(Clone, Copy, Debug, PartialEq, Eq, Structural)]
pub enum Placement {
    /// Not on the chart.
    Off,
    /// At a fixed place: left edge and width as fractions of the chart.
    Fixed { left: Ratio, width: Ratio },
    /// Within the frame `parent`, one level up: of the parent's present
    /// width the frame takes `share / group`, and its left edge stands
    /// `before / group` of that width to the right of the parent's.
    Share { parent: usize, before: u128, share: u64, group: u128 },
}

/// The display state of one frame.
#[derive(Clone, Copy, Debug, PartialEq, Eq, Structural)]
pub struct FrameView {
    /// The frame is on the chart.
    pub visible: bool,
    /// Where it stands; `Off` exactly where it is not visible.
    pub placement: Placement,
    /// The search matches its name.
    pub highlighted: bool,
    /// A search is on and does not match its name.
    pub faded: bool,
    /// It is drawn as a banner over the frame zoomed into.
    pub zoomed_ancestor: bool,
}

/// What came of looking a search pattern up in the names of the frames.
pub enum SearchOutcome {
    /// The pattern is no valid regular expression.
    Invalid,
    /// The pattern is valid, and these are the frames whose names it
    /// matches: one flag for each frame, in the order of the frames.
    Matches(Vec<bool>),
}

/// One action of the reader.
pub enum Action {
    /// Hide the subtree under the frame with this index.
    Hide(usize),
    /// Show all hidden subtrees again.
    ResetHidden,
    /// Make the layout anew with what is hidden.
    Recompute,
    /// Zoom into the frame with this index.
    ZoomTo(usize),
    /// Leave the zoom.
    ResetZoom,
    /// Search for a pattern, given with what came of matching it.
    SetSearch(String, SearchOutcome),
    /// End the search.
    ClearSearch,
    /// Back to the first view.
    ResetAll,
}

/// A search that is on: its pattern, and for each frame whether the pattern
/// matches its name.
pub struct SearchModel {
    pub pattern: Seq<char>,
    pub matches: Seq<bool>,
}

/// What an action stands for.
pub enum ActionModel {
    Hide(int),
    ResetHidden,
    Recompute,
    ZoomTo(int),
    ResetZoom,
    SetSearch(Seq<char>, Option<Seq<bool>>),
    ClearSearch,
    ResetAll,
}

impl View for SearchOutcome {
    type V = Option<Seq<bool>>;

    open spec fn view(&self) -> Option<Seq<bool>> {
        match self {
            SearchOutcome::Invalid => None,
            SearchOutcome::Matches(m) => Some(m@),
        }
    }
}

impl View for Action {
    type V = ActionModel;

    open spec fn view(&self) -> ActionModel {
        match self {
            Action::Hide(i) => ActionModel::Hide(*i as int),
            Action::ResetHidden => ActionModel::ResetHidden,
            Action::Recompute => ActionModel::Recompute,
            Action::ZoomTo(i) => ActionModel::ZoomTo(*i as int),
            Action::ResetZoom => ActionModel::ResetZoom,
            Action::SetSearch(p, o) => ActionModel::SetSearch(p@, o@),
            Action::ClearSearch => ActionModel::ClearSearch,
            Action::ResetAll => ActionModel::ResetAll,
        }
    }
}

/// The state of a view: the frames and their total, which no action
/// changes, the hidden subtrees, the frame zoomed into, the search, and the
/// row of each frame.
pub struct ViewState {
    pub frames: Seq<FrameModel>,
    pub total: nat,
    pub hidden: Set<HiddenStack>,
    pub zoom: Option<int>,
    pub search: Option<SearchModel>,
    pub rows: Seq<FrameView>,
}

/// The name by which a frame is hidden: its span and its depth.
pub open spec fn handle(f: FrameModel) -> HiddenStack {
    HiddenStack { start: f.start as u64, end: f.end as u64, depth: f.depth as usize }
}

/// The frame lies in the subtree under `h`: within its span, at its depth
/// or deeper.
pub open spec fn covers(h: HiddenStack, f: FrameModel) -> bool {
    f.start >= h.start && f.end <= h.end && f.depth >= h.depth
}

/// The frame lies in one of the hidden subtrees.
pub open spec fn is_hidden(f: FrameModel, hidden: Set<HiddenStack>) -> bool {
    exists|h: HiddenStack| hidden.contains(h) && covers(h, f)
}

/// No subtree is hidden.
pub open spec fn nothing_hidden(hidden: Set<HiddenStack>) -> bool {
    forall|h: HiddenStack| !hidden.contains(h)
}

/// The frame `f` is an ancestor of the frame `target`: it is less deep and
/// spans it.
pub open spec fn above(f: FrameModel, target: FrameModel) -> bool {
    f.depth < target.depth && f.start <= target.start && f.end >= target.end
}

/// The spans of the two frames have no sample in common.
pub open spec fn apart(f: FrameModel, target: FrameModel) -> bool {
    f.end <= target.start || f.start >= target.end
}

/// The whole width of the chart.
pub open spec fn full_width() -> Placement {
    Placement::Fixed { left: Ratio { num: 0, den: 1 }, width: Ratio { num: 1, den: 1 } }
}

/// The place of a frame on the chart of all samples, with nothing hidden:
/// its left edge is `start / total`, its width `duration / total`.
pub open spec fn base_placement(f: FrameModel, total: nat) -> Placement {
    Placement::Fixed {
        left: Ratio { num: f.start as u64, den: total as u64 },
        width: Ratio { num: (f.end - f.start) as u64, den: total as u64 },
    }
}

/// The place of a frame in the window of the frame `target`: the part of
/// its span that lies in the window, counted from the window's start, over
/// the window's width.
pub open spec fn window_placement(f: FrameModel, target: FrameModel) -> Placement {
    let width = target.end - target.start;
    let from = if f.start > target.start {
        f.start - target.start
    } else {
        0
    };
    let to = if f.end - target.start < width {
        f.end - target.start
    } else {
        width
    };
    Placement::Fixed {
        left: Ratio { num: from as u64, den: width as u64 },
        width: Ratio { num: (to - from) as u64, den: width as u64 },
    }
}

/// Frame `p` can hold frame `i` while subtrees are hidden: it is not hidden
/// itself, stands one level up, and spans frame `i`.
pub open spec fn holds_slot(
    frames: Seq<FrameModel>,
    hidden: Set<HiddenStack>,
    p: int,
    i: int,
) -> bool {
    &&& 0 <= p < frames.len()
    &&& !is_hidden(frames[p], hidden)
    &&& frames[p].depth + 1 == frames[i].depth
    &&& frames[i].within(frames[p])
}

/// The first of the frames before `upto` that can hold frame `i`.
pub open spec fn first_holder(
    frames: Seq<FrameModel>,
    hidden: Set<HiddenStack>,
    i: int,
    upto: int,
) -> Option<int>
    decreases upto,
{
    if upto <= 0 {
        None
    } else {
        match first_holder(frames, hidden, i, upto - 1) {
            Some(p) => Some(p),
            None => if holds_slot(frames, hidden, upto - 1, i) {
                Some(upto - 1)
            } else {
                None
            },
        }
    }
}

/// The frame within which frame `i` is placed while subtrees are hidden:
/// none for a hidden frame and for a frame of depth 0, and else the first
/// frame that can hold it, if there is one.
pub open spec fn parent_of(frames: Seq<FrameModel>, hidden: Set<HiddenStack>, i: int) -> Option<
    int,
> {
    if is_hidden(frames[i], hidden) || frames[i].depth == 0 {
        None
    } else {
        first_holder(frames, hidden, i, frames.len() as int)
    }
}

/// Frame `k` comes before frame `i` among the children of one parent: it
/// starts earlier, or at the same sample and stands earlier in the list.
pub open spec fn earlier(frames: Seq<FrameModel>, k: int, i: int) -> bool {
    frames[k].start < frames[i].start || (frames[k].start == frames[i].start && k < i)
}

/// The samples of the frames before `upto` that are placed within frame
/// `p`, added up.
pub open spec fn group_total(
    frames: Seq<FrameModel>,
    hidden: Set<HiddenStack>,
    p: int,
    upto: int,
) -> nat
    decreases upto,
{
    if upto <= 0 {
        0
    } else {
        group_total(frames, hidden, p, upto - 1) + if parent_of(frames, hidden, upto - 1) == Some(
            p,
        ) {
            frames[upto - 1].duration() as nat
        } else {
            0
        }
    }
}

/// The samples of the frames before `upto` that are placed within frame `p`
/// and come before frame `i`, added up.
pub open spec fn lead_total(
    frames: Seq<FrameModel>,
    hidden: Set<HiddenStack>,
    p: int,
    i: int,
    upto: int,
) -> nat
    decreases upto,
{
    if upto <= 0 {
        0
    } else {
        lead_total(frames, hidden, p, i, upto - 1) + if parent_of(frames, hidden, upto - 1)
            == Some(p) && earlier(frames, upto - 1, i) {
            frames[upto - 1].duration() as nat
        } else {
            0
        }
    }
}

/// The place of frame `i` while subtrees are hidden. A hidden frame is off
/// the chart. A frame of depth 0 takes the whole width. Every other frame
/// is placed within its parent: the children of one parent stand side by
/// side in the order of their starts, from the parent's left edge on, and
/// share the parent's width in proportion to their samples. A frame for
/// which no parent is found stays off the chart.
pub open spec fn shared_placement(
    frames: Seq<FrameModel>,
    hidden: Set<HiddenStack>,
    i: int,
) -> Placement {
    let n = frames.len() as int;
    if is_hidden(frames[i], hidden) {
        Placement::Off
    } else if frames[i].depth == 0 {
        full_width()
    } else {
        match parent_of(frames, hidden, i) {
            Some(p) => Placement::Share {
                parent: p as usize,
                before: lead_total(frames, hidden, p, i, n) as u128,
                share: frames[i].duration() as u64,
                group: group_total(frames, hidden, p, n) as u128,
            },
            None => Placement::Off,
        }
    }
}

/// The place of frame `i` when the layout is made anew: its place on the
/// chart of all samples where nothing is hidden, and else its place among
/// the frames that are left.
pub open spec fn laid_placement(
    frames: Seq<FrameModel>,
    total: nat,
    hidden: Set<HiddenStack>,
    i: int,
) -> Placement {
    if nothing_hidden(hidden) {
        base_placement(frames[i], total)
    } else {
        shared_placement(frames, hidden, i)
    }
}

/// The place of frame `i` after zooming into frame `t`, where its row was
/// `row` before: a frame that was off the chart stays off; a frame apart
/// from the target leaves the chart; an ancestor of the target becomes a
/// banner over the whole width; every other frame is placed in the target's
/// window.
pub open spec fn zoomed_placement(
    frames: Seq<FrameModel>,
    row: FrameView,
    t: int,
    i: int,
) -> Placement {
    if !row.visible {
        Placement::Off
    } else if apart(frames[i], frames[t]) {
        Placement::Off
    } else if above(frames[i], frames[t]) {
        full_width()
    } else {
        window_placement(frames[i], frames[t])
    }
}

/// The search matches frame `i`.
pub open spec fn matched(search: Option<SearchModel>, i: int) -> bool {
    match search {
        Some(s) => 0 <= i < s.matches.len() && s.matches[i],
        None => false,
    }
}

/// Frame `i` is an ancestor of the frame zoomed into.
pub open spec fn over_zoom(frames: Seq<FrameModel>, zoom: Option<int>, i: int) -> bool {
    match zoom {
        Some(t) => 0 <= t < frames.len() && above(frames[i], frames[t]),
        None => false,
    }
}

/// The row of a frame that is off the chart.
pub open spec fn off_row() -> FrameView {
    FrameView {
        visible: false,
        placement: Placement::Off,
        highlighted: false,
        faded: false,
        zoomed_ancestor: false,
    }
}

/// The row of frame `i` at the given place: off the chart it carries no
/// mark; on the chart it is highlighted where the search matches it, faded
/// where a search is on and does not match it, and marked as an ancestor of
/// the frame zoomed into where it is one.
pub open spec fn dressed(
    frames: Seq<FrameModel>,
    zoom: Option<int>,
    search: Option<SearchModel>,
    i: int,
    placement: Placement,
) -> FrameView {
    if placement == Placement::Off {
        off_row()
    } else {
        FrameView {
            visible: true,
            placement,
            highlighted: matched(search, i),
            faded: search is Some && !matched(search, i),
            zoomed_ancestor: over_zoom(frames, zoom, i),
        }
    }
}

impl ViewState {
    /// The rows of a layout made anew with what is hidden now.
    pub open spec fn laid_rows(self) -> Seq<FrameView> {
        Seq::new(
            self.frames.len(),
            |i: int|
                dressed(
                    self.frames,
                    self.zoom,
                    self.search,
                    i,
                    laid_placement(self.frames, self.total, self.hidden, i),
                ),
        )
    }

    /// The state with its layout made anew: what is visible, and where, goes
    /// by the hidden subtrees alone.
    pub open spec fn relaid(self) -> ViewState {
        ViewState { rows: self.laid_rows(), ..self }
    }

    /// The state with the marks of its rows set anew, each row staying where
    /// it is.
    pub open spec fn redressed(self) -> ViewState {
        ViewState {
            rows: Seq::new(
                self.frames.len(),
                |i: int| dressed(self.frames, self.zoom, self.search, i, self.rows[i].placement),
            ),
            ..self
        }
    }

    /// The first view of a list of frames: nothing hidden, no zoom, no
    /// search, every frame at its place on the chart of all samples.
    pub open spec fn initial(frames: Seq<FrameModel>, total: nat) -> ViewState {
        ViewState {
            frames,
            total,
            hidden: Set::empty(),
            zoom: None,
            search: None,
            rows: Seq::new(frames.len(), |i: int| off_row()),
        }.relaid()
    }

    /// After hiding the subtree under frame `i`: its handle joins the hidden
    /// set, and the layout is made anew. An index beyond the frames changes
    /// nothing.
    pub open spec fn hide_subtree(self, i: int) -> ViewState {
        if 0 <= i < self.frames.len() {
            ViewState { hidden: self.hidden.insert(handle(self.frames[i])), ..self }.relaid()
        } else {
            self
        }
    }

    /// After showing all hidden subtrees again.
    pub open spec fn reset_hidden(self) -> ViewState {
        ViewState { hidden: Set::empty(), ..self }.relaid()
    }

    /// After zooming into frame `t`. Nothing changes where the frame is off
    /// the chart, or the index beyond the frames.
    pub open spec fn zoom_to(self, t: int) -> ViewState {
        if 0 <= t < self.frames.len() && self.rows[t].visible {
            ViewState {
                zoom: Some(t),
                rows: Seq::new(
                    self.frames.len(),
                    |i: int|
                        dressed(
                            self.frames,
                            Some(t),
                            self.search,
                            i,
                            zoomed_placement(self.frames, self.rows[i], t, i),
                        ),
                ),
                ..self
            }
        } else {
            self
        }
    }

    /// After leaving the zoom: the layout is made anew with what is hidden.
    pub open spec fn reset_zoom(self) -> ViewState {
        ViewState { zoom: None, ..self }.relaid()
    }

    /// After a search. An invalid pattern changes nothing, and neither does
    /// a list of matches that is not as long as the list of frames. Else the
    /// search is on, and the marks of the rows follow it; no row moves.
    pub open spec fn set_search(self, pattern: Seq<char>, outcome: Option<Seq<bool>>) -> ViewState {
        match outcome {
            Some(matches) => if matches.len() == self.frames.len() {
                ViewState { search: Some(SearchModel { pattern, matches }), ..self }.redressed()
            } else {
                self
            },
            None => self,
        }
    }

    /// After ending the search: no row is highlighted or faded; no row
    /// moves.
    pub open spec fn clear_search(self) -> ViewState {
        ViewState { search: None, ..self }.redressed()
    }

    /// After going back to the first view.
    pub open spec fn reset_all(self) -> ViewState {
        ViewState::initial(self.frames, self.total)
    }

    /// The state after one action.
    pub open spec fn step(self, action: ActionModel) -> ViewState {
        match action {
            ActionModel::Hide(i) => self.hide_subtree(i),
            ActionModel::ResetHidden => self.reset_hidden(),
            ActionModel::Recompute => self.relaid(),
            ActionModel::ZoomTo(t) => self.zoom_to(t),
            ActionModel::ResetZoom => self.reset_zoom(),
            ActionModel::SetSearch(pattern, outcome) => self.set_search(pattern, outcome),
            ActionModel::ClearSearch => self.clear_search(),
            ActionModel::ResetAll => self.reset_all(),
        }
    }

    /// The state after a run of actions, in order.
    pub open spec fn run(self, actions: Seq<ActionModel>) -> ViewState
        decreases actions.len(),
    {
        if actions.len() == 0 {
            self
        } else {
            self.run(actions.drop_last()).step(actions.last())
        }
    }

    /// Frame `i` counts for the share of the search: it is on the chart and
    /// no ancestor of the frame zoomed into.
    pub open spec fn counted(self, i: int) -> bool {
        self.rows[i].visible && !self.rows[i].zoomed_ancestor
    }

    /// The samples of the counted frames before `upto` that the search
    /// matches, added up.
    pub open spec fn matched_samples(self, upto: int) -> nat
        decreases upto,
    {
        if upto <= 0 {
            0
        } else {
            self.matched_samples(upto - 1) + if self.counted(upto - 1)
                && self.rows[upto - 1].highlighted {
                self.frames[upto - 1].duration() as nat
            } else {
                0
            }
        }
    }

    /// The share of the search: the samples of the matched frames over the
    /// samples of the widest frame, among the frames that count; 0 over 1
    /// where no frame counts.
    pub open spec fn matched_share(self) -> (u128, u64) {
        let n = self.frames.len() as int;
        if self.widest_samples(n) == 0 {
            (0, 1)
        } else {
            (self.matched_samples(n) as u128, self.widest_samples(n) as u64)
        }
    }

    /// The greatest number of samples of one counted frame before `upto`; 0
    /// where there is none.
    pub open spec fn widest_samples(self, upto: int) -> nat
        decreases upto,
    {
        if upto <= 0 {
            0
        } else {
            let rest = self.widest_samples(upto - 1);
            if self.counted(upto - 1) && self.frames[upto - 1].duration() > rest {
                self.frames[upto - 1].duration() as nat
            } else {
                rest
            }
        }
    }
}

impl ViewState {
    /// The state is in order: every frame holds a sample, ends by the total
    /// and fits the machine's numbers, as does the number of frames, there
    /// is a row for each frame, a row is visible exactly if it has a place,
    /// the zoom is on one of the frames, and the search knows of each frame
    /// whether it matches.
    pub open spec fn wf(self) -> bool {
        &&& self.rows.len() == self.frames.len()
        &&& self.frames.len() <= usize::MAX
        &&& self.total <= u64::MAX
        &&& forall|k: int|
            0 <= k < self.frames.len() ==> {
                &&& (#[trigger] self.frames[k]).start < self.frames[k].end <= self.total
                &&& self.frames[k].depth <= usize::MAX
            }
        &&& forall|i: int|
            0 <= i < self.rows.len() ==> (#[trigger] self.rows[i]).visible == (
            self.rows[i].placement != Placement::Off)
        &&& match self.zoom {
            Some(t) => 0 <= t < self.frames.len(),
            None => true,
        }
        &&& match self.search {
            Some(s) => s.matches.len() == self.frames.len(),
            None => true,
        }
    }
}

/// What an optional index stands for.
pub open spec fn index_of(i: Option<usize>) -> Option<int> {
    match i {
        Some(i) => Some(i as int),
        None => None,
    }
}

/// What an optional search stands for.
pub open spec fn search_of(search: Option<(String, Vec<bool>)>) -> Option<SearchModel> {
    match search {
        Some((pattern, matches)) => Some(SearchModel { pattern: pattern@, matches: matches@ }),
        None => None,
    }
}

/// Once a holder is found, it stays the first.
proof fn lemma_first_holder_stays(
    frames: Seq<FrameModel>,
    hidden: Set<HiddenStack>,
    i: int,
    found: int,
    upto: int,
)
    requires
        0 <= found <= upto,
        first_holder(frames, hidden, i, found) is Some,
    ensures
        first_holder(frames, hidden, i, upto) == first_holder(frames, hidden, i, found),
    decreases upto - found,
{
    if found < upto {
        lemma_first_holder_stays(frames, hidden, i, found, upto - 1);
    }
}

/// The samples of the first `upto` frames that are placed within one frame
/// add up to no more than `upto` times the greatest number of samples that a
/// frame can hold, and those of the earlier ones among them to no more than
/// those of all.
pub proof fn lemma_group_total_bound(
    frames: Seq<FrameModel>,
    hidden: Set<HiddenStack>,
    p: int,
    i: int,
    upto: int,
)
    requires
        0 <= upto <= frames.len(),
        forall|k: int|
            0 <= k < frames.len() ==> (#[trigger] frames[k]).start <= frames[k].end <= u64::MAX,
    ensures
        group_total(frames, hidden, p, upto) <= upto * u64::MAX,
        lead_total(frames, hidden, p, i, upto) <= group_total(frames, hidden, p, upto),
    decreases upto,
{
    if upto > 0 {
        lemma_group_total_bound(frames, hidden, p, i, upto - 1);
        assert(frames[upto - 1].end <= u64::MAX);
        assert((upto - 1) * u64::MAX + u64::MAX == upto * u64::MAX) by (nonlinear_arith);
    }
}

/// Whether the list of hidden subtrees holds `h`.
fn holds_handle(hidden: &Vec<HiddenStack>, h: &HiddenStack) -> (yes: bool)
    ensures
        yes == hidden@.to_set().contains(*h),
{
    let mut j: usize = 0;
    while j < hidden.len()
        invariant
            j <= hidden@.len(),
            forall|k: int| 0 <= k < j ==> hidden@[k] != *h,
        decreases hidden@.len() - j,
    {
        let other = hidden[j];
        if other.start == h.start && other.end == h.end && other.depth == h.depth {
            assert(hidden@[j as int] == *h);
            return true;
        }
        j += 1;
    }
    proof {
        if hidden@.to_set().contains(*h) {
            let k = choose|k: int| 0 <= k < hidden@.len() && hidden@[k] == *h;
            assert(false);
        }
    }
    false
}

/// Whether the frame lies in one of the hidden subtrees.
fn hidden_flag(frame: &Frame, hidden: &Vec<HiddenStack>) -> (yes: bool)
    ensures
        yes == is_hidden(frame@, hidden@.to_set()),
{
    let mut j: usize = 0;
    while j < hidden.len()
        invariant
            j <= hidden@.len(),
            forall|k: int| 0 <= k < j ==> !covers(#[trigger] hidden@[k], frame@),
        decreases hidden@.len() - j,
    {
        let h = hidden[j];
        if frame.start >= h.start && frame.end <= h.end && frame.depth >= h.depth {
            assert(hidden@.to_set().contains(h)) by {
                assert(hidden@[j as int] == h);
            }
            return true;
        }
        j += 1;
    }
    proof {
        if is_hidden(frame@, hidden@.to_set()) {
            let h = choose|h: HiddenStack| hidden@.to_set().contains(h) && covers(h, frame@);
            let k = choose|k: int| 0 <= k < hidden@.len() && hidden@[k] == h;
            assert(!covers(hidden@[k], frame@));
        }
    }
    false
}

/// For each frame, whether it lies in one of the hidden subtrees.
fn hidden_flags(frames: &Vec<Frame>, hidden: &Vec<HiddenStack>) -> (flags: Vec<bool>)
    ensures
        flags@.len() == frames@.len(),
        forall|i: int|
            0 <= i < frames@.len() ==> flags@[i] == is_hidden(
                #[trigger] models(frames@)[i],
                hidden@.to_set(),
            ),
{
    let mut flags: Vec<bool> = Vec::new();
    let mut i: usize = 0;
    while i < frames.len()
        invariant
            i <= frames@.len(),
            flags@.len() == i,
            forall|k: int|
                0 <= k < i ==> flags@[k] == is_hidden(
                    #[trigger] models(frames@)[k],
                    hidden@.to_set(),
                ),
        decreases frames@.len() - i,
    {
        let flag = hidden_flag(&frames[i], hidden);
        flags.push(flag);
        i += 1;
    }
    flags
}

/// The frame within which frame `i` is placed while subtrees are hidden.
fn find_parent(frames: &Vec<Frame>, flags: &Vec<bool>, i: usize, Ghost(hidden): Ghost<
    Set<HiddenStack>,
>) -> (parent: Option<usize>)
    requires
        i < frames@.len(),
        flags@.len() == frames@.len(),
        forall|k: int|
            0 <= k < frames@.len() ==> flags@[k] == is_hidden(
                #[trigger] models(frames@)[k],
                hidden,
            ),
    ensures
        index_of(parent) == parent_of(models(frames@), hidden, i as int),
        parent is Some ==> parent->0 < frames@.len(),
{
    let ghost all = models(frames@);
    assert(all[i as int] == frames@[i as int]@);
    if flags[i] || frames[i].depth == 0 {
        return None;
    }
    let depth = frames[i].depth - 1;
    let mut p: usize = 0;
    while p < frames.len()
        invariant
            p <= frames@.len(),
            i < frames@.len(),
            all == models(frames@),
            flags@.len() == frames@.len(),
            depth + 1 == frames@[i as int].depth,
            !is_hidden(all[i as int], hidden),
            all[i as int] == frames@[i as int]@,
            forall|k: int|
                0 <= k < frames@.len() ==> flags@[k] == is_hidden(#[trigger] all[k], hidden),
            first_holder(all, hidden, i as int, p as int) is None,
        decreases frames@.len() - p,
    {
        assert(all[p as int] == frames@[p as int]@);
        assert(all[i as int] == frames@[i as int]@);
        if !flags[p] && frames[p].depth == depth && frames[p].start <= frames[i].start
            && frames[i].end <= frames[p].end {
            proof {
                assert(holds_slot(all, hidden, p as int, i as int));
                assert(first_holder(all, hidden, i as int, p + 1) == Some(p as int));
                lemma_first_holder_stays(all, hidden, i as int, p + 1, frames@.len() as int);
            }
            return Some(p);
        }
        assert(!holds_slot(all, hidden, p as int, i as int));
        p += 1;
    }
    None
}

/// For each frame, the frame within which it is placed while subtrees are
/// hidden.
fn find_parents(
    frames: &Vec<Frame>,
    flags: &Vec<bool>,
    Ghost(hidden): Ghost<Set<HiddenStack>>,
) -> (parents: Vec<Option<usize>>)
    requires
        flags@.len() == frames@.len(),
        forall|k: int|
            0 <= k < frames@.len() ==> flags@[k] == is_hidden(
                #[trigger] models(frames@)[k],
                hidden,
            ),
    ensures
        parents@.len() == frames@.len(),
        forall|i: int|
            0 <= i < frames@.len() ==> index_of(#[trigger] parents@[i]) == parent_of(
                models(frames@),
                hidden,
                i,
            ),
{
    let mut parents: Vec<Option<usize>> = Vec::new();
    let mut i: usize = 0;
    while i < frames.len()
        invariant
            i <= frames@.len(),
            parents@.len() == i,
            flags@.len() == frames@.len(),
            forall|k: int|
                0 <= k < frames@.len() ==> flags@[k] == is_hidden(
                    #[trigger] models(frames@)[k],
                    hidden,
                ),
            forall|k: int|
                0 <= k < i ==> index_of(#[trigger] parents@[k]) == parent_of(
                    models(frames@),
                    hidden,
                    k,
                ),
        decreases frames@.len() - i,
    {
        let parent = find_parent(frames, flags, i, Ghost(hidden));
        parents.push(parent);
        i += 1;
    }
    parents
}

/// The samples of the children of frame `p`, and of those among them that
/// come before frame `i`.
fn child_totals(
    frames: &Vec<Frame>,
    parents: &Vec<Option<usize>>,
    p: usize,
    i: usize,
    Ghost(hidden): Ghost<Set<HiddenStack>>,
) -> (sums: (u128, u128))
    requires
        i < frames@.len(),
        parents@.len() == frames@.len(),
        forall|k: int|
            0 <= k < frames@.len() ==> (#[trigger] frames@[k]).start <= frames@[k].end,
        forall|k: int|
            0 <= k < frames@.len() ==> index_of(#[trigger] parents@[k]) == parent_of(
                models(frames@),
                hidden,
                k,
            ),
    ensures
        sums.0 == lead_total(models(frames@), hidden, p as int, i as int, frames@.len() as int),
        sums.1 == group_total(models(frames@), hidden, p as int, frames@.len() as int),
{
    let ghost all = models(frames@);
    let mut before: u128 = 0;
    let mut group: u128 = 0;
    let mut k: usize = 0;
    proof {
        assert forall|j: int| 0 <= j < all.len() implies (#[trigger] all[j]).start <= all[j].end
            <= u64::MAX by {
            assert(all[j] == frames@[j]@);
        }
    }
    while k < frames.len()
        invariant
            k <= frames@.len(),
            i < frames@.len(),
            all == models(frames@),
            parents@.len() == frames@.len(),
            forall|j: int|
                0 <= j < all.len() ==> (#[trigger] all[j]).start <= all[j].end <= u64::MAX,
            forall|j: int|
                0 <= j < frames@.len() ==> index_of(#[trigger] parents@[j]) == parent_of(
                    all,
                    hidden,
                    j,
                ),
            before == lead_total(all, hidden, p as int, i as int, k as int),
            group == group_total(all, hidden, p as int, k as int),
        decreases frames@.len() - k,
    {
        proof {
            lemma_group_total_bound(all, hidden, p as int, i as int, k as int);
            lemma_group_total_bound(all, hidden, p as int, i as int, k + 1);
            assert(all[k as int] == frames@[k as int]@);
            assert(all[i as int] == frames@[i as int]@);
            assert(index_of(parents@[k as int]) == parent_of(all, hidden, k as int));
            assert((k + 1) * u64::MAX <= usize::MAX * u64::MAX) by (nonlinear_arith)
                requires
                    k + 1 <= usize::MAX,
            ;
            assert(usize::MAX * u64::MAX <= u64::MAX * u64::MAX) by (nonlinear_arith)
                requires
                    usize::MAX <= u64::MAX,
            ;
        }
        let child = match parents[k] {
            Some(q) => q == p,
            None => false,
        };
        if child {
            let samples = (frames[k].end - frames[k].start) as u128;
            group = group + samples;
            if frames[k].start < frames[i].start || (frames[k].start == frames[i].start && k < i) {
                before = before + samples;
            }
        }
        k += 1;
    }
    (before, group)
}

/// The row of frame `i` at the given place.
fn dress(
    frames: &Vec<Frame>,
    zoom: Option<usize>,
    search: &Option<(String, Vec<bool>)>,
    i: usize,
    placement: Placement,
) -> (row: FrameView)
    requires
        i < frames@.len(),
        zoom is Some ==> zoom->0 < frames@.len(),
    ensures
        row == dressed(models(frames@), index_of(zoom), search_of(*search), i as int, placement),
{
    let ghost all = models(frames@);
    assert(all[i as int] == frames@[i as int]@);
    match placement {
        Placement::Off => FrameView {
            visible: false,
            placement: Placement::Off,
            highlighted: false,
            faded: false,
            zoomed_ancestor: false,
        },
        _ => {
            let (searching, matches) = match search {
                Some((_, m)) => (true, i < m.len() && m[i]),
                None => (false, false),
            };
            let over = match zoom {
                Some(t) => {
                    assert(all[t as int] == frames@[t as int]@);
                    frames[i].depth < frames[t].depth && frames[i].start <= frames[t].start
                        && frames[i].end >= frames[t].end
                },
                None => false,
            };
            FrameView {
                visible: true,
                placement,
                highlighted: matches,
                faded: searching && !matches,
                zoomed_ancestor: over,
            }
        },
    }
}

/// The view of a reader over the frames of one flame graph.
pub struct FlameView {
    frames: Vec<Frame>,
    total: u64,
    hidden: Vec<HiddenStack>,
    zoom: Option<usize>,
    search: Option<(String, Vec<bool>)>,
    rows: Vec<FrameView>,
}

impl View for FlameView {
    type V = ViewState;

    closed spec fn view(&self) -> ViewState {
        ViewState {
            frames: models(self.frames@),
            total: self.total as nat,
            hidden: self.hidden@.to_set(),
            zoom: index_of(self.zoom),
            search: search_of(self.search),
            rows: self.rows@,
        }
    }
}

/// The frames can be shown: each holds a sample and ends by the total.
pub open spec fn showable(frames: Seq<FrameModel>, total: nat) -> bool {
    forall|k: int| 0 <= k < frames.len() ==> (#[trigger] frames[k]).start < frames[k].end <= total
}

impl FlameView {
    /// The state of the view is in order.
    pub open spec fn wf(&self) -> bool {
        self@.wf()
    }

    /// The first view of the frames of a graph over `total` samples, for
    /// frames that each hold a sample and end by the total, as the builder
    /// makes them.
    pub fn open(frames: Vec<Frame>, total: u64) -> (view: FlameView)
        requires
            showable(models(frames@), total as nat),
        ensures
            view.wf(),
            view@ == ViewState::initial(models(frames@), total as nat),
    {
        let ghost all = models(frames@);
        let mut view = FlameView {
            frames,
            total,
            hidden: Vec::new(),
            zoom: None,
            search: None,
            rows: Vec::new(),
        };
        let ghost blank = ViewState {
            frames: all,
            total: total as nat,
            hidden: Set::empty(),
            zoom: None,
            search: None,
            rows: Seq::new(all.len(), |i: int| off_row()),
        };
        proof {
            assert(view.hidden@.to_set() =~= Set::<HiddenStack>::empty());
            assert forall|j: int| 0 <= j < all.len() implies (#[trigger] all[j]).depth
                <= usize::MAX by {
                assert(all[j] == view.frames@[j]@);
            }
        }
        view.lay();
        proof {
            assert(view@.rows =~= blank.laid_rows());
            assert(view@ == blank.relaid());
        }
        view
    }

    /// The first view of the frames of a graph over `total` samples. It is
    /// given for frames that each hold a sample and end by the total, and
    /// for no others.
    pub fn new(frames: Vec<Frame>, total: u64) -> (view: Option<FlameView>)
        ensures
            view is Some == showable(models(frames@), total as nat),
            view is Some ==> view->0.wf() && view->0@ == ViewState::initial(
                models(frames@),
                total as nat,
            ),
    {
        let ghost all = models(frames@);
        let mut k: usize = 0;
        while k < frames.len()
            invariant
                k <= frames@.len(),
                all == models(frames@),
                forall|j: int| 0 <= j < k ==> (#[trigger] all[j]).start < all[j].end <= total,
            decreases frames@.len() - k,
        {
            assert(all[k as int] == frames@[k as int]@);
            if !(frames[k].start < frames[k].end && frames[k].end <= total) {
                return None;
            }
            k += 1;
        }
        Some(FlameView::open(frames, total))
    }

    /// Makes the layout anew: what is visible, and where, goes by the
    /// hidden subtrees alone.
    fn lay(&mut self)
        requires
            showable(old(self)@.frames, old(self)@.total),
            forall|k: int|
                0 <= k < old(self)@.frames.len() ==> (#[trigger] old(self)@.frames[k]).depth
                    <= usize::MAX,
            match old(self)@.zoom {
                Some(t) => 0 <= t < old(self)@.frames.len(),
                None => true,
            },
            match old(self)@.search {
                Some(s) => s.matches.len() == old(self)@.frames.len(),
                None => true,
            },
        ensures
            final(self).wf(),
            final(self)@ == (ViewState { rows: old(self)@.laid_rows(), ..old(self)@ }),
    {
        let ghost before = self@;
        let ghost all = before.frames;
        let ghost hidden = before.hidden;
        let n = self.frames.len();
        let nothing = self.hidden.len() == 0;
        proof {
            if nothing {
                assert(self.hidden@.to_set() =~= Set::<HiddenStack>::empty());
            } else {
                assert(self.hidden@.to_set().contains(self.hidden@[0]));
            }
            assert(nothing == nothing_hidden(hidden));
        }
        let flags = hidden_flags(&self.frames, &self.hidden);
        let parents = find_parents(&self.frames, &flags, Ghost(hidden));
        let mut rows: Vec<FrameView> = Vec::new();
        let mut i: usize = 0;
        while i < n
            invariant
                i <= n,
                n == self.frames@.len(),
                self@ == before,
                all == models(self.frames@),
                hidden == self.hidden@.to_set(),
                showable(all, self.total as nat),
                self.zoom is Some ==> self.zoom->0 < n,
                nothing == nothing_hidden(hidden),
                flags@.len() == n,
                parents@.len() == n,
                forall|k: int| 0 <= k < n ==> flags@[k] == is_hidden(#[trigger] all[k], hidden),
                forall|k: int|
                    0 <= k < n ==> index_of(#[trigger] parents@[k]) == parent_of(all, hidden, k),
                rows@.len() == i,
                forall|k: int| 0 <= k < i ==> rows@[k] == #[trigger] before.laid_rows()[k],
            decreases n - i,
        {
            assert(all[i as int] == self.frames@[i as int]@);
            assert(all[i as int].start < all[i as int].end <= self.total);
            let frame = &self.frames[i];
            let placement = if nothing {
                Placement::Fixed {
                    left: Ratio { num: frame.start, den: self.total },
                    width: Ratio { num: frame.end - frame.start, den: self.total },
                }
            } else if flags[i] {
                Placement::Off
            } else if frame.depth == 0 {
                Placement::Fixed {
                    left: Ratio { num: 0, den: 1 },
                    width: Ratio { num: 1, den: 1 },
                }
            } else {
                match parents[i] {
                    Some(p) => {
                        proof {
                            assert forall|k: int| 0 <= k < self.frames@.len() implies (
                            #[trigger] self.frames@[k]).start <= self.frames@[k].end by {
                                assert(all[k] == self.frames@[k]@);
                            }
                        }
                        let sums = child_totals(&self.frames, &parents, p, i, Ghost(hidden));
                        Placement::Share {
                            parent: p,
                            before: sums.0,
                            share: frame.end - frame.start,
                            group: sums.1,
                        }
                    },
                    None => Placement::Off,
                }
            };
            assert(placement == laid_placement(all, self.total as nat, hidden, i as int));
            let row = dress(&self.frames, self.zoom, &self.search, i, placement);
            rows.push(row);
            i += 1;
        }
        self.rows = rows;
        proof {
            assert(self.rows@ =~= before.laid_rows());
        }
    }

    /// Makes the layout anew: a frame in a hidden subtree leaves the chart,
    /// and the others are placed by the hidden subtrees alone, whatever zoom
    /// was on.
    pub fn recompute_visibility(&mut self)
        requires
            old(self).wf(),
        ensures
            final(self).wf(),
            final(self)@ == old(self)@.relaid(),
    {
        self.lay();
    }

    /// Sets the marks of the rows anew; each row stays where it is.
    fn redress(&mut self)
        requires
            old(self).wf(),
        ensures
            final(self).wf(),
            final(self)@ == old(self)@.redressed(),
    {
        let ghost before = self@;
        let n = self.frames.len();
        let mut rows: Vec<FrameView> = Vec::new();
        let mut i: usize = 0;
        while i < n
            invariant
                i <= n,
                n == self.frames@.len(),
                self@ == before,
                before.wf(),
                rows@.len() == i,
                forall|k: int| 0 <= k < i ==> rows@[k] == #[trigger] before.redressed().rows[k],
            decreases n - i,
        {
            let row = dress(&self.frames, self.zoom, &self.search, i, self.rows[i].placement);
            rows.push(row);
            i += 1;
        }
        self.rows = rows;
        proof {
            assert(self.rows@ =~= before.redressed().rows);
        }
    }

    /// Hides the subtree under frame `i` and makes the layout anew. An
    /// index beyond the frames changes nothing.
    pub fn hide_subtree(&mut self, i: usize)
        requires
            old(self).wf(),
        ensures
            final(self).wf(),
            final(self)@ == old(self)@.hide_subtree(i as int),
    {
        if i < self.frames.len() {
            let frame = &self.frames[i];
            let h = HiddenStack { start: frame.start, end: frame.end, depth: frame.depth };
            proof {
                assert(self@.frames[i as int] == self.frames@[i as int]@);
                assert(h == handle(self@.frames[i as int]));
            }
            if !holds_handle(&self.hidden, &h) {
                proof {
                    self.hidden@.lemma_push_to_set_commute(h);
                }
                self.hidden.push(h);
            } else {
                proof {
                    assert(self.hidden@.to_set().insert(h) =~= self.hidden@.to_set());
                }
            }
            self.lay();
        }
    }

    /// Shows all hidden subtrees again and makes the layout anew.
    pub fn reset_hidden(&mut self)
        requires
            old(self).wf(),
        ensures
            final(self).wf(),
            final(self)@ == old(self)@.reset_hidden(),
    {
        self.hidden.clear();
        proof {
            assert(self.hidden@.to_set() =~= Set::<HiddenStack>::empty());
        }
        self.lay();
    }

    /// Zooms into frame `t`: frames apart from it leave the chart, its
    /// ancestors become banners, and the others are placed in its window.
    /// Nothing changes where the frame is off the chart, or the index
    /// beyond the frames.
    pub fn zoom_to(&mut self, t: usize)
        requires
            old(self).wf(),
        ensures
            final(self).wf(),
            final(self)@ == old(self)@.zoom_to(t as int),
    {
        let ghost before = self@;
        let ghost all = before.frames;
        let n = self.frames.len();
        if !(t < n && self.rows[t].visible) {
            return ;
        }
        proof {
            assert(all[t as int] == self.frames@[t as int]@);
            assert(all[t as int].start < all[t as int].end);
        }
        let target_start = self.frames[t].start;
        let target_end = self.frames[t].end;
        let target_depth = self.frames[t].depth;
        let width = target_end - target_start;
        let ghost after = before.zoom_to(t as int);
        let mut rows: Vec<FrameView> = Vec::new();
        let mut i: usize = 0;
        proof {
            assert(all[t as int] == self.frames@[t as int]@);
        }
        while i < n
            invariant
                i <= n,
                t < n,
                n == self.frames@.len(),
                self@ == before,
                before.wf(),
                all == models(self.frames@),
                all[t as int] == self.frames@[t as int]@,
                target_start == self.frames@[t as int].start,
                target_end == self.frames@[t as int].end,
                target_depth == self.frames@[t as int].depth,
                width == target_end - target_start,
                after == before.zoom_to(t as int),
                before.rows[t as int].visible,
                rows@.len() == i,
                forall|k: int| 0 <= k < i ==> rows@[k] == #[trigger] after.rows[k],
            decreases n - i,
        {
            assert(all[i as int] == self.frames@[i as int]@);
            assert(all[i as int].start < all[i as int].end);
            assert(all[t as int].start < all[t as int].end);
            let frame = &self.frames[i];
            let placement = if !self.rows[i].visible {
                Placement::Off
            } else if frame.end <= target_start || frame.start >= target_end {
                Placement::Off
            } else if frame.depth < target_depth && frame.start <= target_start && frame.end
                >= target_end {
                Placement::Fixed {
                    left: Ratio { num: 0, den: 1 },
                    width: Ratio { num: 1, den: 1 },
                }
            } else {
                let from = if frame.start > target_start {
                    frame.start - target_start
                } else {
                    0
                };
                let to = if frame.end - target_start < width {
                    frame.end - target_start
                } else {
                    width
                };
                Placement::Fixed {
                    left: Ratio { num: from, den: width },
                    width: Ratio { num: to - from, den: width },
                }
            };
            assert(placement == zoomed_placement(all, before.rows[i as int], t as int, i as int));
            let row = dress(&self.frames, Some(t), &self.search, i, placement);
            rows.push(row);
            i += 1;
        }
        self.zoom = Some(t);
        self.rows = rows;
        proof {
            assert(self.rows@ =~= after.rows);
        }
    }

    /// Leaves the zoom and makes the layout anew with what is hidden.
    pub fn reset_zoom(&mut self)
        requires
            old(self).wf(),
        ensures
            final(self).wf(),
            final(self)@ == old(self)@.reset_zoom(),
    {
        self.zoom = None;
        self.lay();
    }

    /// Takes a search up: `outcome` says whether the pattern is valid and
    /// which frames it matches. An invalid pattern changes nothing, and
    /// neither does a list of matches that is not as long as the list of
    /// frames; the answer is then `false`. Else the marks of the rows follow
    /// the search, and no row moves.
    pub fn set_search(&mut self, pattern: String, outcome: SearchOutcome) -> (taken: bool)
        requires
            old(self).wf(),
        ensures
            final(self).wf(),
            final(self)@ == old(self)@.set_search(pattern@, outcome@),
            taken == (outcome@ is Some && outcome@->0.len() == old(self)@.frames.len()),
    {
        match outcome {
            SearchOutcome::Matches(matches) => {
                if matches.len() == self.frames.len() {
                    self.search = Some((pattern, matches));
                    self.redress();
                    true
                } else {
                    false
                }
            },
            SearchOutcome::Invalid => false,
        }
    }

    /// Ends the search: no row is highlighted or faded, and no row moves.
    pub fn clear_search(&mut self)
        requires
            old(self).wf(),
        ensures
            final(self).wf(),
            final(self)@ == old(self)@.clear_search(),
    {
        self.search = None;
        self.redress();
    }

    /// Goes back to the first view: nothing hidden, no zoom, no search, and
    /// every frame at its place on the chart of all samples.
    pub fn reset_all(&mut self)
        requires
            old(self).wf(),
        ensures
            final(self).wf(),
            final(self)@ == old(self)@.reset_all(),
    {
        let ghost before = self@;
        self.hidden.clear();
        self.zoom = None;
        self.search = None;
        let ghost blank = ViewState {
            frames: before.frames,
            total: before.total,
            hidden: Set::empty(),
            zoom: None,
            search: None,
            rows: Seq::new(before.frames.len(), |i: int| off_row()),
        };
        proof {
            assert(self.hidden@.to_set() =~= Set::<HiddenStack>::empty());
        }
        self.lay();
        proof {
            assert(self@.rows =~= blank.laid_rows());
            assert(self@ == blank.relaid());
        }
    }

    /// Carries out one action of the reader.
    pub fn apply(&mut self, action: Action)
        requires
            old(self).wf(),
        ensures
            final(self).wf(),
            final(self)@ == old(self)@.step(action@),
    {
        match action {
            Action::Hide(i) => self.hide_subtree(i),
            Action::ResetHidden => self.reset_hidden(),
            Action::Recompute => self.recompute_visibility(),
            Action::ZoomTo(t) => self.zoom_to(t),
            Action::ResetZoom => self.reset_zoom(),
            Action::SetSearch(pattern, outcome) => {
                let _ = self.set_search(pattern, outcome);
            },
            Action::ClearSearch => self.clear_search(),
            Action::ResetAll => self.reset_all(),
        }
    }

    /// The frames, as the builder made them.
    pub fn frames(&self) -> (frames: &Vec<Frame>)
        ensures
            models(frames@) == self@.frames,
    {
        &self.frames
    }

    /// The number of samples of the whole graph.
    pub fn total(&self) -> (total: u64)
        ensures
            total == self@.total,
    {
        self.total
    }

    /// The rows: the display state of each frame, in the order of the
    /// frames.
    pub fn rows(&self) -> (rows: &Vec<FrameView>)
        ensures
            rows@ == self@.rows,
    {
        &self.rows
    }

    /// The pattern of the search that is on, if any.
    pub fn search_pattern(&self) -> (pattern: Option<&str>)
        ensures
            match pattern {
                Some(p) => self@.search is Some && self@.search->0.pattern == p@,
                None => self@.search is None,
            },
    {
        match &self.search {
            Some(search) => Some(search.0.as_str()),
            None => None,
        }
    }

    /// The frame zoomed into, if any.
    pub fn zoom_target(&self) -> (target: Option<usize>)
        ensures
            index_of(target) == self@.zoom,
    {
        self.zoom
    }

    /// Whether frame `i` lies in one of the hidden subtrees.
    pub fn is_hidden(&self, i: usize) -> (yes: bool)
        requires
            i < self@.frames.len(),
        ensures
            yes == is_hidden(self@.frames[i as int], self@.hidden),
    {
        assert(self@.frames[i as int] == self.frames@[i as int]@);
        hidden_flag(&self.frames[i], &self.hidden)
    }

    /// The share of the search as a fraction: above the line the samples of
    /// the matched frames, below it the samples of the widest frame, both
    /// taken over the frames that are on the chart and no ancestors of the
    /// frame zoomed into. Where no frame counts, the share is 0 of 1.
    pub fn matched_fraction(&self) -> (share: (u128, u64))
        requires
            self.wf(),
        ensures
            share == self@.matched_share(),
            share.1 > 0,
    {
        let ghost state = self@;
        let n = self.frames.len();
        let mut matched: u128 = 0;
        let mut widest: u64 = 0;
        let mut i: usize = 0;
        while i < n
            invariant
                i <= n,
                n == self.frames@.len(),
                state == self@,
                state.wf(),
                matched == state.matched_samples(i as int),
                widest == state.widest_samples(i as int),
                matched <= i * u64::MAX,
            decreases n - i,
        {
            assert(state.frames[i as int] == self.frames@[i as int]@);
            assert(state.frames[i as int].start < state.frames[i as int].end);
            proof {
                assert(i * u64::MAX + u64::MAX == (i + 1) * u64::MAX) by (nonlinear_arith);
                assert((i + 1) * u64::MAX <= usize::MAX * u64::MAX) by (nonlinear_arith)
                    requires
                        i + 1 <= usize::MAX,
                ;
                assert(usize::MAX * u64::MAX <= u64::MAX * u64::MAX) by (nonlinear_arith)
                    requires
                        usize::MAX <= u64::MAX,
                ;
            }
            let row = self.rows[i];
            if row.visible && !row.zoomed_ancestor {
                let samples = self.frames[i].end - self.frames[i].start;
                if row.highlighted {
                    matched = matched + samples as u128;
                }
                if samples > widest {
                    widest = samples;
                }
            }
            i += 1;
        }
        if widest == 0 {
            (0, 1)
        } else {
            (matched, widest)
        }
    }
}

} // verus!
