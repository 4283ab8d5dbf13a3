use flg::frames::{process_stacks, Frame};
use flg::geometry::Ratio;
use flg::stacks::StackCounts;
use flg::view::{Action, FlameView, FrameView, Placement, SearchOutcome};

fn table(entries: &[(&str, u64)]) -> StackCounts {
    let mut stacks = StackCounts::new();
    for (path, count) in entries {
        assert!(stacks.insert(path, *count));
    }
    stacks
}

fn view_of(entries: &[(&str, u64)]) -> FlameView {
    let (frames, total, _) = process_stacks(&table(entries));
    FlameView::new(frames, total).unwrap()
}

fn example() -> FlameView {
    view_of(&[("main;foo;bar", 100), ("main;foo;baz", 50), ("main;qux", 25)])
}

fn index(view: &FlameView, name: &str) -> usize {
    view.frames().iter().position(|f| f.name == name).unwrap()
}

fn fixed(left: (u64, u64), width: (u64, u64)) -> Placement {
    Placement::Fixed {
        left: Ratio { num: left.0, den: left.1 },
        width: Ratio { num: width.0, den: width.1 },
    }
}

fn plain(placement: Placement) -> FrameView {
    FrameView {
        visible: true,
        placement,
        highlighted: false,
        faded: false,
        zoomed_ancestor: false,
    }
}

fn off() -> FrameView {
    FrameView {
        visible: false,
        placement: Placement::Off,
        highlighted: false,
        faded: false,
        zoomed_ancestor: false,
    }
}

fn width(view: &FlameView, i: usize) -> f64 {
    match view.rows()[i].placement {
        Placement::Off => 0.0,
        Placement::Fixed { width, .. } => width.num as f64 / width.den as f64,
        Placement::Share { parent, share, group, .. } => {
            width(view, parent) * share as f64 / group as f64
        }
    }
}

fn left(view: &FlameView, i: usize) -> f64 {
    match view.rows()[i].placement {
        Placement::Off => 0.0,
        Placement::Fixed { left, .. } => left.num as f64 / left.den as f64,
        Placement::Share { parent, before, group, .. } => {
            left(view, parent) + width(view, parent) * before as f64 / group as f64
        }
    }
}

fn names_on_chart(view: &FlameView) -> Vec<String> {
    let mut names: Vec<String> = view
        .frames()
        .iter()
        .zip(view.rows().iter())
        .filter(|(_, row)| row.visible)
        .map(|(frame, _)| frame.name.clone())
        .collect();
    names.sort();
    names
}

#[test]
fn first_view_places_every_frame_by_its_span() {
    let view = example();
    assert_eq!(view.total(), 175);
    assert_eq!(view.zoom_target(), None);
    for (frame, row) in view.frames().iter().zip(view.rows().iter()) {
        assert_eq!(
            *row,
            plain(fixed((frame.start, 175), (frame.end - frame.start, 175)))
        );
    }
    let baz = index(&view, "baz");
    assert_eq!(view.rows()[baz], plain(fixed((100, 175), (50, 175))));
}

#[test]
fn open_gives_the_view_that_new_gives() {
    let (frames, total, _) = process_stacks(&table(&[("a;b", 2), ("a;c", 3)]));
    let opened = FlameView::open(frames.clone(), total);
    let made = FlameView::new(frames, total).unwrap();
    assert_eq!(opened.rows(), made.rows());
    assert_eq!(opened.total(), 5);
}

#[test]
fn new_refuses_frames_without_a_sample() {
    let empty = Frame { name: "x".to_string(), depth: 0, start: 3, end: 3 };
    assert!(FlameView::new(vec![empty], 10).is_none());
    let beyond = Frame { name: "x".to_string(), depth: 0, start: 3, end: 11 };
    assert!(FlameView::new(vec![beyond], 10).is_none());
    let good = Frame { name: "x".to_string(), depth: 0, start: 0, end: 10 };
    assert!(FlameView::new(vec![good], 10).is_some());
    assert!(FlameView::new(Vec::new(), 0).is_some());
}

#[test]
fn hiding_a_subtree_stretches_what_is_left() {
    let mut view = example();
    let foo = index(&view, "foo");
    let root = index(&view, "");
    let main = index(&view, "main");
    let qux = index(&view, "qux");
    view.hide_subtree(foo);
    assert_eq!(names_on_chart(&view), vec!["", "main", "qux"]);
    assert!(view.is_hidden(foo));
    assert!(view.is_hidden(index(&view, "bar")));
    assert!(view.is_hidden(index(&view, "baz")));
    assert!(!view.is_hidden(qux));
    assert_eq!(view.rows()[foo], off());
    assert_eq!(view.rows()[root], plain(fixed((0, 1), (1, 1))));
    assert_eq!(
        view.rows()[main],
        plain(Placement::Share { parent: root, before: 0, share: 175, group: 175 })
    );
    assert_eq!(
        view.rows()[qux],
        plain(Placement::Share { parent: main, before: 0, share: 25, group: 25 })
    );
    assert_eq!(left(&view, qux), 0.0);
    assert_eq!(width(&view, qux), 1.0);
}

#[test]
fn children_share_the_width_of_their_parent() {
    let mut view = view_of(&[
        ("a;b;c", 30),
        ("a;b;d", 10),
        ("a;e", 20),
        ("a;f;g", 40),
        ("h", 100),
    ]);
    let f = index(&view, "f");
    view.hide_subtree(f);
    let a = index(&view, "a");
    let b = index(&view, "b");
    let c = index(&view, "c");
    let d = index(&view, "d");
    let e = index(&view, "e");
    let h = index(&view, "h");
    let root = index(&view, "");
    assert_eq!(
        view.rows()[a].placement,
        Placement::Share { parent: root, before: 0, share: 100, group: 200 }
    );
    assert_eq!(
        view.rows()[h].placement,
        Placement::Share { parent: root, before: 100, share: 100, group: 200 }
    );
    assert_eq!(
        view.rows()[b].placement,
        Placement::Share { parent: a, before: 0, share: 40, group: 60 }
    );
    assert_eq!(
        view.rows()[e].placement,
        Placement::Share { parent: a, before: 40, share: 20, group: 60 }
    );
    assert_eq!(
        view.rows()[c].placement,
        Placement::Share { parent: b, before: 0, share: 30, group: 40 }
    );
    assert_eq!(
        view.rows()[d].placement,
        Placement::Share { parent: b, before: 30, share: 10, group: 40 }
    );
    for parent in 0..view.frames().len() {
        let children: Vec<usize> = (0..view.frames().len())
            .filter(|&c| match view.rows()[c].placement {
                Placement::Share { parent: p, .. } => p == parent,
                _ => false,
            })
            .collect();
        if children.is_empty() {
            continue;
        }
        let sum: f64 = children.iter().map(|&c| width(&view, c)).sum();
        assert!((sum - width(&view, parent)).abs() < 1e-12);
        let mut shares: u128 = 0;
        for &c in &children {
            if let Placement::Share { before, share, group, .. } = view.rows()[c].placement {
                assert_eq!(before, shares);
                shares += share as u128;
                assert!(group > 0);
            }
        }
        if let Placement::Share { group, .. } = view.rows()[children[0]].placement {
            assert_eq!(shares, group);
        }
    }
    assert!((width(&view, e) - 0.5 * 20.0 / 60.0).abs() < 1e-12);
    assert!((left(&view, e) - 0.5 * 40.0 / 60.0).abs() < 1e-12);
    assert!((left(&view, d) - 0.5 * (40.0 / 60.0) * 0.75).abs() < 1e-12);
}

#[test]
fn making_the_layout_anew_undoes_a_zoom() {
    let mut view = example();
    view.hide_subtree(index(&view, "bar"));
    let filtered: Vec<FrameView> = view.rows().clone();
    view.zoom_to(index(&view, "qux"));
    assert_ne!(*view.rows(), filtered);
    view.recompute_visibility();
    let foo = index(&view, "foo");
    for (i, row) in view.rows().iter().enumerate() {
        assert_eq!(row.placement, filtered[i].placement);
        assert_eq!(row.visible, filtered[i].visible);
    }
    assert!(view.rows()[index(&view, "main")].zoomed_ancestor);
    assert!(!view.rows()[foo].zoomed_ancestor);
    assert_eq!(view.zoom_target(), Some(index(&view, "qux")));
}

#[test]
fn reset_hidden_shows_everything_again() {
    let mut view = example();
    let first: Vec<FrameView> = view.rows().clone();
    view.hide_subtree(index(&view, "foo"));
    view.hide_subtree(index(&view, "qux"));
    assert_eq!(names_on_chart(&view), vec!["", "main"]);
    view.reset_hidden();
    assert_eq!(*view.rows(), first);
}

#[test]
fn hiding_an_index_beyond_the_frames_changes_nothing() {
    let mut view = example();
    let first: Vec<FrameView> = view.rows().clone();
    view.hide_subtree(99);
    assert_eq!(*view.rows(), first);
    view.zoom_to(99);
    assert_eq!(*view.rows(), first);
    assert_eq!(view.zoom_target(), None);
}

#[test]
fn zoom_places_frames_in_the_window_of_the_target() {
    let mut view = example();
    let foo = index(&view, "foo");
    view.zoom_to(foo);
    assert_eq!(view.zoom_target(), Some(foo));
    let banner = FrameView { zoomed_ancestor: true, ..plain(fixed((0, 1), (1, 1))) };
    assert_eq!(view.rows()[index(&view, "")], banner);
    assert_eq!(view.rows()[index(&view, "main")], banner);
    assert_eq!(view.rows()[foo], plain(fixed((0, 150), (150, 150))));
    assert_eq!(view.rows()[index(&view, "bar")], plain(fixed((0, 150), (100, 150))));
    assert_eq!(view.rows()[index(&view, "baz")], plain(fixed((100, 150), (50, 150))));
    assert_eq!(view.rows()[index(&view, "qux")], off());
}

#[test]
fn zoom_into_a_frame_off_the_chart_changes_nothing() {
    let mut view = example();
    view.hide_subtree(index(&view, "foo"));
    let hidden: Vec<FrameView> = view.rows().clone();
    view.zoom_to(index(&view, "bar"));
    assert_eq!(*view.rows(), hidden);
    assert_eq!(view.zoom_target(), None);
}

#[test]
fn leaving_the_zoom_restores_the_layout() {
    let mut view = example();
    let first: Vec<FrameView> = view.rows().clone();
    view.zoom_to(index(&view, "baz"));
    assert_ne!(*view.rows(), first);
    view.reset_zoom();
    assert_eq!(*view.rows(), first);
    assert_eq!(view.zoom_target(), None);

    view.hide_subtree(index(&view, "bar"));
    let filtered: Vec<FrameView> = view.rows().clone();
    view.zoom_to(index(&view, "qux"));
    view.reset_zoom();
    assert_eq!(*view.rows(), filtered);
}

#[test]
fn zoom_leaves_hidden_frames_off_the_chart() {
    let mut view = example();
    view.hide_subtree(index(&view, "bar"));
    view.zoom_to(index(&view, "foo"));
    assert_eq!(names_on_chart(&view), vec!["", "baz", "foo", "main"]);
    assert_eq!(view.rows()[index(&view, "baz")], plain(fixed((100, 150), (50, 150))));
}

#[test]
fn search_marks_rows_and_moves_none() {
    let mut view = example();
    let places: Vec<Placement> = view.rows().iter().map(|r| r.placement).collect();
    let matches: Vec<bool> = view.frames().iter().map(|f| f.name.starts_with("ba")).collect();
    assert!(view.set_search("^ba".to_string(), SearchOutcome::Matches(matches)));
    for (frame, row) in view.frames().iter().zip(view.rows().iter()) {
        assert!(row.visible);
        assert_eq!(row.highlighted, frame.name.starts_with("ba"));
        assert_eq!(row.faded, !frame.name.starts_with("ba"));
    }
    assert_eq!(
        view.rows().iter().map(|r| r.placement).collect::<Vec<_>>(),
        places
    );
    assert_eq!(view.matched_fraction(), (150, 175));
    assert_eq!(view.search_pattern(), Some("^ba"));
    view.clear_search();
    assert_eq!(view.search_pattern(), None);
    assert!(view.rows().iter().all(|r| !r.highlighted && !r.faded));
}

#[test]
fn an_invalid_pattern_changes_nothing() {
    let mut view = example();
    let matches: Vec<bool> = view.frames().iter().map(|f| f.name == "qux").collect();
    assert!(view.set_search("qux".to_string(), SearchOutcome::Matches(matches)));
    let marked: Vec<FrameView> = view.rows().clone();
    assert!(!view.set_search("(".to_string(), SearchOutcome::Invalid));
    assert_eq!(*view.rows(), marked);
    assert_eq!(view.search_pattern(), Some("qux"));
    assert!(!view.set_search("x".to_string(), SearchOutcome::Matches(vec![true])));
    assert_eq!(*view.rows(), marked);
    assert_eq!(view.matched_fraction(), (25, 175));
}

#[test]
fn highlighting_survives_hiding_and_zooming() {
    let mut view = example();
    let matches: Vec<bool> = view.frames().iter().map(|f| f.name == "baz").collect();
    assert!(view.set_search("baz".to_string(), SearchOutcome::Matches(matches)));
    view.hide_subtree(index(&view, "bar"));
    let baz = index(&view, "baz");
    assert!(view.rows()[baz].highlighted);
    assert!(view.rows()[index(&view, "qux")].faded);
    assert!(!view.rows()[index(&view, "bar")].faded);
    view.zoom_to(index(&view, "foo"));
    assert!(view.rows()[baz].highlighted);
    assert!(view.rows()[index(&view, "main")].faded);
    assert!(view.rows()[index(&view, "main")].zoomed_ancestor);
    // Banners over the target do not count; the widest frame that counts
    // is the target itself.
    assert_eq!(view.matched_fraction(), (50, 150));
}

#[test]
fn the_share_of_the_search_is_zero_without_frames() {
    let view = FlameView::new(Vec::new(), 0).unwrap();
    assert_eq!(view.matched_fraction(), (0, 1));
    let view = example();
    assert_eq!(view.matched_fraction(), (0, 175));
}

#[test]
fn reset_all_restores_the_first_view() {
    let mut view = example();
    let first: Vec<FrameView> = view.rows().clone();
    let matches: Vec<bool> = view.frames().iter().map(|f| f.name == "baz").collect();
    view.apply(Action::Hide(index(&view, "bar")));
    view.apply(Action::ZoomTo(index(&view, "foo")));
    view.apply(Action::SetSearch("baz".to_string(), SearchOutcome::Matches(matches)));
    view.apply(Action::Hide(index(&view, "qux")));
    view.apply(Action::ZoomTo(index(&view, "baz")));
    assert_ne!(*view.rows(), first);
    view.apply(Action::ResetAll);
    assert_eq!(*view.rows(), first);
    assert_eq!(view.zoom_target(), None);
    assert!((0..view.frames().len()).all(|i| !view.is_hidden(i)));
    assert_eq!(view.matched_fraction(), (0, 175));
}

#[test]
fn actions_do_what_the_methods_do() {
    let mut by_action = example();
    let mut by_method = example();
    let foo = index(&by_action, "foo");
    by_action.apply(Action::Hide(foo));
    by_method.hide_subtree(foo);
    assert_eq!(by_action.rows(), by_method.rows());
    by_action.apply(Action::ResetHidden);
    by_method.reset_hidden();
    assert_eq!(by_action.rows(), by_method.rows());
    by_action.apply(Action::ZoomTo(foo));
    by_method.zoom_to(foo);
    assert_eq!(by_action.rows(), by_method.rows());
    by_action.apply(Action::Recompute);
    by_method.recompute_visibility();
    assert_eq!(by_action.rows(), by_method.rows());
    by_action.apply(Action::ZoomTo(foo));
    by_method.zoom_to(foo);
    by_action.apply(Action::ResetZoom);
    by_method.reset_zoom();
    assert_eq!(by_action.rows(), by_method.rows());
    by_action.apply(Action::SetSearch(
        "x".to_string(),
        SearchOutcome::Matches(vec![true; 6]),
    ));
    assert!(by_method.set_search("x".to_string(), SearchOutcome::Matches(vec![true; 6])));
    assert_eq!(by_action.rows(), by_method.rows());
    assert!(by_action.rows().iter().all(|r| r.highlighted));
    by_action.apply(Action::ClearSearch);
    by_method.clear_search();
    assert_eq!(by_action.rows(), by_method.rows());
}

#[test]
fn a_larger_view_keeps_its_shares_whole() {
    let mut entries: Vec<(String, u64)> = Vec::new();
    for i in 0..300u64 {
        entries.push((format!("main;f{};g{};leaf{}", i % 5, i % 17, i), 1 + i % 9));
    }
    let mut stacks = StackCounts::new();
    for (path, count) in &entries {
        assert!(stacks.insert(path, *count));
    }
    let (frames, total, _) = process_stacks(&stacks);
    let mut view = FlameView::new(frames, total).unwrap();
    let first: Vec<FrameView> = view.rows().clone();
    let f3 = view.frames().iter().position(|f| f.name == "f3").unwrap();
    let g5 = view.frames().iter().position(|f| f.name == "g5").unwrap();
    view.hide_subtree(f3);
    view.hide_subtree(g5);
    let n = view.frames().len();
    let mut shares = vec![0u128; n];
    let mut groups = vec![0u128; n];
    for c in 0..n {
        assert_eq!(view.rows()[c].visible, !view.is_hidden(c));
        if let Placement::Share { parent, share, group, .. } = view.rows()[c].placement {
            assert!(view.rows()[parent].visible);
            assert_eq!(view.frames()[parent].depth + 1, view.frames()[c].depth);
            shares[parent] += share as u128;
            groups[parent] = group;
        }
    }
    for p in 0..n {
        assert_eq!(shares[p], groups[p]);
    }
    let leaves: f64 = (0..n)
        .filter(|&c| view.rows()[c].visible && view.frames()[c].depth == 4)
        .map(|c| width(&view, c))
        .sum();
    assert!((leaves - 1.0).abs() < 1e-9);
    view.reset_all();
    assert_eq!(*view.rows(), first);
}

#[test]
fn hiding_the_root_empties_the_chart() {
    let mut view = example();
    view.hide_subtree(index(&view, ""));
    assert!(view.rows().iter().all(|row| *row == off()));
    assert_eq!(view.matched_fraction(), (0, 1));
    view.zoom_to(index(&view, "main"));
    assert_eq!(view.zoom_target(), None);
    view.reset_hidden();
    assert!(view.rows().iter().all(|row| row.visible));
}

#[test]
fn hiding_a_subtree_twice_is_hiding_it_once() {
    let mut once = example();
    let mut twice = example();
    let foo = index(&once, "foo");
    once.hide_subtree(foo);
    twice.hide_subtree(foo);
    twice.hide_subtree(foo);
    assert_eq!(once.rows(), twice.rows());
    let bar = index(&once, "bar");
    once.hide_subtree(bar);
    assert_eq!(once.rows(), twice.rows());
}

#[test]
fn zooming_into_the_root_shows_the_whole_chart() {
    let mut view = example();
    view.zoom_to(index(&view, ""));
    for (frame, row) in view.frames().iter().zip(view.rows().iter()) {
        assert_eq!(
            *row,
            plain(fixed((frame.start, 175), (frame.end - frame.start, 175)))
        );
    }
    view.zoom_to(index(&view, "baz"));
    view.zoom_to(index(&view, "foo"));
    // Frames that left the chart for the first zoom stay off it.
    assert_eq!(view.rows()[index(&view, "bar")], off());
    assert_eq!(view.rows()[index(&view, "baz")], plain(fixed((100, 150), (50, 150))));
    view.reset_zoom();
    assert!(view.rows().iter().all(|row| row.visible && !row.zoomed_ancestor));
}
