use flg::frames::{call_stack, process_stacks, shared_depth, Frame};
use flg::stacks::{to_chars, StackCounts};

fn table(entries: &[(&str, u64)]) -> StackCounts {
    let mut stacks = StackCounts::new();
    for (path, count) in entries {
        assert!(stacks.insert(path, *count));
    }
    stacks
}

fn find<'a>(frames: &'a [Frame], name: &str, depth: usize) -> &'a Frame {
    frames
        .iter()
        .find(|f| f.name == name && f.depth == depth)
        .unwrap()
}

fn spans(frames: &[Frame]) -> Vec<(String, usize, u64, u64)> {
    frames
        .iter()
        .map(|f| (f.name.clone(), f.depth, f.start, f.end))
        .collect()
}

#[test]
fn builds_the_frames_of_three_paths() {
    let stacks = table(&[("main;foo;bar", 100), ("main;foo;baz", 50), ("main;qux", 25)]);
    let (frames, total, depth_max) = process_stacks(&stacks);
    assert_eq!(total, 175);
    assert_eq!(depth_max, 3);
    assert_eq!(frames.len(), 6);
    let root = find(&frames, "", 0);
    assert_eq!((root.start, root.end), (0, 175));
    let main = find(&frames, "main", 1);
    assert_eq!((main.start, main.end), (0, 175));
    let foo = find(&frames, "foo", 2);
    assert_eq!((foo.start, foo.end), (0, 150));
    let bar = find(&frames, "bar", 3);
    assert_eq!((bar.start, bar.end), (0, 100));
    let baz = find(&frames, "baz", 3);
    assert_eq!((baz.start, baz.end), (100, 150));
    let qux = find(&frames, "qux", 2);
    assert_eq!((qux.start, qux.end), (150, 175));
}

#[test]
fn frames_come_in_the_order_in_which_they_close() {
    let stacks = table(&[("main;qux", 25), ("main;foo;baz", 50), ("main;foo;bar", 100)]);
    let (frames, _, _) = process_stacks(&stacks);
    assert_eq!(
        spans(&frames),
        vec![
            ("bar".to_string(), 3, 0, 100),
            ("baz".to_string(), 3, 100, 150),
            ("foo".to_string(), 2, 0, 150),
            ("qux".to_string(), 2, 150, 175),
            ("main".to_string(), 1, 0, 175),
            ("".to_string(), 0, 0, 175),
        ]
    );
}

#[test]
fn order_of_insertion_does_not_matter() {
    let a = table(&[("x;y", 1), ("x;z", 2), ("w", 3)]);
    let b = table(&[("w", 3), ("x;z", 2), ("x;y", 1)]);
    assert_eq!(spans(&process_stacks(&a).0), spans(&process_stacks(&b).0));
}

#[test]
fn empty_table_gives_no_frames() {
    let stacks = StackCounts::new();
    let (frames, total, depth_max) = process_stacks(&stacks);
    assert!(frames.is_empty());
    assert_eq!(total, 0);
    assert_eq!(depth_max, 0);
}

#[test]
fn paths_without_samples_give_no_frames() {
    let stacks = table(&[("a;b", 0), ("a;c", 0)]);
    let (frames, total, depth_max) = process_stacks(&stacks);
    assert!(frames.is_empty());
    assert_eq!(total, 0);
    assert_eq!(depth_max, 0);
}

#[test]
fn zero_width_frames_are_left_out() {
    let stacks = table(&[("a;b", 0), ("a;c", 7), ("a;d;e", 0)]);
    let (frames, total, depth_max) = process_stacks(&stacks);
    assert_eq!(total, 7);
    assert_eq!(depth_max, 2);
    assert_eq!(
        spans(&frames),
        vec![
            ("c".to_string(), 2, 0, 7),
            ("a".to_string(), 1, 0, 7),
            ("".to_string(), 0, 0, 7),
        ]
    );
}

#[test]
fn a_name_that_sorts_between_two_runs_splits_the_node() {
    // '.' sorts before ';', so "a.b" stands between "a" and "a;c".
    let stacks = table(&[("a", 1), ("a.b", 2), ("a;c", 4)]);
    let (frames, total, _) = process_stacks(&stacks);
    assert_eq!(total, 7);
    assert_eq!(
        spans(&frames),
        vec![
            ("a".to_string(), 1, 0, 1),
            ("a.b".to_string(), 1, 1, 3),
            ("c".to_string(), 2, 3, 7),
            ("a".to_string(), 1, 3, 7),
            ("".to_string(), 0, 0, 7),
        ]
    );
}

#[test]
fn the_empty_path_is_one_empty_name_under_the_root() {
    let stacks = table(&[("", 5)]);
    let (frames, total, depth_max) = process_stacks(&stacks);
    assert_eq!(total, 5);
    assert_eq!(depth_max, 1);
    assert_eq!(
        spans(&frames),
        vec![("".to_string(), 1, 0, 5), ("".to_string(), 0, 0, 5)]
    );
}

#[test]
fn call_stack_splits_on_semicolons() {
    let names = |path: &str| call_stack(&to_chars(path));
    assert_eq!(names("main;foo;bar"), vec!["", "main", "foo", "bar"]);
    assert_eq!(names("main"), vec!["", "main"]);
    assert_eq!(names(""), vec!["", ""]);
    assert_eq!(names("a;"), vec!["", "a", ""]);
    assert_eq!(names(";"), vec!["", "", ""]);
    assert_eq!(names("a;;b"), vec!["", "a", "", "b"]);
}

#[test]
fn shared_depth_counts_equal_leading_names() {
    let a = call_stack(&to_chars("main;foo;bar"));
    let b = call_stack(&to_chars("main;foo;baz"));
    let c = call_stack(&to_chars("main"));
    let d = call_stack(&to_chars("other;foo;bar"));
    assert_eq!(shared_depth(&a, &b), 3);
    assert_eq!(shared_depth(&a, &c), 2);
    assert_eq!(shared_depth(&a, &a), 4);
    assert_eq!(shared_depth(&a, &d), 1);
    assert_eq!(shared_depth(&Vec::new(), &a), 0);
}

#[test]
fn spans_nest_along_every_path() {
    let stacks = table(&[
        ("a;b;c", 3),
        ("a;b;d", 4),
        ("a;e", 5),
        ("f;b;c", 6),
        ("f", 1),
        ("a;b", 2),
    ]);
    let (frames, total, _) = process_stacks(&stacks);
    assert_eq!(total, 21);
    for child in frames.iter().filter(|f| f.depth > 0) {
        let parents: Vec<&Frame> = frames
            .iter()
            .filter(|p| p.depth + 1 == child.depth && p.start <= child.start && child.end <= p.end)
            .collect();
        assert_eq!(parents.len(), 1);
    }
    let a = find(&frames, "a", 1);
    let b = frames
        .iter()
        .find(|f| f.name == "b" && f.depth == 2 && f.start >= a.start && f.end <= a.end)
        .unwrap();
    let c = frames
        .iter()
        .find(|f| f.name == "c" && f.depth == 3 && f.start >= b.start && f.end <= b.end)
        .unwrap();
    assert_eq!((a.start, a.end), (0, 14));
    assert_eq!((b.start, b.end), (0, 9));
    assert_eq!((c.start, c.end), (2, 5));
}

#[test]
fn depth_zero_covers_all_samples() {
    let stacks = table(&[("a;b", 3), ("c", 4), ("d;e;f", 5)]);
    let (frames, total, _) = process_stacks(&stacks);
    let at_root: u64 = frames
        .iter()
        .filter(|f| f.depth == 0)
        .map(|f| f.end - f.start)
        .sum();
    assert_eq!(total, 12);
    assert_eq!(at_root, total);
    assert_eq!(frames.iter().map(|f| f.end).max(), Some(total));
}

#[test]
fn frames_of_one_depth_do_not_overlap() {
    let stacks = table(&[
        ("a;b;c", 3),
        ("a;b;d", 4),
        ("a;e", 5),
        ("f;b;c", 6),
        ("f", 1),
        ("a.x", 2),
    ]);
    let (frames, _, depth_max) = process_stacks(&stacks);
    for depth in 0..=depth_max {
        let level: Vec<&Frame> = frames.iter().filter(|f| f.depth == depth).collect();
        for pair in level.windows(2) {
            assert!(pair[0].start < pair[0].end);
            assert!(pair[1].start >= pair[0].end);
        }
    }
}

#[test]
fn a_large_table_builds_a_call_tree() {
    let mut stacks = StackCounts::new();
    let mut expected_total = 0u64;
    for i in 0..2000u64 {
        let path = format!("main;f{};g{};h{};leaf{}", i % 7, i % 31, i % 101, i);
        let count = 1 + (i * 37) % 11;
        assert!(stacks.insert(&path, count));
        expected_total += count;
    }
    assert_eq!(stacks.len(), 2000);
    let (frames, total, depth_max) = process_stacks(&stacks);
    assert_eq!(total, expected_total);
    assert_eq!(depth_max, 5);
    assert_eq!(frames.iter().filter(|f| f.depth == 5).count(), 2000);
    assert_eq!(frames.iter().filter(|f| f.depth == 2).count(), 7);
    for depth in 0..=depth_max {
        let mut level: Vec<&Frame> = frames.iter().filter(|f| f.depth == depth).collect();
        let in_list_order: Vec<u64> = level.iter().map(|f| f.start).collect();
        level.sort_by_key(|f| f.start);
        assert_eq!(level.iter().map(|f| f.start).collect::<Vec<_>>(), in_list_order);
        for pair in level.windows(2) {
            assert!(pair[1].start >= pair[0].end);
        }
        if depth <= 1 {
            assert_eq!(level.iter().map(|f| f.end - f.start).sum::<u64>(), total);
        }
    }
}
