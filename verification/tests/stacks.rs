use flg::stacks::{compare_paths, to_chars, to_text, Rank, StackCounts};

fn listing(stacks: &StackCounts) -> Vec<(String, u64)> {
    (0..stacks.len())
        .map(|i| (to_text(stacks.path_at(i)), stacks.count_at(i)))
        .collect()
}

#[test]
fn entries_are_kept_in_dictionary_order() {
    let mut stacks = StackCounts::new();
    assert!(stacks.insert("b", 2));
    assert!(stacks.insert("a;c", 3));
    assert!(stacks.insert("a", 1));
    assert!(stacks.insert("a.b", 4));
    assert_eq!(
        listing(&stacks),
        vec![
            ("a".to_string(), 1),
            ("a.b".to_string(), 4),
            ("a;c".to_string(), 3),
            ("b".to_string(), 2),
        ]
    );
    assert_eq!(stacks.total(), 10);
}

#[test]
fn insert_replaces_the_count_of_a_path() {
    let mut stacks = StackCounts::new();
    assert!(stacks.insert("a;b", 10));
    assert!(stacks.insert("a;b", 4));
    assert_eq!(listing(&stacks), vec![("a;b".to_string(), 4)]);
    assert_eq!(stacks.total(), 4);
    assert_eq!(stacks.get("a;b"), Some(4));
    assert_eq!(stacks.get("a"), None);
}

#[test]
fn add_puts_counts_on_top() {
    let mut stacks = StackCounts::new();
    assert!(stacks.add("a;b", 10));
    assert!(stacks.add("a;b", 5));
    assert!(stacks.add("a;c", 3));
    assert_eq!(
        listing(&stacks),
        vec![("a;b".to_string(), 15), ("a;c".to_string(), 3)]
    );
    assert_eq!(stacks.total(), 18);
}

#[test]
fn insert_refuses_a_total_beyond_u64() {
    let mut stacks = StackCounts::new();
    assert!(stacks.insert("a", u64::MAX - 1));
    assert!(!stacks.insert("b", 2));
    assert_eq!(listing(&stacks), vec![("a".to_string(), u64::MAX - 1)]);
    assert!(stacks.insert("b", 1));
    assert_eq!(stacks.total(), u64::MAX);
    assert!(stacks.insert("a", 5));
    assert_eq!(stacks.total(), 6);
    assert!(!stacks.add("a", u64::MAX - 5));
    assert_eq!(stacks.get("a"), Some(5));
}

#[test]
fn absorb_merges_two_tables() {
    let mut first = StackCounts::new();
    assert!(first.insert("a;b", 10));
    let mut second = StackCounts::new();
    assert!(second.insert("a;b", 5));
    assert!(second.insert("a;c", 3));
    assert!(first.absorb(&second));
    assert_eq!(
        listing(&first),
        vec![("a;b".to_string(), 15), ("a;c".to_string(), 3)]
    );
}

#[test]
fn absorb_refuses_a_total_beyond_u64() {
    let mut first = StackCounts::new();
    assert!(first.insert("a", u64::MAX));
    let mut second = StackCounts::new();
    assert!(second.insert("a", 1));
    assert!(!first.absorb(&second));
    assert_eq!(listing(&first), vec![("a".to_string(), u64::MAX)]);
}

#[test]
fn paths_compare_character_by_character() {
    let rank = |a: &str, b: &str| compare_paths(&to_chars(a), &to_chars(b));
    assert_eq!(rank("a", "b"), Rank::Before);
    assert_eq!(rank("b", "a"), Rank::After);
    assert_eq!(rank("a", "a"), Rank::Same);
    assert_eq!(rank("a", "a;b"), Rank::Before);
    assert_eq!(rank("a.b", "a;b"), Rank::Before);
    assert_eq!(rank("a;b", "a"), Rank::After);
    assert_eq!(rank("", "a"), Rank::Before);
    assert_eq!(rank("", ""), Rank::Same);
    assert_eq!(rank("é", "z"), Rank::After);
}

#[test]
fn dictionary_order_is_that_of_the_strings() {
    let names = ["", "a", "a;b", "a.b", "ab", "b", "é", "日本", "a;é", "~"];
    for a in names {
        for b in names {
            let expected = if a < b {
                Rank::Before
            } else if a == b {
                Rank::Same
            } else {
                Rank::After
            };
            assert_eq!(compare_paths(&to_chars(a), &to_chars(b)), expected);
        }
    }
}

#[test]
fn characters_round_trip() {
    assert_eq!(to_chars("a;é"), vec!['a', ';', 'é']);
    assert_eq!(to_text(&vec!['a', ';', 'é']), "a;é");
    assert_eq!(to_text(&Vec::new()), "");
}
