use flg::batch::{generate_batch_flamegraph, FlameGraphEntry};
use flg::page::generate_flamegraph;
use flg::stacks::StackCounts;

fn table(entries: &[(&str, u64)]) -> StackCounts {
    let mut stacks = StackCounts::new();
    for (path, count) in entries {
        assert!(stacks.insert(path, *count));
    }
    stacks
}

fn example() -> StackCounts {
    table(&[("main;foo;bar", 100), ("main;foo;baz", 50), ("main;qux", 25)])
}

fn big() -> StackCounts {
    table(&[
        ("a;b;c", 12345),
        ("a;b;d<e>", 678),
        ("a;f", 9),
        ("g&h;i", 4321),
        ("j", 1),
        ("k;l;m;n;o", 77),
        ("a;b;c;p", 31),
    ])
}

/// The length of a page and a checksum of its bytes, each byte folded in by
/// xor and a multiplication.
fn print_of(page: &str) -> (usize, u64) {
    let mut sum: u64 = 0xcbf29ce484222325;
    for byte in page.bytes() {
        sum ^= byte as u64;
        sum = sum.wrapping_mul(0x100000001b3);
    }
    (page.len(), sum)
}

#[test]
fn the_page_of_the_example_is_known_byte_for_byte() {
    let html = generate_flamegraph(&example(), "Test Graph", None);
    assert_eq!(print_of(&html), (29744, 0x21280208ba325dea));
}

#[test]
fn the_page_of_a_larger_graph_is_known_byte_for_byte() {
    let html = generate_flamegraph(&big(), "Big <graph> & \"more\"", Some("it's a subtitle"));
    assert_eq!(print_of(&html), (31387, 0x95937312a23aee3f));
}

#[test]
fn the_error_page_is_known_byte_for_byte() {
    let html = generate_flamegraph(&StackCounts::new(), "Empty", None);
    assert_eq!(print_of(&html), (802, 0x3ec8752dc9547bb8));
}

#[test]
fn the_batch_page_of_one_graph_is_known_byte_for_byte() {
    let entries = vec![FlameGraphEntry { stacks: big(), title: "only".to_string() }];
    let html = generate_batch_flamegraph(&entries);
    assert_eq!(print_of(&html), (26862, 0xb92a9f57947b0666));
}

#[test]
fn the_batch_page_of_an_empty_graph_is_known_byte_for_byte() {
    let entries = vec![FlameGraphEntry {
        stacks: StackCounts::new(),
        title: "nothing <here>".to_string(),
    }];
    let html = generate_batch_flamegraph(&entries);
    assert_eq!(print_of(&html), (6785, 0x72d3d907fd6f09a5));
}

#[test]
fn the_batch_page_of_two_graphs_ends_with_the_combined_one() {
    let entries = vec![
        FlameGraphEntry { stacks: example(), title: "first".to_string() },
        FlameGraphEntry { stacks: big(), title: "second".to_string() },
    ];
    let html = generate_batch_flamegraph(&entries);
    assert_eq!(print_of(&html), (66911, 0xa7fbf82289e1eb29));
}
