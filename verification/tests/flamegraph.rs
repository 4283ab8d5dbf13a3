use flg::color::color_for_name;
use flg::page::generate_flamegraph;
use flg::stacks::StackCounts;
use flg::text::format_samples;

#[test]
fn test_basic_generation() {
    let mut stacks = StackCounts::new();
    stacks.insert("main;foo;bar", 100);
    stacks.insert("main;foo;baz", 50);
    stacks.insert("main;qux", 25);

    let html = generate_flamegraph(&stacks, "Test Graph", None);

    assert!(html.contains("<!DOCTYPE html>"));
    assert!(html.contains("Test Graph"));
    assert!(html.contains("main"));
    assert!(html.contains("foo"));
    assert!(html.contains("bar"));
}

#[test]
fn test_with_subtitle() {
    let mut stacks = StackCounts::new();
    stacks.insert("a;b", 10);

    let html = generate_flamegraph(&stacks, "Title", Some("My Subtitle"));

    assert!(html.contains("My Subtitle"));
}

#[test]
fn test_empty_stacks() {
    let stacks = StackCounts::new();
    let html = generate_flamegraph(&stacks, "Empty", None);

    assert!(html.contains("Error"));
    assert!(html.contains("No valid stack data"));
}

#[test]
fn test_html_escaping() {
    let mut stacks = StackCounts::new();
    stacks.insert("main;<script>alert('xss')</script>", 10);

    let html = generate_flamegraph(&stacks, "Test <XSS>", None);

    assert!(!html.contains("<script>alert"));
    assert!(html.contains("&lt;script&gt;"));
}

#[test]
fn test_color_generation() {
    let (r1, g1, b1) = color_for_name("function_a");
    let (r2, g2, b2) = color_for_name("function_a");

    // Same name should produce same color
    assert_eq!((r1, g1, b1), (r2, g2, b2));
}

#[test]
fn test_format_samples() {
    assert_eq!(format_samples(1), "1");
    assert_eq!(format_samples(1000), "1,000");
    assert_eq!(format_samples(1000000), "1,000,000");
}
