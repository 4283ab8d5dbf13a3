use flg::batch::{build_batch, combine, generate_batch_flamegraph, push_section, FlameGraphEntry};
use flg::page::generate_error_html;
use flg::stacks::{to_text, StackCounts};

fn entry(title: &str, counts: &[(&str, u64)]) -> FlameGraphEntry {
    let mut stacks = StackCounts::new();
    for (path, count) in counts {
        assert!(stacks.insert(path, *count));
    }
    FlameGraphEntry { stacks, title: title.to_string() }
}

fn listing(stacks: &StackCounts) -> Vec<(String, u64)> {
    (0..stacks.len())
        .map(|i| (to_text(stacks.path_at(i)), stacks.count_at(i)))
        .collect()
}

#[test]
fn combined_counts_are_the_sums_by_path() {
    let entries = vec![
        entry("one", &[("a;b", 10)]),
        entry("two", &[("a;b", 5), ("a;c", 3)]),
    ];
    let all = combine(&entries).unwrap();
    assert_eq!(
        listing(&all),
        vec![("a;b".to_string(), 15), ("a;c".to_string(), 3)]
    );
    assert_eq!(all.total(), 18);
}

#[test]
fn combining_three_tables() {
    let entries = vec![
        entry("one", &[("x", 1), ("y", 2)]),
        entry("two", &[]),
        entry("three", &[("y", 3), ("z", 4), ("x", 5)]),
    ];
    let all = combine(&entries).unwrap();
    assert_eq!(
        listing(&all),
        vec![("x".to_string(), 6), ("y".to_string(), 5), ("z".to_string(), 4)]
    );
    assert_eq!(listing(&combine(&[]).unwrap()), Vec::new());
}

#[test]
fn there_is_no_combined_table_beyond_u64() {
    let entries = vec![entry("one", &[("a", u64::MAX)]), entry("two", &[("b", 1)])];
    assert!(combine(&entries).is_none());
    let graphs = build_batch(&entries);
    assert_eq!(graphs.len(), 2);
    let html = generate_batch_flamegraph(&entries);
    assert!(!html.contains("Combined"));
    assert!(html.contains("id=\"section_1\""));
    assert!(!html.contains("id=\"section_2\""));
}

#[test]
fn a_batch_of_several_has_its_combined_graph_last() {
    let entries = vec![
        entry("one", &[("a;b", 10)]),
        entry("two", &[("a;b", 5), ("a;c", 3)]),
    ];
    let graphs = build_batch(&entries);
    assert_eq!(graphs.len(), 3);
    assert_eq!(graphs[0].title, "one");
    assert_eq!(graphs[0].total, 10);
    assert_eq!(graphs[0].depth_max, 2);
    assert_eq!(graphs[1].title, "two");
    assert_eq!(graphs[1].total, 8);
    assert_eq!(graphs[2].title, "Combined");
    assert_eq!(graphs[2].total, 18);
    assert_eq!(graphs[2].depth_max, 2);
    let spans: Vec<(String, usize, u64, u64)> = graphs[2]
        .frames
        .iter()
        .map(|f| (f.name.clone(), f.depth, f.start, f.end))
        .collect();
    assert_eq!(
        spans,
        vec![
            ("b".to_string(), 2, 0, 15),
            ("c".to_string(), 2, 15, 18),
            ("a".to_string(), 1, 0, 18),
            ("".to_string(), 0, 0, 18),
        ]
    );
}

#[test]
fn each_graph_of_a_batch_opens_a_view_of_its_own() {
    let entries = vec![
        entry("one", &[("a;b", 10)]),
        entry("two", &[("a;b", 5), ("a;c", 3)]),
    ];
    let mut views: Vec<_> = build_batch(&entries)
        .into_iter()
        .map(|graph| graph.into_view())
        .collect();
    assert_eq!(views.len(), 3);
    assert_eq!(views[2].total(), 18);
    assert_eq!(views[2].frames().len(), 4);
    let untouched: Vec<_> = views[2].rows().clone();
    views[1].hide_subtree(0);
    views[0].zoom_to(0);
    assert_eq!(*views[2].rows(), untouched);
    assert!(views[2].rows().iter().all(|row| row.visible));
    assert!(!views[1].rows()[0].visible);
}

#[test]
fn a_batch_of_one_has_no_combined_graph() {
    let entries = vec![entry("only", &[("a", 1)])];
    let graphs = build_batch(&entries);
    assert_eq!(graphs.len(), 1);
    assert_eq!(graphs[0].title, "only");
    let html = generate_batch_flamegraph(&entries);
    assert!(!html.contains("Combined"));
    assert!(build_batch(&[]).is_empty());
}

#[test]
fn the_batch_page_has_a_section_for_each_graph() {
    let entries = vec![
        entry("first <1>", &[("a;b", 10)]),
        entry("empty", &[]),
        entry("third", &[("a;b", 5), ("a;c", 3)]),
    ];
    let html = generate_batch_flamegraph(&entries);
    assert!(html.starts_with("<!DOCTYPE html>"));
    assert!(html.contains("<title>Flamegraphs</title>"));
    assert!(html.ends_with("</div>\n</body>\n</html>"));
    assert!(html.contains("<div class=\"flamegraph-section\" id=\"section_0\">"));
    assert!(html.contains("<h2>first &lt;1&gt;</h2>"));
    assert!(html.contains(
        "<header><div class=\"title-section\"><h2>empty</h2>\
         <p class=\"subtitle\">No valid stack data</p></div></header>"
    ));
    assert!(!html.contains("id=\"section_1\""));
    assert!(html.contains("<div class=\"flamegraph-section\" id=\"section_2\">"));
    assert!(html.contains("<div class=\"flamegraph-section\" id=\"section_3\">"));
    assert!(html.contains("<h2>Combined</h2>"));
    assert!(html.contains("<div class=\"chart\" id=\"chart_3\" style=\"height: 60px;\">"));
    assert!(html.contains("    const idx = 3;"));
    assert!(html.contains("    const totalSamples = 18;"));
    assert!(html.contains("<select id=\"paletteSelect_2\">"));
    let third = html.find("id=\"section_2\"").unwrap();
    let combined = html.find("id=\"section_3\"").unwrap();
    assert!(third < combined);
    assert_eq!(html.matches("<script>").count(), 3);
}

#[test]
fn a_section_is_what_the_page_holds_for_its_graph() {
    let one = entry("one", &[("a;b", 10)]);
    let mut section = String::new();
    push_section(&mut section, &one.stacks, "one", 0);
    let html = generate_batch_flamegraph(&[one]);
    assert!(html.contains(&section));
    assert_eq!(section.matches("<div class=\"frame\"").count(), 3);
}

#[test]
fn a_batch_without_entries_gives_the_error_page() {
    assert_eq!(
        generate_batch_flamegraph(&[]),
        generate_error_html("No flamegraph entries provided")
    );
}
