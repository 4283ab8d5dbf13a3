use flg::frames::Frame;
use flg::geometry::{is_wide_enough, min_width, project, Projection, Ratio, ROW_HEIGHT};
use flg::page::{generate_error_html, generate_flamegraph, push_row, push_rows};
use flg::stacks::StackCounts;

fn frame(name: &str, depth: usize, start: u64, end: u64) -> Frame {
    Frame { name: name.to_string(), depth, start, end }
}

#[test]
fn projects_a_frame_onto_the_chart() {
    let f = frame("baz", 3, 100, 150);
    assert_eq!(
        project(&f, 0, 175, ROW_HEIGHT),
        Projection {
            left: Ratio { num: 100, den: 175 },
            width: Ratio { num: 50, den: 175 },
            bottom: 60,
        }
    );
    assert_eq!(
        project(&f, 100, 50, 16),
        Projection {
            left: Ratio { num: 0, den: 50 },
            width: Ratio { num: 50, den: 50 },
            bottom: 48,
        }
    );
    let deep = frame("x", usize::MAX, 0, 1);
    assert_eq!(
        project(&deep, 0, 1, u64::MAX).bottom,
        usize::MAX as u128 * u64::MAX as u128
    );
}

#[test]
fn ratios_compare_as_fractions() {
    let r = |num: u64, den: u64| Ratio { num, den };
    assert!(r(1, 3).is_below(&r(1, 2)));
    assert!(!r(1, 2).is_below(&r(1, 2)));
    assert!(!r(2, 4).is_below(&r(1, 2)));
    assert!(r(7, 10000).is_below(&min_width()));
    assert!(!r(8, 10000).is_below(&min_width()));
    assert!(r(u64::MAX - 1, u64::MAX).is_below(&r(u64::MAX, u64::MAX)));
}

#[test]
fn narrow_frames_are_not_wide_enough() {
    let least = min_width();
    assert!(is_wide_enough(&frame("x", 1, 0, 1), 1250, &least));
    assert!(!is_wide_enough(&frame("x", 1, 0, 1), 1251, &least));
    assert!(is_wide_enough(&frame("x", 1, 5, 13), 10000, &least));
    assert!(!is_wide_enough(&frame("x", 1, 5, 12), 10000, &least));
}

#[test]
fn a_row_holds_the_values_of_its_frame() {
    let mut out = String::new();
    push_row(&mut out, &frame("baz", 3, 100, 150), 175);
    assert_eq!(
        out,
        "            <div class=\"frame\" style=\"left:57.1429%;width:28.5714%;bottom:60px;\
         background:rgb(138,29,169);\" data-name=\"baz\" data-samples=\"50\" data-pct=\"28.57\" \
         data-depth=\"3\" data-start=\"100\" data-end=\"150\">baz</div>\n"
    );
}

#[test]
fn the_root_is_shown_as_all() {
    let mut out = String::from("x");
    push_row(&mut out, &frame("", 0, 0, 175), 175);
    assert_eq!(
        out,
        "x            <div class=\"frame\" style=\"left:0.0000%;width:100.0000%;bottom:0px;\
         background:rgb(99,102,241);\" data-name=\"all\" data-samples=\"175\" data-pct=\"100.00\" \
         data-depth=\"0\" data-start=\"0\" data-end=\"175\">all</div>\n"
    );
}

#[test]
fn names_are_escaped_in_rows() {
    let mut out = String::new();
    push_row(&mut out, &frame("a<b>", 1, 0, 1), 1);
    assert!(out.contains("data-name=\"a&lt;b&gt;\""));
    assert!(out.ends_with(">a&lt;b&gt;</div>\n"));
}

#[test]
fn rows_leave_out_narrow_frames() {
    let frames = vec![
        frame("wide", 1, 0, 9999),
        frame("thin", 1, 9999, 10000),
        frame("", 0, 0, 10000),
    ];
    let mut out = String::new();
    push_rows(&mut out, &frames, 10000, &min_width());
    assert_eq!(out.matches("<div class=\"frame\"").count(), 2);
    assert!(out.contains("data-name=\"wide\""));
    assert!(!out.contains("thin"));
    let wide = out.find("data-name=\"wide\"").unwrap();
    let all = out.find("data-name=\"all\"").unwrap();
    assert!(wide < all);

    let mut everything = String::new();
    push_rows(&mut everything, &frames, 10000, &Ratio { num: 0, den: 1 });
    assert_eq!(everything.matches("<div class=\"frame\"").count(), 3);
    let mut half = String::new();
    push_rows(&mut half, &frames, 10000, &Ratio { num: 1, den: 1 });
    assert_eq!(half.matches("<div class=\"frame\"").count(), 1);
}

#[test]
fn the_page_holds_head_frames_and_script() {
    let mut stacks = StackCounts::new();
    stacks.insert("main;foo;bar", 1000);
    stacks.insert("main;foo;baz", 500);
    stacks.insert("main;qux", 250);
    let html = generate_flamegraph(&stacks, "A & B", Some("<sub>"));
    assert!(html.starts_with("<!DOCTYPE html>\n<html lang=\"en\">"));
    assert!(html.ends_with("</script>\n</body>\n</html>"));
    assert!(html.contains("<title>A &amp; B</title>"));
    assert!(html.contains("<h1>A &amp; B</h1>"));
    assert!(html.contains("<p class=\"subtitle\">&lt;sub&gt;</p>"));
    assert!(html.contains("    height: 80px;"));
    assert!(html.contains("    height: 18px;"));
    assert!(html.contains("<span class=\"stat-value\">1,750</span>"));
    assert!(html.contains("<span class=\"stat-value\">3</span>"));
    assert!(html.contains("const totalSamples = 1750;"));
    assert_eq!(html.matches("<div class=\"frame\"").count(), 6);
    assert!(html.contains(
        "style=\"left:85.7143%;width:14.2857%;bottom:40px;background:rgb(21,125,177);\" \
         data-name=\"qux\" data-samples=\"250\" data-pct=\"14.29\" data-depth=\"2\" \
         data-start=\"1500\" data-end=\"1750\">qux</div>"
    ));
    assert!(!html.contains("{{"));
    assert!(html.contains("function isFrameHidden(frame) {"));
}

#[test]
fn a_page_without_subtitle_has_no_subtitle_line() {
    let mut stacks = StackCounts::new();
    stacks.insert("a", 1);
    let html = generate_flamegraph(&stacks, "T", None);
    assert!(!html.contains("<p class=\"subtitle\">"));
    assert!(html.contains("<h1>T</h1>\n            \n        </div>"));
}

#[test]
fn the_error_page_escapes_its_message() {
    let html = generate_error_html("a < b");
    assert!(html.starts_with("<!DOCTYPE html>"));
    assert!(html.contains("<title>Error</title>"));
    assert!(html.contains("    <h1>Error</h1>\n    <p>a &lt; b</p>\n"));
    assert!(html.ends_with("</div>\n</body>\n</html>"));
}

#[test]
fn a_table_without_samples_gives_the_error_page() {
    let mut stacks = StackCounts::new();
    stacks.insert("a;b", 0);
    assert_eq!(
        generate_flamegraph(&stacks, "T", None),
        generate_error_html("No valid stack data provided")
    );
}
