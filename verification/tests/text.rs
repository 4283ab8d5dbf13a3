use flg::text::{decimal, escape_html, format_samples, percent, push_filled, ten_to};

#[test]
fn escapes_the_five_characters() {
    assert_eq!(escape_html("a"), "a");
    assert_eq!(escape_html(""), "");
    assert_eq!(escape_html("&"), "&amp;");
    assert_eq!(
        escape_html("<a href=\"x\">it's & more</a>"),
        "&lt;a href=&quot;x&quot;&gt;it&#39;s &amp; more&lt;/a&gt;"
    );
    assert_eq!(escape_html("&amp;"), "&amp;amp;");
    assert_eq!(escape_html("é<日"), "é&lt;日");
}

#[test]
fn escaping_matches_replacing_in_turn() {
    for text in ["a<b>&\"c'", "&&&<<", "plain", "&lt;", "'\"'\"", "x&#39;y"] {
        let expected = text
            .replace('&', "&amp;")
            .replace('<', "&lt;")
            .replace('>', "&gt;")
            .replace('"', "&quot;")
            .replace('\'', "&#39;");
        assert_eq!(escape_html(text), expected);
    }
}

#[test]
fn decimal_writes_numbers() {
    assert_eq!(decimal(0), "0");
    assert_eq!(decimal(7), "7");
    assert_eq!(decimal(10), "10");
    assert_eq!(decimal(1234567890), "1234567890");
    assert_eq!(decimal(u64::MAX as u128), u64::MAX.to_string());
    assert_eq!(decimal(u128::MAX), u128::MAX.to_string());
}

#[test]
fn format_samples_groups_by_three() {
    assert_eq!(format_samples(0), "0");
    assert_eq!(format_samples(12), "12");
    assert_eq!(format_samples(999), "999");
    assert_eq!(format_samples(1234), "1,234");
    assert_eq!(format_samples(12345), "12,345");
    assert_eq!(format_samples(123456), "123,456");
    assert_eq!(format_samples(1234567), "1,234,567");
    assert_eq!(format_samples(u64::MAX), "18,446,744,073,709,551,615");
}

#[test]
fn percent_rounds_to_the_nearest_unit() {
    assert_eq!(percent(100, 175, 4), "57.1429");
    assert_eq!(percent(50, 175, 4), "28.5714");
    assert_eq!(percent(25, 175, 4), "14.2857");
    assert_eq!(percent(25, 175, 2), "14.29");
    assert_eq!(percent(175, 175, 4), "100.0000");
    assert_eq!(percent(0, 175, 4), "0.0000");
    assert_eq!(percent(1, 3, 4), "33.3333");
    assert_eq!(percent(2, 3, 4), "66.6667");
    assert_eq!(percent(1, 3, 0), "33.");
    assert_eq!(percent(1, 1250, 4), "0.0800");
    assert_eq!(percent(1, 2_000_000, 4), "0.0001");
    assert_eq!(percent(1, 2_000_001, 4), "0.0000");
    assert_eq!(percent(u64::MAX, u64::MAX, 6), "100.000000");
    assert_eq!(percent(u64::MAX, 1, 2), "1844674407370955161500.00");
}

#[test]
fn percent_agrees_with_floating_point_away_from_ties() {
    let cases: [(u64, u64); 8] = [
        (100, 175),
        (1, 7),
        (3, 11),
        (123456, 7654321),
        (999, 1000),
        (1, 1000),
        (5, 9),
        (17, 4096),
    ];
    for (part, whole) in cases {
        let value = (part as f64 / whole as f64) * 100.0;
        assert_eq!(percent(part, whole, 4), format!("{:.4}", value));
        assert_eq!(percent(part, whole, 2), format!("{:.2}", value));
    }
}

#[test]
fn ten_to_gives_powers_of_ten() {
    assert_eq!(ten_to(0), 1);
    assert_eq!(ten_to(2), 100);
    assert_eq!(ten_to(4), 10_000);
    assert_eq!(ten_to(6), 1_000_000);
}

#[test]
fn push_filled_puts_values_between_pieces() {
    let mut out = String::from("> ");
    let pieces = vec!["a=", ", b=", "."];
    let values = vec!["1".to_string(), "2".to_string()];
    push_filled(&mut out, &pieces, &values);
    assert_eq!(out, "> a=1, b=2.");
    let mut out = String::new();
    push_filled(&mut out, &vec!["only"], &Vec::new());
    assert_eq!(out, "only");
}
