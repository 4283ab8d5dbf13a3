//! The renderer: a flame graph as an HTML page that stands on its own.

use crate::color::{color_for_name, color_of};
use crate::frames::{deepest, frames_of, models, process_stacks, Frame, FrameModel};
use crate::geometry::{
    is_wide_enough, least_width, min_width, project, projected, wide_enough, Ratio, ROW_HEIGHT,
};
use crate::stacks::{total_count, StackCounts};
use crate::template::{
    ERROR_CLOSE, ERROR_OPEN, PAGE_END, PAGE_UPTO_CHART_HEIGHT, PAGE_UPTO_DEPTH, PAGE_UPTO_FRAMES,
    PAGE_UPTO_HEADING, PAGE_UPTO_SCRIPT_TOTAL, PAGE_UPTO_SUBTITLE, PAGE_UPTO_TITLE,
    PAGE_UPTO_TOTAL, ROW_CLOSE, ROW_UPTO_BLUE, ROW_UPTO_BOTTOM, ROW_UPTO_DEPTH, ROW_UPTO_END,
    ROW_UPTO_GREEN, ROW_UPTO_LABEL, ROW_UPTO_LEFT, ROW_UPTO_NAME, ROW_UPTO_PERCENT, ROW_UPTO_RED,
    ROW_UPTO_SAMPLES, ROW_UPTO_START, ROW_UPTO_WIDTH, SUBTITLE_CLOSE, SUBTITLE_OPEN,
};
use crate::text::{
    decimal, digits, escape_html, escaped, filled, fixed_texts, format_samples, percent,
    percent_text, push_decimal, push_escaped, push_filled, texts, with_commas,
};
use vstd::prelude::*;
use vstd::string::StringExecFns;

verus! {

/// The name under which a frame is shown: `all` for the root.
pub open spec fn display_name(name: Seq<char>) -> Seq<char> {
    if name.len() == 0 {
        "all"@
    } else {
        name
    }
}

/// The frame is drawn on a chart of `total` samples that leaves out what is
/// narrower than `least`: it holds a sample and is wide enough.
pub open spec fn drawn(f: FrameModel, total: nat, least: Ratio) -> bool {
    f.start < f.end && wide_enough(f, total, least)
}

/// The fixed pieces of the element of a frame.
pub open spec fn row_pieces() -> Seq<Seq<char>> {
    seq![
        ROW_UPTO_LEFT@,
        ROW_UPTO_WIDTH@,
        ROW_UPTO_BOTTOM@,
        ROW_UPTO_RED@,
        ROW_UPTO_GREEN@,
        ROW_UPTO_BLUE@,
        ROW_UPTO_NAME@,
        ROW_UPTO_SAMPLES@,
        ROW_UPTO_PERCENT@,
        ROW_UPTO_DEPTH@,
        ROW_UPTO_START@,
        ROW_UPTO_END@,
        ROW_UPTO_LABEL@,
        ROW_CLOSE@,
    ]
}

/// The values of the element of a frame on a chart of `total` samples: its
/// left edge and its width in percent with four digits after the point, its
/// distance from the bottom, the three parts of its colour, its name, its
/// number of samples, its share of all samples in percent with two digits
/// after the point, its depth, its start, its end, and its name once more.
pub open spec fn row_values(f: FrameModel, total: nat) -> Seq<Seq<char>> {
    let place = projected(f, 0, total, ROW_HEIGHT as nat);
    let rgb = color_of(f.name);
    seq![
        percent_text(place.left.num as nat, place.left.den as nat, 4),
        percent_text(place.width.num as nat, place.width.den as nat, 4),
        digits(place.bottom as nat),
        digits(rgb.0 as nat),
        digits(rgb.1 as nat),
        digits(rgb.2 as nat),
        escaped(display_name(f.name)),
        digits(place.width.num as nat),
        percent_text(place.width.num as nat, place.width.den as nat, 2),
        digits(f.depth),
        digits(f.start),
        digits(f.end),
        escaped(display_name(f.name)),
    ]
}

/// The element of a frame.
pub open spec fn row_text(f: FrameModel, total: nat) -> Seq<char> {
    filled(row_pieces(), row_values(f, total), 13)
}

/// The elements of the first `k` frames, one after the other; a frame that
/// is not drawn has none.
pub open spec fn rows_text(frames: Seq<FrameModel>, total: nat, least: Ratio, k: int) -> Seq<char>
    decreases k,
{
    if k <= 0 {
        Seq::empty()
    } else {
        rows_text(frames, total, least, k - 1) + if drawn(frames[k - 1], total, least) {
            row_text(frames[k - 1], total)
        } else {
            Seq::empty()
        }
    }
}

/// The line of the subtitle; nothing where there is no subtitle.
pub open spec fn subtitle_line(subtitle: Option<Seq<char>>) -> Seq<char> {
    match subtitle {
        Some(s) => SUBTITLE_OPEN@ + escaped(s) + SUBTITLE_CLOSE@,
        None => Seq::empty(),
    }
}

/// The fixed pieces of the page of one graph before its frames.
pub open spec fn head_pieces() -> Seq<Seq<char>> {
    seq![
        PAGE_UPTO_TITLE@,
        PAGE_UPTO_CHART_HEIGHT@,
        PAGE_UPTO_HEADING@,
        PAGE_UPTO_SUBTITLE@,
        PAGE_UPTO_TOTAL@,
        PAGE_UPTO_DEPTH@,
        PAGE_UPTO_FRAMES@,
    ]
}

/// The height of a chart whose deepest frame has depth `depth_max`: one row
/// for each depth.
pub open spec fn chart_height(depth_max: nat) -> nat {
    (depth_max + 1) * (ROW_HEIGHT as nat)
}

/// The values of the page of one graph before its frames: the title, the
/// height of the chart, the title again, the line of the subtitle, the
/// number of samples with commas, and the greatest depth.
pub open spec fn head_values(
    title: Seq<char>,
    subtitle: Option<Seq<char>>,
    total: nat,
    depth_max: nat,
) -> Seq<Seq<char>> {
    seq![
        escaped(title),
        digits(chart_height(depth_max)),
        escaped(title),
        subtitle_line(subtitle),
        with_commas(total),
        digits(depth_max),
    ]
}

/// The page of one graph: the head with its values, the elements of the
/// frames, and the script with the number of samples.
pub open spec fn graph_page(
    frames: Seq<FrameModel>,
    total: nat,
    depth_max: nat,
    title: Seq<char>,
    subtitle: Option<Seq<char>>,
) -> Seq<char> {
    filled(head_pieces(), head_values(title, subtitle, total, depth_max), 6) + rows_text(
        frames,
        total,
        least_width(),
        frames.len() as int,
    ) + PAGE_UPTO_SCRIPT_TOTAL@ + digits(total) + PAGE_END@
}

/// The page that reports an error, with its message escaped.
pub open spec fn error_page(message: Seq<char>) -> Seq<char> {
    ERROR_OPEN@ + escaped(message) + ERROR_CLOSE@
}

/// The page for a table of sample counts: an error page where the table
/// holds no sample, and else the page of its graph.
pub open spec fn flamegraph_page(
    table: Seq<(Seq<char>, u64)>,
    title: Seq<char>,
    subtitle: Option<Seq<char>>,
) -> Seq<char> {
    if total_count(table) == 0 {
        error_page("No valid stack data provided"@)
    } else {
        graph_page(
            frames_of(table),
            total_count(table),
            deepest(frames_of(table)),
            title,
            subtitle,
        )
    }
}

/// What an optional text stands for.
pub open spec fn option_text(text: Option<&str>) -> Option<Seq<char>> {
    match text {
        Some(s) => Some(s@),
        None => None,
    }
}

/// The page that reports an error.
pub fn generate_error_html(message: &str) -> (html: String)
    ensures
        html@ == error_page(message@),
{
    let mut html = String::from_str(ERROR_OPEN);
    push_escaped(&mut html, message);
    html.append(ERROR_CLOSE);
    html
}

/// The fixed pieces of the element of a frame.
fn row_template() -> (pieces: Vec<&'static str>)
    ensures
        fixed_texts(pieces@) == row_pieces(),
{
    let pieces = vec![
        ROW_UPTO_LEFT,
        ROW_UPTO_WIDTH,
        ROW_UPTO_BOTTOM,
        ROW_UPTO_RED,
        ROW_UPTO_GREEN,
        ROW_UPTO_BLUE,
        ROW_UPTO_NAME,
        ROW_UPTO_SAMPLES,
        ROW_UPTO_PERCENT,
        ROW_UPTO_DEPTH,
        ROW_UPTO_START,
        ROW_UPTO_END,
        ROW_UPTO_LABEL,
        ROW_CLOSE,
    ];
    assert(fixed_texts(pieces@) =~= row_pieces());
    pieces
}

/// The name under which a frame is shown.
fn shown_name(name: &str) -> (shown: String)
    ensures
        shown@ == escaped(display_name(name@)),
{
    if name.is_empty() {
        escape_html("all")
    } else {
        escape_html(name)
    }
}

/// Appends the element of a frame on a chart of `total` samples.
#[verifier::rlimit(40)]
pub fn push_row(out: &mut String, frame: &Frame, total: u64)
    requires
        total > 0,
        frame.start <= frame.end,
    ensures
        final(out)@ == old(out)@ + row_text(frame@, total as nat),
{
    let place = project(frame, 0, total, ROW_HEIGHT);
    let rgb = color_for_name(frame.name.as_str());
    let ghost want = row_values(frame@, total as nat);
    let mut values: Vec<String> = Vec::new();
    values.push(percent(place.left.num, place.left.den, 4));
    values.push(percent(place.width.num, place.width.den, 4));
    values.push(decimal(place.bottom));
    values.push(decimal(rgb.0 as u128));
    values.push(decimal(rgb.1 as u128));
    values.push(decimal(rgb.2 as u128));
    values.push(shown_name(frame.name.as_str()));
    values.push(decimal(place.width.num as u128));
    values.push(percent(place.width.num, place.width.den, 2));
    values.push(decimal(frame.depth as u128));
    values.push(decimal(frame.start as u128));
    values.push(decimal(frame.end as u128));
    values.push(shown_name(frame.name.as_str()));
    let pieces = row_template();
    proof {
        assert(want.len() == 13);
        assert(row_pieces().len() == 14);
        assert(fixed_texts(pieces@).len() == pieces@.len());
        assert(texts(values@) =~= want);
    }
    push_filled(out, &pieces, &values);
}

/// Appends the elements of the frames that are drawn on a chart of `total`
/// samples, which leaves out what is narrower than `least`. Only here are
/// narrow frames left out: they stay among the frames.
pub fn push_rows(out: &mut String, frames: &Vec<Frame>, total: u64, least: &Ratio)
    requires
        total > 0,
        forall|k: int| 0 <= k < frames@.len() ==> (#[trigger] frames@[k]).start <= frames@[k].end,
    ensures
        final(out)@ == old(out)@ + rows_text(
            models(frames@),
            total as nat,
            *least,
            frames@.len() as int,
        ),
{
    let ghost before = out@;
    let ghost all = models(frames@);
    let mut k: usize = 0;
    proof {
        assert(out@ =~= before + rows_text(all, total as nat, *least, 0));
    }
    while k < frames.len()
        invariant
            k <= frames@.len(),
            total > 0,
            all == models(frames@),
            forall|i: int|
                0 <= i < frames@.len() ==> (#[trigger] frames@[i]).start <= frames@[i].end,
            out@ == before + rows_text(all, total as nat, *least, k as int),
        decreases frames@.len() - k,
    {
        let ghost so_far = rows_text(all, total as nat, *least, k as int);
        let frame = &frames[k];
        assert(all[k as int] == frame@);
        if frame.end > frame.start && is_wide_enough(frame, total, least) {
            push_row(out, frame, total);
            proof {
                assert(out@ =~= before + (so_far + row_text(frame@, total as nat)));
            }
        } else {
            proof {
                assert(out@ =~= before + (so_far + Seq::<char>::empty()));
            }
        }
        k += 1;
    }
}

/// The fixed pieces of the page of one graph before its frames.
fn head_template() -> (pieces: Vec<&'static str>)
    ensures
        fixed_texts(pieces@) == head_pieces(),
{
    let pieces = vec![
        PAGE_UPTO_TITLE,
        PAGE_UPTO_CHART_HEIGHT,
        PAGE_UPTO_HEADING,
        PAGE_UPTO_SUBTITLE,
        PAGE_UPTO_TOTAL,
        PAGE_UPTO_DEPTH,
        PAGE_UPTO_FRAMES,
    ];
    assert(fixed_texts(pieces@) =~= head_pieces());
    pieces
}

/// The line of the subtitle.
fn subtitle_html(subtitle: Option<&str>) -> (line: String)
    ensures
        line@ == subtitle_line(option_text(subtitle)),
{
    match subtitle {
        Some(s) => {
            let mut line = String::from_str(SUBTITLE_OPEN);
            push_escaped(&mut line, s);
            line.append(SUBTITLE_CLOSE);
            line
        },
        None => String::new(),
    }
}

/// The height of the chart, as text.
fn chart_height_text(depth_max: usize) -> (text: String)
    ensures
        text@ == digits(chart_height(depth_max as nat)),
{
    let rows: u128 = depth_max as u128 + 1;
    let row: u128 = ROW_HEIGHT as u128;
    assert(rows * row <= 0x1_0000_0000_0000_0000 * 20) by (nonlinear_arith)
        requires
            0 <= rows <= 0x1_0000_0000_0000_0000,
            row == 20,
    ;
    decimal(rows * row)
}

/// Renders the flame graph of a table of sample counts as an HTML page
/// with the given title and, where there is one, subtitle. A table without
/// samples gives a page that says so.
#[verifier::rlimit(40)]
pub fn generate_flamegraph(stacks: &StackCounts, title: &str, subtitle: Option<&str>) -> (html:
    String)
    requires
        stacks.wf(),
    ensures
        html@ == flamegraph_page(stacks@, title@, option_text(subtitle)),
{
    let (frames, total_samples, depth_max) = process_stacks(stacks);
    if total_samples == 0 {
        return generate_error_html("No valid stack data provided");
    }
    let values = vec![
        escape_html(title),
        chart_height_text(depth_max),
        escape_html(title),
        subtitle_html(subtitle),
        format_samples(total_samples),
        decimal(depth_max as u128),
    ];
    let pieces = head_template();
    proof {
        assert(head_pieces().len() == 7);
        assert(fixed_texts(pieces@).len() == pieces@.len());
        assert(texts(values@) =~= head_values(
            title@,
            option_text(subtitle),
            total_samples as nat,
            depth_max as nat,
        ));
        assert forall|k: int| 0 <= k < frames@.len() implies (#[trigger] frames@[k]).start
            <= frames@[k].end by {
            assert(models(frames@)[k] == frames@[k]@);
        }
    }
    let mut html = String::new();
    push_filled(&mut html, &pieces, &values);
    let least = min_width();
    push_rows(&mut html, &frames, total_samples, &least);
    html.append(PAGE_UPTO_SCRIPT_TOTAL);
    push_decimal(&mut html, total_samples as u128);
    html.append(PAGE_END);
    proof {
        assert(html@ =~= flamegraph_page(stacks@, title@, option_text(subtitle)));
    }
    html
}

} // verus!
