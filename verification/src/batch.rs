//! Several flame graphs on one page, each in a section of its own.

use crate::frames::{deepest, frames_of, models, process_stacks, Frame};
use crate::geometry::{least_width, min_width, ROW_HEIGHT};
use crate::page::{chart_height, error_page, generate_error_html, push_rows, rows_text};
use crate::shape::tree_shaped;
use crate::stacks::{ascending, count_in, lemma_merged_adds, merged, total_count, StackCounts};
use crate::template::{
    BATCH_CLOSE, BATCH_OPEN, EMPTY_SECTION_CLOSE, EMPTY_SECTION_OPEN, SECTION_0, SECTION_1,
    SECTION_2, SECTION_3, SECTION_4, SECTION_5, SECTION_6, SECTION_7, SECTION_8, SECTION_9,
    SECTION_10, SECTION_11, SECTION_FOOT_0, SECTION_FOOT_1, SECTION_FOOT_2, SECTION_FOOT_3,
    SECTION_FOOT_4, SECTION_FOOT_5, SECTION_FOOT_6, SECTION_FOOT_7, SECTION_FOOT_8,
    SECTION_FOOT_9, SECTION_FOOT_10, SECTION_SCRIPT_0, SECTION_SCRIPT_1, SECTION_SCRIPT_2,
};
use crate::text::{
    decimal, digits, escape_html, escaped, filled, fixed_texts, format_samples, push_escaped,
    push_filled, texts, with_commas,
};
use crate::view::{FlameView, ViewState};
use vstd::prelude::*;
use vstd::string::StringExecFns;

verus! {

/// One graph of a batch: its sample counts and its title.
#[derive(Debug, Clone)]
pub struct FlameGraphEntry {
    pub stacks: StackCounts,
    pub title: String,
}

/// The fixed pieces of the head of a section.
pub open spec fn section_pieces() -> Seq<Seq<char>> {
    seq![
        SECTION_0@,
        SECTION_1@,
        SECTION_2@,
        SECTION_3@,
        SECTION_4@,
        SECTION_5@,
        SECTION_6@,
        SECTION_7@,
        SECTION_8@,
        SECTION_9@,
        SECTION_10@,
        SECTION_11@,
    ]
}

/// The fixed pieces of the foot of a section.
pub open spec fn foot_pieces() -> Seq<Seq<char>> {
    seq![
        SECTION_FOOT_0@,
        SECTION_FOOT_1@,
        SECTION_FOOT_2@,
        SECTION_FOOT_3@,
        SECTION_FOOT_4@,
        SECTION_FOOT_5@,
        SECTION_FOOT_6@,
        SECTION_FOOT_7@,
        SECTION_FOOT_8@,
        SECTION_FOOT_9@,
        SECTION_FOOT_10@,
    ]
}

/// The fixed pieces of the script of a section.
pub open spec fn script_pieces() -> Seq<Seq<char>> {
    seq![
        SECTION_SCRIPT_0@,
        SECTION_SCRIPT_1@,
        SECTION_SCRIPT_2@,
    ]
}

/// The values of the head of section `idx`: its number, its title, its
/// number three times more, the number of samples with commas, the greatest
/// depth, its number twice more, the name of its chart, and the height of
/// its chart.
pub open spec fn section_values(title: Seq<char>, idx: nat, total: nat, depth_max: nat) -> Seq<
    Seq<char>,
> {
    let n = digits(idx);
    seq![
        n,
        escaped(title),
        n,
        n,
        n,
        with_commas(total),
        digits(depth_max),
        n,
        n,
        "chart_"@ + n,
        digits(chart_height(depth_max)),
    ]
}

/// The values of the foot of section `idx`: its number, ten times.
pub open spec fn foot_values(idx: nat) -> Seq<Seq<char>> {
    let n = digits(idx);
    seq![n, n, n, n, n, n, n, n, n, n]
}

/// The values of the script of section `idx`: its number and the number of
/// samples.
pub open spec fn script_values(idx: nat, total: nat) -> Seq<Seq<char>> {
    seq![digits(idx), digits(total)]
}

/// The section of one graph: a short one that says so where the table holds
/// no sample, and else head, frames, foot and script.
pub open spec fn section_text(table: Seq<(Seq<char>, u64)>, title: Seq<char>, idx: nat) -> Seq<
    char,
> {
    let total = total_count(table);
    let frames = frames_of(table);
    if total == 0 {
        EMPTY_SECTION_OPEN@ + escaped(title) + EMPTY_SECTION_CLOSE@
    } else {
        filled(section_pieces(), section_values(title, idx, total, deepest(frames)), 11)
            + rows_text(frames, total, least_width(), frames.len() as int) + filled(
            foot_pieces(),
            foot_values(idx),
            10,
        ) + filled(script_pieces(), script_values(idx, total), 2)
    }
}

/// The sections of the first `k` entries, one after the other, numbered
/// from 0.
pub open spec fn sections_text(entries: Seq<FlameGraphEntry>, k: int) -> Seq<char>
    decreases k,
{
    if k <= 0 {
        Seq::empty()
    } else {
        sections_text(entries, k - 1) + section_text(
            entries[k - 1].stacks@,
            entries[k - 1].title@,
            (k - 1) as nat,
        )
    }
}

/// The counts of the first `k` entries, all added up.
pub open spec fn tables_total(entries: Seq<FlameGraphEntry>, k: int) -> nat
    decreases k,
{
    if k <= 0 {
        0
    } else {
        tables_total(entries, k - 1) + total_count(entries[k - 1].stacks@)
    }
}

/// The tables of the first `k` entries merged into one: for every path the
/// sum of what the tables record for it.
pub open spec fn combined_upto(entries: Seq<FlameGraphEntry>, k: int) -> Seq<(Seq<char>, u64)>
    decreases k,
{
    if k <= 0 {
        Seq::empty()
    } else {
        merged(combined_upto(entries, k - 1), entries[k - 1].stacks@)
    }
}

/// What the tables of the first `k` entries record for `path`, added up; a
/// table without the path adds nothing.
pub open spec fn counts_across(entries: Seq<FlameGraphEntry>, path: Seq<char>, k: int) -> nat
    decreases k,
{
    if k <= 0 {
        0
    } else {
        counts_across(entries, path, k - 1) + count_in(entries[k - 1].stacks@, path) as nat
    }
}

/// A batch of more than one entry has a combined graph, if all its counts
/// together fit in `u64`.
pub open spec fn has_combined(entries: Seq<FlameGraphEntry>) -> bool {
    entries.len() > 1 && tables_total(entries, entries.len() as int) <= u64::MAX
}

/// The section of the combined graph, which comes after the sections of the
/// entries; nothing where the batch has none.
pub open spec fn combined_section(entries: Seq<FlameGraphEntry>) -> Seq<char> {
    if has_combined(entries) {
        section_text(
            combined_upto(entries, entries.len() as int),
            "Combined"@,
            entries.len(),
        )
    } else {
        Seq::empty()
    }
}

/// The page of a batch: an error page where there is no entry, and else,
/// between the opening and the closing of the page, the sections of the
/// entries and after them that of the combined graph.
pub open spec fn batch_page(entries: Seq<FlameGraphEntry>) -> Seq<char> {
    if entries.len() == 0 {
        error_page("No flamegraph entries provided"@)
    } else {
        BATCH_OPEN@ + sections_text(entries, entries.len() as int) + combined_section(entries)
            + BATCH_CLOSE@
    }
}

/// The total of the first `k` entries is no more than that of them all.
proof fn lemma_tables_total_grows(entries: Seq<FlameGraphEntry>, k: int, n: int)
    requires
        0 <= k <= n,
    ensures
        tables_total(entries, k) <= tables_total(entries, n),
    decreases n - k,
{
    if k < n {
        lemma_tables_total_grows(entries, k, n - 1);
    }
}

/// The merge rule: where the counts of the first `k` entries together fit
/// in `u64`, their combined table is ascending, its counts add up to the
/// counts of all the tables, and for every path it records the sum of what
/// the tables record for it.
pub proof fn lemma_combined_sums(entries: Seq<FlameGraphEntry>, k: int, path: Seq<char>)
    requires
        0 <= k <= entries.len(),
        forall|i: int| 0 <= i < k ==> ascending(#[trigger] entries[i].stacks@),
        tables_total(entries, k) <= u64::MAX,
    ensures
        ascending(combined_upto(entries, k)),
        total_count(combined_upto(entries, k)) == tables_total(entries, k),
        count_in(combined_upto(entries, k), path) == counts_across(entries, path, k),
    decreases k,
{
    if k > 0 {
        let a = combined_upto(entries, k - 1);
        let b = entries[k - 1].stacks@;
        lemma_combined_sums(entries, k - 1, path);
        assert(ascending(b));
        lemma_merged_adds(a, b, b.len() as int, path);
        assert(b.take(b.len() as int) =~= b);
    }
}

/// The fixed pieces of the head of a section.
fn section_template() -> (pieces: Vec<&'static str>)
    ensures
        fixed_texts(pieces@) == section_pieces(),
        pieces@.len() == 12,
{
    let pieces = vec![
        SECTION_0,
        SECTION_1,
        SECTION_2,
        SECTION_3,
        SECTION_4,
        SECTION_5,
        SECTION_6,
        SECTION_7,
        SECTION_8,
        SECTION_9,
        SECTION_10,
        SECTION_11,
    ];
    assert(fixed_texts(pieces@) =~= section_pieces());
    pieces
}

/// The fixed pieces of the foot of a section.
fn foot_template() -> (pieces: Vec<&'static str>)
    ensures
        fixed_texts(pieces@) == foot_pieces(),
        pieces@.len() == 11,
{
    let pieces = vec![
        SECTION_FOOT_0,
        SECTION_FOOT_1,
        SECTION_FOOT_2,
        SECTION_FOOT_3,
        SECTION_FOOT_4,
        SECTION_FOOT_5,
        SECTION_FOOT_6,
        SECTION_FOOT_7,
        SECTION_FOOT_8,
        SECTION_FOOT_9,
        SECTION_FOOT_10,
    ];
    assert(fixed_texts(pieces@) =~= foot_pieces());
    pieces
}

/// The fixed pieces of the script of a section.
fn script_template() -> (pieces: Vec<&'static str>)
    ensures
        fixed_texts(pieces@) == script_pieces(),
        pieces@.len() == 3,
{
    let pieces = vec![
        SECTION_SCRIPT_0,
        SECTION_SCRIPT_1,
        SECTION_SCRIPT_2,
    ];
    assert(fixed_texts(pieces@) =~= script_pieces());
    pieces
}

/// The name of the chart of section `idx`.
fn chart_name(idx: usize) -> (name: String)
    ensures
        name@ == "chart_"@ + digits(idx as nat),
{
    let mut name = String::from_str("chart_");
    let n = decimal(idx as u128);
    name.append(n.as_str());
    name
}

/// Appends the head of section `idx`, for a graph of `total` samples whose
/// deepest frame has depth `depth_max`.
#[verifier::rlimit(40)]
fn push_section_head(out: &mut String, title: &str, idx: usize, total: u64, depth_max: usize)
    ensures
        final(out)@ == old(out)@ + filled(
            section_pieces(),
            section_values(title@, idx as nat, total as nat, depth_max as nat),
            11,
        ),
{
    let mut values: Vec<String> = Vec::new();
    values.push(decimal(idx as u128));
    values.push(escape_html(title));
    values.push(decimal(idx as u128));
    values.push(decimal(idx as u128));
    values.push(decimal(idx as u128));
    values.push(format_samples(total));
    values.push(decimal(depth_max as u128));
    values.push(decimal(idx as u128));
    values.push(decimal(idx as u128));
    values.push(chart_name(idx));
    let rows: u128 = depth_max as u128 + 1;
    let row: u128 = ROW_HEIGHT as u128;
    assert(rows * row <= 0x1_0000_0000_0000_0000 * 20) by (nonlinear_arith)
        requires
            0 <= rows <= 0x1_0000_0000_0000_0000,
            row == 20,
    ;
    values.push(decimal(rows * row));
    let pieces = section_template();
    proof {
        assert(texts(values@) =~= section_values(
            title@,
            idx as nat,
            total as nat,
            depth_max as nat,
        ));
    }
    push_filled(out, &pieces, &values);
}

/// Appends the foot of section `idx`.
fn push_section_foot(out: &mut String, idx: usize)
    ensures
        final(out)@ == old(out)@ + filled(foot_pieces(), foot_values(idx as nat), 10),
{
    let mut numbers: Vec<String> = Vec::new();
    let mut i: usize = 0;
    while i < 10
        invariant
            i <= 10,
            numbers@.len() == i,
            forall|k: int| 0 <= k < i ==> (#[trigger] numbers@[k])@ == digits(idx as nat),
        decreases 10 - i,
    {
        numbers.push(decimal(idx as u128));
        i += 1;
    }
    let foot = foot_template();
    proof {
        assert(texts(numbers@) =~= foot_values(idx as nat));
    }
    push_filled(out, &foot, &numbers);
}

/// Appends the script of section `idx`, for a graph of `total` samples.
fn push_section_script(out: &mut String, idx: usize, total: u64)
    ensures
        final(out)@ == old(out)@ + filled(
            script_pieces(),
            script_values(idx as nat, total as nat),
            2,
        ),
{
    let mut values: Vec<String> = Vec::new();
    values.push(decimal(idx as u128));
    values.push(decimal(total as u128));
    let script = script_template();
    proof {
        assert(texts(values@) =~= script_values(idx as nat, total as nat));
    }
    push_filled(out, &script, &values);
}

/// Appends the section of one graph, which is number `idx` of its page.
#[verifier::rlimit(40)]
pub fn push_section(out: &mut String, stacks: &StackCounts, title: &str, idx: usize)
    requires
        stacks.wf(),
    ensures
        final(out)@ == old(out)@ + section_text(stacks@, title@, idx as nat),
{
    let ghost before = out@;
    let (frames, total_samples, depth_max) = process_stacks(stacks);
    if total_samples == 0 {
        out.append(EMPTY_SECTION_OPEN);
        push_escaped(out, title);
        out.append(EMPTY_SECTION_CLOSE);
        proof {
            assert(out@ =~= before + section_text(stacks@, title@, idx as nat));
        }
        return ;
    }
    proof {
        assert forall|k: int| 0 <= k < frames@.len() implies (#[trigger] frames@[k]).start
            <= frames@[k].end by {
            assert(models(frames@)[k] == frames@[k]@);
        }
    }
    let ghost head = filled(
        section_pieces(),
        section_values(title@, idx as nat, total_samples as nat, depth_max as nat),
        11,
    );
    let ghost rows = rows_text(
        models(frames@),
        total_samples as nat,
        least_width(),
        frames@.len() as int,
    );
    let ghost foot = filled(foot_pieces(), foot_values(idx as nat), 10);
    let ghost script = filled(script_pieces(), script_values(idx as nat, total_samples as nat), 2);
    push_section_head(out, title, idx, total_samples, depth_max);
    let least = min_width();
    push_rows(out, &frames, total_samples, &least);
    push_section_foot(out, idx);
    push_section_script(out, idx, total_samples);
    proof {
        assert(section_text(stacks@, title@, idx as nat) == head + rows + foot + script);
        assert(out@ =~= before + (head + rows + foot + script));
    }
}

/// Merges the tables of all entries into one, which records for every path
/// the sum of what the tables record for it. There is no such table where
/// the counts of all entries together come to more than `u64::MAX`.
pub fn combine(entries: &[FlameGraphEntry]) -> (out: Option<StackCounts>)
    requires
        forall|i: int| 0 <= i < entries@.len() ==> (#[trigger] entries@[i]).stacks.wf(),
    ensures
        out is Some == (tables_total(entries@, entries@.len() as int) <= u64::MAX),
        out is Some ==> out->0.wf() && out->0@ == combined_upto(
            entries@,
            entries@.len() as int,
        ),
{
    let mut all = StackCounts::new();
    let mut k: usize = 0;
    while k < entries.len()
        invariant
            k <= entries@.len(),
            forall|i: int| 0 <= i < entries@.len() ==> (#[trigger] entries@[i]).stacks.wf(),
            all.wf(),
            all@ == combined_upto(entries@, k as int),
            total_count(all@) == tables_total(entries@, k as int),
        decreases entries@.len() - k,
    {
        let ghost a = all@;
        let ghost b = entries@[k as int].stacks@;
        proof {
            all.lemma_wf();
            entries@[k as int].stacks.lemma_wf();
        }
        if !all.absorb(&entries[k].stacks) {
            proof {
                lemma_tables_total_grows(entries@, k + 1, entries@.len() as int);
            }
            return None;
        }
        proof {
            lemma_merged_adds(a, b, b.len() as int, Seq::<char>::empty());
            assert(b.take(b.len() as int) =~= b);
        }
        k += 1;
    }
    proof {
        all.lemma_wf();
    }
    Some(all)
}

/// One graph of a batch, built: its title, its frames, the number of its
/// samples, and the greatest depth among its frames.
#[derive(Debug, Clone)]
pub struct BuiltGraph {
    pub title: String,
    pub frames: Vec<Frame>,
    pub total: u64,
    pub depth_max: usize,
}

impl BuiltGraph {
    /// The graph is the one that the builder makes of `table`, under the
    /// title `title`.
    pub open spec fn is_graph_of(self, table: Seq<(Seq<char>, u64)>, title: Seq<char>) -> bool {
        &&& self.title@ == title
        &&& models(self.frames@) == frames_of(table)
        &&& self.total == total_count(table)
        &&& self.depth_max == deepest(frames_of(table))
        &&& tree_shaped(models(self.frames@), self.total as nat)
    }

    /// Opens a view of the graph, in its first state. Each graph of a batch
    /// gets a view of its own this way; none shares what is hidden, zoomed
    /// into or searched for with another.
    pub fn into_view(self) -> (view: FlameView)
        requires
            tree_shaped(models(self.frames@), self.total as nat),
        ensures
            view.wf(),
            view@ == ViewState::initial(models(self.frames@), self.total as nat),
    {
        FlameView::open(self.frames, self.total)
    }
}

/// Builds the graphs of a batch: one for each entry, in the order given,
/// and after them, where the batch has a combined graph, that one under the
/// title `Combined`.
pub fn build_batch(entries: &[FlameGraphEntry]) -> (graphs: Vec<BuiltGraph>)
    requires
        forall|i: int| 0 <= i < entries@.len() ==> (#[trigger] entries@[i]).stacks.wf(),
    ensures
        graphs@.len() == entries@.len() + if has_combined(entries@) {
            1int
        } else {
            0int
        },
        forall|i: int|
            0 <= i < entries@.len() ==> (#[trigger] graphs@[i]).is_graph_of(
                entries@[i].stacks@,
                entries@[i].title@,
            ),
        has_combined(entries@) ==> graphs@[entries@.len() as int].is_graph_of(
            combined_upto(entries@, entries@.len() as int),
            "Combined"@,
        ),
{
    let mut graphs: Vec<BuiltGraph> = Vec::new();
    let mut k: usize = 0;
    while k < entries.len()
        invariant
            k <= entries@.len(),
            forall|i: int| 0 <= i < entries@.len() ==> (#[trigger] entries@[i]).stacks.wf(),
            graphs@.len() == k,
            forall|i: int|
                0 <= i < k ==> (#[trigger] graphs@[i]).is_graph_of(
                    entries@[i].stacks@,
                    entries@[i].title@,
                ),
        decreases entries@.len() - k,
    {
        let (frames, total, depth_max) = process_stacks(&entries[k].stacks);
        graphs.push(BuiltGraph { title: entries[k].title.clone(), frames, total, depth_max });
        k += 1;
    }
    if entries.len() > 1 {
        match combine(entries) {
            Some(all) => {
                let (frames, total, depth_max) = process_stacks(&all);
                graphs.push(
                    BuiltGraph { title: String::from_str("Combined"), frames, total, depth_max },
                );
            },
            None => {},
        }
    }
    graphs
}

/// Renders several flame graphs as one HTML page: a section for each entry
/// in the order given and, for a batch of more than one entry whose counts
/// together fit in `u64`, a last section for all of them combined. Without
/// an entry the page reports an error.
pub fn generate_batch_flamegraph(entries: &[FlameGraphEntry]) -> (html: String)
    requires
        forall|i: int| 0 <= i < entries@.len() ==> (#[trigger] entries@[i]).stacks.wf(),
    ensures
        html@ == batch_page(entries@),
{
    if entries.len() == 0 {
        return generate_error_html("No flamegraph entries provided");
    }
    let mut html = String::from_str(BATCH_OPEN);
    let mut idx: usize = 0;
    proof {
        assert(html@ =~= BATCH_OPEN@ + sections_text(entries@, 0));
    }
    while idx < entries.len()
        invariant
            idx <= entries@.len(),
            forall|i: int| 0 <= i < entries@.len() ==> (#[trigger] entries@[i]).stacks.wf(),
            html@ == BATCH_OPEN@ + sections_text(entries@, idx as int),
        decreases entries@.len() - idx,
    {
        let ghost so_far = sections_text(entries@, idx as int);
        let entry = &entries[idx];
        push_section(&mut html, &entry.stacks, entry.title.as_str(), idx);
        proof {
            assert(html@ =~= BATCH_OPEN@ + (so_far + section_text(
                entry.stacks@,
                entry.title@,
                idx as nat,
            )));
        }
        idx += 1;
    }
    let ghost sections = sections_text(entries@, entries@.len() as int);
    if entries.len() > 1 {
        match combine(entries) {
            Some(all) => {
                push_section(&mut html, &all, "Combined", entries.len());
            },
            None => {},
        }
    }
    proof {
        assert(html@ =~= BATCH_OPEN@ + sections + combined_section(entries@));
    }
    html.append(BATCH_CLOSE);
    html
}

} // verus!
