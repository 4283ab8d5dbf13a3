//! Collapsed stacks: a table from a semicolon-joined call path to its sample
//! count, kept in dictionary order of the paths.

use vstd::prelude::*;

verus! {

/// The first `k` characters of `a` and `b` are the same.
pub open spec fn agree_upto(a: Seq<char>, b: Seq<char>, k: int) -> bool {
    forall|i: int| 0 <= i < k ==> a[i] == b[i]
}

/// `a` and `b` agree on their first `k` characters, and at position `k`
/// either `a` has ended while `b` goes on, or `a` holds the smaller character.
pub open spec fn parts_at(a: Seq<char>, b: Seq<char>, k: int) -> bool {
    &&& 0 <= k <= a.len()
    &&& k < b.len()
    &&& agree_upto(a, b, k)
    &&& (k < a.len() ==> a[k] < b[k])
}

/// Dictionary order on paths, character by character: `a` comes strictly
/// before `b`.
pub open spec fn precedes(a: Seq<char>, b: Seq<char>) -> bool {
    exists|k: int| parts_at(a, b, k)
}

/// How two paths stand to each other in dictionary order.
#[derive(Clone, Copy, Debug, PartialEq, Eq, Structural)]
pub enum Rank {
    Before,
    Same,
    After,
}

/// How `a` stands to `b` in dictionary order.
pub open spec fn rank_of(a: Seq<char>, b: Seq<char>) -> Rank {
    if precedes(a, b) {
        Rank::Before
    } else if a == b {
        Rank::Same
    } else {
        Rank::After
    }
}

/// No path comes before itself, and of two paths at most one comes before
/// the other.
pub proof fn lemma_precedes_asymmetric(a: Seq<char>, b: Seq<char>)
    requires
        precedes(a, b),
    ensures
        a != b,
        !precedes(b, a),
{
    let k = choose|k: int| parts_at(a, b, k);
    if a == b {
        assert(false);
    }
    if precedes(b, a) {
        let j = choose|j: int| parts_at(b, a, j);
        if j < k {
            assert(a[j] == b[j]);
        } else if k < j {
            assert(b[k] == a[k]);
        }
        assert(false);
    }
}

/// Dictionary order is transitive.
pub proof fn lemma_precedes_transitive(a: Seq<char>, b: Seq<char>, c: Seq<char>)
    requires
        precedes(a, b),
        precedes(b, c),
    ensures
        precedes(a, c),
{
    let i = choose|i: int| parts_at(a, b, i);
    let j = choose|j: int| parts_at(b, c, j);
    let k = if i <= j { i } else { j };
    assert forall|x: int| 0 <= x < k implies a[x] == c[x] by {
        assert(a[x] == b[x]);
        assert(b[x] == c[x]);
    }
    if i < j {
        assert(b[i] == c[i]);
    }
    if j < i {
        assert(a[j] == b[j]);
    }
    assert(parts_at(a, c, k));
}

/// Any two different paths are ordered one way or the other.
pub proof fn lemma_precedes_total(a: Seq<char>, b: Seq<char>)
    ensures
        precedes(a, b) || a == b || precedes(b, a),
{
    lemma_first_difference(a, b, 0);
}

/// Two paths that agree on their first `k` characters are equal or ordered.
proof fn lemma_first_difference(a: Seq<char>, b: Seq<char>, k: int)
    requires
        0 <= k <= a.len(),
        k <= b.len(),
        agree_upto(a, b, k),
    ensures
        precedes(a, b) || a == b || precedes(b, a),
    decreases a.len() - k,
{
    if k == a.len() {
        if k == b.len() {
            assert(a =~= b);
        } else {
            assert(parts_at(a, b, k));
        }
    } else if k == b.len() {
        assert(agree_upto(b, a, k));
        assert(parts_at(b, a, k));
    } else if a[k] == b[k] {
        lemma_first_difference(a, b, k + 1);
    } else if a[k] < b[k] {
        assert(parts_at(a, b, k));
    } else {
        assert(agree_upto(b, a, k));
        assert(parts_at(b, a, k));
    }
}

/// Compares two paths in dictionary order.
pub fn compare_paths(a: &Vec<char>, b: &Vec<char>) -> (r: Rank)
    ensures
        r == rank_of(a@, b@),
{
    let mut i: usize = 0;
    while i < a.len() && i < b.len()
        invariant
            i <= a.len(),
            i <= b.len(),
            agree_upto(a@, b@, i as int),
        decreases a.len() - i,
    {
        if a[i] != b[i] {
            if a[i] < b[i] {
                assert(parts_at(a@, b@, i as int));
                return Rank::Before;
            } else {
                assert(agree_upto(b@, a@, i as int));
                assert(parts_at(b@, a@, i as int));
                proof {
                    lemma_precedes_asymmetric(b@, a@);
                }
                return Rank::After;
            }
        }
        i += 1;
    }
    if i < b.len() {
        assert(parts_at(a@, b@, i as int));
        Rank::Before
    } else if i < a.len() {
        assert(agree_upto(b@, a@, i as int));
        assert(parts_at(b@, a@, i as int));
        proof {
            lemma_precedes_asymmetric(b@, a@);
        }
        Rank::After
    } else {
        assert(a@ =~= b@);
        proof {
            if precedes(a@, b@) {
                lemma_precedes_asymmetric(a@, b@);
            }
        }
        Rank::Same
    }
}

/// The characters of a text, one by one.
pub fn to_chars(text: &str) -> (out: Vec<char>)
    ensures
        out@ == text@,
{
    let mut out: Vec<char> = Vec::new();
    for c in iter: text.chars()
        invariant
            iter.seq() == text@,
            out@ == text@.take(iter.index() as int),
    {
        out.push(c);
        assert(out@ =~= text@.take(iter.index() + 1));
    }
    assert(out@ =~= text@);
    out
}

/// A copy of a list of characters.
pub fn copy_chars(chars: &Vec<char>) -> (out: Vec<char>)
    ensures
        out@ == chars@,
{
    let mut out: Vec<char> = Vec::new();
    let mut i: usize = 0;
    while i < chars.len()
        invariant
            i <= chars.len(),
            out@ == chars@.take(i as int),
        decreases chars.len() - i,
    {
        out.push(chars[i]);
        i += 1;
        assert(out@ =~= chars@.take(i as int));
    }
    assert(out@ =~= chars@);
    out
}

/// The text made of the given characters.
pub fn to_text(chars: &Vec<char>) -> (out: String)
    ensures
        out@ == chars@,
{
    let mut out = String::new();
    let mut i: usize = 0;
    while i < chars.len()
        invariant
            i <= chars.len(),
            out@ == chars@.take(i as int),
        decreases chars.len() - i,
    {
        out.push(chars[i]);
        i += 1;
        assert(out@ =~= chars@.take(i as int));
    }
    assert(out@ =~= chars@);
    out
}

/// The sum of all counts of a table.
pub open spec fn total_count(s: Seq<(Seq<char>, u64)>) -> nat
    decreases s.len(),
{
    if s.len() == 0 {
        0
    } else {
        total_count(s.drop_last()) + s.last().1 as nat
    }
}

/// The paths of the table stand in strictly ascending dictionary order, so
/// no path occurs twice.
pub open spec fn ascending(s: Seq<(Seq<char>, u64)>) -> bool {
    forall|i: int, j: int| 0 <= i < j < s.len() ==> precedes(#[trigger] s[i].0, #[trigger] s[j].0)
}

/// How many entries of the table hold a path that comes before `path`. In an
/// ascending table this is the place where `path` stands or would stand.
pub open spec fn rank(s: Seq<(Seq<char>, u64)>, path: Seq<char>) -> int
    decreases s.len(),
{
    if s.len() == 0 {
        0
    } else {
        rank(s.drop_last(), path) + if precedes(s.last().0, path) {
            1int
        } else {
            0int
        }
    }
}

/// The table has an entry for `path`.
pub open spec fn holds(s: Seq<(Seq<char>, u64)>, path: Seq<char>) -> bool {
    let p = rank(s, path);
    0 <= p < s.len() && s[p].0 == path
}

/// The count that the table records for `path`; 0 where it has none.
pub open spec fn count_in(s: Seq<(Seq<char>, u64)>, path: Seq<char>) -> u64 {
    if holds(s, path) {
        s[rank(s, path)].1
    } else {
        0
    }
}

/// The table with the count of `path` set to `count`: its entry is replaced
/// where there is one, and put in its place in the order where there is none.
pub open spec fn set_count(s: Seq<(Seq<char>, u64)>, path: Seq<char>, count: u64) -> Seq<
    (Seq<char>, u64),
> {
    let p = rank(s, path);
    if holds(s, path) {
        s.update(p, (path, count))
    } else {
        s.insert(p, (path, count))
    }
}

/// The rank of a path is a place of the table, or the place after its end.
pub proof fn lemma_rank_bounds(s: Seq<(Seq<char>, u64)>, path: Seq<char>)
    ensures
        0 <= rank(s, path) <= s.len(),
    decreases s.len(),
{
    if s.len() > 0 {
        lemma_rank_bounds(s.drop_last(), path);
    }
}

/// Where the first `p` entries come before `path` and the others do not,
/// `p` is the rank of `path`.
pub proof fn lemma_rank_is(s: Seq<(Seq<char>, u64)>, path: Seq<char>, p: int)
    requires
        0 <= p <= s.len(),
        forall|i: int| 0 <= i < p ==> precedes(#[trigger] s[i].0, path),
        forall|i: int| p <= i < s.len() ==> !precedes(#[trigger] s[i].0, path),
    ensures
        rank(s, path) == p,
    decreases s.len(),
{
    if s.len() > 0 {
        let t = s.drop_last();
        if p == s.len() {
            lemma_rank_is(t, path, p - 1);
        } else {
            lemma_rank_is(t, path, p);
        }
    }
}

/// In an ascending table the entries before the rank of `path` come before
/// `path`, and those from the rank on do not.
pub proof fn lemma_rank_splits(s: Seq<(Seq<char>, u64)>, path: Seq<char>)
    requires
        ascending(s),
    ensures
        0 <= rank(s, path) <= s.len(),
        forall|i: int| 0 <= i < rank(s, path) ==> precedes(#[trigger] s[i].0, path),
        forall|i: int| rank(s, path) <= i < s.len() ==> !precedes(#[trigger] s[i].0, path),
    decreases s.len(),
{
    if s.len() > 0 {
        let t = s.drop_last();
        let last = s.len() - 1;
        assert forall|i: int, j: int| 0 <= i < j < t.len() implies precedes(
            #[trigger] t[i].0,
            #[trigger] t[j].0,
        ) by {
            assert(precedes(s[i].0, s[j].0));
        }
        lemma_rank_splits(t, path);
        if precedes(s.last().0, path) {
            assert forall|i: int| 0 <= i < t.len() implies precedes(#[trigger] t[i].0, path) by {
                assert(precedes(s[i].0, s[last].0));
                lemma_precedes_transitive(s[i].0, s[last].0, path);
            }
            lemma_rank_is(t, path, t.len() as int);
        }
        assert forall|i: int| 0 <= i < rank(s, path) implies precedes(#[trigger] s[i].0, path) by {
            if i < t.len() {
                assert(s[i] == t[i]);
            }
        }
        assert forall|i: int| rank(s, path) <= i < s.len() implies !precedes(
            #[trigger] s[i].0,
            path,
        ) by {
            if i < t.len() {
                assert(s[i] == t[i]);
            }
        }
    }
}

/// Replacing an entry changes the total by the difference of the counts.
pub proof fn lemma_total_update(s: Seq<(Seq<char>, u64)>, i: int, e: (Seq<char>, u64))
    requires
        0 <= i < s.len(),
    ensures
        total_count(s.update(i, e)) == total_count(s) - s[i].1 + e.1,
    decreases s.len(),
{
    let u = s.update(i, e);
    if i == s.len() - 1 {
        assert(u.drop_last() =~= s.drop_last());
    } else {
        assert(u.drop_last() =~= s.drop_last().update(i, e));
        lemma_total_update(s.drop_last(), i, e);
    }
}

/// Putting an entry in adds its count to the total.
pub proof fn lemma_total_insert(s: Seq<(Seq<char>, u64)>, i: int, e: (Seq<char>, u64))
    requires
        0 <= i <= s.len(),
    ensures
        total_count(s.insert(i, e)) == total_count(s) + e.1,
    decreases s.len(),
{
    let u = s.insert(i, e);
    if i == s.len() {
        assert(u.drop_last() =~= s);
    } else {
        assert(u.drop_last() =~= s.drop_last().insert(i, e));
        lemma_total_insert(s.drop_last(), i, e);
    }
}

/// The count of one entry is no more than the total.
pub proof fn lemma_total_covers(s: Seq<(Seq<char>, u64)>, i: int)
    requires
        0 <= i < s.len(),
    ensures
        s[i].1 <= total_count(s),
    decreases s.len(),
{
    if i < s.len() - 1 {
        lemma_total_covers(s.drop_last(), i);
    }
}

/// The same places hold the same paths in two tables of one length.
pub open spec fn same_paths(s: Seq<(Seq<char>, u64)>, t: Seq<(Seq<char>, u64)>) -> bool {
    &&& s.len() == t.len()
    &&& forall|i: int| 0 <= i < s.len() ==> (#[trigger] s[i]).0 == t[i].0
}

/// The rank of a path goes by the paths of the table alone.
proof fn lemma_rank_by_paths(s: Seq<(Seq<char>, u64)>, t: Seq<(Seq<char>, u64)>, q: Seq<char>)
    requires
        same_paths(s, t),
    ensures
        rank(s, q) == rank(t, q),
    decreases s.len(),
{
    if s.len() > 0 {
        assert(s[s.len() - 1].0 == t[s.len() - 1].0);
        assert forall|i: int| 0 <= i < s.drop_last().len() implies (#[trigger] s.drop_last()[i]).0
            == t.drop_last()[i].0 by {
            assert(s[i].0 == t[i].0);
        }
        lemma_rank_by_paths(s.drop_last(), t.drop_last(), q);
    }
}

/// In an ascending table, every entry from the rank of `path` on that does
/// not hold `path` itself comes after `path`.
proof fn lemma_after_rank(s: Seq<(Seq<char>, u64)>, path: Seq<char>, j: int)
    requires
        ascending(s),
        rank(s, path) <= j < s.len(),
        !holds(s, path) || j > rank(s, path),
    ensures
        precedes(path, s[j].0),
{
    let p = rank(s, path);
    lemma_rank_splits(s, path);
    assert(!precedes(s[j].0, path));
    if j > p {
        assert(precedes(s[p].0, s[j].0));
        if s[j].0 == path {
            assert(false);
        }
    }
    lemma_precedes_total(path, s[j].0);
}

/// Setting a count keeps the table ascending, and changes the sum of the
/// counts by the difference between the new count and the old.
pub proof fn lemma_set_count_keeps_order(s: Seq<(Seq<char>, u64)>, path: Seq<char>, count: u64)
    requires
        ascending(s),
    ensures
        ascending(set_count(s, path, count)),
        total_count(set_count(s, path, count)) == total_count(s) - count_in(s, path) + count,
{
    let p = rank(s, path);
    let t = set_count(s, path, count);
    lemma_rank_splits(s, path);
    if holds(s, path) {
        lemma_total_update(s, p, (path, count));
        assert forall|i: int, j: int| 0 <= i < j < t.len() implies precedes(
            #[trigger] t[i].0,
            #[trigger] t[j].0,
        ) by {
            assert(precedes(s[i].0, s[j].0));
        }
    } else {
        lemma_total_insert(s, p, (path, count));
        assert forall|i: int, j: int| 0 <= i < j < t.len() implies precedes(
            #[trigger] t[i].0,
            #[trigger] t[j].0,
        ) by {
            if j < p {
                assert(precedes(s[i].0, s[j].0));
            } else if j == p {
                assert(precedes(s[i].0, path));
            } else if i < p {
                assert(precedes(s[i].0, s[j - 1].0));
            } else if i == p {
                lemma_after_rank(s, path, j - 1);
            } else {
                assert(precedes(s[i - 1].0, s[j - 1].0));
            }
        }
    }
}

/// A table reads like a map after a count is set: the path that was set
/// has the new count, and every other path has what it had.
pub proof fn lemma_set_count_reads(
    s: Seq<(Seq<char>, u64)>,
    path: Seq<char>,
    count: u64,
    q: Seq<char>,
)
    requires
        ascending(s),
    ensures
        holds(set_count(s, path, count), q) == (q == path || holds(s, q)),
        count_in(set_count(s, path, count), q) == if q == path {
            count
        } else {
            count_in(s, q)
        },
{
    let p = rank(s, path);
    let r = rank(s, q);
    let t = set_count(s, path, count);
    lemma_rank_splits(s, path);
    lemma_rank_splits(s, q);
    if holds(s, path) {
        assert(same_paths(s, t));
        lemma_rank_by_paths(s, t, q);
    } else if q == path {
        assert forall|i: int| p <= i < t.len() implies !precedes(#[trigger] t[i].0, path) by {
            if i == p {
                if precedes(path, path) {
                    lemma_precedes_asymmetric(path, path);
                }
            } else {
                assert(t[i] == s[i - 1]);
            }
        }
        assert forall|i: int| 0 <= i < p implies precedes(#[trigger] t[i].0, path) by {
            assert(t[i] == s[i]);
        }
        lemma_rank_is(t, path, p);
    } else if precedes(path, q) {
        if r < p {
            assert(precedes(s[r].0, path));
            lemma_precedes_transitive(s[r].0, path, q);
            assert(false);
        }
        assert forall|i: int| 0 <= i < r + 1 implies precedes(#[trigger] t[i].0, q) by {
            if i < p {
                assert(t[i] == s[i]);
                assert(precedes(s[i].0, q));
            } else if i > p {
                assert(t[i] == s[i - 1]);
                assert(precedes(s[i - 1].0, q));
            }
        }
        assert forall|i: int| r + 1 <= i < t.len() implies !precedes(#[trigger] t[i].0, q) by {
            assert(t[i] == s[i - 1]);
            assert(!precedes(s[i - 1].0, q));
        }
        lemma_rank_is(t, q, r + 1);
        if r < s.len() {
            assert(t[r + 1] == s[r]);
        }
    } else {
        lemma_precedes_total(path, q);
        assert(precedes(q, path));
        if p < r {
            assert(precedes(s[p].0, q));
            lemma_precedes_transitive(s[p].0, q, path);
            assert(!precedes(s[p].0, path));
            assert(false);
        }
        assert forall|i: int| 0 <= i < r implies precedes(#[trigger] t[i].0, q) by {
            assert(t[i] == s[i]);
            assert(precedes(s[i].0, q));
        }
        assert forall|i: int| r <= i < t.len() implies !precedes(#[trigger] t[i].0, q) by {
            if i < p {
                assert(t[i] == s[i]);
                assert(!precedes(s[i].0, q));
            } else if i > p {
                assert(t[i] == s[i - 1]);
                assert(!precedes(s[i - 1].0, q));
            }
        }
        lemma_rank_is(t, q, r);
        if r < p {
            assert(t[r] == s[r]);
        } else {
            assert(t[r].0 == path);
            if r < s.len() && s[r].0 == q {
                assert(!precedes(s[p].0, path));
                assert(false);
            }
        }
    }
}

/// In an ascending table, the entry at place `i` is the one that the table
/// has for its path.
pub proof fn lemma_entry_reads(s: Seq<(Seq<char>, u64)>, i: int)
    requires
        ascending(s),
        0 <= i < s.len(),
    ensures
        rank(s, s[i].0) == i,
        holds(s, s[i].0),
        count_in(s, s[i].0) == s[i].1,
{
    let path = s[i].0;
    assert forall|k: int| i <= k < s.len() implies !precedes(#[trigger] s[k].0, path) by {
        if k == i {
            if precedes(path, path) {
                lemma_precedes_asymmetric(path, path);
            }
        } else {
            assert(precedes(s[i].0, s[k].0));
            lemma_precedes_asymmetric(s[i].0, s[k].0);
        }
    }
    assert forall|k: int| 0 <= k < i implies precedes(#[trigger] s[k].0, path) by {
        assert(precedes(s[k].0, s[i].0));
    }
    lemma_rank_is(s, path, i);
}

/// An ascending table without its last entry records what the table
/// records, but for the path of that entry.
proof fn lemma_drop_last_reads(s: Seq<(Seq<char>, u64)>, q: Seq<char>)
    requires
        ascending(s),
        s.len() > 0,
    ensures
        ascending(s.drop_last()),
        holds(s.drop_last(), q) == (holds(s, q) && q != s.last().0),
        count_in(s.drop_last(), q) == if q == s.last().0 {
            0
        } else {
            count_in(s, q)
        },
{
    let t = s.drop_last();
    let last = s.len() - 1;
    assert forall|i: int, j: int| 0 <= i < j < t.len() implies precedes(
        #[trigger] t[i].0,
        #[trigger] t[j].0,
    ) by {
        assert(precedes(s[i].0, s[j].0));
    }
    lemma_rank_splits(s, q);
    lemma_rank_splits(t, q);
    lemma_entry_reads(s, last);
    let r = rank(s, q);
    if q != s[last].0 && !precedes(s[last].0, q) {
        assert(!precedes(s[last].0, q));
        if r < last {
            assert(t[r] == s[r]);
        }
    }
}

/// A table is what it records: two ascending tables that have the same
/// paths with the same counts are the same list. So the order in which the
/// counts were put in leaves no trace.
pub proof fn lemma_table_by_reads(s: Seq<(Seq<char>, u64)>, t: Seq<(Seq<char>, u64)>)
    requires
        ascending(s),
        ascending(t),
        forall|q: Seq<char>| holds(s, q) == holds(t, q),
        forall|q: Seq<char>| count_in(s, q) == count_in(t, q),
    ensures
        s == t,
    decreases s.len(),
{
    if s.len() == 0 {
        if t.len() > 0 {
            lemma_entry_reads(t, 0);
            assert(holds(s, t[0].0));
        }
        assert(s =~= t);
    } else {
        let a = s.last();
        lemma_entry_reads(s, s.len() - 1);
        assert(holds(t, a.0));
        let b = t.last();
        lemma_entry_reads(t, t.len() - 1);
        assert(holds(s, b.0));
        if a.0 != b.0 {
            let j = rank(t, a.0);
            let i = rank(s, b.0);
            assert(precedes(t[j].0, t[t.len() - 1].0));
            assert(precedes(s[i].0, s[s.len() - 1].0));
            lemma_precedes_asymmetric(a.0, b.0);
        }
        assert(count_in(s, a.0) == count_in(t, a.0));
        assert(a == b);
        assert forall|q: Seq<char>| holds(s.drop_last(), q) == holds(t.drop_last(), q) by {
            lemma_drop_last_reads(s, q);
            lemma_drop_last_reads(t, q);
        }
        assert forall|q: Seq<char>|
            count_in(s.drop_last(), q) == count_in(t.drop_last(), q) by {
            lemma_drop_last_reads(s, q);
            lemma_drop_last_reads(t, q);
        }
        lemma_drop_last_reads(s, a.0);
        lemma_drop_last_reads(t, a.0);
        lemma_table_by_reads(s.drop_last(), t.drop_last());
        assert(s =~= s.drop_last().push(a));
        assert(t =~= t.drop_last().push(b));
    }
}

/// The table `a` with the first `k` entries of the table `b` added in: each
/// adds its count to what the table has for its path.
pub open spec fn merged_upto(
    a: Seq<(Seq<char>, u64)>,
    b: Seq<(Seq<char>, u64)>,
    k: int,
) -> Seq<(Seq<char>, u64)>
    decreases k,
{
    if k <= 0 {
        a
    } else {
        let m = merged_upto(a, b, k - 1);
        set_count(m, b[k - 1].0, (count_in(m, b[k - 1].0) + b[k - 1].1) as u64)
    }
}

/// Two tables merged: the first with all entries of the second added in.
pub open spec fn merged(a: Seq<(Seq<char>, u64)>, b: Seq<(Seq<char>, u64)>) -> Seq<
    (Seq<char>, u64),
> {
    merged_upto(a, b, b.len() as int)
}

/// The count that the first `k` entries of a table record for `path`.
pub open spec fn count_among(s: Seq<(Seq<char>, u64)>, path: Seq<char>, k: int) -> nat
    decreases k,
{
    if k <= 0 {
        0
    } else {
        count_among(s, path, k - 1) + if s[k - 1].0 == path {
            s[k - 1].1 as nat
        } else {
            0
        }
    }
}

/// In an ascending table, the first `k` entries record for a path what the
/// table records for it if its entry is among them, and else nothing.
proof fn lemma_count_among(s: Seq<(Seq<char>, u64)>, path: Seq<char>, k: int)
    requires
        ascending(s),
        0 <= k <= s.len(),
    ensures
        count_among(s, path, k) == if holds(s, path) && rank(s, path) < k {
            count_in(s, path) as nat
        } else {
            0
        },
    decreases k,
{
    if k > 0 {
        lemma_count_among(s, path, k - 1);
        lemma_rank_splits(s, path);
        let p = rank(s, path);
        if s[k - 1].0 == path {
            if k - 1 < p {
                assert(precedes(s[k - 1].0, path));
                lemma_precedes_asymmetric(s[k - 1].0, path);
            } else if k - 1 > p {
                assert(precedes(s[p].0, s[k - 1].0));
                assert(!precedes(s[p].0, path));
            }
        }
    }
}

/// The counts of the first `k` entries of a table add up to no more than
/// the counts of them all.
pub proof fn lemma_total_of_part(s: Seq<(Seq<char>, u64)>, k: int)
    requires
        0 <= k <= s.len(),
    ensures
        total_count(s.take(k)) <= total_count(s),
        k < s.len() ==> total_count(s.take(k + 1)) == total_count(s.take(k)) + s[k].1,
    decreases s.len() - k,
{
    assert(s.take(s.len() as int) =~= s);
    if k < s.len() {
        assert(s.take(k + 1).drop_last() =~= s.take(k));
        lemma_total_of_part(s, k + 1);
    }
}

/// Merging adds up: where the counts of both tables together fit, the
/// merged table is ascending, its counts add up to the sum of both totals,
/// and for every path it records the sum of what the two tables record.
pub proof fn lemma_merged_adds(
    a: Seq<(Seq<char>, u64)>,
    b: Seq<(Seq<char>, u64)>,
    k: int,
    q: Seq<char>,
)
    requires
        ascending(a),
        ascending(b),
        0 <= k <= b.len(),
        total_count(a) + total_count(b) <= u64::MAX,
    ensures
        ascending(merged_upto(a, b, k)),
        total_count(merged_upto(a, b, k)) == total_count(a) + total_count(b.take(k)),
        count_in(merged_upto(a, b, k), q) == count_in(a, q) + count_among(b, q, k),
        holds(merged_upto(a, b, k), q) == (holds(a, q) || exists|i: int|
            0 <= i < k && (#[trigger] b[i]).0 == q),
        k == b.len() ==> count_in(merged(a, b), q) == count_in(a, q) + count_in(b, q),
    decreases k,
{
    if k > 0 {
        let m = merged_upto(a, b, k - 1);
        let path = b[k - 1].0;
        lemma_merged_adds(a, b, k - 1, q);
        lemma_merged_adds(a, b, k - 1, path);
        lemma_total_of_part(b, k - 1);
        lemma_total_of_part(b, k);
        if holds(m, path) {
            lemma_rank_bounds(m, path);
            lemma_total_covers(m, rank(m, path));
        }
        let value = (count_in(m, path) + b[k - 1].1) as u64;
        assert(value == count_in(m, path) + b[k - 1].1);
        lemma_set_count_keeps_order(m, path, value);
        lemma_set_count_reads(m, path, value, q);
        let t = merged_upto(a, b, k);
        assert(t == set_count(m, path, value));
        if holds(t, q) {
            if q == path {
                assert(b[k - 1].0 == q);
            } else if !holds(a, q) {
                let i = choose|i: int| 0 <= i < k - 1 && (#[trigger] b[i]).0 == q;
                assert(0 <= i < k && b[i].0 == q);
            }
        } else {
            assert forall|i: int| 0 <= i < k implies (#[trigger] b[i]).0 != q by {
                if i < k - 1 && b[i].0 == q {
                    assert(holds(m, q));
                }
            }
        }
    } else {
        assert(b.take(0) =~= Seq::<(Seq<char>, u64)>::empty());
    }
    if k == b.len() {
        lemma_count_among(b, q, k);
        lemma_rank_bounds(b, q);
    }
}

/// Sample counts by call path. A path names its frames from the outermost
/// to the innermost, joined by `;`. The entries are kept in dictionary order
/// of their paths, and the counts of a table add up to no more than
/// `u64::MAX`.
#[derive(Debug, Clone)]
pub struct StackCounts {
    entries: Vec<(Vec<char>, u64)>,
    total: u64,
}

impl View for StackCounts {
    type V = Seq<(Seq<char>, u64)>;

    /// The entries in order, each as its path and its count.
    closed spec fn view(&self) -> Seq<(Seq<char>, u64)> {
        Seq::new(self.entries@.len(), |i: int| (self.entries@[i].0@, self.entries@[i].1))
    }
}

impl StackCounts {
    /// The entries are in strictly ascending order and their total is known.
    pub closed spec fn wf(&self) -> bool {
        &&& ascending(self@)
        &&& self.total as nat == total_count(self@)
    }

    /// What every well-formed table offers to its readers.
    pub proof fn lemma_wf(&self)
        requires
            self.wf(),
        ensures
            ascending(self@),
            total_count(self@) <= u64::MAX,
    {
    }

    /// The empty table.
    pub fn new() -> (out: Self)
        ensures
            out.wf(),
            out@ == Seq::<(Seq<char>, u64)>::empty(),
    {
        let out = StackCounts { entries: Vec::new(), total: 0 };
        assert(out@ =~= Seq::<(Seq<char>, u64)>::empty());
        out
    }

    /// The number of paths.
    pub fn len(&self) -> (n: usize)
        ensures
            n == self@.len(),
    {
        self.entries.len()
    }

    /// The path of the entry at place `i` of the order.
    pub fn path_at(&self, i: usize) -> (path: &Vec<char>)
        requires
            i < self@.len(),
        ensures
            path@ == self@[i as int].0,
    {
        &self.entries[i].0
    }

    /// The count of the entry at place `i` of the order.
    pub fn count_at(&self, i: usize) -> (count: u64)
        requires
            i < self@.len(),
        ensures
            count == self@[i as int].1,
    {
        self.entries[i].1
    }

    /// The sum of all counts.
    pub fn total(&self) -> (t: u64)
        requires
            self.wf(),
        ensures
            t == total_count(self@),
    {
        self.total
    }

    /// The place of `path` in the order, and whether the table has it.
    fn locate(&self, path: &Vec<char>) -> (at: (usize, bool))
        requires
            self.wf(),
        ensures
            at.0 == rank(self@, path@),
            at.1 == holds(self@, path@),
            at.0 <= self@.len(),
    {
        let mut lo: usize = 0;
        let mut hi: usize = self.entries.len();
        while lo < hi
            invariant
                self.wf(),
                0 <= lo <= hi <= self@.len(),
                self@.len() == self.entries@.len(),
                forall|i: int| 0 <= i < lo ==> precedes(#[trigger] self@[i].0, path@),
                forall|i: int| hi <= i < self@.len() ==> !precedes(#[trigger] self@[i].0, path@),
            decreases hi - lo,
        {
            let mid = lo + (hi - lo) / 2;
            let r = compare_paths(&self.entries[mid].0, path);
            assert(self@[mid as int].0 == self.entries@[mid as int].0@);
            if r == Rank::Before {
                assert forall|i: int| 0 <= i < mid + 1 implies precedes(
                    #[trigger] self@[i].0,
                    path@,
                ) by {
                    if i < mid {
                        assert(precedes(self@[i].0, self@[mid as int].0));
                        lemma_precedes_transitive(self@[i].0, self@[mid as int].0, path@);
                    }
                }
                lo = mid + 1;
            } else {
                assert forall|i: int| mid <= i < self@.len() implies !precedes(
                    #[trigger] self@[i].0,
                    path@,
                ) by {
                    if mid < i && precedes(self@[i].0, path@) {
                        assert(precedes(self@[mid as int].0, self@[i].0));
                        lemma_precedes_transitive(self@[mid as int].0, self@[i].0, path@);
                    }
                }
                hi = mid;
            }
        }
        proof {
            lemma_rank_is(self@, path@, lo as int);
        }
        if lo < self.entries.len() {
            let r = compare_paths(&self.entries[lo].0, path);
            assert(self@[lo as int].0 == self.entries@[lo as int].0@);
            (lo, r == Rank::Same)
        } else {
            (lo, false)
        }
    }

    /// The count recorded for `path`, if the table has it.
    pub fn get(&self, path: &str) -> (found: Option<u64>)
        requires
            self.wf(),
        ensures
            found is Some == holds(self@, path@),
            found is Some ==> found->0 == count_in(self@, path@),
    {
        let chars = to_chars(path);
        let (p, has) = self.locate(&chars);
        if has {
            Some(self.entries[p].1)
        } else {
            None
        }
    }

    /// Sets the count of `path`, unless the counts would then add up to more
    /// than `u64::MAX`: in that case the table stays as it is and the
    /// answer is `false`.
    pub fn insert(&mut self, path: &str, count: u64) -> (ok: bool)
        requires
            old(self).wf(),
        ensures
            final(self).wf(),
            ok == (total_count(old(self)@) - count_in(old(self)@, path@) + count <= u64::MAX),
            ok ==> final(self)@ == set_count(old(self)@, path@, count),
            !ok ==> final(self)@ == old(self)@,
    {
        let chars = to_chars(path);
        self.put(chars, count, false)
    }

    /// Adds `count` to the count of `path`, which is 0 where the table has no
    /// such path, unless the counts would then add up to more than
    /// `u64::MAX`: in that case the table stays as it is and the answer is
    /// `false`.
    pub fn add(&mut self, path: &str, count: u64) -> (ok: bool)
        requires
            old(self).wf(),
        ensures
            final(self).wf(),
            ok == (total_count(old(self)@) + count <= u64::MAX),
            ok ==> final(self)@ == set_count(
                old(self)@,
                path@,
                (count_in(old(self)@, path@) + count) as u64,
            ),
            !ok ==> final(self)@ == old(self)@,
    {
        let chars = to_chars(path);
        self.put(chars, count, true)
    }

    /// Adds all counts of `other` in, each to the count that its path has
    /// here, unless the counts of both tables together come to more than
    /// `u64::MAX`: in that case the table stays as it is and the answer is
    /// `false`.
    pub fn absorb(&mut self, other: &StackCounts) -> (ok: bool)
        requires
            old(self).wf(),
            other.wf(),
        ensures
            final(self).wf(),
            ok == (total_count(old(self)@) + total_count(other@) <= u64::MAX),
            ok ==> final(self)@ == merged(old(self)@, other@),
            !ok ==> final(self)@ == old(self)@,
    {
        let ghost a = self@;
        let ghost b = other@;
        if other.total > u64::MAX - self.total {
            return false;
        }
        let mut k: usize = 0;
        while k < other.entries.len()
            invariant
                k <= b.len(),
                a == old(self)@,
                b == other@,
                b.len() == other.entries@.len(),
                self.wf(),
                other.wf(),
                ascending(a),
                total_count(a) + total_count(b) <= u64::MAX,
                self@ == merged_upto(a, b, k as int),
            decreases b.len() - k,
        {
            proof {
                let q = b[k as int].0;
                lemma_merged_adds(a, b, k as int, q);
                lemma_total_of_part(b, k as int);
                lemma_total_of_part(b, k + 1);
            }
            let path = copy_chars(&other.entries[k].0);
            let count = other.entries[k].1;
            assert(path@ == b[k as int].0);
            let ok = self.put(path, count, true);
            assert(ok);
            k += 1;
        }
        true
    }

    /// Sets the count of `path` to `count`, or to its old count plus `count`
    /// where `on_top` is set, if the total stays within `u64::MAX`.
    pub fn put(&mut self, path: Vec<char>, count: u64, on_top: bool) -> (ok: bool)
        requires
            old(self).wf(),
        ensures
            final(self).wf(),
            ok == (total_count(old(self)@) - (if on_top {
                0
            } else {
                count_in(old(self)@, path@) as int
            }) + count <= u64::MAX),
            ok ==> final(self)@ == set_count(
                old(self)@,
                path@,
                (if on_top {
                    count_in(old(self)@, path@) + count
                } else {
                    count as int
                }) as u64,
            ),
            !ok ==> final(self)@ == old(self)@,
    {
        let (p, has) = self.locate(&path);
        let ghost before = self@;
        let had: u64 = if has {
            self.entries[p].1
        } else {
            0
        };
        proof {
            if has {
                lemma_total_covers(before, p as int);
            }
        }
        let rest: u64 = if on_top {
            self.total
        } else {
            self.total - had
        };
        if count > u64::MAX - rest {
            return false;
        }
        let value: u64 = if on_top {
            had + count
        } else {
            count
        };
        let ghost entry = (path@, value);
        if has {
            self.entries.set(p, (path, value));
            proof {
                assert(self@ =~= before.update(p as int, entry));
            }
        } else {
            self.entries.insert(p, (path, value));
            proof {
                assert(self@ =~= before.insert(p as int, entry));
            }
        }
        proof {
            lemma_set_count_keeps_order(before, entry.0, value);
        }
        self.total = rest + count;
        true
    }
}

} // verus!
