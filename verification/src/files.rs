//! The project's file tree: the order a folder is listed in, which entries a
//! filter keeps, which folders are walked into, and a budget on how much is
//! read at all.

use vstd::prelude::*;
use crate::members::{holds, holds_key, put, toggle, turned_over};
use crate::paths::{lies_under, parent, parent_of, same_path, same_path_of, starts_with};
use crate::text::{chars_of, contains, contains_text, lowercase, to_lowercase};

verus! {

broadcast use {vstd::seq_lib::group_to_multiset_ensures, vstd::multiset::group_multiset_axioms};

/// How many entries one walk of the tree reads at most.
pub const BUDGET: usize = 20000;

/// How deep a walk goes below the root at most.
pub const MAX_DEPTH: usize = 64;

/// An entry as a folder lists it: whether it is a folder, its path, and its
/// own name.
pub struct Listed {
    pub directory: bool,
    pub path: String,
    pub name: String,
}

/// A row of the tree: an entry's path, whether it is a folder, and how far it
/// is indented.
pub struct Entry {
    pub path: String,
    pub directory: bool,
    pub depth: usize,
}

/// Whether `a` comes no later than `b` in code-point order, character by
/// character, a prefix first.
pub open spec fn lex_le(a: Seq<char>, b: Seq<char>) -> bool
    decreases a.len(),
{
    if a.len() == 0 {
        true
    } else if b.len() == 0 {
        false
    } else if (a[0] as u32) != (b[0] as u32) {
        (a[0] as u32) < (b[0] as u32)
    } else {
        lex_le(a.drop_first(), b.drop_first())
    }
}

/// Whether `a` is listed no later than `b`: folders first, then by name.
pub open spec fn comes_first(a: Listed, b: Listed) -> bool {
    if a.directory != b.directory {
        a.directory
    } else {
        lex_le(a.name@, b.name@)
    }
}

pub proof fn lemma_lex_total(a: Seq<char>, b: Seq<char>)
    ensures
        lex_le(a, b) || lex_le(b, a),
    decreases a.len(),
{
    if a.len() > 0 && b.len() > 0 && (a[0] as u32) == (b[0] as u32) {
        lemma_lex_total(a.drop_first(), b.drop_first());
    }
}

pub proof fn lemma_lex_trans(a: Seq<char>, b: Seq<char>, c: Seq<char>)
    requires
        lex_le(a, b),
        lex_le(b, c),
    ensures
        lex_le(a, c),
    decreases a.len(),
{
    if a.len() > 0 && (a[0] as u32) == (b[0] as u32) && (b[0] as u32) == (c[0] as u32) {
        lemma_lex_trans(a.drop_first(), b.drop_first(), c.drop_first());
    }
}

proof fn lemma_first_total(a: Listed, b: Listed)
    ensures
        comes_first(a, b) || comes_first(b, a),
{
    lemma_lex_total(a.name@, b.name@);
}

proof fn lemma_first_trans(a: Listed, b: Listed, c: Listed)
    requires
        comes_first(a, b),
        comes_first(b, c),
    ensures
        comes_first(a, c),
{
    if a.directory == b.directory && b.directory == c.directory {
        lemma_lex_trans(a.name@, b.name@, c.name@);
    }
}

/// Whether `a` comes no later than `b` in code-point order.
pub fn name_le(a: &Vec<char>, b: &Vec<char>) -> (le: bool)
    ensures
        le == lex_le(a@, b@),
{
    let mut i: usize = 0;
    assert(a@.subrange(0, a.len() as int) =~= a@);
    assert(b@.subrange(0, b.len() as int) =~= b@);
    while i < a.len() && i < b.len() && (a[i] as u32) == (b[i] as u32)
        invariant
            i <= a.len(),
            i <= b.len(),
            lex_le(a@.subrange(i as int, a.len() as int), b@.subrange(i as int, b.len() as int))
                == lex_le(a@, b@),
        decreases a.len() - i,
    {
        assert(a@.subrange(i as int, a.len() as int).drop_first() =~= a@.subrange(
            i + 1,
            a.len() as int,
        ));
        assert(b@.subrange(i as int, b.len() as int).drop_first() =~= b@.subrange(
            i + 1,
            b.len() as int,
        ));
        i += 1;
    }
    let ghost x = a@.subrange(i as int, a.len() as int);
    let ghost y = b@.subrange(i as int, b.len() as int);
    if i == a.len() {
        assert(x.len() == 0);
        true
    } else if i == b.len() {
        false
    } else {
        assert(x[0] == a@[i as int] && y[0] == b@[i as int]);
        (a[i] as u32) < (b[i] as u32)
    }
}

/// Whether `a` is listed no later than `b`.
pub fn first(a: &Listed, b: &Listed) -> (f: bool)
    ensures
        f == comes_first(*a, *b),
{
    if a.directory != b.directory {
        a.directory
    } else {
        name_le(&chars_of(a.name.as_str()), &chars_of(b.name.as_str()))
    }
}

/// A folder's entries in listing order: folders first, then by name; the
/// same entries, each once.
pub fn sort_listing(listing: Vec<Listed>) -> (out: Vec<Listed>)
    ensures
        out@.to_multiset() == listing@.to_multiset(),
        forall|i: int, j: int| 0 <= i < j < out.len() ==> comes_first(out@[i], out@[j]),
{
    let mut rest = listing;
    let mut out: Vec<Listed> = Vec::new();
    while rest.len() > 0
        invariant
            out@.to_multiset().add(rest@.to_multiset()) == listing@.to_multiset(),
            forall|i: int, j: int| 0 <= i < j < out.len() ==> comes_first(out@[i], out@[j]),
        decreases rest.len(),
    {
        let ghost rest_before = rest@;
        let ghost out_before = out@;
        let e = rest.remove(0);
        assert(rest_before.remove(0).to_multiset() == rest_before.to_multiset().remove(e));
        let mut j: usize = 0;
        while j < out.len() && first(&out[j], &e)
            invariant
                out@ == out_before,
                j <= out.len(),
                forall|k: int| 0 <= k < j ==> comes_first(out@[k], e),
            decreases out.len() - j,
        {
            j += 1;
        }
        proof {
            if j < out.len() {
                lemma_first_total(out@[j as int], e);
                assert forall|k: int| j <= k < out.len() implies comes_first(e, out@[k]) by {
                    if k > j {
                        lemma_first_trans(e, out@[j as int], out@[k]);
                    }
                }
            }
        }
        out.insert(j, e);
        proof {
            let now = out@;
            assert(now == out_before.insert(j as int, e));
            assert(now.to_multiset() == out_before.to_multiset().insert(e));
            assert forall|a: int, b: int| 0 <= a < b < now.len() implies comes_first(
                now[a],
                now[b],
            ) by {
                if b < j {
                } else if b == j {
                    assert(now[a] == out_before[a]);
                } else if a < j {
                    assert(now[a] == out_before[a]);
                    assert(now[b] == out_before[b - 1]);
                    if b - 1 >= j {
                        lemma_first_trans(out_before[a], e, out_before[b - 1]);
                    }
                } else if a == j {
                    assert(now[b] == out_before[b - 1]);
                } else {
                    assert(now[a] == out_before[a - 1]);
                    assert(now[b] == out_before[b - 1]);
                }
            }
            assert(rest_before.to_multiset().contains(e)) by {
                assert(rest_before[0] == e);
            }
            assert(now.to_multiset().add(rest@.to_multiset()) =~= listing@.to_multiset());
        }
    }
    assert(rest@ =~= Seq::<Listed>::empty());
    assert(out@.to_multiset().add(rest@.to_multiset()) =~= out@.to_multiset());
    out
}

/// Whether an entry named `name` is kept by the filter `query` (already in
/// lower case): every entry where there is no filter, else those whose name in
/// lower case holds it.
pub open spec fn shows(name: Seq<char>, query: Seq<char>) -> bool {
    query.len() == 0 || contains_text(lowercase(name), query)
}

/// Whether the walk goes into `e`, an entry `depth` levels below the root:
/// a folder, while the budget lasts and above the depth limit, that the
/// filter searches through or the tree has open.
pub open spec fn walks_into(
    e: Listed,
    depth: int,
    remaining: int,
    query: Seq<char>,
    expanded: Seq<String>,
) -> bool {
    &&& e.directory
    &&& remaining > 0
    &&& depth < MAX_DEPTH
    &&& query.len() > 0 || holds_key(expanded, e.path@)
}

/// The row for `e`, `depth` levels down: indented by its depth, except in a
/// filtered list, which is flat.
pub open spec fn row_of(e: Listed, depth: int, query: Seq<char>) -> (Seq<char>, bool, int) {
    (e.path@, e.directory, if query.len() == 0 {
        depth
    } else {
        0
    })
}

/// A folder being walked: its entries in listing order, and how many of
/// them are done.
pub struct Level {
    pub entries: Vec<Listed>,
    pub next: usize,
}

pub open spec fn row_view(r: Entry) -> (Seq<char>, bool, int) {
    (r.path@, r.directory, r.depth as int)
}

pub open spec fn level_view(l: Level) -> (Seq<Listed>, int) {
    (l.entries@, l.next as int)
}

pub open spec fn rows_view(rows: Seq<Entry>) -> Seq<(Seq<char>, bool, int)> {
    rows.map_values(|r: Entry| row_view(r))
}

pub open spec fn levels_view(levels: Seq<Level>) -> Seq<(Seq<Listed>, int)> {
    levels.map_values(|l: Level| level_view(l))
}

/// How much is left to look at: each open folder, and each entry not yet
/// done.
pub open spec fn pending(levels: Seq<(Seq<Listed>, int)>) -> nat
    decreases levels.len(),
{
    if levels.len() == 0 {
        0
    } else {
        let top = levels.last();
        pending(levels.drop_last()) + 1 + if 0 <= top.1 < top.0.len() {
            (top.0.len() - top.1) as nat
        } else {
            0
        }
    }
}

/// The walk from where it stands to the next folder it goes into: entries
/// are taken in order from the deepest open folder, a finished folder is
/// closed, each kept entry adds a row, and the walk stops at a folder to go
/// into (with the levels, the rows, and that folder's path) or when no
/// folder is left open.
pub open spec fn walk(
    levels: Seq<(Seq<Listed>, int)>,
    rows: Seq<(Seq<char>, bool, int)>,
    remaining: int,
    query: Seq<char>,
    expanded: Seq<String>,
) -> (Seq<(Seq<Listed>, int)>, Seq<(Seq<char>, bool, int)>, Option<Seq<char>>)
    decreases pending(levels),
{
    if levels.len() == 0 {
        (levels, rows, None)
    } else {
        let d = levels.len() - 1;
        let top = levels[d];
        if top.1 < 0 || top.1 >= top.0.len() {
            walk(levels.drop_last(), rows, remaining, query, expanded)
        } else {
            let e = top.0[top.1];
            let after = levels.update(d, (top.0, top.1 + 1));
            let shown = if shows(e.name@, query) {
                rows.push(row_of(e, d, query))
            } else {
                rows
            };
            proof {
                assert(after.drop_last() =~= levels.drop_last());
            }
            if walks_into(e, d, remaining, query, expanded) {
                (after, shown, Some(e.path@))
            } else {
                walk(after, shown, remaining, query, expanded)
            }
        }
    }
}

/// The rows a folder's entries `entries` give from the `i`th on, `depth`
/// levels below the root, with `remaining` of the budget left; and what is
/// left of it after. `tree` holds each folder's entries in listing order, by
/// path, as they were read. Entries go in order: each kept by the filter
/// adds its row, and a folder the walk goes into adds, right after its own
/// row, the rows of its entries (reading them spends their number from the
/// budget) before the walk goes on with the entry after it.
pub open spec fn tree_rows(
    tree: Map<Seq<char>, Seq<Listed>>,
    entries: Seq<Listed>,
    i: int,
    depth: int,
    remaining: int,
    query: Seq<char>,
    expanded: Seq<String>,
) -> (Seq<(Seq<char>, bool, int)>, int)
    decreases (MAX_DEPTH - depth) as nat, (entries.len() - i) as nat,
{
    if i < 0 || i >= entries.len() || depth < 0 || depth > MAX_DEPTH {
        (Seq::empty(), remaining)
    } else {
        let e = entries[i];
        let own = if shows(e.name@, query) {
            seq![row_of(e, depth, query)]
        } else {
            Seq::empty()
        };
        if walks_into(e, depth, remaining, query, expanded) {
            let inner = tree[e.path@];
            let sub = tree_rows(tree, inner, 0, depth + 1, remaining - inner.len(), query, expanded);
            let rest = tree_rows(tree, entries, i + 1, depth, sub.1, query, expanded);
            (own + sub.0 + rest.0, rest.1)
        } else {
            let rest = tree_rows(tree, entries, i + 1, depth, remaining, query, expanded);
            (own + rest.0, rest.1)
        }
    }
}

/// The rows still to come from folders being walked, deepest first: what is
/// left of each, read through `tree`; and what is left of the budget after.
pub open spec fn stack_rows(
    tree: Map<Seq<char>, Seq<Listed>>,
    levels: Seq<(Seq<Listed>, int)>,
    remaining: int,
    query: Seq<char>,
    expanded: Seq<String>,
) -> (Seq<(Seq<char>, bool, int)>, int)
    decreases levels.len(),
{
    if levels.len() == 0 {
        (Seq::empty(), remaining)
    } else {
        let d = levels.len() - 1;
        let top = tree_rows(tree, levels[d].0, levels[d].1, d, remaining, query, expanded);
        let below = stack_rows(tree, levels.drop_last(), top.1, query, expanded);
        (top.0 + below.0, below.1)
    }
}

/// The walk reads the tree in pre-order: whatever step it is at, the rows it
/// ends with are the rows so far followed by [`stack_rows`] of the folders it
/// is in. A step that stops at a folder to read, given that folder's entries
/// from `tree` (spending their number), leaves that unchanged; a step that
/// ends has made every one of them. Begun on the root's entries, the walk
/// thus ends with [`tree_rows`] of the root.
pub proof fn lemma_walk_reads_tree(
    tree: Map<Seq<char>, Seq<Listed>>,
    levels: Seq<(Seq<Listed>, int)>,
    rows: Seq<(Seq<char>, bool, int)>,
    remaining: int,
    query: Seq<char>,
    expanded: Seq<String>,
)
    requires
        levels.len() <= MAX_DEPTH + 1,
    ensures
        ({
            let w = walk(levels, rows, remaining, query, expanded);
            let all = stack_rows(tree, levels, remaining, query, expanded);
            match w.2 {
                None => w.1 == rows + all.0 && all.1 == remaining,
                Some(p) => {
                    let inner = tree[p];
                    let next = stack_rows(
                        tree,
                        w.0.push((inner, 0)),
                        remaining - inner.len(),
                        query,
                        expanded,
                    );
                    &&& rows + all.0 == w.1 + next.0
                    &&& all.1 == next.1
                    &&& w.0.len() <= levels.len()
                    &&& w.0.len() <= MAX_DEPTH
                }
            }
        }),
    decreases pending(levels),
{
    if levels.len() == 0 {
        assert(rows + Seq::<(Seq<char>, bool, int)>::empty() =~= rows);
    } else {
        let d = levels.len() - 1;
        let top = levels[d];
        if top.1 < 0 || top.1 >= top.0.len() {
            lemma_walk_reads_tree(tree, levels.drop_last(), rows, remaining, query, expanded);
            assert(Seq::<(Seq<char>, bool, int)>::empty() + stack_rows(
                tree,
                levels.drop_last(),
                remaining,
                query,
                expanded,
            ).0 =~= stack_rows(tree, levels.drop_last(), remaining, query, expanded).0);
        } else {
            let e = top.0[top.1];
            let after = levels.update(d, (top.0, top.1 + 1));
            let own = if shows(e.name@, query) {
                seq![row_of(e, d, query)]
            } else {
                Seq::empty()
            };
            let shown = if shows(e.name@, query) {
                rows.push(row_of(e, d, query))
            } else {
                rows
            };
            assert(rows + own =~= shown);
            assert(after.drop_last() =~= levels.drop_last());
            assert(pending(after) < pending(levels));
            if walks_into(e, d, remaining, query, expanded) {
                let inner = tree[e.path@];
                let pushed = after.push((inner, 0));
                assert(pushed.drop_last() =~= after);
                let sub = tree_rows(tree, inner, 0, d + 1, remaining - inner.len(), query, expanded);
                let rest = tree_rows(tree, top.0, top.1 + 1, d, sub.1, query, expanded);
                let below = stack_rows(tree, levels.drop_last(), rest.1, query, expanded);
                assert(walk(levels, rows, remaining, query, expanded) == (after, shown, Some(e.path@)));
                assert(tree_rows(tree, top.0, top.1, d, remaining, query, expanded) == (own + sub.0
                    + rest.0, rest.1));
                assert(stack_rows(tree, levels, remaining, query, expanded) == (own + sub.0 + rest.0
                    + below.0, below.1));
                assert(pushed[d + 1] == (inner, 0int));
                assert(after[d] == (top.0, top.1 + 1));
                assert(stack_rows(tree, after, sub.1, query, expanded) == (rest.0 + below.0, below.1));
                assert(stack_rows(tree, pushed, remaining - inner.len(), query, expanded) == (sub.0
                    + (rest.0 + below.0), below.1));
                assert(rows + (own + sub.0 + rest.0 + below.0) =~= shown + (sub.0 + (rest.0
                    + below.0)));
            } else {
                lemma_walk_reads_tree(tree, after, shown, remaining, query, expanded);
                let rest = tree_rows(tree, top.0, top.1 + 1, d, remaining, query, expanded);
                let below = stack_rows(tree, levels.drop_last(), rest.1, query, expanded);
                assert(walk(levels, rows, remaining, query, expanded) == walk(after, shown, remaining, query, expanded));
                assert(tree_rows(tree, top.0, top.1, d, remaining, query, expanded) == (own + rest.0,
                    rest.1));
                assert(after[d] == (top.0, top.1 + 1));
                assert(stack_rows(tree, after, remaining, query, expanded) == (rest.0 + below.0, below.1));
                assert(rows + (own + rest.0 + below.0) =~= shown + (rest.0 + below.0));
            }
        }
    }
}

/// A whole walk, run by the driver: each time it stops at a folder, that
/// folder's entries are taken from `tree` (spending their number) and it goes
/// on; the rows it ends with, or none where it has not ended within `fuel`
/// reads.
pub open spec fn run(
    tree: Map<Seq<char>, Seq<Listed>>,
    levels: Seq<(Seq<Listed>, int)>,
    rows: Seq<(Seq<char>, bool, int)>,
    remaining: int,
    query: Seq<char>,
    expanded: Seq<String>,
    fuel: nat,
) -> Option<Seq<(Seq<char>, bool, int)>>
    decreases fuel,
{
    let w = walk(levels, rows, remaining, query, expanded);
    match w.2 {
        None => Some(w.1),
        Some(p) => if fuel == 0 {
            None
        } else {
            run(
                tree,
                w.0.push((tree[p], 0)),
                w.1,
                remaining - tree[p].len(),
                query,
                expanded,
                (fuel - 1) as nat,
            )
        },
    }
}

/// A walk begun on the root's entries, read through `tree`, ends with the
/// tree's rows in pre-order: those [`tree_rows`] gives for the root's
/// entries, with the budget left once the root was read.
pub proof fn lemma_run_reads_tree(
    tree: Map<Seq<char>, Seq<Listed>>,
    root: Seq<char>,
    query: Seq<char>,
    expanded: Seq<String>,
    fuel: nat,
)
    ensures
        ({
            let entries = tree[root];
            let r = run(
                tree,
                seq![(entries, 0int)],
                Seq::empty(),
                BUDGET - entries.len(),
                query,
                expanded,
                fuel,
            );
            r matches Some(rows) ==> rows == tree_rows(
                tree,
                entries,
                0,
                0,
                BUDGET - entries.len(),
                query,
                expanded,
            ).0
        }),
{
    let entries = tree[root];
    let levels = seq![(entries, 0int)];
    let rem = BUDGET - entries.len();
    lemma_run_stack(tree, levels, Seq::empty(), rem, query, expanded, fuel);
    let top = tree_rows(tree, entries, 0, 0, rem, query, expanded);
    assert(levels.drop_last() =~= Seq::<(Seq<Listed>, int)>::empty());
    assert(levels[0] == (entries, 0int));
    assert(stack_rows(tree, levels.drop_last(), top.1, query, expanded).0 == Seq::<
        (Seq<char>, bool, int),
    >::empty());
    assert(stack_rows(tree, levels, rem, query, expanded).0 == top.0 + Seq::empty());
    assert(Seq::<(Seq<char>, bool, int)>::empty() + (top.0 + Seq::empty()) =~= top.0);
}

proof fn lemma_run_stack(
    tree: Map<Seq<char>, Seq<Listed>>,
    levels: Seq<(Seq<Listed>, int)>,
    rows: Seq<(Seq<char>, bool, int)>,
    remaining: int,
    query: Seq<char>,
    expanded: Seq<String>,
    fuel: nat,
)
    requires
        levels.len() <= MAX_DEPTH + 1,
    ensures
        run(tree, levels, rows, remaining, query, expanded, fuel) matches Some(r) ==> r == rows
            + stack_rows(tree, levels, remaining, query, expanded).0,
    decreases fuel,
{
    lemma_walk_reads_tree(tree, levels, rows, remaining, query, expanded);
    let w = walk(levels, rows, remaining, query, expanded);
    match w.2 {
        None => {},
        Some(p) => {
            if fuel > 0 {
                lemma_run_stack(
                    tree,
                    w.0.push((tree[p], 0)),
                    w.1,
                    remaining - tree[p].len(),
                    query,
                    expanded,
                    (fuel - 1) as nat,
                );
            }
        },
    }
}

/// What the walk asks for next.
pub enum Step {
    /// The entries of this folder, as many as the budget leaves.
    Read(String),
    /// Nothing: the rows are complete; `truncated` where the budget ran out.
    Done { truncated: bool },
}

/// A walk of the tree: the filter in lower case, the open folders, the rows
/// so far, what is left of the budget, and the folders being walked.
pub struct Scan {
    pub query: String,
    pub expanded: Vec<String>,
    pub rows: Vec<Entry>,
    pub remaining: usize,
    pub levels: Vec<Level>,
}

impl Scan {
    /// A walk for the filter `query` through a tree with `expanded` open.
    /// The root is read first.
    pub fn new(query: &str, expanded: Vec<String>) -> (s: Self)
        ensures
            s.query@ == lowercase(query@),
            s.expanded == expanded,
            s.rows@ == Seq::<Entry>::empty(),
            s.remaining == BUDGET,
            s.levels@ == Seq::<Level>::empty(),
    {
        Scan {
            query: to_lowercase(query),
            expanded,
            rows: Vec::new(),
            remaining: BUDGET,
            levels: Vec::new(),
        }
    }

    /// Take in the entries just read from the folder asked for; they are
    /// walked next, in listing order.
    pub fn enter(&mut self, listing: Vec<Listed>)
        requires
            listing.len() <= old(self).remaining,
        ensures
            final(self).remaining == old(self).remaining - listing.len(),
            final(self).query == old(self).query,
            final(self).expanded == old(self).expanded,
            final(self).rows == old(self).rows,
            final(self).levels.len() == old(self).levels.len() + 1,
            final(self).levels@.drop_last() == old(self).levels@,
            final(self).levels@.last().next == 0,
            final(self).levels@.last().entries@.to_multiset() == listing@.to_multiset(),
            forall|i: int, j: int|
                0 <= i < j < final(self).levels@.last().entries.len() ==> comes_first(
                    final(self).levels@.last().entries@[i],
                    final(self).levels@.last().entries@[j],
                ),
    {
        let n = listing.len();
        let entries = sort_listing(listing);
        self.levels.push(Level { entries, next: 0 });
        self.remaining = self.remaining - n;
        assert(self.levels@.drop_last() =~= old(self).levels@);
    }

    /// Walk on to the next folder to read, or to the end; see [`walk`].
    pub fn advance(&mut self) -> (step: Step)
        ensures
            final(self).query == old(self).query,
            final(self).expanded == old(self).expanded,
            final(self).remaining == old(self).remaining,
            ({
                let w = walk(
                    levels_view(old(self).levels@),
                    rows_view(old(self).rows@),
                    old(self).remaining as int,
                    old(self).query@,
                    old(self).expanded@,
                );
                &&& levels_view(final(self).levels@) == w.0
                &&& rows_view(final(self).rows@) == w.1
                &&& match w.2 {
                    Some(p) => step matches Step::Read(path) && path@ == p,
                    None => step == (Step::Done { truncated: old(self).remaining == 0 }),
                }
            }),
    {
        let ghost goal = walk(
            levels_view(self.levels@),
            rows_view(self.rows@),
            self.remaining as int,
            self.query@,
            self.expanded@,
        );
        let query = chars_of(self.query.as_str());
        loop
            invariant
                query@ == self.query@,
                self.query == old(self).query,
                self.expanded == old(self).expanded,
                self.remaining == old(self).remaining,
                goal == walk(
                    levels_view(old(self).levels@),
                    rows_view(old(self).rows@),
                    old(self).remaining as int,
                    old(self).query@,
                    old(self).expanded@,
                ),
                walk(
                    levels_view(self.levels@),
                    rows_view(self.rows@),
                    self.remaining as int,
                    self.query@,
                    self.expanded@,
                ) == goal,
            decreases pending(levels_view(self.levels@)),
        {
            let ghost lv = levels_view(self.levels@);
            let ghost rv = rows_view(self.rows@);
            if self.levels.len() == 0 {
                assert(lv.len() == 0);
                return Step::Done { truncated: self.remaining == 0 };
            }
            let ghost before = self.levels@;
            let mut top = match self.levels.pop() {
                Some(t) => t,
                None => {
                    return Step::Done { truncated: self.remaining == 0 };
                },
            };
            let depth = self.levels.len();
            assert(levels_view(self.levels@) =~= lv.drop_last());
            assert(lv[depth as int] == level_view(top));
            if top.next >= top.entries.len() {
                assert(levels_view(self.levels@) =~= lv.drop_last());
            } else {
                let e = &top.entries[top.next];
                let kept = if query.len() == 0 {
                    true
                } else {
                    let lower = to_lowercase(e.name.as_str());
                    contains(&chars_of(lower.as_str()), &query)
                };
                if kept {
                    let row = Entry {
                        path: e.path.as_str().to_owned(),
                        directory: e.directory,
                        depth: if query.len() == 0 {
                            depth
                        } else {
                            0
                        },
                    };
                    let ghost rows_before = self.rows@;
                    self.rows.push(row);
                    assert(rows_view(self.rows@) =~= rows_view(rows_before).push(
                        row_of(*e, depth as int, self.query@),
                    ));
                }
                let into = e.directory && self.remaining > 0 && depth < MAX_DEPTH && (query.len()
                    > 0 || holds(&self.expanded, e.path.as_str()));
                let path = if into {
                    Some(e.path.as_str().to_owned())
                } else {
                    None
                };
                top.next = top.next + 1;
                self.levels.push(top);
                assert(levels_view(self.levels@) =~= lv.update(
                    depth as int,
                    (lv[depth as int].0, lv[depth as int].1 + 1),
                ));
                assert(lv.update(depth as int, (lv[depth as int].0, lv[depth as int].1 + 1)).drop_last()
                    =~= lv.drop_last());
                match path {
                    Some(p) => {
                        assert(walk(lv, rv, self.remaining as int, self.query@, self.expanded@) == (
                            levels_view(self.levels@),
                            rows_view(self.rows@),
                            Some(p@),
                        ));
                        return Step::Read(p);
                    },
                    None => {},
                }
            }
        }
    }
}

/// The open folders after a folder's row is clicked: a closed one opens, an
/// open one closes.
pub fn toggle_folder(expanded: &mut Vec<String>, path: &str)
    ensures
        turned_over(old(expanded)@, final(expanded)@, path@),
{
    toggle(expanded, path);
}

/// The folders above `p` that sit below `root`, nearest first: each path
/// above it in turn, while that is not the root itself and lies under it.
pub open spec fn folders_above(p: Seq<char>, root: Seq<char>) -> Seq<Seq<char>>
    decreases p.len(),
{
    match parent_of(p) {
        Some(d) => if d.len() < p.len() && !same_path_of(d, root) && lies_under(d, root) {
            seq![d] + folders_above(d, root)
        } else {
            Seq::empty()
        },
        None => Seq::empty(),
    }
}

/// Whether two selections are the same: both none, or paths with the same
/// components.
pub open spec fn same_selection(a: Option<String>, b: Option<String>) -> bool {
    match (a, b) {
        (Some(x), Some(y)) => same_path_of(x@, y@),
        (None, None) => true,
        _ => false,
    }
}

/// An optional path as text.
pub open spec fn chosen(p: Option<String>) -> Option<Seq<char>> {
    match p {
        Some(s) => Some(s@),
        None => None,
    }
}

/// Open every folder above `path` that sits below `root`.
fn open_above(expanded: &mut Vec<String>, root: &str, path: &Option<String>)
    ensures
        forall|other: Seq<char>|
            #[trigger] holds_key(final(expanded)@, other) == (holds_key(old(expanded)@, other) || (
            path matches Some(p) && folders_above(p@, root@).contains(other))),
{
    match path {
        None => {},
        Some(p) => {
            let ghost goal = folders_above(p@, root@);
            let ghost mut cur = p@;
            let ghost mut done: Seq<Seq<char>> = Seq::empty();
            let mut at = parent(p.as_str());
            while at.is_some()
                invariant
                    goal == folders_above(p@, root@),
                    done + folders_above(cur, root@) == goal,
                    match at {
                        Some(d) => parent_of(cur) == Some(d@) && d@.len() < cur.len(),
                        None => parent_of(cur) is None,
                    },
                    forall|other: Seq<char>|
                        #[trigger] holds_key(expanded@, other) == (holds_key(old(expanded)@, other)
                            || done.contains(other)),
                ensures
                    done == goal,
                    forall|other: Seq<char>|
                        #[trigger] holds_key(expanded@, other) == (holds_key(old(expanded)@, other)
                            || done.contains(other)),
                decreases cur.len(),
            {
                let dir = match at {
                    Some(d) => d,
                    None => {
                        assert(done =~= goal);
                        break;
                    },
                };
                if same_path(dir.as_str(), root) || !starts_with(dir.as_str(), root) {
                    assert(folders_above(cur, root@) =~= Seq::<Seq<char>>::empty());
                    assert(done =~= goal);
                    break;
                } else {
                    let ghost before = expanded@;
                    put(expanded, dir.as_str());
                    proof {
                        assert(folders_above(cur, root@) == seq![dir@] + folders_above(dir@, root@));
                        assert forall|other: Seq<char>| #[trigger] holds_key(expanded@, other) == (
                        holds_key(old(expanded)@, other) || done.push(dir@).contains(other)) by {
                            if other == dir@ {
                                assert(done.push(dir@)[done.len() as int] == dir@);
                            } else {
                                if done.push(dir@).contains(other) {
                                    let k = choose|k: int|
                                        0 <= k < done.push(dir@).len() && done.push(dir@)[k] == other;
                                    assert(k < done.len());
                                    assert(done[k] == other);
                                }
                                if done.contains(other) {
                                    let k = choose|k: int| 0 <= k < done.len() && done[k] == other;
                                    assert(done.push(dir@)[k] == other);
                                }
                            }
                        }
                        assert(done.push(dir@) + folders_above(dir@, root@) =~= done + (seq![dir@]
                            + folders_above(dir@, root@)));
                        done = done.push(dir@);
                        cur = dir@;
                    }
                    at = parent(dir.as_str());
                }
            }
        },
    }
}

/// A row of the tree was clicked.
pub enum Clicked {
    /// A folder: it opened or closed, the filter is cleared, and the tree is
    /// read again.
    Folder,
    /// A file, to be opened.
    Open(Open),
}

/// A file chosen in the tree, to be opened.
pub struct Open(pub String);

/// A copy of `keys`, text for text.
fn copy_keys(keys: &Vec<String>) -> (out: Vec<String>)
    ensures
        out.len() == keys.len(),
        forall|i: int| 0 <= i < keys.len() ==> #[trigger] out@[i]@ == keys@[i]@,
{
    let mut out: Vec<String> = Vec::new();
    let mut i: usize = 0;
    while i < keys.len()
        invariant
            i <= keys.len(),
            out.len() == i,
            forall|j: int| 0 <= j < i ==> #[trigger] out@[j]@ == keys@[j]@,
        decreases keys.len() - i,
    {
        out.push(keys[i].as_str().to_owned());
        i += 1;
    }
    out
}

/// The file tree of a project: its root, the folders open in it, the rows
/// last read, the selected path, the last error, whether a read is under way,
/// and whether the last one ran out of budget.
pub struct Files {
    pub root: String,
    pub expanded: Vec<String>,
    pub entries: Vec<Entry>,
    pub selected: Option<String>,
    pub error: Option<String>,
    pub loading: bool,
    pub truncated: bool,
}

/// The line under the rows where a read ran out of budget.
pub const TRUNCATED_NOTICE: &'static str = "Showing the first 20,000 entries.";

impl Files {
    /// The tree of `root`, all folders closed, its first read under way.
    pub fn new(root: String) -> (f: Self)
        ensures
            f.root == root,
            f.expanded@ == Seq::<String>::empty(),
            f.entries@ == Seq::<Entry>::empty(),
            f.selected is None,
            f.error is None,
            f.loading,
            !f.truncated,
    {
        Files {
            root,
            expanded: Vec::new(),
            entries: Vec::new(),
            selected: None,
            error: None,
            loading: true,
            truncated: false,
        }
    }

    /// Start a read of the tree for the filter `query`: the walk to run.
    pub fn refresh(&mut self, query: &str) -> (scan: Scan)
        ensures
            final(self).loading,
            final(self).root == old(self).root,
            final(self).expanded == old(self).expanded,
            final(self).entries == old(self).entries,
            final(self).selected == old(self).selected,
            final(self).error == old(self).error,
            final(self).truncated == old(self).truncated,
            scan.query@ == lowercase(query@),
            scan.rows@.len() == 0,
            scan.remaining == BUDGET,
            scan.levels@.len() == 0,
            forall|k: Seq<char>| #[trigger] holds_key(scan.expanded@, k) == holds_key(old(self).expanded@, k),
    {
        self.loading = true;
        let expanded = copy_keys(&self.expanded);
        let scan = Scan::new(query, expanded);
        assert forall|k: Seq<char>| #[trigger] holds_key(scan.expanded@, k) == holds_key(
            self.expanded@,
            k,
        ) by {
            if holds_key(scan.expanded@, k) {
                let i = choose|i: int| 0 <= i < scan.expanded@.len() && #[trigger] scan.expanded@[i]@ == k;
                assert(self.expanded@[i]@ == k);
            }
            if holds_key(self.expanded@, k) {
                let i = choose|i: int| 0 <= i < self.expanded@.len() && #[trigger] self.expanded@[i]@ == k;
                assert(scan.expanded@[i]@ == k);
            }
        }
        scan
    }

    /// Take in how a read went: its rows and whether it ran out of budget, or
    /// its error, which leaves the rows as they were.
    pub fn scanned(&mut self, result: Result<(Vec<Entry>, bool), String>)
        ensures
            !final(self).loading,
            final(self).root == old(self).root,
            final(self).expanded == old(self).expanded,
            final(self).selected == old(self).selected,
            match result {
                Ok((entries, truncated)) => final(self).entries == entries && final(self).truncated
                    == truncated && final(self).error is None,
                Err(e) => final(self).error == Some(e) && final(self).entries == old(self).entries
                    && final(self).truncated == old(self).truncated,
            },
    {
        self.loading = false;
        match result {
            Ok((entries, truncated)) => {
                self.entries = entries;
                self.truncated = truncated;
                self.error = None;
            },
            Err(e) => {
                self.error = Some(e);
            },
        }
    }

    /// Bring `path` into view, the tree filtered by `query`: where it is not
    /// already the selected row (paths compared by their components), every
    /// folder above it below the root opens, it becomes the selection, and
    /// the tree is read again: the walk to run, as [`Files::refresh`] gives
    /// it. Where it is the selection already, nothing changes and nothing is
    /// read.
    pub fn reveal_path(&mut self, path: Option<String>, query: &str) -> (scan: Option<Scan>)
        ensures
            (scan is Some) == !same_selection(old(self).selected, path),
            final(self).root == old(self).root,
            scan is None ==> *final(self) == *old(self),
            scan is Some ==> final(self).selected == path && final(self).loading
                && final(self).entries == old(self).entries && final(self).error == old(self).error
                && final(self).truncated == old(self).truncated,
            scan is Some ==> forall|other: Seq<char>|
                #[trigger] holds_key(final(self).expanded@, other) == (holds_key(
                    old(self).expanded@,
                    other,
                ) || (path matches Some(p) && folders_above(p@, old(self).root@).contains(other))),
            scan matches Some(s) ==> {
                &&& s.query@ == lowercase(query@)
                &&& s.rows@.len() == 0
                &&& s.remaining == BUDGET
                &&& s.levels@.len() == 0
                &&& forall|k: Seq<char>| #[trigger] holds_key(s.expanded@, k) == holds_key(
                    final(self).expanded@,
                    k,
                )
            },
    {
        let same = match (&self.selected, &path) {
            (Some(a), Some(b)) => same_path(a.as_str(), b.as_str()),
            (None, None) => true,
            _ => false,
        };
        if same {
            return None;
        }
        open_above(&mut self.expanded, self.root.as_str(), &path);
        self.selected = path;
        Some(self.refresh(query))
    }

    /// Answer a click on the row at `index`: a folder opens or closes, a file
    /// is to be opened.
    pub fn click(&mut self, index: usize) -> (c: Clicked)
        requires
            index < old(self).entries.len(),
        ensures
            final(self).entries == old(self).entries,
            final(self).root == old(self).root,
            final(self).selected == old(self).selected,
            old(self).entries@[index as int].directory ==> c is Folder && (holds_key(
                old(self).expanded@,
                old(self).entries@[index as int].path@,
            ) != holds_key(final(self).expanded@, old(self).entries@[index as int].path@))
                && forall|other: Seq<char>|
                other != old(self).entries@[index as int].path@ ==> (#[trigger] holds_key(
                    final(self).expanded@,
                    other,
                ) == holds_key(old(self).expanded@, other)),
            !old(self).entries@[index as int].directory ==> final(self).expanded == old(self).expanded && (c matches Clicked::Open(Open(p)) && p@
                == old(self).entries@[index as int].path@),
    {
        let directory = self.entries[index].directory;
        let path = self.entries[index].path.as_str().to_owned();
        if directory {
            toggle(&mut self.expanded, path.as_str());
            Clicked::Folder
        } else {
            Clicked::Open(Open(path))
        }
    }

    /// What stands in place of the rows while there are none.
    pub fn empty_text(&self) -> (t: Option<&'static str>)
        ensures
            self.entries.len() > 0 ==> t is None,
            self.entries.len() == 0 && self.loading ==> t == Some("Loading files…"),
            self.entries.len() == 0 && !self.loading ==> t == Some("No files found"),
    {
        if self.entries.len() > 0 {
            None
        } else if self.loading {
            Some("Loading files…")
        } else {
            Some("No files found")
        }
    }
}

/// The filter finds the query anywhere in a name: wherever the query stands
/// in the entry's lower-cased name, at its start or further on, the entry
/// is shown; and under a query, an entry is shown only where the query
/// stands somewhere in that name.
pub proof fn lemma_filter_finds_anywhere(name: Seq<char>, query: Seq<char>, at: int)
    ensures
        0 <= at && at + query.len() <= lowercase(name).len() && lowercase(name).subrange(
            at,
            at + query.len(),
        ) == query ==> shows(name, query),
        shows(name, query) && query.len() > 0 ==> exists|k: int|
            0 <= k && k + query.len() <= lowercase(name).len() && #[trigger] lowercase(
                name,
            ).subrange(k, k + query.len()) == query,
{
    let hay = lowercase(name);
    if 0 <= at && at + query.len() <= hay.len() && hay.subrange(at, at + query.len()) == query {
        assert(contains_text(hay, query));
    }
}

} // verus!
