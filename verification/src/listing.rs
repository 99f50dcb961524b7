//! The rows of the details table: the entries whose names match the search
//! text, folders first, sorted by the chosen column and direction, ties in
//! the order the folder listed them.
use vstd::prelude::*;
use crate::entry::{entry_views, row_of, EntryView, FileEntry};
use crate::native::{row_views, TableRow, TableRowView};
use crate::text::{
    bool_order, chars_of, compare_bool, compare_text, compare_u64, contains_text, int_order,
    lemma_text_contains_transitive, lemma_text_order_flip, lemma_text_order_same, lemma_text_order_transitive, lowercase, text_contains, text_order,
    to_lowercase, Comparison,
};

verus! {

/// An entry together with its name in lower case, the key that search and
/// sorting by name use.
pub struct KeyedEntry {
    pub entry: EntryView,
    pub lower_name: Seq<char>,
}

/// Pairs each entry with the lower-case name given for it.
pub open spec fn keyed(entries: Seq<EntryView>, lower_names: Seq<Seq<char>>) -> Seq<KeyedEntry> {
    Seq::new(entries.len(), |i: int| KeyedEntry { entry: entries[i], lower_name: lower_names[i] })
}

/// Pairs each entry with its name in lower case.
pub open spec fn keyed_lowercase(entries: Seq<EntryView>) -> Seq<KeyedEntry> {
    keyed(entries, entries.map_values(|e: EntryView| lowercase(e.name)))
}

/// The column the table is sorted by.
#[derive(Clone, Copy, Debug, PartialEq, Eq, Structural)]
pub enum SortColumn {
    Name,
    Modified,
    Kind,
    Size,
}

/// Order of two entries by one column: names compare in lower case,
/// times and sizes as numbers, types as text.
pub open spec fn column_order(column: SortColumn, a: KeyedEntry, b: KeyedEntry) -> Comparison {
    match column {
        SortColumn::Name => text_order(a.lower_name, b.lower_name),
        SortColumn::Modified => int_order(a.entry.modified_ticks as int, b.entry.modified_ticks as int),
        SortColumn::Kind => text_order(a.entry.kind, b.entry.kind),
        SortColumn::Size => int_order(a.entry.size as int, b.entry.size as int),
    }
}

/// Order of two entries in the table: folders before files, then by the
/// column, reversed when descending.
pub open spec fn entry_order(column: SortColumn, ascending: bool, a: KeyedEntry, b: KeyedEntry) -> Comparison {
    let folders = bool_order(b.entry.is_dir, a.entry.is_dir);
    if folders != Comparison::Equal {
        folders
    } else if ascending {
        column_order(column, a, b)
    } else {
        column_order(column, a, b).flip()
    }
}

/// Whether an entry whose lower-case name is `lower_name` is shown for
/// the lower-case search text `lower_query`: always for an empty search,
/// else when the name contains the search text.
pub open spec fn name_matches(lower_name: Seq<char>, lower_query: Seq<char>) -> bool {
    lower_query.len() == 0 || text_contains(lower_name, lower_query)
}

/// How many of the first `n` entries match the lower-case search text
/// `query`.
pub open spec fn visible_count(entries: Seq<KeyedEntry>, query: Seq<char>, n: int) -> nat
    decreases n,
{
    if n <= 0 {
        0
    } else {
        visible_count(entries, query, n - 1) + if name_matches(entries[n - 1].lower_name, query) {
            1nat
        } else {
            0nat
        }
    }
}

/// Entry `i` comes before entry `j`: it orders first, or they tie and `i`
/// was listed first.
pub open spec fn precedes(
    entries: Seq<KeyedEntry>,
    column: SortColumn,
    ascending: bool,
    i: usize,
    j: usize,
) -> bool {
    let c = entry_order(column, ascending, entries[i as int], entries[j as int]);
    c == Comparison::Less || (c == Comparison::Equal && i < j)
}

/// `order` lists the indices of exactly the matching entries, each one
/// before all that it precedes.
pub open spec fn is_listing(
    entries: Seq<KeyedEntry>,
    query: Seq<char>,
    column: SortColumn,
    ascending: bool,
    order: Seq<usize>,
) -> bool {
    &&& order.len() == visible_count(entries, query, entries.len() as int)
    &&& forall|k: int|
        0 <= k < order.len() ==> #[trigger] order[k] < entries.len() && name_matches(
            entries[order[k] as int].lower_name,
            query,
        )
    &&& forall|a: int, b: int|
        0 <= a < b < order.len() ==> precedes(entries, column, ascending, #[trigger] order[a], #[trigger] order[b])
}

/// With an empty search every entry matches.
pub proof fn lemma_empty_search_shows_all(entries: Seq<KeyedEntry>, n: int)
    requires
        0 <= n <= entries.len(),
    ensures
        visible_count(entries, Seq::<char>::empty(), n) == n,
    decreases n,
{
    if n > 0 {
        lemma_empty_search_shows_all(entries, n - 1);
    }
}

/// An entry that matches a search also matches every search text inside
/// it.
pub proof fn lemma_match_narrower(lower_name: Seq<char>, wide: Seq<char>, narrow: Seq<char>)
    requires
        text_contains(narrow, wide),
        name_matches(lower_name, narrow),
    ensures
        name_matches(lower_name, wide),
{
    if wide.len() > 0 {
        assert(narrow.len() > 0);
        lemma_text_contains_transitive(lower_name, narrow, wide);
    }
}

/// A search text that contains another shows no more entries.
pub proof fn lemma_visible_count_narrower(entries: Seq<KeyedEntry>, wide: Seq<char>, narrow: Seq<char>, n: int)
    requires
        0 <= n <= entries.len(),
        text_contains(narrow, wide),
    ensures
        visible_count(entries, narrow, n) <= visible_count(entries, wide, n),
    decreases n,
{
    if n > 0 {
        lemma_visible_count_narrower(entries, wide, narrow, n - 1);
        if name_matches(entries[n - 1].lower_name, narrow) {
            lemma_match_narrower(entries[n - 1].lower_name, wide, narrow);
        }
    }
}

/// The rows of distinct indices that all occur in `b` are, counted with
/// repetition, among the rows of `b`.
proof fn lemma_rows_sub_multiset(entries: Seq<KeyedEntry>, a: Seq<usize>, b: Seq<usize>)
    requires
        a.no_duplicates(),
        forall|k: int| 0 <= k < a.len() ==> b.contains(#[trigger] a[k]),
    ensures
        rows_for(entries, a).to_multiset().subset_of(rows_for(entries, b).to_multiset()),
    decreases a.len(),
{
    broadcast use vstd::seq_lib::group_to_multiset_ensures;
    broadcast use vstd::multiset::group_multiset_axioms;
    let ra = rows_for(entries, a);
    let rb = rows_for(entries, b);
    if a.len() == 0 {
        assert forall|v: TableRowView| ra.to_multiset().count(v) <= rb.to_multiset().count(v) by {
            assert(!ra.contains(v));
        }
    } else {
        let x = a.last();
        assert(b.contains(a[a.len() - 1]));
        let j = choose|j: int| 0 <= j < b.len() && b[j] == x;
        let a2 = a.drop_last();
        let b2 = b.remove(j);
        assert forall|k: int| 0 <= k < a2.len() implies b2.contains(#[trigger] a2[k]) by {
            assert(a2[k] == a[k]);
            assert(b.contains(a[k]));
            let i = choose|i: int| 0 <= i < b.len() && b[i] == a[k];
            assert(a[k] != a[a.len() - 1]);
            if i < j {
                assert(b2[i] == b[i]);
            } else {
                assert(i > j);
                assert(b2[i - 1] == b[i]);
            }
        }
        assert(a2.no_duplicates());
        lemma_rows_sub_multiset(entries, a2, b2);
        let r = row_of(entries[x as int].entry);
        assert(ra =~= rows_for(entries, a2).push(r));
        assert(rows_for(entries, b2) =~= rb.remove(j));
        assert(rb[j] == r);
        assert(rb.contains(r));
        assert forall|v: TableRowView| ra.to_multiset().count(v) <= rb.to_multiset().count(v) by {
            assert(ra.to_multiset() =~= rows_for(entries, a2).to_multiset().insert(r));
            assert(rows_for(entries, b2).to_multiset() =~= rb.to_multiset().remove(r));
        }
    }
}

/// A longer search never adds rows: when the (lower-case) search text
/// `narrow` contains `wide`, every entry listed for `narrow` is listed for
/// `wide`, there are no more of them, and its rows, counted with
/// repetition, are among the rows for `wide`.
pub proof fn lemma_longer_search_narrows(
    entries: Seq<KeyedEntry>,
    wide: Seq<char>,
    narrow: Seq<char>,
    column: SortColumn,
    ascending: bool,
    wide_order: Seq<usize>,
    narrow_order: Seq<usize>,
)
    requires
        is_listing(entries, wide, column, ascending, wide_order),
        is_listing(entries, narrow, column, ascending, narrow_order),
        text_contains(narrow, wide),
    ensures
        forall|k: int| 0 <= k < narrow_order.len() ==> wide_order.contains(#[trigger] narrow_order[k]),
        narrow_order.len() <= wide_order.len(),
        rows_for(entries, narrow_order).to_multiset().subset_of(rows_for(entries, wide_order).to_multiset()),
{
    lemma_listing_is_all_matches(entries, wide, column, ascending, wide_order);
    assert forall|k: int| 0 <= k < narrow_order.len() implies wide_order.contains(#[trigger] narrow_order[k]) by {
        let i = narrow_order[k];
        assert(name_matches(entries[i as int].lower_name, narrow));
        lemma_match_narrower(entries[i as int].lower_name, wide, narrow);
    }
    lemma_visible_count_narrower(entries, wide, narrow, entries.len() as int);
    lemma_listing_distinct(entries, column, ascending, narrow_order);
    lemma_rows_sub_multiset(entries, narrow_order, wide_order);
}

/// The rows an order of entries shows.
pub open spec fn rows_for(entries: Seq<KeyedEntry>, order: Seq<usize>) -> Seq<TableRowView> {
    order.map_values(|i: usize| row_of(entries[i as int].entry))
}

/// Swapping two entries flips their order.
pub proof fn lemma_entry_order_flip(column: SortColumn, ascending: bool, a: KeyedEntry, b: KeyedEntry)
    ensures
        entry_order(column, ascending, b, a) == entry_order(column, ascending, a, b).flip(),
{
    lemma_text_order_flip(a.lower_name, b.lower_name);
    lemma_text_order_flip(a.entry.kind, b.entry.kind);
}

/// The order of entries is transitive.
pub proof fn lemma_entry_order_transitive(
    column: SortColumn,
    ascending: bool,
    a: KeyedEntry,
    b: KeyedEntry,
    c: KeyedEntry,
)
    ensures
        entry_order(column, ascending, a, b) == Comparison::Less && entry_order(column, ascending, b, c)
            != Comparison::Greater ==> entry_order(column, ascending, a, c) == Comparison::Less,
        entry_order(column, ascending, a, b) != Comparison::Greater && entry_order(column, ascending, b, c)
            == Comparison::Less ==> entry_order(column, ascending, a, c) == Comparison::Less,
        entry_order(column, ascending, a, b) == Comparison::Equal && entry_order(column, ascending, b, c)
            == Comparison::Equal ==> entry_order(column, ascending, a, c) == Comparison::Equal,
{
    lemma_text_order_transitive(a.lower_name, b.lower_name, c.lower_name);
    lemma_text_order_transitive(c.lower_name, b.lower_name, a.lower_name);
    lemma_text_order_transitive(a.entry.kind, b.entry.kind, c.entry.kind);
    lemma_text_order_transitive(c.entry.kind, b.entry.kind, a.entry.kind);
    lemma_text_order_flip(a.lower_name, b.lower_name);
    lemma_text_order_flip(b.lower_name, c.lower_name);
    lemma_text_order_flip(a.lower_name, c.lower_name);
    lemma_text_order_flip(a.entry.kind, b.entry.kind);
    lemma_text_order_flip(b.entry.kind, c.entry.kind);
    lemma_text_order_flip(a.entry.kind, c.entry.kind);
}

/// Every listing shows all folders before all files.
pub proof fn lemma_folders_first(
    entries: Seq<KeyedEntry>,
    query: Seq<char>,
    column: SortColumn,
    ascending: bool,
    order: Seq<usize>,
    a: int,
    b: int,
)
    requires
        is_listing(entries, query, column, ascending, order),
        0 <= a < b < order.len(),
        !entries[order[a] as int].entry.is_dir,
    ensures
        !entries[order[b] as int].entry.is_dir,
{
    assert(precedes(entries, column, ascending, order[a], order[b]));
}

/// Among folders, and among files, a listing follows the column: an entry
/// that orders strictly before another by the column is listed first when
/// ascending and last when descending.
pub proof fn lemma_listing_follows_column(
    entries: Seq<KeyedEntry>,
    query: Seq<char>,
    column: SortColumn,
    ascending: bool,
    order: Seq<usize>,
    a: int,
    b: int,
)
    requires
        is_listing(entries, query, column, ascending, order),
        0 <= a < order.len(),
        0 <= b < order.len(),
        entries[order[a] as int].entry.is_dir == entries[order[b] as int].entry.is_dir,
        column_order(column, entries[order[a] as int], entries[order[b] as int])
            == Comparison::Less,
    ensures
        ascending ==> a < b,
        !ascending ==> b < a,
{
    let x = entries[order[a] as int];
    let y = entries[order[b] as int];
    lemma_text_order_flip(x.lower_name, y.lower_name);
    lemma_text_order_flip(x.entry.kind, y.entry.kind);
    if a < b {
        assert(precedes(entries, column, ascending, order[a], order[b]));
    } else if b < a {
        assert(precedes(entries, column, ascending, order[b], order[a]));
    }
}

/// Among folders, and among files, the rows follow the values of the
/// sort column: sizes in bytes and modification times as numbers, names
/// (in lower case) and types as text, rising when ascending and falling
/// when descending; entries with equal values keep the folder's order.
pub proof fn lemma_sorted_by_column_values(
    entries: Seq<KeyedEntry>,
    query: Seq<char>,
    column: SortColumn,
    ascending: bool,
    order: Seq<usize>,
    a: int,
    b: int,
)
    requires
        is_listing(entries, query, column, ascending, order),
        0 <= a < b < order.len(),
        entries[order[a] as int].entry.is_dir == entries[order[b] as int].entry.is_dir,
    ensures
        ({
            let x = entries[order[a] as int];
            let y = entries[order[b] as int];
            &&& column == SortColumn::Size ==> if ascending {
                x.entry.size <= y.entry.size
            } else {
                x.entry.size >= y.entry.size
            }
            &&& column == SortColumn::Modified ==> if ascending {
                x.entry.modified_ticks <= y.entry.modified_ticks
            } else {
                x.entry.modified_ticks >= y.entry.modified_ticks
            }
            &&& column == SortColumn::Name ==> if ascending {
                text_order(x.lower_name, y.lower_name) != Comparison::Greater
            } else {
                text_order(x.lower_name, y.lower_name) != Comparison::Less
            }
            &&& column == SortColumn::Kind ==> if ascending {
                text_order(x.entry.kind, y.entry.kind) != Comparison::Greater
            } else {
                text_order(x.entry.kind, y.entry.kind) != Comparison::Less
            }
            &&& column == SortColumn::Size && x.entry.size == y.entry.size ==> order[a] < order[b]
            &&& column == SortColumn::Modified && x.entry.modified_ticks == y.entry.modified_ticks
                ==> order[a] < order[b]
            &&& column == SortColumn::Name && x.lower_name == y.lower_name ==> order[a] < order[b]
            &&& column == SortColumn::Kind && x.entry.kind == y.entry.kind ==> order[a] < order[b]
        }),
{
    let x = entries[order[a] as int];
    let y = entries[order[b] as int];
    assert(precedes(entries, column, ascending, order[a], order[b]));
    lemma_text_order_flip(x.lower_name, y.lower_name);
    lemma_text_order_flip(x.entry.kind, y.entry.kind);
    lemma_text_order_same(x.lower_name, y.lower_name);
    lemma_text_order_same(x.entry.kind, y.entry.kind);
}

/// Two orders that both list the same entries are the same order: the
/// rows are fully determined by the entries, the search text and the sort.
pub proof fn lemma_listing_unique(
    entries: Seq<KeyedEntry>,
    query: Seq<char>,
    column: SortColumn,
    ascending: bool,
    x: Seq<usize>,
    y: Seq<usize>,
)
    requires
        is_listing(entries, query, column, ascending, x),
        is_listing(entries, query, column, ascending, y),
    ensures
        x == y,
{
    lemma_listing_is_all_matches(entries, query, column, ascending, x);
    lemma_listing_is_all_matches(entries, query, column, ascending, y);
    assert forall|e: usize| x.contains(e) <==> y.contains(e) by {
        if x.contains(e) {
            let k = choose|k: int| 0 <= k < x.len() && x[k] == e;
            assert(name_matches(entries[x[k] as int].lower_name, query));
        }
        if y.contains(e) {
            let k = choose|k: int| 0 <= k < y.len() && y[k] == e;
            assert(name_matches(entries[y[k] as int].lower_name, query));
        }
    }
    lemma_sorted_same_members(entries, column, ascending, x, y);
}

/// Two sorted orders of the same indices are equal.
proof fn lemma_sorted_same_members(
    entries: Seq<KeyedEntry>,
    column: SortColumn,
    ascending: bool,
    x: Seq<usize>,
    y: Seq<usize>,
)
    requires
        x.len() == y.len(),
        forall|k: int| 0 <= k < x.len() ==> #[trigger] x[k] < entries.len(),
        forall|k: int| 0 <= k < y.len() ==> #[trigger] y[k] < entries.len(),
        forall|a: int, b: int|
            0 <= a < b < x.len() ==> precedes(entries, column, ascending, #[trigger] x[a], #[trigger] x[b]),
        forall|a: int, b: int|
            0 <= a < b < y.len() ==> precedes(entries, column, ascending, #[trigger] y[a], #[trigger] y[b]),
        forall|e: usize| x.contains(e) <==> y.contains(e),
    ensures
        x == y,
    decreases x.len(),
{
    if x.len() == 0 {
        assert(x =~= y);
    } else {
        lemma_listing_distinct(entries, column, ascending, x);
        lemma_listing_distinct(entries, column, ascending, y);
        if x[0] != y[0] {
            assert(y.contains(y[0]));
            let j = choose|j: int| 0 <= j < x.len() && x[j] == y[0];
            assert(x.contains(x[0]));
            let i = choose|i: int| 0 <= i < y.len() && y[i] == x[0];
            assert(precedes(entries, column, ascending, x[0], x[j]));
            assert(precedes(entries, column, ascending, y[0], y[i]));
            lemma_entry_order_flip(column, ascending, entries[x[0] as int], entries[y[0] as int]);
            assert(false);
        }
        let xt = x.drop_first();
        let yt = y.drop_first();
        assert forall|e: usize| xt.contains(e) <==> yt.contains(e) by {
            if xt.contains(e) {
                let k = choose|k: int| 0 <= k < xt.len() && xt[k] == e;
                assert(x[k + 1] == e && x[0] != e);
                assert(x.contains(e));
                let l = choose|l: int| 0 <= l < y.len() && y[l] == e;
                assert(l != 0);
                assert(yt[l - 1] == e);
            }
            if yt.contains(e) {
                let k = choose|k: int| 0 <= k < yt.len() && yt[k] == e;
                assert(y[k + 1] == e && y[0] != e);
                assert(y.contains(e));
                let l = choose|l: int| 0 <= l < x.len() && x[l] == e;
                assert(l != 0);
                assert(xt[l - 1] == e);
            }
        }
        assert forall|a: int, b: int| 0 <= a < b < xt.len() implies precedes(entries, column, ascending, #[trigger] xt[a], #[trigger] xt[b]) by {
            assert(xt[a] == x[a + 1] && xt[b] == x[b + 1]);
        }
        assert forall|a: int, b: int| 0 <= a < b < yt.len() implies precedes(entries, column, ascending, #[trigger] yt[a], #[trigger] yt[b]) by {
            assert(yt[a] == y[a + 1] && yt[b] == y[b + 1]);
        }
        lemma_sorted_same_members(entries, column, ascending, xt, yt);
        assert forall|k: int| 0 <= k < x.len() implies x[k] == y[k] by {
            if k > 0 {
                assert(x[k] == xt[k - 1] && y[k] == yt[k - 1]);
            }
        }
        assert(x =~= y);
    }
}

/// A listing holds every matching index.
pub proof fn lemma_listing_is_all_matches(
    entries: Seq<KeyedEntry>,
    query: Seq<char>,
    column: SortColumn,
    ascending: bool,
    order: Seq<usize>,
)
    requires
        is_listing(entries, query, column, ascending, order),
    ensures
        forall|i: usize|
            i < entries.len() && name_matches(entries[i as int].lower_name, query) ==> order.contains(i),
{
    lemma_listing_distinct(entries, column, ascending, order);
    lemma_count_below_all(order, entries.len() as int);
    assert forall|i: usize|
        i < entries.len() && name_matches(entries[i as int].lower_name, query) implies order.contains(
        i,
    ) by {
        if !order.contains(i) {
            lemma_count_bound(entries, query, order, entries.len() as int, i);
        }
    }
}

/// The indices of a sorted order are distinct.
proof fn lemma_listing_distinct(
    entries: Seq<KeyedEntry>,
    column: SortColumn,
    ascending: bool,
    order: Seq<usize>,
)
    requires
        forall|k: int| 0 <= k < order.len() ==> #[trigger] order[k] < entries.len(),
        forall|a: int, b: int|
            0 <= a < b < order.len() ==> precedes(entries, column, ascending, #[trigger] order[a], #[trigger] order[b]),
    ensures
        order.no_duplicates(),
{
    assert forall|a: int, b: int| 0 <= a < order.len() && 0 <= b < order.len() && a != b implies order[a] != order[b] by {
        if order[a] == order[b] {
            if a < b {
                assert(precedes(entries, column, ascending, order[a], order[b]));
            } else {
                assert(precedes(entries, column, ascending, order[b], order[a]));
            }
            lemma_entry_order_flip(column, ascending, entries[order[a] as int], entries[order[a] as int]);
        }
    }
}

/// How many indices of `order` are below `n`.
pub open spec fn count_below(order: Seq<usize>, n: int) -> nat
    decreases order.len(),
{
    if order.len() == 0 {
        0
    } else {
        count_below(order.drop_last(), n) + if (order.last() as int) < n {
            1nat
        } else {
            0nat
        }
    }
}

proof fn lemma_count_below_all(order: Seq<usize>, n: int)
    requires
        forall|k: int| 0 <= k < order.len() ==> #[trigger] order[k] < n,
    ensures
        count_below(order, n) == order.len(),
    decreases order.len(),
{
    if order.len() > 0 {
        let rest = order.drop_last();
        assert forall|k: int| 0 <= k < rest.len() implies #[trigger] rest[k] < n by {
            assert(rest[k] == order[k]);
        }
        lemma_count_below_all(rest, n);
        assert(order[order.len() - 1] < n);
    }
}

proof fn lemma_count_below_zero(order: Seq<usize>)
    ensures
        count_below(order, 0) == 0,
    decreases order.len(),
{
    if order.len() > 0 {
        lemma_count_below_zero(order.drop_last());
    }
}

/// The indices below `m + 1` are those below `m` and, when listed, `m`
/// itself, which occurs at most once.
proof fn lemma_count_below_split(order: Seq<usize>, m: int)
    requires
        order.no_duplicates(),
        0 <= m,
    ensures
        count_below(order, m + 1) == count_below(order, m) + if m <= usize::MAX && order.contains(
            m as usize,
        ) {
            1nat
        } else {
            0nat
        },
    decreases order.len(),
{
    if order.len() > 0 {
        let rest = order.drop_last();
        assert(rest.no_duplicates());
        lemma_count_below_split(rest, m);
        if m <= usize::MAX {
            let mu = m as usize;
            if order.last() == mu {
                assert(!rest.contains(mu)) by {
                    if rest.contains(mu) {
                        let k = choose|k: int| 0 <= k < rest.len() && rest[k] == mu;
                        assert(order[k] == order[order.len() - 1]);
                    }
                }
            }
            assert(order.contains(mu) <==> (rest.contains(mu) || order.last() == mu)) by {
                if order.contains(mu) {
                    let k = choose|k: int| 0 <= k < order.len() && order[k] == mu;
                    if k < order.len() - 1 {
                        assert(rest[k] == mu);
                    }
                }
                if rest.contains(mu) {
                    let k = choose|k: int| 0 <= k < rest.len() && rest[k] == mu;
                    assert(order[k] == mu);
                }
            }
        }
    }
}

/// Distinct matching indices below `n` are at most the matches below `n`.
proof fn lemma_count_at_most(entries: Seq<KeyedEntry>, query: Seq<char>, order: Seq<usize>, n: int)
    requires
        0 <= n <= entries.len(),
        order.no_duplicates(),
        forall|k: int|
            0 <= k < order.len() ==> #[trigger] order[k] < entries.len() && name_matches(
                entries[order[k] as int].lower_name,
                query,
            ),
    ensures
        count_below(order, n) <= visible_count(entries, query, n),
    decreases n,
{
    if n == 0 {
        lemma_count_below_zero(order);
    } else {
        let m = n - 1;
        lemma_count_below_split(order, m);
        lemma_count_at_most(entries, query, order, n - 1);
        if m <= usize::MAX && order.contains(m as usize) {
            let k = choose|k: int| 0 <= k < order.len() && order[k] == m as usize;
            assert(name_matches(entries[order[k] as int].lower_name, query));
        }
    }
}

/// With one matching index left out, the distinct matching indices below
/// `n` are fewer than the matches below `n`.
proof fn lemma_count_bound(
    entries: Seq<KeyedEntry>,
    query: Seq<char>,
    order: Seq<usize>,
    n: int,
    missing: usize,
)
    requires
        0 <= n <= entries.len(),
        order.no_duplicates(),
        forall|k: int|
            0 <= k < order.len() ==> #[trigger] order[k] < entries.len() && name_matches(
                entries[order[k] as int].lower_name,
                query,
            ),
        name_matches(entries[missing as int].lower_name, query),
        !order.contains(missing),
        missing < n,
    ensures
        count_below(order, n) < visible_count(entries, query, n),
    decreases n,
{
    let m = n - 1;
    lemma_count_below_split(order, m);
    if missing == m {
        lemma_count_at_most(entries, query, order, n - 1);
    } else {
        lemma_count_bound(entries, query, order, n - 1, missing);
        if m <= usize::MAX && order.contains(m as usize) {
            let k = choose|k: int| 0 <= k < order.len() && order[k] == m as usize;
            assert(name_matches(entries[order[k] as int].lower_name, query));
        }
    }
}

/// The texts of a list of strings.
pub open spec fn string_views(v: Seq<String>) -> Seq<Seq<char>> {
    v.map_values(|s: String| s@)
}

pub open spec fn char_views(v: Seq<Vec<char>>) -> Seq<Seq<char>> {
    v.map_values(|s: Vec<char>| s@)
}

/// Lower-case names and types of the entries, kept for comparisons.
struct SortKeys {
    lower_names: Vec<Vec<char>>,
    kinds: Vec<Vec<char>>,
}

impl SortKeys {
    /// The keys belong to these entries.
    spec fn fits(&self, entries: Seq<FileEntry>) -> bool {
        &&& self.lower_names.len() == entries.len()
        &&& self.kinds.len() == entries.len()
        &&& forall|i: int| 0 <= i < entries.len() ==> #[trigger] self.kinds@[i]@ == entries[i]@.kind
    }

    spec fn keyed(&self, entries: Seq<FileEntry>) -> Seq<KeyedEntry> {
        keyed(entry_views(entries), char_views(self.lower_names@))
    }
}

fn compare_entries(
    entries: &Vec<FileEntry>,
    keys: &SortKeys,
    column: SortColumn,
    ascending: bool,
    i: usize,
    j: usize,
) -> (r: Comparison)
    requires
        i < entries.len(),
        j < entries.len(),
        keys.fits(entries@),
    ensures
        r == entry_order(column, ascending, keys.keyed(entries@)[i as int], keys.keyed(entries@)[j as int]),
{
    let ghost ke = keys.keyed(entries@);
    assert(ke[i as int].entry == entries@[i as int]@ && ke[j as int].entry == entries@[j as int]@);
    assert(ke[i as int].lower_name == keys.lower_names@[i as int]@);
    assert(ke[j as int].lower_name == keys.lower_names@[j as int]@);
    let folders = compare_bool(entries[j].is_dir(), entries[i].is_dir());
    if folders != Comparison::Equal {
        return folders;
    }
    let by_column = match column {
        SortColumn::Name => compare_text(&keys.lower_names[i], &keys.lower_names[j]),
        SortColumn::Modified => compare_u64(entries[i].modified_ticks(), entries[j].modified_ticks()),
        SortColumn::Kind => compare_text(&keys.kinds[i], &keys.kinds[j]),
        SortColumn::Size => compare_u64(entries[i].size(), entries[j].size()),
    };
    if ascending {
        by_column
    } else {
        by_column.reversed()
    }
}

/// The rows of the table for these entries, given each entry's name in
/// lower case and the search text in lower case.
pub fn listing_rows_keyed(
    entries: &Vec<FileEntry>,
    lower_names: &Vec<String>,
    lower_query: &String,
    column: SortColumn,
    ascending: bool,
) -> (r: Vec<TableRow>)
    requires
        lower_names.len() == entries.len(),
    ensures
        r.len() == visible_count(
            keyed(entry_views(entries@), string_views(lower_names@)),
            lower_query@,
            entries.len() as int,
        ),
        exists|order: Seq<usize>|
            is_listing(
                keyed(entry_views(entries@), string_views(lower_names@)),
                lower_query@,
                column,
                ascending,
                order,
            ) && row_views(r@) == rows_for(
                keyed(entry_views(entries@), string_views(lower_names@)),
                order,
            ),
{
    let ghost ke = keyed(entry_views(entries@), string_views(lower_names@));
    let query = chars_of(lower_query.as_str());
    let mut keys = SortKeys { lower_names: Vec::new(), kinds: Vec::new() };
    let mut matching: Vec<usize> = Vec::new();
    let mut i: usize = 0;
    while i < entries.len()
        invariant
            i <= entries.len(),
            lower_names.len() == entries.len(),
            ke == keyed(entry_views(entries@), string_views(lower_names@)),
            query@ == lower_query@,
            keys.lower_names.len() == i,
            keys.kinds.len() == i,
            forall|k: int| 0 <= k < i ==> #[trigger] keys.lower_names@[k]@ == ke[k].lower_name,
            forall|k: int| 0 <= k < i ==> #[trigger] keys.kinds@[k]@ == entries@[k]@.kind,
            matching.len() == visible_count(ke, query@, i as int),
            forall|k: int|
                0 <= k < matching.len() ==> #[trigger] matching@[k] < i && name_matches(
                    ke[matching@[k] as int].lower_name,
                    query@,
                ),
            forall|a: int, b: int| 0 <= a < b < matching.len() ==> #[trigger] matching@[a] < #[trigger] matching@[b],
        decreases entries.len() - i,
    {
        let name = chars_of(lower_names[i].as_str());
        assert(name@ == ke[i as int].lower_name);
        let shown = query.len() == 0 || contains_text(&name, &query);
        if shown {
            matching.push(i);
        }
        keys.lower_names.push(name);
        keys.kinds.push(chars_of(entries[i].kind().as_str()));
        i = i + 1;
    }
    assert(keys.keyed(entries@) =~= ke);
    let mut order: Vec<usize> = Vec::new();
    let mut m: usize = 0;
    while m < matching.len()
        invariant
            m <= matching.len(),
            ke == keys.keyed(entries@),
            keys.fits(entries@),
            matching.len() == visible_count(ke, query@, entries.len() as int),
            forall|k: int|
                0 <= k < matching.len() ==> #[trigger] matching@[k] < entries.len() && name_matches(
                    ke[matching@[k] as int].lower_name,
                    query@,
                ),
            forall|a: int, b: int| 0 <= a < b < matching.len() ==> #[trigger] matching@[a] < #[trigger] matching@[b],
            order.len() == m,
            forall|k: int|
                0 <= k < order.len() ==> #[trigger] order@[k] < entries.len() && name_matches(
                    ke[order@[k] as int].lower_name,
                    query@,
                ) && (m < matching.len() ==> order@[k] < matching@[m as int]),
            forall|a: int, b: int|
                0 <= a < b < order.len() ==> precedes(ke, column, ascending, #[trigger] order@[a], #[trigger] order@[b]),
        decreases matching.len() - m,
    {
        let x = matching[m];
        let mut p: usize = order.len();
        while p > 0 && compare_entries(entries, &keys, column, ascending, order[p - 1], x)
            == Comparison::Greater
            invariant
                p <= order.len(),
                x < entries.len(),
                ke == keys.keyed(entries@),
                keys.fits(entries@),
                forall|k: int| 0 <= k < order.len() ==> #[trigger] order@[k] < entries.len(),
                forall|q: int|
                    p <= q < order.len() ==> entry_order(column, ascending, ke[#[trigger] order@[q] as int], ke[x as int])
                        == Comparison::Greater,
            decreases p,
        {
            p = p - 1;
        }
        let ghost old_order = order@;
        proof {
            assert forall|a: int| 0 <= a < p implies precedes(ke, column, ascending, #[trigger] old_order[a], x) by {
                let last = old_order[p - 1];
                assert(entry_order(column, ascending, ke[last as int], ke[x as int]) != Comparison::Greater);
                if a < p - 1 {
                    assert(precedes(ke, column, ascending, old_order[a], old_order[p - 1]));
                    lemma_entry_order_transitive(column, ascending, ke[old_order[a] as int], ke[last as int], ke[x as int]);
                }
            }
            assert forall|b: int| p <= b < old_order.len() implies precedes(ke, column, ascending, x, #[trigger] old_order[b]) by {
                lemma_entry_order_flip(column, ascending, ke[old_order[b] as int], ke[x as int]);
            }
        }
        order.insert(p, x);
        proof {
            assert forall|a: int, b: int|
                0 <= a < b < order.len() implies precedes(ke, column, ascending, #[trigger] order@[a], #[trigger] order@[b]) by {
                if a < p && b < p {
                    assert(order@[a] == old_order[a] && order@[b] == old_order[b]);
                } else if a < p && b == p {
                    assert(order@[a] == old_order[a]);
                } else if a < p {
                    assert(order@[a] == old_order[a] && order@[b] == old_order[b - 1]);
                } else if a == p {
                    assert(order@[b] == old_order[b - 1]);
                } else {
                    assert(order@[a] == old_order[a - 1] && order@[b] == old_order[b - 1]);
                }
            }
            assert forall|k: int| 0 <= k < order.len() implies #[trigger] order@[k] < entries.len()
                && name_matches(ke[order@[k] as int].lower_name, query@) && (m + 1 < matching.len() ==> order@[k] < matching@[m + 1]) by {
                if m + 1 < matching.len() {
                    assert(matching@[m as int] < matching@[m + 1]);
                }
                if k < p {
                    assert(order@[k] == old_order[k]);
                } else if k > p {
                    assert(order@[k] == old_order[k - 1]);
                }
            }
        }
        m = m + 1;
    }
    let mut rows: Vec<TableRow> = Vec::new();
    let mut k: usize = 0;
    while k < order.len()
        invariant
            k <= order.len(),
            ke == keyed(entry_views(entries@), string_views(lower_names@)),
            forall|j: int| 0 <= j < order.len() ==> #[trigger] order@[j] < entries.len(),
            row_views(rows@) == rows_for(ke, order@.take(k as int)),
        decreases order.len() - k,
    {
        let row = entries[order[k]].table_row();
        assert(ke[order@[k as int] as int].entry == entries@[order@[k as int] as int]@);
        let ghost prev = rows@;
        rows.push(row);
        assert(rows@ == prev.push(row));
        assert(row_views(rows@) =~= row_views(prev).push(row@));
        assert(order@.take(k + 1) =~= order@.take(k as int).push(order@[k as int]));
        assert(rows_for(ke, order@.take(k + 1)) =~= rows_for(ke, order@.take(k as int)).push(
            row_of(ke[order@[k as int] as int].entry),
        ));
        k = k + 1;
    }
    assert(order@.take(order.len() as int) =~= order@);
    assert(is_listing(ke, lower_query@, column, ascending, order@));
    rows
}

/// The rows of the table for these entries, search text and sort: names
/// and search text compare in lower case.
pub fn listing_rows(
    entries: &Vec<FileEntry>,
    query: &String,
    column: SortColumn,
    ascending: bool,
) -> (r: Vec<TableRow>)
    ensures
        r.len() == visible_count(keyed_lowercase(entry_views(entries@)), lowercase(query@), entries.len() as int),
        query@.len() == 0 ==> r.len() == entries.len(),
        exists|order: Seq<usize>|
            is_listing(keyed_lowercase(entry_views(entries@)), lowercase(query@), column, ascending, order)
                && row_views(r@) == rows_for(keyed_lowercase(entry_views(entries@)), order),
{
    let ghost ev = entry_views(entries@);
    let mut lower_names: Vec<String> = Vec::new();
    let mut i: usize = 0;
    while i < entries.len()
        invariant
            i <= entries.len(),
            ev == entry_views(entries@),
            lower_names.len() == i,
            forall|k: int| 0 <= k < i ==> #[trigger] lower_names@[k]@ == lowercase(ev[k].name),
        decreases entries.len() - i,
    {
        assert(ev[i as int] == entries@[i as int]@);
        lower_names.push(to_lowercase(entries[i].name().as_str()));
        i = i + 1;
    }
    let lower_query = to_lowercase(query.as_str());
    proof {
        if query@.len() == 0 {
            assert(lower_query@ =~= Seq::<char>::empty());
            lemma_empty_search_shows_all(keyed_lowercase(ev), entries.len() as int);
        }
    }
    assert(keyed(ev, string_views(lower_names@)) =~= keyed_lowercase(ev));
    listing_rows_keyed(entries, &lower_names, &lower_query, column, ascending)
}

} // verus!
