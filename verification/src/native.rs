//! The renderer-neutral vocabulary shared with the native view: table rows
//! and the events that view handlers receive.
use vstd::prelude::*;

verus! {

/// One row of the details table.
#[derive(Clone, Debug, Default, PartialEq, Eq)]
pub struct TableRow {
    pub key: String,
    pub name: String,
    pub modified: String,
    pub kind: String,
    pub size: String,
    pub icon: String,
}

pub struct TableRowView {
    pub key: Seq<char>,
    pub name: Seq<char>,
    pub modified: Seq<char>,
    pub kind: Seq<char>,
    pub size: Seq<char>,
    pub icon: Seq<char>,
}

impl View for TableRow {
    type V = TableRowView;

    open spec fn view(&self) -> TableRowView {
        TableRowView {
            key: self.key@,
            name: self.name@,
            modified: self.modified@,
            kind: self.kind@,
            size: self.size@,
            icon: self.icon@,
        }
    }
}

pub open spec fn row_views(rows: Seq<TableRow>) -> Seq<TableRowView> {
    rows.map_values(|r: TableRow| r@)
}

impl TableRow {
    pub fn new(
        key: String,
        name: String,
        modified: String,
        kind: String,
        size: String,
        icon: String,
    ) -> (r: TableRow)
        ensures
            r@ == (TableRowView {
                key: key@,
                name: name@,
                modified: modified@,
                kind: kind@,
                size: size@,
                icon: icon@,
            }),
    {
        TableRow { key, name, modified, kind, size, icon }
    }
}

/// The part of an event target that handlers read.
#[derive(Clone, Debug, Default, PartialEq, Eq)]
pub struct EventTarget {
    pub value: String,
}

/// The value handed to view event handlers.
#[derive(Clone, Debug, Default, PartialEq, Eq)]
pub struct Event {
    pub target: EventTarget,
}

impl Event {
    /// A click carries no value.
    pub fn click() -> (e: Event)
        ensures
            e.target.value@ == Seq::<char>::empty(),
    {
        Event { target: EventTarget { value: String::new() } }
    }

    /// An input or selection event carries the new value.
    pub fn input(value: String) -> (e: Event)
        ensures
            e.target.value@ == value@,
    {
        Event { target: EventTarget { value } }
    }
}

/// The position of the first row with `key`, if any: the row the table
/// shows as selected.
pub open spec fn selected_position(rows: Seq<TableRowView>, key: Seq<char>) -> Option<int>
    decreases rows.len(),
{
    if rows.len() == 0 {
        None
    } else if rows[0].key == key {
        Some(0)
    } else {
        match selected_position(rows.drop_first(), key) {
            Some(i) => Some(i + 1),
            None => None,
        }
    }
}

/// The position of the first row whose key is `key`.
pub fn selected_row_index(rows: &Vec<TableRow>, key: &String) -> (r: Option<usize>)
    ensures
        r matches Some(i) ==> selected_position(row_views(rows@), key@) == Some(i as int),
        r is None ==> selected_position(row_views(rows@), key@) is None,
{
    let ghost rv = row_views(rows@);
    let mut i: usize = 0;
    assert(rv.skip(0) =~= rv);
    while i < rows.len()
        invariant
            i <= rows.len(),
            rv == row_views(rows@),
            forall|k: int| 0 <= k < i ==> #[trigger] rv[k].key != key@,
            selected_position(rv, key@) == match selected_position(rv.skip(i as int), key@) {
                Some(j) => Some(j + i),
                None => None::<int>,
            },
        decreases rows.len() - i,
    {
        assert(rv[i as int] == rows@[i as int]@);
        assert(rv.skip(i as int)[0] == rv[i as int]);
        if rows[i].key == *key {
            return Some(i);
        }
        assert(rv.skip(i as int).drop_first() =~= rv.skip(i + 1));
        i = i + 1;
    }
    assert(rv.skip(i as int).len() == 0);
    None
}

/// The longest gap, in nanoseconds, between two taps on the same row that
/// activate it.
pub const DOUBLE_TAP_NANOS: u64 = 650_000_000;

/// The last tap on a table row: its key and when it happened.
#[derive(Clone, Debug, Default, PartialEq, Eq)]
pub struct TapTracker {
    last: Option<(String, u64)>,
}

pub open spec fn tap_view(last: Option<(String, u64)>) -> Option<(Seq<char>, u64)> {
    match last {
        Some((k, t)) => Some((k@, t)),
        None => None,
    }
}

/// A tap on `key` at `now` activates the row when the last tap was on the
/// same row at most `DOUBLE_TAP_NANOS` earlier (a clock that went back
/// counts as no time).
pub open spec fn tap_activates(last: Option<(Seq<char>, u64)>, key: Seq<char>, now: u64) -> bool {
    match last {
        Some((k, t)) => k == key && (if now >= t { now - t } else { 0 }) <= DOUBLE_TAP_NANOS,
        None => false,
    }
}

impl TapTracker {
    pub closed spec fn last_tap(&self) -> Option<(Seq<char>, u64)> {
        tap_view(self.last)
    }

    pub fn new() -> (r: TapTracker)
        ensures
            r.last_tap() is None,
    {
        TapTracker { last: None }
    }

    /// Records a tap on `key` at `now` (in nanoseconds) and tells whether
    /// it activates the row. An activating tap is forgotten, so a third
    /// quick tap starts over.
    pub fn tap(&mut self, key: String, now: u64) -> (activated: bool)
        ensures
            activated == tap_activates(old(self).last_tap(), key@, now),
            activated ==> final(self).last_tap() is None,
            !activated ==> final(self).last_tap() == Some((key@, now)),
    {
        let activated = match &self.last {
            Some((last_key, at)) => *last_key == key && now.saturating_sub(*at) <= DOUBLE_TAP_NANOS,
            None => false,
        };
        if activated {
            self.last = None;
        } else {
            self.last = Some((key, now));
        }
        activated
    }
}

/// Right after a tap that activates, no tap activates.
pub proof fn lemma_activation_resets(key: Seq<char>, now: u64)
    ensures
        !tap_activates(None, key, now),
{
}

/// A second tap on the same row soon enough activates it; a tap on another
/// row does not.
pub proof fn lemma_double_tap(key: Seq<char>, other: Seq<char>, first: u64, second: u64)
    requires
        first <= second,
        second - first <= DOUBLE_TAP_NANOS,
    ensures
        tap_activates(Some((key, first)), key, second),
        other != key ==> !tap_activates(Some((key, first)), other, second),
{
}

} // verus!
