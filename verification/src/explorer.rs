//! The explorer's state and how each user action changes it. Reading
//! folders, resolving paths and opening files happen outside; their
//! outcomes come in as `DirectoryLoad` and `Activation` values.
use vstd::prelude::*;
use crate::entry::{entry_views, EntryView, FileEntry};
use crate::listing::{
    is_listing, keyed_lowercase, lemma_longer_search_narrows, listing_rows, rows_for, visible_count, SortColumn,
};
use crate::text::lowercase;
use crate::native::{row_views, TableRow, TableRowView};
use crate::path::{
    compact_crumbs, copy_string, drive_root_views, drive_roots, keep_flagged, kept, location_views,
    profile_folder_views, profile_folders, DirPath, DirPathView, Location, LocationView,
};
use crate::text::{chars_of, decimal, push_decimal, push_text, string_from, text_contains, text_is};

verus! {

/// What came of opening a folder: its canonical path and listing, or the
/// message that explains why it could not be opened.
pub enum DirectoryLoad {
    Opened(DirPath, Vec<FileEntry>),
    Failed(String),
}

pub enum LoadView {
    Opened(DirPathView, Seq<EntryView>),
    Failed(Seq<char>),
}

impl View for DirectoryLoad {
    type V = LoadView;

    open spec fn view(&self) -> LoadView {
        match self {
            DirectoryLoad::Opened(p, es) => LoadView::Opened(p@, entry_views(es@)),
            DirectoryLoad::Failed(m) => LoadView::Failed(m@),
        }
    }
}

/// What activating an item found: a folder (and the outcome of opening
/// it), a file that was opened or could not be, or nothing at that path.
pub enum Activation {
    Folder(DirectoryLoad),
    Opened,
    OpenFailed(String),
    Missing,
}

pub enum ActivationView {
    Folder(LoadView),
    Opened,
    OpenFailed(Seq<char>),
    Missing,
}

impl View for Activation {
    type V = ActivationView;

    open spec fn view(&self) -> ActivationView {
        match self {
            Activation::Folder(load) => ActivationView::Folder(load@),
            Activation::Opened => ActivationView::Opened,
            Activation::OpenFailed(m) => ActivationView::OpenFailed(m@),
            Activation::Missing => ActivationView::Missing,
        }
    }
}

/// The outcome of re-reading the current folder, as a view.
pub open spec fn listing_view(r: Result<Vec<FileEntry>, String>) -> Result<Seq<EntryView>, Seq<char>> {
    match r {
        Ok(es) => Ok(entry_views(es@)),
        Err(m) => Err(m@),
    }
}

pub open spec fn path_views(v: Seq<DirPath>) -> Seq<DirPathView> {
    v.map_values(|p: DirPath| p@)
}

/// The explorer: the current folder, the back and forward histories, the
/// listed entries, the search text, the selection, the sort and the
/// message in the status bar.
#[derive(Debug, PartialEq, Eq)]
pub struct ExplorerState {
    current: DirPath,
    back: Vec<DirPath>,
    forward: Vec<DirPath>,
    entries: Vec<FileEntry>,
    query: String,
    selected_key: String,
    sort: SortColumn,
    ascending: bool,
    notice: String,
}

pub struct ExplorerView {
    pub current: DirPathView,
    pub back: Seq<DirPathView>,
    pub forward: Seq<DirPathView>,
    pub entries: Seq<EntryView>,
    pub query: Seq<char>,
    pub selected_key: Seq<char>,
    pub sort: SortColumn,
    pub ascending: bool,
    pub notice: Seq<char>,
}

impl View for ExplorerState {
    type V = ExplorerView;

    closed spec fn view(&self) -> ExplorerView {
        ExplorerView {
            current: self.current@,
            back: path_views(self.back@),
            forward: path_views(self.forward@),
            entries: entry_views(self.entries@),
            query: self.query@,
            selected_key: self.selected_key@,
            sort: self.sort,
            ascending: self.ascending,
            notice: self.notice@,
        }
    }
}

/// Some entry has the path `key`.
pub open spec fn has_entry(entries: Seq<EntryView>, key: Seq<char>) -> bool {
    exists|i: int| 0 <= i < entries.len() && #[trigger] entries[i].path == key
}

/// The sort column a column header's key names.
pub open spec fn column_named(key: Seq<char>) -> Option<SortColumn> {
    if key == "name"@ {
        Some(SortColumn::Name)
    } else if key == "modified"@ {
        Some(SortColumn::Modified)
    } else if key == "kind"@ {
        Some(SortColumn::Kind)
    } else if key == "size"@ {
        Some(SortColumn::Size)
    } else {
        None
    }
}

impl ExplorerView {
    /// The selection is empty or names a listed entry.
    pub open spec fn selection_listed(self) -> bool {
        self.selected_key.len() == 0 || has_entry(self.entries, self.selected_key)
    }

    pub open spec fn with_notice(self, notice: Seq<char>) -> ExplorerView {
        ExplorerView { notice, ..self }
    }

    /// The state after trying to open a folder. On success the folder
    /// becomes current with a clear search and selection; when `remember`
    /// holds and the folder is not the current one (as paths compare), the
    /// current one goes on the back history and the forward history is
    /// dropped. On failure only the message changes.
    pub open spec fn after_load(self, load: LoadView, remember: bool) -> ExplorerView {
        match load {
            LoadView::Failed(message) => self.with_notice(message),
            LoadView::Opened(path, entries) => {
                let moved = remember && !path.same_path(self.current);
                ExplorerView {
                    current: path,
                    back: if moved {
                        self.back.push(self.current)
                    } else {
                        self.back
                    },
                    forward: if moved {
                        Seq::<DirPathView>::empty()
                    } else {
                        self.forward
                    },
                    entries,
                    query: Seq::<char>::empty(),
                    selected_key: Seq::<char>::empty(),
                    notice: "Folder opened"@,
                    ..self
                }
            },
        }
    }

    /// The state after typing `query` into the search box.
    pub open spec fn after_query(self, query: Seq<char>) -> ExplorerView {
        if query == self.query {
            self
        } else {
            ExplorerView {
                query,
                selected_key: Seq::<char>::empty(),
                notice: "Showing search results"@,
                ..self
            }
        }
    }

    /// The state after selecting the row with `key`: only keys of listed
    /// entries are taken.
    pub open spec fn after_select(self, key: Seq<char>) -> ExplorerView {
        if has_entry(self.entries, key) {
            ExplorerView { selected_key: key, notice: "Item selected"@, ..self }
        } else {
            self
        }
    }

    /// The state after going back: the last folder of the back history is
    /// taken off it, the current folder goes on the forward history, and
    /// `load` is the outcome of opening the folder taken off.
    pub open spec fn after_back(self, load: LoadView) -> ExplorerView {
        if self.back.len() == 0 {
            self
        } else {
            ExplorerView {
                back: self.back.drop_last(),
                forward: self.forward.push(self.current),
                ..self
            }.after_load(load, false)
        }
    }

    /// The state after going forward, the mirror of going back.
    pub open spec fn after_forward(self, load: LoadView) -> ExplorerView {
        if self.forward.len() == 0 {
            self
        } else {
            ExplorerView {
                forward: self.forward.drop_last(),
                back: self.back.push(self.current),
                ..self
            }.after_load(load, false)
        }
    }

    /// The state after going up, `load` being the outcome of opening the
    /// parent folder.
    pub open spec fn after_up(self, load: LoadView) -> ExplorerView {
        if self.current.parent() is None {
            self
        } else {
            self.after_load(load, true)
        }
    }

    /// The state after re-reading the current folder.
    pub open spec fn after_refresh(self, listing: Result<Seq<EntryView>, Seq<char>>) -> ExplorerView {
        match listing {
            Ok(entries) => ExplorerView {
                entries,
                selected_key: Seq::<char>::empty(),
                notice: "Refreshed"@,
                ..self
            },
            Err(message) => self.with_notice(message),
        }
    }

    /// The state after clicking the header with `key`: the same column
    /// again flips the direction, another column sorts ascending by it,
    /// an unknown key changes nothing.
    pub open spec fn after_sort(self, key: Seq<char>) -> ExplorerView {
        match column_named(key) {
            None => self,
            Some(column) => {
                let ascending = if column == self.sort {
                    !self.ascending
                } else {
                    true
                };
                ExplorerView {
                    sort: column,
                    ascending,
                    notice: if ascending {
                        "Sorted ascending"@
                    } else {
                        "Sorted descending"@
                    },
                    ..self
                }
            },
        }
    }

    /// The state after activating the item at path `key`.
    pub open spec fn after_activate(self, key: Seq<char>, found: ActivationView) -> ExplorerView {
        match found {
            ActivationView::Folder(load) => self.after_load(load, true),
            ActivationView::Opened => self.with_notice("Opened "@ + key),
            ActivationView::OpenFailed(message) => self.with_notice(message),
            ActivationView::Missing => self.with_notice("The selected item no longer exists"@),
        }
    }

    /// The state after pressing Open: the selected item is activated, or
    /// the user is asked to select one.
    pub open spec fn after_open_selected(self, found: ActivationView) -> ExplorerView {
        if self.selected_key.len() == 0 {
            self.with_notice("Select an item to open"@)
        } else {
            self.after_activate(self.selected_key, found)
        }
    }

    /// The window title: the current folder's name, or its whole path
    /// when it has none.
    pub open spec fn title(self) -> Seq<char> {
        if self.current.names.len() > 0 && self.current.names.last().len() > 0 {
            self.current.names.last()
        } else {
            self.current.text()
        }
    }

    /// How many rows the table shows.
    pub open spec fn visible(self) -> nat {
        visible_count(keyed_lowercase(self.entries), lowercase(self.query), self.entries.len() as int)
    }

    /// The status bar.
    pub open spec fn status(self) -> Seq<char> {
        decimal(self.visible()) + " items"@ + (if self.selected_key.len() == 0 {
            Seq::<char>::empty()
        } else {
            "  |  1 item selected"@
        }) + "  |  "@ + self.notice
    }
}

/// Whether some entry has the path `key`.
fn lists_key(entries: &Vec<FileEntry>, key: &String) -> (r: bool)
    ensures
        r == has_entry(entry_views(entries@), key@),
{
    let ghost ev = entry_views(entries@);
    let mut i: usize = 0;
    while i < entries.len()
        invariant
            i <= entries.len(),
            ev == entry_views(entries@),
            forall|k: int| 0 <= k < i ==> #[trigger] ev[k].path != key@,
        decreases entries.len() - i,
    {
        assert(ev[i as int] == entries@[i as int]@);
        if *entries[i].path() == *key {
            assert(ev[i as int].path == key@);
            return true;
        }
        i = i + 1;
    }
    false
}

impl Clone for ExplorerState {
    fn clone(&self) -> (r: ExplorerState)
        ensures
            r@ == self@,
    {
        proof {
            use_type_invariant(self);
        }
        let mut back: Vec<DirPath> = Vec::new();
        let mut i: usize = 0;
        while i < self.back.len()
            invariant
                i <= self.back.len(),
                path_views(back@) == path_views(self.back@).take(i as int),
            decreases self.back.len() - i,
        {
            let ghost prev = back@;
            let p = self.back[i].duplicate();
            back.push(p);
            assert(path_views(back@) =~= path_views(prev).push(p@));
            assert(path_views(self.back@).take(i + 1) =~= path_views(self.back@).take(i as int).push(self.back@[i as int]@));
            i = i + 1;
        }
        let mut forward: Vec<DirPath> = Vec::new();
        let mut j: usize = 0;
        while j < self.forward.len()
            invariant
                j <= self.forward.len(),
                path_views(forward@) == path_views(self.forward@).take(j as int),
            decreases self.forward.len() - j,
        {
            let ghost prev = forward@;
            let p = self.forward[j].duplicate();
            forward.push(p);
            assert(path_views(forward@) =~= path_views(prev).push(p@));
            assert(path_views(self.forward@).take(j + 1) =~= path_views(self.forward@).take(j as int).push(self.forward@[j as int]@));
            j = j + 1;
        }
        let mut entries: Vec<FileEntry> = Vec::new();
        let mut k: usize = 0;
        while k < self.entries.len()
            invariant
                k <= self.entries.len(),
                entry_views(entries@) == entry_views(self.entries@).take(k as int),
            decreases self.entries.len() - k,
        {
            let ghost prev = entries@;
            let e = self.entries[k].duplicate();
            entries.push(e);
            assert(entry_views(entries@) =~= entry_views(prev).push(e@));
            assert(entry_views(self.entries@).take(k + 1) =~= entry_views(self.entries@).take(k as int).push(self.entries@[k as int]@));
            k = k + 1;
        }
        assert(path_views(self.back@).take(self.back.len() as int) =~= path_views(self.back@));
        assert(path_views(self.forward@).take(self.forward.len() as int) =~= path_views(self.forward@));
        assert(entry_views(self.entries@).take(self.entries.len() as int) =~= entry_views(self.entries@));
        ExplorerState {
            current: self.current.duplicate(),
            back,
            forward,
            entries,
            query: copy_string(&self.query),
            selected_key: copy_string(&self.selected_key),
            sort: self.sort,
            ascending: self.ascending,
            notice: copy_string(&self.notice),
        }
    }
}

impl ExplorerState {
    #[verifier::type_invariant]
    spec fn selection_is_listed(self) -> bool {
        self@.selection_listed()
    }

    /// The explorer opened on `current`, whose listing is `entries`:
    /// nothing searched or selected, sorted by name ascending.
    pub fn initial(current: DirPath, entries: Vec<FileEntry>) -> (r: ExplorerState)
        ensures
            r@ == (ExplorerView {
                current: current@,
                back: Seq::<DirPathView>::empty(),
                forward: Seq::<DirPathView>::empty(),
                entries: entry_views(entries@),
                query: Seq::<char>::empty(),
                selected_key: Seq::<char>::empty(),
                sort: SortColumn::Name,
                ascending: true,
                notice: "Read-only mode"@,
            }),
            r@.selection_listed(),
    {
        let r = ExplorerState {
            current,
            back: Vec::new(),
            forward: Vec::new(),
            entries,
            query: String::new(),
            selected_key: String::new(),
            sort: SortColumn::Name,
            ascending: true,
            notice: "Read-only mode".to_owned(),
        };
        assert(path_views(r.back@) =~= Seq::<DirPathView>::empty());
        assert(path_views(r.forward@) =~= Seq::<DirPathView>::empty());
        r
    }

    /// The same state with another message.
    fn noted(self, notice: String) -> (r: ExplorerState)
        ensures
            r@ == self@.with_notice(notice@),
            r@.selection_listed(),
    {
        proof {
            use_type_invariant(&self);
        }
        let ExplorerState { current, back, forward, entries, query, selected_key, sort, ascending, .. } =
            self;
        ExplorerState { current, back, forward, entries, query, selected_key, sort, ascending, notice }
    }

    /// Applies the outcome of opening a folder.
    fn load(self, load: DirectoryLoad, remember: bool) -> (r: ExplorerState)
        ensures
            r@ == self@.after_load(load@, remember),
            r@.selection_listed(),
    {
        proof {
            use_type_invariant(&self);
        }
        match load {
            DirectoryLoad::Failed(message) => self.noted(message),
            DirectoryLoad::Opened(path, new_entries) => {
                let ghost old_view = self@;
                let ExplorerState { current, mut back, mut forward, sort, ascending, .. } = self;
                let moved = remember && !path.same_as(&current);
                if moved {
                    let ghost old_back = back@;
                    back.push(current);
                    assert(path_views(back@) =~= path_views(old_back).push(old_view.current));
                    forward = Vec::new();
                    assert(path_views(forward@) =~= Seq::<DirPathView>::empty());
                }
                ExplorerState {
                    current: path,
                    back,
                    forward,
                    entries: new_entries,
                    query: String::new(),
                    selected_key: String::new(),
                    sort,
                    ascending,
                    notice: "Folder opened".to_owned(),
                }
            },
        }
    }

    /// Opens a folder the user chose; `load` is the outcome of resolving
    /// and reading it.
    pub fn navigate(self, load: DirectoryLoad) -> (r: ExplorerState)
        ensures
            r@ == self@.after_load(load@, true),
            r@.selection_listed(),
    {
        self.load(load, true)
    }

    /// The folder going back would open, if any.
    pub fn back_target(&self) -> (r: Option<String>)
        ensures
            r matches Some(t) ==> self@.back.len() > 0 && t@ == self@.back.last().text(),
            r is None ==> self@.back.len() == 0,
    {
        if self.back.len() == 0 {
            None
        } else {
            let last = &self.back[self.back.len() - 1];
            assert(self@.back.last() == last@);
            Some(last.text())
        }
    }

    /// The folder going forward would open, if any.
    pub fn forward_target(&self) -> (r: Option<String>)
        ensures
            r matches Some(t) ==> self@.forward.len() > 0 && t@ == self@.forward.last().text(),
            r is None ==> self@.forward.len() == 0,
    {
        if self.forward.len() == 0 {
            None
        } else {
            let last = &self.forward[self.forward.len() - 1];
            assert(self@.forward.last() == last@);
            Some(last.text())
        }
    }

    /// The folder going up would open, if any.
    pub fn parent_target(&self) -> (r: Option<String>)
        ensures
            r matches Some(t) ==> self@.current.parent() matches Some(p) && t@ == p.text(),
            r is None ==> self@.current.parent() is None,
    {
        match self.current.parent() {
            Some(p) => Some(p.text()),
            None => None,
        }
    }

    /// Goes back; `load` is the outcome of opening the folder
    /// `back_target` names. Without back history nothing changes.
    pub fn go_back(self, load: DirectoryLoad) -> (r: ExplorerState)
        ensures
            r@ == self@.after_back(load@),
            r@.selection_listed(),
    {
        proof {
            use_type_invariant(&self);
        }
        if self.back.len() == 0 {
            return self;
        }
        let ExplorerState {
            current,
            mut back,
            mut forward,
            entries,
            query,
            selected_key,
            sort,
            ascending,
            notice,
        } = self;
        let ghost old_back = back@;
        let ghost old_forward = forward@;
        let _ = back.pop();
        assert(path_views(back@) =~= path_views(old_back).drop_last());
        forward.push(current.duplicate());
        assert(path_views(forward@) =~= path_views(old_forward).push(current@));
        let moved = ExplorerState {
            current,
            back,
            forward,
            entries,
            query,
            selected_key,
            sort,
            ascending,
            notice,
        };
        moved.load(load, false)
    }

    /// Goes forward; `load` is the outcome of opening the folder
    /// `forward_target` names. Without forward history nothing changes.
    pub fn go_forward(self, load: DirectoryLoad) -> (r: ExplorerState)
        ensures
            r@ == self@.after_forward(load@),
            r@.selection_listed(),
    {
        proof {
            use_type_invariant(&self);
        }
        if self.forward.len() == 0 {
            return self;
        }
        let ExplorerState {
            current,
            mut back,
            mut forward,
            entries,
            query,
            selected_key,
            sort,
            ascending,
            notice,
        } = self;
        let ghost old_back = back@;
        let ghost old_forward = forward@;
        let _ = forward.pop();
        assert(path_views(forward@) =~= path_views(old_forward).drop_last());
        back.push(current.duplicate());
        assert(path_views(back@) =~= path_views(old_back).push(current@));
        let moved = ExplorerState {
            current,
            back,
            forward,
            entries,
            query,
            selected_key,
            sort,
            ascending,
            notice,
        };
        moved.load(load, false)
    }

    /// Goes up one level; `load` is the outcome of opening the folder
    /// `parent_target` names. At the top nothing changes.
    pub fn go_up(self, load: DirectoryLoad) -> (r: ExplorerState)
        ensures
            r@ == self@.after_up(load@),
            r@.selection_listed(),
    {
        proof {
            use_type_invariant(&self);
        }
        if !self.current.has_parent() {
            return self;
        }
        self.load(load, true)
    }

    /// Takes a new listing of the current folder, or the message of why it
    /// could not be read.
    pub fn refresh(self, listing: Result<Vec<FileEntry>, String>) -> (r: ExplorerState)
        ensures
            r@ == self@.after_refresh(listing_view(listing)),
            r@.selection_listed(),
    {
        proof {
            use_type_invariant(&self);
        }
        match listing {
            Ok(new_entries) => {
                let ExplorerState { current, back, forward, query, sort, ascending, .. } = self;
                ExplorerState {
                    current,
                    back,
                    forward,
                    entries: new_entries,
                    query,
                    selected_key: String::new(),
                    sort,
                    ascending,
                    notice: "Refreshed".to_owned(),
                }
            },
            Err(message) => self.noted(message),
        }
    }

    /// Takes the text typed into the search box.
    pub fn with_query(self, query: String) -> (r: ExplorerState)
        ensures
            r@ == self@.after_query(query@),
            r@.selection_listed(),
    {
        proof {
            use_type_invariant(&self);
        }
        if self.query == query {
            return self;
        }
        let ExplorerState { current, back, forward, entries, sort, ascending, .. } = self;
        ExplorerState {
            current,
            back,
            forward,
            entries,
            query,
            selected_key: String::new(),
            sort,
            ascending,
            notice: "Showing search results".to_owned(),
        }
    }

    /// Selects the row with `key` if it names a listed entry.
    pub fn select(self, key: String) -> (r: ExplorerState)
        ensures
            r@ == self@.after_select(key@),
            r@.selection_listed(),
    {
        proof {
            use_type_invariant(&self);
        }
        if !lists_key(&self.entries, &key) {
            return self;
        }
        let ExplorerState { current, back, forward, entries, query, sort, ascending, .. } = self;
        ExplorerState {
            current,
            back,
            forward,
            entries,
            query,
            selected_key: key,
            sort,
            ascending,
            notice: "Item selected".to_owned(),
        }
    }

    /// Sorts by the column whose header key is `key`.
    pub fn sort_by(self, key: String) -> (r: ExplorerState)
        ensures
            r@ == self@.after_sort(key@),
            r@.selection_listed(),
    {
        proof {
            use_type_invariant(&self);
        }
        let k = chars_of(key.as_str());
        let next = if text_is(&k, "name") {
            SortColumn::Name
        } else if text_is(&k, "modified") {
            SortColumn::Modified
        } else if text_is(&k, "kind") {
            SortColumn::Kind
        } else if text_is(&k, "size") {
            SortColumn::Size
        } else {
            return self;
        };
        let ExplorerState { current, back, forward, entries, query, selected_key, sort, ascending, .. } =
            self;
        let ascending = if sort == next {
            !ascending
        } else {
            true
        };
        let notice = if ascending {
            "Sorted ascending".to_owned()
        } else {
            "Sorted descending".to_owned()
        };
        ExplorerState {
            current,
            back,
            forward,
            entries,
            query,
            selected_key,
            sort: next,
            ascending,
            notice,
        }
    }

    /// Acts on the item at path `key`; `found` tells what is there and
    /// the outcome of opening it.
    pub fn activate(self, key: String, found: Activation) -> (r: ExplorerState)
        ensures
            r@ == self@.after_activate(key@, found@),
            r@.selection_listed(),
    {
        match found {
            Activation::Folder(load) => self.load(load, true),
            Activation::Opened => {
                let mut text = chars_of("Opened ");
                push_text(&mut text, key.as_str());
                self.noted(string_from(&text))
            },
            Activation::OpenFailed(message) => self.noted(message),
            Activation::Missing => self.noted("The selected item no longer exists".to_owned()),
        }
    }

    /// Acts on the selected item; `found` tells what is at its path.
    pub fn open_selected(self, found: Activation) -> (r: ExplorerState)
        ensures
            r@ == self@.after_open_selected(found@),
            r@.selection_listed(),
    {
        if self.selected_key.as_str().is_empty() {
            self.noted("Select an item to open".to_owned())
        } else {
            let key = copy_string(&self.selected_key);
            self.activate(key, found)
        }
    }

    /// The window title.
    pub fn title(&self) -> (r: String)
        ensures
            r@ == self@.title(),
    {
        match self.current.file_name() {
            Some(name) => name,
            None => self.current.text(),
        }
    }

    /// The text of the current folder's path.
    pub fn current_display(&self) -> (r: String)
        ensures
            r@ == self@.current.text(),
    {
        self.current.text()
    }

    /// The search box's placeholder.
    pub fn search_placeholder(&self) -> (r: String)
        ensures
            r@ == "Search "@ + self@.title(),
    {
        let mut text = chars_of("Search ");
        let title = self.title();
        push_text(&mut text, title.as_str());
        string_from(&text)
    }

    pub fn query(&self) -> (r: String)
        ensures
            r@ == self@.query,
    {
        copy_string(&self.query)
    }

    pub fn selected_key(&self) -> (r: String)
        ensures
            r@ == self@.selected_key,
    {
        copy_string(&self.selected_key)
    }

    pub fn can_back(&self) -> (r: bool)
        ensures
            r == (self@.back.len() > 0),
    {
        self.back.len() > 0
    }

    pub fn can_forward(&self) -> (r: bool)
        ensures
            r == (self@.forward.len() > 0),
    {
        self.forward.len() > 0
    }

    pub fn can_up(&self) -> (r: bool)
        ensures
            r == self@.current.parent() is Some,
    {
        self.current.has_parent()
    }

    /// The breadcrumb trail of the current folder.
    pub fn breadcrumbs(&self) -> (r: Vec<Location>)
        ensures
            location_views(r@) == compact_crumbs(self@.current.all_crumbs()),
    {
        self.current.breadcrumbs()
    }

    /// The sidebar: the folders under the user profile `profile` that
    /// exist (Home, Pictures, Documents, Downloads; none without a
    /// profile), the current folder as "💻 PC", then the drives `A:` to
    /// `Z:` that exist. `folder_exists` and `drive_exists` tell, in the
    /// order of `profile_folders` and `drive_roots`, which candidates
    /// exist.
    pub fn sidebar_locations(
        &self,
        profile: Option<String>,
        folder_exists: Vec<bool>,
        drive_exists: Vec<bool>,
    ) -> (r: Vec<Location>)
        ensures
            location_views(r@) == match profile {
                Some(p) => kept(profile_folder_views(p@), folder_exists@),
                None => Seq::<LocationView>::empty(),
            } + seq![LocationView { label: "💻 PC"@, path: self@.current.text() }] + kept(
                drive_root_views(),
                drive_exists@,
            ),
    {
        let mut r = match &profile {
            Some(p) => {
                let candidates = profile_folders(p.as_str());
                keep_flagged(&candidates, &folder_exists)
            },
            None => Vec::new(),
        };
        let ghost folders = location_views(r@);
        let pc = Location { label: "💻 PC".to_owned(), path: self.current.text() };
        r.push(pc);
        assert(location_views(r@) =~= folders.push(pc@));
        let ghost with_pc = r@;
        let roots = drive_roots();
        let mut drives = keep_flagged(&roots, &drive_exists);
        let ghost dv = location_views(drives@);
        r.append(&mut drives);
        assert(location_views(r@) =~= location_views(with_pc) + dv);
        assert(folders.push(pc@) =~= folders + seq![pc@]);
        r
    }

    /// The rows of the details table.
    pub fn rows(&self) -> (r: Vec<TableRow>)
        ensures
            r.len() == self@.visible(),
            self@.query.len() == 0 ==> r.len() == self@.entries.len(),
            exists|order: Seq<usize>|
                is_listing(keyed_lowercase(self@.entries), lowercase(self@.query), self@.sort, self@.ascending, order)
                    && row_views(r@) == rows_for(keyed_lowercase(self@.entries), order),
    {
        let r = listing_rows(&self.entries, &self.query, self.sort, self.ascending);
        assert(self@.entries == entry_views(self.entries@) && self@.query == self.query@);
        assert(self@.entries.len() == self.entries.len());
        r
    }

    /// The status bar text.
    pub fn status(&self) -> (r: String)
        ensures
            r@ == self@.status(),
    {
        let visible = self.rows().len();
        let mut text: Vec<char> = Vec::new();
        push_decimal(&mut text, visible as u128);
        push_text(&mut text, " items");
        if !self.selected_key.as_str().is_empty() {
            push_text(&mut text, "  |  1 item selected");
        }
        push_text(&mut text, "  |  ");
        push_text(&mut text, self.notice.as_str());
        assert(text@ =~= self@.status());
        string_from(&text)
    }
}

/// Going back and then forward again, when both folders open, returns to
/// the folder and the histories there were before.
pub proof fn lemma_back_then_forward(s: ExplorerView, first: Seq<EntryView>, second: Seq<EntryView>)
    requires
        s.back.len() > 0,
    ensures
        ({
            let there = s.after_back(LoadView::Opened(s.back.last(), first));
            let again = there.after_forward(LoadView::Opened(s.current, second));
            &&& there.current == s.back.last()
            &&& there.forward == s.forward.push(s.current)
            &&& again.current == s.current
            &&& again.back == s.back
            &&& again.forward == s.forward
        }),
{
    assert(s.back.drop_last().push(s.back.last()) =~= s.back);
    assert(s.forward.push(s.current).drop_last() =~= s.forward);
}

/// Going forward and then back again, when both folders open, returns to
/// the folder and the histories there were before.
pub proof fn lemma_forward_then_back(s: ExplorerView, first: Seq<EntryView>, second: Seq<EntryView>)
    requires
        s.forward.len() > 0,
    ensures
        ({
            let there = s.after_forward(LoadView::Opened(s.forward.last(), first));
            let again = there.after_back(LoadView::Opened(s.current, second));
            &&& there.current == s.forward.last()
            &&& again.current == s.current
            &&& again.back == s.back
            &&& again.forward == s.forward
        }),
{
    assert(s.forward.drop_last().push(s.forward.last()) =~= s.forward);
    assert(s.back.push(s.current).drop_last() =~= s.back);
}

/// Opening another folder and then going back returns to the folder that
/// was open, with the other folder waiting in the forward history.
pub proof fn lemma_navigate_then_back(
    s: ExplorerView,
    path: DirPathView,
    first: Seq<EntryView>,
    second: Seq<EntryView>,
)
    requires
        !path.same_path(s.current),
    ensures
        ({
            let there = s.after_load(LoadView::Opened(path, first), true);
            let again = there.after_back(LoadView::Opened(s.current, second));
            &&& there.current == path
            &&& there.back == s.back.push(s.current)
            &&& there.forward.len() == 0
            &&& again.current == s.current
            &&& again.back == s.back
            &&& again.forward == seq![path]
        }),
{
    assert(s.back.push(s.current).drop_last() =~= s.back);
    assert(Seq::<DirPathView>::empty().push(path) =~= seq![path]);
}

/// Opening the folder that is already open leaves both histories alone.
pub proof fn lemma_reopen_keeps_history(s: ExplorerView, entries: Seq<EntryView>, remember: bool)
    ensures
        s.after_load(LoadView::Opened(s.current, entries), remember).back == s.back,
        s.after_load(LoadView::Opened(s.current, entries), remember).forward == s.forward,
{
}

/// A folder that cannot be opened changes nothing but the message, for
/// every way of getting there.
pub proof fn lemma_failed_load_keeps_state(s: ExplorerView, message: Seq<char>)
    ensures
        s.after_load(LoadView::Failed(message), true) == s.with_notice(message),
        s.after_up(LoadView::Failed(message)).current == s.current,
        s.after_up(LoadView::Failed(message)).entries == s.entries,
        s.after_back(LoadView::Failed(message)).current == s.current,
        s.after_back(LoadView::Failed(message)).entries == s.entries,
        s.after_forward(LoadView::Failed(message)).current == s.current,
        s.after_forward(LoadView::Failed(message)).entries == s.entries,
{
}

/// Clicking the same column header twice sorts by that column and flips
/// the direction twice: the second click reverses the first.
pub proof fn lemma_sort_twice(s: ExplorerView, key: Seq<char>)
    requires
        column_named(key) is Some,
    ensures
        ({
            let column = column_named(key)->0;
            let once = s.after_sort(key);
            let twice = once.after_sort(key);
            &&& once.sort == column
            &&& twice.sort == column
            &&& twice.ascending == !once.ascending
            &&& (s.sort != column ==> once.ascending)
            &&& (s.sort == column ==> twice.ascending == s.ascending)
        }),
{
}

/// A longer search never adds rows: from the same state, when the lower
/// case of the search text `narrow` contains that of `wide`, the rows
/// shown after searching for `narrow` (as `rows` promises them) are, with
/// repetition, among those shown after searching for `wide`, and there
/// are no more of them.
pub proof fn lemma_longer_search_never_adds_rows(
    s: ExplorerView,
    wide: Seq<char>,
    narrow: Seq<char>,
    wide_rows: Seq<TableRowView>,
    narrow_rows: Seq<TableRowView>,
)
    requires
        text_contains(lowercase(narrow), lowercase(wide)),
        exists|order: Seq<usize>|
            is_listing(
                keyed_lowercase(s.after_query(wide).entries),
                lowercase(s.after_query(wide).query),
                s.after_query(wide).sort,
                s.after_query(wide).ascending,
                order,
            ) && wide_rows == rows_for(keyed_lowercase(s.after_query(wide).entries), order),
        exists|order: Seq<usize>|
            is_listing(
                keyed_lowercase(s.after_query(narrow).entries),
                lowercase(s.after_query(narrow).query),
                s.after_query(narrow).sort,
                s.after_query(narrow).ascending,
                order,
            ) && narrow_rows == rows_for(keyed_lowercase(s.after_query(narrow).entries), order),
    ensures
        narrow_rows.to_multiset().subset_of(wide_rows.to_multiset()),
        narrow_rows.len() <= wide_rows.len(),
{
    let ke = keyed_lowercase(s.entries);
    let wo = choose|order: Seq<usize>|
        is_listing(
            keyed_lowercase(s.after_query(wide).entries),
            lowercase(s.after_query(wide).query),
            s.after_query(wide).sort,
            s.after_query(wide).ascending,
            order,
        ) && wide_rows == rows_for(keyed_lowercase(s.after_query(wide).entries), order);
    let no = choose|order: Seq<usize>|
        is_listing(
            keyed_lowercase(s.after_query(narrow).entries),
            lowercase(s.after_query(narrow).query),
            s.after_query(narrow).sort,
            s.after_query(narrow).ascending,
            order,
        ) && narrow_rows == rows_for(keyed_lowercase(s.after_query(narrow).entries), order);
    lemma_longer_search_narrows(ke, lowercase(wide), lowercase(narrow), s.sort, s.ascending, wo, no);
}

/// Typing the same search text again changes nothing.
pub proof fn lemma_query_idempotent(s: ExplorerView, query: Seq<char>)
    ensures
        s.after_query(query).after_query(query) == s.after_query(query),
{
}

} // verus!
