use topcoat_explorer::entry::FileEntry;
use topcoat_explorer::explorer::{Activation, DirectoryLoad, ExplorerState};
use topcoat_explorer::listing::{listing_rows, listing_rows_keyed, SortColumn};
use topcoat_explorer::native::TableRow;
use topcoat_explorer::path::{DirPath, Location};

fn dir(names: &[&str]) -> DirPath {
    DirPath::new("C:".to_string(), true, names.iter().map(|n| n.to_string()).collect())
}

fn file(folder: &str, name: &str, size: u64, ticks: u64) -> FileEntry {
    FileEntry::new(format!("{folder}\\{name}"), name.to_string(), false, size, ticks, format!("t{ticks}"))
}

fn folder(folder: &str, name: &str, ticks: u64) -> FileEntry {
    FileEntry::new(format!("{folder}\\{name}"), name.to_string(), true, 0, ticks, format!("t{ticks}"))
}

fn home_entries() -> Vec<FileEntry> {
    vec![
        file("C:\\home", "zeta.txt", 10, 3),
        folder("C:\\home", "Docs", 1),
        file("C:\\home", "Alpha.md", 2000, 2),
        folder("C:\\home", "apps", 5),
        file("C:\\home", "beta.png", 10, 1),
    ]
}

fn home() -> ExplorerState {
    ExplorerState::initial(dir(&["home"]), home_entries())
}

fn names(rows: &[TableRow]) -> Vec<String> {
    rows.iter().map(|r| r.name.clone()).collect()
}

fn opened(names: &[&str], entries: Vec<FileEntry>) -> DirectoryLoad {
    DirectoryLoad::Opened(dir(names), entries)
}

#[test]
fn initial_state_lists_by_name() {
    let s = home();
    assert_eq!(s.current_display(), "C:\\home");
    assert_eq!(s.title(), "home");
    assert_eq!(s.search_placeholder(), "Search home");
    assert_eq!(s.query(), "");
    assert_eq!(s.selected_key(), "");
    assert!(!s.can_back());
    assert!(!s.can_forward());
    assert!(s.can_up());
    assert_eq!(s.status(), "5 items  |  Read-only mode");
    assert_eq!(names(&s.rows()), vec!["apps", "Docs", "Alpha.md", "beta.png", "zeta.txt"]);
}

#[test]
fn rows_show_every_column() {
    let rows = home().rows();
    assert_eq!(
        rows[2],
        TableRow::new(
            "C:\\home\\Alpha.md".to_string(),
            "Alpha.md".to_string(),
            "t2".to_string(),
            "Markdown file".to_string(),
            "2 KB".to_string(),
            "📄".to_string(),
        )
    );
}

#[test]
fn title_of_a_drive_root_is_its_path() {
    let s = ExplorerState::initial(dir(&[]), Vec::new());
    assert_eq!(s.title(), "C:\\");
    assert_eq!(s.search_placeholder(), "Search C:\\");
    assert!(!s.can_up());
    assert_eq!(s.status(), "0 items  |  Read-only mode");
}

#[test]
fn search_filters_case_insensitively() {
    let s = home().with_query("A".to_string());
    assert_eq!(names(&s.rows()), vec!["apps", "Alpha.md", "beta.png", "zeta.txt"]);
    assert_eq!(s.status(), "4 items  |  Showing search results");
    let s = s.with_query("P".to_string());
    assert_eq!(names(&s.rows()), vec!["apps", "Alpha.md", "beta.png"]);
    let s = s.with_query("ZETA".to_string());
    assert_eq!(names(&s.rows()), vec!["zeta.txt"]);
    let s = s.with_query("nothing".to_string());
    assert!(s.rows().is_empty());
}

#[test]
fn typing_the_same_search_changes_nothing() {
    let s = home().select("C:\\home\\Docs".to_string());
    let again = s.clone().with_query(String::new());
    assert_eq!(again, s);
    let once = home().with_query("a".to_string());
    assert_eq!(once.clone().with_query("a".to_string()), once);
}

#[test]
fn a_new_search_clears_the_selection() {
    let s = home().select("C:\\home\\Docs".to_string()).with_query("d".to_string());
    assert_eq!(s.selected_key(), "");
}

#[test]
fn selecting_needs_a_listed_key() {
    let s = home().select("C:\\home\\Docs".to_string());
    assert_eq!(s.selected_key(), "C:\\home\\Docs");
    assert_eq!(s.status(), "5 items  |  1 item selected  |  Item selected");
    let same = s.clone().select("C:\\elsewhere".to_string());
    assert_eq!(same, s);
}

#[test]
fn sorting_by_a_new_column_is_ascending() {
    let s = home().sort_by("size".to_string());
    assert_eq!(names(&s.rows()), vec!["Docs", "apps", "zeta.txt", "beta.png", "Alpha.md"]);
    assert_eq!(s.status(), "5 items  |  Sorted ascending");
}

#[test]
fn sorting_the_same_column_again_reverses_it() {
    let s = home().sort_by("name".to_string());
    assert_eq!(s.status(), "5 items  |  Sorted descending");
    assert_eq!(names(&s.rows()), vec!["Docs", "apps", "zeta.txt", "beta.png", "Alpha.md"]);
    let s = s.sort_by("name".to_string());
    assert_eq!(s.status(), "5 items  |  Sorted ascending");
    assert_eq!(names(&s.rows()), vec!["apps", "Docs", "Alpha.md", "beta.png", "zeta.txt"]);
}

#[test]
fn sorting_by_time_and_type() {
    let s = home().sort_by("modified".to_string());
    assert_eq!(names(&s.rows()), vec!["Docs", "apps", "beta.png", "Alpha.md", "zeta.txt"]);
    let s = s.sort_by("kind".to_string());
    assert_eq!(names(&s.rows()), vec!["Docs", "apps", "beta.png", "Alpha.md", "zeta.txt"]);
    let s = s.sort_by("kind".to_string());
    assert_eq!(names(&s.rows()), vec!["Docs", "apps", "zeta.txt", "Alpha.md", "beta.png"]);
}

#[test]
fn ties_keep_the_listing_order_in_both_directions() {
    let s = home().sort_by("size".to_string());
    let rows = names(&s.rows());
    assert_eq!(&rows[2..4], &["zeta.txt".to_string(), "beta.png".to_string()]);
    let s = s.sort_by("size".to_string());
    assert_eq!(names(&s.rows()), vec!["Docs", "apps", "Alpha.md", "zeta.txt", "beta.png"]);
}

#[test]
fn unknown_sort_keys_change_nothing() {
    let s = home();
    assert_eq!(s.clone().sort_by("colour".to_string()), s);
}

#[test]
fn navigating_pushes_history() {
    let s = home().navigate(opened(&["home", "Docs"], vec![file("C:\\home\\Docs", "a.txt", 1, 1)]));
    assert_eq!(s.current_display(), "C:\\home\\Docs");
    assert!(s.can_back());
    assert!(!s.can_forward());
    assert_eq!(s.back_target(), Some("C:\\home".to_string()));
    assert_eq!(s.status(), "1 items  |  Folder opened");
}

#[test]
fn navigating_to_the_same_folder_keeps_history() {
    let s = home().navigate(opened(&["home"], home_entries()));
    assert!(!s.can_back());
    assert_eq!(s.status(), "5 items  |  Folder opened");
}

#[test]
fn navigating_clears_search_and_selection() {
    let s = home().with_query("a".to_string()).select("C:\\home\\apps".to_string());
    let s = s.navigate(opened(&["other"], Vec::new()));
    assert_eq!(s.query(), "");
    assert_eq!(s.selected_key(), "");
}

#[test]
fn failed_navigation_only_reports() {
    let s = home().select("C:\\home\\apps".to_string());
    let after = s.clone().navigate(DirectoryLoad::Failed("Cannot open X: denied".to_string()));
    assert_eq!(after.current_display(), "C:\\home");
    assert_eq!(after.selected_key(), "C:\\home\\apps");
    assert_eq!(after.status(), "5 items  |  1 item selected  |  Cannot open X: denied");
}

#[test]
fn back_then_forward_returns() {
    let s = home().navigate(opened(&["home", "Docs"], Vec::new()));
    let back = s.clone().go_back(opened(&["home"], home_entries()));
    assert_eq!(back.current_display(), "C:\\home");
    assert!(!back.can_back());
    assert_eq!(back.forward_target(), Some("C:\\home\\Docs".to_string()));
    let forward = back.go_forward(opened(&["home", "Docs"], Vec::new()));
    assert_eq!(forward.current_display(), "C:\\home\\Docs");
    assert_eq!(forward.back_target(), Some("C:\\home".to_string()));
    assert!(!forward.can_forward());
}

#[test]
fn going_back_without_history_changes_nothing() {
    let s = home();
    assert_eq!(s.clone().go_back(opened(&["x"], Vec::new())), s);
    assert_eq!(s.clone().go_forward(opened(&["x"], Vec::new())), s);
}

#[test]
fn failed_back_still_moves_the_history() {
    let s = home().navigate(opened(&["home", "Docs"], Vec::new()));
    let back = s.go_back(DirectoryLoad::Failed("gone".to_string()));
    assert_eq!(back.current_display(), "C:\\home\\Docs");
    assert!(!back.can_back());
    assert_eq!(back.forward_target(), Some("C:\\home\\Docs".to_string()));
    assert_eq!(back.status(), "0 items  |  gone");
}

#[test]
fn going_up_opens_the_parent() {
    let s = ExplorerState::initial(dir(&["home", "Docs"]), Vec::new());
    assert_eq!(s.parent_target(), Some("C:\\home".to_string()));
    let up = s.go_up(opened(&["home"], home_entries()));
    assert_eq!(up.current_display(), "C:\\home");
    assert_eq!(up.back_target(), Some("C:\\home\\Docs".to_string()));
    let top = ExplorerState::initial(dir(&[]), Vec::new());
    assert_eq!(top.parent_target(), None);
    assert_eq!(top.clone().go_up(opened(&["x"], Vec::new())), top);
}

#[test]
fn refresh_takes_the_new_listing() {
    let s = home().select("C:\\home\\apps".to_string());
    let fresh = s.clone().refresh(Ok(vec![file("C:\\home", "new.txt", 1, 1)]));
    assert_eq!(names(&fresh.rows()), vec!["new.txt"]);
    assert_eq!(fresh.selected_key(), "");
    assert_eq!(fresh.status(), "1 items  |  Refreshed");
    let failed = s.refresh(Err("Cannot read C:\\home: gone".to_string()));
    assert_eq!(failed.selected_key(), "C:\\home\\apps");
    assert_eq!(failed.status(), "5 items  |  1 item selected  |  Cannot read C:\\home: gone");
}

#[test]
fn activating_items() {
    let s = home();
    let opened_file = s.clone().activate("C:\\home\\zeta.txt".to_string(), Activation::Opened);
    assert_eq!(opened_file.status(), "5 items  |  Opened C:\\home\\zeta.txt");
    let failed = s.clone().activate("C:\\home\\zeta.txt".to_string(), Activation::OpenFailed("no app".to_string()));
    assert_eq!(failed.status(), "5 items  |  no app");
    let missing = s.clone().activate("C:\\home\\gone".to_string(), Activation::Missing);
    assert_eq!(missing.status(), "5 items  |  The selected item no longer exists");
    let into = s.activate("C:\\home\\Docs".to_string(), Activation::Folder(opened(&["home", "Docs"], Vec::new())));
    assert_eq!(into.current_display(), "C:\\home\\Docs");
    assert!(into.can_back());
}

#[test]
fn opening_needs_a_selection() {
    let s = home().open_selected(Activation::Missing);
    assert_eq!(s.status(), "5 items  |  Select an item to open");
    let s = home()
        .select("C:\\home\\Docs".to_string())
        .open_selected(Activation::Folder(opened(&["home", "Docs"], Vec::new())));
    assert_eq!(s.current_display(), "C:\\home\\Docs");
}

#[test]
fn breadcrumbs_of_the_current_folder() {
    let s = ExplorerState::initial(dir(&["home", "Docs"]), Vec::new());
    let crumbs = s.breadcrumbs();
    assert_eq!(crumbs.len(), 3);
    assert_eq!(crumbs[2], Location { label: "Docs".to_string(), path: "C:\\home\\Docs".to_string() });
}

#[test]
fn sidebar_puts_the_pc_between_folders_and_drives() {
    let s = home();
    let mut drives = vec![false; 26];
    drives[2] = true;
    drives[3] = true;
    let side = s.sidebar_locations(Some("C:\\Users\\me".to_string()), vec![true, false, true, false], drives);
    assert_eq!(
        side,
        vec![
            Location { label: "🏠 Home".to_string(), path: "C:\\Users\\me".to_string() },
            Location { label: "📄 Documents".to_string(), path: "C:\\Users\\me\\Documents".to_string() },
            Location { label: "💻 PC".to_string(), path: "C:\\home".to_string() },
            Location { label: "▣ C:".to_string(), path: "C:\\".to_string() },
            Location { label: "▣ D:".to_string(), path: "D:\\".to_string() },
        ]
    );
}

#[test]
fn sidebar_without_a_profile_has_no_folders() {
    let s = home();
    let side = s.sidebar_locations(None, vec![true; 4], vec![false; 26]);
    assert_eq!(side, vec![Location { label: "💻 PC".to_string(), path: "C:\\home".to_string() }]);
}

#[test]
fn sidebar_candidates_without_a_flag_are_missing() {
    let s = home();
    let side = s.sidebar_locations(Some("C:\\Users\\me".to_string()), vec![true], vec![true]);
    assert_eq!(
        side,
        vec![
            Location { label: "🏠 Home".to_string(), path: "C:\\Users\\me".to_string() },
            Location { label: "💻 PC".to_string(), path: "C:\\home".to_string() },
            Location { label: "▣ A:".to_string(), path: "A:\\".to_string() },
        ]
    );
}

#[test]
fn drive_letter_case_does_not_make_a_new_folder() {
    let s = home().navigate(DirectoryLoad::Opened(
        DirPath::new("c:".to_string(), true, vec!["home".to_string()]),
        home_entries(),
    ));
    assert!(!s.can_back());
    assert_eq!(s.current_display(), "c:\\home");
}

#[test]
fn an_empty_search_shows_every_entry() {
    let s = home().with_query("zzz".to_string());
    assert!(s.rows().len() < home_entries().len());
    let s = s.with_query(String::new());
    assert_eq!(s.rows().len(), home_entries().len());
}

#[test]
fn a_longer_search_never_adds_rows() {
    let wide = home().with_query("o".to_string()).rows();
    let narrow = home().with_query("OC".to_string()).rows();
    assert!(narrow.len() <= wide.len());
    assert!(narrow.iter().all(|r| wide.contains(r)));
}

#[test]
fn folders_always_come_first() {
    for key in ["name", "modified", "kind", "size"] {
        for _ in 0..2 {
            let s = home().sort_by(key.to_string());
            let rows = s.rows();
            let first_file = rows.iter().position(|r| r.kind != "File folder").unwrap();
            assert!(rows[first_file..].iter().all(|r| r.kind != "File folder"));
        }
    }
}

#[test]
fn keyed_listing_uses_the_given_keys() {
    let entries = vec![file("C:\\k", "B.txt", 1, 1), file("C:\\k", "a.txt", 1, 1), file("C:\\k", "C.txt", 1, 1)];
    let keys = vec!["zz".to_string(), "yy".to_string(), "xx".to_string()];
    let rows = listing_rows_keyed(&entries, &keys, &String::new(), SortColumn::Name, true);
    assert_eq!(names(&rows), vec!["C.txt", "a.txt", "B.txt"]);
    let rows = listing_rows_keyed(&entries, &keys, &"y".to_string(), SortColumn::Name, true);
    assert_eq!(names(&rows), vec!["a.txt"]);
    let rows = listing_rows(&entries, &"T".to_string(), SortColumn::Name, false);
    assert_eq!(names(&rows), vec!["C.txt", "B.txt", "a.txt"]);
}
