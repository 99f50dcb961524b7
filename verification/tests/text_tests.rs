use topcoat_explorer::entry::{file_icon, file_kind, format_size, format_timestamp, path_key, FileEntry};
use topcoat_explorer::native::{selected_row_index, Event, TableRow, TapTracker};
use topcoat_explorer::path::{drive_roots, profile_folders, user_facing_path, DirPath, Location};

fn dir(prefix: &str, names: &[&str]) -> DirPath {
    DirPath::new(prefix.to_string(), true, names.iter().map(|n| n.to_string()).collect())
}

fn loc(label: &str, path: &str) -> Location {
    Location { label: label.to_string(), path: path.to_string() }
}

#[test]
fn sizes_below_a_kilobyte_show_bytes() {
    assert_eq!(format_size(0), "0 B");
    assert_eq!(format_size(7), "7 B");
    assert_eq!(format_size(1023), "1023 B");
}

#[test]
fn kilobytes_round_up() {
    assert_eq!(format_size(1024), "1 KB");
    assert_eq!(format_size(1025), "2 KB");
    assert_eq!(format_size(1536), "2 KB");
    assert_eq!(format_size(1048575), "1024 KB");
}

#[test]
fn megabytes_show_one_decimal() {
    assert_eq!(format_size(1048576), "1.0 MB");
    assert_eq!(format_size(1572864), "1.5 MB");
    assert_eq!(format_size(123456789), "117.7 MB");
}

#[test]
fn halfway_tenths_round_to_even() {
    assert_eq!(format_size(1310720), "1.2 MB");
    assert_eq!(format_size(1835008), "1.8 MB");
    assert_eq!(format_size(1342177280), "1.2 GB");
}

#[test]
fn gigabytes_show_one_decimal() {
    assert_eq!(format_size(1073741824), "1.0 GB");
    assert_eq!(format_size(1610612736), "1.5 GB");
    assert_eq!(format_size(1449551462), "1.3 GB");
}

#[test]
fn huge_sizes_follow_the_float_value() {
    assert_eq!(format_size(u64::MAX), "17179869184.0 GB");
    assert_eq!(format_size(9007199254740993), "8388608.0 GB");
    assert_eq!(format_size(18014398509481990), "16777216.0 GB");
}

#[test]
fn timestamps_are_zero_padded() {
    assert_eq!(format_timestamp(2024, 3, 5, 9, 7), "2024/03/05 09:07");
    assert_eq!(format_timestamp(987, 12, 31, 23, 59), "0987/12/31 23:59");
    assert_eq!(format_timestamp(12345, 10, 10, 0, 0), "12345/10/10 00:00");
}

#[test]
fn kinds_follow_the_extension_in_any_case() {
    assert_eq!(file_kind("setup.EXE", false), "Application");
    assert_eq!(file_kind("core.dll", false), "Application extension");
    assert_eq!(file_kind("main.rs", false), "Rust source file");
    assert_eq!(file_kind("Cargo.toml", false), "TOML file");
    assert_eq!(file_kind("README.md", false), "Markdown file");
    assert_eq!(file_kind("notes.txt", false), "Text document");
    assert_eq!(file_kind("photo.JPeG", false), "Image file");
    assert_eq!(file_kind("a.webp", false), "Image file");
    assert_eq!(file_kind("b.7z", false), "Compressed archive");
    assert_eq!(file_kind("data.json", false), "JSON file");
    assert_eq!(file_kind("archive.tar.gz", false), "File");
}

#[test]
fn names_without_extension_are_plain_files() {
    assert_eq!(file_kind(".gitignore", false), "File");
    assert_eq!(file_kind("Makefile", false), "File");
    assert_eq!(file_kind("trailing.", false), "File");
    assert_eq!(file_kind("..", false), "File");
    assert_eq!(file_kind(".config.json", false), "JSON file");
}

#[test]
fn folders_are_file_folders() {
    assert_eq!(file_kind("photos.png", true), "File folder");
    assert_eq!(file_icon("photos.png", true), "📁");
}

#[test]
fn icons_follow_the_extension() {
    assert_eq!(file_icon("a.PNG", false), "🖼");
    assert_eq!(file_icon("a.rar", false), "🗜");
    assert_eq!(file_icon("a.exe", false), "▣");
    assert_eq!(file_icon("a.txt", false), "📄");
}

#[test]
fn entries_hide_folder_sizes() {
    let folder = FileEntry::new("C:\\a\\docs".to_string(), "docs".to_string(), true, 4096, 5, "2024/01/01 10:00".to_string());
    let row = folder.table_row();
    assert_eq!(folder.size(), 0);
    assert_eq!(row, TableRow::new("C:\\a\\docs".to_string(), "docs".to_string(), "2024/01/01 10:00".to_string(), "File folder".to_string(), String::new(), "📁".to_string()));
    let file = FileEntry::new("C:\\a\\x.zip".to_string(), "x.zip".to_string(), false, 2048, 9, "m".to_string());
    assert_eq!(file.table_row().size, "2 KB");
    assert_eq!(file.table_row().kind, "Compressed archive");
    assert_eq!(file.table_row().icon, "🗜");
    assert_eq!(file.size(), 2048);
}

#[test]
fn path_keys_are_the_path_text() {
    assert_eq!(path_key("C:\\Users\\a b"), "C:\\Users\\a b");
}

#[test]
fn verbatim_prefixes_are_stripped() {
    assert_eq!(user_facing_path("\\\\?\\C:\\Users\\me".to_string()), "C:\\Users\\me");
    assert_eq!(user_facing_path("\\\\?\\UNC\\server\\share\\dir".to_string()), "\\\\server\\share\\dir");
    assert_eq!(user_facing_path("C:\\plain".to_string()), "C:\\plain");
    assert_eq!(user_facing_path("\\\\server\\share".to_string()), "\\\\server\\share");
    assert_eq!(user_facing_path("\\\\?".to_string()), "\\\\?");
}

#[test]
fn path_text_joins_parts() {
    assert_eq!(dir("C:", &[]).text(), "C:\\");
    assert_eq!(dir("C:", &["Users", "me"]).text(), "C:\\Users\\me");
    assert_eq!(dir("\\\\server\\share", &["dir"]).text(), "\\\\server\\share\\dir");
    assert_eq!(DirPath::new("C:".to_string(), false, vec!["a".to_string(), "b".to_string()]).text(), "C:a\\b");
    assert_eq!(DirPath::new(String::new(), false, vec!["a".to_string(), "b".to_string()]).text(), "a\\b");
}

#[test]
fn parents_drop_the_last_name() {
    let p = dir("C:", &["Users", "me"]);
    assert!(p.has_parent());
    assert_eq!(p.parent().unwrap().text(), "C:\\Users");
    assert_eq!(dir("C:", &["Users"]).parent().unwrap().text(), "C:\\");
    assert!(dir("C:", &[]).parent().is_none());
    assert!(!dir("C:", &[]).has_parent());
}

#[test]
fn file_names_are_the_last_part() {
    assert_eq!(dir("C:", &["Users", "me"]).file_name(), Some("me".to_string()));
    assert_eq!(dir("C:", &[]).file_name(), None);
}

#[test]
fn short_breadcrumb_trails_are_complete() {
    let crumbs = dir("C:", &["Users", "me"]).breadcrumbs();
    assert_eq!(crumbs, vec![loc("C:", "C:"), loc("Users", "C:\\Users"), loc("me", "C:\\Users\\me")]);
}

#[test]
fn long_breadcrumb_trails_keep_first_and_last_five() {
    let crumbs = dir("C:", &["a", "b", "c", "d", "e", "f"]).breadcrumbs();
    assert_eq!(
        crumbs,
        vec![
            loc("C:", "C:"),
            loc("b", "C:\\a\\b"),
            loc("c", "C:\\a\\b\\c"),
            loc("d", "C:\\a\\b\\c\\d"),
            loc("e", "C:\\a\\b\\c\\d\\e"),
            loc("f", "C:\\a\\b\\c\\d\\e\\f"),
        ]
    );
    assert_eq!(dir("C:", &["a", "b", "c", "d", "e"]).breadcrumbs().len(), 6);
}

#[test]
fn breadcrumbs_without_prefix_start_at_the_first_name() {
    let crumbs = dir("", &["srv"]).breadcrumbs();
    assert_eq!(crumbs, vec![loc("srv", "\\srv")]);
}

#[test]
fn profile_folders_are_joined_to_the_profile() {
    let folders = profile_folders("C:\\Users\\me");
    assert_eq!(
        folders,
        vec![
            loc("🏠 Home", "C:\\Users\\me"),
            loc("🖼 Pictures", "C:\\Users\\me\\Pictures"),
            loc("📄 Documents", "C:\\Users\\me\\Documents"),
            loc("⬇ Downloads", "C:\\Users\\me\\Downloads"),
        ]
    );
    assert_eq!(profile_folders("D:\\")[1].path, "D:\\Pictures");
    assert_eq!(profile_folders("D:")[2].path, "D:Documents");
}

#[test]
fn drive_roots_cover_the_alphabet() {
    let drives = drive_roots();
    assert_eq!(drives.len(), 26);
    assert_eq!(drives[0], loc("▣ A:", "A:\\"));
    assert_eq!(drives[2], loc("▣ C:", "C:\\"));
    assert_eq!(drives[25], loc("▣ Z:", "Z:\\"));
}

#[test]
fn table_rows_keep_their_fields() {
    let row = TableRow::new("k".to_string(), "n".to_string(), "m".to_string(), "t".to_string(), "s".to_string(), "i".to_string());
    assert_eq!(row.key, "k");
    assert_eq!(row.name, "n");
    assert_eq!(row.modified, "m");
    assert_eq!(row.kind, "t");
    assert_eq!(row.size, "s");
    assert_eq!(row.icon, "i");
}

#[test]
fn events_carry_their_value() {
    assert_eq!(Event::click().target.value, "");
    assert_eq!(Event::input("abc".to_string()).target.value, "abc");
    assert_eq!(Event::click(), Event::default());
}

#[test]
fn the_selected_row_is_the_first_with_its_key() {
    let row = |k: &str| TableRow::new(k.to_string(), String::new(), String::new(), String::new(), String::new(), String::new());
    let rows = vec![row("a"), row("b"), row("b")];
    assert_eq!(selected_row_index(&rows, &"b".to_string()), Some(1));
    assert_eq!(selected_row_index(&rows, &"a".to_string()), Some(0));
    assert_eq!(selected_row_index(&rows, &"c".to_string()), None);
    assert_eq!(selected_row_index(&Vec::new(), &String::new()), None);
}

#[test]
fn a_second_quick_tap_activates() {
    let mut taps = TapTracker::new();
    assert!(!taps.tap("a".to_string(), 1_000));
    assert!(taps.tap("a".to_string(), 1_000 + 650_000_000));
    assert!(!taps.tap("a".to_string(), 1_000 + 650_000_001));
    assert!(taps.tap("a".to_string(), 1_000 + 650_000_002));
}

#[test]
fn slow_or_different_taps_do_not_activate() {
    let mut taps = TapTracker::new();
    assert!(!taps.tap("a".to_string(), 0));
    assert!(!taps.tap("a".to_string(), 650_000_001));
    assert!(!taps.tap("b".to_string(), 650_000_002));
    assert!(!taps.tap("a".to_string(), 650_000_003));
    assert!(taps.tap("a".to_string(), 5));
}

fn float_size(bytes: u64) -> String {
    let kb: u64 = 1024;
    let mb: u64 = 1024 * kb;
    let gb: u64 = 1024 * mb;
    if bytes >= gb {
        format!("{:.1} GB", bytes as f64 / gb as f64)
    } else if bytes >= mb {
        format!("{:.1} MB", bytes as f64 / mb as f64)
    } else if bytes >= kb {
        format!("{} KB", bytes.div_ceil(kb))
    } else {
        format!("{bytes} B")
    }
}

#[test]
fn sizes_agree_with_float_formatting_near_tenths() {
    let mb: u64 = 1 << 20;
    let gb: u64 = 1 << 30;
    for unit in [mb, gb] {
        for whole in 1u64..40 {
            for tenth in 0u64..10 {
                let centre = whole * unit + (2 * tenth + 1) * unit / 20;
                for delta in 0u64..8 {
                    for b in [centre - delta, centre + delta] {
                        assert_eq!(format_size(b), float_size(b), "bytes = {b}");
                    }
                }
            }
        }
    }
}

#[test]
fn sizes_agree_with_float_formatting_across_the_range() {
    let mut state: u64 = 0x9e37_79b9_7f4a_7c15;
    for i in 0..200_000u64 {
        state = state.wrapping_mul(6364136223846793005).wrapping_add(1442695040888963407);
        let b = state >> (i % 64);
        assert_eq!(format_size(b), float_size(b), "bytes = {b}");
    }
}

#[test]
fn share_roots_show_only_a_written_separator() {
    let bare = DirPath::new("\\\\server\\share".to_string(), false, Vec::new());
    assert_eq!(bare.text(), "\\\\server\\share");
    assert!(!bare.has_parent());
    let written = DirPath::new("\\\\server\\share".to_string(), true, Vec::new());
    assert_eq!(written.text(), "\\\\server\\share\\");
    let below = DirPath::new("\\\\server\\share".to_string(), false, vec!["dir".to_string()]);
    assert_eq!(below.text(), "\\\\server\\share\\dir");
    assert_eq!(below.breadcrumbs(), vec![loc("\\\\server\\share", "\\\\server\\share"), loc("dir", "\\\\server\\share\\dir")]);
}

#[test]
fn only_a_plain_drive_joins_without_separator() {
    assert_eq!(profile_folders("D:")[1].path, "D:Pictures");
    assert_eq!(profile_folders("\\\\?\\D:")[1].path, "\\\\?\\D:\\Pictures");
    assert_eq!(DirPath::new("\\\\?\\C:".to_string(), false, vec!["a".to_string()]).text(), "\\\\?\\C:\\a");
}

#[test]
fn paths_compare_as_the_standard_library_does() {
    assert!(dir("c:", &["x"]).same_as(&dir("C:", &["x"])));
    assert!(!dir("C:", &["X"]).same_as(&dir("C:", &["x"])));
    assert!(!DirPath::new("C:".to_string(), false, Vec::new()).same_as(&dir("C:", &[])));
    let bare = DirPath::new("\\\\server\\share".to_string(), false, Vec::new());
    assert!(bare.same_as(&dir("\\\\server\\share", &[])));
    assert!(dir("//server/share", &["a"]).same_as(&dir("\\\\server\\share", &["a"])));
    assert!(!dir("\\\\server\\other", &["a"]).same_as(&dir("\\\\server\\share", &["a"])));
    assert!(dir("\\\\?\\c:", &["a"]).same_as(&dir("\\\\?\\C:", &["a"])));
    assert!(!dir("\\\\?\\C:", &["a"]).same_as(&dir("C:", &["a"])));
    assert!(!dir("", &["a"]).same_as(&dir("C:", &["a"])));
}
