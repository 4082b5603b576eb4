use zenity_rs::color::rgb;
use zenity_rs::events::{
    CursorPos, KeyEvent, Modifiers, ScrollDirection, WindowEvent, KEY_BACKSPACE, KEY_DOWN,
    KEY_ESCAPE, KEY_RETURN, KEY_UP,
};
use zenity_rs::file_select::{
    arrange_entries, file_icon_color, format_age, format_date,
    is_usb_device, matches_any_filter, matches_pattern, mount_icon, navigate_to,
    parse_mount_table, quick_access_from, truncate_name, update_filtered, volume_label, DirEntry,
    FileFilter, FileSelectBuilder, FileSelectResult, FileSelectState, FileSelectStep, MountIcon,
    NavButton, QuickAccessIcon,
};

fn file(name: &str) -> DirEntry {
    DirEntry {
        name: name.to_string(),
        path: format!("/d/{name}"),
        is_dir: false,
        size: 10,
        modified: Some(0),
    }
}

fn dir(name: &str) -> DirEntry {
    DirEntry {
        name: name.to_string(),
        path: format!("/d/{name}"),
        is_dir: true,
        size: 0,
        modified: None,
    }
}

fn names(v: &[DirEntry]) -> Vec<String> {
    v.iter().map(|e| e.name.clone()).collect()
}

fn filter(name: &str, patterns: &[&str]) -> FileFilter {
    FileFilter {
        name: name.to_string(),
        patterns: patterns.iter().map(|p| p.to_string()).collect(),
    }
}

#[test]
fn exit_codes_of_file_results() {
    assert_eq!(FileSelectResult::Selected("/a".to_string()).exit_code(), 0);
    assert_eq!(FileSelectResult::SelectedMultiple(vec![]).exit_code(), 0);
    assert_eq!(FileSelectResult::Cancelled.exit_code(), 1);
    assert_eq!(FileSelectResult::Closed.exit_code(), 255);
}

#[test]
fn pattern_star_matches_everything() {
    assert!(matches_pattern("anything.bin", "*"));
    assert!(matches_pattern("", "*"));
}

#[test]
fn pattern_forms() {
    assert!(matches_pattern("main.rs", "*.rs"));
    assert!(!matches_pattern("main.rsx", "*.rs"));
    assert!(matches_pattern("readme.md", "read*"));
    assert!(!matches_pattern("xreadme.md", "read*"));
    assert!(matches_pattern("my_notes.txt", "*note*"));
    assert!(!matches_pattern("my_nots.txt", "*note*"));
    assert!(matches_pattern("makefile", "makefile"));
    assert!(!matches_pattern("makefile2", "makefile"));
}

#[test]
fn pattern_is_lower_cased() {
    // The name is expected lower-cased already; the pattern is lower-cased here.
    assert!(matches_pattern("photo.jpg", "*.JPG"));
    assert!(!matches_pattern("photo.JPG", "*.jpg"));
}

#[test]
fn any_filter_lower_cases_the_name() {
    let filters = vec![filter("Rust", &["*.rs"]), filter("Images", &["*.png", "*.jpg"])];
    assert!(matches_any_filter("Main.RS", &filters));
    assert!(matches_any_filter("a.JPG", &filters));
    assert!(!matches_any_filter("notes.txt", &filters));
    assert!(!matches_any_filter("x.rs", &vec![filter("Empty", &[])]));
}

#[test]
fn truncate_name_shortens_long_names() {
    assert_eq!(truncate_name("short", 18), "short");
    assert_eq!(truncate_name("exactly18charsxxxx", 18), "exactly18charsxxxx");
    assert_eq!(truncate_name("a_rather_long_file_name.txt", 18), "a_rather_long_f...");
    assert_eq!(truncate_name("héllo wörld", 8), "héllo...");
}

#[test]
fn format_age_steps() {
    assert_eq!(format_age(None, 1000), "-");
    assert_eq!(format_age(Some(1000), 1030), "Just now");
    assert_eq!(format_age(Some(2000), 1000), "Just now");
    assert_eq!(format_age(Some(1000), 1000 + 120), "2 min ago");
    assert_eq!(format_age(Some(0), 7200), "2 hrs ago");
    assert_eq!(format_age(Some(0), 3 * 86400), "3 days ago");
    // A week or more: the year, counting 365-day years from 1970.
    assert_eq!(format_age(Some(0), 604800), "1970");
    assert_eq!(format_age(Some(1_700_000_000), 1_800_000_000), "2023");
}

#[test]
fn format_date_uses_the_clock() {
    assert_eq!(format_date(None), "-");
    // A time far in the future is never older than a minute.
    assert_eq!(format_date(Some(u64::MAX)), "Just now");
    // The epoch itself lies more than a week back: its year is shown.
    assert_eq!(format_date(Some(0)), "1970");
}

#[test]
fn arrange_puts_parent_then_dirs_then_files() {
    let raw = vec![file("b.txt"), dir("Zeta"), file("A.txt"), dir("alpha"), dir(".git"), file(".hidden")];
    let r = arrange_entries(&raw, Some("/".to_string()), false, false);
    assert_eq!(names(&r), vec!["..", "alpha", "Zeta", "A.txt", "b.txt"]);
    assert_eq!(r[0].path, "/");
    assert!(r[0].is_dir);
    assert_eq!(r[0].size, 0);
    assert_eq!(r[0].modified, None);
    assert_eq!(r[2].path, "/d/Zeta");
}

#[test]
fn arrange_shows_hidden_when_asked() {
    let raw = vec![file("b"), dir(".git"), file(".hidden")];
    let r = arrange_entries(&raw, None, false, true);
    assert_eq!(names(&r), vec![".git", ".hidden", "b"]);
}

#[test]
fn arrange_directories_only() {
    let raw = vec![file("b"), dir("d2"), dir("D1"), file("a")];
    let r = arrange_entries(&raw, None, true, false);
    assert_eq!(names(&r), vec!["D1", "d2"]);
}

#[test]
fn arrange_keeps_reading_order_for_equal_keys() {
    let mut first = file("Same");
    first.path = "/first".to_string();
    let mut second = file("same");
    second.path = "/second".to_string();
    let raw = vec![first, second, file("a")];
    let r = arrange_entries(&raw, None, false, false);
    assert_eq!(names(&r), vec!["a", "Same", "same"]);
    assert_eq!(r[1].path, "/first");
    assert_eq!(r[2].path, "/second");
}

#[test]
fn filtering_keeps_directories() {
    let all = vec![dir(".."), dir("src"), file("main.rs"), file("README.md"), file("notes.txt")];
    let filters = vec![filter("Rust", &["*.rs"])];
    assert_eq!(update_filtered(&all, "", &filters), vec![0, 1, 2]);
    assert_eq!(update_filtered(&all, "read", &vec![]), vec![0, 1, 3]);
    assert_eq!(update_filtered(&all, "zzz", &filters), vec![0, 1]);
    assert_eq!(update_filtered(&all, "", &vec![]), vec![0, 1, 2, 3, 4]);
}

#[test]
fn navigation_drops_forward_history() {
    let mut history = vec!["/a".to_string(), "/b".to_string(), "/c".to_string()];
    let mut index = 0usize;
    navigate_to(&mut history, &mut index, "/x".to_string());
    assert_eq!(history, vec!["/a", "/x"]);
    assert_eq!(index, 1);
}

#[test]
fn quick_access_lists_found_places_in_order() {
    let q = quick_access_from(
        Some("/home/u".to_string()),
        None,
        Some("/home/u/Documents".to_string()),
        None,
        None,
        Some("/home/u/Music".to_string()),
        None,
    );
    assert_eq!(q.len(), 3);
    assert_eq!(q[0].name, "Home");
    assert_eq!(q[0].icon, QuickAccessIcon::Home);
    assert_eq!(q[0].path, "/home/u");
    assert_eq!(q[1].name, "Documents");
    assert_eq!(q[2].name, "Music");
    assert_eq!(q[2].icon, QuickAccessIcon::Music);
}

#[test]
fn mount_table_parsing() {
    let content = "SRC=/dev/sdb1 TARGET=/media/usb ATTRS=x\nSRC=/dev/sda1 TARGET=/\r\nTARGET=/mnt/only\nSRC=/dev/sr0 TARGET=/media/cd=rom\n";
    let r = parse_mount_table(content);
    assert_eq!(
        r,
        vec![
            ("/dev/sdb1".to_string(), "/media/usb".to_string()),
            ("/dev/sr0".to_string(), "/media/cd".to_string()),
        ]
    );
    assert_eq!(parse_mount_table(""), vec![]);
    // A later key overrides an earlier one; a key without '=' has no value.
    let r = parse_mount_table("SRC=/a SRC=/b TARGET=/t\nSRC=/c TARGET");
    assert_eq!(r, vec![("/b".to_string(), "/t".to_string())]);
}

#[test]
fn volume_labels() {
    assert_eq!(volume_label("  MyDisk \n"), Some("MyDisk".to_string()));
    assert_eq!(volume_label(" \n"), None);
    assert_eq!(volume_label(""), None);
}

#[test]
fn usb_detection_and_icons() {
    let targets = vec!["/dev/sdb".to_string()];
    assert!(is_usb_device("/dev/sdb1", &targets));
    assert!(!is_usb_device("/dev/sda1", &targets));
    assert!(!is_usb_device("sdb1", &targets));
    assert_eq!(mount_icon("/dev/sdb1", true), MountIcon::UsbDrive);
    assert_eq!(mount_icon("/dev/sr0", false), MountIcon::Optical);
    assert_eq!(mount_icon("/dev/scd1", false), MountIcon::Optical);
    assert_eq!(mount_icon("/dev/nvme0n1p1", false), MountIcon::ExternalHdd);
    assert_eq!(mount_icon("/dev/mmcblk0p1", false), MountIcon::ExternalHdd);
    assert_eq!(mount_icon("/dev/sda1", false), MountIcon::Generic);
}

#[test]
fn file_icon_colors_by_extension() {
    assert_eq!(file_icon_color("main.rs"), rgb(220, 120, 70));
    assert_eq!(file_icon_color("SCRIPT.PY"), rgb(70, 130, 180));
    assert_eq!(file_icon_color("a.b.Json"), rgb(150, 150, 150));
    assert_eq!(file_icon_color("photo.jpeg"), rgb(100, 180, 100));
    assert_eq!(file_icon_color("Makefile"), rgb(160, 160, 160));
    assert_eq!(file_icon_color("md"), rgb(180, 180, 180));
    assert_eq!(file_icon_color("archive.tar.gz"), rgb(160, 160, 160));
}

fn builder() -> FileSelectBuilder {
    FileSelectBuilder::new()
}

fn open_state(b: &FileSelectBuilder, raw: Vec<DirEntry>, visible: usize) -> FileSelectState {
    b.initial_state(
        "/d".to_string(),
        raw,
        vec!["/home/u".to_string()],
        vec!["/media/usb".to_string()],
        visible,
        200,
    )
}

fn key(k: u32) -> WindowEvent {
    WindowEvent::KeyPress(KeyEvent { keysym: k, modifiers: Modifiers::empty() })
}

#[test]
fn builder_titles_and_sizes() {
    assert_eq!(builder().window_title(), "Open File");
    assert_eq!(builder().save(true).window_title(), "Save File");
    assert_eq!(builder().directory(true).save(true).window_title(), "Select Directory");
    assert_eq!(builder().title("Pick").window_title(), "Pick");
    assert_eq!(builder().ok_label(), "Open");
    assert_eq!(builder().save(true).ok_label(), "Save");
    assert_eq!(builder().size(), (700, 500));
    assert_eq!(builder().width(300).size(), (300, 500));
    assert_eq!(builder().get_separator(), " ");
    assert_eq!(builder().separator("|").get_separator(), "|");
    assert_eq!(builder().start_dir_from(Some("/home/u".to_string())), "/home/u");
    assert_eq!(builder().start_dir_from(None), "/");
    assert_eq!(builder().start_path("/tmp").start_dir_from(None), "/tmp");
    assert_eq!(builder().start_path("/tmp").start_dir(), "/tmp");
    assert_eq!(builder().get_start_path(), None);
    assert_eq!(builder().start_path("/srv").get_start_path(), Some("/srv".to_string()));
    assert!(!builder().is_directory());
    assert!(builder().directory(true).is_directory());
    assert!(!builder().is_multiple());
    assert!(builder().multiple(true).is_multiple());
}

#[test]
fn initial_state_lists_the_start_directory() {
    let b = builder().add_filter(filter("Text", &["*.txt"]));
    let s = open_state(&b, vec![file("b.txt"), file("a.rs"), dir("sub")], 10);
    assert_eq!(s.current_dir, "/d");
    assert_eq!(s.history, vec!["/d"]);
    assert_eq!(s.history_index, 0);
    assert_eq!(names(&s.entries), vec!["..", "sub", "a.rs", "b.txt"]);
    assert_eq!(s.entries[0].path, "/");
    assert_eq!(s.filtered, vec![0, 1, 3]);
    assert!(s.selected.is_empty());
    assert_eq!(s.search.placeholder(), "Search...");
}

#[test]
fn single_click_selects_then_opens() {
    let b = builder();
    let mut s = open_state(&b, vec![file("a.txt"), dir("sub")], 10);
    // Lines: "..", "sub", "a.txt".
    assert!(s.hover(None, None, Some(2)));
    assert_eq!(s.hovered_entry, Some(2));
    assert!(matches!(s.press_entry(), FileSelectStep::Continue(true)));
    assert_eq!(s.selected, vec![2]);
    match s.press_entry() {
        FileSelectStep::Finish(FileSelectResult::Selected(p)) => assert_eq!(p, "/d/a.txt"),
        other => panic!("unexpected {other:?}"),
    }
    // The hovered entry stays when the pointer leaves the list.
    assert!(!s.hover(None, None, Some(7)));
    assert_eq!(s.hovered_entry, Some(2));
    s.hover(None, None, Some(1));
    s.press_entry();
    match s.press_entry() {
        FileSelectStep::Visit(p, check) => {
            assert_eq!(p, "/d/sub");
            assert!(!check);
        }
        other => panic!("unexpected {other:?}"),
    }
}

#[test]
fn multiple_mode_toggles_and_returns_files() {
    let b = builder().multiple(true);
    let mut s = open_state(&b, vec![file("a.txt"), dir("sub"), file("b.txt")], 10);
    // Lines: "..", "sub", "a.txt", "b.txt".
    s.hover(None, None, Some(3));
    s.press_entry();
    s.hover(None, None, Some(1));
    s.press_entry();
    s.hover(None, None, Some(2));
    s.press_entry();
    assert_eq!(s.selected, vec![3, 1, 2]);
    s.press_entry();
    assert_eq!(s.selected, vec![3, 1]);
    s.press_entry();
    assert_eq!(s.selected, vec![3, 1, 2]);
    match s.ok_clicked() {
        FileSelectStep::Finish(FileSelectResult::SelectedMultiple(v)) => {
            assert_eq!(v, vec!["/d/b.txt", "/d/a.txt"])
        }
        other => panic!("unexpected {other:?}"),
    }
    match s.key_press(KEY_RETURN) {
        FileSelectStep::Finish(FileSelectResult::SelectedMultiple(v)) => assert_eq!(v.len(), 2),
        other => panic!("unexpected {other:?}"),
    }
}

#[test]
fn ok_in_directory_mode() {
    let b = builder().directory(true);
    let s = open_state(&b, vec![dir("sub")], 10);
    match s.ok_clicked() {
        FileSelectStep::Finish(FileSelectResult::Selected(p)) => assert_eq!(p, "/d"),
        other => panic!("unexpected {other:?}"),
    }
    let b = builder();
    let s = open_state(&b, vec![dir("sub")], 10);
    assert!(matches!(s.ok_clicked(), FileSelectStep::Continue(false)));
    assert!(matches!(s.cancel_clicked(), FileSelectStep::Finish(FileSelectResult::Cancelled)));
}

#[test]
fn arrow_keys_move_the_selection_and_scroll() {
    let b = builder();
    let raw: Vec<DirEntry> = (0..6).map(|i| file(&format!("f{i}"))).collect();
    let mut s = open_state(&b, raw, 3);
    // Lines: "..", f0 .. f5.
    assert!(matches!(s.key_press(KEY_DOWN), FileSelectStep::Continue(true)));
    assert_eq!(s.selected, vec![0]);
    s.key_press(KEY_DOWN);
    s.key_press(KEY_DOWN);
    assert_eq!(s.selected, vec![2]);
    assert_eq!(s.scroll_offset, 1);
    s.key_press(KEY_DOWN);
    assert_eq!(s.scroll_offset, 2);
    s.key_press(KEY_UP);
    s.key_press(KEY_UP);
    s.key_press(KEY_UP);
    assert_eq!(s.selected, vec![0]);
    assert_eq!(s.scroll_offset, 0);
    s.key_press(KEY_UP);
    assert_eq!(s.selected, vec![0]);
    match s.key_press(KEY_RETURN) {
        FileSelectStep::Visit(p, check) => {
            assert_eq!(p, "/");
            assert!(check);
        }
        other => panic!("unexpected {other:?}"),
    }
    assert!(matches!(s.key_press(KEY_ESCAPE), FileSelectStep::Finish(FileSelectResult::Closed)));
    match s.key_press(KEY_BACKSPACE) {
        FileSelectStep::Visit(p, true) => assert_eq!(p, "/"),
        other => panic!("unexpected {other:?}"),
    }
}

#[test]
fn keys_go_to_the_search_field_when_it_has_focus() {
    let b = builder();
    let mut s = open_state(&b, vec![file("apple"), file("banana")], 10);
    s.search.set_focus(true);
    assert!(matches!(s.key_press(KEY_DOWN), FileSelectStep::Continue(false)));
    assert!(s.selected.is_empty());
    assert!(s.search_event(&WindowEvent::TextInput('B')));
    assert_eq!(s.search_text, "b");
    assert_eq!(s.filtered, vec![0, 2]);
    assert!(!s.search_event(&WindowEvent::CursorMove(CursorPos { x: 1, y: 1 })));
    assert!(s.search_event(&key(0xff08)));
    assert_eq!(s.search_text, "");
    assert_eq!(s.filtered, vec![0, 1, 2]);
}

#[test]
fn scrolling_the_list() {
    let b = builder();
    let raw: Vec<DirEntry> = (0..10).map(|i| file(&format!("f{i}"))).collect();
    let mut s = open_state(&b, raw, 4);
    // 11 lines, 4 visible: at most offset 7.
    assert!(!s.scroll(ScrollDirection::Up));
    assert!(s.scroll(ScrollDirection::Down));
    assert_eq!(s.scroll_offset, 3);
    s.scroll(ScrollDirection::Down);
    assert_eq!(s.scroll_offset, 6);
    s.scroll(ScrollDirection::Down);
    assert_eq!(s.scroll_offset, 7);
    assert!(!s.scroll(ScrollDirection::Down));
    s.scroll(ScrollDirection::Up);
    assert_eq!(s.scroll_offset, 4);
    s.scroll(ScrollDirection::Up);
    s.scroll(ScrollDirection::Up);
    assert_eq!(s.scroll_offset, 0);
    assert!(!s.scroll(ScrollDirection::Left));
    assert!(s.drag_to(100));
    assert_eq!(s.scroll_offset, 7);
    assert!(s.drag_to(2));
    assert_eq!(s.scroll_offset, 2);
}

#[test]
fn toolbar_and_sidebar() {
    let b = builder();
    let mut s = open_state(&b, vec![dir("sub")], 10);
    assert!(matches!(s.press_nav(NavButton::Back), FileSelectStep::Continue(false)));
    assert!(matches!(s.press_nav(NavButton::Forward), FileSelectStep::Continue(false)));
    match s.press_nav(NavButton::Up) {
        FileSelectStep::Visit(p, true) => assert_eq!(p, "/"),
        other => panic!("unexpected {other:?}"),
    }
    match s.press_nav(NavButton::Home) {
        FileSelectStep::Visit(_, true) | FileSelectStep::Continue(false) => {}
        other => panic!("unexpected {other:?}"),
    }
    assert!(matches!(s.press_nav(NavButton::Hidden), FileSelectStep::Reload));
    assert!(s.show_hidden);
    s.reload(vec![dir("sub"), file(".profile")]);
    assert_eq!(names(&s.entries), vec!["..", "sub", ".profile"]);

    assert!(matches!(s.press_place(), FileSelectStep::Continue(false)));
    assert!(s.hover(Some(0), Some(5), None));
    assert_eq!(s.hovered_place, Some(0));
    assert_eq!(s.hovered_drive, None);
    match s.press_place() {
        FileSelectStep::Visit(p, true) => assert_eq!(p, "/home/u"),
        other => panic!("unexpected {other:?}"),
    }
    s.hover(None, Some(0), None);
    match s.press_drive() {
        FileSelectStep::Visit(p, true) => assert_eq!(p, "/media/usb"),
        other => panic!("unexpected {other:?}"),
    }
}

#[test]
fn back_and_forward_through_history() {
    let b = builder();
    let mut s = open_state(&b, vec![dir("sub")], 10);
    s.hover(None, None, Some(5));
    s.navigate_to_directory("/d/sub".to_string(), vec![file("x")]);
    assert_eq!(s.current_dir, "/d/sub");
    assert_eq!(s.history, vec!["/d", "/d/sub"]);
    assert_eq!(s.history_index, 1);
    assert_eq!(names(&s.entries), vec!["..", "x"]);
    assert_eq!(s.entries[0].path, "/d");
    match s.press_nav(NavButton::Back) {
        FileSelectStep::Visit(p, true) => assert_eq!(p, "/d"),
        other => panic!("unexpected {other:?}"),
    }
    assert_eq!(s.history_index, 0);
    match s.press_nav(NavButton::Forward) {
        FileSelectStep::Visit(p, true) => assert_eq!(p, "/d/sub"),
        other => panic!("unexpected {other:?}"),
    }
    assert_eq!(s.history_index, 1);
    s.press_nav(NavButton::Back);
    // Visiting the place Back gave drops what lay ahead.
    s.navigate_to_directory("/d".to_string(), vec![dir("sub")]);
    assert_eq!(s.history, vec!["/d", "/d"]);
    assert_eq!(s.history_index, 1);
    assert!(matches!(s.press_nav(NavButton::Forward), FileSelectStep::Continue(false)));
}

#[test]
fn root_has_no_parent_line() {
    let b = builder().start_path("/");
    let s = b.initial_state("/".to_string(), vec![dir("usr")], vec![], vec![], 5, 100);
    assert_eq!(names(&s.entries), vec!["usr"]);
    let mut s = s;
    assert!(matches!(s.key_press(KEY_BACKSPACE), FileSelectStep::Continue(false)));
}
