use zenity_rs::calendar::CalendarResult;
use zenity_rs::entry::EntryResult;
use zenity_rs::file_select::FileSelectResult;
use zenity_rs::forms::FormsResult;
use zenity_rs::list::ListResult;
use zenity_rs::message::DialogResult;
use zenity_rs::progress::ProgressResult;
use zenity_rs::report::{
    calendar_report, entry_report, file_select_report, forms_report, list_report,
    message_report, parse_file_filter, progress_report, scale_report, text_info_report,
};
use zenity_rs::scale::ScaleResult;
use zenity_rs::text_info::TextInfoResult;

fn strings(v: &[&str]) -> Vec<String> {
    v.iter().map(|s| s.to_string()).collect()
}

#[test]
fn message_buttons_without_extras() {
    let none: Vec<String> = vec![];
    assert_eq!(message_report(DialogResult::Button(0), &none, None), (0, None));
    assert_eq!(message_report(DialogResult::Button(1), &none, None), (1, None));
    assert_eq!(message_report(DialogResult::Closed, &none, None), (255, None));
    assert_eq!(message_report(DialogResult::Timeout, &none, None), (5, None));
}

#[test]
fn message_extra_buttons_print_their_label() {
    let extra = strings(&["Later", "Never"]);
    // Extra buttons are laid out in reverse: the first shown is the last given.
    assert_eq!(message_report(DialogResult::Button(0), &extra, None), (1, Some("Never".to_string())));
    assert_eq!(message_report(DialogResult::Button(1), &extra, None), (1, Some("Later".to_string())));
    // Without a cancel button only the first button exits with 0.
    assert_eq!(message_report(DialogResult::Button(2), &extra, None), (1, None));
    assert_eq!(message_report(DialogResult::Button(3), &extra, None), (1, None));
}

#[test]
fn question_cancel_button() {
    let extra = strings(&["Maybe"]);
    // A question with one extra button has its No button at index 2.
    assert_eq!(message_report(DialogResult::Button(1), &extra, Some(2)), (0, None));
    assert_eq!(message_report(DialogResult::Button(2), &extra, Some(2)), (1, None));
    assert_eq!(message_report(DialogResult::Button(0), &extra, Some(2)), (1, Some("Maybe".to_string())));
}

#[test]
fn list_and_forms_join_with_the_separator() {
    let r = ListResult::Selected(strings(&["a", "b", "c"]));
    assert_eq!(list_report(&r, "|"), (0, Some("a|b|c".to_string())));
    assert_eq!(list_report(&ListResult::Selected(vec![]), "|"), (0, Some(String::new())));
    assert_eq!(list_report(&ListResult::Cancelled, "|"), (1, None));
    assert_eq!(list_report(&ListResult::Closed, "|"), (255, None));
    let f = FormsResult::Values(strings(&["x", "", "z"]));
    assert_eq!(forms_report(&f, ", "), (0, Some("x, , z".to_string())));
    assert_eq!(forms_report(&FormsResult::Cancelled, ","), (1, None));
    assert_eq!(forms_report(&FormsResult::Closed, ","), (255, None));
}

#[test]
fn calendar_prints_the_iso_date() {
    let r = CalendarResult::Selected { year: 2024, month: 12, day: 25 };
    assert_eq!(calendar_report(&r), (0, Some("2024-12-25".to_string())));
    let r = CalendarResult::Selected { year: 987, month: 3, day: 4 };
    assert_eq!(calendar_report(&r), (0, Some("0987-03-04".to_string())));
    assert_eq!(calendar_report(&CalendarResult::Cancelled), (1, None));
    assert_eq!(calendar_report(&CalendarResult::Closed), (255, None));
}

#[test]
fn file_selection_report() {
    let r = FileSelectResult::Selected("/tmp/a b".to_string());
    assert_eq!(file_select_report(&r, " "), (0, Some("/tmp/a b".to_string())));
    let r = FileSelectResult::SelectedMultiple(strings(&["/a", "/b"]));
    assert_eq!(file_select_report(&r, "|"), (0, Some("/a|/b".to_string())));
    assert_eq!(file_select_report(&FileSelectResult::Cancelled, "|"), (1, None));
    assert_eq!(file_select_report(&FileSelectResult::Closed, "|"), (255, None));
}

#[test]
fn entry_scale_progress_text_info_reports() {
    assert_eq!(entry_report(&EntryResult::Text("hi".to_string())), (0, Some("hi".to_string())));
    assert_eq!(entry_report(&EntryResult::Cancelled), (1, None));
    assert_eq!(entry_report(&EntryResult::Closed), (255, None));
    assert_eq!(scale_report(&ScaleResult::Value(-42)), (0, Some("-42".to_string())));
    assert_eq!(scale_report(&ScaleResult::Value(0)), (0, Some("0".to_string())));
    assert_eq!(scale_report(&ScaleResult::Cancelled), (1, None));
    assert_eq!(scale_report(&ScaleResult::Closed), (255, None));
    assert_eq!(progress_report(&ProgressResult::Completed), 0);
    assert_eq!(progress_report(&ProgressResult::Cancelled), 1);
    assert_eq!(progress_report(&ProgressResult::Closed), 255);
    let ok = TextInfoResult::Accepted { checkbox_checked: false };
    assert_eq!(text_info_report(&ok, true), 1);
    assert_eq!(text_info_report(&ok, false), 0);
    let checked = TextInfoResult::Accepted { checkbox_checked: true };
    assert_eq!(text_info_report(&checked, true), 0);
    assert_eq!(text_info_report(&TextInfoResult::Cancelled, false), 1);
    assert_eq!(text_info_report(&TextInfoResult::Closed, true), 255);
}

#[test]
fn file_filter_option_with_name() {
    let f = parse_file_filter("Video | *.mkv  *.mp4\t*.avi ");
    assert_eq!(f.name, "Video");
    assert_eq!(f.patterns, strings(&["*.mkv", "*.mp4", "*.avi"]));
    let f = parse_file_filter("A|B|*.c");
    assert_eq!(f.name, "A");
    assert_eq!(f.patterns, strings(&["B|*.c"]));
    let f = parse_file_filter("Empty |   ");
    assert_eq!(f.name, "Empty");
    assert!(f.patterns.is_empty());
}

#[test]
fn file_filter_option_pattern_only() {
    let f = parse_file_filter("*.rs");
    assert_eq!(f.name, "*.rs");
    assert_eq!(f.patterns, strings(&["*.rs"]));
}
