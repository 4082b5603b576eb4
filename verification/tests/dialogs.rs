use zenity_rs::calendar::{
    calendar, month_name, CalendarResult, CalendarState, CalendarStep, DropdownState,
    HeaderTarget,
};
use zenity_rs::color::{theme_dark, theme_from_color_scheme, theme_from_gtk_theme, theme_light, Rgba};
use zenity_rs::date::{date_from_days, days_in_month, first_day_of_month, is_leap_year};
use zenity_rs::entry::{entry, password, EntryResult, EntryStep};
use zenity_rs::events::{
    modifiers_from_core_mask, mouse_button, point_in_rect, CursorPos, KeyEvent, Modifiers,
    MouseButton, ScrollDirection, WindowEvent, KEY_BACKSPACE, KEY_DELETE, KEY_DOWN, KEY_END,
    KEY_ESCAPE, KEY_HOME, KEY_ISO_LEFT_TAB, KEY_LEFT, KEY_PAGE_DOWN, KEY_PAGE_UP, KEY_RETURN,
    KEY_RIGHT, KEY_SPACE, KEY_TAB, KEY_UP, MOD_CTRL,
};
use zenity_rs::forms::{forms, FormsResult, FormsStep};
use zenity_rs::list::{get_result, list, prepare_rows, visible_columns, ListMode, ListResult, ListStep};
use zenity_rs::message::{
    info, message, question, ButtonPreset, DialogResult, Icon, MessageState, MessageStep,
};
use zenity_rs::progress::{parse_line, progress, ProgressResult, StdinMessage};
use zenity_rs::scale::{scale, ScaleResult, ScaleStep};
use zenity_rs::text_info::{text_info, TextInfoResult, TextInfoStep};
use zenity_rs::text_input::TextInput;

fn key(k: u32) -> WindowEvent {
    WindowEvent::KeyPress(KeyEvent { keysym: k, modifiers: Modifiers::empty() })
}

fn strings(v: &[&str]) -> Vec<String> {
    v.iter().map(|s| s.to_string()).collect()
}

// ----- dates -----

#[test]
fn leap_years_and_month_lengths() {
    assert!(is_leap_year(2024));
    assert!(!is_leap_year(2023));
    assert!(!is_leap_year(1900));
    assert!(is_leap_year(2000));
    assert_eq!(days_in_month(2024, 2), 29);
    assert_eq!(days_in_month(2023, 2), 28);
    assert_eq!(days_in_month(2023, 4), 30);
    assert_eq!(days_in_month(2023, 12), 31);
}

#[test]
fn first_weekdays() {
    assert_eq!(first_day_of_month(2024, 12), 0); // a Sunday
    assert_eq!(first_day_of_month(2024, 2), 4); // a Thursday
    assert_eq!(first_day_of_month(2000, 1), 6); // a Saturday
}

#[test]
fn dates_from_day_counts() {
    assert_eq!(date_from_days(0), Some((1970, 1, 1)));
    assert_eq!(date_from_days(31), Some((1970, 2, 1)));
    assert_eq!(date_from_days(19716), Some((2023, 12, 25)));
    assert_eq!(date_from_days(19782), Some((2024, 2, 29)));
}

// ----- calendar -----

fn cal_state(y: u32, m: u32, d: u32) -> CalendarState {
    calendar().year(y).month(m).day(d).initial_state((2000, 1, 1))
}

#[test]
fn calendar_builder_defaults_and_clamping() {
    assert_eq!(calendar().window_title(), "Select Date");
    let s = calendar().month(13).day(0).initial_state((2024, 5, 17));
    assert_eq!((s.year, s.month, s.selected_day), (2024, 12, 1));
    let s = calendar().initial_state((2024, 5, 17));
    assert_eq!((s.year, s.month, s.selected_day), (2024, 5, 17));
    let mut s = calendar().year(2023).month(2).day(31).initial_state((2024, 5, 17));
    assert_eq!((s.year, s.month, s.selected_day), (2023, 2, 28));
    assert_eq!(s.key_press(KEY_RETURN), CalendarStep::Finish(CalendarResult::Selected { year: 2023, month: 2, day: 28 }));
    let s = calendar().year(2024).month(2).day(31).initial_state((2024, 5, 17));
    assert_eq!(s.selected_day, 29);
    let s = calendar().day(31).initial_state((2024, 4, 2));
    assert_eq!((s.month, s.selected_day), (4, 30));
    assert_eq!(month_name(2), "February");
    assert_eq!(month_name(13), "Unknown");
}

#[test]
fn calendar_arrow_keys_cross_months() {
    let mut s = cal_state(2024, 3, 1);
    assert_eq!(s.key_press(KEY_LEFT), CalendarStep::Continue(true));
    assert_eq!((s.year, s.month, s.selected_day), (2024, 2, 29));
    s.key_press(KEY_RIGHT);
    assert_eq!((s.year, s.month, s.selected_day), (2024, 3, 1));
    s.key_press(KEY_UP);
    assert_eq!((s.year, s.month, s.selected_day), (2024, 2, 23));
    s.key_press(KEY_DOWN);
    assert_eq!((s.year, s.month, s.selected_day), (2024, 3, 1));
    let mut s = cal_state(2023, 12, 31);
    s.key_press(KEY_RIGHT);
    assert_eq!((s.year, s.month, s.selected_day), (2024, 1, 1));
}

#[test]
fn calendar_enter_and_escape() {
    let mut s = cal_state(2024, 12, 25);
    assert_eq!(
        s.key_press(KEY_RETURN),
        CalendarStep::Finish(CalendarResult::Selected { year: 2024, month: 12, day: 25 })
    );
    assert_eq!(s.key_press(KEY_ESCAPE), CalendarStep::Finish(CalendarResult::Closed));
    assert_eq!(s.key_press(KEY_SPACE), CalendarStep::Continue(false));
    let r = CalendarResult::Selected { year: 2024, month: 12, day: 25 };
    assert_eq!(r.to_string(), Some("2024-12-25".to_string()));
    assert_eq!(r.exit_code(), 0);
    assert_eq!(CalendarResult::Cancelled.to_string(), None);
    assert_eq!(CalendarResult::Closed.exit_code(), 255);
}

#[test]
fn calendar_header_and_dropdowns() {
    let mut s = cal_state(2024, 3, 31);
    assert!(s.header_click(HeaderTarget::PrevMonth, (2000, 1, 1)));
    assert_eq!((s.year, s.month, s.selected_day), (2024, 2, 29));
    s.header_click(HeaderTarget::NextMonth, (2000, 1, 1));
    assert_eq!((s.year, s.month, s.selected_day), (2024, 3, 29));
    assert!(!s.header_click(HeaderTarget::Nothing, (2000, 1, 1)));
    s.header_click(HeaderTarget::Today, (2001, 7, 4));
    assert_eq!((s.year, s.month, s.selected_day), (2001, 7, 4));

    s.header_click(HeaderTarget::MonthName, (2000, 1, 1));
    assert_eq!(s.dropdown, DropdownState::Month);
    assert_eq!(s.dropdown_hover, Some(6));
    s.key_press(KEY_DOWN);
    s.key_press(KEY_RETURN);
    assert_eq!(s.dropdown, DropdownState::Hidden);
    assert_eq!(s.month, 8);

    s.header_click(HeaderTarget::Year, (2000, 1, 1));
    assert_eq!(s.dropdown_hover, Some(5));
    assert!(s.scroll(ScrollDirection::Down));
    assert!(s.hover_dropdown(Some(0)));
    assert!(s.click());
    // Entry 0 of a list scrolled down by one: five years back, one forward.
    assert_eq!(s.year, 1997);
    assert_eq!(s.dropdown, DropdownState::Hidden);
}

#[test]
fn calendar_grid_cells() {
    let mut s = cal_state(2024, 12, 1);
    // December 2024 starts on a Sunday: the first cell is day 1.
    assert_eq!(s.day_at_cell(0, 0), Some(1));
    assert_eq!(s.day_at_cell(4, 2), Some(31));
    assert_eq!(s.day_at_cell(4, 3), None);
    assert!(s.hover_cell(Some((1, 0))));
    assert_eq!(s.hovered_day, Some(8));
    assert!(s.click());
    assert_eq!(s.selected_day, 8);
    assert!(s.hover_cell(None));
    assert!(!s.click());
}

// ----- colors and events -----

#[test]
fn themes() {
    assert_eq!(theme_light().window_bg, Rgba::rgb(250, 250, 250));
    assert_eq!(theme_dark().window_bg, Rgba::rgb(45, 45, 45));
    assert_eq!(theme_dark().window_shadow, Rgba::new(0, 0, 0, 80));
    assert_eq!(theme_from_gtk_theme("Adwaita:DARK"), theme_dark());
    assert_eq!(theme_from_gtk_theme("Adwaita"), theme_light());
    assert_eq!(theme_from_color_scheme("'prefer-dark'\n"), Some(theme_dark()));
    assert_eq!(theme_from_color_scheme("'default'"), Some(theme_light()));
    assert_eq!(theme_from_color_scheme("'prefer-light'"), Some(theme_light()));
    assert_eq!(theme_from_color_scheme(""), None);
    assert_eq!(Rgba::rgb(1, 2, 3).with_alpha(4), Rgba::new(1, 2, 3, 4));
}

#[test]
fn modifier_masks_and_buttons() {
    assert_eq!(modifiers_from_core_mask(0x01).bits, 0x01);
    assert_eq!(modifiers_from_core_mask(0x04 | 0x40).bits, 0x02 | 0x08);
    assert_eq!(modifiers_from_core_mask(0x08 | 0x02 | 0x10).bits, 0x04);
    assert_eq!(modifiers_from_core_mask(0).bits, 0);
    assert_eq!(mouse_button(1), Some(MouseButton::Left));
    assert_eq!(mouse_button(3), Some(MouseButton::Right));
    assert_eq!(mouse_button(4), None);
    assert!(point_in_rect(5, 5, 0, 0, 10, 10));
    assert!(!point_in_rect(10, 5, 0, 0, 10, 10));
    assert!(Modifiers::from_bits(MOD_CTRL).ctrl());
}

// ----- text input -----

#[test]
fn text_input_editing() {
    let mut t = TextInput::new(100).with_default_text("héllo");
    assert_eq!(t.cursor(), 5);
    assert_eq!(t.byte_position(2), 3);
    t.handle_key(KEY_LEFT, Modifiers::empty());
    t.insert_char('!');
    assert_eq!(t.text(), "héll!o");
    t.handle_key(KEY_BACKSPACE, Modifiers::empty());
    assert_eq!(t.text(), "héllo");
    t.handle_key(KEY_HOME, Modifiers::empty());
    t.handle_key(KEY_DELETE, Modifiers::empty());
    assert_eq!(t.text(), "éllo");
    t.handle_key(KEY_RIGHT, Modifiers::from_bits(MOD_CTRL));
    assert_eq!(t.cursor(), 4);
    t.handle_key(KEY_LEFT, Modifiers::from_bits(MOD_CTRL));
    assert_eq!(t.cursor(), 0);
    assert!(!t.handle_key(0x41, Modifiers::empty()));
    assert_eq!(t.char_count(), 4);
}

#[test]
fn text_input_events_need_focus() {
    let mut t = TextInput::new(100).with_placeholder("Name");
    assert!(!t.process_event(&WindowEvent::TextInput('a')));
    t.set_focus(true);
    assert!(t.process_event(&WindowEvent::TextInput('a')));
    assert!(t.process_event(&key(KEY_RETURN)));
    assert!(t.was_submitted());
    assert!(!t.was_submitted());
    assert_eq!(t.placeholder(), "Name");
    let p = TextInput::new(10).with_password(true).with_default_text("abc");
    assert_eq!(p.display_text(), "***");
}

// ----- message, entry, forms -----

#[test]
fn message_builders() {
    let b = info("done");
    assert_eq!(b.get_text(), "done");
    assert_eq!(b.get_icon(), Some(Icon::Info));
    assert_eq!(b.get_buttons(), ButtonPreset::OkOnly);
    let q = question("sure?");
    assert_eq!(q.get_buttons(), ButtonPreset::YesNo);
    assert_eq!(ButtonPreset::YesNoCancel.labels(), vec!["Yes", "No", "Cancel"]);
    assert_eq!(message().timeout(3).get_timeout(), Some(3));
    assert_eq!(DialogResult::Button(1).exit_code(), 1);
    assert_eq!(DialogResult::Button(7).exit_code(), 3);
    assert_eq!(DialogResult::Timeout.exit_code(), 5);
    assert_eq!(DialogResult::Closed.exit_code(), 255);
}

#[test]
fn message_timeout_and_dragging() {
    let mut s = MessageState::new(Some(2), ButtonPreset::YesNoCancel);
    assert_eq!(s.tick(1999), None);
    assert_eq!(s.tick(2000), Some(DialogResult::Timeout));
    assert_eq!(MessageState::new(None, ButtonPreset::OkOnly).tick(u64::MAX), None);
    let press = WindowEvent::ButtonPress(MouseButton::Left, Modifiers::empty());
    assert_eq!(s.handle_event(&press), MessageStep::Idle);
    let moved = WindowEvent::CursorMove(CursorPos { x: 3, y: 4 });
    assert_eq!(s.handle_event(&moved), MessageStep::StartDrag);
    assert_eq!(s.handle_event(&moved), MessageStep::Idle);
    assert_eq!(s.handle_event(&WindowEvent::CloseRequested), MessageStep::Finish(DialogResult::Closed));
    assert_eq!(s.button_clicked(2), MessageStep::Finish(DialogResult::Button(2)));
    assert_eq!(s.button_clicked(3), MessageStep::Idle);
    assert_eq!(s.handle_event(&key(KEY_ESCAPE)), MessageStep::Finish(DialogResult::Closed));
    assert_eq!(s.handle_event(&key(KEY_RETURN)), MessageStep::Idle);
    let ok = MessageState::new(None, ButtonPreset::OkOnly);
    assert_eq!(ok.button_clicked(0), MessageStep::Finish(DialogResult::Button(0)));
    assert_eq!(ok.button_clicked(1), MessageStep::Idle);
}

#[test]
fn entry_dialog() {
    let b = entry().title("T").entry_text("abc");
    assert_eq!(b.window_title(), "T");
    let mut s = b.initial_state(200);
    assert!(matches!(s.handle_event(&WindowEvent::TextInput('d')), EntryStep::Continue(true)));
    match s.handle_event(&key(KEY_RETURN)) {
        EntryStep::Finish(EntryResult::Text(t)) => assert_eq!(t, "abcd"),
        other => panic!("unexpected {other:?}"),
    }
    assert!(matches!(s.handle_event(&WindowEvent::CloseRequested), EntryStep::Finish(EntryResult::Closed)));
    assert!(matches!(s.handle_event(&key(KEY_ESCAPE)), EntryStep::Finish(EntryResult::Closed)));
    assert!(matches!(s.cancel_clicked(), EntryStep::Finish(EntryResult::Cancelled)));
    assert_eq!(password().window_title(), "Entry");
    assert!(password().initial_state(10).input.is_password());
}

#[test]
fn forms_dialog() {
    let b = forms().add_entry("Name").add_password("Pass");
    let mut s = b.initial_state(150).unwrap();
    s.handle_event(&WindowEvent::TextInput('x'));
    s.handle_event(&key(KEY_TAB));
    assert_eq!(s.focused, 1);
    s.handle_event(&WindowEvent::TextInput('y'));
    s.handle_event(&key(KEY_ISO_LEFT_TAB));
    assert_eq!(s.focused, 0);
    assert_eq!(s.values(), strings(&["x", "y"]));
    assert!(s.click_field(1));
    assert!(!s.inputs[0].has_focus() && s.inputs[1].has_focus());
    assert_eq!(s.inputs[0].text(), "x");
    assert!(!s.click_field(1));
    assert!(s.inputs[1].has_focus());
    match s.handle_event(&key(KEY_RETURN)) {
        FormsStep::Finish(FormsResult::Values(v)) => assert_eq!(v, strings(&["x", "y"])),
        other => panic!("unexpected {other:?}"),
    }
    assert!(matches!(s.handle_event(&key(KEY_ESCAPE)), FormsStep::Finish(FormsResult::Closed)));
    assert!(forms().initial_state(10).is_none());
    match forms().title("Login").separator(",").result_without_fields() {
        Some(FormsResult::Values(v)) => assert!(v.is_empty()),
        other => panic!("unexpected {other:?}"),
    }
    assert!(forms().add_entry("Name").result_without_fields().is_none());
}

// ----- scale, progress, text info -----

#[test]
fn scale_dialog() {
    let b = scale().min_value(0).max_value(100).value(150).step(10);
    let mut s = b.initial_state();
    assert_eq!(s.value, 100);
    assert_eq!(s.key_press(KEY_RIGHT), ScaleStep::Continue(false));
    assert_eq!(s.key_press(KEY_LEFT), ScaleStep::Continue(true));
    assert_eq!(s.value, 90);
    assert_eq!(s.key_press(KEY_HOME), ScaleStep::Continue(true));
    assert_eq!(s.value, 0);
    assert_eq!(s.snap(37), 30);
    assert!(s.press_track(57));
    assert_eq!(s.value, 50);
    assert!(s.drag_to(99));
    assert_eq!(s.value, 90);
    assert!(s.release());
    assert!(!s.drag_to(10));
    assert_eq!(s.key_press(KEY_RETURN), ScaleStep::Finish(ScaleResult::Value(90)));
    assert_eq!(scale().step(0).initial_state().step, 1);
    assert_eq!(s.key_press(KEY_ESCAPE), ScaleStep::Finish(ScaleResult::Closed));
}

#[test]
fn progress_lines() {
    assert!(matches!(parse_line(" 42 "), Some(StdinMessage::Progress(42))));
    assert!(matches!(parse_line("250"), Some(StdinMessage::Progress(100))));
    assert!(matches!(parse_line("PULSATE"), Some(StdinMessage::Pulsate)));
    match parse_line("#  Copying files ") {
        Some(StdinMessage::Text(t)) => assert_eq!(t, "Copying files"),
        _ => panic!(),
    }
    assert!(parse_line("hello").is_none());
    assert!(parse_line("").is_none());
}

#[test]
fn progress_dialog() {
    let mut s = progress().auto_close(true).percentage(20).initial_state();
    assert_eq!(s.percentage, 20);
    assert_eq!(s.apply(StdinMessage::Progress(50)), None);
    assert_eq!(s.apply(StdinMessage::Pulsate), None);
    assert!(s.pulsating);
    assert_eq!(s.apply(StdinMessage::Progress(100)), Some(ProgressResult::Completed));
    assert!(!s.pulsating);
    let mut s = progress().initial_state();
    assert_eq!(s.apply(StdinMessage::Progress(100)), None);
    assert_eq!(s.input_ended(), None);
    assert_eq!(progress().percentage(300).initial_state().percentage, 100);
    assert_eq!(s.handle_event(&key(KEY_ESCAPE)), Some(ProgressResult::Closed));
    assert_eq!(s.handle_event(&WindowEvent::CloseRequested), Some(ProgressResult::Closed));
    assert_eq!(s.handle_event(&key(KEY_RETURN)), None);
}

#[test]
fn text_info_dialog() {
    assert_eq!(text_info().window_size(), (500, 400));
    assert_eq!(text_info().width(100).height(900).window_size(), (400, 900));
    let mut s = text_info().checkbox("I agree").initial_state(50, 10);
    assert_eq!(s.key_press(KEY_UP), TextInfoStep::Continue(false));
    s.key_press(KEY_PAGE_DOWN);
    assert_eq!(s.scroll_offset, 10);
    s.key_press(KEY_END);
    assert_eq!(s.scroll_offset, 40);
    s.key_press(KEY_PAGE_DOWN);
    assert_eq!(s.scroll_offset, 40);
    s.key_press(KEY_PAGE_UP);
    assert_eq!(s.scroll_offset, 30);
    s.key_press(KEY_HOME);
    assert_eq!(s.scroll_offset, 0);
    assert!(s.text_input(' '));
    assert_eq!(
        s.key_press(KEY_RETURN),
        TextInfoStep::Finish(TextInfoResult::Accepted { checkbox_checked: true })
    );
    assert!(s.hover_checkbox(true));
    assert!(s.click());
    assert_eq!(s.ok_clicked(), TextInfoStep::Finish(TextInfoResult::Accepted { checkbox_checked: false }));
    let mut plain = text_info().initial_state(3, 10);
    assert!(!plain.text_input(' '));
    assert!(!plain.hover_checkbox(true));
    assert_eq!(plain.key_press(KEY_DOWN), TextInfoStep::Continue(false));
    assert_eq!(plain.key_press(KEY_ESCAPE), TextInfoStep::Finish(TextInfoResult::Closed));
}

// ----- list -----

#[test]
fn list_rows_and_columns() {
    let rows = vec![strings(&["TRUE", "a"]), strings(&["false", "b"]), vec![]];
    let (r, sel) = prepare_rows(&rows, ListMode::Checklist);
    assert_eq!(r, vec![strings(&["a"]), strings(&["b"])]);
    assert_eq!(sel, vec![true, false]);
    let (r, sel) = prepare_rows(&rows, ListMode::Single);
    assert_eq!(r.len(), 3);
    assert_eq!(sel, vec![false, false, false]);
    assert_eq!(visible_columns(4, &vec![1, 3]), vec![0, 2]);
    let b = list().column("Pick").column("Name").column("Size").checklist().hide_column(3);
    assert_eq!(b.data_headers(), strings(&["Name", "Size"]));
    assert_eq!(b.shown_columns(), vec![0]);
    assert_eq!(list().window_title(), "Select");
}

#[test]
fn list_single_selection_with_keys() {
    let b = list().column("Name").row(strings(&["a"])).row(strings(&["b"])).row(strings(&["c"]));
    let mut s = b.initial_state(3, 100, 100);
    // One of the three lines shows the header.
    assert_eq!(s.data_visible, 2);
    assert!(matches!(s.key_press(KEY_DOWN), ListStep::Continue(true)));
    assert_eq!(s.single_selected, Some(0));
    s.key_press(KEY_DOWN);
    s.key_press(KEY_DOWN);
    assert_eq!(s.single_selected, Some(2));
    assert_eq!(s.scroll_offset, 1);
    match s.key_press(KEY_RETURN) {
        ListStep::Finish(ListResult::Selected(v)) => assert_eq!(v, strings(&["c"])),
        other => panic!("unexpected {other:?}"),
    }
    assert!(matches!(s.key_press(KEY_ESCAPE), ListStep::Finish(ListResult::Closed)));
}

#[test]
fn list_radiolist_click() {
    let b = list()
        .column("On")
        .column("Item")
        .radiolist()
        .row(strings(&["TRUE", "x"]))
        .row(strings(&["FALSE", "y"]));
    let mut s = b.initial_state(5, 100, 100);
    assert!(s.hover(Some(1)));
    assert!(s.click());
    assert_eq!(s.selected, vec![false, true]);
    match s.result() {
        ListResult::Selected(v) => assert_eq!(v, strings(&["y"])),
        other => panic!("unexpected {other:?}"),
    }
    assert_eq!(ListResult::Closed.exit_code(), 255);
}

#[test]
fn list_checklist_space_toggles() {
    let b = list().column("On").column("Item").checklist().row(strings(&["TRUE", "x"]));
    let mut s = b.initial_state(5, 100, 100);
    s.hover(Some(0));
    s.key_press(KEY_SPACE);
    assert_eq!(s.selected, vec![false]);
    s.key_press(KEY_SPACE);
    assert_eq!(s.selected, vec![true]);
    assert!(!s.scroll(ScrollDirection::Down));
}

#[test]
fn list_result_is_cancelled_without_values() {
    let rows = vec![strings(&["a", "1"]), strings(&["b", "2"]), strings(&["c", "3"])];
    match get_result(&rows, &vec![true, false, true], None, ListMode::Checklist) {
        ListResult::Selected(v) => assert_eq!(v, strings(&["a", "c"])),
        other => panic!("unexpected {other:?}"),
    }
    match get_result(&rows, &vec![false; 3], Some(1), ListMode::Single) {
        ListResult::Selected(v) => assert_eq!(v, strings(&["b"])),
        other => panic!("unexpected {other:?}"),
    }
    assert!(matches!(get_result(&rows, &vec![false; 3], None, ListMode::Radiolist), ListResult::Cancelled));
    assert!(matches!(get_result(&rows, &vec![false; 3], Some(7), ListMode::Single), ListResult::Cancelled));
    let b = list().column("Name").row(strings(&["a"]));
    let mut s = b.initial_state(3, 100, 100);
    assert!(matches!(s.result(), ListResult::Cancelled));
    assert!(matches!(s.key_press(KEY_RETURN), ListStep::Finish(ListResult::Cancelled)));
    let b = list().column("On").column("Item").checklist().row(strings(&["FALSE", "x"]));
    assert!(matches!(b.initial_state(3, 100, 100).result(), ListResult::Cancelled));
}

#[test]
fn months_follow_on() {
    for y in [1999u32, 2000, 2023, 2024, 2100] {
        for m in 1u32..=11 {
            assert_eq!(first_day_of_month(y, m + 1), (first_day_of_month(y, m) + days_in_month(y, m)) % 7);
        }
        assert_eq!(first_day_of_month(y + 1, 1), (first_day_of_month(y, 12) + 31) % 7);
    }
    assert_eq!(first_day_of_month(2024, 3), 5);
    assert_eq!(first_day_of_month(2024, 1), 1);
}

#[test]
fn calendar_click_after_month_change_keeps_a_real_date() {
    let mut s = cal_state(2024, 1, 31);
    // 2024-01-01 is a Monday: the 31st sits in row 4, column 3.
    assert!(s.hover_cell(Some((4, 3))));
    assert_eq!(s.hovered_day, Some(31));
    s.key_press(KEY_RIGHT);
    assert_eq!((s.month, s.selected_day), (2, 1));
    assert!(!s.click());
    assert_eq!(s.key_press(KEY_RETURN), CalendarStep::Finish(CalendarResult::Selected { year: 2024, month: 2, day: 1 }));
}

#[test]
fn list_click_keeps_the_mode() {
    let b = list().column("Name").row(strings(&["a"])).row(strings(&["b"]));
    let mut s = b.initial_state(5, 100, 100);
    assert!(s.hover(Some(1)));
    assert!(s.click());
    assert_eq!(s.mode, ListMode::Single);
    assert_eq!(s.single_selected, Some(1));
    match s.result() {
        ListResult::Selected(v) => assert_eq!(v, strings(&["b"])),
        other => panic!("unexpected {other:?}"),
    }
}
