//! How the command line reports a dialog's result: the exit status and the
//! line written to standard output, and the parsing of file filter options.

use vstd::prelude::*;

use crate::calendar::{date_text, CalendarResult};
use crate::entry::EntryResult;
use crate::file_select::{FileFilter, FileSelectResult};
use crate::forms::FormsResult;
use crate::list::ListResult;
use crate::message::DialogResult;
use crate::progress::ProgressResult;
use crate::scale::ScaleResult;
use crate::strutil::{
    chars_of, find_char, index_of, join, join_strings, signed_decimal, signed_decimal_chars,
    split_words, string_from_chars, sub_chars, trim, trim_chars, views, words,
};
use crate::text_info::TextInfoResult;

verus! {

pub open spec fn opt_text(o: Option<String>) -> Option<Seq<char>> {
    match o {
        Some(s) => Some(s@),
        None => None,
    }
}

/// The exit status of a message dialog, and which extra button's label is
/// printed. Extra buttons come first, laid out in reverse order, and exit
/// with 1; then, where the dialog has a cancel (or No) button, that button
/// exits with 1 and the other with 0; without one, the first button exits
/// with 0 and any other with 1. Closing exits with 255, a timeout with 5.
pub open spec fn message_outcome(
    result: DialogResult,
    n_extra: int,
    default_cancel_index: Option<usize>,
) -> (i32, Option<int>) {
    match result {
        DialogResult::Button(idx) => if idx < n_extra {
            (1, Some(n_extra - 1 - idx))
        } else {
            match default_cancel_index {
                Some(c) => (if idx == c {
                    1i32
                } else {
                    0i32
                }, None),
                None => (if idx == 0 {
                    0i32
                } else {
                    1i32
                }, None),
            }
        },
        DialogResult::Closed => (255, None),
        DialogResult::Timeout => (5, None),
    }
}

/// The exit status of a message dialog and the line it prints (see
/// `message_outcome`).
pub fn message_report(
    result: DialogResult,
    extra_buttons: &Vec<String>,
    default_cancel_index: Option<usize>,
) -> (r: (i32, Option<String>))
    ensures
        r.0 == message_outcome(result, extra_buttons@.len() as int, default_cancel_index).0,
        opt_text(r.1) == (match message_outcome(
            result,
            extra_buttons@.len() as int,
            default_cancel_index,
        ).1 {
            Some(k) => Some(extra_buttons@[k]@),
            None => None,
        }),
{
    match result {
        DialogResult::Button(idx) => {
            if idx < extra_buttons.len() {
                let reversed = extra_buttons.len() - 1 - idx;
                (1, Some(extra_buttons[reversed].clone()))
            } else {
                match default_cancel_index {
                    Some(c) => (if idx == c {
                        1
                    } else {
                        0
                    }, None),
                    None => (if idx == 0 {
                        0
                    } else {
                        1
                    }, None),
                }
            }
        },
        DialogResult::Closed => (255, None),
        DialogResult::Timeout => (5, None),
    }
}

/// A list dialog exits with 0 and prints the chosen values joined by the
/// separator, or exits with 1 (cancelled) or 255 (closed).
pub fn list_report(result: &ListResult, separator: &str) -> (r: (i32, Option<String>))
    ensures
        match result {
            ListResult::Selected(items) => r.0 == 0 && opt_text(r.1) == Some(
                join(views(items@), separator@),
            ),
            ListResult::Cancelled => r.0 == 1 && r.1.is_none(),
            ListResult::Closed => r.0 == 255 && r.1.is_none(),
        },
{
    match result {
        ListResult::Selected(items) => (0, Some(join_strings(items, separator))),
        ListResult::Cancelled => (1, None),
        ListResult::Closed => (255, None),
    }
}

/// A calendar exits with 0 and prints the date as `YYYY-MM-DD`, or exits
/// with 1 (cancelled) or 255 (closed).
pub fn calendar_report(result: &CalendarResult) -> (r: (i32, Option<String>))
    ensures
        match result {
            CalendarResult::Selected { year, month, day } => r.0 == 0 && opt_text(r.1) == Some(
                date_text(*year, *month, *day),
            ),
            CalendarResult::Cancelled => r.0 == 1 && r.1.is_none(),
            CalendarResult::Closed => r.0 == 255 && r.1.is_none(),
        },
{
    let code = result.exit_code();
    (code, result.to_string())
}

/// A file dialog exits with 0 and prints the chosen path, or the chosen
/// paths joined by the separator, or exits with 1 (cancelled) or 255
/// (closed).
pub fn file_select_report(result: &FileSelectResult, separator: &str) -> (r: (i32, Option<String>))
    ensures
        match result {
            FileSelectResult::Selected(p) => r.0 == 0 && opt_text(r.1) == Some(p@),
            FileSelectResult::SelectedMultiple(ps) => r.0 == 0 && opt_text(r.1) == Some(
                join(views(ps@), separator@),
            ),
            FileSelectResult::Cancelled => r.0 == 1 && r.1.is_none(),
            FileSelectResult::Closed => r.0 == 255 && r.1.is_none(),
        },
{
    match result {
        FileSelectResult::Selected(p) => (0, Some(p.clone())),
        FileSelectResult::SelectedMultiple(ps) => (0, Some(join_strings(ps, separator))),
        FileSelectResult::Cancelled => (1, None),
        FileSelectResult::Closed => (255, None),
    }
}

/// A progress dialog only exits: 0 completed, 1 cancelled, 255 closed.
pub fn progress_report(result: &ProgressResult) -> (r: i32)
    ensures
        r == match result {
            ProgressResult::Completed => 0i32,
            ProgressResult::Cancelled => 1i32,
            ProgressResult::Closed => 255i32,
        },
{
    result.exit_code()
}

/// An entry dialog exits with 0 and prints the text, or exits with 1
/// (cancelled) or 255 (closed).
pub fn entry_report(result: &EntryResult) -> (r: (i32, Option<String>))
    ensures
        match result {
            EntryResult::Text(t) => r.0 == 0 && opt_text(r.1) == Some(t@),
            EntryResult::Cancelled => r.0 == 1 && r.1.is_none(),
            EntryResult::Closed => r.0 == 255 && r.1.is_none(),
        },
{
    match result {
        EntryResult::Text(t) => (0, Some(t.clone())),
        EntryResult::Cancelled => (1, None),
        EntryResult::Closed => (255, None),
    }
}

/// A text-info dialog prints nothing; accepting exits with 0, except with
/// 1 when it has a checkbox that was left unchecked; cancelling exits with
/// 1 and closing with 255.
pub fn text_info_report(result: &TextInfoResult, has_checkbox: bool) -> (r: i32)
    ensures
        r == match result {
            TextInfoResult::Accepted { checkbox_checked } => if has_checkbox && !*checkbox_checked {
                1i32
            } else {
                0i32
            },
            TextInfoResult::Cancelled => 1i32,
            TextInfoResult::Closed => 255i32,
        },
{
    match result {
        TextInfoResult::Accepted { checkbox_checked } => {
            if has_checkbox && !*checkbox_checked {
                1
            } else {
                0
            }
        },
        TextInfoResult::Cancelled => 1,
        TextInfoResult::Closed => 255,
    }
}

/// A scale exits with 0 and prints the value in decimal, or exits with 1
/// (cancelled) or 255 (closed).
pub fn scale_report(result: &ScaleResult) -> (r: (i32, Option<String>))
    ensures
        match result {
            ScaleResult::Value(v) => r.0 == 0 && opt_text(r.1) == Some(signed_decimal(*v as int)),
            ScaleResult::Cancelled => r.0 == 1 && r.1.is_none(),
            ScaleResult::Closed => r.0 == 255 && r.1.is_none(),
        },
{
    match result {
        ScaleResult::Value(v) => (0, Some(string_from_chars(signed_decimal_chars(*v).as_slice()))),
        ScaleResult::Cancelled => (1, None),
        ScaleResult::Closed => (255, None),
    }
}

/// A forms dialog exits with 0 and prints the values joined by the
/// separator, or exits with 1 (cancelled) or 255 (closed).
pub fn forms_report(result: &FormsResult, separator: &str) -> (r: (i32, Option<String>))
    ensures
        match result {
            FormsResult::Values(vs) => r.0 == 0 && opt_text(r.1) == Some(
                join(views(vs@), separator@),
            ),
            FormsResult::Cancelled => r.0 == 1 && r.1.is_none(),
            FormsResult::Closed => r.0 == 255 && r.1.is_none(),
        },
{
    match result {
        FormsResult::Values(vs) => (0, Some(join_strings(vs, separator))),
        FormsResult::Cancelled => (1, None),
        FormsResult::Closed => (255, None),
    }
}

/// The filter a `--file-filter` option describes: `Name | p1 p2 ...` gives
/// the trimmed name and the patterns after the first '|', split at white
/// space; a value without '|' is both the name and the one pattern.
pub open spec fn filter_spec(s: Seq<char>) -> (Seq<char>, Seq<Seq<char>>) {
    let k = index_of(s, '|');
    if k < s.len() {
        (trim(s.take(k as int)), words(s.skip(k + 1 as int)))
    } else {
        (s, seq![s])
    }
}

/// Parses the value of a `--file-filter` option (see `filter_spec`).
pub fn parse_file_filter(spec: &str) -> (r: FileFilter)
    ensures
        (r.name@, views(r.patterns@)) == filter_spec(spec@),
{
    let s = chars_of(spec);
    let k = find_char(s.as_slice(), '|');
    if k < s.len() {
        let head = sub_chars(s.as_slice(), 0, k);
        let name = string_from_chars(trim_chars(head.as_slice()).as_slice());
        let tail = sub_chars(s.as_slice(), k + 1, s.len());
        assert(head@ =~= s@.take(k as int));
        assert(tail@ =~= s@.skip(k + 1));
        let ws = split_words(tail.as_slice());
        let mut patterns: Vec<String> = Vec::new();
        let mut i: usize = 0;
        while i < ws.len()
            invariant
                i <= ws@.len(),
                views(patterns@) == ws@.map_values(|w: Vec<char>| w@).take(i as int),
            decreases ws.len() - i,
        {
            let p = string_from_chars(ws[i].as_slice());
            let ghost p0 = patterns@;
            patterns.push(p);
            assert(views(patterns@) =~= ws@.map_values(|w: Vec<char>| w@).take(i + 1)) by {
                assert(views(patterns@) =~= views(p0).push(p@));
            }
            i += 1;
        }
        assert(ws@.map_values(|w: Vec<char>| w@).take(ws.len() as int) =~= ws@.map_values(
            |w: Vec<char>| w@,
        ));
        FileFilter { name, patterns }
    } else {
        let mut patterns: Vec<String> = Vec::new();
        patterns.push(spec.to_owned());
        assert(views(patterns@) =~= seq![spec@]);
        FileFilter { name: spec.to_owned(), patterns }
    }
}

} // verus!
