//! Calendar date picker: its result, its builder and the way it reacts to
//! keys, clicks and the scroll wheel.

use vstd::prelude::*;

use crate::color::Colors;
use crate::date::{
    date_from_days, days_in_month, first_day_of_month, first_weekday, month_days, next_month_of,
    ordinal, prev_month_of, valid_date, zeller_fits, days_before_year,
};
use crate::events::{KEY_DOWN, KEY_ESCAPE, KEY_LEFT, KEY_RETURN, KEY_RIGHT, KEY_UP, ScrollDirection};
use crate::strutil::{chars_of, decimal, string_from_chars, zero_pad, zero_padded};

verus! {

/// Calendar dialog result.
#[derive(Debug, Clone, Copy, PartialEq, Eq, Structural)]
pub enum CalendarResult {
    /// User selected a date.
    Selected { year: u32, month: u32, day: u32 },
    /// User cancelled.
    Cancelled,
    /// Dialog was closed.
    Closed,
}

/// The date as `YYYY-MM-DD`, each part zero-padded to its width.
pub open spec fn date_text(year: u32, month: u32, day: u32) -> Seq<char> {
    zero_pad(decimal(year as nat), 4) + seq!['-'] + zero_pad(decimal(month as nat), 2) + seq!['-']
        + zero_pad(decimal(day as nat), 2)
}

impl CalendarResult {
    pub fn exit_code(&self) -> (r: i32)
        ensures
            r == match self {
                CalendarResult::Selected { .. } => 0i32,
                CalendarResult::Cancelled => 1i32,
                CalendarResult::Closed => 255i32,
            },
    {
        match self {
            CalendarResult::Selected { .. } => 0,
            CalendarResult::Cancelled => 1,
            CalendarResult::Closed => 255,
        }
    }

    /// Returns the date as a string in YYYY-MM-DD format.
    pub fn to_string(&self) -> (r: Option<String>)
        ensures
            match self {
                CalendarResult::Selected { year, month, day } => r.is_some() && r.unwrap()@
                    == date_text(*year, *month, *day),
                _ => r.is_none(),
            },
    {
        match self {
            CalendarResult::Selected { year, month, day } => {
                let mut v = zero_padded(*year as u64, 4);
                v.push('-');
                let m = zero_padded(*month as u64, 2);
                let d = zero_padded(*day as u64, 2);
                let mut i: usize = 0;
                let ghost v0 = v@;
                while i < m.len()
                    invariant
                        i <= m.len(),
                        v@ == v0 + m@.take(i as int),
                    decreases m.len() - i,
                {
                    v.push(m[i]);
                    assert(m@.take(i + 1) == m@.take(i as int).push(m@[i as int]));
                    i += 1;
                }
                assert(m@.take(m.len() as int) == m@);
                v.push('-');
                let ghost v1 = v@;
                let mut j: usize = 0;
                while j < d.len()
                    invariant
                        j <= d.len(),
                        v@ == v1 + d@.take(j as int),
                    decreases d.len() - j,
                {
                    v.push(d[j]);
                    assert(d@.take(j + 1) == d@.take(j as int).push(d@[j as int]));
                    j += 1;
                }
                assert(d@.take(d.len() as int) == d@);
                assert(v@ =~= date_text(*year, *month, *day));
                Some(string_from_chars(v.as_slice()))
            },
            _ => None,
        }
    }
}

/// What a calendar builder holds.
pub struct CalendarConfig {
    pub title: Seq<char>,
    pub text: Seq<char>,
    pub year: Option<u32>,
    pub month: Option<u32>,
    pub day: Option<u32>,
    pub width: Option<u32>,
    pub height: Option<u32>,
    pub colors: Option<Colors>,
}

/// Calendar dialog builder.
pub struct CalendarBuilder {
    title: String,
    text: String,
    year: Option<u32>,
    month: Option<u32>,
    day: Option<u32>,
    width: Option<u32>,
    height: Option<u32>,
    colors: Option<&'static Colors>,
}

pub open spec fn clamp(v: int, lo: int, hi: int) -> int {
    if v < lo {
        lo
    } else if v > hi {
        hi
    } else {
        v
    }
}

fn clamp_u32(v: u32, lo: u32, hi: u32) -> (r: u32)
    requires
        lo <= hi,
    ensures
        r == clamp(v as int, lo as int, hi as int),
{
    if v < lo {
        lo
    } else if v > hi {
        hi
    } else {
        v
    }
}

pub open spec fn colors_view(c: Option<&'static Colors>) -> Option<Colors> {
    match c {
        Some(c) => Some(*c),
        None => None,
    }
}

impl View for CalendarBuilder {
    type V = CalendarConfig;

    closed spec fn view(&self) -> CalendarConfig {
        CalendarConfig {
            title: self.title@,
            text: self.text@,
            year: self.year,
            month: self.month,
            day: self.day,
            width: self.width,
            height: self.height,
            colors: colors_view(self.colors),
        }
    }
}

impl CalendarBuilder {
    pub fn new() -> (r: Self)
        ensures
            r@ == (CalendarConfig {
                title: Seq::empty(),
                text: Seq::empty(),
                year: None,
                month: None,
                day: None,
                width: None,
                height: None,
                colors: None,
            }),
    {
        CalendarBuilder {
            title: String::new(),
            text: String::new(),
            year: None,
            month: None,
            day: None,
            width: None,
            height: None,
            colors: None,
        }
    }

    pub fn title(self, title: &str) -> (r: Self)
        ensures
            r@ == (CalendarConfig { title: title@, ..self@ }),
    {
        proof {
            use_type_invariant(&self);
        }
        CalendarBuilder { title: title.to_owned(), ..self }
    }

    pub fn text(self, text: &str) -> (r: Self)
        ensures
            r@ == (CalendarConfig { text: text@, ..self@ }),
    {
        proof {
            use_type_invariant(&self);
        }
        CalendarBuilder { text: text.to_owned(), ..self }
    }

    /// Set initial year.
    pub fn year(self, year: u32) -> (r: Self)
        ensures
            r@ == (CalendarConfig { year: Some(year), ..self@ }),
    {
        proof {
            use_type_invariant(&self);
        }
        CalendarBuilder { year: Some(year), ..self }
    }

    /// Set initial month (1-12); other values are clamped into that range.
    pub fn month(self, month: u32) -> (r: Self)
        ensures
            r@ == (CalendarConfig { month: Some(clamp(month as int, 1, 12) as u32), ..self@ }),
    {
        proof {
            use_type_invariant(&self);
        }
        CalendarBuilder { month: Some(clamp_u32(month, 1, 12)), ..self }
    }

    /// Set initial day (1-31); other values are clamped into that range.
    pub fn day(self, day: u32) -> (r: Self)
        ensures
            r@ == (CalendarConfig { day: Some(clamp(day as int, 1, 31) as u32), ..self@ }),
    {
        proof {
            use_type_invariant(&self);
        }
        CalendarBuilder { day: Some(clamp_u32(day, 1, 31)), ..self }
    }

    pub fn colors(self, colors: &'static Colors) -> (r: Self)
        ensures
            r@ == (CalendarConfig { colors: Some(*colors), ..self@ }),
    {
        proof {
            use_type_invariant(&self);
        }
        CalendarBuilder { colors: Some(colors), ..self }
    }

    pub fn width(self, width: u32) -> (r: Self)
        ensures
            r@ == (CalendarConfig { width: Some(width), ..self@ }),
    {
        proof {
            use_type_invariant(&self);
        }
        CalendarBuilder { width: Some(width), ..self }
    }

    pub fn height(self, height: u32) -> (r: Self)
        ensures
            r@ == (CalendarConfig { height: Some(height), ..self@ }),
    {
        proof {
            use_type_invariant(&self);
        }
        CalendarBuilder { height: Some(height), ..self }
    }

    /// The dialog title; "Select Date" when none was set.
    pub fn window_title(&self) -> (r: String)
        ensures
            r@ == (if self@.title.len() == 0 {
                "Select Date"@
            } else {
                self@.title
            }),
    {
        if self.title.as_str().is_empty() {
            "Select Date".to_owned()
        } else {
            self.title.clone()
        }
    }

    /// The prompt shown above the calendar.
    pub fn prompt(&self) -> (r: String)
        ensures
            r@ == self@.text,
    {
        self.text.clone()
    }

    pub fn size(&self) -> (r: (Option<u32>, Option<u32>))
        ensures
            r == (self@.width, self@.height),
    {
        (self.width, self.height)
    }

    pub fn theme(&self) -> (r: Option<&'static Colors>)
        ensures
            colors_view(r) == self@.colors,
    {
        self.colors
    }

    /// The state the dialog opens in: the configured date, with today's
    /// year, month and day standing in for those not configured, and the
    /// day brought down to the last day of the month where the month is
    /// shorter.
    pub fn initial_state(&self, today: (u32, u32, u32)) -> (s: CalendarState)
        requires
            valid_date(today.0 as int, today.1 as int, today.2 as int),
        ensures
            s == initial_spec(self@, today),
            s.wf(),
            s.on_valid_date(),
    {
        proof {
            assert(month_days(today.0 as int, today.1 as int) <= 31);
        }
        let year = match self.year {
            Some(y) => y,
            None => today.0,
        };
        let month = match self.month {
            Some(m) => m,
            None => today.1,
        };
        let day = match self.day {
            Some(d) => d,
            None => today.2,
        };
        proof {
            use_type_invariant(self);
        }
        let mut s = CalendarState {
            year,
            month,
            selected_day: day,
            hovered_day: None,
            dropdown: DropdownState::Hidden,
            dropdown_hover: None,
            year_scroll_offset: 0,
        };
        s.fit_day();
        s
    }
}

impl CalendarBuilder {
    /// A configured month or day always lies within its range.
    #[verifier::type_invariant]
    spec fn ranges_ok(&self) -> bool {
        &&& (self.month matches Some(m) ==> 1 <= m <= 12)
        &&& (self.day matches Some(d) ==> 1 <= d <= 31)
    }
}

pub open spec fn initial_spec(c: CalendarConfig, today: (u32, u32, u32)) -> CalendarState {
    fit_day(CalendarState {
        year: match c.year {
            Some(y) => y,
            None => today.0,
        },
        month: match c.month {
            Some(m) => m,
            None => today.1,
        },
        selected_day: match c.day {
            Some(d) => d,
            None => today.2,
        },
        hovered_day: None,
        dropdown: DropdownState::Hidden,
        dropdown_hover: None,
        year_scroll_offset: 0,
    })
}

impl Default for CalendarBuilder {
    fn default() -> Self {
        Self::new()
    }
}

/// Which dropdown list is open over the header.
#[derive(Debug, Clone, Copy, PartialEq, Eq, Structural)]
pub enum DropdownState {
    Hidden,
    Month,
    Year,
}

/// The part of the header a click landed on.
#[derive(Debug, Clone, Copy, PartialEq, Eq, Structural)]
pub enum HeaderTarget {
    PrevMonth,
    MonthName,
    Year,
    Today,
    NextMonth,
    Nothing,
}

/// What the dialog does after an event.
#[derive(Debug, Clone, Copy, PartialEq, Eq, Structural)]
pub enum CalendarStep {
    /// Keep going; redraw when the flag is set.
    Continue(bool),
    /// Close the dialog with this result.
    Finish(CalendarResult),
}

/// The state of an open calendar dialog.
#[derive(Debug, Clone, Copy, PartialEq, Eq, Structural)]
pub struct CalendarState {
    pub year: u32,
    pub month: u32,
    pub selected_day: u32,
    pub hovered_day: Option<u32>,
    pub dropdown: DropdownState,
    pub dropdown_hover: Option<usize>,
    pub year_scroll_offset: i32,
}

/// Number of entries of an open dropdown: twelve months or eleven years.
pub open spec fn dropdown_len(d: DropdownState) -> int {
    match d {
        DropdownState::Month => 12,
        DropdownState::Year => 11,
        DropdownState::Hidden => 0,
    }
}

impl CalendarState {
    /// A month of the year is shown, the selected and the hovered day are
    /// days that some month has, and a highlighted dropdown entry exists.
    pub open spec fn wf(self) -> bool {
        &&& 1 <= self.month <= 12
        &&& 1 <= self.selected_day <= 31
        &&& (self.hovered_day matches Some(d) ==> 1 <= d <= 31)
        &&& (self.dropdown_hover matches Some(i) ==> self.dropdown != DropdownState::Hidden && i
            < dropdown_len(self.dropdown))
    }

    /// The selected day is a day of the shown month.
    pub open spec fn on_valid_date(self) -> bool {
        valid_date(self.year as int, self.month as int, self.selected_day as int)
    }

    pub open spec fn result(self) -> CalendarResult {
        CalendarResult::Selected { year: self.year, month: self.month, day: self.selected_day }
    }
}

/// The selected day kept within the length of the shown month.
pub open spec fn fit_day(s: CalendarState) -> CalendarState {
    let dim = month_days(s.year as int, s.month as int);
    CalendarState {
        selected_day: if s.selected_day < dim {
            s.selected_day
        } else {
            dim as u32
        },
        ..s
    }
}

/// One month back (header arrow), keeping the selected day within the month.
pub open spec fn prev_month_spec(s: CalendarState) -> CalendarState {
    let (y, m) = prev_month_of(s.year as int, s.month as int);
    fit_day(CalendarState { year: y as u32, month: m as u32, ..s })
}

/// One month forward (header arrow), keeping the selected day within the month.
pub open spec fn next_month_spec(s: CalendarState) -> CalendarState {
    let (y, m) = next_month_of(s.year as int, s.month as int);
    fit_day(CalendarState { year: y as u32, month: m as u32, ..s })
}

/// The year chosen from entry `idx` of the year dropdown, at least 1.
pub open spec fn year_pick(year: u32, offset: i32, idx: usize) -> int {
    let v = (year as i32) - 5 + offset + (idx as i32);
    if v < 1 {
        1
    } else {
        v
    }
}

/// Picking entry `idx` of the year dropdown is computed without overflow.
pub open spec fn year_pick_fits(year: u32, offset: i32, idx: usize) -> bool {
    &&& i32::MIN <= (year as i32) - 5 <= i32::MAX
    &&& i32::MIN <= (year as i32) - 5 + offset <= i32::MAX
    &&& i32::MIN <= (year as i32) - 5 + offset + (idx as i32) <= i32::MAX
}

/// The highlighted dropdown entry taken: a month or a year.
pub open spec fn pick_spec(s: CalendarState) -> CalendarState {
    let t = match s.dropdown_hover {
        Some(idx) => match s.dropdown {
            DropdownState::Month => fit_day(CalendarState { month: (idx + 1) as u32, ..s }),
            DropdownState::Year => fit_day(
                CalendarState { year: year_pick(s.year, s.year_scroll_offset, idx) as u32, ..s },
            ),
            DropdownState::Hidden => s,
        },
        None => s,
    };
    CalendarState { dropdown: DropdownState::Hidden, dropdown_hover: None, ..t }
}

/// Taking the highlighted entry involves no overflow.
pub open spec fn pick_ok(s: CalendarState) -> bool {
    s.dropdown == DropdownState::Year && s.dropdown_hover.is_some() ==> year_pick_fits(
        s.year,
        s.year_scroll_offset,
        s.dropdown_hover.unwrap(),
    )
}

/// The month can be stepped back and forth without leaving the `u32` years.
pub open spec fn can_go_back(s: CalendarState) -> bool {
    !(s.month == 1 && s.year == 0)
}

pub open spec fn can_go_forward(s: CalendarState) -> bool {
    !(s.month == 12 && s.year == u32::MAX)
}

/// The effect of an arrow key on the selected day, with no dropdown open.
pub open spec fn day_key_spec(s: CalendarState, keysym: u32) -> CalendarState {
    let dim = month_days(s.year as int, s.month as int);
    let (py, pm) = prev_month_of(s.year as int, s.month as int);
    let (ny, nm) = next_month_of(s.year as int, s.month as int);
    if keysym == KEY_LEFT {
        if s.selected_day > 1 {
            CalendarState { selected_day: (s.selected_day - 1) as u32, ..s }
        } else {
            CalendarState {
                year: py as u32,
                month: pm as u32,
                selected_day: month_days(py, pm) as u32,
                ..s
            }
        }
    } else if keysym == KEY_RIGHT {
        if s.selected_day < dim {
            CalendarState { selected_day: (s.selected_day + 1) as u32, ..s }
        } else {
            CalendarState { year: ny as u32, month: nm as u32, selected_day: 1, ..s }
        }
    } else if keysym == KEY_UP {
        if s.selected_day > 7 {
            CalendarState { selected_day: (s.selected_day - 7) as u32, ..s }
        } else {
            CalendarState {
                year: py as u32,
                month: pm as u32,
                selected_day: (month_days(py, pm) - (7 - s.selected_day)) as u32,
                ..s
            }
        }
    } else if keysym == KEY_DOWN {
        if s.selected_day + 7 <= dim {
            CalendarState { selected_day: (s.selected_day + 7) as u32, ..s }
        } else {
            CalendarState {
                year: ny as u32,
                month: nm as u32,
                selected_day: (s.selected_day + 7 - dim) as u32,
                ..s
            }
        }
    } else {
        s
    }
}

/// An arrow key with no dropdown open stays within the `u32` years.
pub open spec fn day_key_ok(s: CalendarState, keysym: u32) -> bool {
    let dim = month_days(s.year as int, s.month as int);
    &&& (keysym == KEY_LEFT && s.selected_day <= 1 ==> can_go_back(s))
    &&& (keysym == KEY_UP && s.selected_day <= 7 ==> can_go_back(s))
    &&& (keysym == KEY_RIGHT && s.selected_day >= dim ==> can_go_forward(s))
    &&& (keysym == KEY_DOWN && s.selected_day + 7 > dim ==> can_go_forward(s))
}

/// A key pressed while a dropdown is open.
pub open spec fn dropdown_key_spec(s: CalendarState, keysym: u32) -> CalendarState {
    let cur: int = match s.dropdown_hover {
        Some(i) => i as int,
        None => 0,
    };
    if keysym == KEY_ESCAPE {
        CalendarState { dropdown: DropdownState::Hidden, dropdown_hover: None, ..s }
    } else if keysym == KEY_UP {
        if cur > 0 {
            CalendarState { dropdown_hover: Some((cur - 1) as usize), ..s }
        } else if s.dropdown == DropdownState::Year {
            CalendarState { year_scroll_offset: (s.year_scroll_offset - 1) as i32, ..s }
        } else {
            s
        }
    } else if keysym == KEY_DOWN {
        if cur + 1 < dropdown_len(s.dropdown) {
            CalendarState { dropdown_hover: Some((cur + 1) as usize), ..s }
        } else if s.dropdown == DropdownState::Year {
            CalendarState { year_scroll_offset: (s.year_scroll_offset + 1) as i32, ..s }
        } else {
            s
        }
    } else if keysym == KEY_RETURN {
        pick_spec(s)
    } else {
        s
    }
}

pub open spec fn dropdown_key_ok(s: CalendarState, keysym: u32) -> bool {
    &&& (keysym == KEY_UP ==> s.year_scroll_offset > i32::MIN)
    &&& (keysym == KEY_DOWN ==> s.year_scroll_offset < i32::MAX)
    &&& (keysym == KEY_RETURN ==> pick_ok(s))
}

/// Whether a key is one the dropdown reacts to (those redraw).
pub open spec fn dropdown_key_handled(keysym: u32) -> bool {
    keysym == KEY_ESCAPE || keysym == KEY_UP || keysym == KEY_DOWN || keysym == KEY_RETURN
}

/// The effect of a key press: the next state and what the dialog does.
pub open spec fn key_spec(s: CalendarState, keysym: u32) -> (CalendarState, CalendarStep) {
    if s.dropdown != DropdownState::Hidden {
        (dropdown_key_spec(s, keysym), CalendarStep::Continue(dropdown_key_handled(keysym)))
    } else if keysym == KEY_RETURN {
        (s, CalendarStep::Finish(s.result()))
    } else if keysym == KEY_ESCAPE {
        (s, CalendarStep::Finish(CalendarResult::Closed))
    } else if keysym == KEY_LEFT || keysym == KEY_RIGHT || keysym == KEY_UP || keysym == KEY_DOWN {
        (day_key_spec(s, keysym), CalendarStep::Continue(true))
    } else {
        (s, CalendarStep::Continue(false))
    }
}

pub open spec fn key_ok(s: CalendarState, keysym: u32) -> bool {
    if s.dropdown != DropdownState::Hidden {
        dropdown_key_ok(s, keysym)
    } else {
        day_key_ok(s, keysym)
    }
}

/// The day shown in grid cell `(row, col)` of the month, if any.
pub open spec fn day_at_cell_spec(year: u32, month: u32, row: int, col: int) -> Option<u32> {
    let day = row * 7 + col - first_weekday(year, month) + 1;
    if 1 <= day <= month_days(year as int, month as int) {
        Some(day as u32)
    } else {
        None
    }
}

/// A click on the header.
pub open spec fn header_spec(s: CalendarState, target: HeaderTarget, today: (u32, u32, u32)) -> (
    CalendarState,
    bool,
) {
    match target {
        HeaderTarget::PrevMonth => (prev_month_spec(s), true),
        HeaderTarget::MonthName => (
            CalendarState {
                dropdown: DropdownState::Month,
                dropdown_hover: Some((s.month - 1) as usize),
                ..s
            },
            true,
        ),
        HeaderTarget::Year => (
            CalendarState {
                dropdown: DropdownState::Year,
                dropdown_hover: Some(5),
                year_scroll_offset: 0,
                ..s
            },
            true,
        ),
        HeaderTarget::Today => (
            CalendarState { year: today.0, month: today.1, selected_day: today.2, ..s },
            true,
        ),
        HeaderTarget::NextMonth => (next_month_spec(s), true),
        HeaderTarget::Nothing => (s, false),
    }
}

pub open spec fn header_ok(s: CalendarState, target: HeaderTarget) -> bool {
    &&& (target == HeaderTarget::PrevMonth ==> can_go_back(s))
    &&& (target == HeaderTarget::NextMonth ==> can_go_forward(s))
}

impl CalendarState {
    fn fit_day(&mut self)
        requires
            1 <= old(self).month <= 12,
        ensures
            *final(self) == fit_day(*old(self)),
    {
        let dim = days_in_month(self.year, self.month);
        if self.selected_day >= dim {
            self.selected_day = dim;
        }
    }

    /// One month back, as the header's left arrow does.
    pub fn prev_month(&mut self)
        requires
            old(self).wf(),
            can_go_back(*old(self)),
        ensures
            *final(self) == prev_month_spec(*old(self)),
    {
        if self.month == 1 {
            self.month = 12;
            self.year = self.year - 1;
        } else {
            self.month = self.month - 1;
        }
        self.fit_day();
    }

    /// One month forward, as the header's right arrow does.
    pub fn next_month(&mut self)
        requires
            old(self).wf(),
            can_go_forward(*old(self)),
        ensures
            *final(self) == next_month_spec(*old(self)),
    {
        if self.month == 12 {
            self.month = 1;
            self.year = self.year + 1;
        } else {
            self.month = self.month + 1;
        }
        self.fit_day();
    }

    /// Takes the highlighted entry of the open dropdown and closes it.
    pub fn pick_dropdown_entry(&mut self)
        requires
            old(self).wf(),
            pick_ok(*old(self)),
        ensures
            *final(self) == pick_spec(*old(self)),
    {
        if let Some(idx) = self.dropdown_hover {
            match self.dropdown {
                DropdownState::Month => {
                    self.month = idx as u32 + 1;
                    self.fit_day();
                },
                DropdownState::Year => {
                    let base_year = self.year as i32 - 5 + self.year_scroll_offset;
                    let v = base_year + idx as i32;
                    self.year = if v < 1 {
                        1
                    } else {
                        v as u32
                    };
                    self.fit_day();
                },
                DropdownState::Hidden => {},
            }
        }
        self.dropdown = DropdownState::Hidden;
        self.dropdown_hover = None;
    }

    /// Handles a key press.
    pub fn key_press(&mut self, keysym: u32) -> (step: CalendarStep)
        requires
            old(self).wf(),
            key_ok(*old(self), keysym),
        ensures
            (*final(self), step) == key_spec(*old(self), keysym),
    {
        if self.dropdown != DropdownState::Hidden {
            let max_items: usize = match self.dropdown {
                DropdownState::Month => 12,
                DropdownState::Year => 11,
                DropdownState::Hidden => 0,
            };
            if keysym == KEY_ESCAPE {
                self.dropdown = DropdownState::Hidden;
                self.dropdown_hover = None;
                CalendarStep::Continue(true)
            } else if keysym == KEY_UP {
                let current = match self.dropdown_hover {
                    Some(i) => i,
                    None => 0,
                };
                if current > 0 {
                    self.dropdown_hover = Some(current - 1);
                } else if self.dropdown == DropdownState::Year {
                    self.year_scroll_offset = self.year_scroll_offset - 1;
                }
                CalendarStep::Continue(true)
            } else if keysym == KEY_DOWN {
                let current = match self.dropdown_hover {
                    Some(i) => i,
                    None => 0,
                };
                if current + 1 < max_items {
                    self.dropdown_hover = Some(current + 1);
                } else if self.dropdown == DropdownState::Year {
                    self.year_scroll_offset = self.year_scroll_offset + 1;
                }
                CalendarStep::Continue(true)
            } else if keysym == KEY_RETURN {
                self.pick_dropdown_entry();
                CalendarStep::Continue(true)
            } else {
                CalendarStep::Continue(false)
            }
        } else if keysym == KEY_LEFT {
            if self.selected_day > 1 {
                self.selected_day = self.selected_day - 1;
            } else {
                if self.month == 1 {
                    self.month = 12;
                    self.year = self.year - 1;
                } else {
                    self.month = self.month - 1;
                }
                self.selected_day = days_in_month(self.year, self.month);
            }
            CalendarStep::Continue(true)
        } else if keysym == KEY_RIGHT {
            if self.selected_day < days_in_month(self.year, self.month) {
                self.selected_day = self.selected_day + 1;
            } else {
                if self.month == 12 {
                    self.month = 1;
                    self.year = self.year + 1;
                } else {
                    self.month = self.month + 1;
                }
                self.selected_day = 1;
            }
            CalendarStep::Continue(true)
        } else if keysym == KEY_UP {
            if self.selected_day > 7 {
                self.selected_day = self.selected_day - 7;
            } else {
                if self.month == 1 {
                    self.month = 12;
                    self.year = self.year - 1;
                } else {
                    self.month = self.month - 1;
                }
                let days_prev = days_in_month(self.year, self.month);
                self.selected_day = days_prev - (7 - self.selected_day);
            }
            CalendarStep::Continue(true)
        } else if keysym == KEY_DOWN {
            let days_in = days_in_month(self.year, self.month);
            if self.selected_day + 7 <= days_in {
                self.selected_day = self.selected_day + 7;
            } else {
                let overflow = self.selected_day + 7 - days_in;
                if self.month == 12 {
                    self.month = 1;
                    self.year = self.year + 1;
                } else {
                    self.month = self.month + 1;
                }
                self.selected_day = overflow;
            }
            CalendarStep::Continue(true)
        } else if keysym == KEY_RETURN {
            CalendarStep::Finish(
                CalendarResult::Selected {
                    year: self.year,
                    month: self.month,
                    day: self.selected_day,
                },
            )
        } else if keysym == KEY_ESCAPE {
            CalendarStep::Finish(CalendarResult::Closed)
        } else {
            CalendarStep::Continue(false)
        }
    }

    /// The day shown in grid cell `(row, col)` of the shown month, if any.
    /// The OK button: the dialog ends with the selected date.
    pub fn ok_clicked(&self) -> (step: CalendarStep)
        ensures
            step == CalendarStep::Finish(self.result()),
    {
        CalendarStep::Finish(
            CalendarResult::Selected { year: self.year, month: self.month, day: self.selected_day },
        )
    }

    pub fn day_at_cell(&self, row: i32, col: i32) -> (r: Option<u32>)
        requires
            1 <= self.month <= 12,
            zeller_fits(self.year, self.month),
            0 <= row < 6,
            0 <= col < 7,
        ensures
            r == day_at_cell_spec(self.year, self.month, row as int, col as int),
    {
        let cell_idx = row * 7 + col;
        let first_day = first_day_of_month(self.year, self.month);
        let days_in = days_in_month(self.year, self.month);
        let day = cell_idx - first_day as i32 + 1;
        if day >= 1 && day <= days_in as i32 {
            Some(day as u32)
        } else {
            None
        }
    }

    /// The pointer moved over the day grid (`Some((row, col))`) or off it;
    /// returns whether the hovered day changed.
    pub fn hover_cell(&mut self, cell: Option<(i32, i32)>) -> (changed: bool)
        requires
            old(self).wf(),
            zeller_fits(old(self).year, old(self).month),
            cell matches Some((r, c)) ==> 0 <= r < 6 && 0 <= c < 7,
        ensures
            final(self).hovered_day == (match cell {
                Some((r, c)) => day_at_cell_spec(old(self).year, old(self).month, r as int, c as int),
                None => None,
            }),
            *final(self) == (CalendarState { hovered_day: final(self).hovered_day, ..*old(self) }),
            changed == (final(self).hovered_day != old(self).hovered_day),
            final(self).wf(),
    {
        let old_hovered = self.hovered_day;
        let new_hovered = match cell {
            Some((r, c)) => self.day_at_cell(r, c),
            None => None,
        };
        self.hovered_day = new_hovered;
        old_hovered != new_hovered
    }

    /// The pointer moved over the open dropdown's entry `entry` (or off the
    /// list); returns whether the highlight changed.
    pub fn hover_dropdown(&mut self, entry: Option<usize>) -> (changed: bool)
        requires
            old(self).wf(),
            old(self).dropdown != DropdownState::Hidden,
            entry matches Some(i) ==> i < dropdown_len(old(self).dropdown),
        ensures
            *final(self) == (CalendarState { dropdown_hover: entry, ..*old(self) }),
            changed == (entry != old(self).dropdown_hover),
    {
        let changed = entry != self.dropdown_hover;
        self.dropdown_hover = entry;
        changed
    }

    /// A left click away from the header: picks the highlighted dropdown
    /// entry when a dropdown is open, else selects the hovered day when it
    /// is a day of the shown month. A click keeps the selection a real date.
    pub fn click(&mut self) -> (redraw: bool)
        requires
            old(self).wf(),
            pick_ok(*old(self)),
        ensures
            final(self).wf(),
            old(self).dropdown != DropdownState::Hidden ==> *final(self) == pick_spec(*old(self)) && redraw,
            old(self).dropdown == DropdownState::Hidden ==> match old(self).hovered_day {
                Some(d) => if d <= month_days(old(self).year as int, old(self).month as int) {
                    *final(self) == (CalendarState { selected_day: d, ..*old(self) }) && redraw
                } else {
                    *final(self) == *old(self) && !redraw
                },
                None => *final(self) == *old(self) && !redraw,
            },
            old(self).on_valid_date() ==> final(self).on_valid_date(),
            redraw && old(self).dropdown == DropdownState::Hidden ==> final(self).on_valid_date(),
    {
        if self.dropdown != DropdownState::Hidden {
            self.pick_dropdown_entry();
            true
        } else if let Some(day) = self.hovered_day {
            if day <= days_in_month(self.year, self.month) {
                self.selected_day = day;
                true
            } else {
                false
            }
        } else {
            false
        }
    }

    /// A left click on the header (with no dropdown open).
    pub fn header_click(&mut self, target: HeaderTarget, today: (u32, u32, u32)) -> (redraw: bool)
        requires
            old(self).wf(),
            header_ok(*old(self), target),
        ensures
            (*final(self), redraw) == header_spec(*old(self), target, today),
    {
        match target {
            HeaderTarget::PrevMonth => {
                self.prev_month();
                true
            },
            HeaderTarget::MonthName => {
                self.dropdown = DropdownState::Month;
                self.dropdown_hover = Some((self.month - 1) as usize);
                true
            },
            HeaderTarget::Year => {
                self.dropdown = DropdownState::Year;
                self.dropdown_hover = Some(5);
                self.year_scroll_offset = 0;
                true
            },
            HeaderTarget::Today => {
                self.year = today.0;
                self.month = today.1;
                self.selected_day = today.2;
                true
            },
            HeaderTarget::NextMonth => {
                self.next_month();
                true
            },
            HeaderTarget::Nothing => false,
        }
    }

    /// The scroll wheel: scrolls the year dropdown when it is open.
    pub fn scroll(&mut self, dir: ScrollDirection) -> (redraw: bool)
        requires
            dir == ScrollDirection::Up ==> old(self).year_scroll_offset > i32::MIN,
            dir == ScrollDirection::Down ==> old(self).year_scroll_offset < i32::MAX,
        ensures
            old(self).dropdown == DropdownState::Year && dir == ScrollDirection::Up ==> *final(self) == (
            CalendarState { year_scroll_offset: (old(self).year_scroll_offset - 1) as i32, ..*old(self) })
                && redraw,
            old(self).dropdown == DropdownState::Year && dir == ScrollDirection::Down ==> *final(self) == (
            CalendarState { year_scroll_offset: (old(self).year_scroll_offset + 1) as i32, ..*old(self) })
                && redraw,
            !(old(self).dropdown == DropdownState::Year && (dir == ScrollDirection::Up || dir
                == ScrollDirection::Down)) ==> *final(self) == *old(self) && !redraw,
    {
        if self.dropdown == DropdownState::Year {
            match dir {
                ScrollDirection::Up => {
                    self.year_scroll_offset = self.year_scroll_offset - 1;
                    true
                },
                ScrollDirection::Down => {
                    self.year_scroll_offset = self.year_scroll_offset + 1;
                    true
                },
                _ => false,
            }
        } else {
            false
        }
    }
}

/// Every key press keeps the state well formed.
pub proof fn law_keys_keep_state_well_formed(s: CalendarState, keysym: u32)
    requires
        s.wf(),
    ensures
        key_spec(s, keysym).0.wf(),
{
    let dim = month_days(s.year as int, s.month as int);
    assert(28 <= dim <= 31);
}

/// From a real date, the arrow keys move to a real date.
pub proof fn law_arrow_keys_keep_real_dates(s: CalendarState, keysym: u32)
    requires
        s.wf(),
        s.on_valid_date(),
        s.dropdown == DropdownState::Hidden,
    ensures
        key_spec(s, keysym).0.on_valid_date(),
{
}

/// With no dropdown open, the right and down arrows move the selection one
/// day and one week later in the calendar, the left and up arrows one day and
/// one week earlier.
pub proof fn law_arrow_keys_move_by_days(s: CalendarState)
    requires
        s.wf(),
        s.on_valid_date(),
        s.dropdown == DropdownState::Hidden,
        can_go_back(s),
        can_go_forward(s),
    ensures
        ({
            let r = key_spec(s, KEY_RIGHT).0;
            ordinal(r.year as nat, r.month as int, r.selected_day as int) == ordinal(
                s.year as nat,
                s.month as int,
                s.selected_day as int,
            ) + 1
        }),
        ({
            let l = key_spec(s, KEY_LEFT).0;
            ordinal(l.year as nat, l.month as int, l.selected_day as int) == ordinal(
                s.year as nat,
                s.month as int,
                s.selected_day as int,
            ) - 1
        }),
        ({
            let d = key_spec(s, KEY_DOWN).0;
            ordinal(d.year as nat, d.month as int, d.selected_day as int) == ordinal(
                s.year as nat,
                s.month as int,
                s.selected_day as int,
            ) + 7
        }),
        ({
            let u = key_spec(s, KEY_UP).0;
            ordinal(u.year as nat, u.month as int, u.selected_day as int) == ordinal(
                s.year as nat,
                s.month as int,
                s.selected_day as int,
            ) - 7
        }),
{
    crate::date::lemma_ordinal_next_month(s.year as nat, s.month as int);
    let (py, pm) = prev_month_of(s.year as int, s.month as int);
    crate::date::lemma_ordinal_next_month(py as nat, pm);
}

/// An arrow key undone by the opposite arrow returns to the same date.
pub proof fn law_opposite_arrows_cancel(s: CalendarState)
    requires
        s.wf(),
        s.on_valid_date(),
        s.dropdown == DropdownState::Hidden,
        can_go_back(s),
        can_go_forward(s),
    ensures
        ({
            let t = key_spec(key_spec(s, KEY_RIGHT).0, KEY_LEFT).0;
            (t.year, t.month, t.selected_day) == (s.year, s.month, s.selected_day)
        }),
        ({
            let t = key_spec(key_spec(s, KEY_LEFT).0, KEY_RIGHT).0;
            (t.year, t.month, t.selected_day) == (s.year, s.month, s.selected_day)
        }),
        ({
            let t = key_spec(key_spec(s, KEY_DOWN).0, KEY_UP).0;
            (t.year, t.month, t.selected_day) == (s.year, s.month, s.selected_day)
        }),
        ({
            let t = key_spec(key_spec(s, KEY_UP).0, KEY_DOWN).0;
            (t.year, t.month, t.selected_day) == (s.year, s.month, s.selected_day)
        }),
{
}

/// `r` is the date of the day on which `secs` seconds after 1970-01-01
/// fall, or `None` exactly when that day lies beyond the years a `u32`
/// holds.
pub open spec fn date_at_second(r: Option<(u32, u32, u32)>, secs: u64) -> bool {
    let days = days_before_year(1970) + secs / 86400;
    match r {
        Some((y, m, d)) => valid_date(y as int, m as int, d as int) && ordinal(
            y as nat,
            m as int,
            d as int,
        ) == days,
        None => days >= days_before_year(0x1_0000_0000),
    }
}

/// Today's date: the date at the second the system clock shows (see
/// `date_at_second`). Which second that is, is not stated.
pub fn current_date() -> (r: Option<(u32, u32, u32)>)
    ensures
        exists|secs: u64| #[trigger] date_at_second(r, secs),
{
    let secs = unix_time_secs();
    let r = date_from_days(secs / 86400);
    assert(date_at_second(r, secs));
    r
}

/// Reads the system clock: whole seconds since 1970-01-01 00:00:00 UTC (0
/// when the clock lies before that), as `SystemTime::now` gives it. Nothing
/// is promised of the value: it is the time.
#[verifier::external_body]
pub(crate) fn unix_time_secs() -> u64 {
    std::time::SystemTime::now().duration_since(std::time::UNIX_EPOCH).unwrap_or_default().as_secs()
}

/// English month name (`"Unknown"` for a number that is no month).
pub open spec fn month_name_spec(month: u32) -> Seq<char> {
    if month == 1 {
        "January"@
    } else if month == 2 {
        "February"@
    } else if month == 3 {
        "March"@
    } else if month == 4 {
        "April"@
    } else if month == 5 {
        "May"@
    } else if month == 6 {
        "June"@
    } else if month == 7 {
        "July"@
    } else if month == 8 {
        "August"@
    } else if month == 9 {
        "September"@
    } else if month == 10 {
        "October"@
    } else if month == 11 {
        "November"@
    } else if month == 12 {
        "December"@
    } else {
        "Unknown"@
    }
}

pub fn month_name(month: u32) -> (r: &'static str)
    ensures
        r@ == month_name_spec(month),
{
    match month {
        1 => "January",
        2 => "February",
        3 => "March",
        4 => "April",
        5 => "May",
        6 => "June",
        7 => "July",
        8 => "August",
        9 => "September",
        10 => "October",
        11 => "November",
        12 => "December",
        _ => "Unknown",
    }
}

/// Creates a new calendar date picker dialog builder.
pub fn calendar() -> (r: CalendarBuilder)
    ensures
        r@ == (CalendarConfig {
            title: Seq::empty(),
            text: Seq::empty(),
            year: None,
            month: None,
            day: None,
            width: None,
            height: None,
            colors: None,
        }),
{
    CalendarBuilder::new()
}


/// With a dropdown open, the keys work on its list: Up and Down move the
/// highlight one entry (past the first or last year entry they scroll the
/// year list instead), Escape closes the list, Enter takes the highlighted
/// month or year (keeping the selected day within the month) and closes
/// the list; every other key does nothing. Only the highlight, the list and
/// the taken month or year change.
pub proof fn law_dropdown_keys(s: CalendarState, keysym: u32)
    requires
        s.wf(),
        s.dropdown != DropdownState::Hidden,
        key_ok(s, keysym),
    ensures
        ({
            let (t, step) = key_spec(s, keysym);
            let len: int = if s.dropdown == DropdownState::Month {
                12
            } else {
                11
            };
            let cur: int = match s.dropdown_hover {
                Some(i) => i as int,
                None => 0,
            };
            &&& keysym == KEY_UP ==> step == CalendarStep::Continue(true) && t == (if cur > 0 {
                CalendarState { dropdown_hover: Some((cur - 1) as usize), ..s }
            } else if s.dropdown == DropdownState::Year {
                CalendarState { year_scroll_offset: (s.year_scroll_offset - 1) as i32, ..s }
            } else {
                s
            })
            &&& keysym == KEY_DOWN ==> step == CalendarStep::Continue(true) && t == (if cur + 1
                < len {
                CalendarState { dropdown_hover: Some((cur + 1) as usize), ..s }
            } else if s.dropdown == DropdownState::Year {
                CalendarState { year_scroll_offset: (s.year_scroll_offset + 1) as i32, ..s }
            } else {
                s
            })
            &&& keysym == KEY_ESCAPE ==> step == CalendarStep::Continue(true) && t
                == CalendarState { dropdown: DropdownState::Hidden, dropdown_hover: None, ..s }
            &&& keysym == KEY_RETURN ==> {
                &&& step == CalendarStep::Continue(true)
                &&& t.dropdown == DropdownState::Hidden && t.dropdown_hover is None
                &&& t.hovered_day == s.hovered_day && t.year_scroll_offset == s.year_scroll_offset
                &&& match s.dropdown_hover {
                    None => t == CalendarState {
                        dropdown: DropdownState::Hidden,
                        dropdown_hover: None,
                        ..s
                    },
                    Some(i) => {
                        &&& s.dropdown == DropdownState::Month ==> t.month == i + 1 && t.year
                            == s.year
                        &&& s.dropdown == DropdownState::Year && s.year <= i32::MAX ==> t.month
                            == s.month && t.year == (if s.year - 5 + s.year_scroll_offset + i
                            >= 1 {
                            s.year - 5 + s.year_scroll_offset + i
                        } else {
                            1
                        })
                        &&& t.selected_day == (if s.selected_day <= month_days(
                            t.year as int,
                            t.month as int,
                        ) {
                            s.selected_day as int
                        } else {
                            month_days(t.year as int, t.month as int)
                        })
                    },
                }
            }
            &&& !(keysym == KEY_UP || keysym == KEY_DOWN || keysym == KEY_ESCAPE || keysym
                == KEY_RETURN) ==> t == s && step == CalendarStep::Continue(false)
        }),
{
}

/// With no dropdown open, Enter ends the dialog with the selected date,
/// Escape closes it, and keys other than the arrows do nothing.
pub proof fn law_date_keys_finish(s: CalendarState, keysym: u32)
    requires
        s.wf(),
        s.dropdown == DropdownState::Hidden,
    ensures
        ({
            let (t, step) = key_spec(s, keysym);
            &&& keysym == KEY_RETURN ==> t == s && step == CalendarStep::Finish(
                CalendarResult::Selected { year: s.year, month: s.month, day: s.selected_day },
            )
            &&& keysym == KEY_ESCAPE ==> t == s && step == CalendarStep::Finish(CalendarResult::Closed)
            &&& !(keysym == KEY_RETURN || keysym == KEY_ESCAPE || keysym == KEY_LEFT || keysym
                == KEY_RIGHT || keysym == KEY_UP || keysym == KEY_DOWN) ==> t == s && step
                == CalendarStep::Continue(false)
        }),
{
}


/// The header: its left arrow shows the month before (December of the year
/// before, from January) and its right arrow the month after (January of
/// the next year, from December), each keeping the selected day within the
/// new month; the month name opens the month list with the shown month
/// highlighted, the year opens the year list with the shown year
/// highlighted in the middle; Today selects today's date. Each redraws;
/// clicking elsewhere on the header does nothing.
pub proof fn law_header_clicks(s: CalendarState, target: HeaderTarget, today: (u32, u32, u32))
    requires
        s.wf(),
        header_ok(s, target),
    ensures
        ({
            let (t, redraw) = header_spec(s, target, today);
            let keep = |y: int, m: int| (if s.selected_day <= month_days(y, m) {
                s.selected_day as int
            } else {
                month_days(y, m)
            });
            &&& target == HeaderTarget::PrevMonth ==> redraw && t.year == (if s.month == 1 {
                s.year - 1
            } else {
                s.year as int
            }) && t.month == (if s.month == 1 {
                12
            } else {
                s.month - 1
            }) && t.selected_day == keep(t.year as int, t.month as int) && t.dropdown == s.dropdown
                && t.hovered_day == s.hovered_day
            &&& target == HeaderTarget::NextMonth ==> redraw && t.year == (if s.month == 12 {
                s.year + 1
            } else {
                s.year as int
            }) && t.month == (if s.month == 12 {
                1
            } else {
                s.month + 1
            }) && t.selected_day == keep(t.year as int, t.month as int) && t.dropdown == s.dropdown
                && t.hovered_day == s.hovered_day
            &&& target == HeaderTarget::MonthName ==> redraw && t.dropdown == DropdownState::Month
                && t.dropdown_hover == Some((s.month - 1) as usize) && (t.year, t.month, t.selected_day)
                == (s.year, s.month, s.selected_day)
            &&& target == HeaderTarget::Year ==> redraw && t.dropdown == DropdownState::Year
                && t.dropdown_hover == Some(5usize) && t.year_scroll_offset == 0 && (
                t.year,
                t.month,
                t.selected_day,
            ) == (s.year, s.month, s.selected_day)
            &&& target == HeaderTarget::Today ==> redraw && (t.year, t.month, t.selected_day) == today
            &&& target == HeaderTarget::Nothing ==> !redraw && t == s
        }),
{
}

} // verus!
