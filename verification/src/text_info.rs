//! Text info dialog: scrollable text with an optional checkbox.

use vstd::prelude::*;

use crate::calendar::colors_view;
use crate::color::Colors;
use crate::events::{
    KEY_DOWN, KEY_END, KEY_ESCAPE, KEY_HOME, KEY_PAGE_DOWN, KEY_PAGE_UP, KEY_RETURN, KEY_UP,
    ScrollDirection,
};

verus! {

/// Text info dialog result.
#[derive(Debug, Clone, Copy, PartialEq, Eq, Structural)]
pub enum TextInfoResult {
    /// User clicked OK. Contains whether checkbox was checked (if present).
    Accepted { checkbox_checked: bool },
    /// User cancelled the dialog.
    Cancelled,
    /// Dialog was closed.
    Closed,
}

impl TextInfoResult {
    /// 0 when accepted with the checkbox checked, 1 when accepted without it
    /// or cancelled, 255 when closed.
    pub fn exit_code(&self) -> (r: i32)
        ensures
            r == match self {
                TextInfoResult::Accepted { checkbox_checked } => if *checkbox_checked {
                    0i32
                } else {
                    1i32
                },
                TextInfoResult::Cancelled => 1i32,
                TextInfoResult::Closed => 255i32,
            },
    {
        match self {
            TextInfoResult::Accepted { checkbox_checked } => {
                if *checkbox_checked {
                    0
                } else {
                    1
                }
            },
            TextInfoResult::Cancelled => 1,
            TextInfoResult::Closed => 255,
        }
    }
}

/// What a text info builder holds.
pub struct TextInfoConfig {
    pub title: Seq<char>,
    pub filename: Option<Seq<char>>,
    pub checkbox_text: Option<Seq<char>>,
    pub width: Option<u32>,
    pub height: Option<u32>,
    pub colors: Option<Colors>,
}

pub open spec fn default_text_info() -> TextInfoConfig {
    TextInfoConfig {
        title: Seq::empty(),
        filename: None,
        checkbox_text: None,
        width: None,
        height: None,
        colors: None,
    }
}

pub open spec fn opt_view(o: Option<String>) -> Option<Seq<char>> {
    match o {
        Some(s) => Some(s@),
        None => None,
    }
}

/// Text info dialog builder.
pub struct TextInfoBuilder {
    title: String,
    filename: Option<String>,
    checkbox_text: Option<String>,
    width: Option<u32>,
    height: Option<u32>,
    colors: Option<&'static Colors>,
}

impl View for TextInfoBuilder {
    type V = TextInfoConfig;

    closed spec fn view(&self) -> TextInfoConfig {
        TextInfoConfig {
            title: self.title@,
            filename: opt_view(self.filename),
            checkbox_text: opt_view(self.checkbox_text),
            width: self.width,
            height: self.height,
            colors: colors_view(self.colors),
        }
    }
}

pub const BASE_MIN_WIDTH: u32 = 400;
pub const BASE_MIN_HEIGHT: u32 = 300;
pub const BASE_DEFAULT_WIDTH: u32 = 500;
pub const BASE_DEFAULT_HEIGHT: u32 = 400;

impl TextInfoBuilder {
    pub fn new() -> (r: Self)
        ensures
            r@ == default_text_info(),
    {
        TextInfoBuilder {
            title: String::new(),
            filename: None,
            checkbox_text: None,
            width: None,
            height: None,
            colors: None,
        }
    }

    pub fn title(self, title: &str) -> (r: Self)
        ensures
            r@ == (TextInfoConfig { title: title@, ..self@ }),
    {
        TextInfoBuilder { title: title.to_owned(), ..self }
    }

    /// Set the filename to read text from. If not set, reads from stdin.
    pub fn filename(self, filename: &str) -> (r: Self)
        ensures
            r@ == (TextInfoConfig { filename: Some(filename@), ..self@ }),
    {
        TextInfoBuilder { filename: Some(filename.to_owned()), ..self }
    }

    /// Add a checkbox at the bottom (e.g., "I agree to the terms").
    pub fn checkbox(self, text: &str) -> (r: Self)
        ensures
            r@ == (TextInfoConfig { checkbox_text: Some(text@), ..self@ }),
    {
        TextInfoBuilder { checkbox_text: Some(text.to_owned()), ..self }
    }

    pub fn colors(self, colors: &'static Colors) -> (r: Self)
        ensures
            r@ == (TextInfoConfig { colors: Some(*colors), ..self@ }),
    {
        TextInfoBuilder { colors: Some(colors), ..self }
    }

    pub fn width(self, width: u32) -> (r: Self)
        ensures
            r@ == (TextInfoConfig { width: Some(width), ..self@ }),
    {
        TextInfoBuilder { width: Some(width), ..self }
    }

    pub fn height(self, height: u32) -> (r: Self)
        ensures
            r@ == (TextInfoConfig { height: Some(height), ..self@ }),
    {
        TextInfoBuilder { height: Some(height), ..self }
    }

    /// The dialog title; "Text" when none was set.
    pub fn window_title(&self) -> (r: String)
        ensures
            r@ == (if self@.title.len() == 0 {
                "Text"@
            } else {
                self@.title
            }),
    {
        if self.title.as_str().is_empty() {
            "Text".to_owned()
        } else {
            self.title.clone()
        }
    }

    pub fn source_file(&self) -> (r: Option<String>)
        ensures
            opt_view(r) == self@.filename,
    {
        self.filename.clone()
    }

    pub fn checkbox_label(&self) -> (r: Option<String>)
        ensures
            opt_view(r) == self@.checkbox_text,
    {
        self.checkbox_text.clone()
    }

    pub fn theme(&self) -> (r: Option<&'static Colors>)
        ensures
            colors_view(r) == self@.colors,
    {
        self.colors
    }

    /// The window size: the configured size (or 500 by 400), at least 400 by
    /// 300.
    pub fn window_size(&self) -> (r: (u32, u32))
        ensures
            r.0 == (match self@.width {
                Some(w) => if w < BASE_MIN_WIDTH {
                    BASE_MIN_WIDTH
                } else {
                    w
                },
                None => BASE_DEFAULT_WIDTH,
            }),
            r.1 == (match self@.height {
                Some(h) => if h < BASE_MIN_HEIGHT {
                    BASE_MIN_HEIGHT
                } else {
                    h
                },
                None => BASE_DEFAULT_HEIGHT,
            }),
    {
        let w = match self.width {
            Some(w) => w,
            None => BASE_DEFAULT_WIDTH,
        };
        let h = match self.height {
            Some(h) => h,
            None => BASE_DEFAULT_HEIGHT,
        };
        (if w < BASE_MIN_WIDTH {
            BASE_MIN_WIDTH
        } else {
            w
        }, if h < BASE_MIN_HEIGHT {
            BASE_MIN_HEIGHT
        } else {
            h
        })
    }

    /// The dialog as it opens, for a text of `total_lines` wrapped lines of
    /// which `visible_lines` fit in the window.
    pub fn initial_state(&self, total_lines: usize, visible_lines: usize) -> (s: TextInfoState)
        requires
            total_lines + visible_lines <= usize::MAX,
        ensures
            s.wf(),
            s == (TextInfoState {
                scroll_offset: 0,
                checkbox_checked: false,
                checkbox_hovered: false,
                has_checkbox: self@.checkbox_text.is_some(),
                total_lines,
                visible_lines,
            }),
    {
        TextInfoState {
            scroll_offset: 0,
            checkbox_checked: false,
            checkbox_hovered: false,
            has_checkbox: self.checkbox_text.is_some(),
            total_lines,
            visible_lines,
        }
    }
}

impl Default for TextInfoBuilder {
    fn default() -> Self {
        Self::new()
    }
}

/// What the text info dialog does after an event.
#[derive(Debug, Clone, Copy, PartialEq, Eq, Structural)]
pub enum TextInfoStep {
    /// Keep going; redraw when the flag is set.
    Continue(bool),
    /// Close the dialog with this result.
    Finish(TextInfoResult),
}

/// The state of an open text info dialog.
#[derive(Debug, Clone, Copy, PartialEq, Eq, Structural)]
pub struct TextInfoState {
    /// Index of the first line shown.
    pub scroll_offset: usize,
    pub checkbox_checked: bool,
    pub checkbox_hovered: bool,
    pub has_checkbox: bool,
    pub total_lines: usize,
    pub visible_lines: usize,
}

/// The first line can be shown at most this far down.
pub open spec fn max_scroll(s: TextInfoState) -> int {
    if s.total_lines > s.visible_lines {
        s.total_lines - s.visible_lines
    } else {
        0
    }
}

pub open spec fn sat_sub(a: int, b: int) -> int {
    if a > b {
        a - b
    } else {
        0
    }
}

pub open spec fn min_int(a: int, b: int) -> int {
    if a < b {
        a
    } else {
        b
    }
}

/// The effect of a key press.
pub open spec fn text_info_key_spec(s: TextInfoState, keysym: u32) -> (TextInfoState, TextInfoStep) {
    let m = max_scroll(s);
    let o = s.scroll_offset as int;
    if keysym == KEY_UP {
        if o > 0 {
            (TextInfoState { scroll_offset: (o - 1) as usize, ..s }, TextInfoStep::Continue(true))
        } else {
            (s, TextInfoStep::Continue(false))
        }
    } else if keysym == KEY_DOWN {
        if o < m {
            (TextInfoState { scroll_offset: (o + 1) as usize, ..s }, TextInfoStep::Continue(true))
        } else {
            (s, TextInfoStep::Continue(false))
        }
    } else if keysym == KEY_PAGE_UP {
        (
            TextInfoState { scroll_offset: sat_sub(o, s.visible_lines as int) as usize, ..s },
            TextInfoStep::Continue(true),
        )
    } else if keysym == KEY_PAGE_DOWN {
        (
            TextInfoState { scroll_offset: min_int(o + s.visible_lines, m) as usize, ..s },
            TextInfoStep::Continue(true),
        )
    } else if keysym == KEY_HOME {
        (TextInfoState { scroll_offset: 0, ..s }, TextInfoStep::Continue(o > 0))
    } else if keysym == KEY_END {
        (TextInfoState { scroll_offset: m as usize, ..s }, TextInfoStep::Continue(o < m))
    } else if keysym == KEY_RETURN {
        (s, TextInfoStep::Finish(TextInfoResult::Accepted { checkbox_checked: s.checkbox_checked }))
    } else if keysym == KEY_ESCAPE {
        (s, TextInfoStep::Finish(TextInfoResult::Closed))
    } else {
        (s, TextInfoStep::Continue(false))
    }
}

impl TextInfoState {
    /// The first line shown lies within the scrollable range.
    pub open spec fn wf(self) -> bool {
        &&& self.scroll_offset <= max_scroll(self)
        &&& self.total_lines + self.visible_lines <= usize::MAX
    }

    fn max_scroll(&self) -> (r: usize)
        ensures
            r == max_scroll(*self),
    {
        if self.total_lines > self.visible_lines {
            self.total_lines - self.visible_lines
        } else {
            0
        }
    }

    /// Handles a key press.
    pub fn key_press(&mut self, keysym: u32) -> (step: TextInfoStep)
        requires
            old(self).wf(),
        ensures
            (*final(self), step) == text_info_key_spec(*old(self), keysym),
            final(self).wf(),
    {
        let max_scroll = self.max_scroll();
        if keysym == KEY_UP {
            if self.scroll_offset > 0 {
                self.scroll_offset = self.scroll_offset - 1;
                TextInfoStep::Continue(true)
            } else {
                TextInfoStep::Continue(false)
            }
        } else if keysym == KEY_DOWN {
            if self.scroll_offset < max_scroll {
                self.scroll_offset = self.scroll_offset + 1;
                TextInfoStep::Continue(true)
            } else {
                TextInfoStep::Continue(false)
            }
        } else if keysym == KEY_PAGE_UP {
            self.scroll_offset = if self.scroll_offset > self.visible_lines {
                self.scroll_offset - self.visible_lines
            } else {
                0
            };
            TextInfoStep::Continue(true)
        } else if keysym == KEY_PAGE_DOWN {
            let down = self.scroll_offset + self.visible_lines;
            self.scroll_offset = if down < max_scroll {
                down
            } else {
                max_scroll
            };
            TextInfoStep::Continue(true)
        } else if keysym == KEY_HOME {
            let changed = self.scroll_offset > 0;
            self.scroll_offset = 0;
            TextInfoStep::Continue(changed)
        } else if keysym == KEY_END {
            let changed = self.scroll_offset < max_scroll;
            self.scroll_offset = max_scroll;
            TextInfoStep::Continue(changed)
        } else if keysym == KEY_RETURN {
            TextInfoStep::Finish(TextInfoResult::Accepted { checkbox_checked: self.checkbox_checked })
        } else if keysym == KEY_ESCAPE {
            TextInfoStep::Finish(TextInfoResult::Closed)
        } else {
            TextInfoStep::Continue(false)
        }
    }

    /// The scroll wheel moves the text by three lines.
    pub fn scroll(&mut self, dir: ScrollDirection) -> (redraw: bool)
        requires
            old(self).wf(),
        ensures
            final(self).wf(),
            dir == ScrollDirection::Up ==> (if old(self).scroll_offset > 0 {
                *final(self) == (TextInfoState {
                    scroll_offset: sat_sub(old(self).scroll_offset as int, 3) as usize,
                    ..*old(self)
                }) && redraw
            } else {
                *final(self) == *old(self) && !redraw
            }),
            dir == ScrollDirection::Down ==> (if old(self).scroll_offset < max_scroll(*old(self)) {
                *final(self) == (TextInfoState {
                    scroll_offset: min_int(
                        old(self).scroll_offset + 3,
                        max_scroll(*old(self)),
                    ) as usize,
                    ..*old(self)
                }) && redraw
            } else {
                *final(self) == *old(self) && !redraw
            }),
            (dir == ScrollDirection::Left || dir == ScrollDirection::Right) ==> *final(self)
                == *old(self) && !redraw,
    {
        match dir {
            ScrollDirection::Up => {
                if self.scroll_offset > 0 {
                    self.scroll_offset = if self.scroll_offset > 3 {
                        self.scroll_offset - 3
                    } else {
                        0
                    };
                    true
                } else {
                    false
                }
            },
            ScrollDirection::Down => {
                let max_scroll = self.max_scroll();
                if self.scroll_offset < max_scroll {
                    self.scroll_offset = if max_scroll - self.scroll_offset > 3 {
                        self.scroll_offset + 3
                    } else {
                        max_scroll
                    };
                    true
                } else {
                    false
                }
            },
            _ => false,
        }
    }

    /// The pointer moved onto (or off) the checkbox row; returns whether the
    /// hover state changed. Without a checkbox nothing changes.
    pub fn hover_checkbox(&mut self, over: bool) -> (redraw: bool)
        ensures
            old(self).has_checkbox ==> *final(self) == (TextInfoState {
                checkbox_hovered: over,
                ..*old(self)
            }) && redraw == (over != old(self).checkbox_hovered),
            !old(self).has_checkbox ==> *final(self) == *old(self) && !redraw,
    {
        if self.has_checkbox {
            let changed = over != self.checkbox_hovered;
            self.checkbox_hovered = over;
            changed
        } else {
            false
        }
    }

    /// A left click toggles the checkbox when the pointer is over it.
    pub fn click(&mut self) -> (redraw: bool)
        ensures
            old(self).checkbox_hovered ==> *final(self) == (TextInfoState {
                checkbox_checked: !old(self).checkbox_checked,
                ..*old(self)
            }) && redraw,
            !old(self).checkbox_hovered ==> *final(self) == *old(self) && !redraw,
    {
        if self.checkbox_hovered {
            self.checkbox_checked = !self.checkbox_checked;
            true
        } else {
            false
        }
    }

    /// A typed character: a space toggles the checkbox, when there is one.
    pub fn text_input(&mut self, c: char) -> (redraw: bool)
        ensures
            (c == ' ' && old(self).has_checkbox) ==> *final(self) == (TextInfoState {
                checkbox_checked: !old(self).checkbox_checked,
                ..*old(self)
            }) && redraw,
            !(c == ' ' && old(self).has_checkbox) ==> *final(self) == *old(self) && !redraw,
    {
        if c == ' ' && self.has_checkbox {
            self.checkbox_checked = !self.checkbox_checked;
            true
        } else {
            false
        }
    }

    /// The OK button: the result carries the checkbox state.
    pub fn ok_clicked(&self) -> (step: TextInfoStep)
        ensures
            step == TextInfoStep::Finish(
                TextInfoResult::Accepted { checkbox_checked: self.checkbox_checked },
            ),
    {
        TextInfoStep::Finish(TextInfoResult::Accepted { checkbox_checked: self.checkbox_checked })
    }
}

/// Scrolling never leaves the scrollable range, and End followed by Home
/// returns to the top.
pub proof fn law_scrolling_stays_in_range(s: TextInfoState, keysym: u32)
    requires
        s.wf(),
    ensures
        text_info_key_spec(s, keysym).0.wf(),
        text_info_key_spec(text_info_key_spec(s, KEY_END).0, KEY_HOME).0.scroll_offset == 0,
        text_info_key_spec(s, KEY_END).0.scroll_offset == max_scroll(s),
{
}

/// Creates a new text info dialog builder.
pub fn text_info() -> (r: TextInfoBuilder)
    ensures
        r@ == default_text_info(),
{
    TextInfoBuilder::new()
}


/// What each key does to the text view, with `m` the last first line that
/// can be shown (total lines less the lines that fit, or 0): Up and Down
/// scroll one line, Page Up and Page Down one screen, stopping at the top
/// and at `m`; Home goes to the top and End to `m`; Enter accepts with the
/// checkbox as it stands and Escape closes the dialog; other keys do
/// nothing. Only the first line shown changes.
pub proof fn law_text_view_keys(s: TextInfoState, keysym: u32)
    requires
        s.wf(),
    ensures
        ({
            let (t, step) = text_info_key_spec(s, keysym);
            let o = s.scroll_offset as int;
            let m: int = if s.total_lines > s.visible_lines {
                s.total_lines - s.visible_lines
            } else {
                0
            };
            let v = s.visible_lines as int;
            &&& t == TextInfoState { scroll_offset: t.scroll_offset, ..s }
            &&& keysym == KEY_UP ==> t.scroll_offset == (if o > 0 {
                o - 1
            } else {
                0
            }) && step == TextInfoStep::Continue(o > 0)
            &&& keysym == KEY_DOWN ==> t.scroll_offset == (if o < m {
                o + 1
            } else {
                o
            }) && step == TextInfoStep::Continue(o < m)
            &&& keysym == KEY_PAGE_UP ==> t.scroll_offset == (if o > v {
                o - v
            } else {
                0
            }) && step == TextInfoStep::Continue(true)
            &&& keysym == KEY_PAGE_DOWN ==> t.scroll_offset == (if o + v < m {
                o + v
            } else {
                m
            }) && step == TextInfoStep::Continue(true)
            &&& keysym == KEY_HOME ==> t.scroll_offset == 0 && step == TextInfoStep::Continue(o > 0)
            &&& keysym == KEY_END ==> t.scroll_offset == m && step == TextInfoStep::Continue(o < m)
            &&& keysym == KEY_RETURN ==> t == s && step == TextInfoStep::Finish(
                TextInfoResult::Accepted { checkbox_checked: s.checkbox_checked },
            )
            &&& keysym == KEY_ESCAPE ==> t == s && step == TextInfoStep::Finish(TextInfoResult::Closed)
            &&& !(keysym == KEY_UP || keysym == KEY_DOWN || keysym == KEY_PAGE_UP || keysym
                == KEY_PAGE_DOWN || keysym == KEY_HOME || keysym == KEY_END || keysym == KEY_RETURN
                || keysym == KEY_ESCAPE) ==> t == s && step == TextInfoStep::Continue(false)
        }),
{
}

} // verus!
