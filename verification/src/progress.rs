//! Progress dialog: the lines it reads on standard input, the builder, and
//! how it reacts to input lines, the end of input and the buttons.

use vstd::prelude::*;

use crate::calendar::colors_view;
use crate::color::Colors;
use crate::events::{closes_dialog, WindowEvent, KEY_ESCAPE};
use crate::strutil::{
    chars_of, eq_ascii_nocase, eq_ignore_ascii_case, string_from_chars, trim, trim_chars,
};

verus! {

/// Progress dialog result.
#[derive(Debug, Clone, Copy, PartialEq, Eq, Structural)]
pub enum ProgressResult {
    /// Progress completed (reached 100% or stdin closed).
    Completed,
    /// User cancelled the dialog.
    Cancelled,
    /// Dialog was closed.
    Closed,
}

impl ProgressResult {
    pub fn exit_code(&self) -> (r: i32)
        ensures
            r == match self {
                ProgressResult::Completed => 0i32,
                ProgressResult::Cancelled => 1i32,
                ProgressResult::Closed => 255i32,
            },
    {
        match self {
            ProgressResult::Completed => 0,
            ProgressResult::Cancelled => 1,
            ProgressResult::Closed => 255,
        }
    }
}

/// A command read from one line of standard input.
#[derive(Debug, Clone)]
pub enum StdinMessage {
    /// Set the progress, in percent (at most 100).
    Progress(u32),
    /// Set the status text.
    Text(String),
    /// Switch to pulsating mode.
    Pulsate,
}

pub open spec fn is_digit(c: char) -> bool {
    '0' <= c && c <= '9'
}

/// The value of a string of decimal digits.
pub open spec fn digits_value(s: Seq<char>) -> nat
    decreases s.len(),
{
    if s.len() == 0 {
        0
    } else {
        digits_value(s.drop_last()) * 10 + ((s.last() as u32) - 48) as nat
    }
}

/// The digits of a number: the text after an optional leading `+`.
pub open spec fn number_body(s: Seq<char>) -> Seq<char> {
    if s.len() > 0 && s[0] == '+' {
        s.drop_first()
    } else {
        s
    }
}

pub open spec fn all_digits(s: Seq<char>) -> bool {
    forall|i: int| 0 <= i < s.len() ==> is_digit(#[trigger] s[i])
}

/// What `str::parse::<u32>` gives: an optional `+`, then one or more decimal
/// digits whose value fits in a `u32`.
pub open spec fn parse_u32_spec(s: Seq<char>) -> Option<u32> {
    let body = number_body(s);
    if body.len() > 0 && all_digits(body) && digits_value(body) <= u32::MAX {
        Some(digits_value(body) as u32)
    } else {
        None
    }
}

proof fn lemma_digits_value_step(s: Seq<char>, i: int)
    requires
        0 <= i < s.len(),
        is_digit(s[i]),
    ensures
        digits_value(s.take(i + 1)) == digits_value(s.take(i)) * 10 + ((s[i] as u32) - 48) as nat,
{
    assert(s.take(i + 1).drop_last() == s.take(i));
}

proof fn lemma_digits_value_mono(s: Seq<char>, i: int)
    requires
        0 <= i <= s.len(),
        forall|k: int| 0 <= k < s.len() ==> is_digit(s[k]),
    ensures
        digits_value(s.take(i)) <= digits_value(s),
    decreases s.len() - i,
{
    if i < s.len() {
        lemma_digits_value_step(s, i);
        lemma_digits_value_mono(s, i + 1);
        assert(digits_value(s.take(i)) <= digits_value(s.take(i + 1))) by (nonlinear_arith)
            requires
                digits_value(s.take(i + 1)) == digits_value(s.take(i)) * 10 + ((s[i] as u32) - 48) as nat,
        ;
    } else {
        assert(s.take(i) == s);
    }
}

/// Parses an unsigned 32-bit decimal number as `str::parse::<u32>` does.
pub fn parse_u32(s: &[char]) -> (r: Option<u32>)
    ensures
        r == parse_u32_spec(s@),
{
    let start: usize = if s.len() > 0 && s[0] == '+' {
        1
    } else {
        0
    };
    let ghost body = number_body(s@);
    assert(body == s@.skip(start as int));
    if start >= s.len() {
        return None;
    }
    let mut value: u64 = 0;
    let mut i: usize = start;
    while i < s.len()
        invariant
            start <= i <= s.len(),
            body == s@.skip(start as int),
            body == number_body(s@),
            forall|k: int| 0 <= k < i - start ==> is_digit(body[k]),
            value == digits_value(body.take(i - start)),
            value <= u32::MAX,
        decreases s.len() - i,
    {
        let c = s[i];
        assert(body[i - start] == s@[i as int]);
        if !('0' <= c && c <= '9') {
            assert(!is_digit(body[i - start]));
            assert(!all_digits(body));
            return None;
        }
        proof {
            lemma_digits_value_step(body, i - start);
        }
        let d = (c as u32 - 48) as u64;
        let next = value * 10 + d;
        if next > 0xffff_ffff {
            proof {
                if all_digits(body) {
                    lemma_digits_value_mono(body, i - start + 1);
                    assert(digits_value(body) > u32::MAX);
                }
            }
            return None;
        }
        value = next;
        i += 1;
    }
    assert(body.take(body.len() as int) == body);
    Some(value as u32)
}

/// What one input line means: `#` then a status text, "pulsate" in any
/// ASCII case, or a number (capped at 100); anything else is ignored. The
/// line and the status text are taken without surrounding white space.
pub open spec fn line_message_spec(line: Seq<char>) -> Option<StdinMessageView> {
    let t = trim(line);
    if t.len() > 0 && t[0] == '#' {
        Some(StdinMessageView::Text(trim(t.drop_first())))
    } else if eq_ascii_nocase(t, "pulsate"@) {
        Some(StdinMessageView::Pulsate)
    } else {
        match parse_u32_spec(t) {
            Some(n) => Some(StdinMessageView::Progress(if n < 100 {
                n
            } else {
                100
            })),
            None => None,
        }
    }
}

/// A stdin message, its text taken as characters.
pub enum StdinMessageView {
    Progress(u32),
    Text(Seq<char>),
    Pulsate,
}

pub open spec fn message_view(m: StdinMessage) -> StdinMessageView {
    match m {
        StdinMessage::Progress(p) => StdinMessageView::Progress(p),
        StdinMessage::Text(t) => StdinMessageView::Text(t@),
        StdinMessage::Pulsate => StdinMessageView::Pulsate,
    }
}

/// Reads one line of standard input.
pub fn parse_line(line: &str) -> (r: Option<StdinMessage>)
    ensures
        match r {
            Some(m) => line_message_spec(line@) == Some(message_view(m)),
            None => line_message_spec(line@).is_none(),
        },
{
    let chars = chars_of(line);
    let t = trim_chars(chars.as_slice());
    if t.len() > 0 && t[0] == '#' {
        let mut rest: Vec<char> = Vec::new();
        let mut i: usize = 1;
        while i < t.len()
            invariant
                1 <= i <= t.len(),
                rest@ == t@.subrange(1, i as int),
            decreases t.len() - i,
        {
            rest.push(t[i]);
            assert(t@.subrange(1, i + 1) == t@.subrange(1, i as int).push(t@[i as int]));
            i += 1;
        }
        assert(rest@ == t@.drop_first());
        let text = trim_chars(rest.as_slice());
        return Some(StdinMessage::Text(string_from_chars(text.as_slice())));
    }
    let pulsate = chars_of("pulsate");
    if eq_ignore_ascii_case(t.as_slice(), pulsate.as_slice()) {
        return Some(StdinMessage::Pulsate);
    }
    match parse_u32(t.as_slice()) {
        Some(n) => Some(StdinMessage::Progress(
            if n < 100 {
                n
            } else {
                100
            },
        )),
        None => None,
    }
}

/// What a progress builder holds.
pub struct ProgressConfig {
    pub title: Seq<char>,
    pub text: Seq<char>,
    pub percentage: u32,
    pub pulsate: bool,
    pub auto_close: bool,
    pub width: Option<u32>,
    pub height: Option<u32>,
    pub colors: Option<Colors>,
}

pub open spec fn default_progress() -> ProgressConfig {
    ProgressConfig {
        title: Seq::empty(),
        text: Seq::empty(),
        percentage: 0,
        pulsate: false,
        auto_close: false,
        width: None,
        height: None,
        colors: None,
    }
}

/// Progress dialog builder.
pub struct ProgressBuilder {
    title: String,
    text: String,
    percentage: u32,
    pulsate: bool,
    auto_close: bool,
    width: Option<u32>,
    height: Option<u32>,
    colors: Option<&'static Colors>,
}

impl View for ProgressBuilder {
    type V = ProgressConfig;

    closed spec fn view(&self) -> ProgressConfig {
        ProgressConfig {
            title: self.title@,
            text: self.text@,
            percentage: self.percentage,
            pulsate: self.pulsate,
            auto_close: self.auto_close,
            width: self.width,
            height: self.height,
            colors: colors_view(self.colors),
        }
    }
}

impl ProgressBuilder {
    #[verifier::type_invariant]
    spec fn percentage_in_range(&self) -> bool {
        self.percentage <= 100
    }

    pub fn new() -> (r: Self)
        ensures
            r@ == default_progress(),
    {
        ProgressBuilder {
            title: String::new(),
            text: String::new(),
            percentage: 0,
            pulsate: false,
            auto_close: false,
            width: None,
            height: None,
            colors: None,
        }
    }

    pub fn title(self, title: &str) -> (r: Self)
        ensures
            r@ == (ProgressConfig { title: title@, ..self@ }),
    {
        proof {
            use_type_invariant(&self);
        }
        ProgressBuilder { title: title.to_owned(), ..self }
    }

    pub fn text(self, text: &str) -> (r: Self)
        ensures
            r@ == (ProgressConfig { text: text@, ..self@ }),
    {
        proof {
            use_type_invariant(&self);
        }
        ProgressBuilder { text: text.to_owned(), ..self }
    }

    /// Initial percentage; values above 100 become 100.
    pub fn percentage(self, percentage: u32) -> (r: Self)
        ensures
            r@ == (ProgressConfig { percentage: if percentage < 100 {
                percentage
            } else {
                100
            }, ..self@ }),
    {
        let p = if percentage < 100 {
            percentage
        } else {
            100
        };
        ProgressBuilder { percentage: p, ..self }
    }

    pub fn pulsate(self, pulsate: bool) -> (r: Self)
        ensures
            r@ == (ProgressConfig { pulsate, ..self@ }),
    {
        proof {
            use_type_invariant(&self);
        }
        ProgressBuilder { pulsate, ..self }
    }

    pub fn auto_close(self, auto_close: bool) -> (r: Self)
        ensures
            r@ == (ProgressConfig { auto_close, ..self@ }),
    {
        proof {
            use_type_invariant(&self);
        }
        ProgressBuilder { auto_close, ..self }
    }

    pub fn colors(self, colors: &'static Colors) -> (r: Self)
        ensures
            r@ == (ProgressConfig { colors: Some(*colors), ..self@ }),
    {
        proof {
            use_type_invariant(&self);
        }
        ProgressBuilder { colors: Some(colors), ..self }
    }

    pub fn width(self, width: u32) -> (r: Self)
        ensures
            r@ == (ProgressConfig { width: Some(width), ..self@ }),
    {
        proof {
            use_type_invariant(&self);
        }
        ProgressBuilder { width: Some(width), ..self }
    }

    pub fn height(self, height: u32) -> (r: Self)
        ensures
            r@ == (ProgressConfig { height: Some(height), ..self@ }),
    {
        proof {
            use_type_invariant(&self);
        }
        ProgressBuilder { height: Some(height), ..self }
    }

    /// The dialog title; "Progress" when none was set.
    pub fn window_title(&self) -> (r: String)
        ensures
            r@ == (if self@.title.len() == 0 {
                "Progress"@
            } else {
                self@.title
            }),
    {
        if self.title.as_str().is_empty() {
            "Progress".to_owned()
        } else {
            self.title.clone()
        }
    }

    pub fn size(&self) -> (r: (Option<u32>, Option<u32>))
        ensures
            r == (self@.width, self@.height),
    {
        (self.width, self.height)
    }

    pub fn theme(&self) -> (r: Option<&'static Colors>)
        ensures
            colors_view(r) == self@.colors,
    {
        self.colors
    }

    /// The dialog as it opens.
    pub fn initial_state(&self) -> (s: ProgressState)
        ensures
            s.wf(),
            s.percentage == self@.percentage,
            s.pulsating == self@.pulsate,
            s.status_text@ == self@.text,
            s.auto_close == self@.auto_close,
            !s.input_done,
    {
        proof {
            use_type_invariant(self);
        }
        ProgressState {
            percentage: self.percentage,
            pulsating: self.pulsate,
            status_text: self.text.clone(),
            auto_close: self.auto_close,
            input_done: false,
        }
    }
}

impl Default for ProgressBuilder {
    fn default() -> Self {
        Self::new()
    }
}

/// The state of an open progress dialog.
pub struct ProgressState {
    /// Progress in percent.
    pub percentage: u32,
    /// Indeterminate progress is shown.
    pub pulsating: bool,
    pub status_text: String,
    /// The dialog completes by itself at 100% or at the end of input.
    pub auto_close: bool,
    /// Standard input has ended.
    pub input_done: bool,
}

impl ProgressState {
    pub open spec fn wf(&self) -> bool {
        self.percentage <= 100
    }

    /// Applies a message read from standard input. A percentage sets the bar
    /// (and stops pulsating); with auto-close, 100% completes the dialog.
    pub fn apply(&mut self, message: StdinMessage) -> (done: Option<ProgressResult>)
        requires
            old(self).wf(),
            message matches StdinMessage::Progress(p) ==> p <= 100,
        ensures
            final(self).wf(),
            final(self).auto_close == old(self).auto_close,
            final(self).input_done == old(self).input_done,
            match message {
                StdinMessage::Progress(p) => {
                    &&& final(self).percentage == p
                    &&& !final(self).pulsating
                    &&& final(self).status_text@ == old(self).status_text@
                    &&& done == (if p >= 100 && old(self).auto_close {
                        Some(ProgressResult::Completed)
                    } else {
                        None
                    })
                },
                StdinMessage::Text(t) => {
                    &&& final(self).status_text@ == t@
                    &&& final(self).percentage == old(self).percentage
                    &&& final(self).pulsating == old(self).pulsating
                    &&& done.is_none()
                },
                StdinMessage::Pulsate => {
                    &&& final(self).pulsating
                    &&& final(self).percentage == old(self).percentage
                    &&& final(self).status_text@ == old(self).status_text@
                    &&& done.is_none()
                },
            },
    {
        match message {
            StdinMessage::Progress(p) => {
                self.percentage = p;
                self.pulsating = false;
                if p >= 100 && self.auto_close {
                    Some(ProgressResult::Completed)
                } else {
                    None
                }
            },
            StdinMessage::Text(t) => {
                self.status_text = t;
                None
            },
            StdinMessage::Pulsate => {
                self.pulsating = true;
                None
            },
        }
    }

    /// Reacts to a window event: closing the window or Escape closes the
    /// dialog; other events leave it open.
    pub fn handle_event(&self, event: &WindowEvent) -> (r: Option<ProgressResult>)
        ensures
            r == (if closes_dialog(*event) {
                Some(ProgressResult::Closed)
            } else {
                None
            }),
    {
        match event {
            WindowEvent::CloseRequested => Some(ProgressResult::Closed),
            WindowEvent::KeyPress(k) => {
                if k.keysym == KEY_ESCAPE {
                    Some(ProgressResult::Closed)
                } else {
                    None
                }
            },
            _ => None,
        }
    }

    /// Standard input ended; with auto-close the dialog completes.
    pub fn input_ended(&mut self) -> (done: Option<ProgressResult>)
        ensures
            final(self).input_done,
            final(self).percentage == old(self).percentage,
            final(self).pulsating == old(self).pulsating,
            final(self).status_text@ == old(self).status_text@,
            final(self).auto_close == old(self).auto_close,
            done == (if old(self).auto_close {
                Some(ProgressResult::Completed)
            } else {
                None
            }),
    {
        self.input_done = true;
        if self.auto_close {
            Some(ProgressResult::Completed)
        } else {
            None
        }
    }
}

/// Creates a new progress dialog builder.
pub fn progress() -> (r: ProgressBuilder)
    ensures
        r@ == default_progress(),
{
    ProgressBuilder::new()
}

} // verus!
