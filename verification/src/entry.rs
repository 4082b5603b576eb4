//! Text entry dialog: result, builder and event handling.

use vstd::prelude::*;

use crate::calendar::colors_view;
use crate::color::Colors;
use crate::events::{closes_dialog, WindowEvent, KEY_ESCAPE};
use crate::text_input::{event_spec, TextInput, TextInputView};

verus! {

/// Entry dialog result.
#[derive(Debug, Clone)]
pub enum EntryResult {
    /// User entered text and clicked OK.
    Text(String),
    /// User cancelled the dialog.
    Cancelled,
    /// Dialog was closed.
    Closed,
}

impl EntryResult {
    pub fn exit_code(&self) -> (r: i32)
        ensures
            r == match self {
                EntryResult::Text(_) => 0i32,
                EntryResult::Cancelled => 1i32,
                EntryResult::Closed => 255i32,
            },
    {
        match self {
            EntryResult::Text(_) => 0,
            EntryResult::Cancelled => 1,
            EntryResult::Closed => 255,
        }
    }
}

/// What an entry builder holds.
pub struct EntryConfig {
    pub title: Seq<char>,
    pub text: Seq<char>,
    pub entry_text: Seq<char>,
    pub hide_text: bool,
    pub width: Option<u32>,
    pub height: Option<u32>,
    pub colors: Option<Colors>,
}

pub open spec fn default_entry() -> EntryConfig {
    EntryConfig {
        title: Seq::empty(),
        text: Seq::empty(),
        entry_text: Seq::empty(),
        hide_text: false,
        width: None,
        height: None,
        colors: None,
    }
}

/// Entry dialog builder.
pub struct EntryBuilder {
    title: String,
    text: String,
    entry_text: String,
    hide_text: bool,
    width: Option<u32>,
    height: Option<u32>,
    colors: Option<&'static Colors>,
}

impl View for EntryBuilder {
    type V = EntryConfig;

    closed spec fn view(&self) -> EntryConfig {
        EntryConfig {
            title: self.title@,
            text: self.text@,
            entry_text: self.entry_text@,
            hide_text: self.hide_text,
            width: self.width,
            height: self.height,
            colors: colors_view(self.colors),
        }
    }
}

impl EntryBuilder {
    pub fn new() -> (r: Self)
        ensures
            r@ == default_entry(),
    {
        EntryBuilder {
            title: String::new(),
            text: String::new(),
            entry_text: String::new(),
            hide_text: false,
            width: None,
            height: None,
            colors: None,
        }
    }

    pub fn title(self, title: &str) -> (r: Self)
        ensures
            r@ == (EntryConfig { title: title@, ..self@ }),
    {
        EntryBuilder { title: title.to_owned(), ..self }
    }

    pub fn text(self, text: &str) -> (r: Self)
        ensures
            r@ == (EntryConfig { text: text@, ..self@ }),
    {
        EntryBuilder { text: text.to_owned(), ..self }
    }

    pub fn entry_text(self, entry_text: &str) -> (r: Self)
        ensures
            r@ == (EntryConfig { entry_text: entry_text@, ..self@ }),
    {
        EntryBuilder { entry_text: entry_text.to_owned(), ..self }
    }

    pub fn hide_text(self, hide: bool) -> (r: Self)
        ensures
            r@ == (EntryConfig { hide_text: hide, ..self@ }),
    {
        EntryBuilder { hide_text: hide, ..self }
    }

    pub fn colors(self, colors: &'static Colors) -> (r: Self)
        ensures
            r@ == (EntryConfig { colors: Some(*colors), ..self@ }),
    {
        EntryBuilder { colors: Some(colors), ..self }
    }

    pub fn width(self, width: u32) -> (r: Self)
        ensures
            r@ == (EntryConfig { width: Some(width), ..self@ }),
    {
        EntryBuilder { width: Some(width), ..self }
    }

    pub fn height(self, height: u32) -> (r: Self)
        ensures
            r@ == (EntryConfig { height: Some(height), ..self@ }),
    {
        EntryBuilder { height: Some(height), ..self }
    }

    /// The dialog title; "Entry" when none was set.
    pub fn window_title(&self) -> (r: String)
        ensures
            r@ == (if self@.title.len() == 0 {
                "Entry"@
            } else {
                self@.title
            }),
    {
        if self.title.as_str().is_empty() {
            "Entry".to_owned()
        } else {
            self.title.clone()
        }
    }

    /// The prompt shown above the input.
    pub fn prompt(&self) -> (r: String)
        ensures
            r@ == self@.text,
    {
        self.text.clone()
    }

    pub fn size(&self) -> (r: (Option<u32>, Option<u32>))
        ensures
            r == (self@.width, self@.height),
    {
        (self.width, self.height)
    }

    pub fn theme(&self) -> (r: Option<&'static Colors>)
        ensures
            colors_view(r) == self@.colors,
    {
        self.colors
    }

    /// The dialog as it opens: a focused input of the given width, masked
    /// when the text is hidden, holding the default text with the cursor
    /// after it.
    pub fn initial_state(&self, input_width: u32) -> (s: EntryState)
        ensures
            s.input@ == (TextInputView {
                x: 0,
                y: 0,
                width: input_width,
                height: crate::text_input::INPUT_HEIGHT,
                text: self@.entry_text,
                cursor: self@.entry_text.len() as int,
                focused: true,
                password: self@.hide_text,
                placeholder: Seq::empty(),
                submitted: false,
            }),
            s.wf(),
    {
        let mut input = TextInput::new(input_width).with_password(self.hide_text).with_default_text(
            self.entry_text.as_str(),
        );
        input.set_focus(true);
        EntryState { input }
    }
}

impl Default for EntryBuilder {
    fn default() -> Self {
        Self::new()
    }
}

/// What the entry dialog does after an event.
#[derive(Debug, Clone)]
pub enum EntryStep {
    /// Keep going; redraw when the flag is set.
    Continue(bool),
    /// Close the dialog with this result.
    Finish(EntryResult),
}

/// The state of an open entry dialog.
pub struct EntryState {
    pub input: TextInput,
}

impl EntryState {
    pub open spec fn wf(&self) -> bool {
        self.input@.wf()
    }

    /// Reacts to a window event: closing the window or Escape closes the
    /// dialog, Enter in the input submits its text, anything else edits the
    /// input.
    pub fn handle_event(&mut self, event: &WindowEvent) -> (step: EntryStep)
        requires
            old(self).wf(),
        ensures
            final(self).wf(),
            closes_dialog(*event) ==> (step matches EntryStep::Finish(EntryResult::Closed)),
            closes_dialog(*event) ==> *final(self) == *old(self),
            !closes_dialog(*event) ==> {
                let (v, changed) = event_spec(old(self).input@, *event);
                &&& final(self).input@ == TextInputView { submitted: false, ..v }
                &&& if v.submitted {
                    step matches EntryStep::Finish(EntryResult::Text(t)) && t@ == v.text
                } else {
                    step matches EntryStep::Continue(redraw) && redraw == changed
                }
            },
    {
        if let WindowEvent::CloseRequested = event {
            return EntryStep::Finish(EntryResult::Closed);
        }
        if let WindowEvent::KeyPress(k) = event {
            if k.keysym == KEY_ESCAPE {
                return EntryStep::Finish(EntryResult::Closed);
            }
        }
        let changed = self.input.process_event(event);
        if self.input.was_submitted() {
            return EntryStep::Finish(EntryResult::Text(self.input.text()));
        }
        EntryStep::Continue(changed)
    }

    /// The OK button was clicked: the dialog ends with the input's text.
    pub fn ok_clicked(&self) -> (step: EntryStep)
        ensures
            step matches EntryStep::Finish(EntryResult::Text(t)) && t@ == self.input@.text,
    {
        EntryStep::Finish(EntryResult::Text(self.input.text()))
    }

    /// The Cancel button was clicked.
    pub fn cancel_clicked(&self) -> (step: EntryStep)
        ensures
            step matches EntryStep::Finish(EntryResult::Cancelled),
    {
        EntryStep::Finish(EntryResult::Cancelled)
    }
}

/// Creates a new entry dialog builder.
pub fn entry() -> (r: EntryBuilder)
    ensures
        r@ == default_entry(),
{
    EntryBuilder::new()
}

/// Creates a password entry dialog (entry with hidden text).
pub fn password() -> (r: EntryBuilder)
    ensures
        r@ == (EntryConfig { hide_text: true, ..default_entry() }),
{
    EntryBuilder::new().hide_text(true)
}

} // verus!
