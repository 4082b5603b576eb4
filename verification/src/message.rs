//! Message dialogs (info, warning, error, question): icons, button sets,
//! results, the builder and the dialog's reaction to events.

use vstd::prelude::*;

use crate::calendar::colors_view;
use crate::color::Colors;
use crate::events::{MouseButton, WindowEvent, KEY_ESCAPE};

verus! {

/// Icon types for message dialogs.
#[derive(Debug, Clone, Copy, PartialEq, Eq, Structural)]
pub enum Icon {
    Info,
    Warning,
    Error,
    Question,
}

/// Button presets for message dialogs.
#[derive(Debug, Clone, Copy, PartialEq, Eq, Structural)]
pub enum ButtonPreset {
    OkOnly,
    OkCancel,
    YesNo,
    YesNoCancel,
    Close,
}

/// The labels of a preset's buttons, left to right.
pub open spec fn preset_labels(p: ButtonPreset) -> Seq<Seq<char>> {
    match p {
        ButtonPreset::OkOnly => seq!["OK"@],
        ButtonPreset::OkCancel => seq!["OK"@, "Cancel"@],
        ButtonPreset::YesNo => seq!["Yes"@, "No"@],
        ButtonPreset::YesNoCancel => seq!["Yes"@, "No"@, "Cancel"@],
        ButtonPreset::Close => seq!["Close"@],
    }
}

pub open spec fn str_views(v: Seq<&'static str>) -> Seq<Seq<char>> {
    v.map_values(|s: &'static str| s@)
}

impl ButtonPreset {
    pub fn labels(self) -> (r: Vec<&'static str>)
        ensures
            str_views(r@) == preset_labels(self),
    {
        let r = match self {
            ButtonPreset::OkOnly => vec!["OK"],
            ButtonPreset::OkCancel => vec!["OK", "Cancel"],
            ButtonPreset::YesNo => vec!["Yes", "No"],
            ButtonPreset::YesNoCancel => vec!["Yes", "No", "Cancel"],
            ButtonPreset::Close => vec!["Close"],
        };
        assert(str_views(r@) =~= preset_labels(self));
        r
    }
}

/// Dialog result indicating which button was pressed.
#[derive(Debug, Clone, Copy, PartialEq, Eq, Structural)]
pub enum DialogResult {
    Button(usize),
    Closed,
    Timeout,
}

pub open spec fn dialog_exit_code(r: DialogResult) -> i32 {
    match r {
        DialogResult::Button(i) => if i <= 2 {
            i as i32
        } else {
            3
        },
        DialogResult::Timeout => 5,
        DialogResult::Closed => 255,
    }
}

impl DialogResult {
    /// Exit code: the button's index for the first three buttons, 3 for any
    /// other button, 5 on timeout and 255 when closed.
    pub fn exit_code(self) -> (r: i32)
        ensures
            r == dialog_exit_code(self),
    {
        match self {
            DialogResult::Button(0) => 0,
            DialogResult::Button(1) => 1,
            DialogResult::Button(2) => 2,
            DialogResult::Button(_) => 3,
            DialogResult::Timeout => 5,
            DialogResult::Closed => 255,
        }
    }
}

/// What a message builder holds.
pub struct MessageConfig {
    pub title: Seq<char>,
    pub text: Seq<char>,
    pub icon: Option<Icon>,
    pub buttons: ButtonPreset,
    pub timeout: Option<u32>,
    pub colors: Option<Colors>,
}

/// A new builder's configuration: no title, text or icon, one OK button,
/// no timeout and the detected theme.
pub open spec fn default_message() -> MessageConfig {
    MessageConfig {
        title: Seq::empty(),
        text: Seq::empty(),
        icon: None,
        buttons: ButtonPreset::OkOnly,
        timeout: None,
        colors: None,
    }
}

/// Message dialog builder.
pub struct MessageBuilder {
    title: String,
    text: String,
    icon: Option<Icon>,
    buttons: ButtonPreset,
    timeout: Option<u32>,
    colors: Option<&'static Colors>,
}

impl View for MessageBuilder {
    type V = MessageConfig;

    closed spec fn view(&self) -> MessageConfig {
        MessageConfig {
            title: self.title@,
            text: self.text@,
            icon: self.icon,
            buttons: self.buttons,
            timeout: self.timeout,
            colors: colors_view(self.colors),
        }
    }
}

impl MessageBuilder {
    pub fn new() -> (r: Self)
        ensures
            r@ == default_message(),
    {
        MessageBuilder {
            title: String::new(),
            text: String::new(),
            icon: None,
            buttons: ButtonPreset::OkOnly,
            timeout: None,
            colors: None,
        }
    }

    /// Set timeout in seconds. Dialog will auto-close after this time.
    pub fn timeout(self, seconds: u32) -> (r: Self)
        ensures
            r@ == (MessageConfig { timeout: Some(seconds), ..self@ }),
    {
        MessageBuilder { timeout: Some(seconds), ..self }
    }

    pub fn title(self, title: &str) -> (r: Self)
        ensures
            r@ == (MessageConfig { title: title@, ..self@ }),
    {
        MessageBuilder { title: title.to_owned(), ..self }
    }

    pub fn text(self, text: &str) -> (r: Self)
        ensures
            r@ == (MessageConfig { text: text@, ..self@ }),
    {
        MessageBuilder { text: text.to_owned(), ..self }
    }

    pub fn icon(self, icon: Icon) -> (r: Self)
        ensures
            r@ == (MessageConfig { icon: Some(icon), ..self@ }),
    {
        MessageBuilder { icon: Some(icon), ..self }
    }

    pub fn buttons(self, buttons: ButtonPreset) -> (r: Self)
        ensures
            r@ == (MessageConfig { buttons, ..self@ }),
    {
        MessageBuilder { buttons, ..self }
    }

    pub fn colors(self, colors: &'static Colors) -> (r: Self)
        ensures
            r@ == (MessageConfig { colors: Some(*colors), ..self@ }),
    {
        MessageBuilder { colors: Some(colors), ..self }
    }

    pub fn get_title(&self) -> (r: String)
        ensures
            r@ == self@.title,
    {
        self.title.clone()
    }

    pub fn get_text(&self) -> (r: String)
        ensures
            r@ == self@.text,
    {
        self.text.clone()
    }

    pub fn get_icon(&self) -> (r: Option<Icon>)
        ensures
            r == self@.icon,
    {
        self.icon
    }

    pub fn get_buttons(&self) -> (r: ButtonPreset)
        ensures
            r == self@.buttons,
    {
        self.buttons
    }

    pub fn get_timeout(&self) -> (r: Option<u32>)
        ensures
            r == self@.timeout,
    {
        self.timeout
    }

    pub fn theme(&self) -> (r: Option<&'static Colors>)
        ensures
            colors_view(r) == self@.colors,
    {
        self.colors
    }
}

impl Default for MessageBuilder {
    fn default() -> Self {
        Self::new()
    }
}

/// What the message dialog does after an event.
#[derive(Debug, Clone, Copy, PartialEq, Eq, Structural)]
pub enum MessageStep {
    /// Nothing to do.
    Idle,
    /// Redraw the window.
    Redraw,
    /// Let the window manager move the window with the pointer.
    StartDrag,
    /// Close the dialog with this result.
    Finish(DialogResult),
}

/// The state of an open message dialog.
#[derive(Debug, Clone, Copy, PartialEq, Eq, Structural)]
pub struct MessageState {
    /// Milliseconds since the dialog opened after which it times out.
    pub deadline_ms: Option<u64>,
    /// The left button is held down away from the buttons.
    pub dragging: bool,
    /// Number of buttons the dialog shows.
    pub button_count: usize,
}

/// The dialog's reaction to a window event (button clicks arrive apart).
pub open spec fn message_event_spec(s: MessageState, e: WindowEvent) -> (MessageState, MessageStep) {
    match e {
        WindowEvent::CloseRequested => (s, MessageStep::Finish(DialogResult::Closed)),
        WindowEvent::KeyPress(k) => if k.keysym == KEY_ESCAPE {
            (s, MessageStep::Finish(DialogResult::Closed))
        } else {
            (s, MessageStep::Idle)
        },
        WindowEvent::RedrawRequested => (s, MessageStep::Redraw),
        WindowEvent::ButtonPress(MouseButton::Left, _) => (
            MessageState { dragging: true, ..s },
            MessageStep::Idle,
        ),
        WindowEvent::ButtonRelease(MouseButton::Left, _) => (
            MessageState { dragging: false, ..s },
            MessageStep::Idle,
        ),
        WindowEvent::CursorMove(_) => if s.dragging {
            (MessageState { dragging: false, ..s }, MessageStep::StartDrag)
        } else {
            (s, MessageStep::Idle)
        },
        _ => (s, MessageStep::Idle),
    }
}

impl MessageState {
    /// The state when the dialog opens with the buttons of `buttons`; a
    /// timeout of `t` seconds becomes a deadline of `t * 1000` milliseconds.
    pub fn new(timeout: Option<u32>, buttons: ButtonPreset) -> (s: Self)
        ensures
            s.deadline_ms == (match timeout {
                Some(t) => Some((t * 1000) as u64),
                None => None,
            }),
            !s.dragging,
            s.button_count == preset_labels(buttons).len(),
    {
        let deadline_ms = match timeout {
            Some(t) => Some(t as u64 * 1000),
            None => None,
        };
        let labels = buttons.labels();
        assert(str_views(labels@).len() == labels@.len());
        let button_count = labels.len();
        MessageState { deadline_ms, dragging: false, button_count }
    }

    /// Checks the timeout `elapsed_ms` milliseconds after opening.
    pub fn tick(&self, elapsed_ms: u64) -> (r: Option<DialogResult>)
        ensures
            r == (match self.deadline_ms {
                Some(d) => if elapsed_ms >= d {
                    Some(DialogResult::Timeout)
                } else {
                    None
                },
                None => None,
            }),
    {
        match self.deadline_ms {
            Some(d) => {
                if elapsed_ms >= d {
                    Some(DialogResult::Timeout)
                } else {
                    None
                }
            },
            None => None,
        }
    }

    /// Reacts to a window event.
    pub fn handle_event(&mut self, event: &WindowEvent) -> (step: MessageStep)
        ensures
            (*final(self), step) == message_event_spec(*old(self), *event),
    {
        match event {
            WindowEvent::CloseRequested => MessageStep::Finish(DialogResult::Closed),
            WindowEvent::KeyPress(k) => {
                if k.keysym == KEY_ESCAPE {
                    MessageStep::Finish(DialogResult::Closed)
                } else {
                    MessageStep::Idle
                }
            },
            WindowEvent::RedrawRequested => MessageStep::Redraw,
            WindowEvent::ButtonPress(MouseButton::Left, _) => {
                self.dragging = true;
                MessageStep::Idle
            },
            WindowEvent::ButtonRelease(MouseButton::Left, _) => {
                self.dragging = false;
                MessageStep::Idle
            },
            WindowEvent::CursorMove(_) => {
                if self.dragging {
                    self.dragging = false;
                    MessageStep::StartDrag
                } else {
                    MessageStep::Idle
                }
            },
            _ => MessageStep::Idle,
        }
    }

    /// Button `index` of the dialog was clicked; an index past the buttons
    /// shown does nothing.
    pub fn button_clicked(&self, index: usize) -> (step: MessageStep)
        ensures
            step == (if index < self.button_count {
                MessageStep::Finish(DialogResult::Button(index))
            } else {
                MessageStep::Idle
            }),
    {
        if index < self.button_count {
            MessageStep::Finish(DialogResult::Button(index))
        } else {
            MessageStep::Idle
        }
    }
}

/// Creates a new message dialog builder.
pub fn message() -> (r: MessageBuilder)
    ensures
        r@ == default_message(),
{
    MessageBuilder::new()
}

/// Creates an info dialog (shortcut for message with info icon).
pub fn info(text: &str) -> (r: MessageBuilder)
    ensures
        r@ == (MessageConfig {
            text: text@,
            icon: Some(Icon::Info),
            buttons: ButtonPreset::OkOnly,
            ..default_message()
        }),
{
    MessageBuilder::new().text(text).icon(Icon::Info).buttons(ButtonPreset::OkOnly)
}

/// Creates a warning dialog (shortcut for message with warning icon).
pub fn warning(text: &str) -> (r: MessageBuilder)
    ensures
        r@ == (MessageConfig {
            text: text@,
            icon: Some(Icon::Warning),
            buttons: ButtonPreset::OkOnly,
            ..default_message()
        }),
{
    MessageBuilder::new().text(text).icon(Icon::Warning).buttons(ButtonPreset::OkOnly)
}

/// Creates an error dialog (shortcut for message with error icon).
pub fn error(text: &str) -> (r: MessageBuilder)
    ensures
        r@ == (MessageConfig {
            text: text@,
            icon: Some(Icon::Error),
            buttons: ButtonPreset::OkOnly,
            ..default_message()
        }),
{
    MessageBuilder::new().text(text).icon(Icon::Error).buttons(ButtonPreset::OkOnly)
}

/// Creates a question dialog (shortcut for message with question icon and
/// Yes/No buttons).
pub fn question(text: &str) -> (r: MessageBuilder)
    ensures
        r@ == (MessageConfig {
            text: text@,
            icon: Some(Icon::Question),
            buttons: ButtonPreset::YesNo,
            ..default_message()
        }),
{
    MessageBuilder::new().text(text).icon(Icon::Question).buttons(ButtonPreset::YesNo)
}


/// The message dialog: closing the window or Escape ends it as closed; a
/// left press away from the buttons starts a drag, which the next pointer
/// move hands to the window manager; a left release ends it; a redraw
/// request redraws. None of these touches the timeout or the buttons.
pub proof fn law_message_events(s: MessageState, e: WindowEvent)
    ensures
        ({
            let (t, step) = message_event_spec(s, e);
            &&& (e == WindowEvent::CloseRequested || (e matches WindowEvent::KeyPress(k) && k.keysym
                == KEY_ESCAPE)) ==> t == s && step == MessageStep::Finish(DialogResult::Closed)
            &&& (e matches WindowEvent::ButtonPress(b, _) && b == MouseButton::Left) ==> t.dragging
                && t.deadline_ms == s.deadline_ms && t.button_count == s.button_count && step
                == MessageStep::Idle
            &&& (e matches WindowEvent::ButtonRelease(b, _) && b == MouseButton::Left) ==> !t.dragging
                && t.deadline_ms == s.deadline_ms && t.button_count == s.button_count && step
                == MessageStep::Idle
            &&& (e matches WindowEvent::CursorMove(_)) ==> !t.dragging && t.deadline_ms
                == s.deadline_ms && t.button_count == s.button_count && step == (if s.dragging {
                MessageStep::StartDrag
            } else {
                MessageStep::Idle
            })
            &&& e == WindowEvent::RedrawRequested ==> t == s && step == MessageStep::Redraw
        }),
{
}

} // verus!
