//! Single-line text input: the text, the cursor and the keys that edit them.

use vstd::prelude::*;

use crate::events::{
    Modifiers, WindowEvent, KEY_BACKSPACE, KEY_DELETE, KEY_END, KEY_HOME, KEY_KP_ENTER, KEY_LEFT,
    KEY_RETURN, KEY_RIGHT, MOD_CTRL,
};
use crate::strutil::{chars_of, repeat_char, string_from_chars};

verus! {

pub const INPUT_HEIGHT: u32 = 32;

/// The model of a text input.
pub struct TextInputView {
    pub x: i32,
    pub y: i32,
    pub width: u32,
    pub height: u32,
    pub text: Seq<char>,
    /// Cursor position, counted in characters.
    pub cursor: int,
    pub focused: bool,
    pub password: bool,
    pub placeholder: Seq<char>,
    pub submitted: bool,
}

impl TextInputView {
    /// The cursor lies within the text.
    pub open spec fn wf(self) -> bool {
        0 <= self.cursor <= self.text.len()
    }
}

/// A character typed at the cursor.
pub open spec fn insert_spec(v: TextInputView, c: char) -> TextInputView {
    TextInputView { text: v.text.insert(v.cursor, c), cursor: v.cursor + 1, ..v }
}

/// Backspace: the character before the cursor removed.
pub open spec fn delete_before_spec(v: TextInputView) -> TextInputView {
    if v.cursor > 0 {
        TextInputView { text: v.text.remove(v.cursor - 1), cursor: v.cursor - 1, ..v }
    } else {
        v
    }
}

/// Delete: the character after the cursor removed.
pub open spec fn delete_after_spec(v: TextInputView) -> TextInputView {
    if v.cursor < v.text.len() {
        TextInputView { text: v.text.remove(v.cursor), ..v }
    } else {
        v
    }
}

pub open spec fn move_left_spec(v: TextInputView) -> TextInputView {
    if v.cursor > 0 {
        TextInputView { cursor: v.cursor - 1, ..v }
    } else {
        v
    }
}

pub open spec fn move_right_spec(v: TextInputView) -> TextInputView {
    if v.cursor < v.text.len() {
        TextInputView { cursor: v.cursor + 1, ..v }
    } else {
        v
    }
}

pub open spec fn move_home_spec(v: TextInputView) -> TextInputView {
    TextInputView { cursor: 0, ..v }
}

pub open spec fn move_end_spec(v: TextInputView) -> TextInputView {
    TextInputView { cursor: v.text.len() as int, ..v }
}

/// The effect of a key press, and whether the key was handled.
pub open spec fn key_spec(v: TextInputView, keysym: u32, modifiers: Modifiers) -> (
    TextInputView,
    bool,
) {
    if keysym == KEY_BACKSPACE {
        (delete_before_spec(v), true)
    } else if keysym == KEY_DELETE {
        (delete_after_spec(v), true)
    } else if keysym == KEY_LEFT {
        (if modifiers.spec_contains(Modifiers { bits: MOD_CTRL }) {
            move_home_spec(v)
        } else {
            move_left_spec(v)
        }, true)
    } else if keysym == KEY_RIGHT {
        (if modifiers.spec_contains(Modifiers { bits: MOD_CTRL }) {
            move_end_spec(v)
        } else {
            move_right_spec(v)
        }, true)
    } else if keysym == KEY_HOME {
        (move_home_spec(v), true)
    } else if keysym == KEY_END {
        (move_end_spec(v), true)
    } else if keysym == KEY_RETURN || keysym == KEY_KP_ENTER {
        (TextInputView { submitted: true, ..v }, true)
    } else {
        (v, false)
    }
}

/// The effect of a window event, and whether the input changed. Typed
/// characters and key presses reach the input only while it has focus.
pub open spec fn event_spec(v: TextInputView, e: WindowEvent) -> (TextInputView, bool) {
    match e {
        WindowEvent::TextInput(c) => if v.focused {
            (insert_spec(v, c), true)
        } else {
            (v, false)
        },
        WindowEvent::KeyPress(k) => if v.focused {
            key_spec(v, k.keysym, k.modifiers)
        } else {
            (v, false)
        },
        _ => (v, false),
    }
}

/// Number of bytes that UTF-8 takes for a character.
pub open spec fn utf8_len(c: char) -> nat {
    if (c as u32) < 0x80 {
        1
    } else if (c as u32) < 0x800 {
        2
    } else if (c as u32) < 0x10000 {
        3
    } else {
        4
    }
}

/// Number of bytes that UTF-8 takes for a sequence of characters.
pub open spec fn utf8_size(s: Seq<char>) -> nat
    decreases s.len(),
{
    if s.len() == 0 {
        0
    } else {
        utf8_size(s.drop_last()) + utf8_len(s.last())
    }
}

/// A single-line text input widget.
pub struct TextInput {
    x: i32,
    y: i32,
    width: u32,
    height: u32,
    text: Vec<char>,
    cursor_pos: usize,
    focused: bool,
    password: bool,
    placeholder: Vec<char>,
    submitted: bool,
}

impl View for TextInput {
    type V = TextInputView;

    closed spec fn view(&self) -> TextInputView {
        TextInputView {
            x: self.x,
            y: self.y,
            width: self.width,
            height: self.height,
            text: self.text@,
            cursor: self.cursor_pos as int,
            focused: self.focused,
            password: self.password,
            placeholder: self.placeholder@,
            submitted: self.submitted,
        }
    }
}

impl TextInput {
    pub fn new(width: u32) -> (r: Self)
        ensures
            r@ == (TextInputView {
                x: 0,
                y: 0,
                width,
                height: INPUT_HEIGHT,
                text: Seq::empty(),
                cursor: 0,
                focused: false,
                password: false,
                placeholder: Seq::empty(),
                submitted: false,
            }),
    {
        TextInput {
            x: 0,
            y: 0,
            width,
            height: INPUT_HEIGHT,
            text: Vec::new(),
            cursor_pos: 0,
            focused: false,
            password: false,
            placeholder: Vec::new(),
            submitted: false,
        }
    }

    pub fn with_password(self, password: bool) -> (r: Self)
        ensures
            r@ == (TextInputView { password, ..self@ }),
    {
        TextInput { password, ..self }
    }

    pub fn with_placeholder(self, placeholder: &str) -> (r: Self)
        ensures
            r@ == (TextInputView { placeholder: placeholder@, ..self@ }),
    {
        TextInput { placeholder: chars_of(placeholder), ..self }
    }

    /// Sets the text and puts the cursor after its last character.
    pub fn with_default_text(self, text: &str) -> (r: Self)
        ensures
            r@ == (TextInputView { text: text@, cursor: text@.len() as int, ..self@ }),
    {
        let chars = chars_of(text);
        let n = chars.len();
        TextInput { text: chars, cursor_pos: n, ..self }
    }

    /// Returns the current text content.
    pub fn text(&self) -> (r: String)
        ensures
            r@ == self@.text,
    {
        string_from_chars(self.text.as_slice())
    }

    /// The placeholder shown while the input is empty and unfocused.
    pub fn placeholder(&self) -> (r: String)
        ensures
            r@ == self@.placeholder,
    {
        string_from_chars(self.placeholder.as_slice())
    }

    /// The cursor position, in characters.
    pub fn cursor(&self) -> (r: usize)
        ensures
            r == self@.cursor,
    {
        self.cursor_pos
    }

    /// Whether the text is shown masked.
    pub fn is_password(&self) -> (r: bool)
        ensures
            r == self@.password,
    {
        self.password
    }

    /// Returns true if Enter was pressed since the last call, and clears that.
    pub fn was_submitted(&mut self) -> (r: bool)
        ensures
            r == old(self)@.submitted,
            final(self)@ == (TextInputView { submitted: false, ..old(self)@ }),
    {
        let submitted = self.submitted;
        self.submitted = false;
        submitted
    }

    /// The text as displayed: one `'*'` per character in password mode.
    pub fn display_text(&self) -> (r: String)
        ensures
            r@ == (if self@.password {
                Seq::new(self@.text.len(), |_i: int| '*')
            } else {
                self@.text
            }),
    {
        if self.password {
            repeat_char('*', self.char_count())
        } else {
            string_from_chars(self.text.as_slice())
        }
    }

    /// The number of characters in the text.
    pub fn char_count(&self) -> (r: usize)
        ensures
            r == self@.text.len(),
    {
        self.text.len()
    }

    /// The byte offset in the UTF-8 text of the character at `char_pos`, or
    /// the text's byte length when `char_pos` lies past its end.
    pub fn byte_position(&self, char_pos: usize) -> (r: usize)
        requires
            utf8_size(self@.text) <= usize::MAX,
        ensures
            r == (if char_pos < self@.text.len() {
                utf8_size(self@.text.take(char_pos as int))
            } else {
                utf8_size(self@.text)
            }),
    {
        let n = if char_pos < self.text.len() {
            char_pos
        } else {
            self.text.len()
        };
        let mut i: usize = 0;
        let mut bytes: usize = 0;
        proof {
            lemma_utf8_size_prefix_mono(self@.text, self@.text.len() as int);
        }
        while i < n
            invariant
                i <= n <= self.text.len(),
                bytes == utf8_size(self.text@.take(i as int)),
                utf8_size(self.text@) <= usize::MAX,
            decreases n - i,
        {
            proof {
                assert(self.text@.take(i + 1).drop_last() == self.text@.take(i as int));
                lemma_utf8_size_prefix_le(self.text@, i + 1);
            }
            bytes = bytes + char_utf8_len(self.text[i]);
            i += 1;
        }
        assert(self.text@.take(self.text.len() as int) == self.text@);
        bytes
    }

    /// Inserts a character at the cursor position.
    pub fn insert_char(&mut self, c: char)
        requires
            old(self)@.wf(),
        ensures
            final(self)@ == insert_spec(old(self)@, c),
    {
        self.text.insert(self.cursor_pos, c);
        let n = self.text.len();
        assert(self.cursor_pos < n);
        self.cursor_pos = self.cursor_pos + 1;
    }

    /// Deletes the character before the cursor (backspace).
    pub fn delete_before(&mut self)
        requires
            old(self)@.wf(),
        ensures
            final(self)@ == delete_before_spec(old(self)@),
    {
        if self.cursor_pos > 0 {
            self.cursor_pos = self.cursor_pos - 1;
            self.text.remove(self.cursor_pos);
        }
    }

    /// Deletes the character after the cursor (delete).
    pub fn delete_after(&mut self)
        requires
            old(self)@.wf(),
        ensures
            final(self)@ == delete_after_spec(old(self)@),
    {
        if self.cursor_pos < self.char_count() {
            self.text.remove(self.cursor_pos);
        }
    }

    pub fn move_left(&mut self)
        ensures
            final(self)@ == move_left_spec(old(self)@),
    {
        if self.cursor_pos > 0 {
            self.cursor_pos = self.cursor_pos - 1;
        }
    }

    pub fn move_right(&mut self)
        ensures
            final(self)@ == move_right_spec(old(self)@),
    {
        if self.cursor_pos < self.char_count() {
            self.cursor_pos = self.cursor_pos + 1;
        }
    }

    pub fn move_home(&mut self)
        ensures
            final(self)@ == move_home_spec(old(self)@),
    {
        self.cursor_pos = 0;
    }

    pub fn move_end(&mut self)
        ensures
            final(self)@ == move_end_spec(old(self)@),
    {
        self.cursor_pos = self.char_count();
    }

    /// Applies a key press; returns whether the key was one the input handles.
    pub fn handle_key(&mut self, keysym: u32, modifiers: Modifiers) -> (r: bool)
        requires
            old(self)@.wf(),
        ensures
            (final(self)@, r) == key_spec(old(self)@, keysym, modifiers),
    {
        let ctrl = Modifiers { bits: MOD_CTRL };
        if keysym == KEY_BACKSPACE {
            self.delete_before();
            true
        } else if keysym == KEY_DELETE {
            self.delete_after();
            true
        } else if keysym == KEY_LEFT {
            if modifiers.contains(ctrl) {
                self.move_home();
            } else {
                self.move_left();
            }
            true
        } else if keysym == KEY_RIGHT {
            if modifiers.contains(ctrl) {
                self.move_end();
            } else {
                self.move_right();
            }
            true
        } else if keysym == KEY_HOME {
            self.move_home();
            true
        } else if keysym == KEY_END {
            self.move_end();
            true
        } else if keysym == KEY_RETURN || keysym == KEY_KP_ENTER {
            self.submitted = true;
            true
        } else {
            false
        }
    }

    pub fn set_focus(&mut self, focused: bool)
        ensures
            final(self)@ == (TextInputView { focused, ..old(self)@ }),
    {
        self.focused = focused;
    }

    pub fn has_focus(&self) -> (r: bool)
        ensures
            r == self@.focused,
    {
        self.focused
    }

    pub fn width(&self) -> (r: u32)
        ensures
            r == self@.width,
    {
        self.width
    }

    pub fn height(&self) -> (r: u32)
        ensures
            r == self@.height,
    {
        self.height
    }

    pub fn x(&self) -> (r: i32)
        ensures
            r == self@.x,
    {
        self.x
    }

    pub fn y(&self) -> (r: i32)
        ensures
            r == self@.y,
    {
        self.y
    }

    pub fn set_position(&mut self, x: i32, y: i32)
        ensures
            final(self)@ == (TextInputView { x, y, ..old(self)@ }),
    {
        self.x = x;
        self.y = y;
    }

    /// Feeds a window event to the input; returns whether it changed.
    pub fn process_event(&mut self, event: &WindowEvent) -> (r: bool)
        requires
            old(self)@.wf(),
        ensures
            (final(self)@, r) == event_spec(old(self)@, *event),
    {
        match event {
            WindowEvent::TextInput(c) => {
                if self.focused {
                    self.insert_char(*c);
                    true
                } else {
                    false
                }
            },
            WindowEvent::KeyPress(key_event) => {
                if self.focused {
                    self.handle_key(key_event.keysym, key_event.modifiers)
                } else {
                    false
                }
            },
            _ => false,
        }
    }
}

fn char_utf8_len(c: char) -> (r: usize)
    ensures
        r == utf8_len(c),
{
    if (c as u32) < 0x80 {
        1
    } else if (c as u32) < 0x800 {
        2
    } else if (c as u32) < 0x10000 {
        3
    } else {
        4
    }
}

proof fn lemma_utf8_size_prefix_le(s: Seq<char>, i: int)
    requires
        0 <= i <= s.len(),
    ensures
        utf8_size(s.take(i)) <= utf8_size(s),
    decreases s.len(),
{
    if i < s.len() {
        assert(s.drop_last().take(i) == s.take(i));
        lemma_utf8_size_prefix_le(s.drop_last(), i);
    } else {
        assert(s.take(i) == s);
    }
}

proof fn lemma_utf8_size_prefix_mono(s: Seq<char>, i: int)
    requires
        0 <= i <= s.len(),
    ensures
        utf8_size(s.take(i)) <= utf8_size(s),
{
    lemma_utf8_size_prefix_le(s, i);
}

/// Every operation keeps the cursor within the text.
pub proof fn law_operations_keep_cursor_in_text(v: TextInputView, c: char, e: WindowEvent)
    requires
        v.wf(),
    ensures
        insert_spec(v, c).wf(),
        delete_before_spec(v).wf(),
        delete_after_spec(v).wf(),
        move_left_spec(v).wf(),
        move_right_spec(v).wf(),
        move_home_spec(v).wf(),
        move_end_spec(v).wf(),
        event_spec(v, e).0.wf(),
{
}

/// Events edit the text, the cursor and the submitted flag only: the widget's
/// place, size, focus, mode and placeholder stay as they were.
pub proof fn lemma_event_keeps_layout(v: TextInputView, e: WindowEvent)
    ensures
        ({
            let w = event_spec(v, e).0;
            w.x == v.x && w.y == v.y && w.width == v.width && w.height == v.height && w.focused
                == v.focused && w.password == v.password && w.placeholder == v.placeholder
        }),
{
}

/// Typing a character and then pressing backspace gives back the text and
/// the cursor as they were.
pub proof fn law_backspace_undoes_insert(v: TextInputView, c: char)
    requires
        v.wf(),
    ensures
        delete_before_spec(insert_spec(v, c)) == v,
{
    assert(v.text.insert(v.cursor, c).remove(v.cursor) =~= v.text);
}

/// A typed character lands at the cursor: the text before the cursor is
/// kept, the character follows it, then the rest of the text.
pub proof fn law_insert_places_char_at_cursor(v: TextInputView, c: char)
    requires
        v.wf(),
    ensures
        insert_spec(v, c).text == v.text.take(v.cursor) + seq![c] + v.text.skip(v.cursor),
        insert_spec(v, c).cursor == v.cursor + 1,
{
    assert(v.text.insert(v.cursor, c) =~= v.text.take(v.cursor) + seq![c] + v.text.skip(v.cursor));
}

/// Cursor movement never changes the text.
pub proof fn law_moves_keep_text(v: TextInputView)
    ensures
        move_left_spec(v).text == v.text,
        move_right_spec(v).text == v.text,
        move_home_spec(v).text == v.text,
        move_end_spec(v).text == v.text,
{
}

/// Without focus the input ignores typed characters and key presses.
pub proof fn law_unfocused_input_ignores_events(v: TextInputView, e: WindowEvent)
    requires
        !v.focused,
    ensures
        event_spec(v, e) == (v, false),
{
}


/// What each editing key does, for any cursor within the text: Backspace
/// removes the character before the cursor and Delete the one after it;
/// Left and Right move the cursor one character (with Ctrl, to the start
/// and the end); Home moves it to the start and End past the last
/// character; Enter marks the text submitted. These keys are handled; any
/// other key leaves the input as it was and is not handled.
pub proof fn law_editing_keys(v: TextInputView, keysym: u32, modifiers: Modifiers)
    requires
        v.wf(),
    ensures
        ({
            let (w, handled) = key_spec(v, keysym, modifiers);
            let n = v.text.len() as int;
            let c = v.cursor;
            let ctrl = modifiers.spec_contains(Modifiers { bits: MOD_CTRL });
            &&& keysym == KEY_BACKSPACE ==> handled && w == (if c > 0 {
                TextInputView { text: v.text.take(c - 1) + v.text.skip(c), cursor: c - 1, ..v }
            } else {
                v
            })
            &&& keysym == KEY_DELETE ==> handled && w == (if c < n {
                TextInputView { text: v.text.take(c) + v.text.skip(c + 1), ..v }
            } else {
                v
            })
            &&& keysym == KEY_LEFT ==> handled && w == TextInputView {
                cursor: if ctrl {
                    0
                } else if c > 0 {
                    c - 1
                } else {
                    0
                },
                ..v
            }
            &&& keysym == KEY_RIGHT ==> handled && w == TextInputView {
                cursor: if ctrl {
                    n
                } else if c < n {
                    c + 1
                } else {
                    n
                },
                ..v
            }
            &&& keysym == KEY_HOME ==> handled && w == TextInputView { cursor: 0, ..v }
            &&& keysym == KEY_END ==> handled && w == TextInputView { cursor: n, ..v }
            &&& (keysym == KEY_RETURN || keysym == KEY_KP_ENTER) ==> handled && w
                == TextInputView { submitted: true, ..v }
            &&& !(keysym == KEY_BACKSPACE || keysym == KEY_DELETE || keysym == KEY_LEFT || keysym
                == KEY_RIGHT || keysym == KEY_HOME || keysym == KEY_END || keysym == KEY_RETURN
                || keysym == KEY_KP_ENTER) ==> !handled && w == v
        }),
{
    let c = v.cursor;
    if c > 0 {
        assert(v.text.remove(c - 1) =~= v.text.take(c - 1) + v.text.skip(c));
    }
    if c < v.text.len() {
        assert(v.text.remove(c) =~= v.text.take(c) + v.text.skip(c + 1));
    }
}

} // verus!
