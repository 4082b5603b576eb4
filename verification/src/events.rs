//! Window events as the dialogs receive them, and the key codes they react to.

use vstd::prelude::*;

verus! {

// XKB keysym values.
pub const KEY_BACKSPACE: u32 = 0xff08;
pub const KEY_TAB: u32 = 0xff09;
pub const KEY_RETURN: u32 = 0xff0d;
pub const KEY_ESCAPE: u32 = 0xff1b;
pub const KEY_HOME: u32 = 0xff50;
pub const KEY_LEFT: u32 = 0xff51;
pub const KEY_UP: u32 = 0xff52;
pub const KEY_RIGHT: u32 = 0xff53;
pub const KEY_DOWN: u32 = 0xff54;
pub const KEY_PAGE_UP: u32 = 0xff55;
pub const KEY_PAGE_DOWN: u32 = 0xff56;
pub const KEY_END: u32 = 0xff57;
pub const KEY_KP_ENTER: u32 = 0xff8d;
pub const KEY_DELETE: u32 = 0xffff;
pub const KEY_ISO_LEFT_TAB: u32 = 0xfe20;
pub const KEY_LSHIFT: u32 = 0xffe1;
pub const KEY_RSHIFT: u32 = 0xffe2;
pub const KEY_SPACE: u32 = 0x20;

pub const MOD_SHIFT: u8 = 0x01;
pub const MOD_CTRL: u8 = 0x02;
pub const MOD_ALT: u8 = 0x04;
pub const MOD_SUPER: u8 = 0x08;

/// A set of keyboard modifiers, one bit each.
#[derive(Debug, Clone, Copy, PartialEq, Eq, Structural)]
pub struct Modifiers {
    pub bits: u8,
}

impl Modifiers {
    /// No modifier held.
    pub fn empty() -> (m: Modifiers)
        ensures
            m.bits == 0,
    {
        Modifiers { bits: 0 }
    }

    /// The modifiers whose bits are set in `bits`.
    pub fn from_bits(bits: u8) -> (m: Modifiers)
        ensures
            m.bits == bits,
    {
        Modifiers { bits }
    }

    /// Every modifier of `other` is held in `self`.
    pub open spec fn spec_contains(self, other: Modifiers) -> bool {
        self.bits & other.bits == other.bits
    }

    /// Whether every modifier of `other` is held in `self`.
    pub fn contains(self, other: Modifiers) -> (r: bool)
        ensures
            r == self.spec_contains(other),
    {
        self.bits & other.bits == other.bits
    }

    /// Whether Ctrl is held.
    pub open spec fn spec_ctrl(self) -> bool {
        self.bits & MOD_CTRL == MOD_CTRL
    }

    pub fn ctrl(self) -> (r: bool)
        ensures
            r == self.spec_ctrl(),
    {
        self.bits & MOD_CTRL == MOD_CTRL
    }
}

/// Pointer position in window coordinates.
#[derive(Debug, Clone, Copy, PartialEq, Eq, Structural)]
pub struct CursorPos {
    pub x: i16,
    pub y: i16,
}

#[derive(Debug, Clone, Copy, PartialEq, Eq, Structural)]
pub enum MouseButton {
    Left,
    Middle,
    Right,
}

#[derive(Debug, Clone, Copy, PartialEq, Eq, Structural)]
pub enum ScrollDirection {
    Up,
    Down,
    Left,
    Right,
}

#[derive(Debug, Clone, Copy, PartialEq, Eq, Structural)]
pub struct KeyEvent {
    pub keysym: u32,
    pub modifiers: Modifiers,
}

/// Events that a window delivers.
#[derive(Debug, Clone, Copy, PartialEq, Eq, Structural)]
pub enum WindowEvent {
    CloseRequested,
    RedrawRequested,
    CursorEnter(CursorPos),
    CursorMove(CursorPos),
    CursorLeave,
    ButtonPress(MouseButton, Modifiers),
    ButtonRelease(MouseButton, Modifiers),
    Scroll(ScrollDirection),
    KeyPress(KeyEvent),
    KeyRelease(KeyEvent),
    TextInput(char),
}

/// The point lies in the rectangle whose top-left corner is `(x, y)` and
/// whose size is `w` by `h`.
pub open spec fn in_rect(px: int, py: int, x: int, y: int, w: int, h: int) -> bool {
    px >= x && px < x + w && py >= y && py < y + h
}

/// Whether a point lies within a rectangle.
pub fn point_in_rect(px: i32, py: i32, x: i32, y: i32, w: u32, h: u32) -> (r: bool)
    requires
        i32::MIN <= x + (w as i32) <= i32::MAX,
        i32::MIN <= y + (h as i32) <= i32::MAX,
    ensures
        r == in_rect(px as int, py as int, x as int, y as int, (w as i32) as int, (h as i32) as int),
{
    px >= x && px < x + w as i32 && py >= y && py < y + h as i32
}

/// Modifier bits as X11 core events report them, a layout that keyboard
/// modifier masks share.
pub const CORE_SHIFT: u32 = 0x01;
pub const CORE_CONTROL: u32 = 0x04;
pub const CORE_MOD1: u32 = 0x08;
pub const CORE_MOD4: u32 = 0x40;

/// The modifiers held according to a core modifier mask: Shift, Control,
/// Mod1 (Alt) and Mod4 (Super); other bits are ignored.
pub open spec fn core_modifier_bits(mask: u32) -> int {
    (if mask & CORE_SHIFT == CORE_SHIFT {
        MOD_SHIFT as int
    } else {
        0
    }) + (if mask & CORE_CONTROL == CORE_CONTROL {
        MOD_CTRL as int
    } else {
        0
    }) + (if mask & CORE_MOD1 == CORE_MOD1 {
        MOD_ALT as int
    } else {
        0
    }) + (if mask & CORE_MOD4 == CORE_MOD4 {
        MOD_SUPER as int
    } else {
        0
    })
}

/// Converts a core modifier mask (see `core_modifier_bits`).
pub fn modifiers_from_core_mask(mask: u32) -> (m: Modifiers)
    ensures
        m.bits == core_modifier_bits(mask),
{
    let mut bits: u8 = 0;
    if mask & CORE_SHIFT == CORE_SHIFT {
        bits = bits + MOD_SHIFT;
    }
    if mask & CORE_CONTROL == CORE_CONTROL {
        bits = bits + MOD_CTRL;
    }
    if mask & CORE_MOD1 == CORE_MOD1 {
        bits = bits + MOD_ALT;
    }
    if mask & CORE_MOD4 == CORE_MOD4 {
        bits = bits + MOD_SUPER;
    }
    Modifiers { bits }
}

/// The pointer button of an X11 button number: 1 left, 2 middle, 3 right;
/// other numbers (such as the wheel's) are no button here.
pub open spec fn mouse_button_spec(detail: u8) -> Option<MouseButton> {
    if detail == 1 {
        Some(MouseButton::Left)
    } else if detail == 2 {
        Some(MouseButton::Middle)
    } else if detail == 3 {
        Some(MouseButton::Right)
    } else {
        None
    }
}

/// Converts an X11 button number (see `mouse_button_spec`).
pub fn mouse_button(detail: u8) -> (r: Option<MouseButton>)
    ensures
        r == mouse_button_spec(detail),
{
    match detail {
        1 => Some(MouseButton::Left),
        2 => Some(MouseButton::Middle),
        3 => Some(MouseButton::Right),
        _ => None,
    }
}

/// A control character (general category Cc), as `char::is_control` tests.
pub open spec fn is_control_char(c: char) -> bool {
    (c as u32) <= 0x1f || (0x7f <= (c as u32) && (c as u32) <= 0x9f)
}

fn control_char(c: char) -> (r: bool)
    ensures
        r == is_control_char(c),
{
    let u = c as u32;
    u <= 0x1f || (0x7f <= u && u <= 0x9f)
}

/// A key press that does not close the dialog: a printable character typed
/// without Ctrl is text input, anything else a key press.
pub open spec fn typed_event(keysym: u32, mods: Modifiers, ch: Option<char>) -> WindowEvent {
    match ch {
        Some(c) => if !is_control_char(c) && !mods.spec_ctrl() {
            WindowEvent::TextInput(c)
        } else {
            WindowEvent::KeyPress(KeyEvent { keysym, modifiers: mods })
        },
        None => WindowEvent::KeyPress(KeyEvent { keysym, modifiers: mods }),
    }
}

fn typed(keysym: u32, mods: Modifiers, ch: Option<char>) -> (e: WindowEvent)
    ensures
        e == typed_event(keysym, mods, ch),
{
    match ch {
        Some(c) => {
            if !control_char(c) && !mods.ctrl() {
                WindowEvent::TextInput(c)
            } else {
                WindowEvent::KeyPress(KeyEvent { keysym, modifiers: mods })
            }
        },
        None => WindowEvent::KeyPress(KeyEvent { keysym, modifiers: mods }),
    }
}

/// The event closes a dialog: the window is closed, or Escape is pressed.
pub open spec fn closes_dialog(e: WindowEvent) -> bool {
    e == WindowEvent::CloseRequested || (e matches WindowEvent::KeyPress(k) && k.keysym == KEY_ESCAPE)
}

/// The X11 key code of Escape.
pub const X11_KEYCODE_ESCAPE: u8 = 9;

/// The event an X11 key press gives, from its key code, its modifier state,
/// and the keysym and character the keymap gives it: Escape without Ctrl,
/// Shift or Alt closes the dialog, else see `typed_event`.
pub fn x11_key_press(keycode: u8, state: u32, keysym: u32, ch: Option<char>) -> (e: WindowEvent)
    ensures
        e == (if keycode == X11_KEYCODE_ESCAPE && state & (CORE_CONTROL | CORE_SHIFT | CORE_MOD1)
            == 0 {
            WindowEvent::CloseRequested
        } else {
            typed_event(keysym, Modifiers { bits: core_modifier_bits(state) as u8 }, ch)
        }),
{
    if keycode == X11_KEYCODE_ESCAPE && state & (CORE_CONTROL | CORE_SHIFT | CORE_MOD1) == 0 {
        WindowEvent::CloseRequested
    } else {
        let mods = modifiers_from_core_mask(state);
        typed(keysym, mods, ch)
    }
}

/// The evdev code of Escape.
pub const EVDEV_KEY_ESCAPE: u32 = 1;

/// The event a Wayland key press gives, from its evdev code, the modifier
/// mask in effect, and the keysym and character the keymap gives it:
/// Escape with no modifier at all closes the dialog, else see
/// `typed_event`.
pub fn wayland_key_press(key: u32, mask: u32, keysym: u32, ch: Option<char>) -> (e: WindowEvent)
    ensures
        e == (if key == EVDEV_KEY_ESCAPE && mask == 0 {
            WindowEvent::CloseRequested
        } else {
            typed_event(keysym, Modifiers { bits: core_modifier_bits(mask) as u8 }, ch)
        }),
{
    if key == EVDEV_KEY_ESCAPE && mask == 0 {
        WindowEvent::CloseRequested
    } else {
        let mods = modifiers_from_core_mask(mask);
        typed(keysym, mods, ch)
    }
}

/// The event an X11 button press gives: buttons 4 and 5 are the wheel,
/// 1 to 3 the pointer buttons, others give none.
pub fn x11_button_press(detail: u8, state: u32) -> (e: Option<WindowEvent>)
    ensures
        e == (if detail == 4 {
            Some(WindowEvent::Scroll(ScrollDirection::Up))
        } else if detail == 5 {
            Some(WindowEvent::Scroll(ScrollDirection::Down))
        } else {
            match mouse_button_spec(detail) {
                Some(b) => Some(
                    WindowEvent::ButtonPress(b, Modifiers { bits: core_modifier_bits(state) as u8 }),
                ),
                None => None,
            }
        }),
{
    if detail == 4 {
        Some(WindowEvent::Scroll(ScrollDirection::Up))
    } else if detail == 5 {
        Some(WindowEvent::Scroll(ScrollDirection::Down))
    } else {
        match mouse_button(detail) {
            Some(b) => Some(WindowEvent::ButtonPress(b, modifiers_from_core_mask(state))),
            None => None,
        }
    }
}

/// The event an X11 button release gives: none for the wheel.
pub fn x11_button_release(detail: u8, state: u32) -> (e: Option<WindowEvent>)
    ensures
        e == (if detail == 4 || detail == 5 {
            None
        } else {
            match mouse_button_spec(detail) {
                Some(b) => Some(
                    WindowEvent::ButtonRelease(
                        b,
                        Modifiers { bits: core_modifier_bits(state) as u8 },
                    ),
                ),
                None => None,
            }
        }),
{
    if detail == 4 || detail == 5 {
        None
    } else {
        match mouse_button(detail) {
            Some(b) => Some(WindowEvent::ButtonRelease(b, modifiers_from_core_mask(state))),
            None => None,
        }
    }
}

/// The pointer button of a Linux input button code: left, right and middle
/// (0x110 to 0x112).
pub fn wayland_button(button: u32) -> (r: Option<MouseButton>)
    ensures
        r == (if button == 0x110 {
            Some(MouseButton::Left)
        } else if button == 0x111 {
            Some(MouseButton::Right)
        } else if button == 0x112 {
            Some(MouseButton::Middle)
        } else {
            None
        }),
{
    if button == 0x110 {
        Some(MouseButton::Left)
    } else if button == 0x111 {
        Some(MouseButton::Right)
    } else if button == 0x112 {
        Some(MouseButton::Middle)
    } else {
        None
    }
}

/// Whether a name in the runtime directory is a Wayland socket:
/// `wayland-` followed by one or more ASCII digits.
pub open spec fn is_socket_name(name: Seq<char>) -> bool {
    let prefix = "wayland-"@;
    &&& name.len() > prefix.len()
    &&& name.take(prefix.len() as int) == prefix
    &&& forall|k: int| prefix.len() <= k < name.len() ==> '0' <= #[trigger] name[k] <= '9'
}

/// The socket chosen among the names of the runtime directory, in reading
/// order, and the number of sockets seen: `wayland-0` as soon as it comes
/// (no name after it is looked at), else the first socket.
pub open spec fn socket_choice(names: Seq<Seq<char>>) -> (Option<Seq<char>>, nat)
    decreases names.len(),
{
    if names.len() == 0 {
        (None, 0)
    } else {
        let (chosen, count) = socket_choice(names.drop_last());
        let n = names.last();
        if chosen == Some("wayland-0"@) {
            (chosen, count)
        } else if is_socket_name(n) {
            if n == "wayland-0"@ {
                (Some(n), count + 1)
            } else if chosen.is_none() {
                (Some(n), count + 1)
            } else {
                (chosen, count + 1)
            }
        } else {
            (chosen, count)
        }
    }
}

fn socket_name(name: &Vec<char>) -> (r: bool)
    ensures
        r == is_socket_name(name@),
{
    let prefix = crate::strutil::chars_of("wayland-");
    let n = prefix.len();
    if name.len() <= n {
        return false;
    }
    let head = crate::strutil::sub_chars(name.as_slice(), 0, n);
    assert(head@ =~= name@.take(n as int));
    if !crate::strutil::chars_eq(head.as_slice(), prefix.as_slice()) {
        return false;
    }
    let mut k: usize = n;
    while k < name.len()
        invariant
            n <= k <= name@.len(),
            prefix@ == "wayland-"@,
            n == prefix@.len(),
            forall|j: int| n <= j < k ==> '0' <= #[trigger] name@[j] <= '9',
        decreases name.len() - k,
    {
        if !('0' <= name[k] && name[k] <= '9') {
            return false;
        }
        k += 1;
    }
    true
}

/// Chooses the Wayland socket among the names of the runtime directory
/// (see `socket_choice`).
pub fn choose_wayland_socket(names: &Vec<String>) -> (r: (Option<String>, usize))
    ensures
        ({
            let (chosen, count) = socket_choice(names@.map_values(|s: String| s@));
            &&& r.1 == count
            &&& match r.0 {
                Some(s) => chosen == Some(s@),
                None => chosen.is_none(),
            }
        }),
{
    let ghost nv = names@.map_values(|s: String| s@);
    let zero = crate::strutil::chars_of("wayland-0");
    let mut chosen: Option<String> = None;
    let mut count: usize = 0;
    let mut i: usize = 0;
    while i < names.len()
        invariant
            i <= names@.len(),
            nv == names@.map_values(|s: String| s@),
            zero@ == "wayland-0"@,
            count <= i,
            ({
                let (c, k) = socket_choice(nv.take(i as int));
                &&& count == k
                &&& match chosen {
                    Some(s) => c == Some(s@),
                    None => c.is_none(),
                }
            }),
        decreases names.len() - i,
    {
        proof {
            assert(nv.take(i + 1).drop_last() =~= nv.take(i as int));
        }
        let is_zero = match &chosen {
            Some(c) => crate::strutil::chars_eq(crate::strutil::chars_of(c.as_str()).as_slice(), zero.as_slice()),
            None => false,
        };
        let name = crate::strutil::chars_of(names[i].as_str());
        if !is_zero && socket_name(&name) {
            count = count + 1;
            if crate::strutil::chars_eq(name.as_slice(), zero.as_slice()) {
                chosen = Some(names[i].clone());
            } else if chosen.is_none() {
                chosen = Some(names[i].clone());
            }
        }
        i += 1;
    }
    assert(nv.take(names.len() as int) =~= nv);
    (chosen, count)
}

} // verus!
