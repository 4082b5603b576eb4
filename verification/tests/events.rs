use zenity_rs::events::{
    choose_wayland_socket, wayland_button, wayland_key_press, x11_button_press,
    x11_button_release, x11_key_press, KeyEvent, Modifiers, MouseButton, ScrollDirection,
    WindowEvent, CORE_CONTROL, CORE_SHIFT,
};

fn names(v: &[&str]) -> Vec<String> {
    v.iter().map(|s| s.to_string()).collect()
}

#[test]
fn x11_escape_closes_without_modifiers() {
    assert_eq!(x11_key_press(9, 0, 0xff1b, None), WindowEvent::CloseRequested);
    // Num Lock (Mod2) does not count.
    assert_eq!(x11_key_press(9, 0x10, 0xff1b, None), WindowEvent::CloseRequested);
    assert_eq!(
        x11_key_press(9, CORE_SHIFT, 0xff1b, None),
        WindowEvent::KeyPress(KeyEvent { keysym: 0xff1b, modifiers: Modifiers::from_bits(0x01) })
    );
}

#[test]
fn x11_printable_keys_are_text() {
    assert_eq!(x11_key_press(38, 0, 0x61, Some('a')), WindowEvent::TextInput('a'));
    assert_eq!(x11_key_press(38, CORE_SHIFT, 0x41, Some('A')), WindowEvent::TextInput('A'));
    assert_eq!(
        x11_key_press(38, CORE_CONTROL, 0x61, Some('a')),
        WindowEvent::KeyPress(KeyEvent { keysym: 0x61, modifiers: Modifiers::from_bits(0x02) })
    );
    assert_eq!(
        x11_key_press(22, 0, 0xff08, Some('\u{8}')),
        WindowEvent::KeyPress(KeyEvent { keysym: 0xff08, modifiers: Modifiers::empty() })
    );
    assert_eq!(
        x11_key_press(22, 0, 0xff0d, None),
        WindowEvent::KeyPress(KeyEvent { keysym: 0xff0d, modifiers: Modifiers::empty() })
    );
}

#[test]
fn wayland_escape_needs_an_empty_mask() {
    assert_eq!(wayland_key_press(1, 0, 0xff1b, None), WindowEvent::CloseRequested);
    assert_eq!(
        wayland_key_press(1, 0x10, 0xff1b, None),
        WindowEvent::KeyPress(KeyEvent { keysym: 0xff1b, modifiers: Modifiers::empty() })
    );
    assert_eq!(wayland_key_press(30, 0, 0x61, Some('a')), WindowEvent::TextInput('a'));
}

#[test]
fn x11_buttons_and_wheel() {
    assert_eq!(x11_button_press(4, 0), Some(WindowEvent::Scroll(ScrollDirection::Up)));
    assert_eq!(x11_button_press(5, 0), Some(WindowEvent::Scroll(ScrollDirection::Down)));
    assert_eq!(
        x11_button_press(1, CORE_SHIFT),
        Some(WindowEvent::ButtonPress(MouseButton::Left, Modifiers::from_bits(0x01)))
    );
    assert_eq!(x11_button_press(9, 0), None);
    assert_eq!(x11_button_release(5, 0), None);
    assert_eq!(
        x11_button_release(3, 0),
        Some(WindowEvent::ButtonRelease(MouseButton::Right, Modifiers::empty()))
    );
    assert_eq!(wayland_button(0x110), Some(MouseButton::Left));
    assert_eq!(wayland_button(0x111), Some(MouseButton::Right));
    assert_eq!(wayland_button(0x112), Some(MouseButton::Middle));
    assert_eq!(wayland_button(0x113), None);
}

#[test]
fn wayland_socket_choice() {
    let r = choose_wayland_socket(&names(&["foo", "wayland-1", "wayland-0", "wayland-2"]));
    assert_eq!(r, (Some("wayland-0".to_string()), 2));
    let r = choose_wayland_socket(&names(&["wayland-3", "wayland-x", "wayland-", "wayland-12"]));
    assert_eq!(r, (Some("wayland-3".to_string()), 2));
    assert_eq!(choose_wayland_socket(&vec![]), (None, 0));
    assert_eq!(choose_wayland_socket(&names(&["wayland-0.lock"])), (None, 0));
}
