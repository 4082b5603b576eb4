//! Colors and the light and dark themes.

use vstd::prelude::*;

use crate::strutil::{chars_of, contains_chars, is_infix, lowercase, to_lowercase};

verus! {

/// RGBA color with 8-bit components.
#[derive(Debug, Clone, Copy, Default, PartialEq, Eq, Structural)]
pub struct Rgba {
    pub r: u8,
    pub g: u8,
    pub b: u8,
    pub a: u8,
}

impl Rgba {
    pub fn new(r: u8, g: u8, b: u8, a: u8) -> (c: Self)
        ensures
            c == (Rgba { r, g, b, a }),
    {
        Rgba { r, g, b, a }
    }

    /// An opaque color.
    pub fn rgb(r: u8, g: u8, b: u8) -> (c: Self)
        ensures
            c == (Rgba { r, g, b, a: 255 }),
    {
        Rgba { r, g, b, a: 255 }
    }

    /// The same color with another alpha.
    pub fn with_alpha(self, a: u8) -> (c: Self)
        ensures
            c == (Rgba { a, ..self }),
    {
        Rgba { a, ..self }
    }
}

/// Convenience function to create an opaque color.
pub fn rgb(r: u8, g: u8, b: u8) -> (c: Rgba)
    ensures
        c == (Rgba { r, g, b, a: 255 }),
{
    Rgba::rgb(r, g, b)
}

pub open spec fn opaque(r: u8, g: u8, b: u8) -> Rgba {
    Rgba { r, g, b, a: 255 }
}

/// Color theme for dialogs.
#[derive(Debug, Clone, Copy, PartialEq, Eq, Structural)]
pub struct Colors {
    pub window_bg: Rgba,
    pub text: Rgba,
    pub button: Rgba,
    pub button_hover: Rgba,
    pub button_pressed: Rgba,
    pub button_outline: Rgba,
    pub button_text: Rgba,
    pub input_bg: Rgba,
    pub input_bg_focused: Rgba,
    pub input_border: Rgba,
    pub input_border_focused: Rgba,
    pub input_placeholder: Rgba,
    pub progress_bg: Rgba,
    pub progress_fill: Rgba,
    pub progress_border: Rgba,
    pub window_border: Rgba,
    pub window_shadow: Rgba,
}

/// The light theme.
pub open spec fn light_theme() -> Colors {
    Colors {
        window_bg: opaque(250, 250, 250),
        text: opaque(30, 30, 30),
        button: opaque(230, 230, 230),
        button_hover: opaque(220, 220, 220),
        button_pressed: opaque(200, 200, 200),
        button_outline: opaque(180, 180, 180),
        button_text: opaque(30, 30, 30),
        input_bg: opaque(255, 255, 255),
        input_bg_focused: opaque(255, 255, 255),
        input_border: opaque(200, 200, 200),
        input_border_focused: opaque(100, 150, 200),
        input_placeholder: opaque(150, 150, 150),
        progress_bg: opaque(230, 230, 230),
        progress_fill: opaque(70, 140, 220),
        progress_border: opaque(200, 200, 200),
        window_border: opaque(180, 180, 180),
        window_shadow: Rgba { r: 0, g: 0, b: 0, a: 50 },
    }
}

/// The dark theme.
pub open spec fn dark_theme() -> Colors {
    Colors {
        window_bg: opaque(45, 45, 45),
        text: opaque(230, 230, 230),
        button: opaque(70, 70, 70),
        button_hover: opaque(80, 80, 80),
        button_pressed: opaque(60, 60, 60),
        button_outline: opaque(100, 100, 100),
        button_text: opaque(230, 230, 230),
        input_bg: opaque(60, 60, 60),
        input_bg_focused: opaque(65, 65, 65),
        input_border: opaque(90, 90, 90),
        input_border_focused: opaque(100, 150, 200),
        input_placeholder: opaque(120, 120, 120),
        progress_bg: opaque(60, 60, 60),
        progress_fill: opaque(70, 140, 220),
        progress_border: opaque(90, 90, 90),
        window_border: opaque(70, 70, 70),
        window_shadow: Rgba { r: 0, g: 0, b: 0, a: 80 },
    }
}

/// Light theme colors.
pub fn theme_light() -> (c: Colors)
    ensures
        c == light_theme(),
{
    Colors {
        window_bg: rgb(250, 250, 250),
        text: rgb(30, 30, 30),
        button: rgb(230, 230, 230),
        button_hover: rgb(220, 220, 220),
        button_pressed: rgb(200, 200, 200),
        button_outline: rgb(180, 180, 180),
        button_text: rgb(30, 30, 30),
        input_bg: rgb(255, 255, 255),
        input_bg_focused: rgb(255, 255, 255),
        input_border: rgb(200, 200, 200),
        input_border_focused: rgb(100, 150, 200),
        input_placeholder: rgb(150, 150, 150),
        progress_bg: rgb(230, 230, 230),
        progress_fill: rgb(70, 140, 220),
        progress_border: rgb(200, 200, 200),
        window_border: rgb(180, 180, 180),
        window_shadow: Rgba::new(0, 0, 0, 50),
    }
}

/// Dark theme colors.
pub fn theme_dark() -> (c: Colors)
    ensures
        c == dark_theme(),
{
    Colors {
        window_bg: rgb(45, 45, 45),
        text: rgb(230, 230, 230),
        button: rgb(70, 70, 70),
        button_hover: rgb(80, 80, 80),
        button_pressed: rgb(60, 60, 60),
        button_outline: rgb(100, 100, 100),
        button_text: rgb(230, 230, 230),
        input_bg: rgb(60, 60, 60),
        input_bg_focused: rgb(65, 65, 65),
        input_border: rgb(90, 90, 90),
        input_border_focused: rgb(100, 150, 200),
        input_placeholder: rgb(120, 120, 120),
        progress_bg: rgb(60, 60, 60),
        progress_fill: rgb(70, 140, 220),
        progress_border: rgb(90, 90, 90),
        window_border: rgb(70, 70, 70),
        window_shadow: Rgba::new(0, 0, 0, 80),
    }
}

/// The theme chosen from the value of `GTK_THEME`: dark when its lower-case
/// form contains "dark", light otherwise.
pub fn theme_from_gtk_theme(name: &str) -> (c: Colors)
    ensures
        c == (if is_infix(lowercase(name@), "dark"@) {
            dark_theme()
        } else {
            light_theme()
        }),
{
    let lower = to_lowercase(name);
    let hay = chars_of(lower.as_str());
    let needle = chars_of("dark");
    if contains_chars(hay.as_slice(), needle.as_slice()) {
        theme_dark()
    } else {
        theme_light()
    }
}

/// The theme chosen from the output of the desktop's `color-scheme` setting:
/// dark when it mentions "dark", light when it mentions "light" or
/// "default", none otherwise.
pub fn theme_from_color_scheme(output: &str) -> (c: Option<Colors>)
    ensures
        c == (if is_infix(output@, "dark"@) {
            Some(dark_theme())
        } else if is_infix(output@, "light"@) || is_infix(output@, "default"@) {
            Some(light_theme())
        } else {
            None
        }),
{
    let hay = chars_of(output);
    if contains_chars(hay.as_slice(), chars_of("dark").as_slice()) {
        Some(theme_dark())
    } else if contains_chars(hay.as_slice(), chars_of("light").as_slice()) || contains_chars(
        hay.as_slice(),
        chars_of("default").as_slice(),
    ) {
        Some(theme_light())
    } else {
        None
    }
}

} // verus!
