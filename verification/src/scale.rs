//! Scale dialog: a slider to pick an integer between a minimum and a
//! maximum, in steps.

use vstd::prelude::*;

use crate::calendar::colors_view;
use crate::color::Colors;
use crate::date::tdiv;
use crate::events::{KEY_END, KEY_ESCAPE, KEY_HOME, KEY_LEFT, KEY_RETURN, KEY_RIGHT};

verus! {

/// Scale dialog result.
#[derive(Debug, Clone, Copy, PartialEq, Eq, Structural)]
pub enum ScaleResult {
    /// User selected a value and clicked OK.
    Value(i32),
    /// User cancelled the dialog.
    Cancelled,
    /// Dialog was closed.
    Closed,
}

impl ScaleResult {
    pub fn exit_code(&self) -> (r: i32)
        ensures
            r == match self {
                ScaleResult::Value(_) => 0i32,
                ScaleResult::Cancelled => 1i32,
                ScaleResult::Closed => 255i32,
            },
    {
        match self {
            ScaleResult::Value(_) => 0,
            ScaleResult::Cancelled => 1,
            ScaleResult::Closed => 255,
        }
    }
}

/// What a scale builder holds.
pub struct ScaleConfig {
    pub title: Seq<char>,
    pub text: Seq<char>,
    pub value: i32,
    pub min_value: i32,
    pub max_value: i32,
    pub step: i32,
    pub hide_value: bool,
    pub width: Option<u32>,
    pub height: Option<u32>,
    pub colors: Option<Colors>,
}

pub open spec fn default_scale() -> ScaleConfig {
    ScaleConfig {
        title: Seq::empty(),
        text: Seq::empty(),
        value: 0,
        min_value: 0,
        max_value: 100,
        step: 1,
        hide_value: false,
        width: None,
        height: None,
        colors: None,
    }
}

/// Scale dialog builder.
pub struct ScaleBuilder {
    title: String,
    text: String,
    value: i32,
    min_value: i32,
    max_value: i32,
    step: i32,
    hide_value: bool,
    width: Option<u32>,
    height: Option<u32>,
    colors: Option<&'static Colors>,
}

impl View for ScaleBuilder {
    type V = ScaleConfig;

    closed spec fn view(&self) -> ScaleConfig {
        ScaleConfig {
            title: self.title@,
            text: self.text@,
            value: self.value,
            min_value: self.min_value,
            max_value: self.max_value,
            step: self.step,
            hide_value: self.hide_value,
            width: self.width,
            height: self.height,
            colors: colors_view(self.colors),
        }
    }
}

impl ScaleBuilder {
    #[verifier::type_invariant]
    spec fn step_positive(&self) -> bool {
        self.step >= 1
    }

    pub fn new() -> (r: Self)
        ensures
            r@ == default_scale(),
    {
        ScaleBuilder {
            title: String::new(),
            text: String::new(),
            value: 0,
            min_value: 0,
            max_value: 100,
            step: 1,
            hide_value: false,
            width: None,
            height: None,
            colors: None,
        }
    }

    pub fn title(self, title: &str) -> (r: Self)
        ensures
            r@ == (ScaleConfig { title: title@, ..self@ }),
    {
        proof {
            use_type_invariant(&self);
        }
        ScaleBuilder { title: title.to_owned(), ..self }
    }

    pub fn text(self, text: &str) -> (r: Self)
        ensures
            r@ == (ScaleConfig { text: text@, ..self@ }),
    {
        proof {
            use_type_invariant(&self);
        }
        ScaleBuilder { text: text.to_owned(), ..self }
    }

    /// Set the initial value.
    pub fn value(self, value: i32) -> (r: Self)
        ensures
            r@ == (ScaleConfig { value, ..self@ }),
    {
        proof {
            use_type_invariant(&self);
        }
        ScaleBuilder { value, ..self }
    }

    /// Set the minimum value (default: 0).
    pub fn min_value(self, min: i32) -> (r: Self)
        ensures
            r@ == (ScaleConfig { min_value: min, ..self@ }),
    {
        proof {
            use_type_invariant(&self);
        }
        ScaleBuilder { min_value: min, ..self }
    }

    /// Set the maximum value (default: 100).
    pub fn max_value(self, max: i32) -> (r: Self)
        ensures
            r@ == (ScaleConfig { max_value: max, ..self@ }),
    {
        proof {
            use_type_invariant(&self);
        }
        ScaleBuilder { max_value: max, ..self }
    }

    /// Set the step increment (default: 1); steps below 1 become 1.
    pub fn step(self, step: i32) -> (r: Self)
        ensures
            r@ == (ScaleConfig { step: if step < 1 {
                1
            } else {
                step
            }, ..self@ }),
    {
        let s = if step < 1 {
            1
        } else {
            step
        };
        ScaleBuilder { step: s, ..self }
    }

    /// Hide the value display.
    pub fn hide_value(self, hide: bool) -> (r: Self)
        ensures
            r@ == (ScaleConfig { hide_value: hide, ..self@ }),
    {
        proof {
            use_type_invariant(&self);
        }
        ScaleBuilder { hide_value: hide, ..self }
    }

    pub fn colors(self, colors: &'static Colors) -> (r: Self)
        ensures
            r@ == (ScaleConfig { colors: Some(*colors), ..self@ }),
    {
        proof {
            use_type_invariant(&self);
        }
        ScaleBuilder { colors: Some(colors), ..self }
    }

    pub fn width(self, width: u32) -> (r: Self)
        ensures
            r@ == (ScaleConfig { width: Some(width), ..self@ }),
    {
        proof {
            use_type_invariant(&self);
        }
        ScaleBuilder { width: Some(width), ..self }
    }

    pub fn height(self, height: u32) -> (r: Self)
        ensures
            r@ == (ScaleConfig { height: Some(height), ..self@ }),
    {
        proof {
            use_type_invariant(&self);
        }
        ScaleBuilder { height: Some(height), ..self }
    }

    /// The dialog title; "Scale" when none was set.
    pub fn window_title(&self) -> (r: String)
        ensures
            r@ == (if self@.title.len() == 0 {
                "Scale"@
            } else {
                self@.title
            }),
    {
        if self.title.as_str().is_empty() {
            "Scale".to_owned()
        } else {
            self.title.clone()
        }
    }

    pub fn prompt(&self) -> (r: String)
        ensures
            r@ == self@.text,
    {
        self.text.clone()
    }

    /// The configured minimum and maximum.
    pub fn range(&self) -> (r: (i32, i32))
        ensures
            r == (self@.min_value, self@.max_value),
    {
        (self.min_value, self.max_value)
    }

    pub fn value_hidden(&self) -> (r: bool)
        ensures
            r == self@.hide_value,
    {
        self.hide_value
    }

    pub fn size(&self) -> (r: (Option<u32>, Option<u32>))
        ensures
            r == (self@.width, self@.height),
    {
        (self.width, self.height)
    }

    pub fn theme(&self) -> (r: Option<&'static Colors>)
        ensures
            colors_view(r) == self@.colors,
    {
        self.colors
    }

    /// The dialog as it opens: the initial value clamped into the range.
    /// The range must not be empty (clamping into an empty range panics).
    pub fn initial_state(&self) -> (s: ScaleState)
        requires
            self@.min_value <= self@.max_value,
        ensures
            s.wf(),
            s == (ScaleState {
                value: clamp_i(self@.value as int, self@.min_value as int, self@.max_value as int)
                    as i32,
                min_value: self@.min_value,
                max_value: self@.max_value,
                step: self@.step,
                dragging: false,
            }),
    {
        proof {
            use_type_invariant(self);
        }
        let value = if self.value < self.min_value {
            self.min_value
        } else if self.value > self.max_value {
            self.max_value
        } else {
            self.value
        };
        ScaleState {
            value,
            min_value: self.min_value,
            max_value: self.max_value,
            step: self.step,
            dragging: false,
        }
    }
}

impl Default for ScaleBuilder {
    fn default() -> Self {
        Self::new()
    }
}

pub open spec fn clamp_i(v: int, lo: int, hi: int) -> int {
    if v < lo {
        lo
    } else if v > hi {
        hi
    } else {
        v
    }
}

/// What the scale dialog does after an event.
#[derive(Debug, Clone, Copy, PartialEq, Eq, Structural)]
pub enum ScaleStep {
    /// Keep going; redraw when the flag is set.
    Continue(bool),
    /// Close the dialog with this result.
    Finish(ScaleResult),
}

/// The state of an open scale dialog.
#[derive(Debug, Clone, Copy, PartialEq, Eq, Structural)]
pub struct ScaleState {
    pub value: i32,
    pub min_value: i32,
    pub max_value: i32,
    pub step: i32,
    /// The thumb is being dragged.
    pub dragging: bool,
}

/// A raw slider value snapped down to a whole number of steps above the
/// minimum, then clamped into the range.
pub open spec fn snap_spec(raw: int, min: int, max: int, step: int) -> int {
    clamp_i(min + tdiv(raw - min, step) * step, min, max)
}

/// Snapping `raw` is computed without overflow.
pub open spec fn snap_fits(raw: int, min: int, step: int) -> bool {
    &&& i32::MIN <= raw - min <= i32::MAX
    &&& i32::MIN <= tdiv(raw - min, step) * step <= i32::MAX
    &&& i32::MIN <= min + tdiv(raw - min, step) * step <= i32::MAX
}

/// The effect of a key press.
pub open spec fn scale_key_spec(s: ScaleState, keysym: u32) -> (ScaleState, ScaleStep) {
    if keysym == KEY_LEFT {
        let v = if s.value - s.step < s.min_value {
            s.min_value as int
        } else {
            s.value - s.step
        };
        (ScaleState { value: v as i32, ..s }, ScaleStep::Continue(v != s.value))
    } else if keysym == KEY_RIGHT {
        let v = if s.value + s.step > s.max_value {
            s.max_value as int
        } else {
            s.value + s.step
        };
        (ScaleState { value: v as i32, ..s }, ScaleStep::Continue(v != s.value))
    } else if keysym == KEY_HOME {
        (ScaleState { value: s.min_value, ..s }, ScaleStep::Continue(s.value != s.min_value))
    } else if keysym == KEY_END {
        (ScaleState { value: s.max_value, ..s }, ScaleStep::Continue(s.value != s.max_value))
    } else if keysym == KEY_RETURN {
        (s, ScaleStep::Finish(ScaleResult::Value(s.value)))
    } else if keysym == KEY_ESCAPE {
        (s, ScaleStep::Finish(ScaleResult::Closed))
    } else {
        (s, ScaleStep::Continue(false))
    }
}

/// A key press is computed without overflow.
pub open spec fn scale_key_ok(s: ScaleState, keysym: u32) -> bool {
    &&& (keysym == KEY_LEFT ==> s.value - s.step >= i32::MIN)
    &&& (keysym == KEY_RIGHT ==> s.value + s.step <= i32::MAX)
}

impl ScaleState {
    /// The value lies in a non-empty range and the step is positive.
    pub open spec fn wf(self) -> bool {
        self.min_value <= self.value <= self.max_value && self.step >= 1
    }

    /// Snaps a raw slider value to the steps of the range.
    pub fn snap(&self, raw: i32) -> (r: i32)
        requires
            self.wf(),
            snap_fits(raw as int, self.min_value as int, self.step as int),
        ensures
            r == snap_spec(raw as int, self.min_value as int, self.max_value as int, self.step as int),
            self.min_value <= r <= self.max_value,
    {
        let steps = (raw - self.min_value) / self.step;
        let v = self.min_value + steps * self.step;
        if v < self.min_value {
            self.min_value
        } else if v > self.max_value {
            self.max_value
        } else {
            v
        }
    }

    /// Handles a key press.
    pub fn key_press(&mut self, keysym: u32) -> (step: ScaleStep)
        requires
            old(self).wf(),
            scale_key_ok(*old(self), keysym),
        ensures
            (*final(self), step) == scale_key_spec(*old(self), keysym),
    {
        if keysym == KEY_LEFT {
            let new_value = if self.value - self.step < self.min_value {
                self.min_value
            } else {
                self.value - self.step
            };
            let changed = new_value != self.value;
            self.value = new_value;
            ScaleStep::Continue(changed)
        } else if keysym == KEY_RIGHT {
            let new_value = if self.value + self.step > self.max_value {
                self.max_value
            } else {
                self.value + self.step
            };
            let changed = new_value != self.value;
            self.value = new_value;
            ScaleStep::Continue(changed)
        } else if keysym == KEY_HOME {
            let changed = self.value != self.min_value;
            self.value = self.min_value;
            ScaleStep::Continue(changed)
        } else if keysym == KEY_END {
            let changed = self.value != self.max_value;
            self.value = self.max_value;
            ScaleStep::Continue(changed)
        } else if keysym == KEY_RETURN {
            ScaleStep::Finish(ScaleResult::Value(self.value))
        } else if keysym == KEY_ESCAPE {
            ScaleStep::Finish(ScaleResult::Closed)
        } else {
            ScaleStep::Continue(false)
        }
    }

    /// The left button went down on the thumb: dragging starts.
    pub fn press_thumb(&mut self) -> (redraw: bool)
        ensures
            *final(self) == (ScaleState { dragging: true, ..*old(self) }),
            redraw,
    {
        self.dragging = true;
        true
    }

    /// The left button went down on the track where the raw value is `raw`:
    /// the value jumps there (snapped) and dragging starts.
    pub fn press_track(&mut self, raw: i32) -> (redraw: bool)
        requires
            old(self).wf(),
            snap_fits(raw as int, old(self).min_value as int, old(self).step as int),
        ensures
            final(self).value == snap_spec(
                raw as int,
                old(self).min_value as int,
                old(self).max_value as int,
                old(self).step as int,
            ),
            *final(self) == (ScaleState { value: final(self).value, dragging: true, ..*old(self) }),
            redraw == (final(self).value != old(self).value),
            final(self).wf(),
    {
        let new_value = self.snap(raw);
        let changed = new_value != self.value;
        self.value = new_value;
        self.dragging = true;
        changed
    }

    /// The pointer moved to where the raw value is `raw`: while dragging,
    /// the value follows (snapped).
    pub fn drag_to(&mut self, raw: i32) -> (redraw: bool)
        requires
            old(self).wf(),
            snap_fits(raw as int, old(self).min_value as int, old(self).step as int),
        ensures
            old(self).dragging ==> final(self).value == snap_spec(
                raw as int,
                old(self).min_value as int,
                old(self).max_value as int,
                old(self).step as int,
            ) && redraw == (final(self).value != old(self).value),
            !old(self).dragging ==> final(self).value == old(self).value && !redraw,
            *final(self) == (ScaleState { value: final(self).value, ..*old(self) }),
            final(self).wf(),
    {
        if self.dragging {
            let new_value = self.snap(raw);
            let changed = new_value != self.value;
            self.value = new_value;
            changed
        } else {
            false
        }
    }

    /// The left button went up: dragging stops.
    pub fn release(&mut self) -> (redraw: bool)
        ensures
            *final(self) == (ScaleState { dragging: false, ..*old(self) }),
            redraw == old(self).dragging,
    {
        let was = self.dragging;
        self.dragging = false;
        was
    }
}

/// Every key press and every snap keeps the value within the range.
pub proof fn law_value_stays_in_range(s: ScaleState, keysym: u32, raw: int)
    requires
        s.wf(),
    ensures
        scale_key_spec(s, keysym).0.wf(),
        s.min_value <= snap_spec(raw, s.min_value as int, s.max_value as int, s.step as int)
            <= s.max_value,
{
}

/// A step right undone by a step left gives back the value, when the step
/// right did not hit the maximum.
pub proof fn law_right_then_left(s: ScaleState)
    requires
        s.wf(),
        s.value + s.step <= s.max_value,
    ensures
        scale_key_spec(scale_key_spec(s, KEY_RIGHT).0, KEY_LEFT).0.value == s.value,
{
}

/// A snapped value lies a whole number of steps above the minimum, unless it
/// was clamped to the maximum.
pub proof fn law_snap_lands_on_steps(raw: int, min: int, max: int, step: int)
    requires
        min <= max,
        step >= 1,
        raw >= min,
    ensures
        ({
            let v = snap_spec(raw, min, max, step);
            v == max || (v - min) % step == 0
        }),
{
    let q = tdiv(raw - min, step);
    assert(q >= 0);
    assert(q * step >= 0) by (nonlinear_arith)
        requires
            q >= 0,
            step >= 1,
    ;
    vstd::arithmetic::div_mod::lemma_mod_multiples_basic(q, step);
}

/// Creates a new scale dialog builder.
pub fn scale() -> (r: ScaleBuilder)
    ensures
        r@ == default_scale(),
{
    ScaleBuilder::new()
}


/// What each key does to the slider: Left and Right move the value one step
/// down and up, stopping at the ends of the range; Home goes to the minimum
/// and End to the maximum, each redrawing exactly when the value changed;
/// Enter reports the value and Escape closes the dialog; other keys do
/// nothing.
pub proof fn law_scale_keys(s: ScaleState, keysym: u32)
    requires
        s.wf(),
    ensures
        ({
            let (t, step) = scale_key_spec(s, keysym);
            &&& keysym == KEY_LEFT ==> {
                let v: int = if s.value - s.step >= s.min_value {
                    s.value - s.step
                } else {
                    s.min_value as int
                };
                t == ScaleState { value: v as i32, ..s } && step == ScaleStep::Continue(v
                    != s.value) && s.min_value <= v <= s.value
            }
            &&& keysym == KEY_RIGHT ==> {
                let v: int = if s.value + s.step <= s.max_value {
                    s.value + s.step
                } else {
                    s.max_value as int
                };
                t == ScaleState { value: v as i32, ..s } && step == ScaleStep::Continue(v
                    != s.value) && s.value <= v <= s.max_value
            }
            &&& keysym == KEY_HOME ==> t == ScaleState { value: s.min_value, ..s } && step
                == ScaleStep::Continue(s.value != s.min_value)
            &&& keysym == KEY_END ==> t == ScaleState { value: s.max_value, ..s } && step
                == ScaleStep::Continue(s.value != s.max_value)
            &&& keysym == KEY_RETURN ==> t == s && step == ScaleStep::Finish(ScaleResult::Value(s.value))
            &&& keysym == KEY_ESCAPE ==> t == s && step == ScaleStep::Finish(ScaleResult::Closed)
            &&& !(keysym == KEY_LEFT || keysym == KEY_RIGHT || keysym == KEY_HOME || keysym == KEY_END
                || keysym == KEY_RETURN || keysym == KEY_ESCAPE) ==> t == s && step
                == ScaleStep::Continue(false)
        }),
{
}

} // verus!
