//! Forms dialog with several input fields: fields, result, builder, focus
//! movement and submission.

use vstd::prelude::*;

use crate::calendar::colors_view;
use crate::color::Colors;
use crate::events::{WindowEvent, KEY_ESCAPE, KEY_ISO_LEFT_TAB, KEY_RETURN, KEY_TAB};
use crate::text_input::{event_spec, TextInput, TextInputView};

verus! {

/// Field type for forms.
#[derive(Debug, Clone)]
pub enum FormField {
    /// Text entry field.
    Entry(String),
    /// Password field (hidden text).
    Password(String),
}

pub open spec fn field_label(f: FormField) -> Seq<char> {
    match f {
        FormField::Entry(l) => l@,
        FormField::Password(l) => l@,
    }
}

pub open spec fn field_is_password(f: FormField) -> bool {
    f is Password
}

impl FormField {
    pub fn label(&self) -> (r: &str)
        ensures
            r@ == field_label(*self),
    {
        match self {
            FormField::Entry(label) => label.as_str(),
            FormField::Password(label) => label.as_str(),
        }
    }

    pub fn is_password(&self) -> (r: bool)
        ensures
            r == field_is_password(*self),
    {
        match self {
            FormField::Password(_) => true,
            FormField::Entry(_) => false,
        }
    }
}

/// Forms dialog result.
#[derive(Debug, Clone)]
pub enum FormsResult {
    /// User entered values and clicked OK.
    Values(Vec<String>),
    /// User cancelled the dialog.
    Cancelled,
    /// Dialog was closed.
    Closed,
}

impl FormsResult {
    pub fn exit_code(&self) -> (r: i32)
        ensures
            r == match self {
                FormsResult::Values(_) => 0i32,
                FormsResult::Cancelled => 1i32,
                FormsResult::Closed => 255i32,
            },
    {
        match self {
            FormsResult::Values(_) => 0,
            FormsResult::Cancelled => 1,
            FormsResult::Closed => 255,
        }
    }
}

/// What a forms builder holds.
pub struct FormsConfig {
    pub title: Seq<char>,
    pub text: Seq<char>,
    pub fields: Seq<FormField>,
    pub separator: Seq<char>,
    pub width: Option<u32>,
    pub height: Option<u32>,
    pub colors: Option<Colors>,
}

pub open spec fn default_forms() -> FormsConfig {
    FormsConfig {
        title: Seq::empty(),
        text: Seq::empty(),
        fields: Seq::empty(),
        separator: "|"@,
        width: None,
        height: None,
        colors: None,
    }
}

/// Forms dialog builder.
pub struct FormsBuilder {
    title: String,
    text: String,
    fields: Vec<FormField>,
    separator: String,
    width: Option<u32>,
    height: Option<u32>,
    colors: Option<&'static Colors>,
}

impl View for FormsBuilder {
    type V = FormsConfig;

    closed spec fn view(&self) -> FormsConfig {
        FormsConfig {
            title: self.title@,
            text: self.text@,
            fields: self.fields@,
            separator: self.separator@,
            width: self.width,
            height: self.height,
            colors: colors_view(self.colors),
        }
    }
}

impl FormsBuilder {
    pub fn new() -> (r: Self)
        ensures
            r@ == default_forms(),
    {
        FormsBuilder {
            title: String::new(),
            text: String::new(),
            fields: Vec::new(),
            separator: "|".to_owned(),
            width: None,
            height: None,
            colors: None,
        }
    }

    pub fn title(self, title: &str) -> (r: Self)
        ensures
            r@ == (FormsConfig { title: title@, ..self@ }),
    {
        FormsBuilder { title: title.to_owned(), ..self }
    }

    pub fn text(self, text: &str) -> (r: Self)
        ensures
            r@ == (FormsConfig { text: text@, ..self@ }),
    {
        FormsBuilder { text: text.to_owned(), ..self }
    }

    /// Add a text entry field.
    pub fn add_entry(self, label: &str) -> (r: Self)
        ensures
            r@.fields.len() == self@.fields.len() + 1,
            r@.fields.drop_last() == self@.fields,
            r@.fields.last() matches FormField::Entry(l) && l@ == label@,
            r@ == (FormsConfig { fields: r@.fields, ..self@ }),
    {
        let mut fields = self.fields;
        fields.push(FormField::Entry(label.to_owned()));
        FormsBuilder { fields, ..self }
    }

    /// Add a password field.
    pub fn add_password(self, label: &str) -> (r: Self)
        ensures
            r@.fields.len() == self@.fields.len() + 1,
            r@.fields.drop_last() == self@.fields,
            r@.fields.last() matches FormField::Password(l) && l@ == label@,
            r@ == (FormsConfig { fields: r@.fields, ..self@ }),
    {
        let mut fields = self.fields;
        fields.push(FormField::Password(label.to_owned()));
        FormsBuilder { fields, ..self }
    }

    /// Set the output separator (default: "|").
    pub fn separator(self, sep: &str) -> (r: Self)
        ensures
            r@ == (FormsConfig { separator: sep@, ..self@ }),
    {
        FormsBuilder { separator: sep.to_owned(), ..self }
    }

    pub fn colors(self, colors: &'static Colors) -> (r: Self)
        ensures
            r@ == (FormsConfig { colors: Some(*colors), ..self@ }),
    {
        FormsBuilder { colors: Some(colors), ..self }
    }

    pub fn width(self, width: u32) -> (r: Self)
        ensures
            r@ == (FormsConfig { width: Some(width), ..self@ }),
    {
        FormsBuilder { width: Some(width), ..self }
    }

    pub fn height(self, height: u32) -> (r: Self)
        ensures
            r@ == (FormsConfig { height: Some(height), ..self@ }),
    {
        FormsBuilder { height: Some(height), ..self }
    }

    /// The dialog title; "Forms" when none was set.
    pub fn window_title(&self) -> (r: String)
        ensures
            r@ == (if self@.title.len() == 0 {
                "Forms"@
            } else {
                self@.title
            }),
    {
        if self.title.as_str().is_empty() {
            "Forms".to_owned()
        } else {
            self.title.clone()
        }
    }

    pub fn prompt(&self) -> (r: String)
        ensures
            r@ == self@.text,
    {
        self.text.clone()
    }

    pub fn fields(&self) -> (r: &Vec<FormField>)
        ensures
            r@ == self@.fields,
    {
        &self.fields
    }

    pub fn size(&self) -> (r: (Option<u32>, Option<u32>))
        ensures
            r == (self@.width, self@.height),
    {
        (self.width, self.height)
    }

    pub fn theme(&self) -> (r: Option<&'static Colors>)
        ensures
            colors_view(r) == self@.colors,
    {
        self.colors
    }

    /// A dialog with no fields reports no values at once, without opening
    /// a window; with fields, `None` (the dialog opens).
    pub fn result_without_fields(&self) -> (r: Option<FormsResult>)
        ensures
            self@.fields.len() == 0 ==> (r matches Some(FormsResult::Values(v)) && v@.len() == 0),
            self@.fields.len() > 0 ==> r.is_none(),
    {
        if self.fields.len() == 0 {
            Some(FormsResult::Values(Vec::new()))
        } else {
            None
        }
    }

    /// The dialog as it opens: one empty input per field, masked for password
    /// fields, the first one focused. `None` when there are no fields, in
    /// which case the dialog reports no values without opening.
    pub fn initial_state(&self, input_width: u32) -> (s: Option<FormsState>)
        ensures
            match s {
                None => self@.fields.len() == 0,
                Some(s) => {
                    &&& s.wf()
                    &&& s.focused == 0
                    &&& s.inputs@.len() == self@.fields.len()
                    &&& forall|i: int|
                        0 <= i < s.inputs@.len() ==> #[trigger] s.inputs@[i]@ == (TextInputView {
                            x: 0,
                            y: 0,
                            width: input_width,
                            height: crate::text_input::INPUT_HEIGHT,
                            text: Seq::empty(),
                            cursor: 0,
                            focused: i == 0,
                            password: field_is_password(self@.fields[i]),
                            placeholder: Seq::empty(),
                            submitted: false,
                        })
                },
            },
    {
        if self.fields.len() == 0 {
            return None;
        }
        let mut inputs: Vec<TextInput> = Vec::new();
        let mut i: usize = 0;
        while i < self.fields.len()
            invariant
                i <= self.fields.len(),
                inputs@.len() == i,
                forall|k: int|
                    0 <= k < i ==> #[trigger] inputs@[k]@ == (TextInputView {
                        x: 0,
                        y: 0,
                        width: input_width,
                        height: crate::text_input::INPUT_HEIGHT,
                        text: Seq::empty(),
                        cursor: 0,
                        focused: k == 0,
                        password: field_is_password(self@.fields[k]),
                        placeholder: Seq::empty(),
                        submitted: false,
                    }),
            decreases self.fields.len() - i,
        {
            let mut input = TextInput::new(input_width).with_password(self.fields[i].is_password());
            if i == 0 {
                input.set_focus(true);
            }
            inputs.push(input);
            i += 1;
        }
        Some(FormsState { inputs, focused: 0 })
    }
}

impl Default for FormsBuilder {
    fn default() -> Self {
        Self::new()
    }
}

/// What the forms dialog does after an event.
#[derive(Debug, Clone)]
pub enum FormsStep {
    /// Keep going; redraw when the flag is set.
    Continue(bool),
    /// Close the dialog with this result.
    Finish(FormsResult),
}

/// The state of an open forms dialog.
pub struct FormsState {
    pub inputs: Vec<TextInput>,
    pub focused: usize,
}

/// The texts of the inputs, in field order.
pub open spec fn input_texts(inputs: Seq<TextInput>) -> Seq<Seq<char>> {
    inputs.map_values(|i: TextInput| i@.text)
}

/// The string views of a list of strings.
pub open spec fn string_views(v: Seq<String>) -> Seq<Seq<char>> {
    v.map_values(|s: String| s@)
}

/// The event is a press of the key `k`.
pub open spec fn is_key(e: WindowEvent, k: u32) -> bool {
    e matches WindowEvent::KeyPress(ke) && ke.keysym == k
}

/// The event reaches the focused input: it neither closes nor submits the
/// dialog by itself.
pub open spec fn passes_to_input(e: WindowEvent) -> bool {
    e != WindowEvent::CloseRequested && !is_key(e, KEY_RETURN) && !is_key(e, KEY_ESCAPE)
}

/// The focused input `f` received the event (with its focus already moved by
/// Tab or Shift+Tab), every other input is as it was but without focus, and
/// the dialog submits every field's text when the input saw Enter.
pub open spec fn input_step_ok(
    before: Seq<TextInput>,
    after: Seq<TextInput>,
    f: int,
    e: WindowEvent,
    step: FormsStep,
) -> bool {
    let start = if is_key(e, KEY_TAB) || is_key(e, KEY_ISO_LEFT_TAB) {
        TextInputView { focused: true, ..before[f]@ }
    } else {
        before[f]@
    };
    let (v, changed) = event_spec(start, e);
    &&& after[f]@ == TextInputView { submitted: false, ..v }
    &&& after.len() == before.len()
    &&& forall|i: int|
        0 <= i < before.len() && i != f ==> #[trigger] after[i]@ == with_focus(before[i]@, false)
    &&& if v.submitted {
        step matches FormsStep::Finish(FormsResult::Values(vals)) && string_views(vals@)
            == input_texts(after)
    } else {
        step matches FormsStep::Continue(_)
    }
}

/// The field after `i`, wrapping around to the first.
pub open spec fn next_field(i: int, n: int) -> int {
    (i + 1) % n
}

/// The field before `i`, wrapping around to the last.
pub open spec fn prev_field(i: int, n: int) -> int {
    if i == 0 {
        n - 1
    } else {
        i - 1
    }
}

/// The input with its focus set to `f`.
pub open spec fn with_focus(v: TextInputView, f: bool) -> TextInputView {
    TextInputView { focused: f, ..v }
}

proof fn lemma_focus_entry(s0: Seq<TextInput>, av: TextInput, bv: TextInput, from: int, to: int, i: int)
    requires
        0 <= from < s0.len(),
        0 <= to < s0.len(),
        0 <= i < s0.len(),
        av@ == (TextInputView { focused: false, ..s0[from]@ }),
        bv@ == (TextInputView { focused: true, ..s0.update(from, av)[to]@ }),
        forall|k: int| #![trigger s0[k]] 0 <= k < s0.len() && k != from ==> !s0[k]@.focused,
    ensures
        s0.update(from, av).update(to, bv)[i]@ == with_focus(s0[i]@, i == to),
{
    let t = s0.update(from, av).update(to, bv);
    if i == to {
        assert(t[i] == bv);
        if to == from {
            assert(s0.update(from, av)[to] == av);
        } else {
            assert(s0.update(from, av)[to] == s0[to]);
        }
    } else if i == from {
        assert(t[i] == av);
    } else {
        assert(t[i] == s0[i]);
    }
}

impl FormsState {
    /// There is a field, the focus is on one of them, exactly that input has
    /// focus, and every cursor lies within its text.
    pub open spec fn wf(&self) -> bool {
        &&& self.inputs@.len() > 0
        &&& self.focused < self.inputs@.len()
        &&& forall|i: int|
            #![trigger self.inputs@[i]]
            0 <= i < self.inputs@.len() ==> self.inputs@[i]@.wf() && (self.inputs@[i]@.focused
                <==> i == self.focused)
    }

    /// The texts of all inputs.
    pub fn values(&self) -> (r: Vec<String>)
        ensures
            string_views(r@) == input_texts(self.inputs@),
    {
        let mut r: Vec<String> = Vec::new();
        let mut i: usize = 0;
        while i < self.inputs.len()
            invariant
                i <= self.inputs@.len(),
                string_views(r@) == input_texts(self.inputs@).take(i as int),
            decreases self.inputs.len() - i,
        {
            let t = self.inputs[i].text();
            let ghost r0 = r@;
            r.push(t);
            assert(string_views(r0).len() == i);
            assert(r0.len() == i);
            assert(r@ == r0.push(t));
            assert forall|k: int| 0 <= k < i + 1 implies #[trigger] string_views(r@)[k]
                == input_texts(self.inputs@).take(i + 1)[k] by {
                if k < i {
                    assert(r@[k] == r0[k]);
                    assert(string_views(r0)[k] == input_texts(self.inputs@).take(i as int)[k]);
                }
            }
            assert(string_views(r@) =~= input_texts(self.inputs@).take(i + 1));
            i += 1;
        }
        assert(input_texts(self.inputs@).take(self.inputs@.len() as int) =~= input_texts(
            self.inputs@,
        ));
        r
    }

    /// Moves the focus to field `to`.
    fn move_focus(&mut self, to: usize)
        requires
            old(self).wf(),
            to < old(self).inputs@.len(),
        ensures
            final(self).wf(),
            final(self).focused == to,
            final(self).inputs@.len() == old(self).inputs@.len(),
            forall|i: int|
                0 <= i < old(self).inputs@.len() ==> #[trigger] final(self).inputs@[i]@ == (
                with_focus(old(self).inputs@[i]@, i == to)),
    {
        let from = self.focused;
        let ghost s0 = self.inputs@;
        let mut a = self.inputs.remove(from);
        a.set_focus(false);
        let ghost av = a;
        self.inputs.insert(from, a);
        assert(self.inputs@ =~= s0.update(from as int, av));
        let ghost s1 = self.inputs@;
        let mut b = self.inputs.remove(to);
        b.set_focus(true);
        let ghost bv = b;
        self.inputs.insert(to, b);
        assert(self.inputs@ =~= s1.update(to as int, bv));
        self.focused = to;
        proof {
            assert(self.inputs@ =~= s0.update(from as int, av).update(to as int, bv));
            assert forall|i: int| 0 <= i < old(self).inputs@.len() implies #[trigger] self.inputs@[i]@
                == (with_focus(old(self).inputs@[i]@, i == to)) by {
                lemma_focus_entry(s0, av, bv, from as int, to as int, i);
            }
            assert forall|i: int| 0 <= i < self.inputs@.len() implies #[trigger] self.inputs@[i]@.wf()
                && (self.inputs@[i]@.focused <==> i == self.focused) by {
                lemma_focus_entry(s0, av, bv, from as int, to as int, i);
            }
        }
    }

    /// A left click on field `index` moves the focus there; returns whether
    /// the focus moved.
    pub fn click_field(&mut self, index: usize) -> (redraw: bool)
        requires
            old(self).wf(),
            index < old(self).inputs@.len(),
        ensures
            final(self).wf(),
            final(self).focused == index,
            redraw == (index != old(self).focused),
            forall|i: int|
                0 <= i < old(self).inputs@.len() ==> #[trigger] final(self).inputs@[i]@ == with_focus(
                    old(self).inputs@[i]@,
                    i == index,
                ),
            final(self).inputs@.len() == old(self).inputs@.len(),
    {
        if index != self.focused {
            self.move_focus(index);
            true
        } else {
            assert forall|i: int| 0 <= i < old(self).inputs@.len() implies #[trigger] self.inputs@[i]@
                == with_focus(old(self).inputs@[i]@, i == index) by {
                assert(old(self).inputs@[i]@.focused == (i == index));
            }
            false
        }
    }

    /// Reacts to a window event. Tab and Shift+Tab move the focus forward and
    /// back (wrapping around), Enter submits every field's text, Escape
    /// and closing the window close the dialog; the focused input then
    /// receives the event, and Enter in it submits the fields.
    pub fn handle_event(&mut self, event: &WindowEvent) -> (step: FormsStep)
        requires
            old(self).wf(),
        ensures
            final(self).wf(),
            final(self).inputs@.len() == old(self).inputs@.len(),
            *event == WindowEvent::CloseRequested ==> step matches FormsStep::Finish(
                FormsResult::Closed,
            ),
            is_key(*event, KEY_RETURN) ==> (step matches FormsStep::Finish(FormsResult::Values(v))
                && string_views(v@) == input_texts(old(self).inputs@)),
            is_key(*event, KEY_ESCAPE) ==> step matches FormsStep::Finish(FormsResult::Closed),
            is_key(*event, KEY_TAB) ==> final(self).focused == next_field(
                old(self).focused as int,
                old(self).inputs@.len() as int,
            ),
            is_key(*event, KEY_ISO_LEFT_TAB) ==> final(self).focused == prev_field(
                old(self).focused as int,
                old(self).inputs@.len() as int,
            ),
            !is_key(*event, KEY_TAB) && !is_key(*event, KEY_ISO_LEFT_TAB) ==> final(self).focused
                == old(self).focused,
            !passes_to_input(*event) ==> *final(self) == *old(self),
            passes_to_input(*event) ==> input_step_ok(
                old(self).inputs@,
                final(self).inputs@,
                final(self).focused as int,
                *event,
                step,
            ),
    {
        let mut redraw = false;
        match event {
            WindowEvent::CloseRequested => {
                return FormsStep::Finish(FormsResult::Closed);
            },
            WindowEvent::KeyPress(key_event) => {
                if key_event.keysym == KEY_TAB {
                    let n = self.inputs.len();
                    let to = (self.focused + 1) % n;
                    self.move_focus(to);
                    redraw = true;
                } else if key_event.keysym == KEY_ISO_LEFT_TAB {
                    let to = if self.focused == 0 {
                        self.inputs.len() - 1
                    } else {
                        self.focused - 1
                    };
                    self.move_focus(to);
                    redraw = true;
                } else if key_event.keysym == KEY_RETURN {
                    return FormsStep::Finish(FormsResult::Values(self.values()));
                } else if key_event.keysym == KEY_ESCAPE {
                    return FormsStep::Finish(FormsResult::Closed);
                }
            },
            _ => {},
        }
        let f = self.focused;
        let ghost mid = self.inputs@;
        let mut input = self.inputs.remove(f);
        let changed = input.process_event(event);
        let submitted = input.was_submitted();
        let ghost iv = input;
        proof {
            crate::text_input::lemma_event_keeps_layout(mid[f as int]@, *event);
            crate::text_input::law_operations_keep_cursor_in_text(mid[f as int]@, 'a', *event);
        }
        self.inputs.insert(f, input);
        assert(self.inputs@ =~= mid.update(f as int, iv));
        assert forall|i: int| 0 <= i < self.inputs@.len() implies #[trigger] self.inputs@[i]@.wf() && (
        self.inputs@[i]@.focused <==> i == self.focused) by {
            if i != f {
                assert(self.inputs@[i] == mid[i]);
            }
        }
        if submitted {
            return FormsStep::Finish(FormsResult::Values(self.values()));
        }
        FormsStep::Continue(redraw || changed)
    }

    /// The OK button was clicked: the dialog ends with every field's text.
    pub fn ok_clicked(&self) -> (step: FormsStep)
        ensures
            step matches FormsStep::Finish(FormsResult::Values(v)) && string_views(v@) == input_texts(
                self.inputs@,
            ),
    {
        FormsStep::Finish(FormsResult::Values(self.values()))
    }

    /// The Cancel button was clicked.
    pub fn cancel_clicked(&self) -> (step: FormsStep)
        ensures
            step matches FormsStep::Finish(FormsResult::Cancelled),
    {
        FormsStep::Finish(FormsResult::Cancelled)
    }
}

/// Tab followed by Shift+Tab, or Shift+Tab followed by Tab, puts the focus
/// back on the field it started on.
pub proof fn law_tab_and_shift_tab_cancel(i: int, n: int)
    requires
        0 <= i < n,
    ensures
        prev_field(next_field(i, n), n) == i,
        next_field(prev_field(i, n), n) == i,
        0 <= next_field(i, n) < n,
        0 <= prev_field(i, n) < n,
{
    if i + 1 < n {
        vstd::arithmetic::div_mod::lemma_small_mod((i + 1) as nat, n as nat);
    } else {
        vstd::arithmetic::div_mod::lemma_mod_self_0(n);
    }
    if i == 0 {
        vstd::arithmetic::div_mod::lemma_mod_self_0(n);
    } else {
        vstd::arithmetic::div_mod::lemma_small_mod(i as nat, n as nat);
    }
}

/// Creates a new forms dialog builder.
pub fn forms() -> (r: FormsBuilder)
    ensures
        r@ == default_forms(),
{
    FormsBuilder::new()
}


/// Tab moves the focus forward to the next field, from the last field back
/// to the first; Shift+Tab moves it back to the previous field, from the
/// first field to the last. With more than one field the focus always moves.
pub proof fn law_tab_moves_forward(i: int, n: int)
    requires
        0 <= i < n,
    ensures
        i + 1 < n ==> next_field(i, n) == i + 1,
        i + 1 == n ==> next_field(i, n) == 0,
        i > 0 ==> prev_field(i, n) == i - 1,
        i == 0 ==> prev_field(i, n) == n - 1,
        n > 1 ==> next_field(i, n) != i && prev_field(i, n) != i,
{
    if i + 1 < n {
        vstd::arithmetic::div_mod::lemma_small_mod((i + 1) as nat, n as nat);
    } else {
        vstd::arithmetic::div_mod::lemma_mod_self_0(n);
    }
}

} // verus!
