//! List selection dialog: rows and columns, the three selection modes, the
//! rows and columns it shows, and its selection, scrolling and result.

use vstd::prelude::*;

use crate::calendar::colors_view;
use crate::color::Colors;
use crate::events::{
    KEY_DOWN, KEY_ESCAPE, KEY_LEFT, KEY_LSHIFT, KEY_RETURN, KEY_RIGHT, KEY_RSHIFT, KEY_SPACE, KEY_UP,
    ScrollDirection,
};
use crate::strutil::{chars_of, eq_ascii_nocase, eq_ignore_ascii_case};

verus! {

/// List dialog result.
#[derive(Debug, Clone)]
pub enum ListResult {
    /// User selected item(s). Contains the values from the first column.
    Selected(Vec<String>),
    /// User cancelled.
    Cancelled,
    /// Dialog was closed.
    Closed,
}

impl ListResult {
    pub fn exit_code(&self) -> (r: i32)
        ensures
            r == match self {
                ListResult::Selected(_) => 0i32,
                ListResult::Cancelled => 1i32,
                ListResult::Closed => 255i32,
            },
    {
        match self {
            ListResult::Selected(_) => 0,
            ListResult::Cancelled => 1,
            ListResult::Closed => 255,
        }
    }
}

/// List selection mode.
#[derive(Debug, Clone, Copy, PartialEq, Eq, Structural)]
pub enum ListMode {
    /// Single selection (default).
    Single,
    /// Multiple selection with checkboxes.
    Checklist,
    /// Multiple selection with radio buttons (single select visually).
    Radiolist,
}

/// The characters of a row's cells.
pub open spec fn row_view(r: Vec<String>) -> Seq<Seq<char>> {
    r@.map_values(|s: String| s@)
}

/// The characters of every row's cells.
pub open spec fn rows_view(rows: Seq<Vec<String>>) -> Seq<Seq<Seq<char>>> {
    rows.map_values(|r: Vec<String>| row_view(r))
}

/// What a list builder holds.
pub struct ListConfig {
    pub title: Seq<char>,
    pub text: Seq<char>,
    pub columns: Seq<Seq<char>>,
    pub rows: Seq<Seq<Seq<char>>>,
    pub mode: ListMode,
    /// Hidden columns, counted from 0.
    pub hidden_columns: Seq<usize>,
    pub width: Option<u32>,
    pub height: Option<u32>,
    pub colors: Option<Colors>,
}

pub open spec fn default_list() -> ListConfig {
    ListConfig {
        title: Seq::empty(),
        text: Seq::empty(),
        columns: Seq::empty(),
        rows: Seq::empty(),
        mode: ListMode::Single,
        hidden_columns: Seq::empty(),
        width: None,
        height: None,
        colors: None,
    }
}

/// List dialog builder.
pub struct ListBuilder {
    title: String,
    text: String,
    columns: Vec<String>,
    rows: Vec<Vec<String>>,
    mode: ListMode,
    hidden_columns: Vec<usize>,
    width: Option<u32>,
    height: Option<u32>,
    colors: Option<&'static Colors>,
}

impl View for ListBuilder {
    type V = ListConfig;

    closed spec fn view(&self) -> ListConfig {
        ListConfig {
            title: self.title@,
            text: self.text@,
            columns: row_view(self.columns),
            rows: rows_view(self.rows@),
            mode: self.mode,
            hidden_columns: self.hidden_columns@,
            width: self.width,
            height: self.height,
            colors: colors_view(self.colors),
        }
    }
}

proof fn lemma_row_view_push(s: Seq<String>, x: String)
    ensures
        s.push(x).map_values(|t: String| t@) == s.map_values(|t: String| t@).push(x@),
{
    assert(s.push(x).map_values(|t: String| t@) =~= s.map_values(|t: String| t@).push(x@));
}

/// A copy of a row.
pub fn clone_row(r: &Vec<String>) -> (c: Vec<String>)
    ensures
        row_view(c) == row_view(*r),
{
    let mut c: Vec<String> = Vec::new();
    let mut i: usize = 0;
    while i < r.len()
        invariant
            i <= r.len(),
            row_view(c) == row_view(*r).take(i as int),
        decreases r.len() - i,
    {
        let s = r[i].clone();
        let ghost c0 = c@;
        c.push(s);
        assert(c@ == c0.push(s));
        proof {
            lemma_row_view_push(c0, s);
        }
        assert(row_view(c) =~= row_view(*r).take(i + 1));
        i += 1;
    }
    assert(row_view(*r).take(r.len() as int) =~= row_view(*r));
    c
}

impl ListBuilder {
    pub fn new() -> (r: Self)
        ensures
            r@ == default_list(),
    {
        let r = ListBuilder {
            title: String::new(),
            text: String::new(),
            columns: Vec::new(),
            rows: Vec::new(),
            mode: ListMode::Single,
            hidden_columns: Vec::new(),
            width: None,
            height: None,
            colors: None,
        };
        assert(r@.columns =~= Seq::empty());
        assert(r@.rows =~= Seq::empty());
        r
    }

    pub fn title(self, title: &str) -> (r: Self)
        ensures
            r@ == (ListConfig { title: title@, ..self@ }),
    {
        ListBuilder { title: title.to_owned(), ..self }
    }

    pub fn text(self, text: &str) -> (r: Self)
        ensures
            r@ == (ListConfig { text: text@, ..self@ }),
    {
        ListBuilder { text: text.to_owned(), ..self }
    }

    /// Add a column header.
    pub fn column(self, name: &str) -> (r: Self)
        ensures
            r@ == (ListConfig { columns: self@.columns.push(name@), ..self@ }),
    {
        let mut columns = self.columns;
        let ghost c0 = columns@;
        let n = name.to_owned();
        columns.push(n);
        assert(columns@ == c0.push(n));
        proof {
            lemma_row_view_push(c0, n);
        }
        let r = ListBuilder { columns, ..self };
        assert(r@.columns =~= self@.columns.push(name@));
        r
    }

    /// Add a row of data.
    pub fn row(self, values: Vec<String>) -> (r: Self)
        ensures
            r@ == (ListConfig { rows: self@.rows.push(row_view(values)), ..self@ }),
    {
        let mut rows = self.rows;
        let ghost r0 = rows@;
        rows.push(values);
        assert(rows@ == r0.push(values));
        let r = ListBuilder { rows, ..self };
        assert(r@.rows =~= self@.rows.push(row_view(values)));
        r
    }

    /// Set selection mode.
    pub fn mode(self, mode: ListMode) -> (r: Self)
        ensures
            r@ == (ListConfig { mode, ..self@ }),
    {
        ListBuilder { mode, ..self }
    }

    /// Enable checklist mode (multi-select with checkboxes).
    pub fn checklist(self) -> (r: Self)
        ensures
            r@ == (ListConfig { mode: ListMode::Checklist, ..self@ }),
    {
        ListBuilder { mode: ListMode::Checklist, ..self }
    }

    /// Enable radiolist mode (single-select with radio buttons).
    pub fn radiolist(self) -> (r: Self)
        ensures
            r@ == (ListConfig { mode: ListMode::Radiolist, ..self@ }),
    {
        ListBuilder { mode: ListMode::Radiolist, ..self }
    }

    pub fn colors(self, colors: &'static Colors) -> (r: Self)
        ensures
            r@ == (ListConfig { colors: Some(*colors), ..self@ }),
    {
        ListBuilder { colors: Some(colors), ..self }
    }

    pub fn width(self, width: u32) -> (r: Self)
        ensures
            r@ == (ListConfig { width: Some(width), ..self@ }),
    {
        ListBuilder { width: Some(width), ..self }
    }

    pub fn height(self, height: u32) -> (r: Self)
        ensures
            r@ == (ListConfig { height: Some(height), ..self@ }),
    {
        ListBuilder { height: Some(height), ..self }
    }

    /// Hide a column by index (1-based, like zenity); 0 hides nothing.
    /// Hidden columns are not displayed but their values are still included
    /// in output.
    pub fn hide_column(self, col: usize) -> (r: Self)
        ensures
            r@ == (ListConfig {
                hidden_columns: if col > 0 {
                    self@.hidden_columns.push((col - 1) as usize)
                } else {
                    self@.hidden_columns
                },
                ..self@
            }),
    {
        let mut hidden = self.hidden_columns;
        if col > 0 {
            hidden.push(col - 1);
        }
        ListBuilder { hidden_columns: hidden, ..self }
    }

    /// The dialog title; "Select" when none was set.
    pub fn window_title(&self) -> (r: String)
        ensures
            r@ == (if self@.title.len() == 0 {
                "Select"@
            } else {
                self@.title
            }),
    {
        if self.title.as_str().is_empty() {
            "Select".to_owned()
        } else {
            self.title.clone()
        }
    }

    pub fn prompt(&self) -> (r: String)
        ensures
            r@ == self@.text,
    {
        self.text.clone()
    }

    pub fn get_mode(&self) -> (r: ListMode)
        ensures
            r == self@.mode,
    {
        self.mode
    }

    pub fn size(&self) -> (r: (Option<u32>, Option<u32>))
        ensures
            r == (self@.width, self@.height),
    {
        (self.width, self.height)
    }

    pub fn theme(&self) -> (r: Option<&'static Colors>)
        ensures
            colors_view(r) == self@.colors,
    {
        self.colors
    }

    /// The rows as the dialog holds them, with their initial selection (see
    /// `prepare_rows`).
    pub fn prepared_rows(&self) -> (r: (Vec<Vec<String>>, Vec<bool>))
        ensures
            (rows_view(r.0@), r.1@) == prepare_spec(self@.rows, self@.mode),
    {
        prepare_rows(&self.rows, self.mode)
    }

    /// The column headers that are shown, with the row cells each shows
    /// (see `visible_columns`).
    pub fn shown_columns(&self) -> (r: Vec<usize>)
        ensures
            r@ == visible_spec(
                data_columns(self@.columns, self@.mode).len() as int,
                adjusted_hidden(self@.hidden_columns, self@.mode),
            ),
    {
        let n = if self.mode != ListMode::Single && self.columns.len() > 0 {
            self.columns.len() - 1
        } else {
            self.columns.len()
        };
        let hidden = adjust_hidden(&self.hidden_columns, self.mode);
        visible_columns(n, &hidden)
    }

    /// The column headers of the data columns (the first, TRUE/FALSE, column
    /// header dropped in checklist and radiolist mode).
    pub fn data_headers(&self) -> (r: Vec<String>)
        ensures
            row_view(r) == data_columns(self@.columns, self@.mode),
    {
        if self.mode != ListMode::Single && self.columns.len() > 0 {
            let mut r: Vec<String> = Vec::new();
            let mut i: usize = 1;
            while i < self.columns.len()
                invariant
                    1 <= i <= self.columns.len(),
                    row_view(r) == row_view(self.columns).subrange(1, i as int),
                decreases self.columns.len() - i,
            {
                let s = self.columns[i].clone();
                let ghost r0 = r@;
                r.push(s);
                assert(r@ == r0.push(s));
                proof {
                    lemma_row_view_push(r0, s);
                }
                assert(row_view(r) =~= row_view(self.columns).subrange(1, i + 1));
                i += 1;
            }
            assert(row_view(self.columns).subrange(1, self.columns.len() as int) =~= row_view(
                self.columns,
            ).drop_first());
            r
        } else {
            clone_row(&self.columns)
        }
    }
}

proof fn lemma_checked_rows_len(rows: Seq<Seq<Seq<char>>>)
    ensures
        checked_rows(rows).0.len() == checked_rows(rows).1.len(),
        checked_rows(rows).0.len() <= rows.len(),
    decreases rows.len(),
{
    if rows.len() > 0 {
        lemma_checked_rows_len(rows.drop_last());
    }
}

impl ListBuilder {
    /// The dialog as it opens: the prepared rows and their initial
    /// selection, nothing selected in single mode, hovered or scrolled.
    /// Of the `visible_rows` lines of the list, one shows the column
    /// headers when any column is shown.
    pub fn initial_state(&self, visible_rows: usize, content_width: u32, list_width: u32) -> (s:
        ListState)
        requires
            self@.rows.len() + visible_rows + 2 <= usize::MAX,
        ensures
            s.wf(),
            (rows_view(s.rows@), s.selected@) == prepare_spec(self@.rows, self@.mode),
            s.mode == self@.mode,
            s.single_selected.is_none(),
            s.hovered_row.is_none(),
            s.scroll_offset == 0,
            s.h_scroll_offset == 0,
            !s.h_scroll_mode,
            s.data_visible == (if visible_spec(
                data_columns(self@.columns, self@.mode).len() as int,
                adjusted_hidden(self@.hidden_columns, self@.mode),
            ).len() == 0 {
                visible_rows as int
            } else if visible_rows > 0 {
                visible_rows - 1
            } else {
                0
            }),
            s.content_width == content_width,
            s.list_width == list_width,
    {
        let (rows, selected) = self.prepared_rows();
        proof {
            lemma_checked_rows_len(self@.rows);
            assert(rows@.len() == rows_view(rows@).len());
            assert(self@.rows.len() == self.rows@.len());
        }
        let shown = self.shown_columns();
        let data_visible = if shown.len() == 0 {
            visible_rows
        } else if visible_rows > 0 {
            visible_rows - 1
        } else {
            0
        };
        ListState {
            mode: self.mode,
            rows,
            selected,
            single_selected: None,
            scroll_offset: 0,
            h_scroll_offset: 0,
            hovered_row: None,
            h_scroll_mode: false,
            data_visible,
            content_width,
            list_width,
        }
    }
}

impl Default for ListBuilder {
    fn default() -> Self {
        Self::new()
    }
}

/// Rows of a checklist or radiolist: the first cell says whether the row
/// starts selected ("true" in any ASCII case), the rest is the row; empty
/// rows are dropped.
pub open spec fn checked_rows(rows: Seq<Seq<Seq<char>>>) -> (Seq<Seq<Seq<char>>>, Seq<bool>)
    decreases rows.len(),
{
    if rows.len() == 0 {
        (Seq::empty(), Seq::empty())
    } else {
        let (r, s) = checked_rows(rows.drop_last());
        let last = rows.last();
        if last.len() == 0 {
            (r, s)
        } else {
            (r.push(last.drop_first()), s.push(eq_ascii_nocase(last[0], "true"@)))
        }
    }
}

/// The rows the dialog holds and which are selected at first.
pub open spec fn prepare_spec(rows: Seq<Seq<Seq<char>>>, mode: ListMode) -> (
    Seq<Seq<Seq<char>>>,
    Seq<bool>,
) {
    if mode == ListMode::Single {
        (rows, Seq::new(rows.len(), |_i: int| false))
    } else {
        checked_rows(rows)
    }
}

/// The rows as the dialog holds them: in checklist and radiolist mode the
/// first cell of each row is taken as its initial selection and removed,
/// and empty rows are dropped; in single mode the rows stay and none is
/// selected.
pub fn prepare_rows(rows: &Vec<Vec<String>>, mode: ListMode) -> (r: (Vec<Vec<String>>, Vec<bool>))
    ensures
        (rows_view(r.0@), r.1@) == prepare_spec(rows_view(rows@), mode),
{
    let mut out: Vec<Vec<String>> = Vec::new();
    let mut sel: Vec<bool> = Vec::new();
    let true_text = chars_of("true");
    let mut i: usize = 0;
    while i < rows.len()
        invariant
            i <= rows.len(),
            true_text@ == "true"@,
            (rows_view(out@), sel@) == (if mode == ListMode::Single {
                (rows_view(rows@).take(i as int), Seq::new(i as nat, |_i: int| false))
            } else {
                checked_rows(rows_view(rows@).take(i as int))
            }),
        decreases rows.len() - i,
    {
        let ghost prev = rows_view(rows@).take(i as int);
        let ghost next = rows_view(rows@).take(i + 1);
        assert(next.drop_last() =~= prev);
        assert(next.last() == row_view(rows@[i as int]));
        let row = &rows[i];
        if mode == ListMode::Single {
            let c = clone_row(row);
            let ghost o0 = out@;
            out.push(c);
            sel.push(false);
            assert(out@ == o0.push(c));
            assert(rows_view(out@) =~= next);
            assert(sel@ =~= Seq::new((i + 1) as nat, |_i: int| false));
        } else if row.len() > 0 {
            let first = chars_of(row[0].as_str());
            let is_selected = eq_ignore_ascii_case(first.as_slice(), true_text.as_slice());
            let mut rest: Vec<String> = Vec::new();
            let mut j: usize = 1;
            while j < row.len()
                invariant
                    1 <= j <= row.len(),
                    row_view(rest) == row_view(*row).subrange(1, j as int),
                decreases row.len() - j,
            {
                let s = row[j].clone();
                let ghost r0 = rest@;
                rest.push(s);
                assert(rest@ == r0.push(s));
                proof {
                    lemma_row_view_push(r0, s);
                }
                assert(row_view(rest) =~= row_view(*row).subrange(1, j + 1));
                j += 1;
            }
            assert(row_view(*row).subrange(1, row.len() as int) =~= row_view(*row).drop_first());
            let ghost o0 = out@;
            out.push(rest);
            sel.push(is_selected);
            assert(out@ == o0.push(rest));
            assert(rows_view(out@) =~= checked_rows(prev).0.push(row_view(*row).drop_first()));
        }
        i += 1;
    }
    assert(rows_view(rows@).take(rows.len() as int) =~= rows_view(rows@));
    (out, sel)
}

/// The data column headers: in checklist and radiolist mode the first
/// header (of the TRUE/FALSE column) is dropped.
pub open spec fn data_columns(columns: Seq<Seq<char>>, mode: ListMode) -> Seq<Seq<char>> {
    if mode != ListMode::Single && columns.len() > 0 {
        columns.drop_first()
    } else {
        columns
    }
}

/// Hidden column numbers counted among the data columns: in checklist and
/// radiolist mode each is one less (the TRUE/FALSE column is gone) and a
/// hidden first column disappears.
pub open spec fn adjusted_hidden(hidden: Seq<usize>, mode: ListMode) -> Seq<usize>
    decreases hidden.len(),
{
    if mode == ListMode::Single {
        hidden
    } else if hidden.len() == 0 {
        Seq::empty()
    } else {
        let rest = adjusted_hidden(hidden.drop_last(), mode);
        if hidden.last() >= 1 {
            rest.push((hidden.last() - 1) as usize)
        } else {
            rest
        }
    }
}

/// Hidden columns counted among the data columns.
pub fn adjust_hidden(hidden: &Vec<usize>, mode: ListMode) -> (r: Vec<usize>)
    ensures
        r@ == adjusted_hidden(hidden@, mode),
{
    let mut r: Vec<usize> = Vec::new();
    let mut i: usize = 0;
    while i < hidden.len()
        invariant
            i <= hidden.len(),
            r@ == adjusted_hidden(hidden@.take(i as int), mode),
        decreases hidden.len() - i,
    {
        assert(hidden@.take(i + 1).drop_last() =~= hidden@.take(i as int));
        if mode == ListMode::Single {
            r.push(hidden[i]);
            assert(r@ =~= hidden@.take(i + 1));
        } else if hidden[i] >= 1 {
            r.push(hidden[i] - 1);
        }
        i += 1;
    }
    assert(hidden@.take(hidden.len() as int) =~= hidden@);
    r
}

/// The indices, in order, of the first `n` columns that are not hidden.
pub open spec fn visible_spec(n: int, hidden: Seq<usize>) -> Seq<usize>
    decreases n,
{
    if n <= 0 {
        Seq::empty()
    } else if hidden.contains((n - 1) as usize) {
        visible_spec(n - 1, hidden)
    } else {
        visible_spec(n - 1, hidden).push((n - 1) as usize)
    }
}

fn contains_usize(v: &Vec<usize>, x: usize) -> (r: bool)
    ensures
        r == v@.contains(x),
{
    let mut i: usize = 0;
    while i < v.len()
        invariant
            i <= v.len(),
            forall|k: int| 0 <= k < i ==> v@[k] != x,
        decreases v.len() - i,
    {
        if v[i] == x {
            assert(v@[i as int] == x);
            return true;
        }
        i += 1;
    }
    false
}

/// The columns that are shown: those of the first `n` that are not hidden.
pub fn visible_columns(n: usize, hidden: &Vec<usize>) -> (r: Vec<usize>)
    ensures
        r@ == visible_spec(n as int, hidden@),
{
    let mut r: Vec<usize> = Vec::new();
    let mut i: usize = 0;
    while i < n
        invariant
            i <= n,
            r@ == visible_spec(i as int, hidden@),
        decreases n - i,
    {
        if !contains_usize(hidden, i) {
            r.push(i);
        }
        i += 1;
    }
    r
}

/// The cells of a row in the shown columns (a row shorter than a shown
/// column has no cell there).
pub open spec fn display_row_spec(row: Seq<Seq<char>>, cols: Seq<usize>) -> Seq<Seq<char>>
    decreases cols.len(),
{
    if cols.len() == 0 {
        Seq::empty()
    } else {
        let rest = display_row_spec(row, cols.drop_last());
        if cols.last() < row.len() {
            rest.push(row[cols.last() as int])
        } else {
            rest
        }
    }
}

/// The cells of a row that are shown.
pub fn display_row(row: &Vec<String>, cols: &Vec<usize>) -> (r: Vec<String>)
    ensures
        row_view(r) == display_row_spec(row_view(*row), cols@),
{
    let mut r: Vec<String> = Vec::new();
    let mut i: usize = 0;
    while i < cols.len()
        invariant
            i <= cols.len(),
            row_view(r) == display_row_spec(row_view(*row), cols@.take(i as int)),
        decreases cols.len() - i,
    {
        assert(cols@.take(i + 1).drop_last() =~= cols@.take(i as int));
        let c = cols[i];
        if c < row.len() {
            let s = row[c].clone();
            let ghost r0 = r@;
            r.push(s);
            assert(r@ == r0.push(s));
            proof {
                lemma_row_view_push(r0, s);
            }
            assert(row_view(r) =~= display_row_spec(row_view(*row), cols@.take(i as int)).push(
                row_view(*row)[c as int],
            ));
        }
        i += 1;
    }
    assert(cols@.take(cols.len() as int) =~= cols@);
    r
}

/// The first cell of row `i`, if that row exists and has a cell.
pub open spec fn first_cell(rows: Seq<Seq<Seq<char>>>, i: int) -> Seq<Seq<char>> {
    if 0 <= i < rows.len() && rows[i].len() > 0 {
        seq![rows[i][0]]
    } else {
        Seq::empty()
    }
}

/// The first cells of the selected rows, in row order.
pub open spec fn selected_values(rows: Seq<Seq<Seq<char>>>, selected: Seq<bool>) -> Seq<Seq<char>>
    decreases selected.len(),
{
    if selected.len() == 0 {
        Seq::empty()
    } else {
        let rest = selected_values(rows, selected.drop_last());
        if selected.last() {
            rest + first_cell(rows, selected.len() - 1)
        } else {
            rest
        }
    }
}

/// The values a list dialog returns: the first cell of the selected row in
/// single mode, of every checked row otherwise.
pub open spec fn result_spec(
    rows: Seq<Seq<Seq<char>>>,
    selected: Seq<bool>,
    single_selected: Option<usize>,
    mode: ListMode,
) -> Seq<Seq<char>> {
    if mode == ListMode::Single {
        match single_selected {
            Some(i) => first_cell(rows, i as int),
            None => Seq::empty(),
        }
    } else {
        selected_values(rows, selected)
    }
}

/// The result for the values `vals` that a list dialog gives: the values,
/// or `Cancelled` when there are none.
pub open spec fn list_result_of(r: ListResult, vals: Seq<Seq<char>>) -> bool {
    if vals.len() == 0 {
        r matches ListResult::Cancelled
    } else {
        r matches ListResult::Selected(v) && row_view(v) == vals
    }
}

/// The result a list dialog gives (see `result_spec`), `Cancelled` when no
/// value results.
pub fn get_result(
    rows: &Vec<Vec<String>>,
    selected: &Vec<bool>,
    single_selected: Option<usize>,
    mode: ListMode,
) -> (r: ListResult)
    ensures
        list_result_of(r, result_spec(rows_view(rows@), selected@, single_selected, mode)),
{
    let mut result: Vec<String> = Vec::new();
    if mode == ListMode::Single {
        if let Some(idx) = single_selected {
            if idx < rows.len() {
                if rows[idx].len() > 0 {
                    let s = rows[idx][0].clone();
                    result.push(s);
                    assert(row_view(result) =~= first_cell(rows_view(rows@), idx as int));
                }
            }
        }
        assert(row_view(result) =~= result_spec(rows_view(rows@), selected@, single_selected, mode));
    } else {
        let mut i: usize = 0;
        while i < selected.len()
            invariant
                i <= selected.len(),
                row_view(result) == selected_values(rows_view(rows@), selected@.take(i as int)),
            decreases selected.len() - i,
        {
            assert(selected@.take(i + 1).drop_last() =~= selected@.take(i as int));
            if selected[i] {
                if i < rows.len() && rows[i].len() > 0 {
                    let s = rows[i][0].clone();
                    let ghost r0 = result@;
                    result.push(s);
                    assert(result@ == r0.push(s));
                    proof {
                        lemma_row_view_push(r0, s);
                    }
                    assert(row_view(result) =~= selected_values(
                        rows_view(rows@),
                        selected@.take(i as int),
                    ) + first_cell(rows_view(rows@), i as int));
                } else {
                    assert(first_cell(rows_view(rows@), i as int) =~= Seq::empty());
                    assert(row_view(result) =~= selected_values(
                        rows_view(rows@),
                        selected@.take(i as int),
                    ) + first_cell(rows_view(rows@), i as int));
                }
            }
            i += 1;
        }
        assert(selected@.take(selected.len() as int) =~= selected@);
    }
    if result.len() == 0 {
        ListResult::Cancelled
    } else {
        ListResult::Selected(result)
    }
}

/// What the list dialog does after an event.
#[derive(Debug, Clone)]
pub enum ListStep {
    /// Keep going; redraw when the flag is set.
    Continue(bool),
    /// Close the dialog with this result.
    Finish(ListResult),
}

/// The state of an open list dialog.
pub struct ListState {
    pub mode: ListMode,
    pub rows: Vec<Vec<String>>,
    /// Checked rows (checklist and radiolist mode).
    pub selected: Vec<bool>,
    /// The selected row (single mode).
    pub single_selected: Option<usize>,
    /// Index of the first row shown.
    pub scroll_offset: usize,
    /// Horizontal scroll, in pixels.
    pub h_scroll_offset: u32,
    pub hovered_row: Option<usize>,
    /// Shift is held: the wheel scrolls sideways.
    pub h_scroll_mode: bool,
    /// Number of rows that fit in the list.
    pub data_visible: usize,
    /// Width of all columns together.
    pub content_width: u32,
    /// Width of the list area.
    pub list_width: u32,
}

/// How far the list can scroll sideways.
pub open spec fn max_h_scroll(s: ListState) -> int {
    if s.content_width > s.list_width {
        s.content_width - s.list_width
    } else {
        0
    }
}

pub open spec fn h_left(s: ListState) -> u32 {
    if s.h_scroll_offset > 100 {
        (s.h_scroll_offset - 100) as u32
    } else {
        0
    }
}

pub open spec fn h_right(s: ListState) -> u32 {
    if s.h_scroll_offset + 100 < max_h_scroll(s) {
        (s.h_scroll_offset + 100) as u32
    } else {
        max_h_scroll(s) as u32
    }
}

/// Up or Down in single mode moves the selection to a neighbouring row
/// (one exists in that direction).
pub open spec fn moves_selection(s: ListState, keysym: u32) -> bool {
    s.mode == ListMode::Single && match s.single_selected {
        Some(sel) => (keysym == KEY_UP && sel > 0) || (keysym == KEY_DOWN && sel + 1
            < s.rows@.len()),
        None => false,
    }
}

/// Whether a key press that keeps the dialog open changes what is shown.
pub open spec fn key_redraw(s: ListState, keysym: u32) -> bool {
    if keysym == KEY_UP || keysym == KEY_DOWN {
        s.mode == ListMode::Single && (moves_selection(s, keysym) || (s.single_selected is None
            && s.rows@.len() > 0))
    } else if keysym == KEY_LEFT || keysym == KEY_RIGHT {
        s.content_width > s.list_width
    } else if keysym == KEY_SPACE {
        s.mode == ListMode::Checklist && (s.hovered_row is Some || s.single_selected is Some)
    } else {
        false
    }
}

impl ListState {
    /// One selection flag per row, the selected, hovered and first shown
    /// rows exist, and the sideways scroll stays within its range.
    pub open spec fn wf(&self) -> bool {
        &&& self.selected@.len() == self.rows@.len()
        &&& (self.single_selected matches Some(i) ==> i < self.rows@.len())
        &&& (self.hovered_row matches Some(i) ==> i < self.rows@.len())
        &&& self.scroll_offset <= self.rows@.len()
        &&& self.rows@.len() + self.data_visible + 2 <= usize::MAX
        &&& self.h_scroll_offset <= max_h_scroll(*self)
    }

    /// The result that OK or Enter give: the values of the selection, or
    /// `Cancelled` when it gives none.
    pub fn result(&self) -> (r: ListResult)
        ensures
            list_result_of(
                r,
                result_spec(rows_view(self.rows@), self.selected@, self.single_selected, self.mode),
            ),
    {
        get_result(&self.rows, &self.selected, self.single_selected, self.mode)
    }

    fn max_h_scroll(&self) -> (r: u32)
        ensures
            r == max_h_scroll(*self),
    {
        if self.content_width > self.list_width {
            self.content_width - self.list_width
        } else {
            0
        }
    }

    fn scroll_left(&mut self)
        ensures
            *final(self) == (ListState { h_scroll_offset: h_left(*old(self)), ..*old(self) }),
    {
        self.h_scroll_offset = if self.h_scroll_offset > 100 {
            self.h_scroll_offset - 100
        } else {
            0
        };
    }

    fn scroll_right(&mut self)
        requires
            old(self).h_scroll_offset <= max_h_scroll(*old(self)),
        ensures
            *final(self) == (ListState { h_scroll_offset: h_right(*old(self)), ..*old(self) }),
    {
        let m = self.max_h_scroll();
        self.h_scroll_offset = if m - self.h_scroll_offset > 100 {
            self.h_scroll_offset + 100
        } else {
            m
        };
    }

    /// The pointer is over visible row `rel` of the list (counted from the
    /// first row shown), or off the rows; returns whether the hovered row
    /// changed.
    pub fn hover(&mut self, rel: Option<usize>) -> (redraw: bool)
        requires
            old(self).wf(),
        ensures
            final(self).wf(),
            final(self).hovered_row == (match rel {
                Some(r) => if old(self).scroll_offset + r < old(self).rows@.len() {
                    Some((old(self).scroll_offset + r) as usize)
                } else {
                    None
                },
                None => None,
            }),
            *final(self) == (ListState { hovered_row: final(self).hovered_row, ..*old(self) }),
            redraw == (final(self).hovered_row != old(self).hovered_row),
    {
        let old_hovered = self.hovered_row;
        let new_hovered = match rel {
            Some(r) => {
                if r < self.rows.len() - self.scroll_offset {
                    Some(self.scroll_offset + r)
                } else {
                    None
                }
            },
            None => None,
        };
        self.hovered_row = new_hovered;
        old_hovered != new_hovered
    }

    /// A left click on the hovered row: selects it in single mode, toggles
    /// its checkbox in checklist mode, makes it the only checked row in
    /// radiolist mode.
    pub fn click(&mut self) -> (redraw: bool)
        requires
            old(self).wf(),
        ensures
            final(self).wf(),
            *final(self) == (ListState {
                selected: final(self).selected,
                single_selected: final(self).single_selected,
                ..*old(self)
            }),
            redraw == old(self).hovered_row.is_some(),
            match old(self).hovered_row {
                None => final(self).selected@ == old(self).selected@ && final(self).single_selected
                    == old(self).single_selected,
                Some(ri) => match old(self).mode {
                    ListMode::Single => final(self).single_selected == Some(ri)
                        && final(self).selected@ == old(self).selected@,
                    ListMode::Checklist => final(self).selected@ == old(self).selected@.update(
                        ri as int,
                        !old(self).selected@[ri as int],
                    ) && final(self).single_selected == old(self).single_selected,
                    ListMode::Radiolist => final(self).selected@ == Seq::new(
                        old(self).selected@.len(),
                        |i: int| i == ri,
                    ) && final(self).single_selected == old(self).single_selected,
                },
            },
    {
        if let Some(ri) = self.hovered_row {
            match self.mode {
                ListMode::Single => {
                    self.single_selected = Some(ri);
                },
                ListMode::Checklist => {
                    let v = !self.selected[ri];
                    self.selected.set(ri, v);
                },
                ListMode::Radiolist => {
                    let n = self.selected.len();
                    let mut sel: Vec<bool> = Vec::new();
                    let mut i: usize = 0;
                    while i < n
                        invariant
                            i <= n,
                            sel@ =~= Seq::new(i as nat, |k: int| k == ri),
                        decreases n - i,
                    {
                        sel.push(i == ri);
                        i += 1;
                    }
                    self.selected = sel;
                },
            }
            true
        } else {
            false
        }
    }

    /// The scroll wheel: sideways (by 100 pixels) while Shift is held or for
    /// sideways wheel motion, else by two rows.
    pub fn scroll(&mut self, dir: ScrollDirection) -> (redraw: bool)
        requires
            old(self).wf(),
        ensures
            final(self).wf(),
            *final(self) == (ListState {
                scroll_offset: final(self).scroll_offset,
                h_scroll_offset: final(self).h_scroll_offset,
                ..*old(self)
            }),
            ({
                let o = *old(self);
                let wide = o.content_width > o.list_width;
                let n = o.rows@.len() as int;
                let left = o.h_scroll_mode && dir == ScrollDirection::Up || !o.h_scroll_mode && dir
                    == ScrollDirection::Left;
                let right = o.h_scroll_mode && dir == ScrollDirection::Down || !o.h_scroll_mode && dir
                    == ScrollDirection::Right;
                if left {
                    final(self).scroll_offset == o.scroll_offset && if wide {
                        final(self).h_scroll_offset == h_left(o) && redraw
                    } else {
                        final(self).h_scroll_offset == o.h_scroll_offset && !redraw
                    }
                } else if right {
                    final(self).scroll_offset == o.scroll_offset && if wide {
                        final(self).h_scroll_offset == h_right(o) && redraw
                    } else {
                        final(self).h_scroll_offset == o.h_scroll_offset && !redraw
                    }
                } else if !o.h_scroll_mode && dir == ScrollDirection::Up {
                    final(self).h_scroll_offset == o.h_scroll_offset && if o.scroll_offset > 0 {
                        final(self).scroll_offset == (if o.scroll_offset > 2 {
                            o.scroll_offset - 2
                        } else {
                            0
                        }) && redraw
                    } else {
                        final(self).scroll_offset == o.scroll_offset && !redraw
                    }
                } else if !o.h_scroll_mode && dir == ScrollDirection::Down {
                    final(self).h_scroll_offset == o.h_scroll_offset && if o.scroll_offset
                        + o.data_visible < n {
                        final(self).scroll_offset == (if o.scroll_offset + 2 < n - o.data_visible {
                            o.scroll_offset + 2
                        } else {
                            n - o.data_visible
                        }) && redraw
                    } else {
                        final(self).scroll_offset == o.scroll_offset && !redraw
                    }
                } else {
                    final(self).scroll_offset == o.scroll_offset && final(self).h_scroll_offset
                        == o.h_scroll_offset && !redraw
                }
            }),
    {
        let wide = self.content_width > self.list_width;
        let left = self.h_scroll_mode && dir == ScrollDirection::Up || !self.h_scroll_mode && dir
            == ScrollDirection::Left;
        let right = self.h_scroll_mode && dir == ScrollDirection::Down || !self.h_scroll_mode && dir
            == ScrollDirection::Right;
        if left {
            if wide {
                self.scroll_left();
                true
            } else {
                false
            }
        } else if right {
            if wide {
                self.scroll_right();
                true
            } else {
                false
            }
        } else if !self.h_scroll_mode && dir == ScrollDirection::Up {
            if self.scroll_offset > 0 {
                self.scroll_offset = if self.scroll_offset > 2 {
                    self.scroll_offset - 2
                } else {
                    0
                };
                true
            } else {
                false
            }
        } else if !self.h_scroll_mode && dir == ScrollDirection::Down {
            let n = self.rows.len();
            if self.scroll_offset + self.data_visible < n {
                let limit = n - self.data_visible;
                self.scroll_offset = if self.scroll_offset + 2 < limit {
                    self.scroll_offset + 2
                } else {
                    limit
                };
                true
            } else {
                false
            }
        } else {
            false
        }
    }

    /// Handles a key press. Shift switches the wheel to sideways scrolling
    /// until the next other key; Up and Down move the selection in single
    /// mode (scrolling it into view), Left and Right scroll sideways, Space
    /// toggles the hovered (or selected) row in checklist mode, Enter
    /// accepts and Escape closes the dialog.
    pub fn key_press(&mut self, keysym: u32) -> (step: ListStep)
        requires
            old(self).wf(),
        ensures
            final(self).wf(),
            final(self).rows == old(self).rows,
            final(self).hovered_row == old(self).hovered_row,
            final(self).h_scroll_mode == (keysym == KEY_LSHIFT || keysym == KEY_RSHIFT),
            (keysym == KEY_LSHIFT || keysym == KEY_RSHIFT) ==> step matches ListStep::Continue(false),
            keysym == KEY_RETURN ==> (step matches ListStep::Finish(r) && list_result_of(
                r,
                result_spec(
                    rows_view(old(self).rows@),
                    old(self).selected@,
                    old(self).single_selected,
                    old(self).mode,
                ),
            )),
            keysym == KEY_ESCAPE ==> step matches ListStep::Finish(ListResult::Closed),
            keysym == KEY_UP && old(self).mode == ListMode::Single ==> match old(self).single_selected {
                Some(sel) => if sel > 0 {
                    final(self).single_selected == Some((sel - 1) as usize) && final(self).scroll_offset
                        == (if sel - 1 < old(self).scroll_offset {
                        sel - 1
                    } else {
                        old(self).scroll_offset as int
                    })
                } else {
                    final(self).single_selected == old(self).single_selected
                },
                None => final(self).single_selected == (if old(self).rows@.len() > 0 {
                    Some(0usize)
                } else {
                    None
                }),
            },
            keysym == KEY_DOWN && old(self).mode == ListMode::Single ==> match old(self).single_selected {
                Some(sel) => if sel + 1 < old(self).rows@.len() {
                    final(self).single_selected == Some((sel + 1) as usize) && final(self).scroll_offset
                        == (if sel + 1 >= old(self).scroll_offset + old(self).data_visible {
                        sel + 2 - old(self).data_visible
                    } else {
                        old(self).scroll_offset as int
                    })
                } else {
                    final(self).single_selected == old(self).single_selected
                },
                None => final(self).single_selected == (if old(self).rows@.len() > 0 {
                    Some(0usize)
                } else {
                    None
                }),
            },
            keysym == KEY_SPACE && old(self).mode == ListMode::Checklist ==> final(self).selected@ == (
            match (if old(self).hovered_row.is_some() {
                old(self).hovered_row
            } else {
                old(self).single_selected
            }) {
                Some(ri) => old(self).selected@.update(ri as int, !old(self).selected@[ri as int]),
                None => old(self).selected@,
            }),
            !(keysym == KEY_SPACE && old(self).mode == ListMode::Checklist) ==> final(self).selected
                == old(self).selected,
            *final(self) == (ListState {
                selected: final(self).selected,
                single_selected: final(self).single_selected,
                scroll_offset: final(self).scroll_offset,
                h_scroll_offset: final(self).h_scroll_offset,
                h_scroll_mode: final(self).h_scroll_mode,
                ..*old(self)
            }),
            final(self).mode == old(self).mode,
            final(self).data_visible == old(self).data_visible,
            final(self).content_width == old(self).content_width,
            final(self).list_width == old(self).list_width,
            !((keysym == KEY_UP || keysym == KEY_DOWN) && old(self).mode == ListMode::Single)
                ==> final(self).single_selected == old(self).single_selected,
            !moves_selection(*old(self), keysym) ==> final(self).scroll_offset == old(
                self,
            ).scroll_offset,
            final(self).h_scroll_offset == (if keysym == KEY_LEFT && old(self).content_width > old(
                self,
            ).list_width {
                h_left(*old(self))
            } else if keysym == KEY_RIGHT && old(self).content_width > old(self).list_width {
                h_right(*old(self))
            } else {
                old(self).h_scroll_offset
            }),
            keysym != KEY_RETURN && keysym != KEY_ESCAPE ==> (step matches ListStep::Continue(
                redraw,
            ) && redraw == key_redraw(*old(self), keysym)),
    {
        if keysym == KEY_LSHIFT || keysym == KEY_RSHIFT {
            self.h_scroll_mode = true;
            return ListStep::Continue(false);
        }
        self.h_scroll_mode = false;
        if keysym == KEY_UP {
            if self.mode == ListMode::Single {
                if let Some(sel) = self.single_selected {
                    if sel > 0 {
                        self.single_selected = Some(sel - 1);
                        if sel - 1 < self.scroll_offset {
                            self.scroll_offset = sel - 1;
                        }
                        return ListStep::Continue(true);
                    }
                } else if self.rows.len() > 0 {
                    self.single_selected = Some(0);
                    return ListStep::Continue(true);
                }
            }
            ListStep::Continue(false)
        } else if keysym == KEY_DOWN {
            if self.mode == ListMode::Single {
                if let Some(sel) = self.single_selected {
                    if sel + 1 < self.rows.len() {
                        self.single_selected = Some(sel + 1);
                        if sel + 1 >= self.scroll_offset + self.data_visible {
                            self.scroll_offset = sel + 2 - self.data_visible;
                        }
                        return ListStep::Continue(true);
                    }
                } else if self.rows.len() > 0 {
                    self.single_selected = Some(0);
                    return ListStep::Continue(true);
                }
            }
            ListStep::Continue(false)
        } else if keysym == KEY_LEFT {
            if self.content_width > self.list_width {
                self.scroll_left();
                ListStep::Continue(true)
            } else {
                ListStep::Continue(false)
            }
        } else if keysym == KEY_RIGHT {
            if self.content_width > self.list_width {
                self.scroll_right();
                ListStep::Continue(true)
            } else {
                ListStep::Continue(false)
            }
        } else if keysym == KEY_SPACE {
            if self.mode == ListMode::Checklist {
                let target = if self.hovered_row.is_some() {
                    self.hovered_row
                } else {
                    self.single_selected
                };
                if let Some(ri) = target {
                    let v = !self.selected[ri];
                    self.selected.set(ri, v);
                    return ListStep::Continue(true);
                }
            }
            ListStep::Continue(false)
        } else if keysym == KEY_RETURN {
            ListStep::Finish(self.result())
        } else if keysym == KEY_ESCAPE {
            ListStep::Finish(ListResult::Closed)
        } else {
            ListStep::Continue(false)
        }
    }
}

/// In radiolist mode a click leaves exactly one row checked.
pub proof fn law_radiolist_checks_one_row(n: nat, ri: int)
    requires
        0 <= ri < n,
    ensures
        ({
            let s = Seq::new(n, |i: int| i == ri);
            s[ri] && forall|i: int| 0 <= i < n && i != ri ==> !s[i]
        }),
{
}

/// In checklist mode two clicks on the same row give back the selection as
/// it was.
pub proof fn law_checklist_double_toggle(sel: Seq<bool>, ri: int)
    requires
        0 <= ri < sel.len(),
    ensures
        sel.update(ri, !sel[ri]).update(ri, !sel.update(ri, !sel[ri])[ri]) == sel,
{
    assert(sel.update(ri, !sel[ri]).update(ri, !sel.update(ri, !sel[ri])[ri]) =~= sel);
}

/// Creates a new list selection dialog builder.
pub fn list() -> (r: ListBuilder)
    ensures
        r@ == default_list(),
{
    ListBuilder::new()
}

} // verus!
