//! File selection dialog: filters, the listing of a directory, navigation
//! history, selection and the dialog's result.

use vstd::prelude::*;

use crate::calendar::{colors_view, unix_time_secs};
use crate::color::{opaque, rgb, Colors, Rgba};
use crate::events::{KEY_BACKSPACE, KEY_DOWN, KEY_ESCAPE, KEY_RETURN, KEY_UP, ScrollDirection, WindowEvent};
use crate::text_input::{event_spec, TextInput, TextInputView, INPUT_HEIGHT};
use crate::order::{
    distinct_below, law_stable_order_unique, lemma_distinct_len, sort_indices, sorted_stably,
};
use crate::strutil::{
    chars_of, contains_chars, decimal, decimal_chars, ends_with_chars, is_infix, is_prefix,
    is_suffix, lowercase, push_str, starts_with_chars, string_from_chars, sub_chars, to_lowercase,
    chars_eq, find_char, index_of, views, lines, split_lines, split_words, trim, trim_chars, words,
};

verus! {

/// File selection dialog result.
#[derive(Debug, Clone)]
pub enum FileSelectResult {
    Selected(String),
    SelectedMultiple(Vec<String>),
    Cancelled,
    Closed,
}

impl FileSelectResult {
    pub fn exit_code(&self) -> (r: i32)
        ensures
            r == match self {
                FileSelectResult::Selected(_) | FileSelectResult::SelectedMultiple(_) => 0i32,
                FileSelectResult::Cancelled => 1i32,
                FileSelectResult::Closed => 255i32,
            },
    {
        match self {
            FileSelectResult::Selected(_) | FileSelectResult::SelectedMultiple(_) => 0,
            FileSelectResult::Cancelled => 1,
            FileSelectResult::Closed => 255,
        }
    }
}

/// File filter pattern.
#[derive(Debug, Clone)]
pub struct FileFilter {
    pub name: String,
    pub patterns: Vec<String>,
}

/// The patterns of each filter.
pub open spec fn filters_view(f: Seq<FileFilter>) -> Seq<Seq<Seq<char>>> {
    f.map_values(|x: FileFilter| views(x.patterns@))
}

/// What a file selection builder holds.
pub struct FileSelectConfig {
    pub title: Seq<char>,
    pub directory: bool,
    pub save: bool,
    pub filename: Seq<char>,
    pub start_path: Option<Seq<char>>,
    pub width: Option<u32>,
    pub height: Option<u32>,
    pub colors: Option<Colors>,
    /// The names of the filters.
    pub filter_names: Seq<Seq<char>>,
    /// The patterns of each filter.
    pub filters: Seq<Seq<Seq<char>>>,
    pub multiple: bool,
    pub separator: Seq<char>,
}

pub open spec fn default_file_select() -> FileSelectConfig {
    FileSelectConfig {
        title: Seq::empty(),
        directory: false,
        save: false,
        filename: Seq::empty(),
        start_path: None,
        width: None,
        height: None,
        colors: None,
        filter_names: Seq::empty(),
        filters: Seq::empty(),
        multiple: false,
        separator: " "@,
    }
}

/// File selection dialog builder.
pub struct FileSelectBuilder {
    title: String,
    directory: bool,
    save: bool,
    filename: String,
    start_path: Option<String>,
    width: Option<u32>,
    height: Option<u32>,
    colors: Option<&'static Colors>,
    filters: Vec<FileFilter>,
    multiple: bool,
    separator: String,
}

pub open spec fn opt_string_view(o: Option<String>) -> Option<Seq<char>> {
    match o {
        Some(s) => Some(s@),
        None => None,
    }
}

impl View for FileSelectBuilder {
    type V = FileSelectConfig;

    closed spec fn view(&self) -> FileSelectConfig {
        FileSelectConfig {
            title: self.title@,
            directory: self.directory,
            save: self.save,
            filename: self.filename@,
            start_path: opt_string_view(self.start_path),
            width: self.width,
            height: self.height,
            colors: colors_view(self.colors),
            filter_names: self.filters@.map_values(|x: FileFilter| x.name@),
            filters: filters_view(self.filters@),
            multiple: self.multiple,
            separator: self.separator@,
        }
    }
}

impl FileSelectBuilder {
    pub fn new() -> (r: Self)
        ensures
            r@ == default_file_select(),
    {
        let r = FileSelectBuilder {
            title: String::new(),
            directory: false,
            save: false,
            filename: String::new(),
            start_path: None,
            width: None,
            height: None,
            colors: None,
            filters: Vec::new(),
            multiple: false,
            separator: " ".to_owned(),
        };
        assert(r@.filter_names =~= Seq::<Seq<char>>::empty());
        assert(r@.filters =~= Seq::<Seq<Seq<char>>>::empty());
        r
    }

    pub fn title(self, title: &str) -> (r: Self)
        ensures
            r@ == (FileSelectConfig { title: title@, ..self@ }),
    {
        FileSelectBuilder { title: title.to_owned(), ..self }
    }

    /// Choose directories instead of files.
    pub fn directory(self, directory: bool) -> (r: Self)
        ensures
            r@ == (FileSelectConfig { directory, ..self@ }),
    {
        FileSelectBuilder { directory, ..self }
    }

    pub fn save(self, save: bool) -> (r: Self)
        ensures
            r@ == (FileSelectConfig { save, ..self@ }),
    {
        FileSelectBuilder { save, ..self }
    }

    pub fn filename(self, filename: &str) -> (r: Self)
        ensures
            r@ == (FileSelectConfig { filename: filename@, ..self@ }),
    {
        FileSelectBuilder { filename: filename.to_owned(), ..self }
    }

    /// The directory to start in.
    pub fn start_path(self, path: &str) -> (r: Self)
        ensures
            r@ == (FileSelectConfig { start_path: Some(path@), ..self@ }),
    {
        FileSelectBuilder { start_path: Some(path.to_owned()), ..self }
    }

    pub fn colors(self, colors: &'static Colors) -> (r: Self)
        ensures
            r@ == (FileSelectConfig { colors: Some(*colors), ..self@ }),
    {
        FileSelectBuilder { colors: Some(colors), ..self }
    }

    pub fn width(self, width: u32) -> (r: Self)
        ensures
            r@ == (FileSelectConfig { width: Some(width), ..self@ }),
    {
        FileSelectBuilder { width: Some(width), ..self }
    }

    pub fn height(self, height: u32) -> (r: Self)
        ensures
            r@ == (FileSelectConfig { height: Some(height), ..self@ }),
    {
        FileSelectBuilder { height: Some(height), ..self }
    }

    pub fn add_filter(self, filter: FileFilter) -> (r: Self)
        ensures
            r@ == (FileSelectConfig {
                filter_names: self@.filter_names.push(filter.name@),
                filters: self@.filters.push(views(filter.patterns@)),
                ..self@
            }),
    {
        let mut filters = self.filters;
        let ghost f0 = filters@;
        filters.push(filter);
        assert(filters@.map_values(|x: FileFilter| x.name@) =~= f0.map_values(
            |x: FileFilter| x.name@,
        ).push(filter.name@));
        assert(filters_view(filters@) =~= filters_view(f0).push(views(filter.patterns@)));
        FileSelectBuilder { filters, ..self }
    }

    /// Allow several files to be chosen.
    pub fn multiple(self, multiple: bool) -> (r: Self)
        ensures
            r@ == (FileSelectConfig { multiple, ..self@ }),
    {
        FileSelectBuilder { multiple, ..self }
    }

    /// The text written between chosen files.
    pub fn separator(self, separator: &str) -> (r: Self)
        ensures
            r@ == (FileSelectConfig { separator: separator@, ..self@ }),
    {
        FileSelectBuilder { separator: separator.to_owned(), ..self }
    }

    /// The dialog title: the one set, else "Select Directory", "Save File"
    /// or "Open File" by mode.
    pub fn window_title(&self) -> (r: String)
        ensures
            r@ == (if self@.title.len() > 0 {
                self@.title
            } else if self@.directory {
                "Select Directory"@
            } else if self@.save {
                "Save File"@
            } else {
                "Open File"@
            }),
    {
        if !self.title.as_str().is_empty() {
            self.title.clone()
        } else if self.directory {
            "Select Directory".to_owned()
        } else if self.save {
            "Save File".to_owned()
        } else {
            "Open File".to_owned()
        }
    }

    /// The label of the accepting button: "Save" in save mode, else "Open".
    pub fn ok_label(&self) -> (r: &'static str)
        ensures
            r@ == (if self@.save {
                "Save"@
            } else {
                "Open"@
            }),
    {
        if self.save {
            "Save"
        } else {
            "Open"
        }
    }

    /// Window size: the one set, else 700 by 500.
    pub fn size(&self) -> (r: (u32, u32))
        ensures
            r.0 == (match self@.width {
                Some(w) => w,
                None => 700u32,
            }),
            r.1 == (match self@.height {
                Some(h) => h,
                None => 500u32,
            }),
    {
        let w = match self.width {
            Some(w) => w,
            None => 700,
        };
        let h = match self.height {
            Some(h) => h,
            None => 500,
        };
        (w, h)
    }

    pub fn theme(&self) -> (r: Option<&'static Colors>)
        ensures
            colors_view(r) == self@.colors,
    {
        self.colors
    }

    pub fn get_start_path(&self) -> (r: Option<String>)
        ensures
            opt_string_view(r) == self@.start_path,
    {
        match &self.start_path {
            Some(p) => Some(p.clone()),
            None => None,
        }
    }

    pub fn get_separator(&self) -> (r: String)
        ensures
            r@ == self@.separator,
    {
        self.separator.clone()
    }

    pub fn is_directory(&self) -> (r: bool)
        ensures
            r == self@.directory,
    {
        self.directory
    }

    pub fn is_multiple(&self) -> (r: bool)
        ensures
            r == self@.multiple,
    {
        self.multiple
    }
}

impl Default for FileSelectBuilder {
    fn default() -> Self {
        Self::new()
    }
}

// ---------------------------------------------------------------------------
// Patterns
/// Whether a lower-cased name matches a lower-cased pattern: `*` matches
/// everything, `*x*` names holding `x`, `*x` names ending in `x`, `x*` names
/// starting with `x`, and any other pattern only itself.
pub open spec fn pattern_matches(name: Seq<char>, p: Seq<char>) -> bool {
    if p == seq!['*'] {
        true
    } else if p.len() >= 1 && p[0] == '*' && p[p.len() - 1] == '*' {
        is_infix(name, p.subrange(1, p.len() - 1))
    } else if p.len() >= 1 && p[0] == '*' {
        is_suffix(name, p.drop_first())
    } else if p.len() >= 1 && p[p.len() - 1] == '*' {
        is_prefix(name, p.drop_last())
    } else {
        name == p
    }
}

/// Whether `name` (already lower-cased) matches `pattern`, compared without
/// regard to case.
pub fn matches_pattern(name: &str, pattern: &str) -> (r: bool)
    ensures
        r == pattern_matches(name@, lowercase(pattern@)),
{
    let p = chars_of(to_lowercase(pattern).as_str());
    let n = chars_of(name);
    let len = p.len();
    if len == 1 && p[0] == '*' {
        assert(p@ =~= seq!['*']);
        return true;
    }
    assert(p@ != seq!['*']);
    if len >= 1 && p[0] == '*' && p[len - 1] == '*' {
        let inner = sub_chars(p.as_slice(), 1, len - 1);
        contains_chars(n.as_slice(), inner.as_slice())
    } else if len >= 1 && p[0] == '*' {
        let suffix = sub_chars(p.as_slice(), 1, len);
        assert(suffix@ =~= p@.drop_first());
        ends_with_chars(n.as_slice(), suffix.as_slice())
    } else if len >= 1 && p[len - 1] == '*' {
        let prefix = sub_chars(p.as_slice(), 0, len - 1);
        assert(prefix@ =~= p@.drop_last());
        starts_with_chars(n.as_slice(), prefix.as_slice())
    } else {
        crate::strutil::chars_eq(n.as_slice(), p.as_slice())
    }
}


/// Whether a lower-cased name matches some pattern of some filter.
pub open spec fn any_filter_matches(name: Seq<char>, filters: Seq<Seq<Seq<char>>>) -> bool {
    exists|f: int, k: int|
        0 <= f < filters.len() && 0 <= k < filters[f].len() && #[trigger] pattern_matches(
            name,
            lowercase(filters[f][k]),
        )
}

/// Whether `name`, compared without regard to case, matches a pattern of one
/// of the filters.
pub fn matches_any_filter(name: &str, filters: &Vec<FileFilter>) -> (r: bool)
    ensures
        r == any_filter_matches(lowercase(name@), filters_view(filters@)),
{
    let name_lower = to_lowercase(name);
    let ghost fv = filters_view(filters@);
    let mut f: usize = 0;
    while f < filters.len()
        invariant
            f <= filters.len(),
            fv == filters_view(filters@),
            name_lower@ == lowercase(name@),
            forall|g: int, k: int|
                0 <= g < f && 0 <= k < fv[g].len() ==> !#[trigger] pattern_matches(
                    lowercase(name@),
                    lowercase(fv[g][k]),
                ),
        decreases filters.len() - f,
    {
        let pats = &filters[f].patterns;
        assert(fv[f as int] == views(pats@));
        let mut k: usize = 0;
        while k < pats.len()
            invariant
                k <= pats.len(),
                f < filters.len(),
                fv == filters_view(filters@),
                pats == filters@[f as int].patterns,
                fv[f as int] == views(pats@),
                name_lower@ == lowercase(name@),
                forall|g: int, j: int|
                    0 <= g < f && 0 <= j < fv[g].len() ==> !#[trigger] pattern_matches(
                        lowercase(name@),
                        lowercase(fv[g][j]),
                    ),
                forall|j: int|
                    0 <= j < k ==> !#[trigger] pattern_matches(
                        lowercase(name@),
                        lowercase(fv[f as int][j]),
                    ),
            decreases pats.len() - k,
        {
            if matches_pattern(name_lower.as_str(), pats[k].as_str()) {
                assert(pattern_matches(lowercase(name@), lowercase(fv[f as int][k as int])));
                return true;
            }
            k += 1;
        }
        f += 1;
    }
    false
}

/// `name` shortened to `max_len` characters: past that length, its first
/// `max_len - 3` characters and "...".
pub open spec fn truncated(name: Seq<char>, max_len: nat) -> Seq<char> {
    if name.len() > max_len {
        name.take(max_len - 3) + "..."@
    } else {
        name
    }
}

/// Shortens a name for display (see `truncated`).
pub fn truncate_name(name: &str, max_len: usize) -> (r: String)
    requires
        name@.len() > max_len ==> max_len >= 3,
    ensures
        r@ == truncated(name@, max_len as nat),
{
    let v = chars_of(name);
    if v.len() > max_len {
        let head = sub_chars(v.as_slice(), 0, max_len - 3);
        let mut s = string_from_chars(head.as_slice());
        push_str(&mut s, "...");
        s
    } else {
        name.to_owned()
    }
}

/// How a modification time is shown, `now` and the time in seconds since
/// the Unix epoch: "-" when unknown, "Just now" under a minute, then whole
/// minutes, hours and days up to a week, and past that the year, counted as
/// 365-day years from 1970.
pub open spec fn age_text(modified: Option<u64>, now: u64) -> Seq<char> {
    match modified {
        None => "-"@,
        Some(secs) => {
            let diff: nat = if now > secs {
                (now - secs) as nat
            } else {
                0
            };
            if diff < 60 {
                "Just now"@
            } else if diff < 3600 {
                decimal(diff / 60) + " min ago"@
            } else if diff < 86400 {
                decimal(diff / 3600) + " hrs ago"@
            } else if diff < 604800 {
                decimal(diff / 86400) + " days ago"@
            } else {
                decimal((1970 + secs / 86400 / 365) as nat)
            }
        },
    }
}

/// The text shown for a modification time at time `now` (see `age_text`).
pub fn format_age(modified: Option<u64>, now: u64) -> (r: String)
    ensures
        r@ == age_text(modified, now),
{
    match modified {
        None => "-".to_owned(),
        Some(secs) => {
            let diff: u64 = if now > secs {
                now - secs
            } else {
                0
            };
            if diff < 60 {
                "Just now".to_owned()
            } else if diff < 3600 {
                let mut s = string_from_chars(decimal_chars(diff / 60).as_slice());
                push_str(&mut s, " min ago");
                s
            } else if diff < 86400 {
                let mut s = string_from_chars(decimal_chars(diff / 3600).as_slice());
                push_str(&mut s, " hrs ago");
                s
            } else if diff < 604800 {
                let mut s = string_from_chars(decimal_chars(diff / 86400).as_slice());
                push_str(&mut s, " days ago");
                s
            } else {
                string_from_chars(decimal_chars(1970 + secs / 86400 / 365).as_slice())
            }
        },
    }
}

/// The text shown for a modification time, measured against the system
/// clock.
pub fn format_date(modified: Option<u64>) -> (r: String)
    ensures
        exists|now: u64| r@ == age_text(modified, now),
{
    let now = unix_time_secs();
    format_age(modified, now)
}


// ---------------------------------------------------------------------------
// Directory listing
/// One line of the file list.
#[derive(Debug, Clone)]
pub struct DirEntry {
    pub name: String,
    pub path: String,
    pub is_dir: bool,
    /// Size in bytes.
    pub size: u64,
    /// Last modification, in seconds since the Unix epoch, where known.
    pub modified: Option<u64>,
}

/// The contents of a `DirEntry`.
pub struct EntryView {
    pub name: Seq<char>,
    pub path: Seq<char>,
    pub is_dir: bool,
    pub size: u64,
    pub modified: Option<u64>,
}

impl View for DirEntry {
    type V = EntryView;

    open spec fn view(&self) -> EntryView {
        EntryView {
            name: self.name@,
            path: self.path@,
            is_dir: self.is_dir,
            size: self.size,
            modified: self.modified,
        }
    }
}

pub open spec fn entries_view(s: Seq<DirEntry>) -> Seq<EntryView> {
    s.map_values(|e: DirEntry| e@)
}

/// A copy of an entry.
pub fn clone_entry(e: &DirEntry) -> (r: DirEntry)
    ensures
        r@ == e@,
{
    DirEntry {
        name: e.name.clone(),
        path: e.path.clone(),
        is_dir: e.is_dir,
        size: e.size,
        modified: e.modified,
    }
}

proof fn lemma_entries_view_push(s: Seq<DirEntry>, e: DirEntry)
    ensures
        entries_view(s.push(e)) == entries_view(s).push(e@),
{
    assert(entries_view(s.push(e)) =~= entries_view(s).push(e@));
}

/// A name that starts with a dot names a hidden file.
pub open spec fn is_hidden(name: Seq<char>) -> bool {
    name.len() > 0 && name[0] == '.'
}

/// Whether the listing shows an entry read from the directory: hidden
/// entries only when asked for, and only directories in directory mode.
pub open spec fn shown(e: EntryView, dirs_only: bool, show_hidden: bool) -> bool {
    (show_hidden || !is_hidden(e.name)) && (!dirs_only || e.is_dir)
}

/// Shown, and a directory exactly when `want_dir`.
pub open spec fn in_group(e: EntryView, want_dir: bool, dirs_only: bool, show_hidden: bool) -> bool {
    shown(e, dirs_only, show_hidden) && e.is_dir == want_dir
}

/// The lower-cased names, by which the listing is sorted.
pub open spec fn sort_keys(raw: Seq<EntryView>) -> Seq<Seq<char>> {
    raw.map_values(|e: EntryView| lowercase(e.name))
}

/// `o` lists each entry of the group exactly once, ordered by lower-cased
/// name, entries with equal keys in the order they were read.
pub open spec fn ordered_group(
    raw: Seq<EntryView>,
    o: Seq<usize>,
    want_dir: bool,
    dirs_only: bool,
    show_hidden: bool,
) -> bool {
    &&& distinct_below(o, raw.len() as int)
    &&& forall|k: int|
        0 <= k < o.len() ==> in_group(
            #[trigger] raw[o[k] as int],
            want_dir,
            dirs_only,
            show_hidden,
        )
    &&& forall|i: int|
        0 <= i < raw.len() && in_group(#[trigger] raw[i], want_dir, dirs_only, show_hidden)
            ==> o.contains(i as usize)
    &&& sorted_stably(o, sort_keys(raw))
}

/// The ".." line that leads to the parent directory, where there is one.
pub open spec fn parent_line(parent: Option<Seq<char>>) -> Seq<EntryView> {
    match parent {
        Some(p) => seq![EntryView { name: ".."@, path: p, is_dir: true, size: 0, modified: None }],
        None => Seq::empty(),
    }
}

pub open spec fn pick(raw: Seq<EntryView>, o: Seq<usize>) -> Seq<EntryView> {
    o.map_values(|i: usize| raw[i as int])
}

/// The listing of a directory: the ".." line, the directories, then the
/// files, each group in the given order.
pub open spec fn listing(
    raw: Seq<EntryView>,
    parent: Option<Seq<char>>,
    dirs: Seq<usize>,
    files: Seq<usize>,
) -> Seq<EntryView> {
    parent_line(parent) + pick(raw, dirs) + pick(raw, files)
}

/// The listing of a directory whose entries, in the order they were read,
/// are `raw`, and whose parent is `parent`: ".." first where there is a
/// parent, then the shown directories, then the shown files, each group
/// sorted by lower-cased name, ties in reading order.
pub fn arrange_entries(
    raw: &Vec<DirEntry>,
    parent: Option<String>,
    dirs_only: bool,
    show_hidden: bool,
) -> (r: Vec<DirEntry>)
    ensures
        exists|od: Seq<usize>, of: Seq<usize>|
            {
                &&& ordered_group(entries_view(raw@), od, true, dirs_only, show_hidden)
                &&& ordered_group(entries_view(raw@), of, false, dirs_only, show_hidden)
                &&& entries_view(r@) == listing(
                    entries_view(raw@),
                    opt_string_view(parent),
                    od,
                    of,
                )
            },
{
    let ghost rv = entries_view(raw@);
    let mut keys: Vec<Vec<char>> = Vec::new();
    let mut pick_d: Vec<usize> = Vec::new();
    let mut pick_f: Vec<usize> = Vec::new();
    let mut i: usize = 0;
    while i < raw.len()
        invariant
            i <= raw.len(),
            rv == entries_view(raw@),
            keys@.len() == i,
            forall|j: int| 0 <= j < i ==> (#[trigger] keys@[j])@ == lowercase(rv[j].name),
            forall|a: int| 0 <= a < pick_d@.len() ==> pick_d@[a] < i,
            forall|a: int, b: int| 0 <= a < b < pick_d@.len() ==> pick_d@[a] < pick_d@[b],
            forall|j: int|
                0 <= j < i ==> (in_group(#[trigger] rv[j], true, dirs_only, show_hidden)
                    <==> pick_d@.contains(j as usize)),
            forall|a: int| 0 <= a < pick_f@.len() ==> pick_f@[a] < i,
            forall|a: int, b: int| 0 <= a < b < pick_f@.len() ==> pick_f@[a] < pick_f@[b],
            forall|j: int|
                0 <= j < i ==> (in_group(#[trigger] rv[j], false, dirs_only, show_hidden)
                    <==> pick_f@.contains(j as usize)),
        decreases raw.len() - i,
    {
        let e = &raw[i];
        assert(rv[i as int] == e@);
        let lower = to_lowercase(e.name.as_str());
        keys.push(chars_of(lower.as_str()));
        let name = chars_of(e.name.as_str());
        let hidden = name.len() > 0 && name[0] == '.';
        let show = (show_hidden || !hidden) && (!dirs_only || e.is_dir);
        let ghost d0 = pick_d@;
        let ghost f0 = pick_f@;
        if show {
            if e.is_dir {
                pick_d.push(i);
            } else {
                pick_f.push(i);
            }
        }
        proof {
            assert forall|j: int|
                0 <= j < i + 1 implies (in_group(#[trigger] rv[j], true, dirs_only, show_hidden)
                <==> pick_d@.contains(j as usize)) by {
                if j < i {
                    if pick_d@.contains(j as usize) && !d0.contains(j as usize) {
                        let a = choose|a: int| 0 <= a < pick_d@.len() && pick_d@[a] == j as usize;
                        assert(pick_d@[a] == i);
                    }
                    if d0.contains(j as usize) {
                        let a = choose|a: int| 0 <= a < d0.len() && d0[a] == j as usize;
                        assert(pick_d@[a] == j as usize);
                    }
                } else {
                    if show && e.is_dir {
                        assert(pick_d@[pick_d@.len() - 1] == i);
                    } else {
                        if pick_d@.contains(j as usize) {
                            let a = choose|a: int| 0 <= a < pick_d@.len() && pick_d@[a] == j as usize;
                            assert(d0[a] < i);
                        }
                    }
                }
            }
            assert forall|j: int|
                0 <= j < i + 1 implies (in_group(#[trigger] rv[j], false, dirs_only, show_hidden)
                <==> pick_f@.contains(j as usize)) by {
                if j < i {
                    if pick_f@.contains(j as usize) && !f0.contains(j as usize) {
                        let a = choose|a: int| 0 <= a < pick_f@.len() && pick_f@[a] == j as usize;
                        assert(pick_f@[a] == i);
                    }
                    if f0.contains(j as usize) {
                        let a = choose|a: int| 0 <= a < f0.len() && f0[a] == j as usize;
                        assert(pick_f@[a] == j as usize);
                    }
                } else {
                    if show && !e.is_dir {
                        assert(pick_f@[pick_f@.len() - 1] == i);
                    } else {
                        if pick_f@.contains(j as usize) {
                            let a = choose|a: int| 0 <= a < pick_f@.len() && pick_f@[a] == j as usize;
                            assert(f0[a] < i);
                        }
                    }
                }
            }
        }
        i += 1;
    }
    let ghost kv = keys@.map_values(|k: Vec<char>| k@);
    assert(kv =~= sort_keys(rv));
    let od = sort_indices(&pick_d, &keys);
    let of = sort_indices(&pick_f, &keys);
    proof {
        assert forall|k: int| 0 <= k < od@.len() implies in_group(
            #[trigger] rv[od@[k] as int],
            true,
            dirs_only,
            show_hidden,
        ) by {
            assert(od@.to_set().contains(od@[k]));
            assert(pick_d@.to_set().contains(od@[k]));
        }
        assert forall|j: int|
            0 <= j < rv.len() && in_group(
                #[trigger] rv[j],
                true,
                dirs_only,
                show_hidden,
            ) implies od@.contains(j as usize) by {
            assert(pick_d@.to_set().contains(j as usize));
            assert(od@.to_set().contains(j as usize));
        }
        assert forall|k: int| 0 <= k < of@.len() implies in_group(
            #[trigger] rv[of@[k] as int],
            false,
            dirs_only,
            show_hidden,
        ) by {
            assert(of@.to_set().contains(of@[k]));
            assert(pick_f@.to_set().contains(of@[k]));
        }
        assert forall|j: int|
            0 <= j < rv.len() && in_group(
                #[trigger] rv[j],
                false,
                dirs_only,
                show_hidden,
            ) implies of@.contains(j as usize) by {
            assert(pick_f@.to_set().contains(j as usize));
            assert(of@.to_set().contains(j as usize));
        }
    }
    let mut r: Vec<DirEntry> = Vec::new();
    match parent {
        Some(p) => {
            let up = DirEntry {
                name: "..".to_owned(),
                path: p,
                is_dir: true,
                size: 0,
                modified: None,
            };
            r.push(up);
        },
        None => {},
    }
    let ghost pl = parent_line(opt_string_view(parent));
    assert(entries_view(r@) =~= pl);
    let mut k: usize = 0;
    while k < od.len()
        invariant
            k <= od.len(),
            rv == entries_view(raw@),
            distinct_below(od@, raw@.len() as int),
            entries_view(r@) == pl + pick(rv, od@.take(k as int)),
        decreases od.len() - k,
    {
        let e = clone_entry(&raw[od[k]]);
        let ghost r0 = r@;
        r.push(e);
        proof {
            lemma_entries_view_push(r0, e);
            assert(pick(rv, od@.take(k + 1)) =~= pick(rv, od@.take(k as int)).push(
                rv[od@[k as int] as int],
            ));
        }
        k += 1;
    }
    assert(od@.take(od.len() as int) =~= od@);
    let ghost mid = entries_view(r@);
    let mut k: usize = 0;
    while k < of.len()
        invariant
            k <= of.len(),
            rv == entries_view(raw@),
            distinct_below(of@, raw@.len() as int),
            entries_view(r@) == mid + pick(rv, of@.take(k as int)),
        decreases of.len() - k,
    {
        let e = clone_entry(&raw[of[k]]);
        let ghost r0 = r@;
        r.push(e);
        proof {
            lemma_entries_view_push(r0, e);
            assert(pick(rv, of@.take(k + 1)) =~= pick(rv, of@.take(k as int)).push(
                rv[of@[k as int] as int],
            ));
            assert(mid + pick(rv, of@.take(k + 1)) =~= (mid + pick(rv, of@.take(k as int))).push(
                rv[of@[k as int] as int],
            ));
        }
        k += 1;
    }
    assert(of@.take(of.len() as int) =~= of@);
    assert(entries_view(r@) =~= listing(rv, opt_string_view(parent), od@, of@));
    r
}


/// Whether the list shows an entry under a search text (lower-cased) and
/// the filters: directories always; files when they match a filter (or
/// there is none) and their lower-cased name holds the search text.
pub open spec fn passes(e: EntryView, search: Seq<char>, filters: Seq<Seq<Seq<char>>>) -> bool {
    e.is_dir || ((filters.len() == 0 || any_filter_matches(lowercase(e.name), filters)) && (
    search.len() == 0 || is_infix(lowercase(e.name), search)))
}

/// The indices, in order, of the first `n` entries that pass.
pub open spec fn passing(
    entries: Seq<EntryView>,
    n: nat,
    search: Seq<char>,
    filters: Seq<Seq<Seq<char>>>,
) -> Seq<usize>
    decreases n,
{
    if n == 0 {
        Seq::empty()
    } else {
        let rest = passing(entries, (n - 1) as nat, search, filters);
        if passes(entries[n - 1], search, filters) {
            rest.push((n - 1) as usize)
        } else {
            rest
        }
    }
}

pub proof fn lemma_passing(
    entries: Seq<EntryView>,
    n: nat,
    search: Seq<char>,
    filters: Seq<Seq<Seq<char>>>,
)
    requires
        n <= entries.len() <= usize::MAX,
    ensures
        forall|a: int|
            0 <= a < passing(entries, n, search, filters).len() ==> #[trigger] passing(
                entries,
                n,
                search,
                filters,
            )[a] < n,
        forall|a: int, b: int|
            0 <= a < b < passing(entries, n, search, filters).len() ==> passing(
                entries,
                n,
                search,
                filters,
            )[a] < passing(entries, n, search, filters)[b],
        forall|i: int|
            0 <= i < n ==> (passes(entries[i], search, filters) <==> passing(
                entries,
                n,
                search,
                filters,
            ).contains(i as usize)),
    decreases n,
{
    if n > 0 {
        lemma_passing(entries, (n - 1) as nat, search, filters);
        let rest = passing(entries, (n - 1) as nat, search, filters);
        let p = passing(entries, n, search, filters);
        assert forall|i: int| 0 <= i < n implies (passes(entries[i], search, filters)
            <==> p.contains(i as usize)) by {
            if i < n - 1 {
                if p.contains(i as usize) {
                    let a = choose|a: int| 0 <= a < p.len() && p[a] == i as usize;
                    if a < rest.len() {
                        assert(rest[a] == i as usize);
                    }
                }
                if rest.contains(i as usize) {
                    let a = choose|a: int| 0 <= a < rest.len() && rest[a] == i as usize;
                    assert(p[a] == i as usize);
                }
            } else {
                if passes(entries[i], search, filters) {
                    assert(p[p.len() - 1] == i as usize);
                } else if p.contains(i as usize) {
                    let a = choose|a: int| 0 <= a < p.len() && p[a] == i as usize;
                    assert(rest[a] < n - 1);
                }
            }
        }
    }
}

/// The indices of the entries the list shows (see `passes`), in order.
pub fn update_filtered(all: &Vec<DirEntry>, search: &str, filters: &Vec<FileFilter>) -> (r: Vec<
    usize,
>)
    ensures
        r@ == passing(entries_view(all@), all@.len() as nat, search@, filters_view(filters@)),
{
    let ghost ev = entries_view(all@);
    let ghost fv = filters_view(filters@);
    let sv = chars_of(search);
    let mut r: Vec<usize> = Vec::new();
    let mut i: usize = 0;
    while i < all.len()
        invariant
            i <= all.len(),
            ev == entries_view(all@),
            fv == filters_view(filters@),
            sv@ == search@,
            r@ == passing(ev, i as nat, search@, fv),
        decreases all.len() - i,
    {
        let entry = &all[i];
        assert(ev[i as int] == entry@);
        let keep = if entry.is_dir {
            true
        } else {
            let matches_filter = filters.len() == 0 || matches_any_filter(
                entry.name.as_str(),
                filters,
            );
            let matches_search = sv.len() == 0 || {
                let lower = to_lowercase(entry.name.as_str());
                contains_chars(chars_of(lower.as_str()).as_slice(), sv.as_slice())
            };
            matches_filter && matches_search
        };
        if keep {
            r.push(i);
        }
        i += 1;
    }
    r
}


// ---------------------------------------------------------------------------
// Selection helpers
/// `s` with every occurrence of `x` left out.
pub open spec fn without(s: Seq<usize>, x: usize) -> Seq<usize>
    decreases s.len(),
{
    if s.len() == 0 {
        s
    } else {
        let r = without(s.drop_last(), x);
        if s.last() == x {
            r
        } else {
            r.push(s.last())
        }
    }
}

/// `x` taken out of the selection if it is there, else added at the end.
pub open spec fn toggled(s: Seq<usize>, x: usize) -> Seq<usize> {
    if s.contains(x) {
        without(s, x)
    } else {
        s.push(x)
    }
}

proof fn lemma_without(s: Seq<usize>, x: usize, n: int)
    requires
        distinct_below(s, n),
    ensures
        distinct_below(without(s, x), n),
        !without(s, x).contains(x),
        forall|y: usize| y != x ==> (without(s, x).contains(y) <==> s.contains(y)),
    decreases s.len(),
{
    if s.len() > 0 {
        let d = s.drop_last();
        assert(distinct_below(d, n));
        lemma_without(d, x, n);
        let r = without(d, x);
        assert forall|y: usize| y != x implies (without(s, x).contains(y) <==> s.contains(y)) by {
            if s.contains(y) {
                let k = choose|k: int| 0 <= k < s.len() && s[k] == y;
                if k < s.len() - 1 {
                    assert(d[k] == y);
                    assert(d.contains(y));
                    assert(r.contains(y));
                    let j = choose|j: int| 0 <= j < r.len() && r[j] == y;
                    assert(without(s, x)[j] == y);
                } else {
                    assert(without(s, x)[r.len() as int] == y);
                }
            }
            if without(s, x).contains(y) {
                let k = choose|k: int| 0 <= k < without(s, x).len() && without(s, x)[k] == y;
                if k < r.len() {
                    assert(r[k] == y);
                    assert(r.contains(y));
                    assert(d.contains(y));
                    let j = choose|j: int| 0 <= j < d.len() && d[j] == y;
                    assert(s[j] == y);
                } else {
                    assert(s[s.len() - 1] == y);
                }
            }
        }
        if s.last() != x {
            assert forall|i: int, j: int|
                0 <= i < j < without(s, x).len() implies without(s, x)[i] != without(s, x)[j] by {
                if j == r.len() {
                    assert(without(s, x)[j] == s.last());
                    assert(r.contains(r[i]));
                    assert(d.contains(r[i]));
                    let k = choose|k: int| 0 <= k < d.len() && d[k] == r[i];
                    assert(s[k] == d[k]);
                }
            }
        }
    }
}

proof fn lemma_toggled(s: Seq<usize>, x: usize, n: int)
    requires
        distinct_below(s, n),
        x < n,
    ensures
        distinct_below(toggled(s, x), n),
{
    if s.contains(x) {
        lemma_without(s, x, n);
    } else {
        assert forall|i: int, j: int|
            0 <= i < j < s.push(x).len() implies s.push(x)[i] != s.push(x)[j] by {
            if j == s.len() {
                assert(s.contains(s[i]));
            }
        }
    }
}

/// Whether `v` holds `x`.
fn holds(v: &Vec<usize>, x: usize) -> (r: bool)
    ensures
        r == v@.contains(x),
{
    let mut i: usize = 0;
    while i < v.len()
        invariant
            i <= v.len(),
            forall|k: int| 0 <= k < i ==> v@[k] != x,
        decreases v.len() - i,
    {
        if v[i] == x {
            return true;
        }
        i += 1;
    }
    false
}

/// Adds `x` to the selection, or takes it out if it is there.
fn toggle_in(v: &mut Vec<usize>, x: usize)
    ensures
        final(v)@ == toggled(old(v)@, x),
{
    if holds(v, x) {
        let mut r: Vec<usize> = Vec::new();
        let mut i: usize = 0;
        while i < v.len()
            invariant
                i <= v.len(),
                r@ == without(v@.take(i as int), x),
            decreases v.len() - i,
        {
            assert(v@.take(i + 1).drop_last() =~= v@.take(i as int));
            if v[i] != x {
                r.push(v[i]);
            }
            i += 1;
        }
        assert(v@.take(v.len() as int) =~= v@);
        *v = r;
    } else {
        v.push(x);
    }
}

/// The position of `x` in `f`.
pub open spec fn pos_in(f: Seq<usize>, x: usize) -> int {
    choose|k: int| 0 <= k < f.len() && f[k] == x
}

/// Finds `x` in `f`, whose values are all different.
fn find_pos(f: &Vec<usize>, x: usize) -> (r: Option<usize>)
    requires
        forall|a: int, b: int| 0 <= a < b < f@.len() ==> f@[a] != f@[b],
    ensures
        match r {
            Some(k) => f@.contains(x) && k == pos_in(f@, x) && k < f@.len(),
            None => !f@.contains(x),
        },
{
    let mut i: usize = 0;
    while i < f.len()
        invariant
            i <= f.len(),
            forall|k: int| 0 <= k < i ==> f@[k] != x,
            forall|a: int, b: int| 0 <= a < b < f@.len() ==> f@[a] != f@[b],
        decreases f.len() - i,
    {
        if f[i] == x {
            assert(f@.contains(x));
            let ghost c = pos_in(f@, x);
            assert(f@[c] == x);
            assert(c == i) by {
                if c < i {
                } else if c > i {
                    assert(f@[i as int] != f@[c]);
                }
            }
            return Some(i);
        }
        i += 1;
    }
    None
}

/// The paths of the selected entries that are files, in selection order.
pub open spec fn file_paths(entries: Seq<EntryView>, sel: Seq<usize>) -> Seq<Seq<char>>
    decreases sel.len(),
{
    if sel.len() == 0 {
        Seq::empty()
    } else {
        let r = file_paths(entries, sel.drop_last());
        let e = entries[sel.last() as int];
        if e.is_dir {
            r
        } else {
            r.push(e.path)
        }
    }
}

proof fn lemma_strings_view_push(s: Seq<String>, x: String)
    ensures
        views(s.push(x)) == views(s).push(x@),
{
    assert(views(s.push(x)) =~= views(s).push(x@));
}

/// The paths of the selected files.
fn selected_files(entries: &Vec<DirEntry>, sel: &Vec<usize>) -> (r: Vec<String>)
    requires
        forall|k: int| 0 <= k < sel@.len() ==> sel@[k] < entries@.len(),
    ensures
        views(r@) == file_paths(entries_view(entries@), sel@),
{
    let mut r: Vec<String> = Vec::new();
    let mut i: usize = 0;
    while i < sel.len()
        invariant
            i <= sel.len(),
            forall|k: int| 0 <= k < sel@.len() ==> sel@[k] < entries@.len(),
            views(r@) == file_paths(entries_view(entries@), sel@.take(i as int)),
        decreases sel.len() - i,
    {
        assert(sel@.take(i + 1).drop_last() =~= sel@.take(i as int));
        let e = &entries[sel[i]];
        assert(entries_view(entries@)[sel@[i as int] as int] == e@);
        if !e.is_dir {
            let p = e.path.clone();
            let ghost r0 = r@;
            r.push(p);
            proof {
                lemma_strings_view_push(r0, p);
            }
        }
        i += 1;
    }
    assert(sel@.take(sel.len() as int) =~= sel@);
    r
}


// ---------------------------------------------------------------------------
// Places
/// What `Path::parent` gives for a path: the path without its last
/// component, or nothing for a root or an empty path.
pub uninterp spec fn path_parent(p: Seq<char>) -> Option<Seq<char>>;

/// Calls `std::path::Path::parent` and turns the result back into a string
/// (a parent of a path made from a string is valid UTF-8); the result is
/// named `path_parent` here.
#[verifier::external_body]
fn parent_dir(p: &str) -> (r: Option<String>)
    ensures
        opt_string_view(r) == path_parent(p@),
{
    match std::path::Path::new(p).parent() {
        Some(q) => Some(q.to_string_lossy().into_owned()),
        None => None,
    }
}

/// Calls `dirs::home_dir`, which reads `$HOME` and else the password
/// database; nothing is promised of the result.
#[verifier::external_body]
fn home_dir() -> Option<String> {
    match dirs::home_dir() {
        Some(p) => Some(p.to_string_lossy().into_owned()),
        None => None,
    }
}

/// Icon of a quick access place.
#[derive(Debug, Clone, Copy, PartialEq, Eq, Structural)]
pub enum QuickAccessIcon {
    Home,
    Desktop,
    Documents,
    Downloads,
    Pictures,
    Music,
    Videos,
}

pub open spec fn place_name(i: QuickAccessIcon) -> Seq<char> {
    match i {
        QuickAccessIcon::Home => "Home"@,
        QuickAccessIcon::Desktop => "Desktop"@,
        QuickAccessIcon::Documents => "Documents"@,
        QuickAccessIcon::Downloads => "Downloads"@,
        QuickAccessIcon::Pictures => "Pictures"@,
        QuickAccessIcon::Music => "Music"@,
        QuickAccessIcon::Videos => "Videos"@,
    }
}

/// A quick access place of the sidebar.
#[derive(Debug, Clone)]
pub struct QuickAccess {
    pub name: &'static str,
    pub path: String,
    pub icon: QuickAccessIcon,
}

pub open spec fn place_view(q: QuickAccess) -> (QuickAccessIcon, Seq<char>) {
    (q.icon, q.path@)
}

pub open spec fn places_view(v: Seq<QuickAccess>) -> Seq<(QuickAccessIcon, Seq<char>)> {
    v.map_values(|q: QuickAccess| place_view(q))
}

/// The place for a location that was found.
pub open spec fn opt_place(o: Option<String>, icon: QuickAccessIcon) -> Seq<(QuickAccessIcon, Seq<char>)> {
    match o {
        Some(p) => seq![(icon, p@)],
        None => Seq::empty(),
    }
}

fn push_place(v: &mut Vec<QuickAccess>, o: Option<String>, name: &'static str, icon: QuickAccessIcon)
    requires
        name@ == place_name(icon),
    ensures
        places_view(final(v)@) == places_view(old(v)@) + opt_place(o, icon),
        forall|k: int|
            0 <= k < old(v)@.len() ==> #[trigger] final(v)@[k] == old(v)@[k],
        final(v)@.len() == old(v)@.len() + opt_place(o, icon).len(),
        forall|k: int|
            old(v)@.len() <= k < final(v)@.len() ==> (#[trigger] final(v)@[k]).name@ == place_name(
                final(v)@[k].icon,
            ),
{
    match o {
        Some(p) => {
            let ghost v0 = v@;
            v.push(QuickAccess { name, path: p, icon });
            assert(places_view(v@) =~= places_view(v0) + opt_place(o, icon));
        },
        None => {
            assert(places_view(v@) =~= places_view(v@) + opt_place(o, icon));
        },
    }
}

/// The quick access places in sidebar order (home, desktop, documents,
/// downloads, pictures, music, videos), each that was found.
pub fn quick_access_from(
    home: Option<String>,
    desktop: Option<String>,
    documents: Option<String>,
    downloads: Option<String>,
    pictures: Option<String>,
    music: Option<String>,
    videos: Option<String>,
) -> (r: Vec<QuickAccess>)
    ensures
        places_view(r@) == opt_place(home, QuickAccessIcon::Home) + opt_place(
            desktop,
            QuickAccessIcon::Desktop,
        ) + opt_place(documents, QuickAccessIcon::Documents) + opt_place(
            downloads,
            QuickAccessIcon::Downloads,
        ) + opt_place(pictures, QuickAccessIcon::Pictures) + opt_place(
            music,
            QuickAccessIcon::Music,
        ) + opt_place(videos, QuickAccessIcon::Videos),
        forall|k: int| 0 <= k < r@.len() ==> (#[trigger] r@[k]).name@ == place_name(r@[k].icon),
{
    let mut v: Vec<QuickAccess> = Vec::new();
    proof {
        reveal_strlit("Home");
        reveal_strlit("Desktop");
        reveal_strlit("Documents");
        reveal_strlit("Downloads");
        reveal_strlit("Pictures");
        reveal_strlit("Music");
        reveal_strlit("Videos");
        assert(places_view(v@) =~= Seq::<(QuickAccessIcon, Seq<char>)>::empty());
    }
    push_place(&mut v, home, "Home", QuickAccessIcon::Home);
    push_place(&mut v, desktop, "Desktop", QuickAccessIcon::Desktop);
    push_place(&mut v, documents, "Documents", QuickAccessIcon::Documents);
    push_place(&mut v, downloads, "Downloads", QuickAccessIcon::Downloads);
    push_place(&mut v, pictures, "Pictures", QuickAccessIcon::Pictures);
    push_place(&mut v, music, "Music", QuickAccessIcon::Music);
    push_place(&mut v, videos, "Videos", QuickAccessIcon::Videos);
    v
}

// ---------------------------------------------------------------------------
// The open dialog
/// Moves to `dest` in the navigation history: whatever lay ahead of the
/// current place is dropped, `dest` is added and becomes the current place.
pub fn navigate_to(history: &mut Vec<String>, index: &mut usize, dest: String)
    requires
        *old(index) < old(history)@.len() < usize::MAX,
    ensures
        views(final(history)@) == views(old(history)@.take(*old(index) + 1)).push(
            dest@,
        ),
        *final(index) == final(history)@.len() - 1,
        final(history)@.len() == *old(index) + 2,
{
    history.truncate(*index + 1);
    let ghost h0 = history@;
    history.push(dest);
    proof {
        lemma_strings_view_push(h0, dest);
    }
    *index = history.len() - 1;
}

/// What the file dialog does after an event.
#[derive(Debug, Clone)]
pub enum FileSelectStep {
    /// Keep going; redraw when the flag is set.
    Continue(bool),
    /// Read this directory and hand its entries to `navigate_to_directory`; when
    /// the flag is set, only if the directory exists (else stay, and
    /// redraw).
    Visit(String, bool),
    /// Read the current directory again and hand its entries to `reload`.
    Reload,
    /// Close the dialog with this result.
    Finish(FileSelectResult),
}

/// The contents of a step.
pub enum StepView {
    Continue(bool),
    Visit(Seq<char>, bool),
    Reload,
    Selected(Seq<char>),
    SelectedMany(Seq<Seq<char>>),
    Cancelled,
    Closed,
}

pub open spec fn step_view(s: FileSelectStep) -> StepView {
    match s {
        FileSelectStep::Continue(b) => StepView::Continue(b),
        FileSelectStep::Visit(p, c) => StepView::Visit(p@, c),
        FileSelectStep::Reload => StepView::Reload,
        FileSelectStep::Finish(r) => match r {
            FileSelectResult::Selected(p) => StepView::Selected(p@),
            FileSelectResult::SelectedMultiple(v) => StepView::SelectedMany(views(v@)),
            FileSelectResult::Cancelled => StepView::Cancelled,
            FileSelectResult::Closed => StepView::Closed,
        },
    }
}

/// A button of the toolbar.
#[derive(Debug, Clone, Copy, PartialEq, Eq, Structural)]
pub enum NavButton {
    Back,
    Forward,
    Up,
    Home,
    /// Show or hide hidden files.
    Hidden,
}

/// The state of an open file dialog.
pub struct FileSelectState {
    /// Directories are chosen instead of files.
    pub directory: bool,
    pub multiple: bool,
    pub filters: Vec<FileFilter>,
    pub current_dir: String,
    pub history: Vec<String>,
    pub history_index: usize,
    /// The listing of the current directory.
    pub entries: Vec<DirEntry>,
    /// Indices of the entries shown, after search and filters.
    pub filtered: Vec<usize>,
    /// Indices of the selected entries, each once, in the order chosen.
    pub selected: Vec<usize>,
    /// Position in `filtered` of the first line shown.
    pub scroll_offset: usize,
    /// Number of lines the list shows.
    pub visible_items: usize,
    pub show_hidden: bool,
    /// The search text, lower-cased.
    pub search_text: String,
    pub search: TextInput,
    /// Paths of the quick access places.
    pub places: Vec<String>,
    /// Paths of the mounted drives.
    pub drives: Vec<String>,
    pub hovered_place: Option<usize>,
    pub hovered_drive: Option<usize>,
    /// The entry last under the pointer in the list.
    pub hovered_entry: Option<usize>,
}

impl FileSelectState {
    /// The history has a current place, the list shows exactly the entries
    /// that pass search and filters, the selection and the hovered items
    /// exist.
    pub open spec fn wf(&self) -> bool {
        &&& self.history_index < self.history@.len() < usize::MAX
        &&& self.entries@.len() + 3 <= usize::MAX
        &&& self.filtered@ == passing(
            entries_view(self.entries@),
            self.entries@.len() as nat,
            self.search_text@,
            filters_view(self.filters@),
        )
        &&& distinct_below(self.selected@, self.entries@.len() as int)
        &&& (self.hovered_entry matches Some(e) ==> e < self.entries@.len())
        &&& (self.hovered_place matches Some(i) ==> i < self.places@.len())
        &&& (self.hovered_drive matches Some(i) ==> i < self.drives@.len())
        &&& self.search@.wf()
    }

    /// Shows `dest`, whose entries in reading order are `raw`: it becomes
    /// the current directory and the current place in the history, the
    /// list shows its listing under the search and filters, nothing is
    /// selected and the list is scrolled to the top.
    pub fn navigate_to_directory(&mut self, dest: String, raw: Vec<DirEntry>)
        requires
            old(self).wf(),
            raw@.len() + 4 <= usize::MAX,
            old(self).history@.len() + 1 < usize::MAX,
        ensures
            final(self).wf(),
            views(final(self).history@) == views(
                old(self).history@.take(old(self).history_index + 1),
            ).push(dest@),
            final(self).history_index == final(self).history@.len() - 1,
            final(self).current_dir@ == dest@,
            exists|od: Seq<usize>, of: Seq<usize>|
                {
                    &&& ordered_group(
                        entries_view(raw@),
                        od,
                        true,
                        old(self).directory,
                        old(self).show_hidden,
                    )
                    &&& ordered_group(
                        entries_view(raw@),
                        of,
                        false,
                        old(self).directory,
                        old(self).show_hidden,
                    )
                    &&& entries_view(final(self).entries@) == listing(
                        entries_view(raw@),
                        path_parent(dest@),
                        od,
                        of,
                    )
                },
            final(self).selected@.len() == 0,
            final(self).scroll_offset == 0,
            final(self).hovered_entry == (match old(self).hovered_entry {
                Some(e) => if e < final(self).entries@.len() {
                    Some(e)
                } else {
                    None
                },
                None => None,
            }),
            final(self).search_text == old(self).search_text,
            final(self).search == old(self).search,
            final(self).filters == old(self).filters,
            final(self).show_hidden == old(self).show_hidden,
            final(self).directory == old(self).directory,
            final(self).multiple == old(self).multiple,
            final(self).visible_items == old(self).visible_items,
            final(self).places == old(self).places,
            final(self).drives == old(self).drives,
            final(self).hovered_place == old(self).hovered_place,
            final(self).hovered_drive == old(self).hovered_drive,
    {
        navigate_to(&mut self.history, &mut self.history_index, dest.clone());
        self.current_dir = dest;
        self.load(raw);
    }

    /// Shows the current directory again, read anew as `raw` (after hidden
    /// files were shown or hidden): the list shows its listing, nothing is
    /// selected and the list is scrolled to the top.
    pub fn reload(&mut self, raw: Vec<DirEntry>)
        requires
            old(self).wf(),
            raw@.len() + 4 <= usize::MAX,
        ensures
            final(self).wf(),
            exists|od: Seq<usize>, of: Seq<usize>|
                {
                    &&& ordered_group(
                        entries_view(raw@),
                        od,
                        true,
                        old(self).directory,
                        old(self).show_hidden,
                    )
                    &&& ordered_group(
                        entries_view(raw@),
                        of,
                        false,
                        old(self).directory,
                        old(self).show_hidden,
                    )
                    &&& entries_view(final(self).entries@) == listing(
                        entries_view(raw@),
                        path_parent(old(self).current_dir@),
                        od,
                        of,
                    )
                },
            final(self).selected@.len() == 0,
            final(self).scroll_offset == 0,
            final(self).hovered_entry == (match old(self).hovered_entry {
                Some(e) => if e < final(self).entries@.len() {
                    Some(e)
                } else {
                    None
                },
                None => None,
            }),
            final(self).history == old(self).history,
            final(self).history_index == old(self).history_index,
            final(self).current_dir == old(self).current_dir,
            final(self).search_text == old(self).search_text,
            final(self).search == old(self).search,
            final(self).filters == old(self).filters,
            final(self).show_hidden == old(self).show_hidden,
            final(self).directory == old(self).directory,
            final(self).multiple == old(self).multiple,
            final(self).visible_items == old(self).visible_items,
            final(self).places == old(self).places,
            final(self).drives == old(self).drives,
            final(self).hovered_place == old(self).hovered_place,
            final(self).hovered_drive == old(self).hovered_drive,
    {
        self.load(raw);
    }

    fn load(&mut self, raw: Vec<DirEntry>)
        requires
            old(self).history_index < old(self).history@.len() < usize::MAX,
            (old(self).hovered_place matches Some(i) ==> i < old(self).places@.len()),
            (old(self).hovered_drive matches Some(i) ==> i < old(self).drives@.len()),
            old(self).search@.wf(),
            raw@.len() + 4 <= usize::MAX,
        ensures
            final(self).wf(),
            exists|od: Seq<usize>, of: Seq<usize>|
                {
                    &&& ordered_group(
                        entries_view(raw@),
                        od,
                        true,
                        old(self).directory,
                        old(self).show_hidden,
                    )
                    &&& ordered_group(
                        entries_view(raw@),
                        of,
                        false,
                        old(self).directory,
                        old(self).show_hidden,
                    )
                    &&& entries_view(final(self).entries@) == listing(
                        entries_view(raw@),
                        path_parent(old(self).current_dir@),
                        od,
                        of,
                    )
                },
            final(self).selected@.len() == 0,
            final(self).scroll_offset == 0,
            final(self).hovered_entry == (match old(self).hovered_entry {
                Some(e) => if e < final(self).entries@.len() {
                    Some(e)
                } else {
                    None
                },
                None => None,
            }),
            final(self).history == old(self).history,
            final(self).history_index == old(self).history_index,
            final(self).current_dir == old(self).current_dir,
            final(self).search_text == old(self).search_text,
            final(self).search == old(self).search,
            final(self).filters == old(self).filters,
            final(self).show_hidden == old(self).show_hidden,
            final(self).directory == old(self).directory,
            final(self).multiple == old(self).multiple,
            final(self).visible_items == old(self).visible_items,
            final(self).places == old(self).places,
            final(self).drives == old(self).drives,
            final(self).hovered_place == old(self).hovered_place,
            final(self).hovered_drive == old(self).hovered_drive,
    {
        let parent = parent_dir(self.current_dir.as_str());
        let entries = arrange_entries(&raw, parent, self.directory, self.show_hidden);
        proof {
            let od = choose|od: Seq<usize>, of: Seq<usize>|
                {
                    &&& ordered_group(entries_view(raw@), od, true, self.directory, self.show_hidden)
                    &&& ordered_group(
                        entries_view(raw@),
                        of,
                        false,
                        self.directory,
                        self.show_hidden,
                    )
                    &&& entries_view(entries@) == listing(
                        entries_view(raw@),
                        opt_string_view(parent),
                        od,
                        of,
                    )
                };
            let (d, f) = od;
            let rv = entries_view(raw@);
            assert(entries@.len() == entries_view(entries@).len());
            assert(distinct_below(d + f, raw@.len() as int)) by {
                assert forall|i: int, j: int| 0 <= i < j < (d + f).len() implies (d + f)[i] != (d
                    + f)[j] by {
                    if i < d.len() && j >= d.len() {
                        assert(rv[d[i] as int].is_dir);
                        assert(!rv[f[j - d.len()] as int].is_dir);
                    }
                }
            }
            lemma_distinct_len(d + f, raw@.len() as int);
        }
        let filtered = update_filtered(&entries, self.search_text.as_str(), &self.filters);
        let n = entries.len();
        self.entries = entries;
        self.filtered = filtered;
        self.selected = Vec::new();
        self.scroll_offset = 0;
        self.hovered_entry = match self.hovered_entry {
            Some(e) => if e < n {
                Some(e)
            } else {
                None
            },
            None => None,
        };
    }
}


/// The entry Up moves the selection to: the one before the first selected
/// entry in the list, that entry itself at the top, or the first entry of
/// the list when the selection is not in it.
pub open spec fn up_target(f: Seq<usize>, sel: Seq<usize>) -> usize {
    if sel.len() > 0 && f.contains(sel[0]) {
        let p = pos_in(f, sel[0]);
        if p > 0 {
            f[p - 1]
        } else {
            sel[0]
        }
    } else {
        f[0]
    }
}

/// The entry Down moves the selection to (see `up_target`).
pub open spec fn down_target(f: Seq<usize>, sel: Seq<usize>) -> usize {
    if sel.len() > 0 && f.contains(sel[0]) {
        let p = pos_in(f, sel[0]);
        if p + 1 < f.len() {
            f[p + 1]
        } else {
            sel[0]
        }
    } else {
        f[0]
    }
}

/// The selection after moving to `idx`: toggled in multiple mode, else just
/// `idx`.
pub open spec fn moved_selection(sel: Seq<usize>, idx: usize, multiple: bool) -> Seq<usize> {
    if multiple {
        toggled(sel, idx)
    } else {
        seq![idx]
    }
}

/// What the OK button, or Enter, gives with this selection.
pub open spec fn ok_step(s: FileSelectState) -> StepView {
    let ev = entries_view(s.entries@);
    let sel = s.selected@;
    if s.multiple && sel.len() > 0 {
        let files = file_paths(ev, sel);
        if files.len() > 0 {
            StepView::SelectedMany(files)
        } else {
            StepView::Continue(false)
        }
    } else if sel.len() > 0 {
        let e = ev[sel[0] as int];
        if (s.directory && e.is_dir) || (!s.directory && !e.is_dir) {
            StepView::Selected(e.path)
        } else {
            StepView::Continue(false)
        }
    } else if s.directory {
        StepView::Selected(s.current_dir@)
    } else {
        StepView::Continue(false)
    }
}

/// What Enter in the list gives: the selected files in multiple mode; for
/// one selected entry, a visit to a directory or the chosen file.
pub open spec fn return_step(s: FileSelectState) -> StepView {
    let ev = entries_view(s.entries@);
    let sel = s.selected@;
    if s.multiple && sel.len() > 0 {
        let files = file_paths(ev, sel);
        if files.len() > 0 {
            StepView::SelectedMany(files)
        } else {
            StepView::Continue(false)
        }
    } else if sel.len() > 0 {
        let e = ev[sel[0] as int];
        if e.is_dir {
            StepView::Visit(e.path, true)
        } else if !s.directory {
            StepView::Selected(e.path)
        } else {
            StepView::Continue(false)
        }
    } else {
        StepView::Continue(false)
    }
}

/// The step that visits the parent of the current directory, if any.
pub open spec fn up_step(s: FileSelectState) -> StepView {
    match path_parent(s.current_dir@) {
        Some(p) => StepView::Visit(p, true),
        None => StepView::Continue(false),
    }
}

/// The largest scroll offset that still fills the list.
pub open spec fn max_scroll(s: FileSelectState) -> int {
    if s.filtered@.len() > s.visible_items {
        s.filtered@.len() - s.visible_items
    } else {
        0
    }
}

impl FileSelectState {
    fn filtered_facts(&self)
        requires
            self.wf(),
        ensures
            forall|k: int|
                0 <= k < self.filtered@.len() ==> #[trigger] self.filtered@[k] < self.entries@.len(),
            forall|a: int, b: int|
                0 <= a < b < self.filtered@.len() ==> self.filtered@[a] < self.filtered@[b],
            self.filtered@.len() <= self.entries@.len(),
    {
        proof {
            lemma_passing(
                entries_view(self.entries@),
                self.entries@.len() as nat,
                self.search_text@,
                filters_view(self.filters@),
            );
            lemma_distinct_len(self.filtered@, self.entries@.len() as int);
        }
    }

    /// The pointer moved: it is over quick access place `place`, drive
    /// `drive` and list line `row` (counted from the first line shown),
    /// where given. Places and drives count only where they exist; a line
    /// past the list leaves the hovered entry as it was. Returns whether
    /// anything hovered changed.
    pub fn hover(&mut self, place: Option<usize>, drive: Option<usize>, row: Option<usize>) -> (redraw: bool)
        requires
            old(self).wf(),
        ensures
            final(self).wf(),
            final(self).hovered_place == (match place {
                Some(i) => if i < old(self).places@.len() {
                    Some(i)
                } else {
                    None
                },
                None => None,
            }),
            final(self).hovered_drive == (match drive {
                Some(i) => if i < old(self).drives@.len() {
                    Some(i)
                } else {
                    None
                },
                None => None,
            }),
            final(self).hovered_entry == (match row {
                Some(r) => if old(self).scroll_offset + r < old(self).filtered@.len() {
                    Some(old(self).filtered@[old(self).scroll_offset + r])
                } else {
                    old(self).hovered_entry
                },
                None => old(self).hovered_entry,
            }),
            *final(self) == (FileSelectState {
                hovered_place: final(self).hovered_place,
                hovered_drive: final(self).hovered_drive,
                hovered_entry: final(self).hovered_entry,
                ..*old(self)
            }),
            redraw == (final(self).hovered_place != old(self).hovered_place
                || final(self).hovered_drive != old(self).hovered_drive
                || final(self).hovered_entry != old(self).hovered_entry),
    {
        self.filtered_facts();
        let old_place = self.hovered_place;
        let old_drive = self.hovered_drive;
        let old_entry = self.hovered_entry;
        self.hovered_place = match place {
            Some(i) => if i < self.places.len() {
                Some(i)
            } else {
                None
            },
            None => None,
        };
        self.hovered_drive = match drive {
            Some(i) => if i < self.drives.len() {
                Some(i)
            } else {
                None
            },
            None => None,
        };
        match row {
            Some(r) => {
                let n = self.filtered.len();
                if r < n && self.scroll_offset < n - r {
                    self.hovered_entry = Some(self.filtered[self.scroll_offset + r]);
                }
            },
            None => {},
        }
        old_place != self.hovered_place || old_drive != self.hovered_drive || old_entry
            != self.hovered_entry
    }

    /// A toolbar button was pressed: Back and Forward move in the history
    /// and visit that place; Up visits the parent directory, Home the home
    /// directory; the hidden-files toggle flips and the directory is read
    /// again.
    pub fn press_nav(&mut self, button: NavButton) -> (step: FileSelectStep)
        requires
            old(self).wf(),
        ensures
            final(self).wf(),
            match button {
                NavButton::Back => if old(self).history_index > 0 {
                    &&& *final(self) == (FileSelectState {
                        history_index: (old(self).history_index - 1) as usize,
                        ..*old(self)
                    })
                    &&& step_view(step) == StepView::Visit(
                        old(self).history@[old(self).history_index - 1]@,
                        true,
                    )
                } else {
                    *final(self) == *old(self) && step_view(step) == StepView::Continue(false)
                },
                NavButton::Forward => if old(self).history_index + 1 < old(self).history@.len() {
                    &&& *final(self) == (FileSelectState {
                        history_index: (old(self).history_index + 1) as usize,
                        ..*old(self)
                    })
                    &&& step_view(step) == StepView::Visit(
                        old(self).history@[old(self).history_index + 1]@,
                        true,
                    )
                } else {
                    *final(self) == *old(self) && step_view(step) == StepView::Continue(false)
                },
                NavButton::Up => *final(self) == *old(self) && step_view(step) == up_step(
                    *old(self),
                ),
                NavButton::Home => *final(self) == *old(self) && (step_view(step) matches StepView::Visit(
                    _,
                    true,
                ) || step_view(step) == StepView::Continue(false)),
                NavButton::Hidden => *final(self) == (FileSelectState {
                    show_hidden: !old(self).show_hidden,
                    ..*old(self)
                }) && step_view(step) == StepView::Reload,
            },
    {
        match button {
            NavButton::Back => {
                if self.history_index > 0 {
                    self.history_index = self.history_index - 1;
                    FileSelectStep::Visit(self.history[self.history_index].clone(), true)
                } else {
                    FileSelectStep::Continue(false)
                }
            },
            NavButton::Forward => {
                if self.history_index + 1 < self.history.len() {
                    self.history_index = self.history_index + 1;
                    FileSelectStep::Visit(self.history[self.history_index].clone(), true)
                } else {
                    FileSelectStep::Continue(false)
                }
            },
            NavButton::Up => self.up(),
            NavButton::Home => match home_dir() {
                Some(h) => FileSelectStep::Visit(h, true),
                None => FileSelectStep::Continue(false),
            },
            NavButton::Hidden => {
                self.show_hidden = !self.show_hidden;
                FileSelectStep::Reload
            },
        }
    }

    fn up(&self) -> (step: FileSelectStep)
        ensures
            step_view(step) == up_step(*self),
    {
        match parent_dir(self.current_dir.as_str()) {
            Some(p) => FileSelectStep::Visit(p, true),
            None => FileSelectStep::Continue(false),
        }
    }

    /// A click while a quick access place is hovered visits it.
    pub fn press_place(&self) -> (step: FileSelectStep)
        requires
            self.wf(),
        ensures
            step_view(step) == (match self.hovered_place {
                Some(i) => StepView::Visit(self.places@[i as int]@, true),
                None => StepView::Continue(false),
            }),
    {
        match self.hovered_place {
            Some(i) => FileSelectStep::Visit(self.places[i].clone(), true),
            None => FileSelectStep::Continue(false),
        }
    }

    /// A click while a drive is hovered visits it.
    pub fn press_drive(&self) -> (step: FileSelectStep)
        requires
            self.wf(),
        ensures
            step_view(step) == (match self.hovered_drive {
                Some(i) => StepView::Visit(self.drives@[i as int]@, true),
                None => StepView::Continue(false),
            }),
    {
        match self.hovered_drive {
            Some(i) => FileSelectStep::Visit(self.drives[i].clone(), true),
            None => FileSelectStep::Continue(false),
        }
    }
}


impl FileSelectState {
    /// A click while an entry is hovered: in multiple mode the entry is
    /// added to or taken from the selection; otherwise a click on the
    /// selected entry opens it (a directory is entered, a file chosen
    /// unless directories are being chosen) and a click on another entry
    /// selects it alone.
    pub fn press_entry(&mut self) -> (step: FileSelectStep)
        requires
            old(self).wf(),
        ensures
            final(self).wf(),
            match old(self).hovered_entry {
                None => *final(self) == *old(self) && step_view(step) == StepView::Continue(false),
                Some(ei) => if old(self).multiple {
                    &&& *final(self) == (FileSelectState {
                        selected: final(self).selected,
                        ..*old(self)
                    })
                    &&& final(self).selected@ == toggled(old(self).selected@, ei)
                    &&& step_view(step) == StepView::Continue(true)
                } else if old(self).selected@.contains(ei) {
                    let e = entries_view(old(self).entries@)[ei as int];
                    &&& *final(self) == *old(self)
                    &&& step_view(step) == (if e.is_dir {
                        StepView::Visit(e.path, false)
                    } else if !old(self).directory {
                        StepView::Selected(e.path)
                    } else {
                        StepView::Continue(true)
                    })
                } else {
                    &&& *final(self) == (FileSelectState {
                        selected: final(self).selected,
                        ..*old(self)
                    })
                    &&& final(self).selected@ == seq![ei]
                    &&& step_view(step) == StepView::Continue(true)
                },
            },
    {
        match self.hovered_entry {
            None => FileSelectStep::Continue(false),
            Some(ei) => {
                if self.multiple {
                    proof {
                        lemma_toggled(self.selected@, ei, self.entries@.len() as int);
                    }
                    toggle_in(&mut self.selected, ei);
                    FileSelectStep::Continue(true)
                } else if holds(&self.selected, ei) {
                    let e = &self.entries[ei];
                    assert(entries_view(self.entries@)[ei as int] == e@);
                    if e.is_dir {
                        FileSelectStep::Visit(e.path.clone(), false)
                    } else if !self.directory {
                        FileSelectStep::Finish(FileSelectResult::Selected(e.path.clone()))
                    } else {
                        FileSelectStep::Continue(true)
                    }
                } else {
                    let mut v: Vec<usize> = Vec::new();
                    v.push(ei);
                    assert(v@ =~= seq![ei]);
                    self.selected = v;
                    FileSelectStep::Continue(true)
                }
            },
        }
    }

    /// The OK button was clicked (see `ok_step`).
    pub fn ok_clicked(&self) -> (step: FileSelectStep)
        requires
            self.wf(),
        ensures
            step_view(step) == ok_step(*self),
    {
        let sel = &self.selected;
        if self.multiple && sel.len() > 0 {
            let files = selected_files(&self.entries, sel);
            if files.len() > 0 {
                FileSelectStep::Finish(FileSelectResult::SelectedMultiple(files))
            } else {
                assert(views(files@).len() == 0);
                FileSelectStep::Continue(false)
            }
        } else if sel.len() > 0 {
            let e = &self.entries[sel[0]];
            assert(entries_view(self.entries@)[sel@[0] as int] == e@);
            if (self.directory && e.is_dir) || (!self.directory && !e.is_dir) {
                FileSelectStep::Finish(FileSelectResult::Selected(e.path.clone()))
            } else {
                FileSelectStep::Continue(false)
            }
        } else if self.directory {
            FileSelectStep::Finish(FileSelectResult::Selected(self.current_dir.clone()))
        } else {
            FileSelectStep::Continue(false)
        }
    }

    /// The Cancel button was clicked.
    pub fn cancel_clicked(&self) -> (step: FileSelectStep)
        ensures
            step_view(step) == StepView::Cancelled,
    {
        FileSelectStep::Finish(FileSelectResult::Cancelled)
    }

    fn return_pressed(&self) -> (step: FileSelectStep)
        requires
            self.wf(),
        ensures
            step_view(step) == return_step(*self),
    {
        let sel = &self.selected;
        if self.multiple && sel.len() > 0 {
            let files = selected_files(&self.entries, sel);
            if files.len() > 0 {
                FileSelectStep::Finish(FileSelectResult::SelectedMultiple(files))
            } else {
                assert(views(files@).len() == 0);
                FileSelectStep::Continue(false)
            }
        } else if sel.len() > 0 {
            let e = &self.entries[sel[0]];
            assert(entries_view(self.entries@)[sel@[0] as int] == e@);
            if e.is_dir {
                FileSelectStep::Visit(e.path.clone(), true)
            } else if !self.directory {
                FileSelectStep::Finish(FileSelectResult::Selected(e.path.clone()))
            } else {
                FileSelectStep::Continue(false)
            }
        } else {
            FileSelectStep::Continue(false)
        }
    }

    /// Moves the selection to entry `idx` of the list (toggling it in
    /// multiple mode).
    fn select_moved(&mut self, idx: usize)
        requires
            old(self).wf(),
            idx < old(self).entries@.len(),
        ensures
            final(self).wf(),
            *final(self) == (FileSelectState { selected: final(self).selected, ..*old(self) }),
            final(self).selected@ == moved_selection(old(self).selected@, idx, old(self).multiple),
    {
        if self.multiple {
            proof {
                lemma_toggled(self.selected@, idx, self.entries@.len() as int);
            }
            toggle_in(&mut self.selected, idx);
        } else {
            let mut v: Vec<usize> = Vec::new();
            v.push(idx);
            assert(v@ =~= seq![idx]);
            self.selected = v;
        }
    }

    /// A key press while the search field does not have focus: Up and Down
    /// move the selection through the list and keep it in view, Enter
    /// opens or chooses (see `return_step`), Backspace visits the parent
    /// directory and Escape closes the dialog.
    pub fn key_press(&mut self, keysym: u32) -> (step: FileSelectStep)
        requires
            old(self).wf(),
        ensures
            final(self).wf(),
            ({
                let o = *old(self);
                let f = o.filtered@;
                if o.search@.focused {
                    *final(self) == o && step_view(step) == StepView::Continue(false)
                } else if keysym == KEY_UP && f.len() > 0 {
                    let idx = up_target(f, o.selected@);
                    let p = pos_in(f, idx);
                    &&& *final(self) == (FileSelectState {
                        selected: final(self).selected,
                        scroll_offset: final(self).scroll_offset,
                        ..o
                    })
                    &&& final(self).selected@ == moved_selection(o.selected@, idx, o.multiple)
                    &&& final(self).scroll_offset == (if p < o.scroll_offset {
                        p
                    } else {
                        o.scroll_offset as int
                    })
                    &&& step_view(step) == StepView::Continue(true)
                } else if keysym == KEY_DOWN && f.len() > 0 {
                    let idx = down_target(f, o.selected@);
                    let p = pos_in(f, idx);
                    &&& *final(self) == (FileSelectState {
                        selected: final(self).selected,
                        scroll_offset: final(self).scroll_offset,
                        ..o
                    })
                    &&& final(self).selected@ == moved_selection(o.selected@, idx, o.multiple)
                    &&& final(self).scroll_offset == (if p + 1 >= o.scroll_offset
                        + o.visible_items {
                        p + 2 - o.visible_items
                    } else {
                        o.scroll_offset as int
                    })
                    &&& step_view(step) == StepView::Continue(true)
                } else if keysym == KEY_RETURN {
                    *final(self) == o && step_view(step) == return_step(o)
                } else if keysym == KEY_BACKSPACE {
                    *final(self) == o && step_view(step) == up_step(o)
                } else if keysym == KEY_ESCAPE {
                    *final(self) == o && step_view(step) == StepView::Closed
                } else {
                    *final(self) == o && step_view(step) == StepView::Continue(false)
                }
            }),
    {
        if self.search.has_focus() {
            return FileSelectStep::Continue(false);
        }
        self.filtered_facts();
        let n = self.filtered.len();
        if (keysym == KEY_UP || keysym == KEY_DOWN) && n > 0 {
            let up = keysym == KEY_UP;
            let ghost f = self.filtered@;
            let ghost sel = self.selected@;
            let idx = if self.selected.len() > 0 {
                let s0 = self.selected[0];
                match find_pos(&self.filtered, s0) {
                    Some(p) => {
                        if up {
                            if p > 0 {
                                self.filtered[p - 1]
                            } else {
                                s0
                            }
                        } else {
                            if p + 1 < n {
                                self.filtered[p + 1]
                            } else {
                                s0
                            }
                        }
                    },
                    None => self.filtered[0],
                }
            } else {
                self.filtered[0]
            };
            assert(up ==> idx == up_target(f, sel));
            assert(!up ==> idx == down_target(f, sel));
            assert(f.contains(idx)) by {
                if sel.len() > 0 && f.contains(sel[0]) {
                    let p = pos_in(f, sel[0]);
                    if up && p > 0 {
                        assert(f[p - 1] == idx);
                    } else if !up && p + 1 < f.len() {
                        assert(f[p + 1] == idx);
                    }
                } else {
                    assert(f[0] == idx);
                }
            }
            self.select_moved(idx);
            match find_pos(&self.filtered, idx) {
                Some(p) => {
                    if up {
                        if p < self.scroll_offset {
                            self.scroll_offset = p;
                        }
                    } else {
                        if self.visible_items <= p + 1 && p + 1 - self.visible_items
                            >= self.scroll_offset {
                            self.scroll_offset = p + 1 - self.visible_items + 1;
                        }
                    }
                },
                None => {},
            }
            FileSelectStep::Continue(true)
        } else if keysym == KEY_RETURN {
            self.return_pressed()
        } else if keysym == KEY_BACKSPACE {
            self.up()
        } else if keysym == KEY_ESCAPE {
            FileSelectStep::Finish(FileSelectResult::Closed)
        } else {
            FileSelectStep::Continue(false)
        }
    }

    /// The scroll wheel moves the list by three lines, not past its ends.
    pub fn scroll(&mut self, dir: ScrollDirection) -> (redraw: bool)
        requires
            old(self).wf(),
        ensures
            final(self).wf(),
            *final(self) == (FileSelectState {
                scroll_offset: final(self).scroll_offset,
                ..*old(self)
            }),
            ({
                let o = *old(self);
                match dir {
                    ScrollDirection::Up => if o.scroll_offset > 0 {
                        redraw && final(self).scroll_offset == (if o.scroll_offset >= 3 {
                            o.scroll_offset - 3
                        } else {
                            0
                        })
                    } else {
                        !redraw && final(self).scroll_offset == o.scroll_offset
                    },
                    ScrollDirection::Down => if o.scroll_offset + o.visible_items
                        < o.filtered@.len() {
                        redraw && final(self).scroll_offset == (if o.scroll_offset + 3
                            < max_scroll(o) {
                            o.scroll_offset + 3
                        } else {
                            max_scroll(o)
                        })
                    } else {
                        !redraw && final(self).scroll_offset == o.scroll_offset
                    },
                    _ => !redraw && final(self).scroll_offset == o.scroll_offset,
                }
            }),
    {
        match dir {
            ScrollDirection::Up => {
                if self.scroll_offset > 0 {
                    self.scroll_offset = if self.scroll_offset >= 3 {
                        self.scroll_offset - 3
                    } else {
                        0
                    };
                    true
                } else {
                    false
                }
            },
            ScrollDirection::Down => {
                let n = self.filtered.len();
                if self.scroll_offset < n && self.visible_items < n - self.scroll_offset {
                    let m = n - self.visible_items;
                    self.scroll_offset = if m - self.scroll_offset > 3 {
                        self.scroll_offset + 3
                    } else {
                        m
                    };
                    true
                } else {
                    false
                }
            },
            _ => false,
        }
    }

    /// Dragging the scrollbar thumb to `offset`: where the list can scroll,
    /// it scrolls there, at most to its end.
    pub fn drag_to(&mut self, offset: usize) -> (redraw: bool)
        requires
            old(self).wf(),
        ensures
            final(self).wf(),
            *final(self) == (FileSelectState {
                scroll_offset: final(self).scroll_offset,
                ..*old(self)
            }),
            redraw == (max_scroll(*old(self)) > 0),
            final(self).scroll_offset == (if max_scroll(*old(self)) > 0 {
                if offset < max_scroll(*old(self)) {
                    offset as int
                } else {
                    max_scroll(*old(self))
                }
            } else {
                old(self).scroll_offset as int
            }),
    {
        let n = self.filtered.len();
        if n > self.visible_items {
            let m = n - self.visible_items;
            self.scroll_offset = if offset < m {
                offset
            } else {
                m
            };
            true
        } else {
            false
        }
    }

    /// Feeds a window event to the search field; when its text changes,
    /// the list is filtered by the new text (lower-cased), the selection is
    /// cleared and the list scrolled to the top. Returns whether the field
    /// changed.
    pub fn search_event(&mut self, event: &WindowEvent) -> (redraw: bool)
        requires
            old(self).wf(),
        ensures
            final(self).wf(),
            ({
                let (v, changed) = event_spec(old(self).search@, *event);
                &&& final(self).search@ == v
                &&& redraw == changed
                &&& if changed && lowercase(v.text) != old(self).search_text@ {
                    &&& final(self).search_text@ == lowercase(v.text)
                    &&& final(self).selected@.len() == 0
                    &&& final(self).scroll_offset == 0
                    &&& *final(self) == (FileSelectState {
                        search: final(self).search,
                        search_text: final(self).search_text,
                        filtered: final(self).filtered,
                        selected: final(self).selected,
                        scroll_offset: 0,
                        ..*old(self)
                    })
                } else {
                    *final(self) == (FileSelectState { search: final(self).search, ..*old(self) })
                }
            }),
    {
        if self.search.process_event(event) {
            let text = self.search.text();
            let new_search = to_lowercase(text.as_str());
            let a = chars_of(new_search.as_str());
            let b = chars_of(self.search_text.as_str());
            if !crate::strutil::chars_eq(a.as_slice(), b.as_slice()) {
                let filtered = update_filtered(&self.entries, new_search.as_str(), &self.filters);
                self.search_text = new_search;
                self.filtered = filtered;
                self.selected = Vec::new();
                self.scroll_offset = 0;
            }
            true
        } else {
            false
        }
    }
}


impl FileSelectBuilder {
    /// The directory the dialog opens in: the start path set, else the home
    /// directory `home` where known, else "/".
    pub fn start_dir_from(&self, home: Option<String>) -> (r: String)
        ensures
            r@ == (match self@.start_path {
                Some(p) => p,
                None => match home {
                    Some(h) => h@,
                    None => "/"@,
                },
            }),
    {
        match &self.start_path {
            Some(p) => p.clone(),
            None => match home {
                Some(h) => h,
                None => "/".to_owned(),
            },
        }
    }

    /// The directory the dialog opens in, with the home directory taken
    /// from the environment.
    pub fn start_dir(&self) -> (r: String)
        ensures
            self@.start_path matches Some(p) ==> r@ == p,
    {
        self.start_dir_from(home_dir())
    }

    /// The dialog as it opens in `start`, whose entries in reading order are
    /// `raw`: `start` is the only place in the history, the list shows its
    /// listing, nothing is selected, hovered or searched for, hidden files
    /// are hidden, and the search field is empty.
    pub fn initial_state(
        &self,
        start: String,
        raw: Vec<DirEntry>,
        places: Vec<String>,
        drives: Vec<String>,
        visible_items: usize,
        search_width: u32,
    ) -> (s: FileSelectState)
        requires
            raw@.len() + 4 <= usize::MAX,
        ensures
            s.wf(),
            views(s.history@) == seq![start@],
            s.history_index == 0,
            s.current_dir@ == start@,
            exists|od: Seq<usize>, of: Seq<usize>|
                {
                    &&& ordered_group(entries_view(raw@), od, true, self@.directory, false)
                    &&& ordered_group(entries_view(raw@), of, false, self@.directory, false)
                    &&& entries_view(s.entries@) == listing(
                        entries_view(raw@),
                        path_parent(start@),
                        od,
                        of,
                    )
                },
            s.selected@.len() == 0,
            s.scroll_offset == 0,
            s.visible_items == visible_items,
            !s.show_hidden,
            s.search_text@.len() == 0,
            s.search@ == (TextInputView {
                x: 0,
                y: 0,
                width: search_width,
                height: INPUT_HEIGHT,
                text: Seq::empty(),
                cursor: 0,
                focused: false,
                password: false,
                placeholder: "Search..."@,
                submitted: false,
            }),
            s.directory == self@.directory,
            s.multiple == self@.multiple,
            filters_view(s.filters@) == self@.filters,
            s.places == places,
            s.drives == drives,
            s.hovered_place.is_none(),
            s.hovered_drive.is_none(),
            s.hovered_entry.is_none(),
    {
        let mut history: Vec<String> = Vec::new();
        history.push(start.clone());
        assert(views(history@) =~= seq![start@]);
        let mut filters: Vec<FileFilter> = Vec::new();
        let mut i: usize = 0;
        while i < self.filters.len()
            invariant
                i <= self.filters@.len(),
                filters_view(filters@) == filters_view(self.filters@).take(i as int),
            decreases self.filters.len() - i,
        {
            let f = &self.filters[i];
            let mut pats: Vec<String> = Vec::new();
            let mut k: usize = 0;
            while k < f.patterns.len()
                invariant
                    k <= f.patterns@.len(),
                    views(pats@) == views(f.patterns@).take(k as int),
                decreases f.patterns.len() - k,
            {
                let p = f.patterns[k].clone();
                let ghost p0 = pats@;
                pats.push(p);
                proof {
                    lemma_strings_view_push(p0, p);
                }
                assert(views(pats@) =~= views(f.patterns@).take(k + 1));
                k += 1;
            }
            assert(views(f.patterns@).take(f.patterns@.len() as int) =~= views(
                f.patterns@,
            ));
            let nf = FileFilter { name: f.name.clone(), patterns: pats };
            let ghost q0 = filters@;
            filters.push(nf);
            assert(filters_view(filters@) =~= filters_view(self.filters@).take(i + 1)) by {
                assert(filters_view(filters@) =~= filters_view(q0).push(views(pats@)));
            }
            i += 1;
        }
        assert(filters_view(self.filters@).take(self.filters@.len() as int) =~= filters_view(
            self.filters@,
        ));
        let mut s = FileSelectState {
            directory: self.directory,
            multiple: self.multiple,
            filters,
            current_dir: start,
            history,
            history_index: 0,
            entries: Vec::new(),
            filtered: Vec::new(),
            selected: Vec::new(),
            scroll_offset: 0,
            visible_items,
            show_hidden: false,
            search_text: String::new(),
            search: TextInput::new(search_width).with_placeholder("Search..."),
            places,
            drives,
            hovered_place: None,
            hovered_drive: None,
            hovered_entry: None,
        };
        s.load(raw);
        s
    }
}


// ---------------------------------------------------------------------------
// Drives
/// Kind of a mounted drive, by which its icon is drawn.
#[derive(Debug, Clone, Copy, PartialEq, Eq, Structural)]
pub enum MountIcon {
    UsbDrive,
    ExternalHdd,
    Network,
    Optical,
    Generic,
}

/// A mounted drive of the sidebar.
#[derive(Debug, Clone)]
pub struct MountPoint {
    pub device: String,
    pub mount_point: String,
    pub label: Option<String>,
}

/// The key of a `KEY=VALUE` word: the text before the first '='.
pub open spec fn key_of(w: Seq<char>) -> Seq<char> {
    w.take(index_of(w, '=') as int)
}

/// The value of a `KEY=VALUE` word: the text after the first '=', up to a
/// second '=' if there is one; none without '='.
pub open spec fn value_of(w: Seq<char>) -> Option<Seq<char>> {
    let k = index_of(w, '=');
    if k < w.len() {
        let rest = w.skip(k + 1 as int);
        Some(rest.take(index_of(rest, '=') as int))
    } else {
        None
    }
}

/// The source device and the mount target a mount-table line names: the
/// values of its last `SRC` and last `TARGET` words.
pub open spec fn line_fields(ws: Seq<Seq<char>>) -> (Option<Seq<char>>, Option<Seq<char>>)
    decreases ws.len(),
{
    if ws.len() == 0 {
        (None, None)
    } else {
        let (d, m) = line_fields(ws.drop_last());
        let w = ws.last();
        if key_of(w) == "SRC"@ {
            (value_of(w), m)
        } else if key_of(w) == "TARGET"@ {
            (d, value_of(w))
        } else {
            (d, m)
        }
    }
}

/// The (device, mount point) pairs of the lines that name both, the root
/// file system left out.
pub open spec fn mounts_of(ls: Seq<Seq<char>>) -> Seq<(Seq<char>, Seq<char>)>
    decreases ls.len(),
{
    if ls.len() == 0 {
        Seq::empty()
    } else {
        let r = mounts_of(ls.drop_last());
        match line_fields(words(ls.last())) {
            (Some(d), Some(m)) => if m != "/"@ {
                r.push((d, m))
            } else {
                r
            },
            _ => r,
        }
    }
}

pub open spec fn pairs_view(v: Seq<(String, String)>) -> Seq<(Seq<char>, Seq<char>)> {
    v.map_values(|p: (String, String)| (p.0@, p.1@))
}

pub open spec fn opt_chars_view(o: Option<Vec<char>>) -> Option<Seq<char>> {
    match o {
        Some(v) => Some(v@),
        None => None,
    }
}

fn word_value(w: &Vec<char>) -> (r: Option<Vec<char>>)
    ensures
        opt_chars_view(r) == value_of(w@),
{
    let k = find_char(w.as_slice(), '=');
    if k < w.len() {
        let rest = sub_chars(w.as_slice(), k + 1, w.len());
        assert(rest@ =~= w@.skip(k + 1));
        let k2 = find_char(rest.as_slice(), '=');
        let v = sub_chars(rest.as_slice(), 0, k2);
        assert(v@ =~= rest@.take(k2 as int));
        Some(v)
    } else {
        None
    }
}

/// The mounted drives a mount table (such as `/run/mount/utab`) lists, as
/// (device, mount point) pairs (see `mounts_of`).
pub fn parse_mount_table(content: &str) -> (r: Vec<(String, String)>)
    ensures
        pairs_view(r@) == mounts_of(lines(content@)),
{
    let text = chars_of(content);
    let ls = split_lines(text.as_slice());
    let ghost lv = ls@.map_values(|w: Vec<char>| w@);
    let src = chars_of("SRC");
    let target = chars_of("TARGET");
    let root = chars_of("/");
    let mut r: Vec<(String, String)> = Vec::new();
    let mut i: usize = 0;
    while i < ls.len()
        invariant
            i <= ls@.len(),
            lv == ls@.map_values(|w: Vec<char>| w@),
            lv == lines(content@),
            src@ == "SRC"@,
            target@ == "TARGET"@,
            root@ == "/"@,
            pairs_view(r@) == mounts_of(lv.take(i as int)),
        decreases ls.len() - i,
    {
        let line = &ls[i];
        let ws = split_words(line.as_slice());
        let ghost wv = ws@.map_values(|w: Vec<char>| w@);
        let mut device: Option<Vec<char>> = None;
        let mut mount: Option<Vec<char>> = None;
        let mut k: usize = 0;
        while k < ws.len()
            invariant
                k <= ws@.len(),
                wv == ws@.map_values(|w: Vec<char>| w@),
                src@ == "SRC"@,
                target@ == "TARGET"@,
                (opt_chars_view(device), opt_chars_view(mount)) == line_fields(wv.take(k as int)),
            decreases ws.len() - k,
        {
            let w = &ws[k];
            assert(wv.take(k + 1).drop_last() =~= wv.take(k as int));
            assert(wv.take(k + 1).last() == w@);
            let key_end = find_char(w.as_slice(), '=');
            let key = sub_chars(w.as_slice(), 0, key_end);
            assert(key@ =~= key_of(w@));
            if chars_eq(key.as_slice(), src.as_slice()) {
                device = word_value(w);
            } else if chars_eq(key.as_slice(), target.as_slice()) {
                mount = word_value(w);
            }
            k += 1;
        }
        assert(wv.take(ws.len() as int) =~= wv);
        assert(lv.take(i + 1).drop_last() =~= lv.take(i as int));
        assert(lv.take(i + 1).last() == line@);
        match (device, mount) {
            (Some(d), Some(m)) => {
                if !chars_eq(m.as_slice(), root.as_slice()) {
                    let pair = (string_from_chars(d.as_slice()), string_from_chars(m.as_slice()));
                    let ghost r0 = r@;
                    r.push(pair);
                    assert(pairs_view(r@) =~= pairs_view(r0).push((pair.0@, pair.1@)));
                }
            },
            _ => {},
        }
        i += 1;
    }
    assert(lv.take(ls.len() as int) =~= lv);
    r
}

/// The label of a volume from what `lsblk -o LABEL -n` printed for it: the
/// output trimmed, none when that is empty.
pub fn volume_label(output: &str) -> (r: Option<String>)
    ensures
        match r {
            Some(l) => l@ == trim(output@) && l@.len() > 0,
            None => trim(output@).len() == 0,
        },
{
    let t = trim_chars(chars_of(output).as_slice());
    if t.len() == 0 {
        None
    } else {
        Some(string_from_chars(t.as_slice()))
    }
}

/// Whether a device is a USB drive: it lies under `/dev/` and its name
/// holds the target of one of the `usb-*` links of `/dev/disk/by-id`.
pub open spec fn usb_device(device: Seq<char>, usb_targets: Seq<Seq<char>>) -> bool {
    is_prefix(device, "/dev/"@) && exists|k: int|
        0 <= k < usb_targets.len() && is_infix(device, #[trigger] usb_targets[k])
}

/// Tests a device against the targets of the `usb-*` links (see
/// `usb_device`).
pub fn is_usb_device(device: &str, usb_targets: &Vec<String>) -> (r: bool)
    ensures
        r == usb_device(device@, views(usb_targets@)),
{
    let d = chars_of(device);
    let dev = chars_of("/dev/");
    if !starts_with_chars(d.as_slice(), dev.as_slice()) {
        return false;
    }
    let ghost tv = views(usb_targets@);
    let mut k: usize = 0;
    while k < usb_targets.len()
        invariant
            k <= usb_targets@.len(),
            tv == views(usb_targets@),
            d@ == device@,
            is_prefix(device@, "/dev/"@),
            forall|j: int| 0 <= j < k ==> !is_infix(device@, #[trigger] tv[j]),
        decreases usb_targets.len() - k,
    {
        let t = chars_of(usb_targets[k].as_str());
        if contains_chars(d.as_slice(), t.as_slice()) {
            assert(is_infix(device@, tv[k as int]));
            return true;
        }
        k += 1;
    }
    false
}

/// The icon of a drive: USB drives, optical drives (`/dev/sr*`,
/// `/dev/scd*`), NVMe and MMC devices, and the rest.
pub open spec fn mount_icon_spec(device: Seq<char>, is_usb: bool) -> MountIcon {
    if is_usb {
        MountIcon::UsbDrive
    } else if is_prefix(device, "/dev/sr"@) || is_prefix(device, "/dev/scd"@) {
        MountIcon::Optical
    } else if is_prefix(device, "/dev/nvme"@) || is_prefix(device, "/dev/mmc"@) {
        MountIcon::ExternalHdd
    } else {
        MountIcon::Generic
    }
}

/// Chooses a drive's icon (see `mount_icon_spec`).
pub fn mount_icon(device: &str, is_usb: bool) -> (r: MountIcon)
    ensures
        r == mount_icon_spec(device@, is_usb),
{
    if is_usb {
        return MountIcon::UsbDrive;
    }
    let d = chars_of(device);
    if starts_with_chars(d.as_slice(), chars_of("/dev/sr").as_slice()) || starts_with_chars(
        d.as_slice(),
        chars_of("/dev/scd").as_slice(),
    ) {
        return MountIcon::Optical;
    }
    if starts_with_chars(d.as_slice(), chars_of("/dev/nvme").as_slice()) || starts_with_chars(
        d.as_slice(),
        chars_of("/dev/mmc").as_slice(),
    ) {
        return MountIcon::ExternalHdd;
    }
    MountIcon::Generic
}

/// The text after the last `c` in `s`, or all of `s` without one.
pub open spec fn after_last(s: Seq<char>, c: char) -> Seq<char>
    decreases s.len(),
{
    if s.len() == 0 {
        s
    } else if s.last() == c {
        Seq::empty()
    } else {
        after_last(s.drop_last(), c).push(s.last())
    }
}

/// The color of a file's icon, by its lower-cased extension.
pub open spec fn file_color_spec(ext: Seq<char>) -> Rgba {
    if ext == "rs"@ {
        opaque(220, 120, 70)
    } else if ext == "py"@ {
        opaque(70, 130, 180)
    } else if ext == "js"@ || ext == "ts"@ {
        opaque(240, 220, 80)
    } else if ext == "html"@ || ext == "htm"@ {
        opaque(220, 80, 50)
    } else if ext == "css"@ {
        opaque(80, 120, 200)
    } else if ext == "json"@ || ext == "yaml"@ || ext == "yml"@ || ext == "toml"@ {
        opaque(150, 150, 150)
    } else if ext == "md"@ || ext == "txt"@ {
        opaque(180, 180, 180)
    } else if ext == "png"@ || ext == "jpg"@ || ext == "jpeg"@ || ext == "gif"@ || ext == "svg"@ {
        opaque(100, 180, 100)
    } else {
        opaque(160, 160, 160)
    }
}

fn is_one_of(e: &Vec<char>, a: &str, b: &str) -> (r: bool)
    ensures
        r == (e@ == a@ || e@ == b@),
{
    chars_eq(e.as_slice(), chars_of(a).as_slice()) || chars_eq(e.as_slice(), chars_of(b).as_slice())
}

/// The color of the icon drawn for a file named `name`: by the
/// lower-cased text after its last dot.
pub fn file_icon_color(name: &str) -> (r: Rgba)
    ensures
        r == file_color_spec(lowercase(after_last(name@, '.'))),
{
    let n = chars_of(name);
    let mut start: usize = n.len();
    assert(n@.take(start as int) =~= n@);
    assert(n@.skip(start as int) =~= Seq::<char>::empty());
    assert(after_last(n@, '.') + Seq::<char>::empty() =~= after_last(n@, '.'));
    while start > 0 && n[start - 1] != '.'
        invariant
            start <= n@.len(),
            n@ == name@,
            after_last(name@, '.') == after_last(n@.take(start as int), '.') + n@.skip(
                start as int,
            ),
        decreases start,
    {
        assert(n@.take(start as int).drop_last() =~= n@.take(start - 1));
        assert(n@.skip(start - 1) =~= seq![n@[start - 1]] + n@.skip(start as int));
        assert(after_last(n@.take(start as int), '.') =~= after_last(n@.take(start - 1), '.').push(
            n@[start - 1],
        ));
        start -= 1;
    }
    proof {
        if start == 0 {
            assert(n@.take(0) =~= Seq::<char>::empty());
        } else {
            assert(n@.take(start as int).last() == '.');
        }
        assert(after_last(name@, '.') =~= n@.skip(start as int));
    }
    let ext_chars = sub_chars(n.as_slice(), start, n.len());
    assert(ext_chars@ =~= n@.skip(start as int));
    let ext = chars_of(to_lowercase(string_from_chars(ext_chars.as_slice()).as_str()).as_str());
    if is_one_of(&ext, "rs", "rs") {
        rgb(220, 120, 70)
    } else if is_one_of(&ext, "py", "py") {
        rgb(70, 130, 180)
    } else if is_one_of(&ext, "js", "ts") {
        rgb(240, 220, 80)
    } else if is_one_of(&ext, "html", "htm") {
        rgb(220, 80, 50)
    } else if is_one_of(&ext, "css", "css") {
        rgb(80, 120, 200)
    } else if is_one_of(&ext, "json", "yaml") || is_one_of(&ext, "yml", "toml") {
        rgb(150, 150, 150)
    } else if is_one_of(&ext, "md", "txt") {
        rgb(180, 180, 180)
    } else if is_one_of(&ext, "png", "jpg") || is_one_of(&ext, "jpeg", "gif") || is_one_of(
        &ext,
        "svg",
        "svg",
    ) {
        rgb(100, 180, 100)
    } else {
        rgb(160, 160, 160)
    }
}


// ---------------------------------------------------------------------------
// Laws
/// The listing of a directory is determined by what was read from it: any
/// two orders of its directories and files that meet the listing's
/// contract give the same listing.
pub proof fn law_listing_is_determined(
    raw: Seq<EntryView>,
    parent: Option<Seq<char>>,
    dirs_only: bool,
    show_hidden: bool,
    od1: Seq<usize>,
    of1: Seq<usize>,
    od2: Seq<usize>,
    of2: Seq<usize>,
)
    requires
        ordered_group(raw, od1, true, dirs_only, show_hidden),
        ordered_group(raw, of1, false, dirs_only, show_hidden),
        ordered_group(raw, od2, true, dirs_only, show_hidden),
        ordered_group(raw, of2, false, dirs_only, show_hidden),
    ensures
        listing(raw, parent, od1, of1) == listing(raw, parent, od2, of2),
{
    lemma_group_unique(raw, od1, od2, true, dirs_only, show_hidden);
    lemma_group_unique(raw, of1, of2, false, dirs_only, show_hidden);
}

proof fn lemma_group_unique(
    raw: Seq<EntryView>,
    o1: Seq<usize>,
    o2: Seq<usize>,
    want_dir: bool,
    dirs_only: bool,
    show_hidden: bool,
)
    requires
        ordered_group(raw, o1, want_dir, dirs_only, show_hidden),
        ordered_group(raw, o2, want_dir, dirs_only, show_hidden),
    ensures
        o1 == o2,
{
    assert(o1.to_set() =~= o2.to_set()) by {
        assert forall|z: usize| o1.to_set().contains(z) implies o2.to_set().contains(z) by {
            let k = choose|k: int| 0 <= k < o1.len() && o1[k] == z;
            assert(in_group(raw[o1[k] as int], want_dir, dirs_only, show_hidden));
            assert(in_group(raw[z as int], want_dir, dirs_only, show_hidden));
        }
        assert forall|z: usize| o2.to_set().contains(z) implies o1.to_set().contains(z) by {
            let k = choose|k: int| 0 <= k < o2.len() && o2[k] == z;
            assert(in_group(raw[o2[k] as int], want_dir, dirs_only, show_hidden));
            assert(in_group(raw[z as int], want_dir, dirs_only, show_hidden));
        }
    }
    assert(sort_keys(raw).len() == raw.len());
    law_stable_order_unique(o1, o2, sort_keys(raw));
}

/// In a listing, directories come before files: past the first file line
/// there is no directory.
pub proof fn law_directories_before_files(
    raw: Seq<EntryView>,
    parent: Option<Seq<char>>,
    dirs_only: bool,
    show_hidden: bool,
    od: Seq<usize>,
    of: Seq<usize>,
    a: int,
    b: int,
)
    requires
        ordered_group(raw, od, true, dirs_only, show_hidden),
        ordered_group(raw, of, false, dirs_only, show_hidden),
        0 <= a < b < listing(raw, parent, od, of).len(),
        !listing(raw, parent, od, of)[a].is_dir,
    ensures
        !listing(raw, parent, od, of)[b].is_dir,
{
    let p = parent_line(parent);
    let l = listing(raw, parent, od, of);
    let n = p.len() + od.len();
    if a < p.len() {
        assert(l[a] == p[a]);
    } else if a < n {
        assert(l[a] == raw[od[a - p.len()] as int]);
    }
    assert(l[b] == raw[of[b - n] as int]);
}

/// A directory is always listed, whatever the search text and the filters.
pub proof fn law_directories_always_listed(
    entries: Seq<EntryView>,
    search: Seq<char>,
    filters: Seq<Seq<Seq<char>>>,
    i: int,
)
    requires
        0 <= i < entries.len() <= usize::MAX,
        entries[i].is_dir,
    ensures
        passing(entries, entries.len() as nat, search, filters).contains(i as usize),
{
    lemma_passing(entries, entries.len() as nat, search, filters);
}

proof fn lemma_without_absent(s: Seq<usize>, x: usize)
    requires
        !s.contains(x),
    ensures
        without(s, x) == s,
    decreases s.len(),
{
    if s.len() > 0 {
        let d = s.drop_last();
        if d.contains(x) {
            let k = choose|k: int| 0 <= k < d.len() && d[k] == x;
            assert(s[k] == x);
        }
        lemma_without_absent(d, x);
        assert(s =~= d.push(s.last()));
    }
}

/// Clicking an entry twice in multiple mode selects the same entries as
/// before; when it was not selected, the selection is exactly as it was.
pub proof fn law_toggle_twice(s: Seq<usize>, x: usize, n: int)
    requires
        distinct_below(s, n),
        x < n,
    ensures
        toggled(toggled(s, x), x).to_set() == s.to_set(),
        !s.contains(x) ==> toggled(toggled(s, x), x) == s,
{
    if s.contains(x) {
        lemma_without(s, x, n);
        let w = without(s, x);
        assert(toggled(toggled(s, x), x) == w.push(x));
        assert(w.push(x).to_set() =~= s.to_set()) by {
            assert forall|y: usize| w.push(x).to_set().contains(y) <==> s.to_set().contains(y) by {
                if y == x {
                    assert(w.push(x)[w.len() as int] == x);
                } else {
                    if w.push(x).contains(y) {
                        let k = choose|k: int| 0 <= k < w.len() + 1 && w.push(x)[k] == y;
                        assert(w[k] == y);
                    }
                    if w.contains(y) {
                        let k = choose|k: int| 0 <= k < w.len() && w[k] == y;
                        assert(w.push(x)[k] == y);
                    }
                }
            }
        }
    } else {
        let t = s.push(x);
        assert(t[s.len() as int] == x);
        assert(t.contains(x));
        assert(t.drop_last() =~= s);
        lemma_without_absent(s, x);
        assert(without(t, x) == without(s, x));
    }
}

/// Creates a new file selection dialog builder.
pub fn file_select() -> (r: FileSelectBuilder)
    ensures
        r@ == default_file_select(),
{
    FileSelectBuilder::new()
}


/// The paths of the selected entries that are files, in selection order:
/// the selection filtered to files, each taken by its path.
pub open spec fn paths_of_selected_files(entries: Seq<EntryView>, sel: Seq<usize>) -> Seq<Seq<char>> {
    sel.filter(|i: usize| !entries[i as int].is_dir).map_values(|i: usize| entries[i as int].path)
}

proof fn lemma_file_paths_filtered(entries: Seq<EntryView>, sel: Seq<usize>)
    ensures
        file_paths(entries, sel) == paths_of_selected_files(entries, sel),
    decreases sel.len(),
{
    if sel.len() > 0 {
        lemma_file_paths_filtered(entries, sel.drop_last());
        let p = |i: usize| !entries[i as int].is_dir;
        let f = |i: usize| entries[i as int].path;
        let rest = sel.drop_last().filter(p);
        sel.drop_last().lemma_filter_push(sel.last(), p);
        assert(sel.drop_last().push(sel.last()) =~= sel);
        if p(sel.last()) {
            assert(sel.filter(p) == rest.push(sel.last()));
            assert(rest.push(sel.last()).map_values(f) =~= rest.map_values(f).push(f(sel.last())));
        } else {
            assert(sel.filter(p) == rest);
        }
    }
}

/// What the OK button gives, for every state of the dialog:
/// - in multiple mode with a selection, the paths of the selected files in
///   selection order, or nothing when no file is selected;
/// - otherwise, with a selection, the path of the first selected entry when
///   it is of the kind being chosen (a directory in directory mode, a file
///   otherwise), else nothing;
/// - with no selection, the current directory in directory mode, else
///   nothing.
pub proof fn law_ok_button(s: FileSelectState)
    requires
        s.wf(),
    ensures
        ({
            let ev = entries_view(s.entries@);
            let sel = s.selected@;
            let files = paths_of_selected_files(ev, sel);
            &&& s.multiple && sel.len() > 0 ==> ok_step(s) == (if files.len() > 0 {
                StepView::SelectedMany(files)
            } else {
                StepView::Continue(false)
            })
            &&& !s.multiple && sel.len() > 0 && ev[sel[0] as int].is_dir == s.directory ==> ok_step(s)
                == StepView::Selected(ev[sel[0] as int].path)
            &&& !s.multiple && sel.len() > 0 && ev[sel[0] as int].is_dir != s.directory ==> ok_step(s)
                == StepView::Continue(false)
            &&& sel.len() == 0 && s.directory ==> ok_step(s) == StepView::Selected(s.current_dir@)
            &&& sel.len() == 0 && !s.directory ==> ok_step(s) == StepView::Continue(false)
        }),
{
    lemma_file_paths_filtered(entries_view(s.entries@), s.selected@);
}

/// What Enter in the list gives, for every state of the dialog:
/// - in multiple mode with a selection, as the OK button;
/// - otherwise, with a selection, a visit to the first selected entry when
///   it is a directory, that entry's path when it is a file and files are
///   being chosen, else nothing;
/// - with no selection, nothing.
pub proof fn law_enter_key(s: FileSelectState)
    requires
        s.wf(),
    ensures
        ({
            let ev = entries_view(s.entries@);
            let sel = s.selected@;
            let files = paths_of_selected_files(ev, sel);
            &&& s.multiple && sel.len() > 0 ==> return_step(s) == (if files.len() > 0 {
                StepView::SelectedMany(files)
            } else {
                StepView::Continue(false)
            })
            &&& !s.multiple && sel.len() > 0 && ev[sel[0] as int].is_dir ==> return_step(s)
                == StepView::Visit(ev[sel[0] as int].path, true)
            &&& !s.multiple && sel.len() > 0 && !ev[sel[0] as int].is_dir ==> return_step(s) == (
            if s.directory {
                StepView::Continue(false)
            } else {
                StepView::Selected(ev[sel[0] as int].path)
            })
            &&& sel.len() == 0 ==> return_step(s) == StepView::Continue(false)
        }),
{
    lemma_file_paths_filtered(entries_view(s.entries@), s.selected@);
}


/// Up and Down in the list: with the first selected entry shown at line
/// `p`, Up moves to the entry one line above and Down to the one below,
/// staying put at the top and at the bottom; with no selection, or none
/// shown, both go to the first line. The selection then becomes that entry
/// alone, or, in multiple mode, gains it or loses it.
pub proof fn law_arrow_keys_in_list(f: Seq<usize>, sel: Seq<usize>, p: int, idx: usize, n: int)
    requires
        f.len() > 0,
        forall|a: int, b: int| 0 <= a < b < f.len() ==> f[a] != f[b],
        distinct_below(sel, n),
    ensures
        sel.len() > 0 && 0 <= p < f.len() && f[p] == sel[0] ==> up_target(f, sel) == (if p > 0 {
            f[p - 1]
        } else {
            sel[0]
        }) && down_target(f, sel) == (if p + 1 < f.len() {
            f[p + 1]
        } else {
            sel[0]
        }),
        sel.len() == 0 || !f.contains(sel[0]) ==> up_target(f, sel) == f[0] && down_target(f, sel)
            == f[0],
        moved_selection(sel, idx, false) == seq![idx],
        !sel.contains(idx) ==> moved_selection(sel, idx, true) == sel.push(idx),
        sel.contains(idx) ==> !moved_selection(sel, idx, true).contains(idx) && forall|y: usize|
            y != idx ==> (moved_selection(sel, idx, true).contains(y) <==> sel.contains(y)),
{
    if sel.len() > 0 && 0 <= p < f.len() && f[p] == sel[0] {
        assert(f.contains(sel[0]));
        let k = pos_in(f, sel[0]);
        assert(0 <= k < f.len() && f[k] == sel[0]);
        assert(k == p);
    }
    if sel.contains(idx) {
        lemma_without(sel, idx, n);
    }
}

} // verus!
