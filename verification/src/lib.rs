//! Simple GUI dialogs for shell scripts and command-line tools: the dialog
//! models, their event handling and the rules by which their results are
//! reported.

use vstd::prelude::*;

pub mod calendar;
pub mod color;
pub mod date;
pub mod entry;
pub mod events;
pub mod file_select;
pub mod forms;
pub mod list;
pub mod message;
pub mod order;
pub mod progress;
pub mod report;
pub mod scale;
pub mod strutil;
pub mod text_info;
pub mod text_input;

pub use calendar::{calendar, CalendarBuilder, CalendarResult};
pub use color::{Colors, Rgba, theme_dark, theme_light};
pub use entry::{entry, password, EntryBuilder, EntryResult};
pub use file_select::{file_select, FileFilter, FileSelectBuilder, FileSelectResult};
pub use forms::{forms, FormsBuilder, FormsResult};
pub use list::{list, ListBuilder, ListMode, ListResult};
pub use message::{
    error, info, message, question, warning, ButtonPreset, DialogResult, Icon, MessageBuilder,
};
pub use progress::{progress, ProgressBuilder, ProgressResult};
pub use scale::{scale, ScaleBuilder, ScaleResult};
pub use text_info::{text_info, TextInfoBuilder, TextInfoResult};

verus! {

} // verus!
