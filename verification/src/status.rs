//! The status of the store as a status bar shows it.

use vstd::prelude::*;
use vstd::string::StringExecFns;
use crate::number::{decimal, format_count};
use crate::record::MinimizedWindow;

verus! {

/// What a status bar shows of the store.
#[derive(Debug)]
pub struct Status {
    /// The text of the widget.
    pub text: String,
    /// The style class of the widget: `has-windows` or `empty`.
    pub class: String,
    /// The text shown when the pointer rests on the widget.
    pub tooltip: String,
}

/// The mathematical content of a `Status`.
pub struct StatusModel {
    pub text: Seq<char>,
    pub class: Seq<char>,
    pub tooltip: Seq<char>,
}

impl View for Status {
    type V = StatusModel;

    open spec fn view(&self) -> StatusModel {
        StatusModel { text: self.text@, class: self.class@, tooltip: self.tooltip@ }
    }
}

impl PartialEq for Status {
    fn eq(&self, other: &Self) -> (same: bool) {
        self.text == other.text && self.class == other.class && self.tooltip == other.tooltip
    }
}

impl vstd::std_specs::cmp::PartialEqSpecImpl for Status {
    open spec fn obeys_eq_spec() -> bool {
        true
    }

    open spec fn eq_spec(&self, other: &Self) -> bool {
        self@ == other@
    }
}

/// The status of a store of `count` records: the glyph of the widget with the
/// count where there are minimized windows, the glyph alone where there are
/// none.
pub open spec fn status_of(count: nat) -> StatusModel {
    if count > 0 {
        StatusModel {
            text: "\u{f0638} "@ + decimal(count as int),
            class: "has-windows"@,
            tooltip: decimal(count as int) + " minimized windows"@,
        }
    } else {
        StatusModel { text: "\u{f0638}"@, class: "empty"@, tooltip: "No minimized windows"@ }
    }
}

/// Reports the status of the store. The store is only read.
pub fn show_status(windows: &Vec<MinimizedWindow>) -> (status: Status)
    ensures
        status@ == status_of(windows.len() as nat),
{
    let count = windows.len();
    if count > 0 {
        let mut text = String::from_str("\u{f0638} ");
        text.append(format_count(count).as_str());
        let mut tooltip = format_count(count);
        tooltip.append(" minimized windows");
        Status { text, class: String::from_str("has-windows"), tooltip }
    } else {
        Status {
            text: String::from_str("\u{f0638}"),
            class: String::from_str("empty"),
            tooltip: String::from_str("No minimized windows"),
        }
    }
}

/// The line that a status bar reads: the three parts of the status as a JSON
/// object on one line.
pub open spec fn status_line(status: StatusModel) -> Seq<char> {
    "{\"text\":\""@ + status.text + "\",\"class\":\""@ + status.class + "\",\"tooltip\":\""@
        + status.tooltip + "\"}"@
}

/// Writes the line that a status bar reads.
pub fn render_status(status: &Status) -> (line: String)
    ensures
        line@ == status_line(status@),
{
    let mut line = String::from_str("{\"text\":\"");
    line.append(status.text.as_str());
    line.append("\",\"class\":\"");
    line.append(status.class.as_str());
    line.append("\",\"tooltip\":\"");
    line.append(status.tooltip.as_str());
    line.append("\"}");
    line
}

} // verus!
