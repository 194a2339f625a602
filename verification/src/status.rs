//! The status report that the status bar shows.

use vstd::prelude::*;
use vstd::string::StringExecFns;

verus! {

/// What the status bar is told about the tunnel.
#[derive(Debug, PartialEq, Eq)]
pub struct StatusReport {
    /// The short text on the bar: an icon and a name.
    pub text: String,
    /// The state tag by which the bar picks its format.
    pub alt: String,
    /// The longer text shown on hover.
    pub tooltip: String,
    /// The class tag by which the bar picks its style.
    pub class: String,
    /// How active the tunnel is, from 0 to 100.
    pub percentage: u8,
}

/// A [`StatusReport`] as plain text and numbers.
pub struct StatusReportView {
    pub text: Seq<char>,
    pub alt: Seq<char>,
    pub tooltip: Seq<char>,
    pub class: Seq<char>,
    pub percentage: u8,
}

impl View for StatusReport {
    type V = StatusReportView;

    open spec fn view(&self) -> StatusReportView {
        StatusReportView {
            text: self.text@,
            alt: self.alt@,
            tooltip: self.tooltip@,
            class: self.class@,
            percentage: self.percentage,
        }
    }
}

/// The report on a tunnel that is up on the interface `name`.
pub open spec fn connected_report(name: Seq<char>) -> StatusReportView {
    StatusReportView {
        text: "\u{f023} "@ + name,
        alt: "connected"@,
        tooltip: "AmneziaWG Connected: "@ + name,
        class: "connected"@,
        percentage: 100,
    }
}

/// The report on a tunnel that is down while `selected` is the selection.
pub open spec fn disconnected_report(selected: Seq<char>) -> StatusReportView {
    StatusReportView {
        text: "\u{f09c} "@ + selected,
        alt: "disconnected"@,
        tooltip: "AmneziaWG Disconnected. Selected: "@ + selected,
        class: "disconnected"@,
        percentage: 0,
    }
}

/// The report for an active interface, if there is one, and a selection.
pub open spec fn report_for(active: Option<Seq<char>>, selected: Seq<char>) -> StatusReportView {
    match active {
        Some(name) => connected_report(name),
        None => disconnected_report(selected),
    }
}

impl StatusReport {
    /// Composes the report for the interface that is up, if any, and the
    /// current selection.  The selection shows only while no tunnel is up.
    pub fn compose(active: Option<&str>, selected: &str) -> (report: StatusReport)
        ensures
            report@ == report_for(active.deep_view(), selected@),
    {
        match active {
            Some(name) => StatusReport {
                text: "\u{f023} ".to_owned().concat(name),
                alt: "connected".to_owned(),
                tooltip: "AmneziaWG Connected: ".to_owned().concat(name),
                class: "connected".to_owned(),
                percentage: 100,
            },
            None => StatusReport {
                text: "\u{f09c} ".to_owned().concat(selected),
                alt: "disconnected".to_owned(),
                tooltip: "AmneziaWG Disconnected. Selected: ".to_owned().concat(selected),
                class: "disconnected".to_owned(),
                percentage: 0,
            },
        }
    }

    /// Whether the report says that a tunnel is up.
    pub fn is_connected(&self) -> (up: bool)
        ensures
            up == (self@.percentage == 100),
    {
        self.percentage == 100
    }
}

} // verus!
