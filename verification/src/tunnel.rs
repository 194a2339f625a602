//! The privileged tunnel tool as this program uses it: how it is called,
//! and how its answer to the probe is read.
//!
//! A configuration is always addressed by the full path of its file.

use crate::text::{find_first_token, first_token};
use vstd::prelude::*;

verus! {

/// What the tool is asked to do with a tunnel.
#[derive(Clone, Copy, Debug, PartialEq, Eq, Structural)]
pub enum Verb {
    /// Bring the tunnel up.
    Up,
    /// Bring the tunnel down.
    Down,
}

/// One call of the tool that changes a tunnel.  Its output is discarded and
/// its exit status is not looked at: what came of it shows in the next probe.
#[derive(Debug, PartialEq, Eq)]
pub struct Command {
    /// Whether the tunnel goes up or down.
    pub verb: Verb,
    /// The path of the configuration file of the tunnel.
    pub config_path: String,
}

/// A [`Command`] as plain values.
pub struct CommandView {
    pub verb: Verb,
    pub config_path: Seq<char>,
}

impl View for Command {
    type V = CommandView;

    open spec fn view(&self) -> CommandView {
        CommandView { verb: self.verb, config_path: self.config_path@ }
    }
}

/// The word by which the tool knows `verb`.
pub open spec fn verb_word(verb: Verb) -> Seq<char> {
    match verb {
        Verb::Up => "up"@,
        Verb::Down => "down"@,
    }
}

/// The command line that carries out `command`, program first.
pub open spec fn command_line(command: CommandView) -> Seq<Seq<char>> {
    seq!["sudo"@, "awg-quick"@, verb_word(command.verb), command.config_path]
}

/// The command line of the probe, program first.
pub open spec fn probe_line() -> Seq<Seq<char>> {
    seq!["sudo"@, "awg"@, "show"@, "interfaces"@]
}

/// The interface that the probe reports as up: the first token of its
/// output, if it ran to a successful end and printed one.
pub open spec fn active_interface_of(success: bool, output: Seq<char>) -> Option<Seq<char>> {
    if success {
        first_token(output)
    } else {
        None
    }
}

impl Command {
    /// The words of the command line, program first.
    pub fn words(&self) -> (line: Vec<String>)
        ensures
            line.deep_view() == command_line(self@),
    {
        let verb = match self.verb {
            Verb::Up => "up",
            Verb::Down => "down",
        };
        let mut line: Vec<String> = Vec::new();
        line.push("sudo".to_owned());
        line.push("awg-quick".to_owned());
        line.push(verb.to_owned());
        line.push(self.config_path.clone());
        assert(line.deep_view() =~= command_line(self@));
        line
    }
}

/// The words of the probe's command line, program first.  The probe's
/// errors are discarded and its output is captured.
pub fn probe_words() -> (line: Vec<String>)
    ensures
        line.deep_view() == probe_line(),
{
    let mut line: Vec<String> = Vec::new();
    line.push("sudo".to_owned());
    line.push("awg".to_owned());
    line.push("show".to_owned());
    line.push("interfaces".to_owned());
    assert(line.deep_view() =~= probe_line());
    line
}

/// Reads the answer of the probe.  `success` says whether the tool could be
/// started and exited with success, `output` is what it printed.  A probe
/// that failed, or printed nothing but white space, means that no tunnel is
/// up.
pub fn active_interface(success: bool, output: &str) -> (active: Option<String>)
    ensures
        active.deep_view() == active_interface_of(success, output@),
{
    if success {
        find_first_token(output)
    } else {
        None
    }
}

} // verus!
