//! One invocation of the helper, as a dialogue with the world outside.
//!
//! A [`Session`] decides; its driver acts.  The driver asks the session for
//! its [`Request`], carries it out (probes the tunnel tool, reads the state
//! file, lists the configuration directory, ...) and hands the outcome back
//! as a [`Reply`], until the request is to exit.  Each mode is a straight
//! line of requests: none is asked twice, and what was learned from one
//! reply decides which request comes next.

use crate::configs::{available, available_configs, config_path, config_path_of, cycle_selection, cycled};
use crate::error::{failure_at, Error, Failure, FailureView};
use crate::state::{adopts_default, loaded, with_default, State};
use crate::status::{report_for, StatusReport, StatusReportView};
use crate::text::same_text;
use crate::tunnel::{active_interface, active_interface_of, Command, CommandView, Verb};
use vstd::prelude::*;

verus! {

/// What an invocation is for.
#[derive(Clone, Copy, Debug, PartialEq, Eq, Structural)]
pub enum Mode {
    /// Report the status and nothing else.
    Status,
    /// Bring the tunnel down if one is up, else bring the selected one up.
    Toggle,
    /// Move the selection to the next configuration.
    Next,
    /// Move the selection to the previous configuration.
    Previous,
}

/// The mode that the first argument of the command line asks for.  Without
/// an argument, and with one that is not recognised, the mode is to toggle.
pub open spec fn mode_for(argument: Option<Seq<char>>) -> Mode {
    match argument {
        Some(word) => if word == "--status"@ {
            Mode::Status
        } else if word == "next"@ {
            Mode::Next
        } else if word == "previous"@ {
            Mode::Previous
        } else {
            Mode::Toggle
        },
        None => Mode::Toggle,
    }
}

/// By how many places the selection moves in `mode`.
pub open spec fn direction_of(mode: Mode) -> int {
    match mode {
        Mode::Next => 1,
        Mode::Previous => -1,
        _ => 0,
    }
}

impl Mode {
    /// Reads the mode off the first argument of the command line, if there
    /// is one.
    pub fn parse(argument: Option<&str>) -> (mode: Mode)
        ensures
            mode == mode_for(argument.deep_view()),
    {
        match argument {
            Some(word) => if same_text(word, "--status") {
                Mode::Status
            } else if same_text(word, "next") {
                Mode::Next
            } else if same_text(word, "previous") {
                Mode::Previous
            } else {
                Mode::Toggle
            },
            None => Mode::Toggle,
        }
    }

    /// By how many places the selection moves in this mode.
    pub fn direction(&self) -> (places: i32)
        ensures
            places == direction_of(*self),
    {
        match self {
            Mode::Next => 1,
            Mode::Previous => -1,
            _ => 0,
        }
    }
}

/// Where the invocation finds its files.
#[derive(Debug, PartialEq, Eq)]
pub struct Settings {
    /// The directory that holds the tunnel configurations.
    pub config_dir: String,
    /// The path of the file that holds the selection.
    pub state_path: String,
}

/// [`Settings`] as plain text.
pub struct SettingsView {
    pub config_dir: Seq<char>,
    pub state_path: Seq<char>,
}

impl View for Settings {
    type V = SettingsView;

    open spec fn view(&self) -> SettingsView {
        SettingsView { config_dir: self.config_dir@, state_path: self.state_path@ }
    }
}

/// The configuration directory that is used when none is named.
pub open spec fn default_config_dir() -> Seq<char> {
    "/etc/amnezia/amneziawg"@
}

/// The configuration directory for an invocation whose environment names
/// `named`, or names none.
pub open spec fn config_dir_for(named: Option<Seq<char>>) -> Seq<char> {
    match named {
        Some(dir) => dir,
        None => default_config_dir(),
    }
}

impl Settings {
    /// The settings of an invocation: `named` is the configuration
    /// directory that its environment names, if it names one, and
    /// `state_path` the path of the state file.
    pub fn new(named: Option<String>, state_path: String) -> (settings: Settings)
        ensures
            settings@.config_dir == config_dir_for(named.deep_view()),
            settings@.state_path == state_path@,
    {
        let config_dir = match named {
            Some(dir) => dir,
            None => "/etc/amnezia/amneziawg".to_owned(),
        };
        Settings { config_dir, state_path }
    }
}

/// How far an invocation has come: what it is waiting for.
#[derive(Clone, Copy, Debug, PartialEq, Eq, Structural)]
pub enum Stage {
    /// Toggling: waiting for the probe that says whether a tunnel is up.
    ToggleProbe,
    /// Toggling: waiting for the stored selection.
    ToggleLoad,
    /// Toggling: waiting for the tunnel tool to bring a tunnel up or down.
    ToggleRun,
    /// Cycling: waiting for the listing of the configuration directory.
    CycleList,
    /// Cycling: waiting for the stored selection.
    CycleLoad,
    /// Cycling: waiting for the probe that says whether a tunnel is up.
    CycleProbe,
    /// Cycling: waiting for the new selection to be saved.
    CycleSave,
    /// Cycling: waiting for the tunnel that was up to be brought down.
    CycleDown,
    /// Cycling: waiting for the newly selected tunnel to be brought up.
    CycleUp,
    /// Reporting: waiting for the probe that says whether a tunnel is up.
    StatusProbe,
    /// Reporting: waiting for the stored selection.
    StatusLoad,
    /// Reporting: waiting for the listing of the configuration directory.
    StatusList,
    /// Reporting: waiting for the adopted default selection to be saved.
    StatusSave,
    /// Reporting: waiting for the report to be printed.
    StatusPrint,
    /// The invocation has come to a good end.
    Done,
    /// The invocation has failed.
    Failed(Error),
}

/// What the driver is to do next.
#[derive(Debug, PartialEq, Eq)]
pub enum Request {
    /// Run the probe and hand back a [`Reply::Probed`].
    Probe,
    /// Read the state file at `path` and hand back a [`Reply::Loaded`].
    LoadSelection { path: String },
    /// List the entries of the directory `dir` and hand back a
    /// [`Reply::Listed`].
    ListConfigs { dir: String },
    /// Write `contents` to the state file at `path`, creating the
    /// directories above it, and hand back a [`Reply::Saved`].
    SaveSelection { path: String, contents: String },
    /// Run the tunnel tool and hand back a [`Reply::Completed`], whatever
    /// came of the run.
    Run(Command),
    /// Print the report on one line and hand back a [`Reply::Completed`].
    Print(StatusReport),
    /// End the process: with success, or with the failure given, whose
    /// message is for the user.
    Exit(Result<(), Failure>),
}

/// A [`Request`] as plain values.
pub enum RequestView {
    Probe,
    LoadSelection { path: Seq<char> },
    ListConfigs { dir: Seq<char> },
    SaveSelection { path: Seq<char>, contents: Seq<char> },
    Run(CommandView),
    Print(StatusReportView),
    Exit(Result<(), FailureView>),
}

impl View for Request {
    type V = RequestView;

    open spec fn view(&self) -> RequestView {
        match self {
            Request::Probe => RequestView::Probe,
            Request::LoadSelection { path } => RequestView::LoadSelection { path: path@ },
            Request::ListConfigs { dir } => RequestView::ListConfigs { dir: dir@ },
            Request::SaveSelection { path, contents } => RequestView::SaveSelection {
                path: path@,
                contents: contents@,
            },
            Request::Run(command) => RequestView::Run(command@),
            Request::Print(report) => RequestView::Print(report@),
            Request::Exit(outcome) => RequestView::Exit(
                match outcome {
                    Ok(_) => Ok(()),
                    Err(failure) => Err(failure@),
                },
            ),
        }
    }
}

/// What came of a request.
#[derive(Debug, PartialEq, Eq)]
pub enum Reply {
    /// The probe was run.  `success` says whether the tool could be started
    /// and exited with success; `output` is what it printed.
    Probed { success: bool, output: String },
    /// The state file was read: its contents, or `None` if it is missing or
    /// unreadable.
    Loaded(Option<String>),
    /// The configuration directory was listed: the names of its entries, or
    /// `None` if it cannot be listed.
    Listed(Option<Vec<String>>),
    /// The state file was written, or could not be.
    Saved(bool),
    /// The tunnel tool was run, or the report was printed.
    Completed,
}

/// A [`Reply`] as plain values.
pub enum ReplyView {
    Probed { success: bool, output: Seq<char> },
    Loaded(Option<Seq<char>>),
    Listed(Option<Seq<Seq<char>>>),
    Saved(bool),
    Completed,
}

impl View for Reply {
    type V = ReplyView;

    open spec fn view(&self) -> ReplyView {
        match self {
            Reply::Probed { success, output } => ReplyView::Probed {
                success: *success,
                output: output@,
            },
            Reply::Loaded(contents) => ReplyView::Loaded(contents.deep_view()),
            Reply::Listed(names) => ReplyView::Listed(names.deep_view()),
            Reply::Saved(written) => ReplyView::Saved(*written),
            Reply::Completed => ReplyView::Completed,
        }
    }
}

/// A [`Session`] as plain values.
pub struct SessionView {
    /// What the invocation is for.
    pub mode: Mode,
    /// What it is waiting for.
    pub stage: Stage,
    /// Where it finds its files.
    pub settings: SettingsView,
    /// The interface that the last probe found up.
    pub active: Option<Seq<char>>,
    /// The selection as it stands.
    pub selected: Seq<char>,
    /// The working set as it was last listed.
    pub configs: Seq<Seq<char>>,
}

/// The working set that a listing stands for when reporting: a directory
/// that cannot be listed counts as one without configurations.
pub open spec fn available_or_none(listing: Option<Seq<Seq<char>>>) -> Seq<Seq<char>> {
    match listing {
        Some(names) => available(names),
        None => Seq::empty(),
    }
}

/// The session at the start of an invocation.
pub open spec fn start_of(mode: Mode, settings: SettingsView) -> SessionView {
    SessionView {
        mode,
        stage: match mode {
            Mode::Status => Stage::StatusProbe,
            Mode::Toggle => Stage::ToggleProbe,
            Mode::Next => Stage::CycleList,
            Mode::Previous => Stage::CycleList,
        },
        settings,
        active: None,
        selected: Seq::empty(),
        configs: Seq::empty(),
    }
}

/// What holds of every session that an invocation passes through: while a
/// new selection is being worked out there is a configuration to select, and
/// while a tunnel is being brought down it is known which one was up.
pub open spec fn consistent(s: SessionView) -> bool {
    &&& s.stage == Stage::CycleLoad || s.stage == Stage::CycleProbe ==> s.configs.len() > 0
    &&& s.stage == Stage::CycleDown ==> s.active is Some
}

/// The failure that ends an invocation on `error`: its message names the
/// configuration directory where that could not be listed, and the state
/// file where that could not be written.
pub open spec fn failure_of(settings: SettingsView, error: Error) -> FailureView {
    match error {
        Error::DirectoryUnreadable => failure_at(error, settings.config_dir),
        Error::StoreWriteFailure => failure_at(error, settings.state_path),
    }
}

/// The tunnel command for `identifier`.
pub open spec fn command_for(s: SessionView, verb: Verb, identifier: Seq<char>) -> CommandView {
    CommandView { verb, config_path: config_path_of(s.settings.config_dir, identifier) }
}

/// What the session `s` asks of its driver.
pub open spec fn request_of(s: SessionView) -> RequestView {
    match s.stage {
        Stage::ToggleProbe | Stage::CycleProbe | Stage::StatusProbe => RequestView::Probe,
        Stage::ToggleLoad | Stage::CycleLoad | Stage::StatusLoad => RequestView::LoadSelection {
            path: s.settings.state_path,
        },
        Stage::CycleList | Stage::StatusList => RequestView::ListConfigs {
            dir: s.settings.config_dir,
        },
        Stage::CycleSave | Stage::StatusSave => RequestView::SaveSelection {
            path: s.settings.state_path,
            contents: s.selected,
        },
        Stage::ToggleRun => match s.active {
            Some(name) => RequestView::Run(command_for(s, Verb::Down, name)),
            None => RequestView::Run(command_for(s, Verb::Up, s.selected)),
        },
        Stage::CycleDown => RequestView::Run(command_for(s, Verb::Down, s.active->0)),
        Stage::CycleUp => RequestView::Run(command_for(s, Verb::Up, s.selected)),
        Stage::StatusPrint => RequestView::Print(report_for(s.active, s.selected)),
        Stage::Done => RequestView::Exit(Ok(())),
        Stage::Failed(error) => RequestView::Exit(Err(failure_of(s.settings, error))),
    }
}

/// Whether `reply` is the kind of reply that a session at `stage` waits for.
pub open spec fn answers(stage: Stage, reply: ReplyView) -> bool {
    match stage {
        Stage::ToggleProbe | Stage::CycleProbe | Stage::StatusProbe => reply is Probed,
        Stage::ToggleLoad | Stage::CycleLoad | Stage::StatusLoad => reply is Loaded,
        Stage::CycleList | Stage::StatusList => reply is Listed,
        Stage::CycleSave | Stage::StatusSave => reply is Saved,
        Stage::ToggleRun | Stage::CycleDown | Stage::CycleUp | Stage::StatusPrint => reply
            is Completed,
        Stage::Done | Stage::Failed(_) => false,
    }
}

/// The session that follows `s` once its request has been answered with
/// `reply`.  A reply of another kind than the one waited for changes
/// nothing, nor does any reply once the invocation has ended.
pub open spec fn advance_of(s: SessionView, reply: ReplyView) -> SessionView {
    match (s.stage, reply) {
        (Stage::ToggleProbe, ReplyView::Probed { success, output }) => SessionView {
            stage: Stage::ToggleLoad,
            active: active_interface_of(success, output),
            ..s
        },
        (Stage::ToggleLoad, ReplyView::Loaded(contents)) => SessionView {
            stage: if s.active is Some || loaded(contents).len() > 0 {
                Stage::ToggleRun
            } else {
                Stage::StatusProbe
            },
            selected: loaded(contents),
            ..s
        },
        (Stage::ToggleRun, ReplyView::Completed) => SessionView { stage: Stage::StatusProbe, ..s },
        (Stage::CycleList, ReplyView::Listed(None)) => SessionView {
            stage: Stage::Failed(Error::DirectoryUnreadable),
            ..s
        },
        (Stage::CycleList, ReplyView::Listed(Some(names))) => SessionView {
            stage: if available(names).len() == 0 {
                Stage::Done
            } else {
                Stage::CycleLoad
            },
            configs: available(names),
            ..s
        },
        (Stage::CycleLoad, ReplyView::Loaded(contents)) => SessionView {
            stage: Stage::CycleProbe,
            selected: loaded(contents),
            ..s
        },
        (Stage::CycleProbe, ReplyView::Probed { success, output }) => SessionView {
            stage: Stage::CycleSave,
            active: active_interface_of(success, output),
            selected: cycled(s.configs, s.selected, direction_of(s.mode)),
            ..s
        },
        (Stage::CycleSave, ReplyView::Saved(written)) => SessionView {
            stage: if !written {
                Stage::Failed(Error::StoreWriteFailure)
            } else if s.active is Some {
                Stage::CycleDown
            } else {
                Stage::StatusProbe
            },
            ..s
        },
        (Stage::CycleDown, ReplyView::Completed) => SessionView { stage: Stage::CycleUp, ..s },
        (Stage::CycleUp, ReplyView::Completed) => SessionView { stage: Stage::StatusProbe, ..s },
        (Stage::StatusProbe, ReplyView::Probed { success, output }) => SessionView {
            stage: Stage::StatusLoad,
            active: active_interface_of(success, output),
            ..s
        },
        (Stage::StatusLoad, ReplyView::Loaded(contents)) => SessionView {
            stage: Stage::StatusList,
            selected: loaded(contents),
            ..s
        },
        (Stage::StatusList, ReplyView::Listed(listing)) => SessionView {
            stage: if adopts_default(s.selected, available_or_none(listing)) {
                Stage::StatusSave
            } else {
                Stage::StatusPrint
            },
            selected: with_default(s.selected, available_or_none(listing)),
            configs: available_or_none(listing),
            ..s
        },
        (Stage::StatusSave, ReplyView::Saved(_)) => SessionView { stage: Stage::StatusPrint, ..s },
        (Stage::StatusPrint, ReplyView::Completed) => SessionView { stage: Stage::Done, ..s },
        _ => s,
    }
}

/// One invocation in progress.
pub struct Session {
    mode: Mode,
    stage: Stage,
    settings: Settings,
    active: Option<String>,
    state: State,
    configs: Vec<String>,
}

impl View for Session {
    type V = SessionView;

    closed spec fn view(&self) -> SessionView {
        SessionView {
            mode: self.mode,
            stage: self.stage,
            settings: self.settings@,
            active: self.active.deep_view(),
            selected: self.state@,
            configs: self.configs.deep_view(),
        }
    }
}

impl Session {
    #[verifier::type_invariant]
    spec fn well_formed(self) -> bool {
        consistent(self@)
    }

    /// Begins an invocation in `mode`.
    pub fn start(mode: Mode, settings: Settings) -> (session: Session)
        ensures
            session@ == start_of(mode, settings@),
            consistent(session@),
    {
        let stage = match mode {
            Mode::Status => Stage::StatusProbe,
            Mode::Toggle => Stage::ToggleProbe,
            Mode::Next => Stage::CycleList,
            Mode::Previous => Stage::CycleList,
        };
        let session = Session {
            mode,
            stage,
            settings,
            active: None,
            state: State::new(),
            configs: Vec::new(),
        };
        assert(session@.selected =~= Seq::empty());
        assert(session@.configs =~= Seq::empty());
        session
    }

    /// What the invocation is waiting for.
    pub fn stage(&self) -> (stage: Stage)
        ensures
            stage == self@.stage,
    {
        self.stage
    }

    /// Whether the invocation has ended, well or badly.
    pub fn is_over(&self) -> (over: bool)
        ensures
            over == (self@.stage == Stage::Done || self@.stage is Failed),
            over == (request_of(self@) is Exit),
    {
        match self.stage {
            Stage::Done => true,
            Stage::Failed(_) => true,
            _ => false,
        }
    }

    fn command(&self, verb: Verb, identifier: &str) -> (command: Command)
        ensures
            command@ == command_for(self@, verb, identifier@),
    {
        Command { verb, config_path: config_path(self.settings.config_dir.as_str(), identifier) }
    }

    /// What the driver is to do next.
    pub fn request(&self) -> (request: Request)
        ensures
            request@ == request_of(self@),
            consistent(self@),
    {
        proof {
            use_type_invariant(self);
        }
        match self.stage {
            Stage::ToggleProbe | Stage::CycleProbe | Stage::StatusProbe => Request::Probe,
            Stage::ToggleLoad | Stage::CycleLoad | Stage::StatusLoad => Request::LoadSelection {
                path: self.settings.state_path.clone(),
            },
            Stage::CycleList | Stage::StatusList => Request::ListConfigs {
                dir: self.settings.config_dir.clone(),
            },
            Stage::CycleSave | Stage::StatusSave => Request::SaveSelection {
                path: self.settings.state_path.clone(),
                contents: self.state.contents(),
            },
            Stage::ToggleRun => match &self.active {
                Some(name) => Request::Run(self.command(Verb::Down, name.as_str())),
                None => Request::Run(self.command(Verb::Up, self.state.selected_config.as_str())),
            },
            Stage::CycleDown => match &self.active {
                Some(name) => Request::Run(self.command(Verb::Down, name.as_str())),
                None => {
                    assert(false);
                    Request::Probe
                },
            },
            Stage::CycleUp => Request::Run(
                self.command(Verb::Up, self.state.selected_config.as_str()),
            ),
            Stage::StatusPrint => {
                let active = match &self.active {
                    Some(name) => Some(name.as_str()),
                    None => None,
                };
                Request::Print(StatusReport::compose(active, self.state.selected_config.as_str()))
            },
            Stage::Done => Request::Exit(Ok(())),
            Stage::Failed(error) => match error {
                Error::DirectoryUnreadable => Request::Exit(
                    Err(error.at(self.settings.config_dir.as_str())),
                ),
                Error::StoreWriteFailure => Request::Exit(
                    Err(error.at(self.settings.state_path.as_str())),
                ),
            },
        }
    }

    /// Takes in what came of the request and moves on.
    pub fn advance(self, reply: Reply) -> (next: Session)
        ensures
            next@ == advance_of(self@, reply@),
            consistent(next@),
    {
        proof {
            use_type_invariant(&self);
        }
        let Session { mode, stage, settings, active, state, configs } = self;
        match (stage, reply) {
            (Stage::ToggleProbe, Reply::Probed { success, output }) => Session {
                mode,
                stage: Stage::ToggleLoad,
                settings,
                active: active_interface(success, output.as_str()),
                state,
                configs,
            },
            (Stage::ToggleLoad, Reply::Loaded(contents)) => {
                let state = State::load(as_text(&contents));
                let stage = if active.is_some() || !state.is_empty() {
                    Stage::ToggleRun
                } else {
                    Stage::StatusProbe
                };
                Session { mode, stage, settings, active, state, configs }
            },
            (Stage::ToggleRun, Reply::Completed) => Session {
                mode,
                stage: Stage::StatusProbe,
                settings,
                active,
                state,
                configs,
            },
            (Stage::CycleList, Reply::Listed(None)) => Session {
                mode,
                stage: Stage::Failed(Error::DirectoryUnreadable),
                settings,
                active,
                state,
                configs,
            },
            (Stage::CycleList, Reply::Listed(Some(names))) => {
                let configs = available_configs(&names);
                let stage = if configs.len() == 0 {
                    Stage::Done
                } else {
                    Stage::CycleLoad
                };
                Session { mode, stage, settings, active, state, configs }
            },
            (Stage::CycleLoad, Reply::Loaded(contents)) => Session {
                mode,
                stage: Stage::CycleProbe,
                settings,
                active,
                state: State::load(as_text(&contents)),
                configs,
            },
            (Stage::CycleProbe, Reply::Probed { success, output }) => {
                let selected = cycle_selection(
                    &configs,
                    state.selected_config.as_str(),
                    mode.direction(),
                );
                let state = match selected {
                    Some(identifier) => State { selected_config: identifier },
                    None => state,
                };
                Session {
                    mode,
                    stage: Stage::CycleSave,
                    settings,
                    active: active_interface(success, output.as_str()),
                    state,
                    configs,
                }
            },
            (Stage::CycleSave, Reply::Saved(written)) => {
                let stage = if !written {
                    Stage::Failed(Error::StoreWriteFailure)
                } else if active.is_some() {
                    Stage::CycleDown
                } else {
                    Stage::StatusProbe
                };
                Session { mode, stage, settings, active, state, configs }
            },
            (Stage::CycleDown, Reply::Completed) => Session {
                mode,
                stage: Stage::CycleUp,
                settings,
                active,
                state,
                configs,
            },
            (Stage::CycleUp, Reply::Completed) => Session {
                mode,
                stage: Stage::StatusProbe,
                settings,
                active,
                state,
                configs,
            },
            (Stage::StatusProbe, Reply::Probed { success, output }) => Session {
                mode,
                stage: Stage::StatusLoad,
                settings,
                active: active_interface(success, output.as_str()),
                state,
                configs,
            },
            (Stage::StatusLoad, Reply::Loaded(contents)) => Session {
                mode,
                stage: Stage::StatusList,
                settings,
                active,
                state: State::load(as_text(&contents)),
                configs,
            },
            (Stage::StatusList, Reply::Listed(listing)) => {
                let configs = match listing {
                    Some(names) => available_configs(&names),
                    None => Vec::new(),
                };
                assert(configs.deep_view() =~= available_or_none(listing.deep_view()));
                let mut state = state;
                let stage = if state.adopt_default(&configs) {
                    Stage::StatusSave
                } else {
                    Stage::StatusPrint
                };
                Session { mode, stage, settings, active, state, configs }
            },
            (Stage::StatusSave, Reply::Saved(_)) => Session {
                mode,
                stage: Stage::StatusPrint,
                settings,
                active,
                state,
                configs,
            },
            (Stage::StatusPrint, Reply::Completed) => Session {
                mode,
                stage: Stage::Done,
                settings,
                active,
                state,
                configs,
            },
            (stage, _) => Session { mode, stage, settings, active, state, configs },
        }
    }
}

fn as_text(contents: &Option<String>) -> (text: Option<&str>)
    ensures
        text.deep_view() == contents.deep_view(),
{
    match contents {
        Some(owned) => Some(owned.as_str()),
        None => None,
    }
}

/// The largest number of requests that a session at `stage` still has
/// answered before it asks to exit.
pub open spec fn steps_left(stage: Stage) -> nat {
    match stage {
        Stage::Done | Stage::Failed(_) => 0,
        Stage::StatusPrint => 1,
        Stage::StatusSave => 2,
        Stage::StatusList => 3,
        Stage::StatusLoad => 4,
        Stage::StatusProbe => 5,
        Stage::ToggleRun | Stage::CycleUp => 6,
        Stage::ToggleLoad | Stage::CycleDown => 7,
        Stage::ToggleProbe | Stage::CycleSave => 8,
        Stage::CycleProbe => 9,
        Stage::CycleLoad => 10,
        Stage::CycleList => 11,
    }
}

/// Whether a session at `stage` has nothing left to do but to report the
/// status, or nothing at all.
pub open spec fn reporting(stage: Stage) -> bool {
    match stage {
        Stage::StatusProbe | Stage::StatusLoad | Stage::StatusList | Stage::StatusSave
        | Stage::StatusPrint | Stage::Done | Stage::Failed(_) => true,
        _ => false,
    }
}

/// Every session that an invocation passes through is consistent.
pub proof fn lemma_sessions_are_consistent(
    mode: Mode,
    settings: SettingsView,
    s: SessionView,
    reply: ReplyView,
)
    ensures
        consistent(start_of(mode, settings)),
        consistent(s) ==> consistent(advance_of(s, reply)),
{
}

/// Every invocation ends: a reply of the kind waited for brings the session
/// closer to its exit, any other reply leaves it as it is, and the request to
/// exit is the one request that is never answered.
pub proof fn lemma_every_reply_counts(s: SessionView, reply: ReplyView)
    ensures
        answers(s.stage, reply) ==> steps_left(advance_of(s, reply).stage) < steps_left(s.stage),
        !answers(s.stage, reply) ==> advance_of(s, reply) == s,
        request_of(s) is Exit <==> steps_left(s.stage) == 0,
        advance_of(s, reply).mode == s.mode,
        advance_of(s, reply).settings == s.settings,
{
}

/// Reporting the status runs no tunnel command and never fails: once only
/// the report is left to do, it stays that way, no request is to run the
/// tunnel tool, and no reply makes the invocation fail.
pub proof fn lemma_reporting_is_harmless(s: SessionView, reply: ReplyView)
    requires
        reporting(s.stage),
    ensures
        !(request_of(s) is Run),
        reporting(advance_of(s, reply).stage),
        !(s.stage is Failed) ==> !(advance_of(s, reply).stage is Failed),
{
}

/// The session that follows `s` once `replies` have been handed to it one
/// after the other.
pub open spec fn after_replies(s: SessionView, replies: Seq<ReplyView>) -> SessionView
    decreases replies.len(),
{
    if replies.len() == 0 {
        s
    } else {
        advance_of(after_replies(s, replies.drop_last()), replies.last())
    }
}

/// Once only the report is left to do, no tunnel command is run any more,
/// whatever replies come in.
pub proof fn lemma_reporting_runs_no_command(s: SessionView, replies: Seq<ReplyView>)
    requires
        reporting(s.stage),
    ensures
        reporting(after_replies(s, replies).stage),
        !(request_of(after_replies(s, replies)) is Run),
        !(s.stage is Failed) ==> !(after_replies(s, replies).stage is Failed),
    decreases replies.len(),
{
    if replies.len() > 0 {
        lemma_reporting_runs_no_command(s, replies.drop_last());
        lemma_reporting_is_harmless(after_replies(s, replies.drop_last()), replies.last());
    } else {
        lemma_reporting_is_harmless(s, ReplyView::Completed);
    }
}

/// The session after a status query that began in `s` has had its probe,
/// its stored selection and its listing answered.
pub open spec fn after_status_replies(
    s: SessionView,
    success: bool,
    output: Seq<char>,
    contents: Option<Seq<char>>,
    listing: Option<Seq<Seq<char>>>,
) -> SessionView {
    advance_of(
        advance_of(
            advance_of(s, ReplyView::Probed { success, output }),
            ReplyView::Loaded(contents),
        ),
        ReplyView::Listed(listing),
    )
}

/// A status query, from its first request to its last.  It probes, loads the
/// selection and lists the directory, in this order.  Where nothing is
/// selected and a configuration exists, it adopts the first identifier of
/// the working set and has it saved before anything is printed; whether the
/// saving succeeds makes no difference.  Then it has the report printed for
/// the interface that the probe found and the selection as it stands, and
/// exits with success.  What the session knew before the query plays no part.
pub proof fn lemma_status_query(
    s: SessionView,
    success: bool,
    output: Seq<char>,
    contents: Option<Seq<char>>,
    listing: Option<Seq<Seq<char>>>,
    written: bool,
)
    requires
        s.stage == Stage::StatusProbe,
    ensures
        ({
            let probed = advance_of(s, ReplyView::Probed { success, output });
            let loaded_session = advance_of(probed, ReplyView::Loaded(contents));
            let listed = after_status_replies(s, success, output, contents, listing);
            let active = active_interface_of(success, output);
            let configs = available_or_none(listing);
            let selected = with_default(loaded(contents), configs);
            let printing = if adopts_default(loaded(contents), configs) {
                advance_of(listed, ReplyView::Saved(written))
            } else {
                listed
            };
            &&& request_of(s) == RequestView::Probe
            &&& request_of(probed) == RequestView::LoadSelection { path: s.settings.state_path }
            &&& request_of(loaded_session) == RequestView::ListConfigs {
                dir: s.settings.config_dir,
            }
            &&& adopts_default(loaded(contents), configs) ==> request_of(listed)
                == RequestView::SaveSelection { path: s.settings.state_path, contents: configs[0] }
            &&& request_of(printing) == RequestView::Print(report_for(active, selected))
            &&& request_of(advance_of(printing, ReplyView::Completed)) == RequestView::Exit(Ok(()))
        }),
{
}

/// Once a configuration exists, a status query never reports an empty
/// selection: the identifier that it reports when no tunnel is up is the
/// stored one, or the first of the working set.
pub proof fn lemma_status_selection_is_present(
    s: SessionView,
    success: bool,
    output: Seq<char>,
    contents: Option<Seq<char>>,
    names: Seq<Seq<char>>,
)
    requires
        s.stage == Stage::StatusProbe,
        available(names).len() > 0,
    ensures
        after_status_replies(s, success, output, contents, Some(names)).selected.len() > 0,
        loaded(contents).len() == 0 ==> after_status_replies(
            s,
            success,
            output,
            contents,
            Some(names),
        ).selected == available(names)[0],
{
    crate::configs::lemma_available(names);
    assert(available(names)[0].len() > 0);
}

/// Toggling while a tunnel is up brings that tunnel down and no tunnel up:
/// after the probe and the stored selection, the one tunnel command is to
/// bring down the interface that the probe found.  What follows is a fresh
/// status query, and whatever replies come in from then on, no other tunnel
/// command is asked for.
pub proof fn lemma_toggle_brings_active_tunnel_down(
    settings: SettingsView,
    success: bool,
    output: Seq<char>,
    contents: Option<Seq<char>>,
    later: Seq<ReplyView>,
)
    requires
        active_interface_of(success, output) is Some,
    ensures
        ({
            let begun = start_of(Mode::Toggle, settings);
            let probed = advance_of(begun, ReplyView::Probed { success, output });
            let loaded_session = advance_of(probed, ReplyView::Loaded(contents));
            let ran = advance_of(loaded_session, ReplyView::Completed);
            &&& request_of(begun) == RequestView::Probe
            &&& request_of(probed) == RequestView::LoadSelection { path: settings.state_path }
            &&& request_of(loaded_session) == RequestView::Run(
                CommandView {
                    verb: Verb::Down,
                    config_path: config_path_of(
                        settings.config_dir,
                        active_interface_of(success, output)->0,
                    ),
                },
            )
            &&& ran.stage == Stage::StatusProbe
            &&& !(request_of(after_replies(ran, later)) is Run)
        }),
{
    let ran = advance_of(
        advance_of(
            advance_of(start_of(Mode::Toggle, settings), ReplyView::Probed { success, output }),
            ReplyView::Loaded(contents),
        ),
        ReplyView::Completed,
    );
    lemma_reporting_runs_no_command(ran, later);
}

/// Toggling while no tunnel is up brings the selected tunnel up, and where
/// nothing is selected it runs no tunnel command at all: the status query
/// follows at once, and whatever replies come in from then on, no tunnel
/// command is asked for.
pub proof fn lemma_toggle_without_active_tunnel(
    settings: SettingsView,
    success: bool,
    output: Seq<char>,
    contents: Option<Seq<char>>,
    later: Seq<ReplyView>,
)
    requires
        active_interface_of(success, output) is None,
    ensures
        ({
            let begun = start_of(Mode::Toggle, settings);
            let probed = advance_of(begun, ReplyView::Probed { success, output });
            let loaded_session = advance_of(probed, ReplyView::Loaded(contents));
            &&& request_of(begun) == RequestView::Probe
            &&& request_of(probed) == RequestView::LoadSelection { path: settings.state_path }
            &&& loaded(contents).len() > 0 ==> {
                &&& request_of(loaded_session) == RequestView::Run(
                    CommandView {
                        verb: Verb::Up,
                        config_path: config_path_of(settings.config_dir, loaded(contents)),
                    },
                )
                &&& advance_of(loaded_session, ReplyView::Completed).stage == Stage::StatusProbe
            }
            &&& loaded(contents).len() == 0 ==> {
                &&& loaded_session.stage == Stage::StatusProbe
                &&& !(request_of(after_replies(loaded_session, later)) is Run)
            }
        }),
{
    let loaded_session = advance_of(
        advance_of(start_of(Mode::Toggle, settings), ReplyView::Probed { success, output }),
        ReplyView::Loaded(contents),
    );
    if loaded(contents).len() == 0 {
        lemma_reporting_runs_no_command(loaded_session, later);
    }
}

/// With no tunnel up, nothing selected and no configuration to adopt, the
/// status is "disconnected" with no identifier behind the icon, and nothing
/// is saved.
pub proof fn lemma_status_with_nothing_selected(
    s: SessionView,
    success: bool,
    output: Seq<char>,
    contents: Option<Seq<char>>,
    listing: Option<Seq<Seq<char>>>,
)
    requires
        s.stage == Stage::StatusProbe,
        active_interface_of(success, output) is None,
        loaded(contents).len() == 0,
        available_or_none(listing).len() == 0,
    ensures
        request_of(after_status_replies(s, success, output, contents, listing))
            == RequestView::Print(crate::status::disconnected_report(Seq::empty())),
{
    assert(loaded(contents) =~= Seq::empty());
}

/// Cycling fails where the configuration directory cannot be listed: the
/// listing is the first thing asked for, and without it the invocation ends
/// in failure at once, with a message that names the directory.
pub proof fn lemma_cycling_needs_the_directory(mode: Mode, settings: SettingsView)
    requires
        mode == Mode::Next || mode == Mode::Previous,
    ensures
        request_of(start_of(mode, settings)) == (RequestView::ListConfigs {
            dir: settings.config_dir,
        }),
        request_of(advance_of(start_of(mode, settings), ReplyView::Listed(None)))
            == RequestView::Exit(
            Err(
                FailureView {
                    error: Error::DirectoryUnreadable,
                    message: crate::error::description_of(Error::DirectoryUnreadable) + ": "@
                        + settings.config_dir,
                },
            ),
        ),
{
}

/// A status query goes on where the configuration directory cannot be
/// listed: it takes the directory for one without configurations, has
/// nothing saved, prints the report for the stored selection, which is
/// "disconnected" with nothing behind the icon where no tunnel is up and
/// nothing is stored, and exits with success.
pub proof fn lemma_status_survives_unreadable_directory(
    s: SessionView,
    success: bool,
    output: Seq<char>,
    contents: Option<Seq<char>>,
)
    requires
        s.stage == Stage::StatusProbe,
    ensures
        ({
            let listed = after_status_replies(s, success, output, contents, None);
            &&& request_of(listed) == RequestView::Print(
                report_for(active_interface_of(success, output), loaded(contents)),
            )
            &&& active_interface_of(success, output) is None && loaded(contents).len() == 0
                ==> request_of(listed) == RequestView::Print(
                crate::status::disconnected_report(Seq::empty()),
            )
            &&& request_of(advance_of(listed, ReplyView::Completed)) == RequestView::Exit(Ok(()))
        }),
{
    if loaded(contents).len() == 0 {
        assert(loaded(contents) =~= Seq::empty());
    }
}

/// Cycling where no configuration exists does nothing: the invocation exits
/// with success as soon as the directory is listed, and prints nothing.
pub proof fn lemma_cycling_nothing(mode: Mode, settings: SettingsView, names: Seq<Seq<char>>)
    requires
        mode == Mode::Next || mode == Mode::Previous,
        available(names).len() == 0,
    ensures
        request_of(advance_of(start_of(mode, settings), ReplyView::Listed(Some(names))))
            == RequestView::Exit(Ok(())),
{
}

/// The session of a cycling invocation once the directory, the stored
/// selection and the probe have been answered.
pub open spec fn after_cycle_replies(
    mode: Mode,
    settings: SettingsView,
    names: Seq<Seq<char>>,
    contents: Option<Seq<char>>,
    success: bool,
    output: Seq<char>,
) -> SessionView {
    advance_of(
        advance_of(
            advance_of(start_of(mode, settings), ReplyView::Listed(Some(names))),
            ReplyView::Loaded(contents),
        ),
        ReplyView::Probed { success, output },
    )
}

/// Cycling, from its first request to the status query.  It lists the
/// directory, loads the selection and probes, in this order, and has the
/// identifier saved that lies one place further in the working set, forward
/// or backward by the mode.  If that cannot be saved the invocation fails,
/// with a message that names the state file.
/// Otherwise, if a tunnel was up, that tunnel is brought down and then the
/// newly selected one up; if none was up, no tunnel command is run.  A fresh
/// status query follows.
pub proof fn lemma_cycling(
    mode: Mode,
    settings: SettingsView,
    names: Seq<Seq<char>>,
    contents: Option<Seq<char>>,
    success: bool,
    output: Seq<char>,
)
    requires
        mode == Mode::Next || mode == Mode::Previous,
        available(names).len() > 0,
    ensures
        ({
            let begun = start_of(mode, settings);
            let listed = advance_of(begun, ReplyView::Listed(Some(names)));
            let loaded_session = advance_of(listed, ReplyView::Loaded(contents));
            let probed = after_cycle_replies(mode, settings, names, contents, success, output);
            let saved = advance_of(probed, ReplyView::Saved(true));
            let active = active_interface_of(success, output);
            let chosen = cycled(available(names), loaded(contents), direction_of(mode));
            &&& request_of(begun) == RequestView::ListConfigs { dir: settings.config_dir }
            &&& request_of(listed) == RequestView::LoadSelection { path: settings.state_path }
            &&& request_of(loaded_session) == RequestView::Probe
            &&& request_of(probed) == RequestView::SaveSelection {
                path: settings.state_path,
                contents: chosen,
            }
            &&& request_of(advance_of(probed, ReplyView::Saved(false))) == RequestView::Exit(
                Err(failure_at(Error::StoreWriteFailure, settings.state_path)),
            )
            &&& active is None ==> saved.stage == Stage::StatusProbe
            &&& active matches Some(name) ==> {
                let down = advance_of(saved, ReplyView::Completed);
                &&& request_of(saved) == RequestView::Run(
                    CommandView {
                        verb: Verb::Down,
                        config_path: config_path_of(settings.config_dir, name),
                    },
                )
                &&& request_of(down) == RequestView::Run(
                    CommandView {
                        verb: Verb::Up,
                        config_path: config_path_of(settings.config_dir, chosen),
                    },
                )
                &&& advance_of(down, ReplyView::Completed).stage == Stage::StatusProbe
            }
        }),
{
}

/// A stored selection that is no longer among the configurations does not
/// stop cycling: the invocation goes on as if the first identifier of the
/// working set had been stored.
pub proof fn lemma_cycling_from_missing_selection(
    mode: Mode,
    settings: SettingsView,
    names: Seq<Seq<char>>,
    contents: Option<Seq<char>>,
    success: bool,
    output: Seq<char>,
)
    requires
        mode == Mode::Next || mode == Mode::Previous,
        available(names).len() > 0,
        !available(names).contains(loaded(contents)),
    ensures
        request_of(after_cycle_replies(mode, settings, names, contents, success, output))
            == (RequestView::SaveSelection {
            path: settings.state_path,
            contents: cycled(available(names), available(names)[0], direction_of(mode)),
        }),
{
    crate::configs::lemma_missing_selection_cycles_from_first(
        available(names),
        loaded(contents),
        direction_of(mode),
    );
}

} // verus!
