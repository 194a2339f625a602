//! The persisted selection: one identifier, kept in a small file under the
//! user's cache directory.

use crate::text::{first_line, first_line_of, trim, trimmed};
use vstd::prelude::*;
use vstd::string::StringExecFns;

verus! {

/// The selection as it is known during one invocation.
#[derive(Debug, PartialEq, Eq)]
pub struct State {
    /// The selected identifier; empty while nothing has been selected yet.
    pub selected_config: String,
}

impl View for State {
    type V = Seq<char>;

    /// A state is its selected identifier.
    open spec fn view(&self) -> Seq<char> {
        self.selected_config@
    }
}

/// The selection that the contents of the state file stand for: their
/// first line without the white space around it, and nothing when the file
/// could not be read.  What follows the first line is not looked at.
pub open spec fn loaded(contents: Option<Seq<char>>) -> Seq<char> {
    match contents {
        Some(text) => trimmed(first_line(text)),
        None => Seq::empty(),
    }
}

/// Whether a default is adopted: nothing is selected, and there is a
/// configuration to select.
pub open spec fn adopts_default(selected: Seq<char>, configs: Seq<Seq<char>>) -> bool {
    selected.len() == 0 && configs.len() > 0
}

/// The selection after a default has been adopted where one is called for:
/// the first identifier of the working set in place of an empty selection.
pub open spec fn with_default(selected: Seq<char>, configs: Seq<Seq<char>>) -> Seq<char> {
    if adopts_default(selected, configs) {
        configs[0]
    } else {
        selected
    }
}

/// The name of the state file.
pub open spec fn state_file_name() -> Seq<char> {
    "wg-toggle-state"@
}

/// The directory that holds the state file when the user has no cache
/// directory.
pub open spec fn fallback_dir() -> Seq<char> {
    "/tmp"@
}

/// The path of the entry `name` in the directory `dir`: the two joined by
/// one separator, which is left out where `dir` is empty or ends in one.
pub open spec fn joined(dir: Seq<char>, name: Seq<char>) -> Seq<char> {
    if dir.len() == 0 || dir.last() == '/' {
        dir + name
    } else {
        dir + "/"@ + name
    }
}

/// The path of the state file for a user whose cache directory is `cache`.
pub open spec fn state_path_under(cache: Option<Seq<char>>) -> Seq<char> {
    match cache {
        Some(dir) => joined(dir, state_file_name()),
        None => joined(fallback_dir(), state_file_name()),
    }
}

impl State {
    /// The state in which nothing is selected.
    pub fn new() -> (state: State)
        ensures
            state@.len() == 0,
    {
        State { selected_config: String::new() }
    }

    /// The state that the state file holds: `contents` is what was read from
    /// it, or `None` if it is missing or unreadable, which counts as an empty
    /// selection.  The selection is the first line of the file, trimmed.
    pub fn load(contents: Option<&str>) -> (state: State)
        ensures
            state@ == loaded(contents.deep_view()),
    {
        match contents {
            Some(text) => State { selected_config: trim(first_line_of(text)) },
            None => State::new(),
        }
    }

    /// What the state file holds once this state is saved: the selected
    /// identifier and nothing else.
    pub fn contents(&self) -> (text: String)
        ensures
            text@ == self@,
    {
        self.selected_config.clone()
    }

    /// Whether nothing is selected.
    pub fn is_empty(&self) -> (empty: bool)
        ensures
            empty == (self@.len() == 0),
    {
        self.selected_config.as_str().is_empty()
    }

    /// Selects `identifier`.
    pub fn select(&mut self, identifier: String)
        ensures
            final(self)@ == identifier@,
    {
        self.selected_config = identifier;
    }

    /// Adopts the first identifier of the working set as the selection if
    /// nothing is selected yet.  Returns whether the selection changed hands
    /// this way, in which case it is to be saved.
    pub fn adopt_default(&mut self, configs: &Vec<String>) -> (adopted: bool)
        ensures
            final(self)@ == with_default(old(self)@, configs.deep_view()),
            adopted == adopts_default(old(self)@, configs.deep_view()),
    {
        if self.is_empty() && configs.len() > 0 {
            assert(configs.deep_view()[0] == configs[0]@);
            self.selected_config = configs[0].clone();
            true
        } else {
            false
        }
    }
}

/// Asks `dirs::cache_dir` for the user's cache directory.
///
/// The answer depends on the platform and on the environment of the process,
/// so nothing is claimed of it.  A path that is not valid Unicode is handed
/// on with the offending parts replaced.
#[verifier::external_body]
fn cache_dir() -> (dir: Option<String>) {
    match dirs::cache_dir() {
        Some(path) => Some(path.to_string_lossy().into_owned()),
        None => None,
    }
}

fn ends_in_separator(dir: &str) -> (ends: bool)
    ensures
        ends == (dir@.len() > 0 && dir@.last() == '/'),
{
    let length = dir.unicode_len();
    length > 0 && dir.get_char(length - 1) == '/'
}

/// Joins the directory `dir` and the entry `name` into one path.
pub fn join_path(dir: &str, name: &str) -> (path: String)
    ensures
        path@ == joined(dir@, name@),
{
    let mut path = dir.to_owned();
    if !dir.is_empty() && !ends_in_separator(dir) {
        path.append("/");
    }
    path.append(name);
    path
}

/// The path of the state file for a user whose cache directory is `cache`;
/// without a cache directory the file lies under `/tmp`.
pub fn state_path_in(cache: Option<&str>) -> (path: String)
    ensures
        path@ == state_path_under(cache.deep_view()),
{
    match cache {
        Some(dir) => join_path(dir, "wg-toggle-state"),
        None => join_path("/tmp", "wg-toggle-state"),
    }
}

/// The path of the state file for the user who runs the process.
pub fn state_path() -> (path: String)
    ensures
        exists|cache: Option<Seq<char>>| path@ == state_path_under(cache),
{
    let path = match cache_dir() {
        Some(dir) => {
            let path = state_path_in(Some(dir.as_str()));
            assert(path@ == state_path_under(Some(dir@)));
            path
        },
        None => state_path_in(None),
    };
    path
}

} // verus!
