//! Configuration data and home-relative path expansion.
//!
//! Loading the configuration file and provisioning directories are I/O
//! owned by the caller; this module holds the configuration values
//! themselves, the defaults of the fields that may be absent from the
//! file, and the expansion of a `~/` prefix once the caller has looked
//! the home directory up.

use vstd::prelude::*;

verus! {

/// The whole configuration.
#[derive(Clone, Debug)]
pub struct Config {
    pub general: General,
    pub notifications: Notifications,
    pub keybindings: Keybindings,
    pub allowed_tools: AllowedTools,
}

/// General settings: the default agent and the working directories.
#[derive(Clone, Debug)]
pub struct General {
    pub default_agent: String,
    pub worktree_dir: String,
    pub poll_interval_ms: u64,
    pub logs_dir: String,
    pub daily_dir: String,
    pub tasks_dir: String,
    pub branch_prefix: String,
    pub status_style: String,
}

/// Notification settings: whether to notify, and which sounds to use.
#[derive(Clone, Debug)]
pub struct Notifications {
    pub enabled: bool,
    pub sound_needs_input: String,
    pub sound_done: String,
    pub sound_error: String,
}

/// Key binding settings.
#[derive(Clone, Debug)]
pub struct Keybindings {
    pub prefix: String,
}

/// The tool invocations that run without a permission prompt.
#[derive(Clone, Debug)]
pub struct AllowedTools {
    pub tools: Vec<String>,
}

/// Default status style, used when the configuration file names none.
pub fn default_status_style() -> (r: String)
    ensures
        r@ == "emoji"@,
{
    String::from_str("emoji")
}

/// Default branch prefix, used when the configuration file names none.
pub fn default_branch_prefix() -> (r: String)
    ensures
        r@ == "sharkey11/"@,
{
    String::from_str("sharkey11/")
}

/// Default daily-notes directory, used when the configuration file names
/// none.
pub fn default_daily_dir() -> (r: String)
    ensures
        r@ == "~/.swarm/daily"@,
{
    String::from_str("~/.swarm/daily")
}

/// Default tasks directory, used when the configuration file names none.
pub fn default_tasks_dir() -> (r: String)
    ensures
        r@ == "~/.swarm/tasks"@,
{
    String::from_str("~/.swarm/tasks")
}

/// `input` with a leading `~/` replaced by the home directory: when the
/// input starts with `~/` and a home directory is known, the `~` gives
/// way to it; otherwise the input stands unchanged.
pub open spec fn expand_spec(input: Seq<char>, home: Option<Seq<char>>) -> Seq<char> {
    match home {
        Some(h) => {
            if input.len() >= 2 && input[0] == '~' && input[1] == '/' {
                h + input.skip(1)
            } else {
                input
            }
        },
        None => input,
    }
}

/// Expand a leading `~/` in `input` against the home directory the
/// caller looked up, if any.
pub fn expand_path_with(input: &str, home: Option<&str>) -> (r: String)
    ensures
        home matches Some(h) ==> r@ == expand_spec(input@, Some(h@)),
        home is None ==> r@ == expand_spec(input@, None),
{
    let n = input.unicode_len();
    match home {
        Some(h) => {
            if n >= 2 && input.get_char(0) == '~' && input.get_char(1) == '/' {
                let mut out = String::from_str(h);
                out.append(input.substring_char(1, n));
                proof {
                    assert(input@.subrange(1, n as int) =~= input@.skip(1));
                }
                out
            } else {
                input.to_owned()
            }
        },
        None => input.to_owned(),
    }
}

/// Relies on `dirs::home_dir`: the user's home directory, if the
/// platform knows one. The result depends on the environment, so nothing
/// is promised of it.
#[verifier::external_body]
fn home_dir_string() -> (r: Option<String>) {
    dirs::home_dir().and_then(|p| p.to_str().map(|s| s.to_string()))
}

/// Expand a leading `~/` in `input` against the home directory of the
/// running user: the result is the expansion against whatever home
/// directory the platform reported, and an input without the `~/` prefix
/// always stands unchanged.
pub fn expand_path(input: &str) -> (r: String)
    ensures
        exists|h: Option<Seq<char>>| r@ == expand_spec(input@, h),
        !(input@.len() >= 2 && input@[0] == '~' && input@[1] == '/') ==> r@ == input@,
{
    let home = home_dir_string();
    let r = match &home {
        Some(h) => expand_path_with(input, Some(h.as_str())),
        None => expand_path_with(input, None),
    };
    proof {
        match home {
            Some(h) => {
                assert(r@ == expand_spec(input@, Some(h@)));
            },
            None => {
                assert(r@ == expand_spec(input@, None));
            },
        }
    }
    r
}

impl General {
    /// The same settings with every home-relative directory field
    /// expanded against the given home directory.
    pub fn with_expanded_dirs(self, home: Option<&str>) -> (r: General)
        ensures
            home matches Some(h) ==> {
                &&& r.logs_dir@ == expand_spec(self.logs_dir@, Some(h@))
                &&& r.worktree_dir@ == expand_spec(self.worktree_dir@, Some(h@))
                &&& r.daily_dir@ == expand_spec(self.daily_dir@, Some(h@))
                &&& r.tasks_dir@ == expand_spec(self.tasks_dir@, Some(h@))
            },
            home is None ==> {
                &&& r.logs_dir@ == self.logs_dir@
                &&& r.worktree_dir@ == self.worktree_dir@
                &&& r.daily_dir@ == self.daily_dir@
                &&& r.tasks_dir@ == self.tasks_dir@
            },
            r.default_agent == self.default_agent,
            r.poll_interval_ms == self.poll_interval_ms,
            r.branch_prefix == self.branch_prefix,
            r.status_style == self.status_style,
    {
        let logs_dir = expand_path_with(self.logs_dir.as_str(), home);
        let worktree_dir = expand_path_with(self.worktree_dir.as_str(), home);
        let daily_dir = expand_path_with(self.daily_dir.as_str(), home);
        let tasks_dir = expand_path_with(self.tasks_dir.as_str(), home);
        General {
            logs_dir,
            worktree_dir,
            daily_dir,
            tasks_dir,
            default_agent: self.default_agent,
            poll_interval_ms: self.poll_interval_ms,
            branch_prefix: self.branch_prefix,
            status_style: self.status_style,
        }
    }
}

} // verus!
