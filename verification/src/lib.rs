//! Bounded, terminal-faithful preview of the tail of a log file.
//!
//! The core is a pure pipeline: a byte window taken from the end of the
//! file is segmented into lines, each line is collapsed at carriage
//! returns to its final overwrite state, ANSI escape sequences are
//! stripped, and the surviving visible lines are kept in a fixed-capacity
//! recency buffer. Everything here is ordinary data-to-data computation;
//! the file read itself is left to the caller.

pub mod buffer;
pub mod collapse;
pub mod config;
pub mod notify;
pub mod strip;
pub mod tail;
pub mod window;

pub use buffer::RecencyBuffer;
pub use collapse::collapse_overwrite;
pub use collapse::split_cr_lines;
pub use config::default_branch_prefix;
pub use config::default_daily_dir;
pub use config::default_status_style;
pub use config::default_tasks_dir;
pub use config::expand_path;
pub use config::expand_path_with;
pub use config::AllowedTools;
pub use config::Config;
pub use config::General;
pub use config::Keybindings;
pub use config::Notifications;
pub use notify::escape_applescript;
pub use notify::notification_script;
pub use notify::notify_done;
pub use notify::notify_error;
pub use notify::notify_needs_input;
pub use notify::Notification;
pub use strip::strip_ansi_fast;
pub use tail::split_newlines;
pub use tail::tail_from_content;
pub use tail::tail_from_window;
pub use window::window_start;
pub use window::WINDOW_CAP;
