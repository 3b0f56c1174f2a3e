use swarm_core::default_branch_prefix;
use swarm_core::default_daily_dir;
use swarm_core::default_status_style;
use swarm_core::default_tasks_dir;
use swarm_core::escape_applescript;
use swarm_core::expand_path_with;
use swarm_core::notification_script;
use swarm_core::notify_done;
use swarm_core::notify_error;
use swarm_core::notify_needs_input;
use swarm_core::General;
use swarm_core::Notification;

#[test]
fn needs_input_message() {
    let n = notify_needs_input("agent1", "Ping");
    assert_eq!(n.title, "swarm");
    assert_eq!(n.message, "agent1 needs input");
    assert_eq!(n.sound.as_deref(), Some("Ping"));
}

#[test]
fn done_message() {
    let n = notify_done("agent1", "Glass");
    assert_eq!(n.title, "swarm");
    assert_eq!(n.message, "agent1 completed");
    assert_eq!(n.sound.as_deref(), Some("Glass"));
}

#[test]
fn error_message() {
    let n = notify_error("agent1", "boom", "Basso");
    assert_eq!(n.title, "swarm");
    assert_eq!(n.message, "agent1: boom");
    assert_eq!(n.sound.as_deref(), Some("Basso"));
}

#[test]
fn applescript_escaping() {
    assert_eq!(escape_applescript("plain"), "plain");
    assert_eq!(escape_applescript("say \"hi\""), "say \\\"hi\\\"");
    assert_eq!(escape_applescript("a\\b"), "a\\\\b");
}

#[test]
fn script_with_sound() {
    let n = Notification {
        title: "swarm".to_string(),
        message: "agent1 completed".to_string(),
        sound: Some("Glass".to_string()),
    };
    assert_eq!(
        notification_script(&n),
        "display notification \"agent1 completed\" with title \"swarm\" sound name \"Glass\"",
    );
}

#[test]
fn script_without_sound_escapes_quotes() {
    let n = Notification {
        title: "swarm".to_string(),
        message: "said \"done\"".to_string(),
        sound: None,
    };
    assert_eq!(
        notification_script(&n),
        "display notification \"said \\\"done\\\"\" with title \"swarm\"",
    );
}

#[test]
fn expand_path_replaces_home_prefix() {
    assert_eq!(expand_path_with("~/logs", Some("/home/u")), "/home/u/logs");
    assert_eq!(expand_path_with("~/", Some("/home/u")), "/home/u/");
    assert_eq!(expand_path_with("/abs/path", Some("/home/u")), "/abs/path");
    assert_eq!(expand_path_with("~/logs", None), "~/logs");
    assert_eq!(expand_path_with("~", Some("/home/u")), "~");
}

#[test]
fn expand_path_leaves_inputs_without_home_prefix_unchanged() {
    assert_eq!(swarm_core::expand_path("/var/log/x"), "/var/log/x");
    assert_eq!(swarm_core::expand_path("rel/path"), "rel/path");
    assert_eq!(swarm_core::expand_path("~"), "~");
}

#[test]
fn defaults_match_documented_values() {
    assert_eq!(default_status_style(), "emoji");
    assert_eq!(default_branch_prefix(), "sharkey11/");
    assert_eq!(default_daily_dir(), "~/.swarm/daily");
    assert_eq!(default_tasks_dir(), "~/.swarm/tasks");
}

#[test]
fn expanded_dirs_touch_only_directory_fields() {
    let g = General {
        default_agent: "coder".to_string(),
        worktree_dir: "~/worktrees".to_string(),
        poll_interval_ms: 1000,
        logs_dir: "~/.swarm/logs".to_string(),
        daily_dir: "~/.swarm/daily".to_string(),
        tasks_dir: "/already/abs".to_string(),
        branch_prefix: "sharkey11/".to_string(),
        status_style: "emoji".to_string(),
    };
    let e = g.with_expanded_dirs(Some("/home/u"));
    assert_eq!(e.worktree_dir, "/home/u/worktrees");
    assert_eq!(e.logs_dir, "/home/u/.swarm/logs");
    assert_eq!(e.daily_dir, "/home/u/.swarm/daily");
    assert_eq!(e.tasks_dir, "/already/abs");
    assert_eq!(e.default_agent, "coder");
    assert_eq!(e.poll_interval_ms, 1000);
    assert_eq!(e.branch_prefix, "sharkey11/");
    assert_eq!(e.status_style, "emoji");
}
