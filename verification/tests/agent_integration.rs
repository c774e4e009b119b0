use tinybox::agent_integration::{
    agent_exit_code, check_launch, check_task_id, config_home, create_task_args, install_action, install_target,
    parse_agent, Agent, InstallAction, IntegrationError, LaunchOptions,
};

fn options(agent: &str, profile: Option<&str>, rootfs: Option<&str>) -> LaunchOptions {
    LaunchOptions {
        agent: agent.to_string(),
        workspace: "/w".to_string(),
        profile: profile.map(str::to_string),
        rootfs: rootfs.map(str::to_string),
        daemon: "127.0.0.1:8080".to_string(),
        arguments: vec![],
    }
}

#[test]
fn agents_by_name() {
    assert_eq!(parse_agent("opencode"), Some(Agent::OpenCode));
    assert_eq!(parse_agent("pi"), Some(Agent::Pi));
    assert_eq!(parse_agent("vim"), None);
}

#[test]
fn adapter_locations() {
    assert_eq!(
        install_target("opencode", Some("/proj"), "/cfg", "/home/u").unwrap(),
        ("/proj/.opencode/tools".to_string(), "bash.ts".to_string())
    );
    assert_eq!(
        install_target("pi", None, "/cfg", "/home/u").unwrap(),
        ("/home/u/.pi/agent/extensions/tinybox".to_string(), "index.ts".to_string())
    );
    assert!(matches!(install_target("vim", None, "/cfg", "/h"), Err(IntegrationError::UnsupportedAgent(n)) if n == "vim"));
}

#[test]
fn config_home_prefers_xdg() {
    assert_eq!(config_home(Some("/x".to_string()), Some("/h".to_string())).unwrap(), "/x");
    assert_eq!(config_home(None, Some("/h".to_string())).unwrap(), "/h/.config");
    assert!(config_home(Some("/x".to_string()), None).is_err());
}

#[test]
fn install_actions() {
    assert_eq!(install_action(None, "a", false), InstallAction::Write);
    assert_eq!(install_action(Some("a"), "a", false), InstallAction::Keep);
    assert_eq!(install_action(Some("b"), "a", false), InstallAction::Refuse);
    assert_eq!(install_action(Some("b"), "a", true), InstallAction::Write);
}

#[test]
fn launch_checks() {
    assert!(matches!(check_launch(&options("pi", Some("rust"), Some("/r"))), Err(IntegrationError::ProfileAndRoot)));
    assert!(matches!(check_launch(&options("pi", None, None)), Ok(Agent::Pi)));
    assert!(matches!(check_launch(&options("emacs", None, None)), Err(IntegrationError::UnsupportedAgent(_))));
}

#[test]
fn task_arguments() {
    assert_eq!(
        create_task_args(&options("pi", Some("rust"), None), "/w"),
        vec!["agent", "run", "/w", "--daemon", "127.0.0.1:8080", "--detach", "--profile", "rust"]
    );
}

#[test]
fn printed_task_ids() {
    assert_eq!(check_task_id("task-4\n").unwrap(), "task-4");
    assert!(check_task_id("sb-4").is_err());
}

#[test]
fn agent_exit_codes() {
    assert_eq!(agent_exit_code(Some(2), None), 2);
    assert_eq!(agent_exit_code(None, Some(15)), 143);
    assert_eq!(agent_exit_code(None, None), 128);
}

#[test]
fn rejects_unknown_agent() {
    assert!(install_target("unknown", Some("/tmp"), "/cfg", "/home/u").is_err());
}
