use betterprocs::config::{
    merge_config, AppConfig, Cli, ConfigError, YamlConfig, YamlProcConfig, YamlProcEntry,
    YamlSettings,
};
use betterprocs::ui::{pane_size, App};

fn bare_cli() -> Cli {
    Cli {
        commands: Vec::new(),
        config: None,
        npm: false,
        auto_exit: false,
        cwd: None,
        names: Vec::new(),
    }
}

fn settings(auto_exit: bool) -> YamlSettings {
    YamlSettings {
        auto_exit,
        mouse: None,
        scrollback: None,
    }
}

#[test]
fn cli_commands_become_processes_with_derived_names() {
    let mut cli = bare_cli();
    cli.commands = vec!["npm run dev".to_string(), "cargo run".to_string()];
    cli.names = vec!["frontend".to_string()];
    let app = merge_config(&cli, None, None).unwrap();
    assert_eq!(app.processes.len(), 2);
    assert_eq!(app.processes[0].name, "frontend");
    assert_eq!(app.processes[0].command, "npm run dev");
    assert!(app.processes[0].autostart);
    assert_eq!(app.processes[1].name, "cargo");
    assert_eq!(app.processes[1].command, "cargo run");
    assert!(!app.auto_exit);
}

#[test]
fn blank_command_gets_the_fallback_name() {
    let mut cli = bare_cli();
    cli.commands = vec!["   ".to_string()];
    let app = merge_config(&cli, None, None).unwrap();
    assert_eq!(app.processes[0].name, "proc");
}

#[test]
fn yaml_entries_used_when_no_commands_given() {
    let yaml = YamlConfig {
        procs: vec![
            ("web".to_string(), YamlProcEntry::Simple("npm run dev".to_string())),
            (
                "api".to_string(),
                YamlProcEntry::Full(YamlProcConfig {
                    shell: Some("cargo run".to_string()),
                    cmd: None,
                    cwd: Some("/srv/api".to_string()),
                    env: vec![("RUST_LOG".to_string(), "info".to_string())],
                    autostart: false,
                    autorestart: true,
                    port: Some(8080),
                }),
            ),
        ],
        settings: settings(true),
    };
    let app = merge_config(&bare_cli(), Some(yaml), None).unwrap();
    assert_eq!(app.processes.len(), 2);
    assert_eq!(app.processes[0].name, "web");
    assert_eq!(app.processes[0].command, "npm run dev");
    assert!(app.processes[0].autostart);
    assert_eq!(app.processes[1].name, "api");
    assert_eq!(app.processes[1].command, "cargo run");
    assert_eq!(app.processes[1].cwd.as_deref(), Some("/srv/api"));
    assert!(!app.processes[1].autostart);
    assert!(app.processes[1].autorestart);
    assert_eq!(app.processes[1].port, Some(8080));
    // yaml settings carry auto-exit
    assert!(app.auto_exit);
}

#[test]
fn yaml_ignored_when_commands_given() {
    let mut cli = bare_cli();
    cli.commands = vec!["echo hi".to_string()];
    let yaml = YamlConfig {
        procs: vec![("web".to_string(), YamlProcEntry::Simple("x".to_string()))],
        settings: settings(true),
    };
    let app = merge_config(&cli, Some(yaml), None).unwrap();
    assert_eq!(app.processes.len(), 1);
    assert_eq!(app.processes[0].name, "echo");
    assert!(!app.auto_exit);
}

#[test]
fn npm_scripts_appended_when_asked_for() {
    let mut cli = bare_cli();
    cli.npm = true;
    let scripts = vec!["dev".to_string(), "test".to_string()];
    let app = merge_config(&cli, None, Some(scripts)).unwrap();
    assert_eq!(app.processes.len(), 2);
    assert_eq!(app.processes[0].name, "dev");
    assert_eq!(app.processes[0].command, "npm run dev");
    assert!(!app.processes[0].autostart);
    assert_eq!(app.processes[1].command, "npm run test");
}

#[test]
fn no_sources_is_an_error() {
    match merge_config(&bare_cli(), None, None) {
        Err(e) => assert_eq!(e, ConfigError::NoProcesses),
        Ok(_) => panic!("expected an error with no sources"),
    }
}

#[test]
fn pane_size_reserves_list_and_bars() {
    assert_eq!(pane_size(80, 24), (20, 58));
    // tiny terminals still get a one-cell pane
    assert_eq!(pane_size(3, 2), (1, 1));
}

#[test]
fn app_starts_on_the_process_list() {
    let config = AppConfig {
        processes: Vec::new(),
        auto_exit: true,
    };
    let app = App::new(config, 80, 24);
    assert!(!app.should_quit);
    assert_eq!(app.ui_state.selected_process, 0);
    assert!(app.ui_state.show_keymap);
    assert!(app.auto_exit);
    // auto-exit waits for at least one configured process
    assert!(!app.should_auto_exit());
}
