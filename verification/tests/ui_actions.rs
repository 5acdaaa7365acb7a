use betterprocs::config::AppConfig;
use betterprocs::types::ProcessConfig;
use betterprocs::ui::{Action, ActiveTab, App, Effect, Scope};

fn app_with(names: &[&str]) -> App {
    let processes: Vec<ProcessConfig> = names
        .iter()
        .map(|n| ProcessConfig {
            name: n.to_string(),
            command: "echo hi".to_string(),
            autostart: false,
            ..Default::default()
        })
        .collect();
    App::new(
        AppConfig {
            processes,
            auto_exit: false,
        },
        80,
        24,
    )
}

#[test]
fn quit_and_keymap_toggle() {
    let mut app = app_with(&["a"]);
    assert_eq!(app.dispatch(Action::ToggleKeymap), Effect::Nothing);
    assert!(!app.ui_state.show_keymap);
    assert_eq!(app.dispatch(Action::Quit), Effect::Nothing);
    assert!(app.should_quit);
}

#[test]
fn selection_wraps_over_the_process_list() {
    let mut app = app_with(&["a", "b", "c"]);
    app.dispatch(Action::SelectNext);
    assert_eq!(app.ui_state.selected_process, 1);
    app.dispatch(Action::SelectNext);
    app.dispatch(Action::SelectNext);
    assert_eq!(app.ui_state.selected_process, 0);
    app.dispatch(Action::SelectPrev);
    assert_eq!(app.ui_state.selected_process, 2);
    app.dispatch(Action::SelectIndex(1));
    assert_eq!(app.ui_state.selected_process, 1);
    app.dispatch(Action::SelectIndex(9));
    assert_eq!(app.ui_state.selected_process, 1);
}

#[test]
fn zoom_and_focus_transitions() {
    let mut app = app_with(&["a"]);
    assert_eq!(app.ui_state.scope, Scope::ProcessList);
    app.dispatch(Action::FocusTerminal);
    assert_eq!(app.ui_state.scope, Scope::Terminal);
    app.dispatch(Action::ToggleZoom);
    assert_eq!(app.ui_state.scope, Scope::TerminalZoomed);
    app.dispatch(Action::ToggleZoom);
    assert_eq!(app.ui_state.scope, Scope::Terminal);
    app.dispatch(Action::FocusProcessList);
    assert_eq!(app.ui_state.scope, Scope::ProcessList);
}

#[test]
fn tab_switching_asks_for_a_port_rescan() {
    let mut app = app_with(&[]);
    assert_eq!(app.dispatch(Action::SwitchToPortKiller), Effect::RescanPorts);
    assert_eq!(app.active_tab, ActiveTab::PortKiller);
    assert_eq!(app.dispatch(Action::SwitchToProcesses), Effect::Nothing);
    assert_eq!(app.active_tab, ActiveTab::Processes);
}

#[test]
fn port_filter_typing_triggers_rescans() {
    let mut app = app_with(&[]);
    app.dispatch(Action::SwitchToPortKiller);
    assert_eq!(app.dispatch(Action::PortKillerType('8')), Effect::RescanPorts);
    assert_eq!(app.dispatch(Action::PortKillerType('q')), Effect::Nothing);
    assert_eq!(app.port_killer.port_input, "8");
    assert_eq!(app.dispatch(Action::PortKillerBackspace), Effect::RescanPorts);
    assert_eq!(app.port_killer.port_input, "");
    assert_eq!(app.dispatch(Action::PortKillerClear), Effect::RescanPorts);
}

#[test]
fn mouse_selection_lifecycle() {
    let mut app = app_with(&["a"]);
    app.dispatch(Action::MouseDragStart(30, 5));
    app.dispatch(Action::MouseDragEnd(40, 6));
    assert_eq!(app.ui_state.selection_start, Some((30, 5)));
    assert_eq!(app.ui_state.selection_end, Some((40, 6)));
    assert_eq!(app.dispatch(Action::CopySelection), Effect::CopySelection);
    assert_eq!(app.ui_state.selection_start, None);
    assert_eq!(app.ui_state.selection_end, None);
}
