use ashell_workspaces::controller::{Action, Workspaces};
use ashell_workspaces::listener::{ListenerAction, ListenerEvent, on_listener_event, subscription_flag};
use ashell_workspaces::model::{Displayed, Message, Workspace, WorkspacesModuleConfig};
use ashell_workspaces::window_title::{
    ActiveWindow, HyprlandWindowManager, Message as TitleMessage, NiriWindowManager, WindowTitle,
    WindowTitleConfig, WindowTitleMode,
};

fn entry(id: i32, displayed: Displayed) -> Workspace {
    Workspace {
        id,
        name: id.to_string(),
        monitor_id: None,
        monitor: String::new(),
        displayed,
        windows: 0,
    }
}

fn widget(list: Vec<Workspace>) -> Workspaces {
    let config = WorkspacesModuleConfig {
        enable_virtual_desktops: false,
        enable_workspace_filling: false,
        max_workspaces: None,
        workspace_names: vec![],
    };
    Workspaces::new(config, list)
}

fn four_with_active_three() -> Workspaces {
    widget(vec![
        entry(1, Displayed::Hidden),
        entry(2, Displayed::Visible),
        entry(3, Displayed::Active),
        entry(5, Displayed::Hidden),
    ])
}

#[test]
fn scroll_forward_selects_nearest_greater() {
    let mut w = four_with_active_three();
    assert_eq!(w.update(Message::Scroll(1)), Action::ChangeWorkspace(5));
}

#[test]
fn scroll_backward_selects_nearest_smaller() {
    let mut w = four_with_active_three();
    assert_eq!(w.update(Message::Scroll(-1)), Action::ChangeWorkspace(2));
}

#[test]
fn scroll_without_active_is_noop() {
    let mut w = widget(vec![entry(1, Displayed::Hidden), entry(2, Displayed::Visible)]);
    assert_eq!(w.update(Message::Scroll(1)), Action::Nothing);
    assert_eq!(w.update(Message::Scroll(-1)), Action::Nothing);
}

#[test]
fn scroll_past_the_end_is_noop() {
    let mut w = widget(vec![entry(1, Displayed::Hidden), entry(4, Displayed::Active)]);
    assert_eq!(w.update(Message::Scroll(1)), Action::Nothing);
    assert_eq!(w.update(Message::Scroll(-1)), Action::ChangeWorkspace(1));
}

#[test]
fn scroll_backward_onto_special_workspace_is_noop() {
    let mut w = widget(vec![entry(-98, Displayed::Hidden), entry(1, Displayed::Active)]);
    assert_eq!(w.update(Message::Scroll(-1)), Action::Nothing);
}

#[test]
fn change_to_active_workspace_is_noop() {
    let mut w = four_with_active_three();
    assert_eq!(w.update(Message::ChangeWorkspace(3)), Action::Nothing);
}

#[test]
fn change_to_other_workspace_dispatches() {
    let mut w = four_with_active_three();
    assert_eq!(w.update(Message::ChangeWorkspace(1)), Action::ChangeWorkspace(1));
    assert_eq!(w.update(Message::ChangeWorkspace(9)), Action::ChangeWorkspace(9));
}

#[test]
fn change_to_non_positive_id_is_ignored() {
    let mut w = four_with_active_three();
    assert_eq!(w.update(Message::ChangeWorkspace(0)), Action::Nothing);
    assert_eq!(w.update(Message::ChangeWorkspace(-98)), Action::Nothing);
}

#[test]
fn toggle_special_with_non_negative_id_is_noop() {
    let mut w = widget(vec![entry(0, Displayed::Hidden), entry(2, Displayed::Active)]);
    assert_eq!(w.update(Message::ToggleSpecialWorkspace(2)), Action::Nothing);
    assert_eq!(w.update(Message::ToggleSpecialWorkspace(0)), Action::Nothing);
}

#[test]
fn toggle_special_finds_the_workspace() {
    let mut w = widget(vec![entry(-98, Displayed::Hidden), entry(-97, Displayed::Active), entry(1, Displayed::Active)]);
    assert_eq!(w.update(Message::ToggleSpecialWorkspace(-97)), Action::ToggleSpecialWorkspace(1));
    assert_eq!(w.update(Message::ToggleSpecialWorkspace(-5)), Action::Nothing);
}

#[test]
fn workspaces_changed_asks_for_refresh() {
    let mut w = four_with_active_three();
    assert_eq!(w.update(Message::WorkspacesChanged), Action::Refresh);
    w.refresh(vec![entry(7, Displayed::Active)]);
    assert_eq!(w.get_workspaces().len(), 1);
    assert_eq!(w.get_workspaces()[0].id, 7);
}

#[test]
fn window_title_follows_mode() {
    let by_title = WindowTitleConfig { mode: WindowTitleMode::Title, truncate_title_after_length: 0 };
    let by_class = WindowTitleConfig { mode: WindowTitleMode::Class, truncate_title_after_length: 0 };
    let window = || Some(ActiveWindow { title: "Inbox".to_string(), class: "thunderbird".to_string() });
    assert_eq!(HyprlandWindowManager::get_window(&by_title, window()), Some("Inbox".to_string()));
    assert_eq!(HyprlandWindowManager::get_window(&by_class, window()), Some("thunderbird".to_string()));
    assert_eq!(HyprlandWindowManager::get_window(&by_title, None), None);
    assert_eq!(NiriWindowManager::get_window(&by_title), None);
    let mut t = WindowTitle::new(by_title, None);
    assert_eq!(t.get_value(), None);
    t.update(TitleMessage::TitleChanged, Some("Editor".to_string()));
    assert_eq!(t.get_value(), Some("Editor".to_string()));
}

#[test]
fn listener_coalesces_events_and_restarts() {
    for event in [
        ListenerEvent::WorkspaceAdded,
        ListenerEvent::WorkspaceDeleted,
        ListenerEvent::SpecialWorkspaceRemoved,
        ListenerEvent::WindowMoved,
        ListenerEvent::ActiveMonitorChanged,
    ] {
        assert_eq!(on_listener_event(event), ListenerAction::Notify(Message::WorkspacesChanged));
    }
    assert_eq!(on_listener_event(ListenerEvent::Stopped), ListenerAction::Restart);
    let config = WorkspacesModuleConfig {
        enable_virtual_desktops: true,
        enable_workspace_filling: true,
        max_workspaces: None,
        workspace_names: vec![],
    };
    assert!(subscription_flag(&config));
}
