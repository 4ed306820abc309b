use ashell_workspaces::hyprland::{HyprMonitor, HyprWorkspace, HyprlandWorkspaceManager};
use ashell_workspaces::model::{Dispatch, Displayed, Workspace, WorkspacesModuleConfig};
use ashell_workspaces::niri::NiriWorkspaceManager;

fn ws(id: i32, name: &str, monitor_id: Option<i128>, monitor: &str, windows: u16) -> HyprWorkspace {
    HyprWorkspace {
        id,
        name: name.to_string(),
        monitor_id,
        monitor: monitor.to_string(),
        windows,
    }
}

fn mon(active: i32, special: i32) -> HyprMonitor {
    HyprMonitor {
        active_workspace_id: active,
        special_workspace_id: special,
    }
}

fn config(virtual_desktops: bool, filling: bool, max: Option<u32>, names: &[&str]) -> WorkspacesModuleConfig {
    WorkspacesModuleConfig {
        enable_virtual_desktops: virtual_desktops,
        enable_workspace_filling: filling,
        max_workspaces: max,
        workspace_names: names.iter().map(|n| n.to_string()).collect(),
    }
}

fn ids(r: &[Workspace]) -> Vec<i32> {
    r.iter().map(|w| w.id).collect()
}

#[test]
fn output_sorted_and_unique() {
    let cfg = config(false, false, None, &[]);
    let input = vec![
        ws(3, "3", Some(0), "DP-1", 1),
        ws(-98, "special:scratch", Some(0), "DP-1", 2),
        ws(1, "1", Some(1), "HDMI-1", 0),
        ws(3, "3", Some(1), "HDMI-1", 9),
        ws(2, "2", Some(0), "DP-1", 4),
    ];
    let r = HyprlandWorkspaceManager::get_workspaces(&cfg, Some(1), &vec![mon(1, 0)], input);
    assert_eq!(ids(&r), vec![-98, 1, 2, 3]);
}

#[test]
fn duplicate_ids_collapse_to_first() {
    let cfg = config(false, false, None, &[]);
    let input = vec![ws(4, "4", Some(0), "DP-1", 2), ws(4, "4", Some(7), "HDMI-1", 5)];
    let r = HyprlandWorkspaceManager::get_workspaces(&cfg, None, &vec![], input);
    assert_eq!(r.len(), 1);
    assert_eq!(r[0].id, 4);
    assert_eq!(r[0].windows, 2);
    assert_eq!(r[0].monitor_id, Some(0));
    assert_eq!(r[0].monitor, "DP-1");
}

#[test]
fn per_monitor_displayed_states() {
    let cfg = config(false, false, None, &["web"]);
    let input = vec![
        ws(1, "1", Some(0), "DP-1", 3),
        ws(2, "2", Some(1), "HDMI-1", 1),
        ws(5, "5", Some(0), "DP-1", 0),
    ];
    let monitors = vec![mon(1, 0), mon(2, 0)];
    let r = HyprlandWorkspaceManager::get_workspaces(&cfg, Some(1), &monitors, input);
    assert_eq!(ids(&r), vec![1, 2, 5]);
    assert_eq!(r[0].displayed, Displayed::Active);
    assert_eq!(r[0].name, "web");
    assert_eq!(r[1].displayed, Displayed::Visible);
    assert_eq!(r[1].name, "2");
    assert_eq!(r[2].displayed, Displayed::Hidden);
    assert_eq!(r[2].name, "5");
    assert_eq!(r[2].monitor, "DP-1");
}

#[test]
fn special_workspace_name_and_state() {
    let cfg = config(false, false, None, &[]);
    let input = vec![
        ws(-98, "special:music", Some(2), "DP-1", 1),
        ws(-97, "special:a:b", None, "", 0),
        ws(-99, "scratch", Some(0), "DP-1", 0),
    ];
    let monitors = vec![mon(1, -98)];
    let r = HyprlandWorkspaceManager::get_workspaces(&cfg, Some(1), &monitors, input);
    assert_eq!(ids(&r), vec![-99, -98, -97]);
    assert_eq!(r[0].name, "scratch");
    assert_eq!(r[0].displayed, Displayed::Hidden);
    assert_eq!(r[1].name, "music");
    assert_eq!(r[1].displayed, Displayed::Active);
    assert_eq!(r[1].monitor_id, Some(2));
    assert_eq!(r[2].name, "b");
}

#[test]
fn virtual_desktops_aggregate_two_monitors() {
    let cfg = config(true, false, None, &["one"]);
    let input = vec![
        ws(1, "1", Some(0), "DP-1", 2),
        ws(2, "2", Some(1), "HDMI-1", 3),
        ws(3, "3", Some(0), "DP-1", 1),
        ws(4, "4", Some(1), "HDMI-1", 4),
    ];
    let monitors = vec![mon(3, 0), mon(4, 0)];
    let r = HyprlandWorkspaceManager::get_workspaces(&cfg, Some(3), &monitors, input);
    assert_eq!(ids(&r), vec![1, 2]);
    assert_eq!(r[0].windows, 5);
    assert_eq!(r[0].displayed, Displayed::Hidden);
    assert_eq!(r[0].name, "one");
    assert_eq!(r[0].monitor_id, None);
    assert_eq!(r[0].monitor, "");
    assert_eq!(r[1].windows, 5);
    assert_eq!(r[1].displayed, Displayed::Active);
    assert_eq!(r[1].name, "2");
}

#[test]
fn virtual_desktops_with_no_monitors_count_one() {
    let cfg = config(true, false, None, &[]);
    let input = vec![ws(1, "1", None, "", 1), ws(2, "2", None, "", 1)];
    let r = HyprlandWorkspaceManager::get_workspaces(&cfg, None, &vec![], input);
    assert_eq!(ids(&r), vec![1, 2]);
    assert!(r.iter().all(|w| w.displayed == Displayed::Hidden));
}

#[test]
fn virtual_desktop_windows_saturate() {
    let cfg = config(true, false, None, &[]);
    let input = vec![ws(1, "1", None, "", 60000), ws(2, "2", None, "", 60000)];
    let r = HyprlandWorkspaceManager::get_workspaces(&cfg, None, &vec![mon(1, 0), mon(2, 0)], input);
    assert_eq!(r.len(), 1);
    assert_eq!(r[0].windows, u16::MAX);
}

#[test]
fn filling_adds_missing_ids() {
    let cfg = config(false, true, None, &[]);
    let input = vec![ws(1, "1", Some(0), "DP-1", 2), ws(3, "3", Some(0), "DP-1", 1)];
    let r = HyprlandWorkspaceManager::get_workspaces(&cfg, Some(1), &vec![mon(1, 0)], input);
    assert_eq!(ids(&r), vec![1, 2, 3]);
    assert_eq!(r[1].windows, 0);
    assert_eq!(r[1].displayed, Displayed::Hidden);
    assert_eq!(r[1].monitor_id, None);
    assert_eq!(r[1].name, "2");
}

#[test]
fn no_filling_when_disabled() {
    let cfg = config(false, false, None, &[]);
    let input = vec![ws(1, "1", Some(0), "DP-1", 2), ws(3, "3", Some(0), "DP-1", 1)];
    let r = HyprlandWorkspaceManager::get_workspaces(&cfg, Some(1), &vec![mon(1, 0)], input);
    assert_eq!(ids(&r), vec![1, 3]);
}

#[test]
fn filling_up_to_max_workspaces() {
    let cfg = config(false, true, Some(5), &["a", "b", "c", "d"]);
    let input = vec![ws(-98, "special:x", None, "", 0), ws(2, "2", Some(0), "DP-1", 2)];
    let r = HyprlandWorkspaceManager::get_workspaces(&cfg, Some(2), &vec![mon(2, 0)], input);
    assert_eq!(ids(&r), vec![-98, 1, 2, 3, 4, 5]);
    assert_eq!(r[1].name, "a");
    assert_eq!(r[4].name, "d");
    assert_eq!(r[5].name, "5");
}

#[test]
fn no_filling_without_normal_workspaces() {
    let cfg = config(false, true, Some(3), &[]);
    let input = vec![ws(-98, "special:x", None, "", 0)];
    let r = HyprlandWorkspaceManager::get_workspaces(&cfg, None, &vec![], input);
    assert_eq!(ids(&r), vec![-98]);
}

#[test]
fn no_filling_with_virtual_desktops() {
    let cfg = config(true, true, Some(4), &[]);
    let input = vec![ws(1, "1", None, "", 0)];
    let r = HyprlandWorkspaceManager::get_workspaces(&cfg, None, &vec![mon(1, 0)], input);
    assert_eq!(ids(&r), vec![1]);
}

#[test]
fn empty_input_gives_empty_list() {
    let cfg = config(false, true, Some(3), &[]);
    let r = HyprlandWorkspaceManager::get_workspaces(&cfg, None, &vec![], vec![]);
    assert!(r.is_empty());
}

#[test]
fn reconciliation_is_repeatable() {
    let cfg = config(false, true, Some(4), &["x"]);
    let make = || {
        vec![
            ws(3, "3", Some(0), "DP-1", 1),
            ws(-98, "special:s", Some(0), "DP-1", 0),
            ws(1, "1", Some(1), "HDMI-1", 2),
            ws(3, "3", Some(1), "HDMI-1", 7),
        ]
    };
    let monitors = vec![mon(1, -98), mon(3, 0)];
    let a = HyprlandWorkspaceManager::get_workspaces(&cfg, Some(1), &monitors, make());
    let b = HyprlandWorkspaceManager::get_workspaces(&cfg, Some(1), &monitors, make());
    assert_eq!(a.len(), b.len());
    for (x, y) in a.iter().zip(b.iter()) {
        assert_eq!(x.id, y.id);
        assert_eq!(x.name, y.name);
        assert_eq!(x.monitor_id, y.monitor_id);
        assert_eq!(x.monitor, y.monitor);
        assert_eq!(x.displayed, y.displayed);
        assert_eq!(x.windows, y.windows);
    }
}

#[test]
fn at_most_one_active_entry() {
    let cfg = config(false, true, Some(6), &[]);
    let input = vec![ws(1, "1", Some(0), "DP-1", 1), ws(4, "4", Some(1), "HDMI-1", 1)];
    let monitors = vec![mon(1, 0), mon(4, 0)];
    let r = HyprlandWorkspaceManager::get_workspaces(&cfg, Some(4), &monitors, input);
    let active: Vec<i32> = r.iter().filter(|w| w.displayed == Displayed::Active).map(|w| w.id).collect();
    assert_eq!(active, vec![4]);
}

#[test]
fn change_workspace_native_command() {
    let cfg = config(false, false, None, &[]);
    let d = HyprlandWorkspaceManager::change_workspace(7, &cfg);
    assert_eq!(d.len(), 1);
    assert!(matches!(d[0], Dispatch::Workspace(7)));
}

#[test]
fn change_workspace_virtual_desktop_command() {
    let cfg = config(true, false, None, &[]);
    let d = HyprlandWorkspaceManager::change_workspace(12, &cfg);
    assert_eq!(d.len(), 1);
    match &d[0] {
        Dispatch::Custom { name, arg } => {
            assert_eq!(name, "vdesk");
            assert_eq!(arg, "12");
        }
        other => panic!("unexpected command {other:?}"),
    }
}

#[test]
fn toggle_special_focuses_monitor_then_toggles() {
    let w = Workspace {
        id: -98,
        name: "music".to_string(),
        monitor_id: Some(3),
        monitor: "DP-1".to_string(),
        displayed: Displayed::Hidden,
        windows: 0,
    };
    let d = HyprlandWorkspaceManager::toggle_special_workspace(&w);
    assert_eq!(d.len(), 2);
    assert!(matches!(d[0], Dispatch::FocusMonitor(3)));
    match &d[1] {
        Dispatch::ToggleSpecialWorkspace(name) => assert_eq!(name, "music"),
        other => panic!("unexpected command {other:?}"),
    }
    let unknown = Workspace { monitor_id: None, ..w };
    let d = HyprlandWorkspaceManager::toggle_special_workspace(&unknown);
    assert!(matches!(d[0], Dispatch::FocusMonitor(0)));
}

#[test]
fn degraded_backend_is_empty() {
    let cfg = config(false, true, Some(3), &[]);
    assert!(NiriWorkspaceManager::get_workspaces(&cfg).is_empty());
    assert!(NiriWorkspaceManager::change_workspace(2, &cfg).is_empty());
    let w = Workspace {
        id: -1,
        name: "s".to_string(),
        monitor_id: None,
        monitor: String::new(),
        displayed: Displayed::Hidden,
        windows: 0,
    };
    assert!(NiriWorkspaceManager::toggle_special_workspace(&w).is_empty());
}
