use vstd::prelude::*;

verus! {

/// How a workspace is currently shown.
#[derive(PartialEq, Eq, Debug, Clone, Copy, Structural)]
pub enum Displayed {
    Active,
    Visible,
    Hidden,
}

/// One addressable workspace slot of the widget.
#[derive(Debug, Clone)]
pub struct Workspace {
    pub id: i32,
    pub name: String,
    pub monitor_id: Option<i128>,
    pub monitor: String,
    pub displayed: Displayed,
    pub windows: u16,
}

/// The mathematical value of a [`Workspace`]: its strings as character sequences.
pub ghost struct WorkspaceView {
    pub id: i32,
    pub name: Seq<char>,
    pub monitor_id: Option<i128>,
    pub monitor: Seq<char>,
    pub displayed: Displayed,
    pub windows: u16,
}

impl View for Workspace {
    type V = WorkspaceView;

    open spec fn view(&self) -> WorkspaceView {
        WorkspaceView {
            id: self.id,
            name: self.name@,
            monitor_id: self.monitor_id,
            monitor: self.monitor@,
            displayed: self.displayed,
            windows: self.windows,
        }
    }
}

/// The views of a list of workspaces.
pub open spec fn views(s: Seq<Workspace>) -> Seq<WorkspaceView> {
    s.map_values(|w: Workspace| w@)
}

/// Messages understood by the workspace controller.
#[derive(Debug, Clone, Copy, PartialEq, Eq, Structural)]
pub enum Message {
    WorkspacesChanged,
    ChangeWorkspace(i32),
    ToggleSpecialWorkspace(i32),
    Scroll(i32),
}

/// The settings of the workspace widget that the reconciliation reads.
#[derive(Debug, Clone)]
pub struct WorkspacesModuleConfig {
    pub enable_virtual_desktops: bool,
    pub enable_workspace_filling: bool,
    pub max_workspaces: Option<u32>,
    /// Display names by workspace id: entry `i` names workspace `i + 1`.
    pub workspace_names: Vec<String>,
}

/// A command for the window manager.
#[derive(Debug, Clone)]
pub enum Dispatch {
    /// Switch to the workspace with this id.
    Workspace(i32),
    /// Run the custom command `name` with the argument `arg`.
    Custom { name: String, arg: String },
    /// Focus the monitor with this id.
    FocusMonitor(i128),
    /// Show or hide the special workspace of this name.
    ToggleSpecialWorkspace(String),
}

/// Ids strictly ascending: each id occurs once and the list is sorted.
pub open spec fn strictly_sorted(s: Seq<Workspace>) -> bool {
    forall|i: int, j: int| 0 <= i < j < s.len() ==> (#[trigger] s[i]).id < (#[trigger] s[j]).id
}

/// Some entry of `s` has the id `x`.
pub open spec fn has_entry(s: Seq<Workspace>, x: int) -> bool {
    exists|k: int| 0 <= k < s.len() && s[k].id == x
}

/// The number of entries of `s` that are displayed as active.
pub open spec fn active_count(s: Seq<Workspace>) -> nat
    decreases s.len(),
{
    if s.len() == 0 {
        0
    } else {
        active_count(s.drop_last()) + if s.last().displayed == Displayed::Active {
            1nat
        } else {
            0nat
        }
    }
}

} // verus!
