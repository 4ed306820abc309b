use vstd::prelude::*;
use crate::model::{Dispatch, Workspace, WorkspacesModuleConfig};

verus! {

/// The aggregate of the workspaces that share one virtual desktop.
#[derive(Debug, Clone, Copy)]
pub struct VirtualDesktop {
    pub active: bool,
    pub windows: u16,
}

/// The degraded backend, for a window manager whose workspaces cannot be
/// queried: it reports none and issues no command.
pub struct NiriWorkspaceManager;

impl NiriWorkspaceManager {
    /// Always the empty list.
    pub fn get_workspaces(config: &WorkspacesModuleConfig) -> (r: Vec<Workspace>)
        ensures
            r@.len() == 0,
    {
        Vec::new()
    }

    /// No command.
    pub fn change_workspace(id: i32, config: &WorkspacesModuleConfig) -> (r: Vec<Dispatch>)
        ensures
            r@.len() == 0,
    {
        Vec::new()
    }

    /// No command.
    pub fn toggle_special_workspace(workspace: &Workspace) -> (r: Vec<Dispatch>)
        ensures
            r@.len() == 0,
    {
        Vec::new()
    }
}

} // verus!
