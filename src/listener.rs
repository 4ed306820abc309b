use vstd::prelude::*;
use crate::model::{Message, WorkspacesModuleConfig};

verus! {

/// What the window manager's event stream can deliver to the listener.
#[derive(Debug, Clone, Copy, PartialEq, Eq, Structural)]
pub enum ListenerEvent {
    WorkspaceAdded,
    WorkspaceChanged,
    WorkspaceDeleted,
    WorkspaceMoved,
    SpecialWorkspaceChanged,
    SpecialWorkspaceRemoved,
    WindowOpened,
    WindowClosed,
    WindowMoved,
    ActiveMonitorChanged,
    /// The session ended, by an error or a disconnect.
    Stopped,
}

/// What the listener does next.
#[derive(Debug, Clone, Copy, PartialEq, Eq, Structural)]
pub enum ListenerAction {
    /// Offer this message to the output channel; drop it if the channel is full.
    Notify(Message),
    /// Open a new session and listen again.
    Restart,
}

/// The listener's rule: every change, whatever it carries, becomes one
/// coalesced `WorkspacesChanged`; a session that ends is replaced, so the
/// listener never gives up.
pub fn on_listener_event(event: ListenerEvent) -> (a: ListenerAction)
    ensures
        event == ListenerEvent::Stopped ==> a == ListenerAction::Restart,
        event != ListenerEvent::Stopped ==> a == ListenerAction::Notify(Message::WorkspacesChanged),
{
    match event {
        ListenerEvent::Stopped => ListenerAction::Restart,
        _ => ListenerAction::Notify(Message::WorkspacesChanged),
    }
}

/// The setting that is part of the subscription's identity besides the
/// backend: when it changes, the listener is torn down and started anew.
pub fn subscription_flag(config: &WorkspacesModuleConfig) -> (r: bool)
    ensures
        r == config.enable_workspace_filling,
{
    config.enable_workspace_filling
}

} // verus!
