use vstd::prelude::*;
use crate::model::{Displayed, Message, Workspace, WorkspacesModuleConfig};

verus! {

/// What the caller has to do after the controller handled a message.
#[derive(Debug, Clone, Copy, PartialEq, Eq, Structural)]
pub enum Action {
    /// Nothing.
    Nothing,
    /// Query the backend again and hand the list to [`Workspaces::refresh`].
    Refresh,
    /// Ask the backend to switch to the workspace with this id.
    ChangeWorkspace(i32),
    /// Ask the backend to toggle the special workspace at this index of the list.
    ToggleSpecialWorkspace(usize),
}

/// The workspace widget's state: its settings and the current list.
pub struct Workspaces {
    config: WorkspacesModuleConfig,
    workspaces: Vec<Workspace>,
}

/// Workspace `id` is the active one in `ws`.
pub open spec fn already_active(ws: Seq<Workspace>, id: int) -> bool {
    exists|i: int| 0 <= i < ws.len() && ws[i].displayed == Displayed::Active && ws[i].id == id
}

/// The action for a request to switch to workspace `id`: only positive ids
/// that are not active already lead to a switch.
pub open spec fn change_action(ws: Seq<Workspace>, id: i32) -> Action {
    if id > 0 && !already_active(ws, id as int) {
        Action::ChangeWorkspace(id)
    } else {
        Action::Nothing
    }
}

/// `i` is the first entry of `ws` that is a special workspace with id `id`.
pub open spec fn first_special(ws: Seq<Workspace>, id: i32, i: int) -> bool {
    &&& 0 <= i < ws.len()
    &&& ws[i].id == id && id < 0
    &&& forall|j: int| 0 <= j < i ==> (#[trigger] ws[j]).id != id
}

/// `i` is the first active entry of `ws`.
pub open spec fn first_active(ws: Seq<Workspace>, i: int) -> bool {
    &&& 0 <= i < ws.len()
    &&& ws[i].displayed == Displayed::Active
    &&& forall|j: int| 0 <= j < i ==> (#[trigger] ws[j]).displayed != Displayed::Active
}

/// `x` is the smallest id in `ws` above `cur`.
pub open spec fn next_above(ws: Seq<Workspace>, cur: i32, x: i32) -> bool {
    &&& exists|i: int| 0 <= i < ws.len() && ws[i].id == x
    &&& x > cur
    &&& forall|j: int| 0 <= j < ws.len() && (#[trigger] ws[j]).id > cur ==> ws[j].id >= x
}

/// `x` is the largest id in `ws` below `cur`.
pub open spec fn next_below(ws: Seq<Workspace>, cur: i32, x: i32) -> bool {
    &&& exists|i: int| 0 <= i < ws.len() && ws[i].id == x
    &&& x < cur
    &&& forall|j: int| 0 <= j < ws.len() && (#[trigger] ws[j]).id < cur ==> ws[j].id <= x
}

/// The action for a scroll by `direction` from the active workspace `cur`:
/// switch to the nearest id above (`direction > 0`) or below, if any.
pub open spec fn scroll_action(ws: Seq<Workspace>, cur: i32, direction: i32, a: Action) -> bool {
    if direction > 0 {
        if exists|x: i32| next_above(ws, cur, x) {
            exists|x: i32| next_above(ws, cur, x) && a == change_action(ws, x)
        } else {
            a == Action::Nothing
        }
    } else {
        if exists|x: i32| next_below(ws, cur, x) {
            exists|x: i32| next_below(ws, cur, x) && a == change_action(ws, x)
        } else {
            a == Action::Nothing
        }
    }
}

/// The action the controller takes on `message` with the list `ws`.
pub open spec fn action_for(ws: Seq<Workspace>, message: Message, a: Action) -> bool {
    match message {
        Message::WorkspacesChanged => a == Action::Refresh,
        Message::ChangeWorkspace(id) => a == change_action(ws, id),
        Message::ToggleSpecialWorkspace(id) => if exists|i: int| first_special(ws, id, i) {
            exists|i: int| first_special(ws, id, i) && a == Action::ToggleSpecialWorkspace(i as usize)
        } else {
            a == Action::Nothing
        },
        Message::Scroll(direction) => if exists|i: int| first_active(ws, i) {
            exists|i: int| first_active(ws, i) && scroll_action(ws, ws[i].id, direction, a)
        } else {
            a == Action::Nothing
        },
    }
}

impl Workspaces {
    /// The widget with settings `config` and the first list `workspaces`.
    pub fn new(config: WorkspacesModuleConfig, workspaces: Vec<Workspace>) -> (r: Self)
        ensures
            r.config() == config,
            r.workspaces() == workspaces@,
    {
        Workspaces { config, workspaces }
    }

    /// The settings.
    pub closed spec fn config(&self) -> WorkspacesModuleConfig {
        self.config
    }

    /// The current list.
    pub closed spec fn workspaces(&self) -> Seq<Workspace> {
        self.workspaces@
    }

    /// The settings.
    pub fn get_config(&self) -> (r: &WorkspacesModuleConfig)
        ensures
            *r == self.config(),
    {
        &self.config
    }

    /// The current list.
    pub fn get_workspaces(&self) -> (r: &Vec<Workspace>)
        ensures
            r@ == self.workspaces(),
    {
        &self.workspaces
    }

    /// Replaces the list with a freshly reconciled one.
    pub fn refresh(&mut self, workspaces: Vec<Workspace>)
        ensures
            final(self).workspaces() == workspaces@,
            final(self).config() == old(self).config(),
    {
        self.workspaces = workspaces;
    }

    /// The action on a request to switch to workspace `id`.
    fn change(&self, id: i32) -> (a: Action)
        ensures
            a == change_action(self.workspaces(), id),
    {
        if id <= 0 {
            return Action::Nothing;
        }
        let mut i: usize = 0;
        while i < self.workspaces.len()
            invariant
                i <= self.workspaces@.len(),
                forall|j: int| 0 <= j < i ==> !((#[trigger] self.workspaces@[j]).displayed == Displayed::Active
                    && self.workspaces@[j].id == id),
            decreases self.workspaces@.len() - i,
        {
            if self.workspaces[i].displayed == Displayed::Active && self.workspaces[i].id == id {
                return Action::Nothing;
            }
            i = i + 1;
        }
        Action::ChangeWorkspace(id)
    }

    /// The action on a scroll by `direction` from the active workspace `cur`.
    fn scroll(&self, cur: i32, direction: i32) -> (a: Action)
        ensures
            scroll_action(self.workspaces(), cur, direction, a),
    {
        let ws = &self.workspaces;
        let mut best: Option<i32> = None;
        let mut i: usize = 0;
        while i < ws.len()
            invariant
                i <= ws@.len(),
                ws@ == self.workspaces(),
                match best {
                    None => forall|j: int| 0 <= j < i ==> !(if direction > 0 {
                        (#[trigger] ws@[j]).id > cur
                    } else {
                        ws@[j].id < cur
                    }),
                    Some(x) => (exists|k: int| 0 <= k < i && ws@[k].id == x) && if direction > 0 {
                        x > cur && forall|j: int| 0 <= j < i && (#[trigger] ws@[j]).id > cur ==> ws@[j].id >= x
                    } else {
                        x < cur && forall|j: int| 0 <= j < i && (#[trigger] ws@[j]).id < cur ==> ws@[j].id <= x
                    },
                },
            decreases ws@.len() - i,
        {
            let id = ws[i].id;
            if direction > 0 {
                if id > cur {
                    match best {
                        None => best = Some(id),
                        Some(x) => if id < x {
                            best = Some(id);
                        },
                    }
                }
            } else {
                if id < cur {
                    match best {
                        None => best = Some(id),
                        Some(x) => if id > x {
                            best = Some(id);
                        },
                    }
                }
            }
            i = i + 1;
        }
        match best {
            None => {
                proof {
                    if direction > 0 {
                        assert forall|x: i32| !next_above(ws@, cur, x) by {
                            if next_above(ws@, cur, x) {
                                let k = choose|k: int| 0 <= k < ws@.len() && ws@[k].id == x;
                            }
                        }
                    } else {
                        assert forall|x: i32| !next_below(ws@, cur, x) by {
                            if next_below(ws@, cur, x) {
                                let k = choose|k: int| 0 <= k < ws@.len() && ws@[k].id == x;
                            }
                        }
                    }
                }
                Action::Nothing
            },
            Some(x) => {
                let a = self.change(x);
                proof {
                    if direction > 0 {
                        assert(next_above(ws@, cur, x));
                    } else {
                        assert(next_below(ws@, cur, x));
                    }
                }
                a
            },
        }
    }

    /// Handles `message`: the list stays as it is, and the result says what
    /// the caller has to do.
    pub fn update(&mut self, message: Message) -> (a: Action)
        ensures
            *final(self) == *old(self),
            action_for(old(self).workspaces(), message, a),
    {
        match message {
            Message::WorkspacesChanged => Action::Refresh,
            Message::ChangeWorkspace(id) => self.change(id),
            Message::ToggleSpecialWorkspace(id) => {
                let mut i: usize = 0;
                while i < self.workspaces.len()
                    invariant
                        i <= self.workspaces@.len(),
                        message == Message::ToggleSpecialWorkspace(id),
                        *self == *old(self),
                        forall|j: int| 0 <= j < i ==> !((#[trigger] self.workspaces@[j]).id == id && id < 0),
                    decreases self.workspaces@.len() - i,
                {
                    if self.workspaces[i].id == id && id < 0 {
                        let a = Action::ToggleSpecialWorkspace(i);
                        assert(first_special(self.workspaces(), id, i as int) && a == Action::ToggleSpecialWorkspace(
                            (i as int) as usize,
                        ));
                        return a;
                    }
                    i = i + 1;
                }
                proof {
                    assert forall|k: int| !first_special(self.workspaces@, id, k) by {
                        if first_special(self.workspaces@, id, k) {
                            assert(!(self.workspaces@[k].id == id && id < 0));
                        }
                    }
                }
                Action::Nothing
            },
            Message::Scroll(direction) => {
                let mut i: usize = 0;
                while i < self.workspaces.len()
                    invariant
                        i <= self.workspaces@.len(),
                        message == Message::Scroll(direction),
                        *self == *old(self),
                        forall|j: int| 0 <= j < i ==> (#[trigger] self.workspaces@[j]).displayed != Displayed::Active,
                    decreases self.workspaces@.len() - i,
                {
                    if self.workspaces[i].displayed == Displayed::Active {
                        assert(first_active(self.workspaces@, i as int));
                        let cur = self.workspaces[i].id;
                        let a = self.scroll(cur, direction);
                        assert(first_active(self.workspaces(), i as int) && scroll_action(
                            self.workspaces(),
                            self.workspaces()[i as int].id,
                            direction,
                            a,
                        ));
                        return a;
                    }
                    i = i + 1;
                }
                proof {
                    assert forall|k: int| !first_active(self.workspaces@, k) by {
                        if first_active(self.workspaces@, k) {
                            assert(self.workspaces@[k].displayed != Displayed::Active);
                        }
                    }
                }
                Action::Nothing
            },
        }
    }
}

/// Asking to switch to the workspace that is already active issues no command.
pub proof fn lemma_change_to_active_is_noop(ws: Seq<Workspace>, id: i32, a: Action)
    requires
        already_active(ws, id as int),
        action_for(ws, Message::ChangeWorkspace(id), a),
    ensures
        a == Action::Nothing,
{
}

/// Toggling a special workspace by a non-negative id does nothing, since
/// special workspaces have negative ids.
pub proof fn lemma_toggle_non_negative_is_noop(ws: Seq<Workspace>, id: i32, a: Action)
    requires
        id >= 0,
        action_for(ws, Message::ToggleSpecialWorkspace(id), a),
    ensures
        a == Action::Nothing,
{
}

/// Scrolling while no workspace is active does nothing.
pub proof fn lemma_scroll_without_active_is_noop(ws: Seq<Workspace>, direction: i32, a: Action)
    requires
        forall|i: int| 0 <= i < ws.len() ==> (#[trigger] ws[i]).displayed != Displayed::Active,
        action_for(ws, Message::Scroll(direction), a),
    ensures
        a == Action::Nothing,
{
}

} // verus!
