use vstd::prelude::*;
use itertools::Itertools;
use crate::model::{Dispatch, Displayed, Workspace, WorkspaceView, WorkspacesModuleConfig, strictly_sorted, has_entry};

verus! {

/// A workspace as the window manager reports it.
#[derive(Debug, Clone)]
pub struct HyprWorkspace {
    pub id: i32,
    pub name: String,
    pub monitor_id: Option<i128>,
    pub monitor: String,
    pub windows: u16,
}

/// What the reconciliation reads of a monitor: the workspace it shows and
/// the special workspace assigned to it.
#[derive(Debug, Clone, Copy)]
pub struct HyprMonitor {
    pub active_workspace_id: i32,
    pub special_workspace_id: i32,
}

/// The aggregate of the normal workspaces that share one virtual desktop.
#[derive(Debug, Clone, Copy)]
pub struct VirtualDesktop {
    pub active: bool,
    pub windows: u16,
}

/// The full-featured backend.
pub struct HyprlandWorkspaceManager;

/// The decimal digit `d` as a character.
pub open spec fn digit_char(d: int) -> char {
    seq!['0', '1', '2', '3', '4', '5', '6', '7', '8', '9'][d]
}

/// The decimal digits of `n`, without leading zeros.
pub open spec fn digits(n: nat) -> Seq<char>
    decreases n,
{
    if n < 10 {
        seq![digit_char(n as int)]
    } else {
        digits(n / 10).push(digit_char((n % 10) as int))
    }
}

/// `n` written in decimal, with a leading `-` when negative.
pub open spec fn decimal(n: int) -> Seq<char> {
    if n < 0 {
        seq!['-'] + digits((-n) as nat)
    } else {
        digits(n as nat)
    }
}

/// The part of `s` after its last `:`; all of `s` when it holds none.
pub open spec fn after_last_colon(s: Seq<char>) -> Seq<char>
    decreases s.len(),
{
    if s.len() == 0 {
        s
    } else if s.last() == ':' {
        Seq::empty()
    } else {
        after_last_colon(s.drop_last()).push(s.last())
    }
}

/// The label of workspace `id`: its configured name, else its decimal id.
pub open spec fn display_name(names: Seq<String>, id: int) -> Seq<char> {
    if 1 <= id <= names.len() {
        names[id - 1]@
    } else {
        decimal(id)
    }
}

/// Some workspace of `s` has the id `id`.
pub open spec fn has_id(s: Seq<HyprWorkspace>, id: int) -> bool {
    exists|i: int| 0 <= i < s.len() && s[i].id == id
}

/// `s` with every workspace dropped whose id occurred earlier.
pub open spec fn first_occurrences(s: Seq<HyprWorkspace>) -> Seq<HyprWorkspace>
    decreases s.len(),
{
    if s.len() == 0 {
        s
    } else {
        let p = first_occurrences(s.drop_last());
        if has_id(p, s.last().id as int) {
            p
        } else {
            p.push(s.last())
        }
    }
}

/// No two workspaces of `s` share an id.
pub open spec fn distinct_ids(s: Seq<HyprWorkspace>) -> bool {
    forall|i: int, j: int| 0 <= i < j < s.len() ==> (#[trigger] s[i]).id != (#[trigger] s[j]).id
}

/// The number of monitors, where none counts as one.
pub open spec fn monitor_count(mons: Seq<HyprMonitor>) -> int {
    if mons.len() == 0 {
        1
    } else {
        mons.len() as int
    }
}

/// The virtual desktop of normal workspace `id` with `mc` monitors:
/// `(id - 1) / mc + 1`, the division truncating toward zero.
#[verifier::opaque]
pub open spec fn vdesk_id(id: int, mc: int) -> int {
    if id == 0 {
        if mc == 1 {
            0
        } else {
            1
        }
    } else {
        (id - 1) / mc + 1
    }
}

/// `w` is a normal workspace that belongs to virtual desktop `vd`.
pub open spec fn in_vdesk(w: HyprWorkspace, vd: int, mc: int) -> bool {
    w.id >= 0 && vdesk_id(w.id as int, mc) == vd
}

/// Some monitor has the special workspace `id` assigned.
pub open spec fn shows_special(mons: Seq<HyprMonitor>, id: int) -> bool {
    exists|m: int| 0 <= m < mons.len() && mons[m].special_workspace_id == id
}

/// Some monitor currently shows workspace `id`.
pub open spec fn shows_workspace(mons: Seq<HyprMonitor>, id: int) -> bool {
    exists|m: int| 0 <= m < mons.len() && mons[m].active_workspace_id == id
}

/// The record of special workspace `w`.
pub open spec fn special_view(w: HyprWorkspace, mons: Seq<HyprMonitor>) -> WorkspaceView {
    WorkspaceView {
        id: w.id,
        name: after_last_colon(w.name@),
        monitor_id: w.monitor_id,
        monitor: w.monitor@,
        displayed: if shows_special(mons, w.id as int) {
            Displayed::Active
        } else {
            Displayed::Hidden
        },
        windows: w.windows,
    }
}

/// The record of normal workspace `w` when each monitor has its own workspaces.
pub open spec fn normal_view(
    w: HyprWorkspace,
    names: Seq<String>,
    active: Option<i32>,
    mons: Seq<HyprMonitor>,
) -> WorkspaceView {
    WorkspaceView {
        id: w.id,
        name: if w.id > 0 {
            display_name(names, w.id as int)
        } else {
            w.name@
        },
        monitor_id: w.monitor_id,
        monitor: w.monitor@,
        displayed: if active == Some(w.id) {
            Displayed::Active
        } else if shows_workspace(mons, w.id as int) {
            Displayed::Visible
        } else {
            Displayed::Hidden
        },
        windows: w.windows,
    }
}

/// The sum of the window counts of the workspaces of `s` in virtual desktop `vd`.
pub open spec fn vdesk_windows(s: Seq<HyprWorkspace>, vd: int, mc: int) -> nat
    decreases s.len(),
{
    if s.len() == 0 {
        0
    } else {
        vdesk_windows(s.drop_last(), vd, mc) + if in_vdesk(s.last(), vd, mc) {
            s.last().windows as nat
        } else {
            0nat
        }
    }
}

/// Virtual desktop `vd` holds the active workspace.
pub open spec fn vdesk_active(s: Seq<HyprWorkspace>, vd: int, mc: int, active: Option<i32>) -> bool {
    exists|i: int| 0 <= i < s.len() && in_vdesk(s[i], vd, mc) && active == Some(s[i].id)
}

/// `n`, or the largest `u16` where `n` is larger.
pub open spec fn saturate(n: nat) -> u16 {
    if n > u16::MAX {
        u16::MAX
    } else {
        n as u16
    }
}

/// The record of virtual desktop `vd`.
pub open spec fn vdesk_view(
    s: Seq<HyprWorkspace>,
    vd: int,
    names: Seq<String>,
    mc: int,
    active: Option<i32>,
) -> WorkspaceView {
    WorkspaceView {
        id: vd as i32,
        name: display_name(names, vd),
        monitor_id: None,
        monitor: Seq::empty(),
        displayed: if vdesk_active(s, vd, mc, active) {
            Displayed::Active
        } else {
            Displayed::Hidden
        },
        windows: saturate(vdesk_windows(s, vd, mc)),
    }
}

/// The placeholder record of workspace `id`, which does not exist yet.
pub open spec fn placeholder_view(id: int, names: Seq<String>) -> WorkspaceView {
    WorkspaceView {
        id: id as i32,
        name: display_name(names, id),
        monitor_id: None,
        monitor: Seq::empty(),
        displayed: Displayed::Hidden,
        windows: 0,
    }
}

/// The largest positive id in `s`, or 0.
pub open spec fn max_positive_id(s: Seq<HyprWorkspace>) -> int
    decreases s.len(),
{
    if s.len() == 0 {
        0
    } else {
        let m = max_positive_id(s.drop_last());
        if s.last().id > m {
            s.last().id as int
        } else {
            m
        }
    }
}

/// The last id that workspace filling reaches: the largest existing id, or the
/// configured maximum (at most the largest `i32`) where that is larger.
pub open spec fn fill_limit(max_workspaces: Option<u32>, s: Seq<HyprWorkspace>) -> int {
    let cap: int = match max_workspaces {
        Some(n) => if n > i32::MAX {
            i32::MAX as int
        } else {
            n as int
        },
        None => 0,
    };
    if cap > max_positive_id(s) {
        cap
    } else {
        max_positive_id(s)
    }
}

/// Some workspace of `s` is a normal one.
pub open spec fn has_normal(s: Seq<HyprWorkspace>) -> bool {
    exists|i: int| 0 <= i < s.len() && s[i].id >= 0
}

/// Missing workspaces are filled in: filling is on, each monitor has its own
/// workspaces and at least one normal workspace exists.
pub open spec fn fills(cfg: WorkspacesModuleConfig, s: Seq<HyprWorkspace>) -> bool {
    cfg.enable_workspace_filling && !cfg.enable_virtual_desktops && has_normal(s)
}

/// `v` is the record that reconciliation gives for its id, where `s` are the
/// workspaces after duplicates are dropped.
#[verifier::opaque]
pub open spec fn expected_entry(
    cfg: WorkspacesModuleConfig,
    active: Option<i32>,
    mons: Seq<HyprMonitor>,
    s: Seq<HyprWorkspace>,
    v: WorkspaceView,
) -> bool {
    let names = cfg.workspace_names@;
    let mc = monitor_count(mons);
    ||| (v.id < 0 && exists|i: int|
        0 <= i < s.len() && s[i].id == v.id && v == special_view(s[i], mons))
    ||| (!cfg.enable_virtual_desktops && v.id >= 0 && exists|i: int|
        0 <= i < s.len() && s[i].id == v.id && v == normal_view(s[i], names, active, mons))
    ||| (cfg.enable_virtual_desktops && (exists|i: int| 0 <= i < s.len() && in_vdesk(s[i], v.id as int, mc))
        && v == vdesk_view(s, v.id as int, names, mc, active))
    ||| (fills(cfg, s) && 1 <= v.id <= fill_limit(cfg.max_workspaces, s) && !has_id(s, v.id as int)
        && v == placeholder_view(v.id as int, names))
}

/// Reconciliation gives an entry with id `x`.
#[verifier::opaque]
pub open spec fn expected_id(
    cfg: WorkspacesModuleConfig,
    mons: Seq<HyprMonitor>,
    s: Seq<HyprWorkspace>,
    x: int,
) -> bool {
    ||| (has_id(s, x) && (x < 0 || !cfg.enable_virtual_desktops))
    ||| (cfg.enable_virtual_desktops && exists|i: int|
        0 <= i < s.len() && in_vdesk(s[i], x, monitor_count(mons)))
    ||| (fills(cfg, s) && 1 <= x <= fill_limit(cfg.max_workspaces, s) && !has_id(s, x))
}

/// `r` is the reconciled list for the active workspace `active`, the monitors
/// `mons` and the reported workspaces `ws`: sorted by strictly ascending id,
/// holding each expected id once, each with its expected record.
pub open spec fn reconciled(
    cfg: WorkspacesModuleConfig,
    active: Option<i32>,
    mons: Seq<HyprMonitor>,
    ws: Seq<HyprWorkspace>,
    r: Seq<Workspace>,
) -> bool {
    reconciled_from(cfg, active, mons, first_occurrences(ws), r)
}

/// `r` is the reconciled list for the workspaces `s`, which have no duplicates.
pub open spec fn reconciled_from(
    cfg: WorkspacesModuleConfig,
    active: Option<i32>,
    mons: Seq<HyprMonitor>,
    s: Seq<HyprWorkspace>,
    r: Seq<Workspace>,
) -> bool {
    &&& strictly_sorted(r)
    &&& forall|k: int| 0 <= k < r.len() ==> expected_entry(cfg, active, mons, s, #[trigger] r[k]@)
    &&& forall|x: int| expected_id(cfg, mons, s, x) ==> #[trigger] has_entry(r, x)
}

/// Relies on `ToString` for `i32`: the decimal form of the number.
#[verifier::external_body]
fn id_string(id: i32) -> (r: String)
    ensures
        r@ == decimal(id as int),
{
    id.to_string()
}

/// Relies on itertools' `unique_by`: it keeps the first workspace of each id,
/// in their order.
#[verifier::external_body]
fn unique_by_id(ws: Vec<HyprWorkspace>) -> (r: Vec<HyprWorkspace>)
    ensures
        r@ == first_occurrences(ws@),
{
    ws.into_iter().unique_by(|w| w.id).collect()
}

/// The part of `name` after its last `:`.
fn special_name(name: &String) -> (r: String)
    ensures
        r@ == after_last_colon(name@),
{
    let s = name.as_str();
    let len = s.unicode_len();
    let mut i: usize = len;
    proof {
        assert(s@.take(len as int) =~= s@);
        assert(s@.subrange(len as int, len as int) =~= Seq::<char>::empty());
        assert(after_last_colon(s@) == after_last_colon(s@.take(len as int)) + Seq::<char>::empty());
    }
    while i > 0 && s.get_char(i - 1) != ':'
        invariant
            i <= len,
            len == s@.len(),
            after_last_colon(s@) == after_last_colon(s@.take(i as int)) + s@.subrange(i as int, len as int),
        decreases i,
    {
        proof {
            let t = s@.take(i as int);
            assert(t.drop_last() =~= s@.take(i - 1));
            assert(s@.subrange(i - 1, len as int) =~= seq![s@[i - 1]] + s@.subrange(i as int, len as int));
            assert(after_last_colon(t) == after_last_colon(s@.take(i - 1)).push(s@[i - 1]));
            assert(after_last_colon(s@.take(i - 1)).push(s@[i - 1]) + s@.subrange(i as int, len as int)
                =~= after_last_colon(s@.take(i - 1)) + s@.subrange(i - 1, len as int));
        }
        i = i - 1;
    }
    proof {
        if i == 0 {
            assert(s@.take(0) =~= Seq::<char>::empty());
        }
    }
    let r = s.substring_char(i, len).to_owned();
    proof {
        assert(s@.subrange(0, len as int) =~= s@);
    }
    r
}

/// Inserting `e` where the ids before `pos` are smaller and the ids from `pos`
/// on are larger keeps `s` strictly sorted, keeps every id, and keeps a
/// property that `e` and all of `s` have.
proof fn lemma_insert_sorted(s: Seq<Workspace>, pos: int, e: Workspace, p: spec_fn(WorkspaceView) -> bool)
    requires
        0 <= pos <= s.len(),
        strictly_sorted(s),
        forall|k: int| 0 <= k < pos ==> (#[trigger] s[k]).id < e.id,
        pos < s.len() ==> e.id < s[pos].id,
        forall|k: int| 0 <= k < s.len() ==> p(#[trigger] s[k]@),
        p(e@),
    ensures
        strictly_sorted(s.insert(pos, e)),
        forall|k: int| 0 <= k < s.insert(pos, e).len() ==> p(#[trigger] s.insert(pos, e)[k]@),
        forall|x: int| has_entry(s, x) ==> #[trigger] has_entry(s.insert(pos, e), x),
        has_entry(s.insert(pos, e), e.id as int),
{
    let t = s.insert(pos, e);
    s.insert_ensures(pos, e);
    assert forall|i: int, j: int| 0 <= i < j < t.len() implies (#[trigger] t[i]).id < (#[trigger] t[j]).id by {
        if j < pos {
            assert(t[i] == s[i] && t[j] == s[j]);
        } else if j == pos {
            assert(t[i] == s[i]);
        } else if i < pos {
            assert(t[i] == s[i] && t[j] == s[j - 1]);
            assert(s[pos].id <= s[j - 1].id);
        } else if i == pos {
            assert(t[j] == s[j - 1]);
            assert(s[pos].id <= s[j - 1].id);
        } else {
            assert(t[i] == s[i - 1] && t[j] == s[j - 1]);
        }
    }
    assert forall|k: int| 0 <= k < t.len() implies p(#[trigger] t[k]@) by {
        if k < pos {
            assert(t[k] == s[k]);
        } else if k > pos {
            assert(t[k] == s[k - 1]);
        }
    }
    assert forall|x: int| has_entry(s, x) implies #[trigger] has_entry(t, x) by {
        let k = choose|k: int| 0 <= k < s.len() && s[k].id == x;
        if k < pos {
            assert(t[k] == s[k]);
        } else {
            assert(t[k + 1] == s[k]);
        }
    }
    assert(t[pos] == e);
}

/// Merges `items` into the strictly sorted `out`, keeping it strictly sorted;
/// an item whose id is already there is dropped.
fn insert_all(out: &mut Vec<Workspace>, items: Vec<Workspace>, Ghost(p): Ghost<spec_fn(WorkspaceView) -> bool>)
    requires
        strictly_sorted(old(out)@),
        forall|k: int| 0 <= k < old(out)@.len() ==> p(#[trigger] old(out)@[k]@),
        forall|k: int| 0 <= k < items@.len() ==> p(#[trigger] items@[k]@),
    ensures
        strictly_sorted(final(out)@),
        forall|k: int| 0 <= k < final(out)@.len() ==> p(#[trigger] final(out)@[k]@),
        forall|x: int| has_entry(old(out)@, x) ==> #[trigger] has_entry(final(out)@, x),
        forall|x: int| has_entry(items@, x) ==> #[trigger] has_entry(final(out)@, x),
{
    let ghost out0 = out@;
    let ghost items0 = items@;
    let mut items = items;
    while items.len() > 0
        invariant
            strictly_sorted(out@),
            forall|k: int| 0 <= k < out@.len() ==> p(#[trigger] out@[k]@),
            items@.len() <= items0.len(),
            items@ == items0.take(items@.len() as int),
            forall|k: int| 0 <= k < items0.len() ==> p(#[trigger] items0[k]@),
            forall|x: int| has_entry(out0, x) ==> #[trigger] has_entry(out@, x),
            forall|j: int| items@.len() <= j < items0.len() ==> has_entry(out@, #[trigger] items0[j].id as int),
        decreases items.len(),
    {
        let ghost n = items@.len() - 1;
        let e = items.pop().unwrap();
        assert(e == items0[n]);
        assert(items@ =~= items0.take(n));
        let mut pos: usize = 0;
        while pos < out.len() && out[pos].id < e.id
            invariant
                pos <= out@.len(),
                forall|k: int| 0 <= k < pos ==> (#[trigger] out@[k]).id < e.id,
            decreases out@.len() - pos,
        {
            pos = pos + 1;
        }
        if pos < out.len() && out[pos].id == e.id {
            assert(has_entry(out@, e.id as int));
        } else {
            let ghost before = out@;
            proof {
                lemma_insert_sorted(before, pos as int, e, p);
            }
            out.insert(pos, e);
        }
    }
    assert forall|x: int| has_entry(items0, x) implies #[trigger] has_entry(out@, x) by {
        let j = choose|j: int| 0 <= j < items0.len() && items0[j].id == x;
        assert(has_entry(out@, items0[j].id as int));
    }
}

/// Whether some monitor has the special workspace `id` assigned.
fn any_shows_special(monitors: &Vec<HyprMonitor>, id: i32) -> (b: bool)
    ensures
        b == shows_special(monitors@, id as int),
{
    let mut m: usize = 0;
    while m < monitors.len()
        invariant
            m <= monitors@.len(),
            forall|j: int| 0 <= j < m ==> (#[trigger] monitors@[j]).special_workspace_id != id,
        decreases monitors@.len() - m,
    {
        if monitors[m].special_workspace_id == id {
            return true;
        }
        m = m + 1;
    }
    false
}

/// Whether some monitor currently shows workspace `id`.
fn any_shows_workspace(monitors: &Vec<HyprMonitor>, id: i32) -> (b: bool)
    ensures
        b == shows_workspace(monitors@, id as int),
{
    let mut m: usize = 0;
    while m < monitors.len()
        invariant
            m <= monitors@.len(),
            forall|j: int| 0 <= j < m ==> (#[trigger] monitors@[j]).active_workspace_id != id,
        decreases monitors@.len() - m,
    {
        if monitors[m].active_workspace_id == id {
            return true;
        }
        m = m + 1;
    }
    false
}

/// The configured name of workspace `id`, else its decimal id.
fn name_for(names: &Vec<String>, id: i32) -> (r: String)
    ensures
        r@ == display_name(names@, id as int),
{
    if 1 <= id && ((id - 1) as usize) < names.len() {
        names[(id - 1) as usize].clone()
    } else {
        id_string(id)
    }
}

/// The records of the special workspaces of `s`.
fn special_entries(
    config: &WorkspacesModuleConfig,
    active: Option<i32>,
    monitors: &Vec<HyprMonitor>,
    s: &Vec<HyprWorkspace>,
) -> (r: Vec<Workspace>)
    ensures
        forall|k: int| 0 <= k < r@.len() ==> expected_entry(*config, active, monitors@, s@, #[trigger] r@[k]@),
        forall|i: int| 0 <= i < s@.len() && (#[trigger] s@[i]).id < 0 ==> has_entry(r@, s@[i].id as int),
{
    reveal(expected_entry);
    let mut r: Vec<Workspace> = Vec::new();
    let mut i: usize = 0;
    while i < s.len()
        invariant
            i <= s@.len(),
            forall|k: int| 0 <= k < r@.len() ==> expected_entry(*config, active, monitors@, s@, #[trigger] r@[k]@),
            forall|j: int| 0 <= j < i && (#[trigger] s@[j]).id < 0 ==> has_entry(r@, s@[j].id as int),
        decreases s@.len() - i,
    {
        let w = &s[i];
        if w.id < 0 {
            let shown = any_shows_special(monitors, w.id);
            let e = Workspace {
                id: w.id,
                name: special_name(&w.name),
                monitor_id: w.monitor_id,
                monitor: w.monitor.clone(),
                displayed: if shown {
                    Displayed::Active
                } else {
                    Displayed::Hidden
                },
                windows: w.windows,
            };
            assert(e@ == special_view(s@[i as int], monitors@));
            let ghost before = r@;
            r.push(e);
            assert(r@[before.len() as int] == e);
            assert(has_entry(r@, w.id as int));
            assert forall|x: int| has_entry(before, x) implies #[trigger] has_entry(r@, x) by {
                let k = choose|k: int| 0 <= k < before.len() && before[k].id == x;
                assert(r@[k] == before[k]);
            }
            assert forall|k: int| 0 <= k < r@.len() implies expected_entry(*config, active, monitors@, s@, #[trigger] r@[k]@) by {
                reveal(expected_entry);
                if k < before.len() {
                    assert(r@[k] == before[k]);
                }
            }
        }
        i = i + 1;
    }
    r
}

/// The records of the normal workspaces of `s` when each monitor has its own
/// workspaces.
fn normal_entries(
    config: &WorkspacesModuleConfig,
    active: Option<i32>,
    monitors: &Vec<HyprMonitor>,
    s: &Vec<HyprWorkspace>,
) -> (r: Vec<Workspace>)
    requires
        !config.enable_virtual_desktops,
    ensures
        forall|k: int| 0 <= k < r@.len() ==> expected_entry(*config, active, monitors@, s@, #[trigger] r@[k]@),
        forall|i: int| 0 <= i < s@.len() && (#[trigger] s@[i]).id >= 0 ==> has_entry(r@, s@[i].id as int),
{
    reveal(expected_entry);
    let mut r: Vec<Workspace> = Vec::new();
    let mut i: usize = 0;
    while i < s.len()
        invariant
            i <= s@.len(),
            !config.enable_virtual_desktops,
            forall|k: int| 0 <= k < r@.len() ==> expected_entry(*config, active, monitors@, s@, #[trigger] r@[k]@),
            forall|j: int| 0 <= j < i && (#[trigger] s@[j]).id >= 0 ==> has_entry(r@, s@[j].id as int),
        decreases s@.len() - i,
    {
        let w = &s[i];
        if w.id >= 0 {
            let name = if w.id > 0 {
                name_for(&config.workspace_names, w.id)
            } else {
                w.name.clone()
            };
            let is_active = match active {
                Some(a) => a == w.id,
                None => false,
            };
            let displayed = if is_active {
                Displayed::Active
            } else if any_shows_workspace(monitors, w.id) {
                Displayed::Visible
            } else {
                Displayed::Hidden
            };
            let e = Workspace {
                id: w.id,
                name,
                monitor_id: w.monitor_id,
                monitor: w.monitor.clone(),
                displayed,
                windows: w.windows,
            };
            assert(e@ == normal_view(s@[i as int], config.workspace_names@, active, monitors@));
            let ghost before = r@;
            r.push(e);
            assert(r@[before.len() as int] == e);
            assert(has_entry(r@, w.id as int));
            assert forall|x: int| has_entry(before, x) implies #[trigger] has_entry(r@, x) by {
                let k = choose|k: int| 0 <= k < before.len() && before[k].id == x;
                assert(r@[k] == before[k]);
            }
            assert forall|k: int| 0 <= k < r@.len() implies expected_entry(*config, active, monitors@, s@, #[trigger] r@[k]@) by {
                reveal(expected_entry);
                if k < before.len() {
                    assert(r@[k] == before[k]);
                }
            }
        }
        i = i + 1;
    }
    r
}

/// A prefix without workspaces of virtual desktop `vd` counts no windows for it.
proof fn lemma_vdesk_windows_none(t: Seq<HyprWorkspace>, vd: int, mc: int)
    requires
        forall|l: int| 0 <= l < t.len() ==> !in_vdesk(#[trigger] t[l], vd, mc),
    ensures
        vdesk_windows(t, vd, mc) == 0,
    decreases t.len(),
{
    if t.len() > 0 {
        let d = t.drop_last();
        assert forall|l: int| 0 <= l < d.len() implies !in_vdesk(#[trigger] d[l], vd, mc) by {
            assert(d[l] == t[l]);
        }
        lemma_vdesk_windows_none(d, vd, mc);
    }
}

/// How one more workspace changes the window count and the activeness of
/// virtual desktop `vd`.
proof fn lemma_vdesk_step(t: Seq<HyprWorkspace>, w: HyprWorkspace, vd: int, mc: int, active: Option<i32>)
    ensures
        vdesk_windows(t.push(w), vd, mc) == vdesk_windows(t, vd, mc) + if in_vdesk(w, vd, mc) {
            w.windows as nat
        } else {
            0nat
        },
        vdesk_active(t.push(w), vd, mc, active) == (vdesk_active(t, vd, mc, active) || (in_vdesk(w, vd, mc)
            && active == Some(w.id))),
{
    let t1 = t.push(w);
    assert(t1.drop_last() =~= t);
    if vdesk_active(t, vd, mc, active) {
        let l = choose|l: int| 0 <= l < t.len() && in_vdesk(t[l], vd, mc) && active == Some(t[l].id);
        assert(t1[l] == t[l]);
    }
    if in_vdesk(w, vd, mc) && active == Some(w.id) {
        assert(t1[t.len() as int] == w);
    }
    if vdesk_active(t1, vd, mc, active) {
        let l = choose|l: int| 0 <= l < t1.len() && in_vdesk(t1[l], vd, mc) && active == Some(t1[l].id);
        if l < t.len() {
            assert(t[l] == t1[l]);
        }
    }
}

/// The virtual desktop of normal workspace `id` with `mc` monitors.
fn compute_vdesk_id(id: i32, mc: usize) -> (r: i32)
    requires
        id >= 0,
        mc >= 1,
    ensures
        r as int == vdesk_id(id as int, mc as int),
{
    reveal(vdesk_id);
    if id == 0 {
        if mc == 1 {
            0
        } else {
            1
        }
    } else {
        let below = (id - 1) as usize;
        let q = below / mc;
        assert(q <= below) by (nonlinear_arith)
            requires
                q == below / mc,
                mc >= 1,
        ;
        (q as i32) + 1
    }
}

/// `keys` and `descs` are the virtual desktops of the workspaces `t`: each key
/// is the virtual desktop of some normal workspace of `t` and carries its
/// aggregate, and each normal workspace of `t` has its virtual desktop among
/// the keys.
#[verifier::opaque]
pub open spec fn vdesks_of(
    keys: Seq<i32>,
    descs: Seq<VirtualDesktop>,
    t: Seq<HyprWorkspace>,
    mc: int,
    active: Option<i32>,
) -> bool {
    &&& keys.len() == descs.len()
    &&& forall|a: int, b: int| 0 <= a < b < keys.len() ==> keys[a] != keys[b]
    &&& forall|j: int| 0 <= j < keys.len() ==> (#[trigger] descs[j]).windows == saturate(
        vdesk_windows(t, keys[j] as int, mc),
    ) && descs[j].active == vdesk_active(t, keys[j] as int, mc, active)
    &&& forall|j: int| 0 <= j < keys.len() ==> exists|l: int|
        0 <= l < t.len() && in_vdesk(t[l], #[trigger] keys[j] as int, mc)
    &&& forall|l: int| 0 <= l < t.len() && (#[trigger] t[l]).id >= 0 ==> exists|j: int|
        0 <= j < keys.len() && keys[j] as int == vdesk_id(t[l].id as int, mc)
}

/// The aggregate of `d` with one more workspace of `windows` windows, that is
/// the active one where `is_active`.
pub open spec fn absorb(d: VirtualDesktop, windows: u16, is_active: bool) -> VirtualDesktop {
    VirtualDesktop { active: d.active || is_active, windows: saturate((d.windows + windows) as nat) }
}

/// A special workspace leaves the virtual desktops unchanged.
proof fn lemma_vdesks_skip(keys: Seq<i32>, descs: Seq<VirtualDesktop>, t: Seq<HyprWorkspace>, w: HyprWorkspace, mc: int, active: Option<i32>)
    requires
        w.id < 0,
        vdesks_of(keys, descs, t, mc, active),
    ensures
        vdesks_of(keys, descs, t.push(w), mc, active),
{
    reveal(vdesks_of);
    let t1 = t.push(w);
    assert(t1[t.len() as int] == w);
    assert forall|m: int| 0 <= m < keys.len() implies (#[trigger] descs[m]).windows == saturate(
        vdesk_windows(t1, keys[m] as int, mc),
    ) && descs[m].active == vdesk_active(t1, keys[m] as int, mc, active) by {
        lemma_vdesk_step(t, w, keys[m] as int, mc, active);
    }
    assert forall|j: int| 0 <= j < keys.len() implies exists|l: int|
        0 <= l < t1.len() && in_vdesk(t1[l], #[trigger] keys[j] as int, mc) by {
        let l = choose|l: int| 0 <= l < t.len() && in_vdesk(t[l], keys[j] as int, mc);
        assert(t1[l] == t[l]);
    }
    assert forall|l: int| 0 <= l < t1.len() && (#[trigger] t1[l]).id >= 0 implies exists|j: int|
        0 <= j < keys.len() && keys[j] as int == vdesk_id(t1[l].id as int, mc) by {
        assert(t[l] == t1[l]);
    }
}

/// A normal workspace whose virtual desktop is the key at `j` joins its aggregate.
#[verifier::rlimit(60)]
proof fn lemma_vdesks_absorb(keys: Seq<i32>, descs: Seq<VirtualDesktop>, t: Seq<HyprWorkspace>, w: HyprWorkspace, mc: int, active: Option<i32>, j: int)
    requires
        w.id >= 0,
        0 <= j < keys.len(),
        keys[j] as int == vdesk_id(w.id as int, mc),
        vdesks_of(keys, descs, t, mc, active),
    ensures
        vdesks_of(keys, descs.update(j, absorb(descs[j], w.windows, active == Some(w.id))), t.push(w), mc, active),
{
    reveal(vdesks_of);
    let t1 = t.push(w);
    let d1 = descs.update(j, absorb(descs[j], w.windows, active == Some(w.id)));
    assert(t1[t.len() as int] == w);
    assert forall|m: int| 0 <= m < keys.len() implies (#[trigger] d1[m]).windows == saturate(
        vdesk_windows(t1, keys[m] as int, mc),
    ) && d1[m].active == vdesk_active(t1, keys[m] as int, mc, active) by {
        lemma_vdesk_step(t, w, keys[m] as int, mc, active);
        if m != j {
            assert(keys[m] != keys[j]);
            assert(!in_vdesk(w, keys[m] as int, mc));
        }
    }
    assert forall|m: int| 0 <= m < keys.len() implies exists|l: int|
        0 <= l < t1.len() && in_vdesk(t1[l], #[trigger] keys[m] as int, mc) by {
        let l = choose|l: int| 0 <= l < t.len() && in_vdesk(t[l], keys[m] as int, mc);
        assert(t1[l] == t[l]);
    }
    assert forall|l: int| 0 <= l < t1.len() && (#[trigger] t1[l]).id >= 0 implies exists|m: int|
        0 <= m < keys.len() && keys[m] as int == vdesk_id(t1[l].id as int, mc) by {
        if l < t.len() {
            assert(t[l] == t1[l]);
        } else {
            assert(keys[j] as int == vdesk_id(t1[l].id as int, mc));
        }
    }
}

/// A normal workspace whose virtual desktop has no key yet opens a new one.
proof fn lemma_vdesks_open(keys: Seq<i32>, descs: Seq<VirtualDesktop>, t: Seq<HyprWorkspace>, w: HyprWorkspace, mc: int, active: Option<i32>, vd: i32)
    requires
        w.id >= 0,
        vd as int == vdesk_id(w.id as int, mc),
        forall|m: int| 0 <= m < keys.len() ==> keys[m] != vd,
        vdesks_of(keys, descs, t, mc, active),
    ensures
        vdesks_of(keys.push(vd), descs.push(VirtualDesktop { active: active == Some(w.id), windows: w.windows }), t.push(w), mc, active),
{
    reveal(vdesks_of);
    let t1 = t.push(w);
    let k1 = keys.push(vd);
    let d1 = descs.push(VirtualDesktop { active: active == Some(w.id), windows: w.windows });
    assert(t1[t.len() as int] == w);
    assert forall|l: int| 0 <= l < t.len() implies !in_vdesk(#[trigger] t[l], vd as int, mc) by {
        if in_vdesk(t[l], vd as int, mc) {
            let jj = choose|jj: int| 0 <= jj < keys.len() && keys[jj] as int == vdesk_id(t[l].id as int, mc);
        }
    }
    lemma_vdesk_windows_none(t, vd as int, mc);
    assert forall|a: int, b: int| 0 <= a < b < k1.len() implies k1[a] != k1[b] by {
        if b == keys.len() {
            assert(k1[a] == keys[a]);
        } else {
            assert(k1[a] == keys[a] && k1[b] == keys[b]);
        }
    }
    assert forall|m: int| 0 <= m < k1.len() implies (#[trigger] d1[m]).windows == saturate(
        vdesk_windows(t1, k1[m] as int, mc),
    ) && d1[m].active == vdesk_active(t1, k1[m] as int, mc, active) by {
        lemma_vdesk_step(t, w, k1[m] as int, mc, active);
        if m < keys.len() {
            assert(k1[m] == keys[m] && d1[m] == descs[m]);
            assert(!in_vdesk(w, keys[m] as int, mc));
        }
    }
    assert forall|m: int| 0 <= m < k1.len() implies exists|l: int|
        0 <= l < t1.len() && in_vdesk(t1[l], #[trigger] k1[m] as int, mc) by {
        if m < keys.len() {
            let l = choose|l: int| 0 <= l < t.len() && in_vdesk(t[l], keys[m] as int, mc);
            assert(t1[l] == t[l]);
            assert(k1[m] == keys[m]);
        } else {
            assert(in_vdesk(t1[t.len() as int], k1[m] as int, mc));
        }
    }
    assert forall|l: int| 0 <= l < t1.len() && (#[trigger] t1[l]).id >= 0 implies exists|m: int|
        0 <= m < k1.len() && k1[m] as int == vdesk_id(t1[l].id as int, mc) by {
        if l < t.len() {
            assert(t[l] == t1[l]);
            let m = choose|m: int| 0 <= m < keys.len() && keys[m] as int == vdesk_id(t[l].id as int, mc);
            assert(k1[m] == keys[m]);
        } else {
            assert(k1[keys.len() as int] == vd);
        }
    }
}

/// Adds workspace `w` to the virtual desktops of `t`.
fn add_to_vdesks(
    keys: &mut Vec<i32>,
    descs: &mut Vec<VirtualDesktop>,
    w: &HyprWorkspace,
    mc: usize,
    active: Option<i32>,
    Ghost(t): Ghost<Seq<HyprWorkspace>>,
)
    requires
        mc >= 1,
        vdesks_of(old(keys)@, old(descs)@, t, mc as int, active),
    ensures
        vdesks_of(final(keys)@, final(descs)@, t.push(*w), mc as int, active),
{
    if w.id < 0 {
        proof {
            lemma_vdesks_skip(keys@, descs@, t, *w, mc as int, active);
        }
        return;
    }
    let vd = compute_vdesk_id(w.id, mc);
    let is_active = match active {
        Some(a) => a == w.id,
        None => false,
    };
    let mut j: usize = 0;
    while j < keys.len() && keys[j] != vd
        invariant
            j <= keys@.len(),
            forall|m: int| 0 <= m < j ==> keys@[m] != vd,
        decreases keys@.len() - j,
    {
        j = j + 1;
    }
    if j < keys.len() {
        proof {
            lemma_vdesks_absorb(keys@, descs@, t, *w, mc as int, active, j as int);
            assert(keys@.len() == descs@.len()) by {
                reveal(vdesks_of);
            }
        }
        let old_d = descs[j];
        let sum: u32 = old_d.windows as u32 + w.windows as u32;
        let windows: u16 = if sum > 65535 {
            65535
        } else {
            sum as u16
        };
        let d = VirtualDesktop { active: old_d.active || is_active, windows };
        assert(d == absorb(old_d, w.windows, active == Some(w.id)));
        descs.set(j, d);
    } else {
        proof {
            lemma_vdesks_open(keys@, descs@, t, *w, mc as int, active, vd);
        }
        keys.push(vd);
        descs.push(VirtualDesktop { active: is_active, windows: w.windows });
    }
}

/// The records of the virtual desktops that the normal workspaces of `s` form.
fn vdesk_entries(
    config: &WorkspacesModuleConfig,
    active: Option<i32>,
    monitors: &Vec<HyprMonitor>,
    s: &Vec<HyprWorkspace>,
) -> (r: Vec<Workspace>)
    requires
        config.enable_virtual_desktops,
    ensures
        forall|k: int| 0 <= k < r@.len() ==> expected_entry(*config, active, monitors@, s@, #[trigger] r@[k]@),
        forall|i: int| 0 <= i < s@.len() && (#[trigger] s@[i]).id >= 0 ==> has_entry(
            r@,
            vdesk_id(s@[i].id as int, monitor_count(monitors@)),
        ),
{
    reveal(expected_entry);
    let mc: usize = if monitors.len() == 0 {
        1
    } else {
        monitors.len()
    };
    let ghost mcs = monitor_count(monitors@);
    let mut keys: Vec<i32> = Vec::new();
    let mut descs: Vec<VirtualDesktop> = Vec::new();
    let mut i: usize = 0;
    proof {
        assert(s@.take(0) =~= Seq::<HyprWorkspace>::empty());
        reveal(vdesks_of);
    }
    while i < s.len()
        invariant
            i <= s@.len(),
            mc as int == mcs,
            mcs >= 1,
            vdesks_of(keys@, descs@, s@.take(i as int), mcs, active),
        decreases s@.len() - i,
    {
        add_to_vdesks(&mut keys, &mut descs, &s[i], mc, active, Ghost(s@.take(i as int)));
        assert(s@.take(i as int).push(s@[i as int]) =~= s@.take(i + 1));
        i = i + 1;
    }
    assert(s@.take(s@.len() as int) =~= s@);
    proof {
        reveal(vdesks_of);
    }
    let mut r: Vec<Workspace> = Vec::new();
    let mut j: usize = 0;
    while j < keys.len()
        invariant
            j <= keys@.len(),
            keys@.len() == descs@.len(),
            config.enable_virtual_desktops,
            mcs == monitor_count(monitors@),
            vdesks_of(keys@, descs@, s@, mcs, active),
            forall|k: int| 0 <= k < r@.len() ==> expected_entry(*config, active, monitors@, s@, #[trigger] r@[k]@),
            forall|m: int| 0 <= m < j ==> has_entry(r@, #[trigger] keys@[m] as int),
        decreases keys@.len() - j,
    {
        proof {
            reveal(vdesks_of);
        }
        let id = keys[j];
        let d = descs[j];
        let e = Workspace {
            id,
            name: name_for(&config.workspace_names, id),
            monitor_id: None,
            monitor: String::new(),
            displayed: if d.active {
                Displayed::Active
            } else {
                Displayed::Hidden
            },
            windows: d.windows,
        };
        assert(e@ == vdesk_view(s@, id as int, config.workspace_names@, mcs, active));
        assert(descs@[j as int] == d);
        assert(exists|l: int| 0 <= l < s@.len() && in_vdesk(s@[l], keys@[j as int] as int, mcs));
        let ghost before = r@;
        r.push(e);
        assert(r@[before.len() as int] == e);
        assert forall|x: int| has_entry(before, x) implies #[trigger] has_entry(r@, x) by {
            let k = choose|k: int| 0 <= k < before.len() && before[k].id == x;
            assert(r@[k] == before[k]);
        }
        assert forall|k: int| 0 <= k < r@.len() implies expected_entry(*config, active, monitors@, s@, #[trigger] r@[k]@) by {
            reveal(expected_entry);
            if k < before.len() {
                assert(r@[k] == before[k]);
            }
        }
        j = j + 1;
    }
    proof {
        assert forall|i: int| 0 <= i < s@.len() && (#[trigger] s@[i]).id >= 0 implies has_entry(
            r@,
            vdesk_id(s@[i].id as int, monitor_count(monitors@)),
        ) by {
            let m = choose|m: int| 0 <= m < keys@.len() && keys@[m] as int == vdesk_id(s@[i].id as int, mcs);
            assert(has_entry(r@, keys@[m] as int));
        }
    }
    r
}

/// Whether some workspace of `s` has the id `id`.
fn contains_id(s: &Vec<HyprWorkspace>, id: i32) -> (b: bool)
    ensures
        b == has_id(s@, id as int),
{
    let mut i: usize = 0;
    while i < s.len()
        invariant
            i <= s@.len(),
            forall|j: int| 0 <= j < i ==> (#[trigger] s@[j]).id != id,
        decreases s@.len() - i,
    {
        if s[i].id == id {
            return true;
        }
        i = i + 1;
    }
    false
}

/// The largest positive id in `s`, or 0.
fn largest_positive_id(s: &Vec<HyprWorkspace>) -> (r: i32)
    ensures
        r as int == max_positive_id(s@),
        r >= 0,
{
    let mut m: i32 = 0;
    let mut i: usize = 0;
    assert(s@.take(0) =~= Seq::<HyprWorkspace>::empty());
    while i < s.len()
        invariant
            i <= s@.len(),
            m as int == max_positive_id(s@.take(i as int)),
            m >= 0,
        decreases s@.len() - i,
    {
        assert(s@.take(i + 1).drop_last() =~= s@.take(i as int));
        if s[i].id > m {
            m = s[i].id;
        }
        i = i + 1;
    }
    assert(s@.take(s@.len() as int) =~= s@);
    m
}

/// The placeholder records of the ids from 1 to the fill limit that no
/// workspace of `s` has.
fn fill_entries(
    config: &WorkspacesModuleConfig,
    active: Option<i32>,
    monitors: &Vec<HyprMonitor>,
    s: &Vec<HyprWorkspace>,
) -> (r: Vec<Workspace>)
    requires
        fills(*config, s@),
    ensures
        forall|k: int| 0 <= k < r@.len() ==> expected_entry(*config, active, monitors@, s@, #[trigger] r@[k]@),
        forall|x: int| 1 <= x <= fill_limit(config.max_workspaces, s@) && !has_id(s@, x) ==> #[trigger] has_entry(r@, x),
{
    reveal(expected_entry);
    let existing = largest_positive_id(s);
    let cap: i32 = match config.max_workspaces {
        Some(n) => if n > 2147483647u32 {
            2147483647i32
        } else {
            n as i32
        },
        None => 0,
    };
    let limit: i32 = if cap > existing {
        cap
    } else {
        existing
    };
    assert(limit as int == fill_limit(config.max_workspaces, s@));
    let mut r: Vec<Workspace> = Vec::new();
    let mut x: i64 = 1;
    while x <= limit as i64
        invariant
            1 <= x <= limit as i64 + 1,
            limit as int == fill_limit(config.max_workspaces, s@),
            fills(*config, s@),
            forall|k: int| 0 <= k < r@.len() ==> expected_entry(*config, active, monitors@, s@, #[trigger] r@[k]@),
            forall|y: int| 1 <= y < x && !has_id(s@, y) ==> #[trigger] has_entry(r@, y),
        decreases limit as i64 + 1 - x,
    {
        let id = x as i32;
        if !contains_id(s, id) {
            let e = Workspace {
                id,
                name: name_for(&config.workspace_names, id),
                monitor_id: None,
                monitor: String::new(),
                displayed: Displayed::Hidden,
                windows: 0,
            };
            assert(e@ == placeholder_view(id as int, config.workspace_names@));
            let ghost before = r@;
            r.push(e);
            assert(r@[before.len() as int] == e);
            assert(has_entry(r@, id as int));
            assert forall|y: int| has_entry(before, y) implies #[trigger] has_entry(r@, y) by {
                let k = choose|k: int| 0 <= k < before.len() && before[k].id == y;
                assert(r@[k] == before[k]);
            }
            assert forall|k: int| 0 <= k < r@.len() implies expected_entry(*config, active, monitors@, s@, #[trigger] r@[k]@) by {
                reveal(expected_entry);
                if k < before.len() {
                    assert(r@[k] == before[k]);
                }
            }
        }
        x = x + 1;
    }
    r
}

/// The entries of `s` have distinct ids after duplicates are dropped.
pub proof fn lemma_first_occurrences_distinct(s: Seq<HyprWorkspace>)
    ensures
        distinct_ids(first_occurrences(s)),
        forall|x: int| #[trigger] has_id(first_occurrences(s), x) == has_id(s, x),
    decreases s.len(),
{
    if s.len() > 0 {
        let d = s.drop_last();
        lemma_first_occurrences_distinct(d);
        let p = first_occurrences(d);
        assert forall|x: int| #[trigger] has_id(first_occurrences(s), x) == has_id(s, x) by {
            if has_id(d, x) {
                let i = choose|i: int| 0 <= i < d.len() && d[i].id == x;
                assert(s[i] == d[i]);
            }
            if has_id(s, x) {
                let i = choose|i: int| 0 <= i < s.len() && s[i].id == x;
                if i < d.len() {
                    assert(d[i] == s[i]);
                    assert(has_id(d, x));
                }
            }
            if !has_id(p, s.last().id as int) {
                let q = p.push(s.last());
                assert(q[p.len() as int] == s.last());
                if has_id(p, x) {
                    let i = choose|i: int| 0 <= i < p.len() && p[i].id == x;
                    assert(q[i] == p[i]);
                }
                if has_id(q, x) {
                    let i = choose|i: int| 0 <= i < q.len() && q[i].id == x;
                    if i < p.len() {
                        assert(q[i] == p[i]);
                    }
                }
            }
        }
        if !has_id(p, s.last().id as int) {
            let q = p.push(s.last());
            assert forall|i: int, j: int| 0 <= i < j < q.len() implies (#[trigger] q[i]).id != (#[trigger] q[j]).id by {
                if j < p.len() {
                    assert(q[i] == p[i] && q[j] == p[j]);
                } else {
                    assert(q[i] == p[i]);
                }
            }
        }
    }
}

/// Reconciles the workspaces `s`, which have no duplicates.
fn assemble(
    config: &WorkspacesModuleConfig,
    active: Option<i32>,
    monitors: &Vec<HyprMonitor>,
    s: &Vec<HyprWorkspace>,
) -> (r: Vec<Workspace>)
    ensures
        reconciled_from(*config, active, monitors@, s@, r@),
{
    let ghost p = |v: WorkspaceView| expected_entry(*config, active, monitors@, s@, v);
    let mut out: Vec<Workspace> = Vec::new();
    let specials = special_entries(config, active, monitors, s);
    insert_all(&mut out, specials, Ghost(p));
    let ghost after_specials = out@;
    let ghost normals_v: Seq<Workspace>;
    if config.enable_virtual_desktops {
        let normals = vdesk_entries(config, active, monitors, s);
        proof {
            normals_v = normals@;
        }
        insert_all(&mut out, normals, Ghost(p));
    } else {
        let normals = normal_entries(config, active, monitors, s);
        proof {
            normals_v = normals@;
        }
        insert_all(&mut out, normals, Ghost(p));
    }
    let ghost after_normals = out@;
    let mut has_normal_ws = false;
    let mut i: usize = 0;
    while i < s.len()
        invariant
            i <= s@.len(),
            has_normal_ws == exists|j: int| 0 <= j < i && (#[trigger] s@[j]).id >= 0,
        decreases s@.len() - i,
    {
        if s[i].id >= 0 {
            has_normal_ws = true;
        }
        i = i + 1;
    }
    let ghost filled_v: Seq<Workspace> = Seq::empty();
    if config.enable_workspace_filling && !config.enable_virtual_desktops && has_normal_ws {
        let filled = fill_entries(config, active, monitors, s);
        proof {
            filled_v = filled@;
        }
        insert_all(&mut out, filled, Ghost(p));
    }
    proof {
        reveal(expected_id);
        assert(has_normal_ws == has_normal(s@));
        assert forall|x: int| expected_id(*config, monitors@, s@, x) implies #[trigger] has_entry(out@, x) by {
            if has_id(s@, x) && x < 0 {
                let i = choose|i: int| 0 <= i < s@.len() && s@[i].id == x;
                assert(has_entry(after_specials, s@[i].id as int));
                assert(has_entry(after_normals, x));
            } else if has_id(s@, x) && !config.enable_virtual_desktops {
                let i = choose|i: int| 0 <= i < s@.len() && s@[i].id == x;
                assert(has_entry(normals_v, s@[i].id as int));
                assert(has_entry(after_normals, x));
            } else if config.enable_virtual_desktops && exists|i: int|
                0 <= i < s@.len() && in_vdesk(s@[i], x, monitor_count(monitors@)) {
                let i = choose|i: int| 0 <= i < s@.len() && in_vdesk(s@[i], x, monitor_count(monitors@));
                assert(has_entry(normals_v, vdesk_id(s@[i].id as int, monitor_count(monitors@))));
                assert(has_entry(after_normals, x));
            } else {
                assert(has_entry(filled_v, x));
            }
        }
    }
    out
}

impl HyprlandWorkspaceManager {
    /// Reconciles what the window manager reports (the id of the active
    /// workspace, the monitors and the workspaces) into the list the widget
    /// shows.
    pub fn get_workspaces(
        config: &WorkspacesModuleConfig,
        active: Option<i32>,
        monitors: &Vec<HyprMonitor>,
        workspaces: Vec<HyprWorkspace>,
    ) -> (r: Vec<Workspace>)
        ensures
            reconciled(*config, active, monitors@, workspaces@, r@),
    {
        let s = unique_by_id(workspaces);
        assemble(config, active, monitors, &s)
    }

    /// The command that switches to workspace `id`: with virtual desktops the
    /// custom `vdesk` command with the id as its argument, else the native
    /// switch.
    pub fn change_workspace(id: i32, config: &WorkspacesModuleConfig) -> (r: Vec<Dispatch>)
        ensures
            r@.len() == 1,
            config.enable_virtual_desktops ==> (r@[0] matches Dispatch::Custom { name, arg } && name@
                == seq!['v', 'd', 'e', 's', 'k'] && arg@ == decimal(id as int)),
            !config.enable_virtual_desktops ==> r@[0] == Dispatch::Workspace(id),
    {
        let d = if config.enable_virtual_desktops {
            proof {
                reveal_strlit("vdesk");
            }
            let name = "vdesk".to_owned();
            assert(name@ =~= seq!['v', 'd', 'e', 's', 'k']);
            Dispatch::Custom { name, arg: id_string(id) }
        } else {
            Dispatch::Workspace(id)
        };
        let mut r: Vec<Dispatch> = Vec::new();
        r.push(d);
        r
    }

    /// The commands that show or hide the special workspace `workspace`: focus
    /// its monitor (monitor 0 where it has none), then toggle it by name. The
    /// second is to be issued only if the first succeeded.
    pub fn toggle_special_workspace(workspace: &Workspace) -> (r: Vec<Dispatch>)
        ensures
            r@.len() == 2,
            r@[0] == Dispatch::FocusMonitor(
                match workspace.monitor_id {
                    Some(m) => m,
                    None => 0,
                },
            ),
            r@[1] matches Dispatch::ToggleSpecialWorkspace(name) && name@ == workspace.name@,
    {
        let monitor = match workspace.monitor_id {
            Some(m) => m,
            None => 0,
        };
        let mut r: Vec<Dispatch> = Vec::new();
        r.push(Dispatch::FocusMonitor(monitor));
        r.push(Dispatch::ToggleSpecialWorkspace(workspace.name.clone()));
        r
    }
}
} // verus!
