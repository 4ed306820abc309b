use vstd::prelude::*;
use crate::model::{WorkspacesModuleConfig, Displayed, Workspace, WorkspaceView, active_count, has_entry, strictly_sorted, views};
use crate::hyprland::{
    HyprMonitor, HyprWorkspace, distinct_ids, expected_entry, expected_id, first_occurrences, has_id,
    in_vdesk, lemma_first_occurrences_distinct, monitor_count, normal_view, reconciled, special_view,
    vdesk_active, vdesk_id,
};

verus! {

/// A record with a negative id that reconciliation may give is that of a
/// reported special workspace.
proof fn lemma_negative_entry(
    cfg: WorkspacesModuleConfig,
    active: Option<i32>,
    mons: Seq<HyprMonitor>,
    s: Seq<HyprWorkspace>,
    v: WorkspaceView,
)
    requires
        expected_entry(cfg, active, mons, s, v),
        v.id < 0,
    ensures
        exists|i: int| 0 <= i < s.len() && s[i].id == v.id && v == special_view(s[i], mons),
{
    reveal(expected_entry);
    let mc = monitor_count(mons);
    if cfg.enable_virtual_desktops && exists|i: int| 0 <= i < s.len() && in_vdesk(s[i], v.id as int, mc) {
        let i = choose|i: int| 0 <= i < s.len() && in_vdesk(s[i], v.id as int, mc);
        lemma_vdesk_nonneg(s[i].id as int, mc);
    }
}

/// Two records that reconciliation may give for one id are the same record.
proof fn lemma_entry_unique(
    cfg: WorkspacesModuleConfig,
    active: Option<i32>,
    mons: Seq<HyprMonitor>,
    s: Seq<HyprWorkspace>,
    v1: WorkspaceView,
    v2: WorkspaceView,
)
    requires
        distinct_ids(s),
        expected_entry(cfg, active, mons, s, v1),
        expected_entry(cfg, active, mons, s, v2),
        v1.id == v2.id,
    ensures
        v1 == v2,
{
    if v1.id < 0 {
        lemma_negative_entry(cfg, active, mons, s, v1);
        lemma_negative_entry(cfg, active, mons, s, v2);
        let i = choose|i: int| 0 <= i < s.len() && s[i].id == v1.id && v1 == special_view(s[i], mons);
        let j = choose|j: int| 0 <= j < s.len() && s[j].id == v2.id && v2 == special_view(s[j], mons);
        if i < j {
            assert(s[i].id != s[j].id);
        } else if j < i {
            assert(s[j].id != s[i].id);
        }
    } else {
        reveal(expected_entry);
        if !cfg.enable_virtual_desktops && has_id(s, v1.id as int) {
            let i = choose|i: int| 0 <= i < s.len() && s[i].id == v1.id && v1 == normal_view(s[i], cfg.workspace_names@, active, mons);
            let j = choose|j: int| 0 <= j < s.len() && s[j].id == v2.id && v2 == normal_view(s[j], cfg.workspace_names@, active, mons);
            if i < j {
                assert(s[i].id != s[j].id);
            } else if j < i {
                assert(s[j].id != s[i].id);
            }
        }
    }
}

/// A record that reconciliation may give has an id that it gives.
proof fn lemma_entry_expected_id(
    cfg: WorkspacesModuleConfig,
    active: Option<i32>,
    mons: Seq<HyprMonitor>,
    s: Seq<HyprWorkspace>,
    v: WorkspaceView,
)
    requires
        expected_entry(cfg, active, mons, s, v),
    ensures
        expected_id(cfg, mons, s, v.id as int),
{
    reveal(expected_entry);
    reveal(expected_id);
}

/// Two strictly sorted lists with the same ids have them at the same places,
/// up to index `k`.
proof fn lemma_sorted_prefix(a: Seq<Workspace>, b: Seq<Workspace>, k: int)
    requires
        strictly_sorted(a),
        strictly_sorted(b),
        forall|x: int| #[trigger] has_entry(a, x) <==> has_entry(b, x),
        0 <= k < a.len(),
        k < b.len(),
    ensures
        forall|j: int| 0 <= j <= k ==> (#[trigger] a[j]).id == b[j].id,
    decreases k,
{
    if k > 0 {
        lemma_sorted_prefix(a, b, k - 1);
    }
    assert(has_entry(a, a[k].id as int));
    let m = choose|m: int| 0 <= m < b.len() && b[m].id == a[k].id;
    if m < k {
        assert(b[m].id == a[m].id);
    }
    assert(has_entry(b, b[k].id as int));
    assert(has_entry(a, b[k].id as int));
    let n = choose|n: int| 0 <= n < a.len() && a[n].id == b[k].id;
    if n < k {
        assert(a[n].id == b[n].id);
    }
    assert forall|j: int| 0 <= j <= k implies (#[trigger] a[j]).id == b[j].id by {
        if j == k {
            if m > k {
                assert(b[k].id < b[m].id);
            }
            if n > k {
                assert(a[k].id < a[n].id);
            }
        }
    }
}

/// Two strictly sorted lists with the same ids have them at the same places.
proof fn lemma_sorted_same_ids(a: Seq<Workspace>, b: Seq<Workspace>)
    requires
        strictly_sorted(a),
        strictly_sorted(b),
        forall|x: int| #[trigger] has_entry(a, x) <==> has_entry(b, x),
    ensures
        a.len() == b.len(),
        forall|j: int| 0 <= j < a.len() ==> (#[trigger] a[j]).id == b[j].id,
{
    if a.len() > b.len() {
        let n = b.len() as int;
        if n > 0 {
            lemma_sorted_prefix(a, b, n - 1);
        }
        assert(has_entry(a, a[n].id as int));
        let m = choose|m: int| 0 <= m < b.len() && b[m].id == a[n].id;
        assert(a[m].id == b[m].id);
        assert(a[m].id < a[n].id);
    } else if b.len() > a.len() {
        let n = a.len() as int;
        if n > 0 {
            lemma_sorted_prefix(a, b, n - 1);
        }
        assert(has_entry(b, b[n].id as int));
        assert(has_entry(a, b[n].id as int));
        let m = choose|m: int| 0 <= m < a.len() && a[m].id == b[n].id;
        assert(a[m].id == b[m].id);
        assert(b[m].id < b[n].id);
    }
    if a.len() > 0 {
        lemma_sorted_prefix(a, b, a.len() - 1);
    }
}

/// Reconciliation is deterministic: two lists reconciled from the same
/// settings, active workspace, monitors and reported workspaces are equal,
/// entry for entry and in the same order.
pub proof fn lemma_reconcile_deterministic(
    cfg: WorkspacesModuleConfig,
    active: Option<i32>,
    mons: Seq<HyprMonitor>,
    ws: Seq<HyprWorkspace>,
    r1: Seq<Workspace>,
    r2: Seq<Workspace>,
)
    requires
        reconciled(cfg, active, mons, ws, r1),
        reconciled(cfg, active, mons, ws, r2),
    ensures
        views(r1) == views(r2),
{
    let s = first_occurrences(ws);
    lemma_first_occurrences_distinct(ws);
    assert forall|x: int| #[trigger] has_entry(r1, x) <==> has_entry(r2, x) by {
        if has_entry(r1, x) {
            let k = choose|k: int| 0 <= k < r1.len() && r1[k].id == x;
            lemma_entry_expected_id(cfg, active, mons, s, r1[k]@);
        }
        if has_entry(r2, x) {
            let k = choose|k: int| 0 <= k < r2.len() && r2[k].id == x;
            lemma_entry_expected_id(cfg, active, mons, s, r2[k]@);
        }
    }
    lemma_sorted_same_ids(r1, r2);
    assert forall|k: int| 0 <= k < r1.len() implies #[trigger] r1[k]@ == r2[k]@ by {
        lemma_entry_unique(cfg, active, mons, s, r1[k]@, r2[k]@);
    }
    assert(views(r1) =~= views(r2));
}

/// A list without active entries counts none.
proof fn lemma_no_active(r: Seq<Workspace>)
    requires
        forall|k: int| 0 <= k < r.len() ==> (#[trigger] r[k]).displayed != Displayed::Active,
    ensures
        active_count(r) == 0,
    decreases r.len(),
{
    if r.len() > 0 {
        let d = r.drop_last();
        assert forall|k: int| 0 <= k < d.len() implies (#[trigger] d[k]).displayed != Displayed::Active by {
            assert(d[k] == r[k]);
        }
        lemma_no_active(d);
    }
}

/// A strictly sorted list whose active entries all have the id `t` has at
/// most one of them.
proof fn lemma_at_most_one_active(r: Seq<Workspace>, t: int)
    requires
        strictly_sorted(r),
        forall|k: int| 0 <= k < r.len() && (#[trigger] r[k]).displayed == Displayed::Active ==> r[k].id == t,
    ensures
        active_count(r) <= 1,
    decreases r.len(),
{
    if r.len() > 0 {
        let d = r.drop_last();
        let n = r.len() - 1;
        if r[n].displayed == Displayed::Active {
            assert forall|k: int| 0 <= k < d.len() implies (#[trigger] d[k]).displayed != Displayed::Active by {
                assert(d[k] == r[k]);
                assert(r[k].id < r[n].id);
            }
            lemma_no_active(d);
        } else {
            assert forall|i: int, j: int| 0 <= i < j < d.len() implies (#[trigger] d[i]).id < (#[trigger] d[j]).id by {
                assert(d[i] == r[i] && d[j] == r[j]);
            }
            assert forall|k: int| 0 <= k < d.len() && (#[trigger] d[k]).displayed == Displayed::Active implies d[k].id == t by {
                assert(d[k] == r[k]);
            }
            lemma_at_most_one_active(d, t);
        }
    }
}

/// The virtual desktop of a normal workspace is not negative.
proof fn lemma_vdesk_nonneg(id: int, mc: int)
    requires
        id >= 0,
        mc >= 1,
    ensures
        vdesk_id(id, mc) >= 0,
{
    reveal(vdesk_id);
    if id > 0 {
        assert((id - 1) / mc >= 0) by (nonlinear_arith)
            requires
                id >= 1,
                mc >= 1,
        ;
    }
}

/// Where no monitor shows a reported special workspace, reconciliation marks
/// at most one entry active; and where the active workspace is a reported
/// normal workspace, one entry is active.
pub proof fn lemma_single_active(
    cfg: WorkspacesModuleConfig,
    active: Option<i32>,
    mons: Seq<HyprMonitor>,
    ws: Seq<HyprWorkspace>,
    r: Seq<Workspace>,
)
    requires
        reconciled(cfg, active, mons, ws, r),
        forall|m: int, i: int|
            0 <= m < mons.len() && 0 <= i < ws.len() && ws[i].id < 0 ==> (#[trigger] mons[m]).special_workspace_id
                != (#[trigger] ws[i]).id,
    ensures
        active_count(r) <= 1,
        active matches Some(a) && a >= 0 && has_id(ws, a as int) ==> exists|k: int|
            0 <= k < r.len() && (#[trigger] r[k]).displayed == Displayed::Active,
{
    reveal(expected_entry);
    let s = first_occurrences(ws);
    let mc = monitor_count(mons);
    lemma_first_occurrences_distinct(ws);
    let t: int = match active {
        Some(a) => if cfg.enable_virtual_desktops {
            vdesk_id(a as int, mc)
        } else {
            a as int
        },
        None => 0,
    };
    assert forall|k: int| 0 <= k < r.len() && (#[trigger] r[k]).displayed == Displayed::Active implies r[k].id == t by {
        let v = r[k]@;
        assert(expected_entry(cfg, active, mons, s, v));
        if v.id < 0 {
            lemma_negative_entry(cfg, active, mons, s, v);
            let i = choose|i: int| 0 <= i < s.len() && s[i].id == v.id && v == special_view(s[i], mons);
            assert(has_id(s, s[i].id as int));
            assert(has_id(ws, s[i].id as int));
            let j = choose|j: int| 0 <= j < ws.len() && ws[j].id == s[i].id;
            let m = choose|m: int| 0 <= m < mons.len() && mons[m].special_workspace_id == s[i].id;
            assert(mons[m].special_workspace_id != ws[j].id);
        } else if cfg.enable_virtual_desktops {
            assert(vdesk_active(s, v.id as int, mc, active));
            let i = choose|i: int| 0 <= i < s.len() && in_vdesk(s[i], v.id as int, mc) && active == Some(s[i].id);
        }
    }
    lemma_at_most_one_active(r, t);
    if active is Some && active->0 >= 0 && has_id(ws, active->0 as int) {
        let a = active->0;
        assert(has_id(s, a as int));
        let i = choose|i: int| 0 <= i < s.len() && s[i].id == a;
        reveal(expected_id);
        if cfg.enable_virtual_desktops {
            let vd = vdesk_id(a as int, mc);
            lemma_vdesk_nonneg(a as int, mc);
            assert(in_vdesk(s[i], vd, mc));
            assert(expected_id(cfg, mons, s, vd));
            assert(has_entry(r, vd));
            let k = choose|k: int| 0 <= k < r.len() && r[k].id == vd;
            assert(expected_entry(cfg, active, mons, s, r[k]@));
            assert(vdesk_active(s, vd, mc, active));
            assert(r[k].displayed == Displayed::Active);
        } else {
            assert(expected_id(cfg, mons, s, a as int));
            assert(has_entry(r, a as int));
            let k = choose|k: int| 0 <= k < r.len() && r[k].id == a;
            assert(expected_entry(cfg, active, mons, s, r[k]@));
            let j = choose|j: int| 0 <= j < s.len() && s[j].id == r[k].id && r[k]@ == normal_view(s[j], cfg.workspace_names@, active, mons);
            assert(r[k].displayed == Displayed::Active);
        }
    }
}

} // verus!
