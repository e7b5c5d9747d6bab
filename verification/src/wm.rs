//! The orchestrator: owns the entity tables, the id generators, the live
//! gesture and the focus state, and exposes the lifecycle operations every
//! compositor event handler calls into.
//!
//! The two outside collaborators are kept at arm's length.  The compositor
//! and the input inhibitor answer questions (may this window take focus?)
//! through plain parameters, and the focus primitives this core would invoke
//! on them are handed back as a [`FocusAction`] for the event glue to
//! perform.

use vstd::prelude::*;

use crate::gesture::Gesture;
use crate::geometry::Point;
use crate::ids::{Id, IdGenerator};
use crate::monitor::Monitor;
use crate::window::Window;
use crate::workspace::{member_index, Workspace};

verus! {

/// When only the workspace at index `k` changed, and kept its id, every
/// table lookup except the changed workspace's own resolves as before.
pub(crate) proof fn lemma_one_workspace_changed(pre: WindowManager, post: WindowManager, k: int)
    requires
        pre.windows_distinct(),
        pre.workspaces_distinct(),
        pre.monitors_distinct(),
        post.windows == pre.windows,
        post.monitors == pre.monitors,
        post.workspaces@.len() == pre.workspaces@.len(),
        0 <= k < pre.workspaces@.len(),
        forall|j: int|
            0 <= j < pre.workspaces@.len() && j != k ==> post.workspaces@[j]
                == pre.workspaces@[j],
        post.workspaces@[k].id == pre.workspaces@[k].id,
    ensures
        post.windows_distinct(),
        post.workspaces_distinct(),
        post.monitors_distinct(),
        forall|x: Id| post.has_workspace(x) <==> pre.has_workspace(x),
        forall|x: Id|
            pre.has_workspace(x) ==> post.workspace_index(x) == pre.workspace_index(x),
        forall|x: Id|
            pre.has_workspace(x) && pre.workspace_index(x) != k ==> post.spec_workspace(x)
                == pre.spec_workspace(x),
        pre.workspace_index(pre.workspaces@[k].id) == k,
        post.workspace_index(pre.workspaces@[k].id) == k,
        post.spec_workspace(pre.workspaces@[k].id) == post.workspaces@[k],
        forall|x: Id| post.has_window(x) <==> pre.has_window(x),
        forall|x: Id| pre.has_window(x) ==> post.window_index(x) == pre.window_index(x),
        forall|x: Id| pre.has_window(x) ==> post.spec_window(x) == pre.spec_window(x),
        forall|x: Id| post.has_monitor(x) <==> pre.has_monitor(x),
        forall|x: Id| pre.has_monitor(x) ==> post.spec_monitor(x) == pre.spec_monitor(x),
{
    assert(post.windows@ == pre.windows@);
    assert(post.monitors@ == pre.monitors@);
    assert forall|i: int| 0 <= i < post.workspaces@.len() implies (#[trigger] post.workspaces@[i]).id
        == pre.workspaces@[i].id by {}
    assert forall|x: Id| pre.has_workspace(x) implies post.has_workspace(x) by {
        let i = choose|i: int| 0 <= i < pre.workspaces@.len() && pre.workspaces@[i].id == x;
        assert(post.workspaces@[i].id == x);
    }
    assert forall|x: Id| post.has_workspace(x) implies pre.has_workspace(x) by {
        let i = choose|i: int| 0 <= i < post.workspaces@.len() && post.workspaces@[i].id == x;
        assert(pre.workspaces@[i].id == x);
    }
    assert forall|x: Id| pre.has_workspace(x) implies post.workspace_index(x)
        == pre.workspace_index(x) by {
        let i1 = pre.workspace_index(x);
        let i2 = post.workspace_index(x);
        assert(0 <= i1 < pre.workspaces@.len() && pre.workspaces@[i1].id == x);
        assert(post.has_workspace(x));
        assert(0 <= i2 < post.workspaces@.len() && post.workspaces@[i2].id == x);
        assert(pre.workspaces@[i2].id == x);
    }
    assert(pre.has_workspace(pre.workspaces@[k].id));
    assert(pre.workspace_index(pre.workspaces@[k].id) == k) by {
        let i1 = pre.workspace_index(pre.workspaces@[k].id);
        assert(0 <= i1 < pre.workspaces@.len() && pre.workspaces@[i1].id
            == pre.workspaces@[k].id);
    }
    assert forall|x: Id| pre.has_window(x) implies post.has_window(x) && post.window_index(x)
        == pre.window_index(x) by {
        let i1 = pre.window_index(x);
        assert(0 <= i1 < pre.windows@.len() && pre.windows@[i1].id == x);
        assert(post.windows@[i1].id == x);
        assert(post.has_window(x));
        let i2 = post.window_index(x);
        assert(0 <= i2 < post.windows@.len() && post.windows@[i2].id == x);
        assert(pre.windows@[i2].id == x);
    }
    assert forall|x: Id| post.has_window(x) implies pre.has_window(x) by {
        let i = choose|i: int| 0 <= i < post.windows@.len() && post.windows@[i].id == x;
        assert(pre.windows@[i].id == x);
    }
    assert forall|x: Id| pre.has_monitor(x) implies post.has_monitor(x) && post.monitor_index(x)
        == pre.monitor_index(x) by {
        let i1 = pre.monitor_index(x);
        assert(0 <= i1 < pre.monitors@.len() && pre.monitors@[i1].id == x);
        assert(post.monitors@[i1].id == x);
        assert(post.has_monitor(x));
        let i2 = post.monitor_index(x);
        assert(0 <= i2 < post.monitors@.len() && post.monitors@[i2].id == x);
        assert(pre.monitors@[i2].id == x);
    }
    assert forall|x: Id| post.has_monitor(x) implies pre.has_monitor(x) by {
        let i = choose|i: int| 0 <= i < post.monitors@.len() && post.monitors@[i].id == x;
        assert(pre.monitors@[i].id == x);
    }
}

/// When the entity tables and generators are unchanged, well-formedness
/// carries over to any new focus state whose active window is in the table.
pub(crate) proof fn lemma_tables_unchanged_wf(
    pre: WindowManager,
    post: WindowManager,
    exempt: Option<Id>,
)
    requires
        pre.wf_except(exempt),
        post.windows == pre.windows,
        post.workspaces == pre.workspaces,
        post.monitors == pre.monitors,
        post.window_id_generator == pre.window_id_generator,
        post.workspace_id_generator == pre.workspace_id_generator,
        post.monitor_id_generator == pre.monitor_id_generator,
        pre.has_workspace(post.active_workspace),
        post.active_window.is_some() ==> pre.has_window(post.active_window.unwrap()),
    ensures
        post.wf_except(exempt),
        forall|x: Id| post.has_window(x) <==> pre.has_window(x),
        forall|x: Id| pre.has_window(x) ==> post.spec_window(x) == pre.spec_window(x),
        forall|x: Id| post.has_workspace(x) <==> pre.has_workspace(x),
        forall|x: Id| pre.has_workspace(x) ==> post.spec_workspace(x) == pre.spec_workspace(x),
        forall|x: Id| post.has_monitor(x) <==> pre.has_monitor(x),
        forall|x: Id| pre.has_monitor(x) ==> post.spec_monitor(x) == pre.spec_monitor(x),
{
    assert(pre.workspaces@.len() > 0) by {
        assert(pre.has_workspace(pre.active_workspace));
    }
    lemma_one_workspace_changed(pre, post, 0);
    assert forall|x: Id| pre.has_workspace(x) implies post.spec_workspace(x)
        == pre.spec_workspace(x) by {
        assert(post.workspaces@[pre.workspace_index(x)] == pre.workspaces@[pre.workspace_index(
            x,
        )]);
    }
    assert forall|i: int| 0 <= i < post.workspaces@.len() implies post.workspace_consistent(
        #[trigger] post.workspaces@[i],
    ) by {
        let ws = pre.workspaces@[i];
        assert(pre.workspace_consistent(ws));
        assert(post.workspaces@[i] == ws);
        assert forall|m: int| 0 <= m < ws.windows@.len() implies post.has_window(
            #[trigger] ws.windows@[m],
        ) && post.spec_window(ws.windows@[m]).workspace == ws.id by {
            assert(pre.has_window(ws.windows@[m]));
            assert(pre.spec_window(ws.windows@[m]).workspace == ws.id);
        }
    }
    assert forall|i: int| 0 <= i < post.windows@.len() implies post.window_placed(
        #[trigger] post.windows@[i],
        exempt,
    ) by {
        let w = pre.windows@[i];
        assert(pre.window_placed(w, exempt));
    }
    assert forall|i: int| 0 <= i < post.monitors@.len() implies post.has_workspace(
        (#[trigger] post.monitors@[i]).workspace,
    ) by {
        assert(pre.has_workspace(pre.monitors@[i].workspace));
    }
}

/// Law: in a well-formed manager, every workspace's active window, if set,
/// is one of that workspace's members.  Every operation of this module
/// returns a well-formed manager, so this holds after each of them.
pub proof fn lemma_active_window_is_member(wm: WindowManager, i: int)
    requires
        wm.wf(),
        0 <= i < wm.workspaces@.len(),
        wm.workspaces@[i].active_window.is_some(),
    ensures
        wm.workspaces@[i].windows@.contains(wm.workspaces@[i].active_window.unwrap()),
{
    assert(wm.workspace_consistent(wm.workspaces@[i]));
}

/// Law: in a well-formed manager, every window's workspace back-reference
/// names an existing workspace whose members include that window's id.
/// Every operation of this module returns a well-formed manager, so this
/// holds after each of them.
pub proof fn lemma_window_backref_resolves(wm: WindowManager, i: int)
    requires
        wm.wf(),
        0 <= i < wm.windows@.len(),
    ensures
        wm.has_workspace(wm.windows@[i].workspace),
        wm.spec_workspace(wm.windows@[i].workspace).windows@.contains(wm.windows@[i].id),
{
    assert(wm.window_placed(wm.windows@[i], None));
}

/// Law: a window whose compositor-reported state is fullscreen never
/// appears among a workspace's tiled members, whether or not it was tiled
/// before — the classification is recomputed from the live state.
pub proof fn lemma_fullscreen_excluded_from_tiled(wm: WindowManager, ws: Workspace, w: Id)
    requires
        wm.has_window(w),
        wm.spec_window(w).window_info.state == crate::window::WindowState::Fullscreen,
    ensures
        !wm.tiled_members(ws).contains(w),
{
    let t = wm.tiled_members(ws);
    if t.contains(w) {
        let i = choose|i: int| 0 <= i < t.len() && t[i] == w;
        ws.windows@.lemma_filter_pred(wm.tiled_pred(), i);
        assert(wm.spec_window(w).spec_is_tiled());
        assert(false);
    }
}

/// A workspace not bound to any monitor: a spare landing spot held in
/// reserve for reassignment.
pub open spec fn workspace_unused(ws: Workspace) -> bool {
    ws.on_monitor.is_none()
}

/// The spare-workspace test, as a predicate value for filtering.
pub open spec fn unused_pred() -> spec_fn(Workspace) -> bool {
    |ws: Workspace| workspace_unused(ws)
}

/// Appending a fresh, empty, monitor-less workspace with a never-issued id
/// keeps the manager well-formed and leaves every existing lookup as it was.
pub(crate) proof fn lemma_push_fresh_workspace_wf(
    pre: WindowManager,
    post: WindowManager,
    ws: Workspace,
)
    requires
        pre.wf(),
        post.workspaces@ == pre.workspaces@.push(ws),
        post.windows == pre.windows,
        post.monitors == pre.monitors,
        post.window_id_generator == pre.window_id_generator,
        post.monitor_id_generator == pre.monitor_id_generator,
        post.active_window == pre.active_window,
        post.active_workspace == pre.active_workspace,
        ws.id >= pre.workspace_id_generator.spec_next_id(),
        post.workspace_id_generator.wf(),
        post.workspace_id_generator.spec_next_id() > ws.id,
        post.workspace_id_generator.spec_next_id() >= pre.workspace_id_generator.spec_next_id(),
        ws.windows@.len() == 0,
        ws.active_window.is_none(),
        ws.on_monitor.is_none(),
    ensures
        post.wf(),
        post.has_workspace(ws.id),
        post.spec_workspace(ws.id) == ws,
        forall|x: Id| pre.has_workspace(x) ==> post.has_workspace(x),
        forall|x: Id|
            pre.has_workspace(x) ==> post.workspace_index(x) == pre.workspace_index(x)
                && post.spec_workspace(x) == pre.spec_workspace(x),
        forall|x: Id| post.has_window(x) <==> pre.has_window(x),
        forall|x: Id| pre.has_window(x) ==> post.spec_window(x) == pre.spec_window(x),
{
    let n = pre.workspaces@.len() as int;
    assert forall|j: int| 0 <= j < n implies (#[trigger] pre.workspaces@[j]).id != ws.id by {
        assert(pre.workspaces@[j].id < pre.workspace_id_generator.spec_next_id());
    }
    assert(post.workspaces_distinct());
    assert(post.has_workspace(ws.id)) by {
        assert(post.workspaces@[n].id == ws.id);
    }
    assert(post.workspace_index(ws.id) == n && post.spec_workspace(ws.id) == ws) by {
        let i = post.workspace_index(ws.id);
        assert(0 <= i < post.workspaces@.len() && post.workspaces@[i].id == ws.id);
    }
    assert forall|x: Id| pre.has_workspace(x) implies post.has_workspace(x)
        && post.workspace_index(x) == pre.workspace_index(x) && post.spec_workspace(x)
        == pre.spec_workspace(x) by {
        let i1 = pre.workspace_index(x);
        assert(0 <= i1 < n && pre.workspaces@[i1].id == x);
        assert(post.workspaces@[i1].id == x);
        assert(post.has_workspace(x));
        let i2 = post.workspace_index(x);
        assert(0 <= i2 < post.workspaces@.len() && post.workspaces@[i2].id == x);
        assert(i2 != n) by {
            assert(pre.workspaces@[i1].id != ws.id);
        }
        assert(pre.workspaces@[i2].id == x);
    }
    assert(post.windows@ == pre.windows@);
    assert(post.monitors@ == pre.monitors@);
    assert forall|x: Id| pre.has_window(x) implies post.has_window(x) && post.window_index(x)
        == pre.window_index(x) by {
        let i1 = pre.window_index(x);
        assert(0 <= i1 < pre.windows@.len() && pre.windows@[i1].id == x);
        assert(post.windows@[i1].id == x);
        assert(post.has_window(x));
        let i2 = post.window_index(x);
        assert(0 <= i2 < post.windows@.len() && post.windows@[i2].id == x);
        assert(pre.windows@[i2].id == x);
    }
    assert forall|x: Id| post.has_window(x) implies pre.has_window(x) by {
        let i = choose|i: int| 0 <= i < post.windows@.len() && post.windows@[i].id == x;
        assert(pre.windows@[i].id == x);
    }
    assert forall|x: Id| pre.has_monitor(x) implies post.has_monitor(x) by {
        let i = choose|i: int| 0 <= i < pre.monitors@.len() && pre.monitors@[i].id == x;
        assert(post.monitors@[i].id == x);
    }
    assert forall|i: int| 0 <= i < post.workspaces@.len() implies post.workspace_consistent(
        #[trigger] post.workspaces@[i],
    ) by {
        if i < n {
            let wsa = pre.workspaces@[i];
            assert(pre.workspace_consistent(wsa));
            assert(post.workspaces@[i] == wsa);
            assert forall|m: int| 0 <= m < wsa.windows@.len() implies post.has_window(
                #[trigger] wsa.windows@[m],
            ) && post.spec_window(wsa.windows@[m]).workspace == wsa.id by {
                assert(pre.has_window(wsa.windows@[m]));
                assert(pre.spec_window(wsa.windows@[m]).workspace == wsa.id);
            }
            if wsa.on_monitor.is_some() {
                assert(pre.has_monitor(wsa.on_monitor.unwrap()));
            }
        } else {
            assert(post.workspaces@[i] == ws);
        }
    }
    assert forall|i: int| 0 <= i < post.windows@.len() implies post.window_placed(
        #[trigger] post.windows@[i],
        None,
    ) by {
        let w = pre.windows@[i];
        assert(pre.window_placed(w, None));
    }
    assert forall|i: int| 0 <= i < post.monitors@.len() implies post.has_workspace(
        (#[trigger] post.monitors@[i]).workspace,
    ) by {
        assert(pre.has_workspace(pre.monitors@[i].workspace));
    }
    assert(post.monitor_bindings_unique()) by {
        assert forall|i: int, j: int|
            0 <= i < j < post.workspaces@.len() && post.workspaces@[i].on_monitor.is_some() implies
            post.workspaces@[i].on_monitor != post.workspaces@[j].on_monitor by {
            if j < n {
                assert(pre.workspaces@[i].on_monitor != pre.workspaces@[j].on_monitor);
            } else {
                assert(post.workspaces@[j].on_monitor.is_none());
            }
        }
    }
}

/// Appending a window with a never-seen id to the table keeps everything
/// well-formed except that the new window is not yet a member of any
/// workspace; every existing lookup resolves as before.
pub(crate) proof fn lemma_push_window_wfx(pre: WindowManager, post: WindowManager, w: Window)
    requires
        pre.wf(),
        post.windows@ == pre.windows@.push(w),
        post.workspaces == pre.workspaces,
        post.monitors == pre.monitors,
        post.window_id_generator == pre.window_id_generator,
        post.workspace_id_generator == pre.workspace_id_generator,
        post.monitor_id_generator == pre.monitor_id_generator,
        post.active_window == pre.active_window,
        post.active_workspace == pre.active_workspace,
        !pre.has_window(w.id),
        w.id < pre.window_id_generator.spec_next_id(),
    ensures
        post.wf_except(Some(w.id)),
        post.has_window(w.id),
        post.window_index(w.id) == pre.windows@.len(),
        post.spec_window(w.id) == w,
        forall|x: Id| post.has_window(x) <==> (pre.has_window(x) || x == w.id),
        forall|x: Id|
            pre.has_window(x) ==> post.window_index(x) == pre.window_index(x)
                && post.spec_window(x) == pre.spec_window(x),
        forall|x: Id| post.has_workspace(x) <==> pre.has_workspace(x),
        forall|x: Id|
            pre.has_workspace(x) ==> post.workspace_index(x) == pre.workspace_index(x)
                && post.spec_workspace(x) == pre.spec_workspace(x),
        forall|x: Id| post.has_monitor(x) <==> pre.has_monitor(x),
{
    let n = pre.windows@.len() as int;
    assert forall|j: int| 0 <= j < n implies (#[trigger] pre.windows@[j]).id != w.id by {
        assert(pre.has_window(pre.windows@[j].id));
    }
    assert(post.windows_distinct());
    assert(post.has_window(w.id)) by {
        assert(post.windows@[n].id == w.id);
    }
    assert(post.window_index(w.id) == n && post.spec_window(w.id) == w) by {
        let i = post.window_index(w.id);
        assert(0 <= i < post.windows@.len() && post.windows@[i].id == w.id);
    }
    assert forall|x: Id| pre.has_window(x) implies post.has_window(x) && post.window_index(x)
        == pre.window_index(x) && post.spec_window(x) == pre.spec_window(x) by {
        let i1 = pre.window_index(x);
        assert(0 <= i1 < n && pre.windows@[i1].id == x);
        assert(post.windows@[i1].id == x);
        assert(post.has_window(x));
        let i2 = post.window_index(x);
        assert(0 <= i2 < post.windows@.len() && post.windows@[i2].id == x);
        assert(i2 != n) by {
            assert(pre.windows@[i1].id != w.id);
        }
        assert(pre.windows@[i2].id == x);
    }
    assert forall|x: Id| post.has_window(x) implies (pre.has_window(x) || x == w.id) by {
        let i = choose|i: int| 0 <= i < post.windows@.len() && post.windows@[i].id == x;
        if i < n {
            assert(pre.windows@[i].id == x);
        }
    }
    assert(post.workspaces@ == pre.workspaces@);
    assert(post.monitors@ == pre.monitors@);
    assert forall|x: Id| pre.has_workspace(x) implies post.has_workspace(x)
        && post.workspace_index(x) == pre.workspace_index(x) by {
        let i1 = pre.workspace_index(x);
        assert(0 <= i1 < pre.workspaces@.len() && pre.workspaces@[i1].id == x);
        assert(post.workspaces@[i1].id == x);
        assert(post.has_workspace(x));
        let i2 = post.workspace_index(x);
        assert(0 <= i2 < post.workspaces@.len() && post.workspaces@[i2].id == x);
        assert(pre.workspaces@[i2].id == x);
    }
    assert forall|x: Id| post.has_workspace(x) implies pre.has_workspace(x) by {
        let i = choose|i: int| 0 <= i < post.workspaces@.len() && post.workspaces@[i].id == x;
        assert(pre.workspaces@[i].id == x);
    }
    assert forall|x: Id| pre.has_monitor(x) implies post.has_monitor(x) by {
        let i = choose|i: int| 0 <= i < pre.monitors@.len() && pre.monitors@[i].id == x;
        assert(post.monitors@[i].id == x);
    }
    assert forall|x: Id| post.has_monitor(x) implies pre.has_monitor(x) by {
        let i = choose|i: int| 0 <= i < post.monitors@.len() && post.monitors@[i].id == x;
        assert(pre.monitors@[i].id == x);
    }
    assert forall|i: int| 0 <= i < post.workspaces@.len() implies post.workspace_consistent(
        #[trigger] post.workspaces@[i],
    ) by {
        let ws = pre.workspaces@[i];
        assert(pre.workspace_consistent(ws));
        assert(post.workspaces@[i] == ws);
        assert forall|m: int| 0 <= m < ws.windows@.len() implies post.has_window(
            #[trigger] ws.windows@[m],
        ) && post.spec_window(ws.windows@[m]).workspace == ws.id by {
            assert(pre.has_window(ws.windows@[m]));
            assert(pre.spec_window(ws.windows@[m]).workspace == ws.id);
        }
        if ws.on_monitor.is_some() {
            assert(pre.has_monitor(ws.on_monitor.unwrap()));
        }
    }
    assert forall|i: int| 0 <= i < post.windows@.len() implies post.window_placed(
        #[trigger] post.windows@[i],
        Some(w.id),
    ) by {
        if i < n {
            let wi = pre.windows@[i];
            assert(pre.window_placed(wi, None));
            if wi.id != w.id {
                assert(post.spec_workspace(wi.workspace) == pre.spec_workspace(wi.workspace));
            }
        }
    }
    assert forall|i: int| 0 <= i < post.monitors@.len() implies post.has_workspace(
        (#[trigger] post.monitors@[i]).workspace,
    ) by {
        assert(pre.has_workspace(pre.monitors@[i].workspace));
    }
}

/// Inserting a table-registered, not-yet-placed window id into the member
/// sequence of the workspace its back-reference names restores full
/// well-formedness.
#[verifier::rlimit(100)]
pub(crate) proof fn lemma_insert_member_wf(
    sa: WindowManager,
    sb: WindowManager,
    k: int,
    wid: Id,
    p: int,
)
    requires
        sa.wf_except(Some(wid)),
        sa.has_window(wid),
        0 <= k < sa.workspaces@.len(),
        sa.spec_window(wid).workspace == sa.workspaces@[k].id,
        sb.windows == sa.windows,
        sb.monitors == sa.monitors,
        sb.window_id_generator == sa.window_id_generator,
        sb.workspace_id_generator == sa.workspace_id_generator,
        sb.monitor_id_generator == sa.monitor_id_generator,
        sb.active_window == sa.active_window,
        sb.active_workspace == sa.active_workspace,
        sb.gesture == sa.gesture,
        sb.old_cursor == sa.old_cursor,
        sb.workspaces@.len() == sa.workspaces@.len(),
        forall|j: int|
            0 <= j < sa.workspaces@.len() && j != k ==> sb.workspaces@[j] == sa.workspaces@[j],
        sb.workspaces@[k] == (Workspace { windows: sb.workspaces@[k].windows, ..sa.workspaces@[k] }),
        0 <= p <= sa.workspaces@[k].windows@.len(),
        sb.workspaces@[k].windows@ == sa.workspaces@[k].windows@.insert(p, wid),
        forall|m: int|
            0 <= m < sa.workspaces@[k].windows@.len() ==> sa.workspaces@[k].windows@[m] != wid,
    ensures
        sb.wf(),
        forall|x: Id| sb.has_window(x) <==> sa.has_window(x),
        forall|x: Id| sa.has_window(x) ==> sb.spec_window(x) == sa.spec_window(x),
        forall|x: Id| sb.has_workspace(x) <==> sa.has_workspace(x),
        sb.workspace_index(sa.workspaces@[k].id) == k,
        sb.spec_workspace(sa.workspaces@[k].id) == sb.workspaces@[k],
{
    let ws0 = sa.workspaces@[k];
    let members1 = ws0.windows@;
    let members2 = members1.insert(p, wid);
    members1.insert_ensures(p, wid);
    lemma_one_workspace_changed(sa, sb, k);
    assert(sa.workspace_consistent(ws0));
    assert forall|m: int| 0 <= m < members1.len() implies members2.contains(
        #[trigger] members1[m],
    ) by {
        if m < p {
            assert(members2[m] == members1[m]);
        } else {
            assert(members2[m + 1] == members1[m]);
        }
    }
    assert(members2[p] == wid);
    assert(members2.contains(wid));
    assert(sb.workspace_consistent(sb.workspaces@[k])) by {
        let wsb = sb.workspaces@[k];
        assert(wsb.members_distinct()) by {
            assert forall|i: int, j: int| 0 <= i < j < members2.len() implies members2[i]
                != members2[j] by {
                if i != p && j != p {
                    let i0: int = if i < p {
                        i
                    } else {
                        i - 1
                    };
                    let j0: int = if j < p {
                        j
                    } else {
                        j - 1
                    };
                    assert(members2[i] == members1[i0] && members2[j] == members1[j0]);
                } else if i == p {
                    assert(members2[j] == members1[j - 1]);
                } else {
                    assert(members2[i] == members1[if i < p {
                        i
                    } else {
                        i - 1
                    }]);
                }
            }
        }
        if wsb.active_window.is_some() {
            let act = wsb.active_window.unwrap();
            assert(members1.contains(act));
            let m = choose|m: int| 0 <= m < members1.len() && members1[m] == act;
            assert(members2.contains(members1[m]));
        }
        assert forall|m: int| 0 <= m < members2.len() implies sb.has_window(
            #[trigger] members2[m],
        ) && sb.spec_window(members2[m]).workspace == wsb.id by {
            if m == p {
                assert(members2[m] == wid);
                assert(sa.spec_window(wid).workspace == wsb.id);
            } else {
                let m0: int = if m < p {
                    m
                } else {
                    m - 1
                };
                assert(members2[m] == members1[m0]);
                assert(sa.has_window(members1[m0]));
                assert(sa.spec_window(members1[m0]).workspace == ws0.id);
            }
        }
        if wsb.on_monitor.is_some() {
            assert(sa.has_monitor(wsb.on_monitor.unwrap()));
        }
    }
    assert forall|i: int| 0 <= i < sb.workspaces@.len() implies sb.workspace_consistent(
        #[trigger] sb.workspaces@[i],
    ) by {
        if i != k {
            let wsa = sa.workspaces@[i];
            assert(sa.workspace_consistent(wsa));
            assert(sb.workspaces@[i] == wsa);
            assert forall|m: int| 0 <= m < wsa.windows@.len() implies sb.has_window(
                #[trigger] wsa.windows@[m],
            ) && sb.spec_window(wsa.windows@[m]).workspace == wsa.id by {
                assert(sa.has_window(wsa.windows@[m]));
                assert(sa.spec_window(wsa.windows@[m]).workspace == wsa.id);
            }
            if wsa.on_monitor.is_some() {
                assert(sa.has_monitor(wsa.on_monitor.unwrap()));
            }
        }
    }
    assert forall|i: int| 0 <= i < sb.windows@.len() implies sb.window_placed(
        #[trigger] sb.windows@[i],
        None,
    ) by {
        let w = sa.windows@[i];
        if w.id == wid {
            assert(sb.spec_workspace(w.workspace) == sb.workspaces@[k]) by {
                assert(sa.workspaces@[k].id == w.workspace) by {
                    assert(sa.has_window(wid));
                    assert(sa.spec_window(wid).id == wid) by {
                        let ci = sa.window_index(wid);
                        assert(0 <= ci < sa.windows@.len() && sa.windows@[ci].id == wid);
                    }
                    assert(w == sa.spec_window(wid)) by {
                        let ci = sa.window_index(wid);
                        assert(sa.windows@[ci].id == wid && sa.windows@[i].id == wid);
                    }
                }
            }
            assert(members2.contains(w.id));
        } else {
            assert(sa.window_placed(w, Some(wid)));
            if sa.workspace_index(w.workspace) == k {
                assert(sa.spec_workspace(w.workspace) == ws0);
                assert(ws0.windows@.contains(w.id));
                let m = choose|m: int| 0 <= m < members1.len() && members1[m] == w.id;
                assert(members2.contains(members1[m]));
                assert(sb.spec_workspace(w.workspace) == sb.workspaces@[k]);
            } else {
                assert(sb.spec_workspace(w.workspace) == sa.spec_workspace(w.workspace));
            }
        }
    }
    assert forall|i: int| 0 <= i < sb.monitors@.len() implies sb.has_workspace(
        (#[trigger] sb.monitors@[i]).workspace,
    ) by {
        assert(sa.has_workspace(sa.monitors@[i].workspace));
    }
    assert(sb.monitor_bindings_unique()) by {
        assert forall|i: int, j: int|
            0 <= i < j < sb.workspaces@.len() && sb.workspaces@[i].on_monitor.is_some() implies
            sb.workspaces@[i].on_monitor != sb.workspaces@[j].on_monitor by {
            assert(sb.workspaces@[i].on_monitor == sa.workspaces@[i].on_monitor);
            assert(sb.workspaces@[j].on_monitor == sa.workspaces@[j].on_monitor);
            assert(sa.workspaces@[i].on_monitor != sa.workspaces@[j].on_monitor);
        }
    }
}

/// Every element of a filtered sequence stands somewhere in the original.
pub(crate) proof fn lemma_filter_subset(s: Seq<Id>, pred: spec_fn(Id) -> bool)
    ensures
        forall|i: int| 0 <= i < s.filter(pred).len() ==> s.contains(#[trigger] s.filter(pred)[i]),
    decreases s.len(),
{
    reveal(Seq::filter);
    if s.len() > 0 {
        let rest = s.drop_last();
        lemma_filter_subset(rest, pred);
        assert forall|i: int| 0 <= i < s.filter(pred).len() implies s.contains(
            #[trigger] s.filter(pred)[i],
        ) by {
            if i < rest.filter(pred).len() {
                assert(s.filter(pred)[i] == rest.filter(pred)[i]);
                assert(rest.contains(rest.filter(pred)[i]));
                let j = choose|j: int| 0 <= j < rest.len() && rest[j] == rest.filter(pred)[i];
                assert(s[j] == rest[j]);
            } else {
                assert(s.filter(pred)[i] == s.last());
                assert(s[s.len() - 1] == s.last());
            }
        }
    }
}

/// Filtering a duplicate-free sequence yields a duplicate-free sequence.
pub(crate) proof fn lemma_filter_distinct(s: Seq<Id>, pred: spec_fn(Id) -> bool)
    requires
        forall|i: int, j: int| 0 <= i < j < s.len() ==> s[i] != s[j],
    ensures
        forall|i: int, j: int|
            0 <= i < j < s.filter(pred).len() ==> s.filter(pred)[i] != s.filter(pred)[j],
    decreases s.len(),
{
    reveal(Seq::filter);
    if s.len() > 0 {
        let rest = s.drop_last();
        lemma_filter_distinct(rest, pred);
        lemma_filter_subset(rest, pred);
        assert forall|i: int, j: int| 0 <= i < j < s.filter(pred).len() implies s.filter(pred)[i]
            != s.filter(pred)[j] by {
            if j < rest.filter(pred).len() {
                assert(s.filter(pred)[i] == rest.filter(pred)[i]);
                assert(s.filter(pred)[j] == rest.filter(pred)[j]);
            } else {
                assert(pred(s.last()));
                assert(s.filter(pred)[j] == s.last());
                assert(s.filter(pred)[i] == rest.filter(pred)[i]);
                assert(rest.contains(rest.filter(pred)[i]));
                let m = choose|m: int| 0 <= m < rest.len() && rest[m] == rest.filter(pred)[i];
                assert(s[m] == rest[m]);
                assert(s[m] != s[s.len() - 1]);
                assert(s.last() == s[s.len() - 1]);
            }
        }
    }
}

/// Removing a member id from the one workspace whose back-reference names it
/// leaves the manager well-formed except for that window's own placement.
#[verifier::rlimit(100)]
pub(crate) proof fn lemma_remove_member_wfx(
    sa: WindowManager,
    sb: WindowManager,
    k: int,
    wid: Id,
    idx: int,
)
    requires
        sa.wf(),
        0 <= k < sa.workspaces@.len(),
        0 <= idx < sa.workspaces@[k].windows@.len(),
        sa.workspaces@[k].windows@[idx] == wid,
        sa.workspaces@[k].active_window != Some(wid),
        sa.has_window(wid),
        sa.spec_window(wid).workspace == sa.workspaces@[k].id,
        sb.workspaces@.len() == sa.workspaces@.len(),
        forall|j: int|
            0 <= j < sa.workspaces@.len() && j != k ==> sb.workspaces@[j] == sa.workspaces@[j],
        sb.workspaces@[k] == (Workspace { windows: sb.workspaces@[k].windows, ..sa.workspaces@[k] }),
        sb.workspaces@[k].windows@ == sa.workspaces@[k].windows@.remove(idx),
        sb.windows == sa.windows,
        sb.monitors == sa.monitors,
        sb.window_id_generator == sa.window_id_generator,
        sb.workspace_id_generator == sa.workspace_id_generator,
        sb.monitor_id_generator == sa.monitor_id_generator,
        sb.active_window == sa.active_window,
        sb.active_workspace == sa.active_workspace,
    ensures
        sb.wf_except(Some(wid)),
        forall|j: int, m: int|
            0 <= j < sb.workspaces@.len() && 0 <= m < sb.workspaces@[j].windows@.len()
                ==> sb.workspaces@[j].windows@[m] != wid,
{
    let ws0 = sa.workspaces@[k];
    let members1 = ws0.windows@;
    let members2 = members1.remove(idx);
    members1.remove_ensures(idx);
    lemma_one_workspace_changed(sa, sb, k);
    assert(sa.workspace_consistent(ws0));
    assert forall|m: int| 0 <= m < members1.len() && m != idx implies members1[m] != wid by {}
    assert forall|m: int| 0 <= m < members2.len() implies members2[m] != wid && members1.contains(
        #[trigger] members2[m],
    ) by {
        if m < idx {
            assert(members2[m] == members1[m]);
        } else {
            assert(members2[m] == members1[m + 1]);
        }
    }
    assert(sb.workspace_consistent(sb.workspaces@[k])) by {
        let wsb = sb.workspaces@[k];
        assert(wsb.members_distinct()) by {
            assert forall|i: int, j: int| 0 <= i < j < members2.len() implies members2[i]
                != members2[j] by {
                let i0: int = if i < idx {
                    i
                } else {
                    i + 1
                };
                let j0: int = if j < idx {
                    j
                } else {
                    j + 1
                };
                assert(members2[i] == members1[i0] && members2[j] == members1[j0]);
            }
        }
        if wsb.active_window.is_some() {
            let act = wsb.active_window.unwrap();
            assert(act != wid);
            assert(members1.contains(act));
            let m = choose|m: int| 0 <= m < members1.len() && members1[m] == act;
            assert(m != idx);
            if m < idx {
                assert(members2[m] == act);
            } else {
                assert(members2[m - 1] == act);
            }
            assert(members2.contains(act));
        }
        assert forall|m: int| 0 <= m < members2.len() implies sb.has_window(
            #[trigger] members2[m],
        ) && sb.spec_window(members2[m]).workspace == wsb.id by {
            let m0: int = if m < idx {
                m
            } else {
                m + 1
            };
            assert(members2[m] == members1[m0]);
            assert(sa.has_window(members1[m0]));
            assert(sa.spec_window(members1[m0]).workspace == ws0.id);
        }
        if wsb.on_monitor.is_some() {
            assert(sa.has_monitor(wsb.on_monitor.unwrap()));
        }
    }
    assert forall|i: int| 0 <= i < sb.workspaces@.len() implies sb.workspace_consistent(
        #[trigger] sb.workspaces@[i],
    ) by {
        if i != k {
            let wsa = sa.workspaces@[i];
            assert(sa.workspace_consistent(wsa));
            assert(sb.workspaces@[i] == wsa);
            assert forall|m: int| 0 <= m < wsa.windows@.len() implies sb.has_window(
                #[trigger] wsa.windows@[m],
            ) && sb.spec_window(wsa.windows@[m]).workspace == wsa.id by {
                assert(sa.has_window(wsa.windows@[m]));
                assert(sa.spec_window(wsa.windows@[m]).workspace == wsa.id);
            }
            if wsa.on_monitor.is_some() {
                assert(sa.has_monitor(wsa.on_monitor.unwrap()));
            }
        }
    }
    assert forall|j: int, m: int|
        0 <= j < sb.workspaces@.len() && 0 <= m < sb.workspaces@[j].windows@.len() implies
        sb.workspaces@[j].windows@[m] != wid by {
        if j != k {
            let wsa = sa.workspaces@[j];
            if wsa.windows@[m] == wid {
                assert(sa.workspace_consistent(wsa));
                assert(sa.spec_window(wid).workspace == wsa.id);
                assert(wsa.id == ws0.id);
                assert(sa.workspaces_distinct());
                assert(false);
            }
        }
    }
    assert forall|i: int| 0 <= i < sb.windows@.len() implies sb.window_placed(
        #[trigger] sb.windows@[i],
        Some(wid),
    ) by {
        let w = sa.windows@[i];
        assert(sa.window_placed(w, None));
        if w.id != wid {
            if sa.workspace_index(w.workspace) == k {
                assert(sa.spec_workspace(w.workspace) == ws0);
                assert(members1.contains(w.id));
                let m = choose|m: int| 0 <= m < members1.len() && members1[m] == w.id;
                assert(m != idx);
                if m < idx {
                    assert(members2[m] == w.id);
                } else {
                    assert(members2[m - 1] == w.id);
                }
                assert(sb.spec_workspace(w.workspace) == sb.workspaces@[k]);
                assert(members2.contains(w.id));
            } else {
                assert(sb.spec_workspace(w.workspace) == sa.spec_workspace(w.workspace));
            }
        }
    }
    assert forall|i: int| 0 <= i < sb.monitors@.len() implies sb.has_workspace(
        (#[trigger] sb.monitors@[i]).workspace,
    ) by {
        assert(sa.has_workspace(sa.monitors@[i].workspace));
    }
    assert(sb.monitor_bindings_unique()) by {
        assert forall|i: int, j: int|
            0 <= i < j < sb.workspaces@.len() && sb.workspaces@[i].on_monitor.is_some() implies
            sb.workspaces@[i].on_monitor != sb.workspaces@[j].on_monitor by {
            assert(sb.workspaces@[i].on_monitor == sa.workspaces@[i].on_monitor);
            assert(sb.workspaces@[j].on_monitor == sa.workspaces@[j].on_monitor);
            assert(sa.workspaces@[i].on_monitor != sa.workspaces@[j].on_monitor);
        }
    }
}

/// Dropping from the window table a window that no workspace lists any more
/// restores full well-formedness.
#[verifier::rlimit(100)]
pub(crate) proof fn lemma_remove_window_table_wf(sb: WindowManager, post: WindowManager, wid: Id)
    requires
        sb.wf_except(Some(wid)),
        sb.has_window(wid),
        sb.active_window != Some(wid),
        forall|j: int, m: int|
            0 <= j < sb.workspaces@.len() && 0 <= m < sb.workspaces@[j].windows@.len()
                ==> sb.workspaces@[j].windows@[m] != wid,
        post.windows@ == sb.windows@.remove(sb.window_index(wid)),
        post.workspaces == sb.workspaces,
        post.monitors == sb.monitors,
        post.window_id_generator == sb.window_id_generator,
        post.workspace_id_generator == sb.workspace_id_generator,
        post.monitor_id_generator == sb.monitor_id_generator,
        post.active_window == sb.active_window,
        post.active_workspace == sb.active_workspace,
    ensures
        post.wf(),
{
    let n0 = sb.window_index(wid);
    let windows1 = sb.windows@;
    let windows2 = windows1.remove(n0);
    assert(0 <= n0 < windows1.len() && windows1[n0].id == wid);
    windows1.remove_ensures(n0);
    assert forall|m: int| 0 <= m < windows2.len() implies (#[trigger] windows2[m]).id != wid
        && windows1.contains(windows2[m]) by {
        let m0: int = if m < n0 {
            m
        } else {
            m + 1
        };
        assert(windows2[m] == windows1[m0]);
    }
    assert(post.windows_distinct()) by {
        assert forall|i: int, j: int| 0 <= i < j < windows2.len() implies windows2[i].id
            != windows2[j].id by {
            let i0: int = if i < n0 {
                i
            } else {
                i + 1
            };
            let j0: int = if j < n0 {
                j
            } else {
                j + 1
            };
            assert(windows2[i] == windows1[i0] && windows2[j] == windows1[j0]);
        }
    }
    assert forall|x: Id| sb.has_window(x) && x != wid implies post.has_window(x)
        && post.spec_window(x) == sb.spec_window(x) by {
        let i1 = sb.window_index(x);
        assert(0 <= i1 < windows1.len() && windows1[i1].id == x);
        assert(i1 != n0);
        let i1b: int = if i1 < n0 {
            i1
        } else {
            i1 - 1
        };
        assert(windows2[i1b] == windows1[i1]);
        assert(post.has_window(x));
        let i2 = post.window_index(x);
        assert(0 <= i2 < windows2.len() && windows2[i2].id == x);
        let i20: int = if i2 < n0 {
            i2
        } else {
            i2 + 1
        };
        assert(windows2[i2] == windows1[i20]);
        assert(windows1[i20].id == x && windows1[i1].id == x);
    }
    assert(post.workspaces@ == sb.workspaces@);
    assert(post.monitors@ == sb.monitors@);
    assert forall|x: Id| sb.has_workspace(x) implies post.has_workspace(x)
        && post.spec_workspace(x) == sb.spec_workspace(x) by {
        let i1 = sb.workspace_index(x);
        assert(0 <= i1 < sb.workspaces@.len() && sb.workspaces@[i1].id == x);
        assert(post.workspaces@[i1].id == x);
        assert(post.has_workspace(x));
        let i2 = post.workspace_index(x);
        assert(0 <= i2 < post.workspaces@.len() && post.workspaces@[i2].id == x);
        assert(sb.workspaces@[i2].id == x);
    }
    assert forall|x: Id| sb.has_monitor(x) implies post.has_monitor(x) by {
        let i = choose|i: int| 0 <= i < sb.monitors@.len() && sb.monitors@[i].id == x;
        assert(post.monitors@[i].id == x);
    }
    assert forall|i: int| 0 <= i < post.workspaces@.len() implies post.workspace_consistent(
        #[trigger] post.workspaces@[i],
    ) by {
        let ws = sb.workspaces@[i];
        assert(sb.workspace_consistent(ws));
        assert(post.workspaces@[i] == ws);
        assert forall|m: int| 0 <= m < ws.windows@.len() implies post.has_window(
            #[trigger] ws.windows@[m],
        ) && post.spec_window(ws.windows@[m]).workspace == ws.id by {
            assert(sb.has_window(ws.windows@[m]));
            assert(sb.spec_window(ws.windows@[m]).workspace == ws.id);
            assert(ws.windows@[m] != wid);
        }
        if ws.on_monitor.is_some() {
            assert(sb.has_monitor(ws.on_monitor.unwrap()));
        }
    }
    assert forall|i: int| 0 <= i < post.windows@.len() implies post.window_placed(
        #[trigger] post.windows@[i],
        None,
    ) by {
        let w = windows2[i];
        assert(windows1.contains(w) && w.id != wid);
        let i0 = choose|i0: int| 0 <= i0 < windows1.len() && windows1[i0] == w;
        assert(sb.window_placed(windows1[i0], Some(wid)));
    }
    assert forall|i: int| 0 <= i < post.monitors@.len() implies post.has_workspace(
        (#[trigger] post.monitors@[i]).workspace,
    ) by {
        assert(sb.has_workspace(sb.monitors@[i].workspace));
    }
    assert(post.ids_fresh()) by {
        assert forall|i: int| 0 <= i < windows2.len() implies (#[trigger] windows2[i]).id
            < post.window_id_generator.spec_next_id() by {
            let i0: int = if i < n0 {
                i
            } else {
                i + 1
            };
            assert(windows2[i] == windows1[i0]);
        }
    }
    if post.active_window.is_some() {
        assert(post.active_window.unwrap() != wid);
        assert(sb.has_window(post.active_window.unwrap()));
    }
}

/// Reassigning a workspace's active member to the removal replacement keeps
/// the manager well-formed: the replacement, when one exists, is a member
/// other than the window about to leave.
#[verifier::rlimit(100)]
pub(crate) proof fn lemma_reassign_active_wf(
    pre: WindowManager,
    sa: WindowManager,
    k: int,
    window: Id,
    next_active: Option<Id>,
)
    requires
        pre.wf(),
        0 <= k < pre.workspaces@.len(),
        pre.has_window(window),
        pre.spec_window(window).workspace == pre.workspaces@[k].id,
        pre.workspaces@[k].windows@.contains(window),
        next_active == pre.removal_replacement(pre.workspaces@[k], window),
        sa.workspaces@.len() == pre.workspaces@.len(),
        forall|j: int|
            0 <= j < pre.workspaces@.len() && j != k ==> sa.workspaces@[j] == pre.workspaces@[j],
        sa.workspaces@[k] == (Workspace { active_window: next_active, ..pre.workspaces@[k] }),
        sa.windows == pre.windows,
        sa.monitors == pre.monitors,
        sa.window_id_generator == pre.window_id_generator,
        sa.workspace_id_generator == pre.workspace_id_generator,
        sa.monitor_id_generator == pre.monitor_id_generator,
        sa.active_window == pre.active_window,
        sa.active_workspace == pre.active_workspace,
    ensures
        sa.wf(),
        sa.workspaces@[k].active_window != Some(window),
        sa.has_window(window),
        sa.spec_window(window).workspace == sa.workspaces@[k].id,
        forall|x: Id| sa.has_window(x) <==> pre.has_window(x),
        forall|x: Id| pre.has_window(x) ==> sa.spec_window(x) == pre.spec_window(x),
{
    let ws0 = pre.workspaces@[k];
    lemma_one_workspace_changed(pre, sa, k);
    lemma_filter_subset(ws0.windows@, pre.tiled_pred());
    lemma_filter_distinct(ws0.windows@, pre.tiled_pred());
    assert(pre.workspace_consistent(ws0));
    let t = pre.tiled_members(ws0);
    if next_active.is_some() {
        let x = next_active.unwrap();
        assert(ws0.windows@.contains(x) && x != window) by {
            if ws0.active_window == Some(window) {
                if pre.spec_window(window).spec_is_tiled() {
                    let m = choose|m: int|
                        0 <= m < ws0.windows@.len() && ws0.windows@[m] == window;
                    ws0.windows@.lemma_filter_contains(pre.tiled_pred(), m);
                    let ti = member_index(t, window);
                    assert(0 <= ti < t.len() && t[ti] == window) by {
                        assert(t.contains(window));
                    }
                    if ti > 0 {
                        assert(x == t[ti - 1]);
                        assert(ws0.windows@.contains(t[ti - 1]));
                    } else {
                        assert(x == t[1]);
                        assert(ws0.windows@.contains(t[1]));
                    }
                } else {
                    assert(x == t.last());
                    assert(ws0.windows@.contains(t[t.len() - 1]));
                    assert(x != window) by {
                        ws0.windows@.lemma_filter_pred(pre.tiled_pred(), t.len() - 1);
                    }
                }
            }
        }
    } else {
        assert(sa.workspaces@[k].active_window != Some(window));
    }
    assert(sa.workspace_consistent(sa.workspaces@[k])) by {
        let wsb = sa.workspaces@[k];
        assert(wsb.windows == ws0.windows && wsb.id == ws0.id && wsb.on_monitor == ws0.on_monitor);
        assert forall|m: int| 0 <= m < wsb.windows@.len() implies sa.has_window(
            #[trigger] wsb.windows@[m],
        ) && sa.spec_window(wsb.windows@[m]).workspace == wsb.id by {
            assert(pre.has_window(ws0.windows@[m]));
            assert(pre.spec_window(ws0.windows@[m]).workspace == ws0.id);
        }
    }
    assert forall|i: int| 0 <= i < sa.workspaces@.len() implies sa.workspace_consistent(
        #[trigger] sa.workspaces@[i],
    ) by {
        if i != k {
            let wsa = pre.workspaces@[i];
            assert(pre.workspace_consistent(wsa));
            assert(sa.workspaces@[i] == wsa);
            assert forall|m: int| 0 <= m < wsa.windows@.len() implies sa.has_window(
                #[trigger] wsa.windows@[m],
            ) && sa.spec_window(wsa.windows@[m]).workspace == wsa.id by {
                assert(pre.has_window(wsa.windows@[m]));
                assert(pre.spec_window(wsa.windows@[m]).workspace == wsa.id);
            }
        }
    }
    assert forall|i: int| 0 <= i < sa.windows@.len() implies sa.window_placed(
        #[trigger] sa.windows@[i],
        None,
    ) by {
        let w = pre.windows@[i];
        assert(pre.window_placed(w, None));
        if pre.workspace_index(w.workspace) == k {
            assert(pre.spec_workspace(w.workspace) == ws0);
            assert(sa.spec_workspace(w.workspace) == sa.workspaces@[k]);
        } else {
            assert(sa.spec_workspace(w.workspace) == pre.spec_workspace(w.workspace));
        }
    }
    assert forall|i: int| 0 <= i < sa.monitors@.len() implies sa.has_workspace(
        (#[trigger] sa.monitors@[i]).workspace,
    ) by {
        assert(pre.has_workspace(pre.monitors@[i].workspace));
    }
    assert(sa.monitor_bindings_unique()) by {
        assert forall|i: int, j: int|
            0 <= i < j < sa.workspaces@.len() && sa.workspaces@[i].on_monitor.is_some() implies
            sa.workspaces@[i].on_monitor != sa.workspaces@[j].on_monitor by {
            assert(sa.workspaces@[i].on_monitor == pre.workspaces@[i].on_monitor);
            assert(sa.workspaces@[j].on_monitor == pre.workspaces@[j].on_monitor);
            assert(pre.workspaces@[i].on_monitor != pre.workspaces@[j].on_monitor);
        }
    }
}

/// What the event glue must do after a lifecycle operation: focus the given
/// window with the compositor, clear the compositor focus, or defer to the
/// input inhibitor's exclusive-focus routine.
#[derive(Clone, Copy, PartialEq, Eq, Structural, Debug)]
pub enum FocusAction {
    SelectWindow(Id),
    ClearSelection,
    FocusExclusiveClient,
    Nothing,
}

/// The single window-manager context, threaded through every event handler.
#[derive(Debug)]
pub struct WindowManager {
    pub monitor_id_generator: IdGenerator,
    pub window_id_generator: IdGenerator,
    pub workspace_id_generator: IdGenerator,
    pub monitors: Vec<Monitor>,
    pub windows: Vec<Window>,
    pub workspaces: Vec<Workspace>,
    pub old_cursor: Point,
    pub gesture: Gesture,
    pub active_window: Option<Id>,
    pub active_workspace: Id,
}

impl WindowManager {
    /// The window table holds an entry for this id.
    pub open spec fn has_window(self, id: Id) -> bool {
        exists|i: int| 0 <= i < self.windows@.len() && self.windows@[i].id == id
    }

    /// The index of the window with this id; meaningful only where
    /// `has_window` holds (under distinct ids it is the one such index).
    pub open spec fn window_index(self, id: Id) -> int {
        choose|i: int| 0 <= i < self.windows@.len() && self.windows@[i].id == id
    }

    /// The window with this id; meaningful only where `has_window` holds.
    pub open spec fn spec_window(self, id: Id) -> Window {
        self.windows@[self.window_index(id)]
    }

    /// The workspace table holds an entry for this id.
    pub open spec fn has_workspace(self, id: Id) -> bool {
        exists|i: int| 0 <= i < self.workspaces@.len() && self.workspaces@[i].id == id
    }

    /// The index of the workspace with this id; meaningful only where
    /// `has_workspace` holds.
    pub open spec fn workspace_index(self, id: Id) -> int {
        choose|i: int| 0 <= i < self.workspaces@.len() && self.workspaces@[i].id == id
    }

    /// The workspace with this id; meaningful only where `has_workspace`
    /// holds.
    pub open spec fn spec_workspace(self, id: Id) -> Workspace {
        self.workspaces@[self.workspace_index(id)]
    }

    /// The monitor table holds an entry for this id.
    pub open spec fn has_monitor(self, id: Id) -> bool {
        exists|i: int| 0 <= i < self.monitors@.len() && self.monitors@[i].id == id
    }

    /// The index of the monitor with this id; meaningful only where
    /// `has_monitor` holds.
    pub open spec fn monitor_index(self, id: Id) -> int {
        choose|i: int| 0 <= i < self.monitors@.len() && self.monitors@[i].id == id
    }

    /// The monitor with this id; meaningful only where `has_monitor` holds.
    pub open spec fn spec_monitor(self, id: Id) -> Monitor {
        self.monitors@[self.monitor_index(id)]
    }

    /// No two windows share an id.
    pub open spec fn windows_distinct(self) -> bool {
        forall|i: int, j: int|
            0 <= i < j < self.windows@.len() ==> self.windows@[i].id != self.windows@[j].id
    }

    /// No two workspaces share an id.
    pub open spec fn workspaces_distinct(self) -> bool {
        forall|i: int, j: int|
            0 <= i < j < self.workspaces@.len() ==> self.workspaces@[i].id
                != self.workspaces@[j].id
    }

    /// No two monitors share an id.
    pub open spec fn monitors_distinct(self) -> bool {
        forall|i: int, j: int|
            0 <= i < j < self.monitors@.len() ==> self.monitors@[i].id != self.monitors@[j].id
    }

    /// The tiling classification, as a predicate over member ids.
    pub open spec fn tiled_pred(self) -> spec_fn(Id) -> bool {
        |m: Id| self.spec_window(m).spec_is_tiled()
    }

    /// The ordered subsequence of a workspace's members that currently
    /// participate in tiling.
    pub open spec fn tiled_members(self, ws: Workspace) -> Seq<Id> {
        ws.windows@.filter(self.tiled_pred())
    }

    /// A workspace is consistent with the tables: its own invariant holds,
    /// every member resolves to a window whose back-reference names this
    /// workspace, and its bound monitor, if any, exists.
    pub open spec fn workspace_consistent(self, ws: Workspace) -> bool {
        &&& ws.wf()
        &&& forall|k: int|
            0 <= k < ws.windows@.len() ==> self.has_window(#[trigger] ws.windows@[k])
                && self.spec_window(ws.windows@[k]).workspace == ws.id
        &&& ws.on_monitor.is_some() ==> self.has_monitor(ws.on_monitor.unwrap())
    }

    /// A window's back-reference resolves: its workspace exists and lists the
    /// window's id among its members.  Windows named by `exempt` are excused
    /// (mid-removal, between leaving the workspace and leaving the table).
    pub open spec fn window_placed(self, w: Window, exempt: Option<Id>) -> bool {
        Some(w.id) != exempt ==> self.has_workspace(w.workspace)
            && self.spec_workspace(w.workspace).windows@.contains(w.id)
    }

    /// At most one workspace holds a given bound monitor id at a time.
    pub open spec fn monitor_bindings_unique(self) -> bool {
        forall|i: int, j: int|
            0 <= i < j < self.workspaces@.len() && self.workspaces@[i].on_monitor.is_some()
                ==> self.workspaces@[i].on_monitor != self.workspaces@[j].on_monitor
    }

    /// Every id in the tables was assigned by the matching generator, so
    /// freshly generated ids never collide with existing ones.
    pub open spec fn ids_fresh(self) -> bool {
        &&& self.window_id_generator.wf()
        &&& self.workspace_id_generator.wf()
        &&& self.monitor_id_generator.wf()
        &&& forall|i: int|
            0 <= i < self.windows@.len() ==> (#[trigger] self.windows@[i]).id
                < self.window_id_generator.spec_next_id()
        &&& forall|i: int|
            0 <= i < self.workspaces@.len() ==> (#[trigger] self.workspaces@[i]).id
                < self.workspace_id_generator.spec_next_id()
        &&& forall|i: int|
            0 <= i < self.monitors@.len() ==> (#[trigger] self.monitors@[i]).id
                < self.monitor_id_generator.spec_next_id()
    }

    /// Well-formedness with one window possibly mid-removal: every table id
    /// is unique, every workspace is consistent, every window but the exempt
    /// one is placed where its back-reference says, every monitor's
    /// workspace and the active workspace exist, and the active window, if
    /// any, is in the table.
    pub open spec fn wf_except(self, exempt: Option<Id>) -> bool {
        &&& self.windows_distinct()
        &&& self.workspaces_distinct()
        &&& self.monitors_distinct()
        &&& forall|i: int|
            0 <= i < self.workspaces@.len() ==> self.workspace_consistent(
                #[trigger] self.workspaces@[i],
            )
        &&& forall|i: int|
            0 <= i < self.windows@.len() ==> self.window_placed(
                #[trigger] self.windows@[i],
                exempt,
            )
        &&& forall|i: int|
            0 <= i < self.monitors@.len() ==> self.has_workspace(
                (#[trigger] self.monitors@[i]).workspace,
            )
        &&& self.monitor_bindings_unique()
        &&& self.has_workspace(self.active_workspace)
        &&& self.active_window.is_some() ==> self.has_window(self.active_window.unwrap())
        &&& self.ids_fresh()
    }

    /// The invariant every operation restores before returning.
    pub open spec fn wf(self) -> bool {
        self.wf_except(None)
    }

    fn window_pos(&self, window_id: Id) -> (r: usize)
        requires
            self.has_window(window_id),
        ensures
            r < self.windows@.len(),
            self.windows@[r as int].id == window_id,
            self.windows_distinct() ==> r == self.window_index(window_id),
    {
        let mut i: usize = 0;
        while i < self.windows.len()
            invariant
                self.has_window(window_id),
                i <= self.windows@.len(),
                forall|j: int| 0 <= j < i ==> self.windows@[j].id != window_id,
            decreases self.windows@.len() - i,
        {
            if self.windows[i].id == window_id {
                proof {
                    if self.windows_distinct() {
                        let ci = self.window_index(window_id);
                        assert(0 <= ci < self.windows@.len() && self.windows@[ci].id == window_id);
                        assert(ci == i as int);
                    }
                }
                return i;
            }
            i += 1;
        }
        proof {
            assert(false);
        }
        0
    }

    fn workspace_pos(&self, workspace_id: Id) -> (r: usize)
        requires
            self.has_workspace(workspace_id),
        ensures
            r < self.workspaces@.len(),
            self.workspaces@[r as int].id == workspace_id,
            self.workspaces_distinct() ==> r == self.workspace_index(workspace_id),
    {
        let mut i: usize = 0;
        while i < self.workspaces.len()
            invariant
                self.has_workspace(workspace_id),
                i <= self.workspaces@.len(),
                forall|j: int| 0 <= j < i ==> self.workspaces@[j].id != workspace_id,
            decreases self.workspaces@.len() - i,
        {
            if self.workspaces[i].id == workspace_id {
                proof {
                    if self.workspaces_distinct() {
                        let ci = self.workspace_index(workspace_id);
                        assert(0 <= ci < self.workspaces@.len() && self.workspaces@[ci].id
                            == workspace_id);
                        assert(ci == i as int);
                    }
                }
                return i;
            }
            i += 1;
        }
        proof {
            assert(false);
        }
        0
    }

    /// Resolves a window id.  An id stored as a back-reference that no
    /// longer resolves is a broken invariant, not ordinary absence, so the
    /// id must be present.
    pub fn get_window(&self, window_id: Id) -> (r: &Window)
        requires
            self.has_window(window_id),
            self.windows_distinct(),
        ensures
            *r == self.spec_window(window_id),
            r.id == window_id,
    {
        let i = self.window_pos(window_id);
        &self.windows[i]
    }

    /// Resolves a workspace id; the id must be present (see `get_window`).
    pub fn get_workspace(&self, workspace_id: Id) -> (r: &Workspace)
        requires
            self.has_workspace(workspace_id),
            self.workspaces_distinct(),
        ensures
            *r == self.spec_workspace(workspace_id),
            r.id == workspace_id,
    {
        let i = self.workspace_pos(workspace_id);
        &self.workspaces[i]
    }

    fn find_monitor(&self, monitor_id: Id) -> (r: Option<&Monitor>)
        requires
            self.monitors_distinct(),
        ensures
            match r {
                Some(m) => self.has_monitor(monitor_id) && *m == self.spec_monitor(monitor_id)
                    && m.id == monitor_id,
                None => !self.has_monitor(monitor_id),
            },
    {
        let mut i: usize = 0;
        while i < self.monitors.len()
            invariant
                self.monitors_distinct(),
                i <= self.monitors@.len(),
                forall|j: int| 0 <= j < i ==> self.monitors@[j].id != monitor_id,
            decreases self.monitors@.len() - i,
        {
            if self.monitors[i].id == monitor_id {
                proof {
                    let ci = self.monitor_index(monitor_id);
                    assert(0 <= ci < self.monitors@.len() && self.monitors@[ci].id == monitor_id);
                    assert(ci == i as int);
                }
                return Some(&self.monitors[i]);
            }
            i += 1;
        }
        None
    }

    /// The monitor a workspace is bound to, if any.
    pub fn monitor_by_workspace(&self, workspace_id: Id) -> (r: Option<&Monitor>)
        requires
            self.has_workspace(workspace_id),
            self.workspaces_distinct(),
            self.monitors_distinct(),
        ensures
            match self.spec_workspace(workspace_id).on_monitor {
                Some(monitor_id) => match r {
                    Some(m) => self.has_monitor(monitor_id) && *m == self.spec_monitor(monitor_id),
                    None => !self.has_monitor(monitor_id),
                },
                None => r.is_none(),
            },
    {
        let ws = self.get_workspace(workspace_id);
        match ws.on_monitor {
            Some(monitor_id) => self.find_monitor(monitor_id),
            None => None,
        }
    }

    /// The monitor a window is shown on, if its workspace is bound to one.
    pub fn monitor_by_window(&self, window_id: Id) -> (r: Option<&Monitor>)
        requires
            self.has_window(window_id),
            self.has_workspace(self.spec_window(window_id).workspace),
            self.windows_distinct(),
            self.workspaces_distinct(),
            self.monitors_distinct(),
        ensures
            match self.spec_workspace(self.spec_window(window_id).workspace).on_monitor {
                Some(monitor_id) => match r {
                    Some(m) => self.has_monitor(monitor_id) && *m == self.spec_monitor(monitor_id),
                    None => !self.has_monitor(monitor_id),
                },
                None => r.is_none(),
            },
    {
        let workspace_id = self.get_window(window_id).workspace;
        self.monitor_by_workspace(workspace_id)
    }

    /// The window whose compositor handle is the given one, if any: the
    /// compositor names windows by handle when it delivers an event.
    pub fn window_by_info(&self, handle: u64) -> (r: Option<&Window>)
        ensures
            match r {
                Some(w) => exists|i: int|
                    {
                        &&& 0 <= i < self.windows@.len()
                        &&& #[trigger] self.windows@[i] == *w
                        &&& w.window_info.handle == handle
                        &&& forall|j: int|
                            0 <= j < i ==> (#[trigger] self.windows@[j]).window_info.handle
                                != handle
                    },
                None => forall|i: int|
                    0 <= i < self.windows@.len() ==> (#[trigger] self.windows@[i]).window_info.handle
                        != handle,
            },
    {
        let mut i: usize = 0;
        while i < self.windows.len()
            invariant
                i <= self.windows@.len(),
                forall|j: int|
                    0 <= j < i ==> (#[trigger] self.windows@[j]).window_info.handle != handle,
            decreases self.windows@.len() - i,
        {
            if self.windows[i].window_info.handle == handle {
                return Some(&self.windows[i]);
            }
            i += 1;
        }
        None
    }

    /// The globally active window, if one is set and resolves.
    pub fn active_window(&self) -> (r: Option<&Window>)
        requires
            self.windows_distinct(),
        ensures
            match self.active_window {
                Some(id) => if self.has_window(id) {
                    r.is_some() && *r.unwrap() == self.spec_window(id)
                } else {
                    r.is_none()
                },
                None => r.is_none(),
            },
    {
        match self.active_window {
            Some(id) => {
                let mut i: usize = 0;
                while i < self.windows.len()
                    invariant
                        self.active_window == Some(id),
                        self.windows_distinct(),
                        i <= self.windows@.len(),
                        forall|j: int| 0 <= j < i ==> self.windows@[j].id != id,
                    decreases self.windows@.len() - i,
                {
                    if self.windows[i].id == id {
                        proof {
                            assert(self.has_window(id));
                            let ci = self.window_index(id);
                            assert(0 <= ci < self.windows@.len() && self.windows@[ci].id == id);
                            assert(ci == i as int);
                        }
                        return Some(&self.windows[i]);
                    }
                    i += 1;
                }
                None
            },
            None => None,
        }
    }

    /// Sets the manager's globally active window.  With a concrete id the
    /// caller must then focus that window with the compositor if the input
    /// inhibitor permits it (`focus_allowed`), and defer to the exclusive
    /// client otherwise; with no id the compositor focus is cleared.
    pub fn focus_window(&mut self, window_id: Option<Id>, focus_allowed: bool) -> (action:
        FocusAction)
        requires
            old(self).wf(),
            window_id.is_some() ==> old(self).has_window(window_id.unwrap()),
        ensures
            final(self).wf(),
            *final(self) == (WindowManager { active_window: window_id, ..*old(self) }),
            action == match window_id {
                Some(id) => if focus_allowed {
                    FocusAction::SelectWindow(id)
                } else {
                    FocusAction::FocusExclusiveClient
                },
                None => FocusAction::ClearSelection,
            },
    {
        self.active_window = window_id;
        proof {
            lemma_tables_unchanged_wf(*old(self), *self, None);
        }
        match window_id {
            Some(id) => {
                if focus_allowed {
                    FocusAction::SelectWindow(id)
                } else {
                    FocusAction::FocusExclusiveClient
                }
            },
            None => FocusAction::ClearSelection,
        }
    }

    /// Sets the given window as both its workspace's active member and the
    /// manager's active window and workspace.  The id must already be a
    /// registered member.
    #[verifier::rlimit(100)]
    pub fn activate_window(&mut self, window_id: Id)
        requires
            old(self).wf(),
            old(self).has_window(window_id),
        ensures
            final(self).wf(),
            ({
                let wsid = old(self).spec_window(window_id).workspace;
                let k = old(self).workspace_index(wsid);
                &&& final(self).workspaces@ == old(self).workspaces@.update(
                    k,
                    Workspace {
                        active_window: Some(window_id),
                        ..old(self).workspaces@[k]
                    },
                )
                &&& final(self).active_window == Some(window_id)
                &&& final(self).active_workspace == wsid
            }),
            final(self).windows == old(self).windows,
            final(self).monitors == old(self).monitors,
            final(self).window_id_generator == old(self).window_id_generator,
            final(self).workspace_id_generator == old(self).workspace_id_generator,
            final(self).monitor_id_generator == old(self).monitor_id_generator,
            final(self).gesture == old(self).gesture,
            final(self).old_cursor == old(self).old_cursor,
    {
        proof {
            let wi = old(self).window_index(window_id);
            assert(old(self).window_placed(old(self).windows@[wi], None));
        }
        let wsid = self.get_window(window_id).workspace;
        let k = self.workspace_pos(wsid);
        let ws = &mut self.workspaces[k];
        ws.active_window = Some(window_id);
        self.active_window = Some(window_id);
        self.active_workspace = wsid;
        proof {
            let pre = *old(self);
            let post = *self;
            assert(post.workspaces@[k as int] == (Workspace {
                active_window: Some(window_id),
                ..pre.workspaces@[k as int]
            }));
            lemma_one_workspace_changed(pre, post, k as int);
            assert(pre.workspaces@[k as int].windows@.contains(window_id)) by {
                assert(pre.spec_workspace(wsid) == pre.workspaces@[k as int]);
            }
            assert forall|i: int| 0 <= i < post.workspaces@.len() implies post.workspace_consistent(
                #[trigger] post.workspaces@[i],
            ) by {
                let wsa = pre.workspaces@[i];
                let wsb = post.workspaces@[i];
                assert(pre.workspace_consistent(wsa));
                assert(wsb.windows == wsa.windows && wsb.id == wsa.id && wsb.on_monitor
                    == wsa.on_monitor);
                assert forall|m: int| 0 <= m < wsb.windows@.len() implies post.has_window(
                    #[trigger] wsb.windows@[m],
                ) && post.spec_window(wsb.windows@[m]).workspace == wsb.id by {
                    assert(pre.has_window(wsa.windows@[m]));
                    assert(pre.spec_window(wsa.windows@[m]).workspace == wsa.id);
                }
                if i == k as int {
                    assert(wsb.active_window == Some(window_id));
                    assert(wsb.windows@.contains(window_id));
                } else {
                    assert(wsb == wsa);
                }
            }
            assert forall|i: int| 0 <= i < post.windows@.len() implies post.window_placed(
                #[trigger] post.windows@[i],
                None,
            ) by {
                let w = pre.windows@[i];
                assert(pre.window_placed(w, None));
                assert(post.spec_workspace(w.workspace).windows@ == pre.spec_workspace(
                    w.workspace,
                ).windows@) by {
                    if pre.workspace_index(w.workspace) == k as int {
                        assert(pre.spec_workspace(w.workspace) == pre.workspaces@[k as int]);
                        assert(post.spec_workspace(w.workspace) == post.workspaces@[k as int]);
                    }
                }
            }
        }
    }

    /// The workspaces currently bound to no monitor, in table order.
    pub open spec fn unused_workspaces(self) -> Seq<Workspace> {
        self.workspaces@.filter(unused_pred())
    }

    /// Guarantees a spare (monitor-less) workspace is always available and
    /// returns one: with no spare, two fresh workspaces are created (the
    /// first is returned, the second becomes the reserve); with exactly one,
    /// a fresh reserve is created first; with two or more, the first found
    /// is returned as is.  Callers therefore never observe a moment with no
    /// spare workspace left.
    #[verifier::rlimit(100)]
    pub fn get_or_create_unused_workspace(&mut self) -> (r: Id)
        requires
            old(self).wf(),
            old(self).workspace_id_generator.spec_next_id() + 2 <= Id::MAX,
        ensures
            final(self).wf(),
            final(self).has_workspace(r),
            final(self).spec_workspace(r).on_monitor.is_none(),
            exists|j: int|
                0 <= j < final(self).workspaces@.len()
                    && (#[trigger] final(self).workspaces@[j]).on_monitor.is_none()
                    && final(self).workspaces@[j].id != r,
            ({
                let u = old(self).unused_workspaces();
                let c = old(self).workspace_id_generator.spec_next_id();
                let n = old(self).workspaces@.len() as int;
                &&& (u.len() == 0 ==> {
                    &&& r == c
                    &&& final(self).workspaces@.len() == n + 2
                    &&& final(self).workspaces@.subrange(0, n) == old(self).workspaces@
                    &&& crate::workspace::is_fresh_workspace(final(self).workspaces@[n], c)
                    &&& crate::workspace::is_fresh_workspace(
                        final(self).workspaces@[n + 1],
                        (c + 1) as Id,
                    )
                    &&& final(self).workspace_id_generator.spec_next_id() == c + 2
                })
                &&& (u.len() == 1 ==> {
                    &&& r == u[0].id
                    &&& final(self).workspaces@.len() == n + 1
                    &&& final(self).workspaces@.subrange(0, n) == old(self).workspaces@
                    &&& crate::workspace::is_fresh_workspace(final(self).workspaces@[n], c)
                    &&& final(self).workspace_id_generator.spec_next_id() == c + 1
                })
                &&& (u.len() >= 2 ==> {
                    &&& r == u[0].id
                    &&& final(self).workspaces == old(self).workspaces
                    &&& final(self).workspace_id_generator == old(self).workspace_id_generator
                })
            }),
            final(self).windows == old(self).windows,
            final(self).monitors == old(self).monitors,
            final(self).window_id_generator == old(self).window_id_generator,
            final(self).monitor_id_generator == old(self).monitor_id_generator,
            final(self).active_window == old(self).active_window,
            final(self).active_workspace == old(self).active_workspace,
            final(self).gesture == old(self).gesture,
            final(self).old_cursor == old(self).old_cursor,
    {
        let ghost up = unused_pred();
        let mut first: usize = 0;
        let mut second: usize = 0;
        let mut found = false;
        let mut found2 = false;
        let mut count: usize = 0;
        let mut i: usize = 0;
        while i < self.workspaces.len()
            invariant
                i <= self.workspaces@.len(),
                count <= i,
                up == unused_pred(),
                count == self.workspaces@.subrange(0, i as int).filter(up).len(),
                found <==> count >= 1,
                found2 <==> count >= 2,
                found ==> first < i && self.workspaces@[first as int].on_monitor.is_none()
                    && self.workspaces@.subrange(0, i as int).filter(up)[0]
                    == self.workspaces@[first as int],
                found2 ==> first < second < i
                    && self.workspaces@[second as int].on_monitor.is_none(),
            decreases self.workspaces@.len() - i,
        {
            let ghost pre_seq = self.workspaces@.subrange(0, i as int);
            let ghost post_seq = self.workspaces@.subrange(0, i as int + 1);
            let ghost w = self.workspaces@[i as int];
            proof {
                assert(post_seq =~= pre_seq + seq![w]);
                Seq::<Workspace>::filter_distributes_over_add(pre_seq, seq![w], up);
                reveal_with_fuel(Seq::filter, 2);
                assert(seq![w].drop_last() =~= Seq::<Workspace>::empty());
                if up(w) {
                    assert(seq![w].filter(up) =~= seq![w]);
                } else {
                    assert(seq![w].filter(up) =~= Seq::<Workspace>::empty());
                }
            }
            if self.workspaces[i].on_monitor.is_none() {
                if !found {
                    first = i;
                    found = true;
                } else if !found2 {
                    second = i;
                    found2 = true;
                }
                count += 1;
            }
            i += 1;
        }
        proof {
            assert(self.workspaces@.subrange(0, self.workspaces@.len() as int)
                =~= self.workspaces@);
            assert(count == old(self).unused_workspaces().len());
        }
        if count == 0 {
            let first_workspace = Workspace::new(&mut self.workspace_id_generator);
            let first_workspace_id = first_workspace.id;
            let ghost mid_ws = first_workspace;
            self.workspaces.push(first_workspace);
            let ghost mid = *self;
            proof {
                lemma_push_fresh_workspace_wf(*old(self), mid, mid_ws);
            }
            let second_workspace = Workspace::new(&mut self.workspace_id_generator);
            let ghost snd_ws = second_workspace;
            self.workspaces.push(second_workspace);
            proof {
                lemma_push_fresh_workspace_wf(mid, *self, snd_ws);
                let n = old(self).workspaces@.len() as int;
                assert(self.workspaces@.subrange(0, n) =~= old(self).workspaces@);
                assert(self.workspaces@[n + 1].on_monitor.is_none());
                assert(self.workspaces@[n + 1].id != first_workspace_id);
                assert(self.spec_workspace(first_workspace_id).on_monitor.is_none()) by {
                    assert(self.spec_workspace(mid_ws.id) == mid_ws);
                }
            }
            first_workspace_id
        } else if count == 1 {
            let additional_workspace = Workspace::new(&mut self.workspace_id_generator);
            let ghost add_ws = additional_workspace;
            self.workspaces.push(additional_workspace);
            let result = self.workspaces[first].id;
            proof {
                lemma_push_fresh_workspace_wf(*old(self), *self, add_ws);
                let n = old(self).workspaces@.len() as int;
                assert(self.workspaces@.subrange(0, n) =~= old(self).workspaces@);
                assert(result == old(self).unused_workspaces()[0].id);
                assert(old(self).has_workspace(result)) by {
                    assert(old(self).workspaces@[first as int].id == result);
                }
                assert(old(self).spec_workspace(result) == old(self).workspaces@[first as int])
                    by {
                    let ci = old(self).workspace_index(result);
                    assert(0 <= ci < old(self).workspaces@.len() && old(self).workspaces@[ci].id
                        == result);
                }
                assert(self.spec_workspace(result).on_monitor.is_none());
                assert(self.workspaces@[n].on_monitor.is_none());
                assert(self.workspaces@[n].id != result) by {
                    assert(old(self).workspaces@[first as int].id
                        < old(self).workspace_id_generator.spec_next_id());
                }
            }
            result
        } else {
            let result = self.workspaces[first].id;
            proof {
                lemma_tables_unchanged_wf(*old(self), *self, None);
                assert(result == old(self).unused_workspaces()[0].id);
                assert(self.has_workspace(result)) by {
                    assert(self.workspaces@[first as int].id == result);
                }
                assert(self.spec_workspace(result) == self.workspaces@[first as int]) by {
                    let ci = self.workspace_index(result);
                    assert(0 <= ci < self.workspaces@.len() && self.workspaces@[ci].id == result);
                }
                assert(self.workspaces@[second as int].id != result);
            }
            result
        }
    }

    /// Inserts a freshly created window into its target workspace's member
    /// sequence, immediately after the workspace's current active member (or
    /// at the end if none is active), and registers it in the window table.
    #[verifier::rlimit(100)]
    fn register_window(&mut self, window: Window)
        requires
            old(self).wf(),
            old(self).has_workspace(window.workspace),
            !old(self).has_window(window.id),
            window.id < old(self).window_id_generator.spec_next_id(),
        ensures
            final(self).wf(),
            final(self).windows@ == old(self).windows@.push(window),
            final(self).has_window(window.id),
            final(self).spec_window(window.id) == window,
            ({
                let k = old(self).workspace_index(window.workspace);
                let ws = old(self).workspaces@[k];
                let members2 = if ws.active_window.is_some() {
                    ws.windows@.insert(
                        member_index(ws.windows@, ws.active_window.unwrap()) + 1,
                        window.id,
                    )
                } else {
                    ws.windows@.push(window.id)
                };
                &&& final(self).workspaces@.len() == old(self).workspaces@.len()
                &&& forall|j: int|
                    0 <= j < old(self).workspaces@.len() && j != k ==> final(self).workspaces@[j]
                        == old(self).workspaces@[j]
                &&& crate::workspace::workspace_updated(
                    ws,
                    final(self).workspaces@[k],
                    members2,
                    ws.active_window,
                )
                &&& final(self).workspace_index(window.workspace) == k
            }),
            final(self).monitors == old(self).monitors,
            final(self).window_id_generator == old(self).window_id_generator,
            final(self).workspace_id_generator == old(self).workspace_id_generator,
            final(self).monitor_id_generator == old(self).monitor_id_generator,
            final(self).active_window == old(self).active_window,
            final(self).active_workspace == old(self).active_workspace,
            final(self).gesture == old(self).gesture,
            final(self).old_cursor == old(self).old_cursor,
    {
        let ghost pre = *old(self);
        let window_id = window.id;
        let k = self.workspace_pos(window.workspace);
        let ghost ws0 = pre.workspaces@[k as int];
        self.windows.push(window);
        let ghost sa = *self;
        proof {
            lemma_push_window_wfx(pre, sa, window);
            assert(pre.workspace_consistent(ws0));
        }
        let active_opt = self.workspaces[k].active_window;
        let ghost mut p: int = 0;
        match active_opt {
            Some(a) => {
                let idx = match self.workspaces[k].get_window_index(a) {
                    Some(i) => i,
                    None => {
                        proof {
                            assert(ws0.windows@.contains(a));
                            assert(false);
                        }
                        0
                    },
                };
                proof {
                    p = idx as int + 1;
                    assert(idx as int == member_index(ws0.windows@, a)) by {
                        let ci = member_index(ws0.windows@, a);
                        assert(ws0.windows@.contains(a));
                        assert(0 <= ci < ws0.windows@.len() && ws0.windows@[ci] == a);
                    }
                }
                let members_len = self.workspaces[k].windows.len();
                proof {
                    assert(idx < members_len);
                }
                let ws = &mut self.workspaces[k];
                ws.windows.insert(idx + 1, window_id);
            },
            None => {
                proof {
                    p = ws0.windows@.len() as int;
                    assert(ws0.windows@.push(window_id) =~= ws0.windows@.insert(
                        ws0.windows@.len() as int,
                        window_id,
                    ));
                }
                let ws = &mut self.workspaces[k];
                ws.windows.push(window_id);
            },
        }
        proof {
            let sb = *self;
            assert(sb.workspaces@[k as int].windows@ == ws0.windows@.insert(p, window_id));
            assert forall|m: int| 0 <= m < ws0.windows@.len() implies ws0.windows@[m]
                != window_id by {
                assert(pre.has_window(ws0.windows@[m]));
            }
            lemma_insert_member_wf(sa, sb, k as int, window_id, p);
            assert(pre.workspace_index(window.workspace) == k as int);
            assert(sb.workspace_index(window.workspace) == k as int) by {
                assert(sb.spec_workspace(sa.workspaces@[k as int].id) == sb.workspaces@[k as int]);
            }
        }
    }

    /// Registers a freshly created window (see `register_window`).  Unless
    /// the window has a parent (transient windows take no independent
    /// focus), it is activated immediately when the input inhibitor allows
    /// it (`focus_allowed`); otherwise the caller must defer to the
    /// exclusive client, as the returned action says.
    #[verifier::rlimit(100)]
    pub fn add_window(&mut self, window: Window, focus_allowed: bool) -> (action: FocusAction)
        requires
            old(self).wf(),
            old(self).has_workspace(window.workspace),
            !old(self).has_window(window.id),
            window.id < old(self).window_id_generator.spec_next_id(),
        ensures
            final(self).wf(),
            final(self).windows@ == old(self).windows@.push(window),
            ({
                let k = old(self).workspace_index(window.workspace);
                let ws = old(self).workspaces@[k];
                let members2 = if ws.active_window.is_some() {
                    ws.windows@.insert(
                        member_index(ws.windows@, ws.active_window.unwrap()) + 1,
                        window.id,
                    )
                } else {
                    ws.windows@.push(window.id)
                };
                let activated = !window.window_info.has_parent && focus_allowed;
                &&& final(self).workspaces@.len() == old(self).workspaces@.len()
                &&& forall|j: int|
                    0 <= j < old(self).workspaces@.len() && j != k ==> final(self).workspaces@[j]
                        == old(self).workspaces@[j]
                &&& crate::workspace::workspace_updated(
                    ws,
                    final(self).workspaces@[k],
                    members2,
                    if activated {
                        Some(window.id)
                    } else {
                        ws.active_window
                    },
                )
                &&& final(self).active_window == if activated {
                    Some(window.id)
                } else {
                    old(self).active_window
                }
                &&& final(self).active_workspace == if activated {
                    ws.id
                } else {
                    old(self).active_workspace
                }
                &&& action == if window.window_info.has_parent || focus_allowed {
                    FocusAction::Nothing
                } else {
                    FocusAction::FocusExclusiveClient
                }
            }),
            final(self).monitors == old(self).monitors,
            final(self).window_id_generator == old(self).window_id_generator,
            final(self).workspace_id_generator == old(self).workspace_id_generator,
            final(self).monitor_id_generator == old(self).monitor_id_generator,
            final(self).gesture == old(self).gesture,
            final(self).old_cursor == old(self).old_cursor,
    {
        let ghost pre = *old(self);
        let ghost k = pre.workspace_index(window.workspace);
        let window_id = window.id;
        let has_parent = window.window_info.has_parent;
        self.register_window(window);
        let ghost sb = *self;
        if !has_parent && focus_allowed {
            self.activate_window(window_id);
            proof {
                let sc = *self;
                assert(sb.spec_window(window_id) == window);
                assert(sb.workspace_index(window.workspace) == k);
                assert(sc.workspaces@ == sb.workspaces@.update(
                    k,
                    Workspace { active_window: Some(window_id), ..sb.workspaces@[k] },
                ));
                assert(pre.workspaces@[k].id == window.workspace) by {
                    assert(pre.has_workspace(window.workspace));
                }
            }
            FocusAction::Nothing
        } else {
            if has_parent {
                FocusAction::Nothing
            } else {
                FocusAction::FocusExclusiveClient
            }
        }
    }

    /// The active member a workspace falls back to when `w` is removed,
    /// chosen before the removal so the workspace is never briefly
    /// active-window-less unless no candidate exists.  If `w` is not the
    /// active member nothing changes.  If the outgoing active member is
    /// tiled, its tiled predecessor is preferred, then its tiled successor.
    /// If it is floating, the last tiled member is chosen.
    pub open spec fn removal_replacement(self, ws: Workspace, w: Id) -> Option<Id> {
        if ws.active_window != Some(w) {
            ws.active_window
        } else if self.spec_window(w).spec_is_tiled() {
            let t = self.tiled_members(ws);
            let ti = member_index(t, w);
            if ti > 0 {
                Some(t[ti - 1])
            } else if t.len() >= 2 {
                Some(t[1])
            } else {
                None
            }
        } else {
            let t = self.tiled_members(ws);
            if t.len() > 0 {
                Some(t.last())
            } else {
                None
            }
        }
    }

    /// Executable counterpart of `removal_replacement` for the workspace at
    /// table position `k`.
    #[verifier::rlimit(100)]
    fn compute_removal_replacement(&self, k: usize, window: Id) -> (r: Option<Id>)
        requires
            self.wf(),
            k < self.workspaces@.len(),
            self.has_window(window),
        ensures
            r == self.removal_replacement(self.workspaces@[k as int], window),
    {
        let ghost ws0 = self.workspaces@[k as int];
        proof {
            assert(self.workspace_consistent(ws0));
        }
        let ws_active = self.workspaces[k].active_window;
        let active_is_window = match ws_active {
            Some(a) => a == window,
            None => false,
        };
        if !active_is_window {
            return ws_active;
        }
        let ghost t = self.tiled_members(ws0);
        proof {
            lemma_filter_subset(ws0.windows@, self.tiled_pred());
            lemma_filter_distinct(ws0.windows@, self.tiled_pred());
        }
        if self.get_window(window).is_tiled() {
            let tidx = match self.workspaces[k].get_tiled_window_index(self, window) {
                Some(i) => i,
                None => {
                    proof {
                        assert(ws0.windows@.contains(window));
                        let m = choose|m: int|
                            0 <= m < ws0.windows@.len() && ws0.windows@[m] == window;
                        ws0.windows@.lemma_filter_contains(self.tiled_pred(), m);
                        assert(false);
                    }
                    0
                },
            };
            proof {
                assert(tidx as int == member_index(t, window)) by {
                    assert(t.contains(window)) by {
                        assert(t[tidx as int] == window);
                    }
                    let ci = member_index(t, window);
                    assert(0 <= ci < t.len() && t[ci] == window);
                }
            }
            let tiled = self.workspaces[k].get_tiled_windows(self);
            let target = if tidx > 0 {
                tidx - 1
            } else {
                tidx + 1
            };
            if target < tiled.len() {
                Some(tiled[target])
            } else {
                None
            }
        } else {
            let tiled = self.workspaces[k].get_tiled_windows(self);
            if tiled.len() > 0 {
                Some(tiled[tiled.len() - 1])
            } else {
                None
            }
        }
    }

    /// Chooses a replacement active member where needed (see
    /// `removal_replacement`), then removes the window from its workspace's
    /// ordered member sequence.  The window stays in the window table: a
    /// caller that moves a window between workspaces re-places it at once,
    /// and `delete_window` drops it from the table.  An id that is not a
    /// registered window would be reported as an error, never ignored; for a
    /// registered window the removal always succeeds.
    #[verifier::rlimit(100)]
    pub fn remove_window_from_workspace(&mut self, window: Id) -> (r: Result<(), ()>)
        requires
            old(self).wf(),
            old(self).has_window(window),
        ensures
            final(self).wf_except(Some(window)),
            r == Ok::<(), ()>(()),
            ({
                let wsid = old(self).spec_window(window).workspace;
                let k = old(self).workspace_index(wsid);
                let ws = old(self).workspaces@[k];
                &&& final(self).workspaces@.len() == old(self).workspaces@.len()
                &&& forall|j: int|
                    0 <= j < old(self).workspaces@.len() && j != k ==> final(self).workspaces@[j]
                        == old(self).workspaces@[j]
                &&& crate::workspace::workspace_updated(
                    ws,
                    final(self).workspaces@[k],
                    ws.windows@.remove(member_index(ws.windows@, window)),
                    old(self).removal_replacement(ws, window),
                )
            }),
            forall|j: int, m: int|
                0 <= j < final(self).workspaces@.len()
                    && 0 <= m < final(self).workspaces@[j].windows@.len()
                    ==> final(self).workspaces@[j].windows@[m] != window,
            final(self).windows == old(self).windows,
            final(self).monitors == old(self).monitors,
            final(self).window_id_generator == old(self).window_id_generator,
            final(self).workspace_id_generator == old(self).workspace_id_generator,
            final(self).monitor_id_generator == old(self).monitor_id_generator,
            final(self).active_window == old(self).active_window,
            final(self).active_workspace == old(self).active_workspace,
            final(self).gesture == old(self).gesture,
            final(self).old_cursor == old(self).old_cursor,
    {
        let ghost pre = *old(self);
        let wsid = self.get_window(window).workspace;
        let k = self.workspace_pos(wsid);
        let ghost ws0 = pre.workspaces@[k as int];
        proof {
            assert(pre.window_placed(pre.windows@[pre.window_index(window)], None));
            assert(pre.spec_workspace(wsid) == ws0);
            assert(ws0.windows@.contains(window));
            assert(pre.workspace_consistent(ws0));
        }
        let next_active = self.compute_removal_replacement(k, window);
        {
            let ws = &mut self.workspaces[k];
            ws.active_window = next_active;
        }
        let ghost sa = *self;
        proof {
            lemma_reassign_active_wf(pre, sa, k as int, window, next_active);
        }
        let idx = match self.workspaces[k].get_window_index(window) {
            Some(i) => i,
            None => {
                proof {
                    assert(false);
                }
                return Err(());
            },
        };
        proof {
            assert(idx as int == member_index(ws0.windows@, window)) by {
                let ci = member_index(ws0.windows@, window);
                assert(0 <= ci < ws0.windows@.len() && ws0.windows@[ci] == window);
                assert(pre.workspace_consistent(ws0));
            }
        }
        {
            let ws = &mut self.workspaces[k];
            ws.windows.remove(idx);
        }
        proof {
            lemma_remove_member_wfx(sa, *self, k as int, window, idx as int);
            assert(pre.workspace_index(wsid) == k as int);
        }
        Ok(())
    }

    /// Lets the caller clear any input-inhibitor state tied to the dead
    /// window first; this then removes the window from its workspace (with
    /// the active-member reassignment of `remove_window_from_workspace`),
    /// drops it from the window table, and, if it was the globally active
    /// window, clears `active_window` — focus is re-established by a later
    /// compositor focus event, not synthesized here.
    #[verifier::rlimit(100)]
    pub fn delete_window(&mut self, window_id: Id)
        requires
            old(self).wf(),
            old(self).has_window(window_id),
        ensures
            final(self).wf(),
            final(self).windows@ == old(self).windows@.remove(old(self).window_index(window_id)),
            ({
                let wsid = old(self).spec_window(window_id).workspace;
                let k = old(self).workspace_index(wsid);
                let ws = old(self).workspaces@[k];
                &&& final(self).workspaces@.len() == old(self).workspaces@.len()
                &&& forall|j: int|
                    0 <= j < old(self).workspaces@.len() && j != k ==> final(self).workspaces@[j]
                        == old(self).workspaces@[j]
                &&& crate::workspace::workspace_updated(
                    ws,
                    final(self).workspaces@[k],
                    ws.windows@.remove(member_index(ws.windows@, window_id)),
                    old(self).removal_replacement(ws, window_id),
                )
            }),
            final(self).active_window == if old(self).active_window == Some(window_id) {
                None::<Id>
            } else {
                old(self).active_window
            },
            final(self).active_workspace == old(self).active_workspace,
            final(self).monitors == old(self).monitors,
            final(self).window_id_generator == old(self).window_id_generator,
            final(self).workspace_id_generator == old(self).workspace_id_generator,
            final(self).monitor_id_generator == old(self).monitor_id_generator,
            final(self).gesture == old(self).gesture,
            final(self).old_cursor == old(self).old_cursor,
    {
        let ghost pre = *old(self);
        let _ = self.remove_window_from_workspace(window_id);
        let clear = match self.active_window {
            Some(a) => a == window_id,
            None => false,
        };
        if clear {
            self.active_window = None;
        }
        let ghost sb = *self;
        let pos = self.window_pos(window_id);
        self.windows.remove(pos);
        proof {
            assert(pos as int == sb.window_index(window_id)) by {
                let ci = sb.window_index(window_id);
                assert(0 <= ci < sb.windows@.len() && sb.windows@[ci].id == window_id);
            }
            assert(sb.window_index(window_id) == pre.window_index(window_id)) by {
                let c1 = sb.window_index(window_id);
                let c2 = pre.window_index(window_id);
                assert(0 <= c2 < pre.windows@.len() && pre.windows@[c2].id == window_id);
            }
            lemma_remove_window_table_wf(sb, *self, window_id);
        }
    }

    /// The workspace the `active_workspace` id names; the id must resolve.
    pub fn active_workspace(&self) -> (r: &Workspace)
        requires
            self.has_workspace(self.active_workspace),
            self.workspaces_distinct(),
        ensures
            *r == self.spec_workspace(self.active_workspace),
    {
        self.get_workspace(self.active_workspace)
    }
}

} // verus!
