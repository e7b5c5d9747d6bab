use cascade_wm::{
    FocusAction, Gesture, IdGenerator, Monitor, Point, Rectangle, Size, Window, WindowInfo,
    WindowManager, WindowState, WindowType, Workspace,
};

fn info(handle: u64, title: &str, wt: WindowType, st: WindowState, parent: bool) -> WindowInfo {
    WindowInfo {
        handle,
        title: title.to_string(),
        window_type: wt,
        state: st,
        has_parent: parent,
        top_left: Point { x: 0, y: 0 },
        size: Size { width: 100, height: 100 },
        min_width: 0,
        max_width: 10000,
        min_height: 0,
        max_height: 10000,
    }
}

fn fresh_wm() -> (WindowManager, u64) {
    let mut workspace_gen = IdGenerator::new();
    let ws = Workspace::new(&mut workspace_gen);
    let ws_id = ws.id;
    let wm = WindowManager {
        monitor_id_generator: IdGenerator::new(),
        window_id_generator: IdGenerator::new(),
        workspace_id_generator: workspace_gen,
        monitors: Vec::new(),
        windows: Vec::new(),
        workspaces: vec![ws],
        old_cursor: Point { x: 0, y: 0 },
        gesture: Gesture::Idle,
        active_window: None,
        active_workspace: ws_id,
    };
    (wm, ws_id)
}

fn add_tiled(wm: &mut WindowManager, ws: u64, handle: u64) -> u64 {
    let w = Window::new(
        &mut wm.window_id_generator,
        ws,
        info(handle, "app", WindowType::Normal, WindowState::Restored, false),
    );
    let id = w.id;
    wm.add_window(w, true);
    id
}

fn add_floating(wm: &mut WindowManager, ws: u64, handle: u64) -> u64 {
    let w = Window::new(
        &mut wm.window_id_generator,
        ws,
        info(handle, "palette", WindowType::Dialog, WindowState::Restored, false),
    );
    let id = w.id;
    wm.add_window(w, true);
    id
}

fn members(wm: &WindowManager, ws: u64) -> Vec<u64> {
    wm.get_workspace(ws).windows.clone()
}

fn active_member(wm: &WindowManager, ws: u64) -> Option<u64> {
    wm.get_workspace(ws).active_window
}

/// Checks that every workspace's active window is a member and every
/// window's workspace back-reference resolves to a listing workspace.
fn check_consistency(wm: &WindowManager) {
    for ws in &wm.workspaces {
        if let Some(a) = ws.active_window {
            assert!(ws.windows.contains(&a));
        }
    }
    for w in &wm.windows {
        let ws = wm.get_workspace(w.workspace);
        assert!(ws.windows.contains(&w.id));
    }
}

#[test]
fn add_window_appends_when_no_active_member() {
    let (mut wm, ws) = fresh_wm();
    let w0 = add_tiled(&mut wm, ws, 100);
    assert_eq!(members(&wm, ws), vec![w0]);
    assert_eq!(active_member(&wm, ws), Some(w0));
    assert_eq!(wm.active_window, Some(w0));
    assert_eq!(wm.active_workspace, ws);
    check_consistency(&wm);
}

#[test]
fn add_window_inserts_immediately_after_active_member() {
    let (mut wm, ws) = fresh_wm();
    let w0 = add_tiled(&mut wm, ws, 100);
    let w1 = add_tiled(&mut wm, ws, 101);
    let w2 = add_tiled(&mut wm, ws, 102);
    assert_eq!(members(&wm, ws), vec![w0, w1, w2]);
    // with w0 active and members [w0, w2], a new window lands between them
    wm.activate_window(w0);
    wm.delete_window(w1);
    assert_eq!(members(&wm, ws), vec![w0, w2]);
    assert_eq!(active_member(&wm, ws), Some(w0));
    let new = add_tiled(&mut wm, ws, 103);
    assert_eq!(members(&wm, ws), vec![w0, new, w2]);
    check_consistency(&wm);
}

#[test]
fn add_window_with_parent_takes_no_focus() {
    let (mut wm, ws) = fresh_wm();
    let w0 = add_tiled(&mut wm, ws, 100);
    let transient = Window::new(
        &mut wm.window_id_generator,
        ws,
        info(200, "tooltip", WindowType::Dialog, WindowState::Restored, true),
    );
    let t_id = transient.id;
    let action = wm.add_window(transient, true);
    assert_eq!(action, FocusAction::Nothing);
    assert_eq!(wm.active_window, Some(w0));
    assert_eq!(active_member(&wm, ws), Some(w0));
    assert!(members(&wm, ws).contains(&t_id));
    check_consistency(&wm);
}

#[test]
fn add_window_disallowed_defers_to_exclusive_client() {
    let (mut wm, ws) = fresh_wm();
    let w0 = add_tiled(&mut wm, ws, 100);
    let w = Window::new(
        &mut wm.window_id_generator,
        ws,
        info(201, "app", WindowType::Normal, WindowState::Restored, false),
    );
    let action = wm.add_window(w, false);
    assert_eq!(action, FocusAction::FocusExclusiveClient);
    assert_eq!(wm.active_window, Some(w0));
    assert_eq!(active_member(&wm, ws), Some(w0));
    check_consistency(&wm);
}

#[test]
fn remove_active_tiled_window_prefers_predecessor() {
    let (mut wm, ws) = fresh_wm();
    let w0 = add_tiled(&mut wm, ws, 100);
    let w1 = add_tiled(&mut wm, ws, 101);
    let w2 = add_tiled(&mut wm, ws, 102);
    assert_eq!(members(&wm, ws), vec![w0, w1, w2]);
    wm.activate_window(w1);
    wm.remove_window_from_workspace(w1).unwrap();
    assert_eq!(active_member(&wm, ws), Some(w0));
    assert_eq!(members(&wm, ws), vec![w0, w2]);
}

#[test]
fn remove_first_tiled_window_falls_back_to_successor() {
    let (mut wm, ws) = fresh_wm();
    let w0 = add_tiled(&mut wm, ws, 100);
    let w1 = add_tiled(&mut wm, ws, 101);
    let w2 = add_tiled(&mut wm, ws, 102);
    assert_eq!(members(&wm, ws), vec![w0, w1, w2]);
    wm.activate_window(w0);
    wm.remove_window_from_workspace(w0).unwrap();
    assert_eq!(active_member(&wm, ws), Some(w1));
    assert_eq!(members(&wm, ws), vec![w1, w2]);
}

#[test]
fn remove_sole_tiled_window_leaves_no_active_member() {
    let (mut wm, ws) = fresh_wm();
    let w0 = add_tiled(&mut wm, ws, 100);
    wm.remove_window_from_workspace(w0).unwrap();
    assert_eq!(active_member(&wm, ws), None);
    assert!(members(&wm, ws).is_empty());
}

#[test]
fn remove_active_floating_window_falls_back_to_last_tiled() {
    let (mut wm, ws) = fresh_wm();
    let w0 = add_tiled(&mut wm, ws, 100);
    let w1 = add_tiled(&mut wm, ws, 101);
    let f = add_floating(&mut wm, ws, 102);
    assert_eq!(active_member(&wm, ws), Some(f));
    assert!(!wm.get_window(f).is_tiled());
    wm.remove_window_from_workspace(f).unwrap();
    assert_eq!(active_member(&wm, ws), Some(w1));
    assert_eq!(members(&wm, ws), vec![w0, w1]);
}

#[test]
fn delete_window_clears_active_and_tables() {
    let (mut wm, ws) = fresh_wm();
    let w0 = add_tiled(&mut wm, ws, 100);
    let w1 = add_tiled(&mut wm, ws, 101);
    assert_eq!(wm.active_window, Some(w1));
    wm.delete_window(w1);
    assert_eq!(wm.active_window, None);
    assert_eq!(members(&wm, ws), vec![w0]);
    assert_eq!(active_member(&wm, ws), Some(w0));
    assert_eq!(wm.windows.len(), 1);
    check_consistency(&wm);
}

#[test]
fn delete_window_keeps_active_when_another_window_was_active() {
    let (mut wm, ws) = fresh_wm();
    let w0 = add_tiled(&mut wm, ws, 100);
    let w1 = add_tiled(&mut wm, ws, 101);
    wm.activate_window(w0);
    wm.delete_window(w1);
    assert_eq!(wm.active_window, Some(w0));
    check_consistency(&wm);
}

#[test]
fn tiled_members_skips_floating_and_preserves_order() {
    let (mut wm, ws) = fresh_wm();
    let w0 = add_tiled(&mut wm, ws, 100);
    let f = add_floating(&mut wm, ws, 101);
    let w1 = add_tiled(&mut wm, ws, 102);
    let tiled = wm.get_workspace(ws).get_tiled_windows(&wm);
    assert_eq!(tiled, vec![w0, w1]);
    assert_eq!(wm.get_workspace(ws).get_tiled_window_index(&wm, w1), Some(1));
    assert_eq!(wm.get_workspace(ws).get_tiled_window_index(&wm, f), None);
}

#[test]
fn fullscreen_reclassification_is_observed_live() {
    let (mut wm, ws) = fresh_wm();
    let w0 = add_tiled(&mut wm, ws, 100);
    let w1 = add_tiled(&mut wm, ws, 101);
    assert_eq!(wm.get_workspace(ws).get_tiled_windows(&wm), vec![w0, w1]);
    // the compositor reports that w0 went fullscreen
    for w in &mut wm.windows {
        if w.id == w0 {
            w.window_info.state = WindowState::Fullscreen;
        }
    }
    assert_eq!(wm.get_workspace(ws).get_tiled_windows(&wm), vec![w1]);
    // and back
    for w in &mut wm.windows {
        if w.id == w0 {
            w.window_info.state = WindowState::Restored;
        }
    }
    assert_eq!(wm.get_workspace(ws).get_tiled_windows(&wm), vec![w0, w1]);
}

#[test]
fn get_or_create_creates_two_when_no_spare_exists() {
    let (mut wm, ws) = fresh_wm();
    let monitor = Monitor::new(
        &mut wm.monitor_id_generator,
        Rectangle { top_left: Point { x: 0, y: 0 }, size: Size { width: 1920, height: 1080 } },
        ws,
    );
    let mon_id = monitor.id;
    wm.monitors.push(monitor);
    wm.workspaces[0].on_monitor = Some(mon_id);
    let before = wm.workspaces.len();
    let spare = wm.get_or_create_unused_workspace();
    assert_eq!(wm.workspaces.len(), before + 2);
    assert_eq!(wm.get_workspace(spare).on_monitor, None);
    let unused: Vec<&Workspace> =
        wm.workspaces.iter().filter(|w| w.on_monitor.is_none()).collect();
    assert!(unused.iter().any(|w| w.id != spare));
}

#[test]
fn get_or_create_tops_up_the_reserve_when_one_spare_exists() {
    let (mut wm, ws) = fresh_wm();
    let before = wm.workspaces.len();
    let spare = wm.get_or_create_unused_workspace();
    assert_eq!(spare, ws);
    assert_eq!(wm.workspaces.len(), before + 1);
    assert_eq!(wm.get_workspace(spare).on_monitor, None);
    let unused: Vec<&Workspace> =
        wm.workspaces.iter().filter(|w| w.on_monitor.is_none()).collect();
    assert_eq!(unused.len(), 2);
}

#[test]
fn get_or_create_returns_first_spare_when_two_exist() {
    let (mut wm, ws) = fresh_wm();
    let second = Workspace::new(&mut wm.workspace_id_generator);
    wm.workspaces.push(second);
    let before = wm.workspaces.len();
    let spare = wm.get_or_create_unused_workspace();
    assert_eq!(spare, ws);
    assert_eq!(wm.workspaces.len(), before);
}

#[test]
fn activate_window_sets_workspace_and_manager_state() {
    let (mut wm, ws) = fresh_wm();
    let w0 = add_tiled(&mut wm, ws, 100);
    let w1 = add_tiled(&mut wm, ws, 101);
    assert_eq!(wm.active_window, Some(w1));
    wm.activate_window(w0);
    assert_eq!(wm.active_window, Some(w0));
    assert_eq!(wm.active_workspace, ws);
    assert_eq!(active_member(&wm, ws), Some(w0));
    check_consistency(&wm);
}

#[test]
fn focus_window_reports_the_compositor_action() {
    let (mut wm, ws) = fresh_wm();
    let w0 = add_tiled(&mut wm, ws, 100);
    assert_eq!(wm.focus_window(Some(w0), true), FocusAction::SelectWindow(w0));
    assert_eq!(wm.active_window, Some(w0));
    assert_eq!(wm.focus_window(Some(w0), false), FocusAction::FocusExclusiveClient);
    assert_eq!(wm.focus_window(None, true), FocusAction::ClearSelection);
    assert_eq!(wm.active_window, None);
}

#[test]
fn lookups_resolve_windows_workspaces_and_monitors() {
    let (mut wm, ws) = fresh_wm();
    let monitor = Monitor::new(
        &mut wm.monitor_id_generator,
        Rectangle { top_left: Point { x: 0, y: 0 }, size: Size { width: 800, height: 600 } },
        ws,
    );
    let mon_id = monitor.id;
    wm.monitors.push(monitor);
    wm.workspaces[0].on_monitor = Some(mon_id);
    let w0 = add_tiled(&mut wm, ws, 555);
    assert_eq!(wm.get_window(w0).id, w0);
    assert_eq!(wm.get_workspace(ws).id, ws);
    assert_eq!(wm.monitor_by_workspace(ws).unwrap().id, mon_id);
    assert_eq!(wm.monitor_by_window(w0).unwrap().id, mon_id);
    assert_eq!(wm.window_by_info(555).unwrap().id, w0);
    assert!(wm.window_by_info(556).is_none());
    assert_eq!(wm.active_window().unwrap().id, w0);
    assert_eq!(wm.active_workspace().id, ws);
}

#[test]
fn repeated_spare_requests_never_return_a_bound_workspace() {
    let (mut wm, ws) = fresh_wm();
    let monitor = Monitor::new(
        &mut wm.monitor_id_generator,
        Rectangle { top_left: Point { x: 0, y: 0 }, size: Size { width: 1920, height: 1080 } },
        ws,
    );
    let mon_id = monitor.id;
    wm.monitors.push(monitor);
    wm.workspaces[0].on_monitor = Some(mon_id);
    for _ in 0..3 {
        let spare = wm.get_or_create_unused_workspace();
        assert_eq!(wm.get_workspace(spare).on_monitor, None);
        let spares: Vec<&Workspace> =
            wm.workspaces.iter().filter(|w| w.on_monitor.is_none()).collect();
        assert!(spares.iter().any(|w| w.id != spare));
        // bind the returned spare, as a newly attached monitor would
        let next_monitor = Monitor::new(
            &mut wm.monitor_id_generator,
            Rectangle {
                top_left: Point { x: 0, y: 0 },
                size: Size { width: 1280, height: 720 },
            },
            spare,
        );
        let next_mon_id = next_monitor.id;
        wm.monitors.push(next_monitor);
        let pos = wm.workspaces.iter().position(|w| w.id == spare).unwrap();
        wm.workspaces[pos].on_monitor = Some(next_mon_id);
    }
}

#[test]
fn interleaved_events_keep_the_tables_consistent() {
    let (mut wm, ws) = fresh_wm();
    let w0 = add_tiled(&mut wm, ws, 100);
    check_consistency(&wm);
    let w1 = add_tiled(&mut wm, ws, 101);
    check_consistency(&wm);
    let f = add_floating(&mut wm, ws, 102);
    check_consistency(&wm);
    wm.activate_window(w0);
    check_consistency(&wm);
    wm.focus_window(Some(w1), true);
    check_consistency(&wm);
    wm.delete_window(w0);
    check_consistency(&wm);
    wm.delete_window(f);
    check_consistency(&wm);
    let w2 = add_tiled(&mut wm, ws, 103);
    check_consistency(&wm);
    assert_eq!(members(&wm, ws), vec![w1, w2]);
    wm.delete_window(w2);
    wm.delete_window(w1);
    check_consistency(&wm);
    assert!(members(&wm, ws).is_empty());
    assert_eq!(wm.active_window, None);
}

#[test]
fn monitor_by_workspace_is_none_for_unbound_workspace() {
    let (wm, ws) = fresh_wm();
    assert!(wm.monitor_by_workspace(ws).is_none());
}
