use cascade_wm::{IdGenerator, Workspace};

fn workspace_with(members: &[u64]) -> Workspace {
    let mut gen = IdGenerator::new();
    let mut ws = Workspace::new(&mut gen);
    ws.windows = members.to_vec();
    ws
}

#[test]
fn new_workspace_is_empty_and_unbound() {
    let mut gen = IdGenerator::new();
    let ws = Workspace::new(&mut gen);
    assert_eq!(ws.id, 1);
    assert_eq!(ws.on_monitor, None);
    assert_eq!(ws.scroll_left, 0);
    assert!(ws.windows.is_empty());
    assert_eq!(ws.active_window, None);
}

#[test]
fn get_window_index_finds_the_position() {
    let ws = workspace_with(&[10, 20, 30]);
    assert_eq!(ws.get_window_index(10), Some(0));
    assert_eq!(ws.get_window_index(20), Some(1));
    assert_eq!(ws.get_window_index(30), Some(2));
    assert_eq!(ws.get_window_index(99), None);
}

#[test]
fn swap_windows_exchanges_the_positions() {
    let mut ws = workspace_with(&[10, 20, 30]);
    ws.swap_windows(10, 30);
    assert_eq!(ws.windows, vec![30, 20, 10]);
    let mut ws2 = workspace_with(&[10, 20, 30]);
    ws2.swap_windows(20, 30);
    assert_eq!(ws2.windows, vec![10, 30, 20]);
}

#[test]
fn swap_windows_twice_restores_the_order() {
    let mut ws = workspace_with(&[10, 20, 30, 40]);
    ws.swap_windows(20, 40);
    ws.swap_windows(20, 40);
    assert_eq!(ws.windows, vec![10, 20, 30, 40]);
}

#[test]
fn swap_windows_with_itself_changes_nothing() {
    let mut ws = workspace_with(&[10, 20, 30]);
    ws.swap_windows(20, 20);
    assert_eq!(ws.windows, vec![10, 20, 30]);
}
