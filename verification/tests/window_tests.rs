use cascade_wm::{
    IdGenerator, Point, Size, Window, WindowInfo, WindowState, WindowType,
};

fn info(handle: u64, title: &str, wt: WindowType, st: WindowState, parent: bool) -> WindowInfo {
    WindowInfo {
        handle,
        title: title.to_string(),
        window_type: wt,
        state: st,
        has_parent: parent,
        top_left: Point { x: 10, y: 20 },
        size: Size { width: 300, height: 200 },
        min_width: 100,
        max_width: 800,
        min_height: 50,
        max_height: 600,
    }
}

fn window(wt: WindowType, st: WindowState, parent: bool, title: &str) -> Window {
    let mut gen = IdGenerator::new();
    Window::new(&mut gen, 1, info(7, title, wt, st, parent))
}

#[test]
fn new_window_starts_clean() {
    let mut gen = IdGenerator::new();
    let w = Window::new(&mut gen, 42, info(9, "editor", WindowType::Normal, WindowState::Restored, false));
    assert_eq!(w.id, 1);
    assert_eq!(w.workspace, 42);
    assert_eq!(w.x, 0);
    assert_eq!(w.y, 0);
    assert_eq!(w.size, Size { width: 0, height: 0 });
    assert!(!w.is_dragged);
    assert_eq!(gen.next_id(), 2);
}

#[test]
fn geometry_getters_read_the_handle() {
    let w = window(WindowType::Normal, WindowState::Restored, false, "editor");
    assert_eq!(w.x(), 10);
    assert_eq!(w.y(), 20);
    assert_eq!(w.width(), 300);
    assert_eq!(w.height(), 200);
    assert_eq!(w.rendered_top_left(), Point { x: 10, y: 20 });
    assert_eq!(w.rendered_size(), Size { width: 300, height: 200 });
    assert_eq!(w.min_width(), 100);
    assert_eq!(w.max_width(), 800);
    assert_eq!(w.min_height(), 50);
    assert_eq!(w.max_height(), 600);
    assert_eq!(w.name(), "editor".to_string());
    assert_eq!(w.type_(), WindowType::Normal);
    assert_eq!(w.state(), WindowState::Restored);
    assert!(!w.has_parent());
}

#[test]
fn set_size_clamps_each_dimension_independently() {
    let mut w = window(WindowType::Normal, WindowState::Restored, false, "editor");
    w.set_size(Size { width: 50, height: 700 });
    assert_eq!(w.size, Size { width: 100, height: 600 });
    w.set_size(Size { width: 900, height: 10 });
    assert_eq!(w.size, Size { width: 800, height: 50 });
    w.set_size(Size { width: 400, height: 300 });
    assert_eq!(w.size, Size { width: 400, height: 300 });
}

#[test]
fn resize_issues_the_clamped_size() {
    let mut w = window(WindowType::Normal, WindowState::Restored, false, "editor");
    w.resize(Size { width: 50, height: 9999 });
    assert_eq!(w.size, Size { width: 100, height: 600 });
    assert_eq!(w.rendered_size(), Size { width: 100, height: 600 });
}

#[test]
fn move_to_is_unclamped() {
    let mut w = window(WindowType::Normal, WindowState::Restored, false, "editor");
    w.move_to(-5000, 12000);
    assert_eq!(w.rendered_top_left(), Point { x: -5000, y: 12000 });
}

#[test]
fn is_tiled_requires_normal_or_freestyle() {
    assert!(window(WindowType::Normal, WindowState::Restored, false, "editor").is_tiled());
    assert!(window(WindowType::Freestyle, WindowState::Restored, false, "editor").is_tiled());
    assert!(!window(WindowType::Dialog, WindowState::Restored, false, "editor").is_tiled());
    assert!(!window(WindowType::Utility, WindowState::Restored, false, "editor").is_tiled());
    assert!(!window(WindowType::Menu, WindowState::Restored, false, "editor").is_tiled());
}

#[test]
fn is_tiled_rejects_fullscreen_attached_and_parented() {
    assert!(!window(WindowType::Normal, WindowState::Fullscreen, false, "editor").is_tiled());
    assert!(!window(WindowType::Normal, WindowState::Attached, false, "editor").is_tiled());
    assert!(!window(WindowType::Normal, WindowState::Restored, true, "editor").is_tiled());
    assert!(window(WindowType::Normal, WindowState::Maximized, false, "editor").is_tiled());
}

#[test]
fn is_tiled_rejects_exempt_title() {
    assert!(!window(WindowType::Normal, WindowState::Restored, false, "Ulauncher window title")
        .is_tiled());
    assert!(window(WindowType::Normal, WindowState::Restored, false, "Ulauncher").is_tiled());
}
