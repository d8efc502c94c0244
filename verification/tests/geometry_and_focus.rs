use wm_core::config::{Config, Keybind, ScratchPad, WorkspaceConfig};
use wm_core::display_event_handler::DisplayEvent;
use wm_core::geometry::Xyhw;
use wm_core::manager::Manager;
use wm_core::models::{FocusBehaviour, Screen, WindowType};
use wm_core::window::Window;

struct TestConfig {
    behaviour: FocusBehaviour,
}

impl Config for TestConfig {
    fn mapped_bindings(&self) -> Vec<Keybind> {
        Vec::new()
    }
    fn get_list_of_tags(&self) -> Vec<String> {
        vec!["one".to_string(), "two".to_string()]
    }
    fn get_list_of_scratchpads(&self) -> Vec<ScratchPad> {
        Vec::new()
    }
    fn workspaces(&self) -> Option<Vec<WorkspaceConfig>> {
        None
    }
    fn focus_behaviour(&self) -> FocusBehaviour {
        self.behaviour
    }
    fn mousekey(&self) -> String {
        "Mod4".to_string()
    }
    fn disable_current_tag_swap(&self) -> bool {
        false
    }
    fn on_new_window_cmd(&self) -> Option<String> {
        None
    }
}

fn manager(behaviour: FocusBehaviour) -> Manager<TestConfig> {
    Manager::new(TestConfig { behaviour })
}

fn normal_window(handle: u64) -> Window {
    Window::new(
        handle,
        WindowType::Normal,
        Xyhw { x: 0, y: 0, w: 300, h: 200 },
        None,
        None,
        None,
        None,
    )
}

#[test]
fn center_halfed_is_exact() {
    let r = Xyhw { x: 0, y: 0, w: 200, h: 100 };
    let c = r.center_halfed();
    assert_eq!(c, Xyhw { x: 50, y: 25, w: 100, h: 50 });
}

#[test]
fn without_carves_a_top_strut() {
    let screen = Xyhw { x: 0, y: 0, w: 1000, h: 800 };
    let strut = Xyhw { x: 0, y: 0, w: 1000, h: 20 };
    let usable = screen.without(&strut);
    assert_eq!(usable, Xyhw { x: 0, y: 20, w: 1000, h: 780 });
}

#[test]
fn without_carves_a_left_strut() {
    let screen = Xyhw { x: 0, y: 0, w: 1000, h: 800 };
    let strut = Xyhw { x: 0, y: 0, w: 30, h: 800 };
    let usable = screen.without(&strut);
    assert_eq!(usable, Xyhw { x: 30, y: 0, w: 970, h: 800 });
}

#[test]
fn contains_point_includes_edges() {
    let r = Xyhw { x: 10, y: 10, w: 20, h: 20 };
    assert!(r.contains_point(10, 10));
    assert!(r.contains_point(30, 30));
    assert!(!r.contains_point(31, 30));
    assert!(!r.contains_point(9, 10));
}

#[test]
fn mouse_entered_focuses_under_sloppy_only() {
    let mut m = manager(FocusBehaviour::Sloppy);
    m.screen_create_handler(Screen { root: 1, xyhw: Xyhw { x: 0, y: 0, w: 100, h: 100 } });
    m.focus_manager.workspace_history.insert(0, 0);
    assert!(m.window_created_handler(normal_window(3), 5, 5));
    // window 3 is already focused (first on its tag); a repeat is a no-op
    assert!(!m.display_event_handler(DisplayEvent::MouseEnteredWindow(3)));
    assert!(m.window_created_handler(normal_window(4), 5, 5));
    assert!(m.display_event_handler(DisplayEvent::MouseEnteredWindow(4)));
    assert_eq!(m.focus_manager.window_history[0], Some(4));

    let mut m2 = manager(FocusBehaviour::ClickTo);
    m2.screen_create_handler(Screen { root: 1, xyhw: Xyhw { x: 0, y: 0, w: 100, h: 100 } });
    m2.focus_manager.workspace_history.insert(0, 0);
    assert!(m2.window_created_handler(normal_window(3), 5, 5));
    assert!(m2.window_created_handler(normal_window(4), 5, 5));
    // under click-to-focus the pointer does not move focus
    assert!(!m2.display_event_handler(DisplayEvent::MouseEnteredWindow(4)));
    assert_eq!(m2.focus_manager.window_history[0], Some(3));
}

#[test]
fn movement_over_a_root_screen_focuses_its_workspace() {
    let mut m = manager(FocusBehaviour::Sloppy);
    m.screen_create_handler(Screen { root: 1, xyhw: Xyhw { x: 0, y: 0, w: 100, h: 100 } });
    m.screen_create_handler(Screen { root: 2, xyhw: Xyhw { x: 100, y: 0, w: 100, h: 100 } });
    assert!(m.display_event_handler(DisplayEvent::Movement(1, 150, 50)));
    assert_eq!(m.focus_manager.workspace_history[0], 1);
    // an unknown handle is not a root: nothing happens
    assert!(!m.display_event_handler(DisplayEvent::Movement(77, 10, 10)));
}

#[test]
fn resize_event_floats_and_resizes() {
    let mut m = manager(FocusBehaviour::ClickTo);
    m.screen_create_handler(Screen { root: 1, xyhw: Xyhw { x: 0, y: 0, w: 1000, h: 1000 } });
    m.focus_manager.workspace_history.insert(0, 0);
    assert!(m.window_created_handler(normal_window(3), 5, 5));
    assert!(m.display_event_handler(DisplayEvent::ResizeWindow(3, 500, 400, 350)));
    let w = &m.windows[0];
    assert!(w.floating);
    let off = w.floating_offsets.unwrap();
    assert_eq!(off.w, 400 - w.normal.w);
    assert_eq!(off.h, 350 - w.normal.h);
    // a resize of an unknown window is dropped quietly
    assert!(!m.display_event_handler(DisplayEvent::ResizeWindow(99, 900, 10, 10)));
}

#[test]
fn move_focus_to_point_picks_topmost() {
    let mut m = manager(FocusBehaviour::ClickTo);
    m.screen_create_handler(Screen { root: 1, xyhw: Xyhw { x: 0, y: 0, w: 1000, h: 1000 } });
    m.focus_manager.workspace_history.insert(0, 0);
    assert!(m.window_created_handler(normal_window(3), 5, 5));
    let mut w4 = normal_window(4);
    w4.normal = Xyhw { x: 500, y: 500, w: 100, h: 100 };
    assert!(m.window_created_handler(w4, 5, 5));
    assert_eq!(m.focus_manager.window_history[0], Some(3));
    // the second window's tiled geometry covers (520, 520)
    assert!(m.display_event_handler(DisplayEvent::MoveFocusTo(520, 520)));
    assert_eq!(m.focus_manager.window_history[0], Some(4));
    // focusing the already focused window changes nothing
    assert!(!m.display_event_handler(DisplayEvent::MoveFocusTo(520, 520)));
    // nothing under a far point: focus stays
    assert!(!m.display_event_handler(DisplayEvent::MoveFocusTo(900, 900)));
    assert_eq!(m.focus_manager.window_history[0], Some(4));
}
