use wm_core::config::{Config, Keybind, ScratchPad, WorkspaceConfig};
use wm_core::display_event_handler::DisplayEvent;
use wm_core::geometry::Xyhw;
use wm_core::manager::Manager;
use wm_core::models::{DisplayAction, FocusBehaviour, Screen, WindowType};
use wm_core::window::{Window, WindowChange};

struct TestConfig {
    behaviour: FocusBehaviour,
    cmd: Option<String>,
}

impl Config for TestConfig {
    fn mapped_bindings(&self) -> Vec<Keybind> {
        Vec::new()
    }
    fn get_list_of_tags(&self) -> Vec<String> {
        vec!["one".to_string(), "two".to_string()]
    }
    fn get_list_of_scratchpads(&self) -> Vec<ScratchPad> {
        Vec::new()
    }
    fn workspaces(&self) -> Option<Vec<WorkspaceConfig>> {
        None
    }
    fn focus_behaviour(&self) -> FocusBehaviour {
        self.behaviour
    }
    fn mousekey(&self) -> String {
        "Mod4".to_string()
    }
    fn disable_current_tag_swap(&self) -> bool {
        false
    }
    fn on_new_window_cmd(&self) -> Option<String> {
        self.cmd.clone()
    }
}

fn manager(behaviour: FocusBehaviour) -> Manager<TestConfig> {
    Manager::new(TestConfig { behaviour, cmd: None })
}

fn screen() -> Screen {
    Screen { root: 9000, xyhw: Xyhw { x: 0, y: 0, w: 1920, h: 1080 } }
}

fn normal_window(handle: u64) -> Window {
    Window::new(
        handle,
        WindowType::Normal,
        Xyhw { x: 0, y: 0, w: 300, h: 200 },
        None,
        None,
        None,
        None,
    )
}

#[test]
fn create_then_destroy_replay_leaves_live_handles() {
    let mut m = manager(FocusBehaviour::ClickTo);
    m.screen_create_handler(screen());
    m.focus_manager.workspace_history.insert(0, 0);
    assert!(m.window_created_handler(normal_window(1), 5, 5));
    assert!(m.window_created_handler(normal_window(2), 5, 5));
    // a duplicate create is a no-op, not an error
    assert!(!m.window_created_handler(normal_window(1), 5, 5));
    assert_eq!(m.windows.len(), 2);
    // destroying an unknown handle is idempotent
    assert!(m.window_destroyed_handler(77));
    assert_eq!(m.windows.len(), 2);
    assert!(m.window_destroyed_handler(1));
    assert_eq!(m.windows.len(), 1);
    assert_eq!(m.windows[0].handle, 2);
}

#[test]
fn next_or_previous_walks_the_workspace() {
    let mut m = manager(FocusBehaviour::ClickTo);
    m.screen_create_handler(screen());
    m.focus_manager.workspace_history.insert(0, 0);
    assert!(m.window_created_handler(normal_window(10), 5, 5));
    assert!(m.window_created_handler(normal_window(20), 5, 5));
    assert!(m.window_created_handler(normal_window(30), 5, 5));
    // windows are ordered [A, B, C] = [10, 20, 30]
    assert_eq!(m.get_next_or_previous(20), Some(30));
    assert_eq!(m.get_next_or_previous(30), Some(20));
    assert_eq!(m.get_next_or_previous(10), Some(20));
}

#[test]
fn destroy_focused_under_click_to_focuses_remaining() {
    let mut m = manager(FocusBehaviour::ClickTo);
    m.screen_create_handler(screen());
    m.focus_manager.workspace_history.insert(0, 0);
    assert!(m.window_created_handler(normal_window(1), 5, 5));
    // first window on the workspace gets focused
    assert_eq!(m.focus_manager.window_history[0], Some(1));
    assert!(m.window_created_handler(normal_window(2), 5, 5));
    assert_eq!(m.focus_manager.window_history[0], Some(1));
    assert!(m.window_destroyed_handler(1));
    assert_eq!(m.focus_manager.window_history[0], Some(2));
}

#[test]
fn destroy_focused_under_sloppy_asks_the_server() {
    let mut m = manager(FocusBehaviour::Sloppy);
    m.screen_create_handler(screen());
    m.focus_manager.workspace_history.insert(0, 0);
    assert!(m.window_created_handler(normal_window(1), 5, 5));
    assert!(m.window_created_handler(normal_window(2), 700, 700));
    assert_eq!(m.focus_manager.window_history[0], Some(1));
    let before = m.actions.len();
    assert!(m.window_destroyed_handler(1));
    // focus is left to the display server: a request is queued, the
    // explicit focus stays unresolved
    assert_eq!(m.actions[before], DisplayAction::FocusWindowUnderCursor);
    assert_eq!(m.focus_manager.window_history[0], Some(1));
}

#[test]
fn frame_rate_limiter_drops_too_fast_moves() {
    let mut m = manager(FocusBehaviour::ClickTo);
    m.screen_create_handler(screen());
    m.focus_manager.workspace_history.insert(0, 0);
    assert!(m.window_created_handler(normal_window(1), 5, 5));
    let t: u64 = 1000;
    assert!(m.display_event_handler(DisplayEvent::MoveWindow(1, t, 50, 60)));
    assert_eq!(m.frame_rate_limitor, t);
    // five milliseconds later: dropped
    assert!(!m.display_event_handler(DisplayEvent::MoveWindow(1, t + 5, 70, 80)));
    assert_eq!(m.frame_rate_limitor, t);
    // twenty milliseconds after the last applied event: applied
    assert!(m.display_event_handler(DisplayEvent::MoveWindow(1, t + 20, 90, 95)));
    assert_eq!(m.frame_rate_limitor, t + 20);
    let w = &m.windows[0];
    assert!(w.floating);
    let off = w.floating_offsets.unwrap();
    assert_eq!(off.x, 90 - w.normal.x);
    assert_eq!(off.y, 95 - w.normal.y);
}

#[test]
fn frame_rate_limiter_boundary() {
    let mut m = manager(FocusBehaviour::ClickTo);
    m.screen_create_handler(screen());
    m.focus_manager.workspace_history.insert(0, 0);
    assert!(m.window_created_handler(normal_window(1), 5, 5));
    assert!(m.display_event_handler(DisplayEvent::MoveWindow(1, 100, 10, 10)));
    // exactly 1000/60 (= 16) ms elapsed: still dropped
    assert!(!m.display_event_handler(DisplayEvent::MoveWindow(1, 116, 20, 20)));
    // one more millisecond: applied
    assert!(m.display_event_handler(DisplayEvent::MoveWindow(1, 117, 20, 20)));
}

#[test]
fn change_handler_updates_strut_and_avoid() {
    let mut m = manager(FocusBehaviour::ClickTo);
    m.screen_create_handler(screen());
    let dock = Window::new(
        50,
        WindowType::Dock,
        Xyhw { x: 0, y: 0, w: 1920, h: 30 },
        None,
        None,
        None,
        None,
    );
    assert!(m.window_created_handler(dock, 5, 5));
    assert!(m.workspaces[0].avoid.is_empty());
    let mut change = WindowChange::new(50);
    let strut = Xyhw { x: 0, y: 0, w: 1920, h: 30 };
    change.strut = Some(Some(strut));
    assert!(m.window_changed_handler(change));
    assert_eq!(m.workspaces[0].avoid.len(), 1);
    assert_eq!(m.workspaces[0].avoid[0], strut);
    // the usable area shrank from the top
    assert_eq!(m.workspaces[0].xyhw_avoided.y, 30);
    assert_eq!(m.workspaces[0].xyhw_avoided.h, 1080 - 30);
    // a change for an unknown window is "already gone"
    let ghost_change = WindowChange::new(999);
    assert!(!m.window_changed_handler(ghost_change));
}

#[test]
fn avoid_recomputation_is_idempotent() {
    let mut m = manager(FocusBehaviour::ClickTo);
    m.screen_create_handler(screen());
    let mut dock = Window::new(
        50,
        WindowType::Dock,
        Xyhw { x: 0, y: 0, w: 1920, h: 30 },
        None,
        None,
        None,
        None,
    );
    dock.strut = Some(Xyhw { x: 0, y: 0, w: 1920, h: 30 });
    assert!(m.window_created_handler(dock, 5, 5));
    m.update_workspace_avoid_list();
    let first = m.workspaces[0].avoid.clone();
    let area = m.workspaces[0].xyhw_avoided;
    m.update_workspace_avoid_list();
    assert_eq!(m.workspaces[0].avoid, first);
    assert_eq!(m.workspaces[0].xyhw_avoided, area);
}

#[test]
fn destroying_a_dock_frees_the_avoided_area() {
    let mut m = manager(FocusBehaviour::ClickTo);
    m.screen_create_handler(screen());
    let mut dock = Window::new(
        50,
        WindowType::Dock,
        Xyhw { x: 0, y: 0, w: 1920, h: 30 },
        None,
        None,
        None,
        None,
    );
    dock.strut = Some(Xyhw { x: 0, y: 0, w: 1920, h: 30 });
    assert!(m.window_created_handler(dock, 5, 5));
    m.update_workspace_avoid_list();
    assert_eq!(m.workspaces[0].avoid.len(), 1);
    assert!(m.window_destroyed_handler(50));
    assert!(m.workspaces[0].avoid.is_empty());
    assert_eq!(m.workspaces[0].xyhw_avoided, m.workspaces[0].xyhw);
}

#[test]
fn new_window_command_is_queued() {
    let mut m = Manager::new(TestConfig {
        behaviour: FocusBehaviour::ClickTo,
        cmd: Some("notify-send hi".to_string()),
    });
    m.screen_create_handler(screen());
    m.focus_manager.workspace_history.insert(0, 0);
    assert!(m.window_created_handler(normal_window(1), 5, 5));
    assert_eq!(m.spawn_queue, vec!["notify-send hi".to_string()]);
}
