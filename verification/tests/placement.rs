use wm_core::config::{Config, Keybind, ScratchPad, WorkspaceConfig};
use wm_core::geometry::Xyhw;
use wm_core::manager::Manager;
use wm_core::models::{DisplayAction, FocusBehaviour, Layout, Mode, NSP_TAG, Screen, WindowType};
use wm_core::scheduler::{next_wakeup, redraw_scope, LoopBranch};
use wm_core::window::Window;
use wm_core::LeftError;

struct TestConfig {
    behaviour: FocusBehaviour,
}

impl Config for TestConfig {
    fn mapped_bindings(&self) -> Vec<Keybind> {
        Vec::new()
    }
    fn get_list_of_tags(&self) -> Vec<String> {
        vec!["one".to_string(), "two".to_string()]
    }
    fn get_list_of_scratchpads(&self) -> Vec<ScratchPad> {
        vec![ScratchPad { name: "term".to_string(), value: "alacritty".to_string() }]
    }
    fn workspaces(&self) -> Option<Vec<WorkspaceConfig>> {
        Some(vec![WorkspaceConfig { x: 0, y: 0, w: 1920, h: 1080 }])
    }
    fn focus_behaviour(&self) -> FocusBehaviour {
        self.behaviour
    }
    fn mousekey(&self) -> String {
        "Mod4".to_string()
    }
    fn disable_current_tag_swap(&self) -> bool {
        false
    }
    fn on_new_window_cmd(&self) -> Option<String> {
        None
    }
}

fn manager(behaviour: FocusBehaviour) -> Manager<TestConfig> {
    Manager::new(TestConfig { behaviour })
}

fn screen() -> Screen {
    Screen { root: 9000, xyhw: Xyhw { x: 0, y: 0, w: 1920, h: 1080 } }
}

fn normal_window(handle: u64) -> Window {
    Window::new(
        handle,
        WindowType::Normal,
        Xyhw { x: 0, y: 0, w: 300, h: 200 },
        None,
        None,
        None,
        None,
    )
}

#[test]
fn scratchpad_is_floating_hidden_and_on_top() {
    let mut m = manager(FocusBehaviour::ClickTo);
    // no workspace exists: the scratchpad takes the first tag plus the
    // reserved hidden tag and floats
    m.active_scratchpads.push(("term".to_string(), 4242));
    let mut w = normal_window(7);
    w.pid = Some(4242);
    assert!(m.window_created_handler(w, 0, 0));
    let placed = &m.windows[0];
    assert_eq!(placed.handle, 7);
    assert!(placed.floating);
    assert_eq!(placed.tags, vec![1, NSP_TAG]);
    // a second ordinary window does not displace it from the front
    let mut m2 = manager(FocusBehaviour::ClickTo);
    m2.screen_create_handler(screen());
    m2.focus_manager.workspace_history.insert(0, 0);
    m2.active_scratchpads.push(("term".to_string(), 4242));
    assert!(m2.window_created_handler(normal_window(1), 5, 5));
    let mut w2 = normal_window(8);
    w2.pid = Some(4242);
    assert!(m2.window_created_handler(w2, 5, 5));
    assert_eq!(m2.windows[0].handle, 8);
    assert!(m2.windows[0].floating);
    // on an existing workspace it keeps the workspace tag and is hidden too
    assert_eq!(m2.windows[0].tags, vec![1, NSP_TAG]);
}

#[test]
fn monocle_unfullscreens_and_leads() {
    let mut m = manager(FocusBehaviour::ClickTo);
    m.screen_create_handler(screen());
    m.workspaces[0].layout = Layout::Monocle;
    m.focus_manager.workspace_history.insert(0, 0);
    assert!(m.window_created_handler(normal_window(1), 5, 5));
    m.windows[0].fullscreen = true;
    assert!(m.window_created_handler(normal_window(2), 5, 5));
    // the old fullscreen window gave its state up, the newcomer leads the
    // tag group and inherited fullscreen
    let first = &m.windows[0];
    assert_eq!(first.handle, 2);
    assert!(first.fullscreen);
    let old = m.windows.iter().find(|w| w.handle == 1).unwrap();
    assert!(!old.fullscreen);
    assert!(m.actions.contains(&DisplayAction::SetFullScreen(1, false)));
    assert!(m.actions.contains(&DisplayAction::SetFullScreen(2, true)));
}

#[test]
fn main_and_deck_inserts_stack_second() {
    let mut m = manager(FocusBehaviour::ClickTo);
    m.screen_create_handler(screen());
    m.workspaces[0].layout = Layout::MainAndDeck;
    m.focus_manager.workspace_history.insert(0, 0);
    assert!(m.window_created_handler(normal_window(1), 5, 5));
    assert!(m.window_created_handler(normal_window(2), 5, 5));
    assert!(m.window_created_handler(normal_window(3), 5, 5));
    let order: Vec<u64> = m.windows.iter().map(|w| w.handle).collect();
    // the main window stays first; each newcomer becomes stack-second
    assert_eq!(order, vec![1, 3, 2]);
}

#[test]
fn dialog_is_centered_and_floating() {
    let mut m = manager(FocusBehaviour::ClickTo);
    m.screen_create_handler(screen());
    m.focus_manager.workspace_history.insert(0, 0);
    let dialog = Window::new(
        5,
        WindowType::Dialog,
        Xyhw { x: 0, y: 0, w: 300, h: 200 },
        None,
        None,
        None,
        None,
    );
    assert!(m.window_created_handler(dialog, 5, 5));
    let placed = &m.windows[0];
    assert!(placed.floating);
    assert_eq!(placed.normal, Xyhw { x: 0, y: 0, w: 1920, h: 1080 });
    let off = placed.floating_offsets.unwrap();
    // centered at half the workspace size
    assert_eq!(off.x, 480);
    assert_eq!(off.y, 270);
    assert_eq!(off.w, 960 - 1920);
    assert_eq!(off.h, 540 - 1080);
}

#[test]
fn transient_window_centers_over_its_root() {
    let mut m = manager(FocusBehaviour::ClickTo);
    // end to end: no workspace exists, the first window takes the first tag
    assert!(m.window_created_handler(normal_window(1), 0, 0));
    assert_eq!(m.windows[0].tags, vec![1]);
    let mut w2 = normal_window(2);
    w2.transient = Some(1);
    assert!(m.window_created_handler(w2, 0, 0));
    let child = m.windows.iter().find(|w| w.handle == 2).unwrap();
    let parent = m.windows.iter().find(|w| w.handle == 1).unwrap();
    assert!(child.floating);
    assert_eq!(child.normal, parent.normal);
    let off = child.floating_offsets.unwrap();
    let c = parent.calculated_xyhw().center_halfed();
    assert_eq!(off.x, c.x - parent.normal.x);
    assert_eq!(off.y, c.y - parent.normal.y);
}

#[test]
fn sloppy_create_prefers_workspace_under_cursor() {
    let mut m = manager(FocusBehaviour::Sloppy);
    m.screen_create_handler(screen());
    m.screen_create_handler(Screen {
        root: 9001,
        xyhw: Xyhw { x: 1920, y: 0, w: 1920, h: 1080 },
    });
    // the cursor is on the second output, so the window lands on its tag
    assert!(m.window_created_handler(normal_window(1), 2000, 50));
    assert_eq!(m.windows[0].tags, m.workspaces[1].tags);
}

#[test]
fn snap_to_workspace_rebases_offsets() {
    let mut w = normal_window(1);
    w.floating = true;
    w.floating_offsets = Some(Xyhw { x: 10, y: 20, w: 0, h: 0 });
    w.normal = Xyhw { x: 100, y: 100, w: 300, h: 200 };
    let mut ws = wm_core::workspace::Workspace::new(
        vec![9],
        Xyhw { x: 1920, y: 0, w: 1920, h: 1080 },
        Layout::MainAndVertStack,
    );
    ws.tags = vec![9];
    assert!(w.snap_to_workspace(&ws));
    assert!(!w.floating);
    assert_eq!(w.tags, vec![9]);
    let off = w.floating_offsets.unwrap();
    assert_eq!(off.x, 10 + 100 - 1920);
    assert_eq!(off.y, 20 + 100 - 0);
}

#[test]
fn scheduler_prefers_buffered_events() {
    assert_eq!(
        next_wakeup(false, FocusBehaviour::ClickTo, true, true, true),
        LoopBranch::DrainEvents
    );
    assert_eq!(
        next_wakeup(true, FocusBehaviour::ClickTo, true, false, false),
        LoopBranch::DisplayWait
    );
    // the focus timer is armed only under Sloppy focus
    assert_eq!(
        next_wakeup(true, FocusBehaviour::Sloppy, false, true, false),
        LoopBranch::FocusTimer
    );
    assert_eq!(
        next_wakeup(true, FocusBehaviour::ClickTo, false, true, true),
        LoopBranch::Command
    );
}

#[test]
fn redraw_scope_narrows_while_manipulating() {
    assert_eq!(redraw_scope(Mode::Normal), None);
    assert_eq!(redraw_scope(Mode::MovingWindow(3)), Some(3));
    assert_eq!(redraw_scope(Mode::ResizingWindow(4)), Some(4));
}

#[test]
fn error_type_round_trip() {
    let e = LeftError::Io;
    assert_eq!(e, LeftError::Io);
}
