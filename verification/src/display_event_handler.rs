use vstd::prelude::*;
use crate::config::Config;
use crate::focus::FocusManager;
use crate::geometry::{Xyhw, clip, spec_contains};
use crate::manager::{Manager, spec_tracks, unique_handles, the_window};
use crate::models::{DisplayAction, FocusBehaviour, Layout, Mode, Screen, WindowType};
use crate::window::{Window, WindowChange};
use crate::workspace::Workspace;

verus! {

/// One event from the display protocol, as the event loop hands it to the
/// dispatcher.
#[derive(Clone, Debug)]
pub enum DisplayEvent {
    ScreenCreate(Screen),
    WindowCreate(Window, i32, i32),
    WindowChange(WindowChange),
    WindowDestroy(u64),
    MouseEnteredWindow(u64),
    MoveFocusTo(i32, i32),
    VerifyFocusedAt(i32, i32),
    ChangeToNormalMode,
    Movement(u64, i32, i32),
    MoveWindow(u64, u64, i32, i32),
    ResizeWindow(u64, u64, i32, i32),
}

/// The cursor is over this window's visible geometry and the window can take
/// focus.
pub open spec fn under_point(w: Window, x: int, y: int) -> bool {
    !w.spec_is_unmanaged() && spec_contains(w.spec_calculated_xyhw(), x, y)
}

/// What focusing the window under a point does: nothing when no focusable
/// window shows there, else the focus effect for the first one in stacking
/// order.
pub open spec fn focus_at_point_effect<C: Config>(
    pre: Manager<C>,
    post: Manager<C>,
    x: int,
    y: int,
    r: bool,
) -> bool {
    &&& (forall|i: int|
        0 <= i < pre.windows@.len() ==> !under_point(#[trigger] pre.windows@[i], x, y)) ==> (!r
        && post == pre)
    &&& (exists|i: int|
        0 <= i < pre.windows@.len() && under_point(#[trigger] pre.windows@[i], x, y))
        ==> exists|i: int|
        {
            &&& 0 <= i < pre.windows@.len()
            &&& under_point(#[trigger] pre.windows@[i], x, y)
            &&& forall|j: int| 0 <= j < i ==> !under_point(pre.windows@[j], x, y)
            &&& Manager::focus_effect(pre, post, pre.windows@[i].handle, r)
        }
}

/// `w` floated and moved so that its visible position becomes `(ox, oy)`
/// relative to nothing but its tiled geometry.
pub open spec fn spec_moved(w: Window, ox: int, oy: int) -> Window {
    let ow = if w.floating_offsets is Some {
        w.floating_offsets->0.w
    } else {
        0
    };
    let oh = if w.floating_offsets is Some {
        w.floating_offsets->0.h
    } else {
        0
    };
    Window {
        floating: true,
        floating_offsets: Some(
            Xyhw {
                x: clip(ox - w.normal.x) as i32,
                y: clip(oy - w.normal.y) as i32,
                w: ow,
                h: oh,
            },
        ),
        ..w
    }
}

/// `w` floated and resized so that its visible size becomes `(nw, nh)`.
pub open spec fn spec_resized(w: Window, nw: int, nh: int) -> Window {
    let ox = if w.floating_offsets is Some {
        w.floating_offsets->0.x
    } else {
        0
    };
    let oy = if w.floating_offsets is Some {
        w.floating_offsets->0.y
    } else {
        0
    };
    Window {
        floating: true,
        floating_offsets: Some(
            Xyhw {
                x: ox,
                y: oy,
                w: clip(nw - w.normal.w) as i32,
                h: clip(nh - w.normal.h) as i32,
            },
        ),
        ..w
    }
}

impl<C: Config> Manager<C> {
    /// Register a new output: the screen is recorded and a workspace is made
    /// for it, displaying the next tag in order (the last tag when the tags
    /// run out).
    pub fn screen_create_handler(&mut self, screen: Screen) -> (r: bool)
        requires
            old(self).wf(),
        ensures
            r,
            final(self).wf(),
            *final(self) == (Manager {
                workspaces: final(self).workspaces,
                screens: final(self).screens,
                ..*old(self)
            }),
            final(self).screens@ == old(self).screens@.push(screen),
            final(self).workspaces@.len() == old(self).workspaces@.len() + 1,
            forall|i: int|
                0 <= i < old(self).workspaces@.len() ==> #[trigger] final(self).workspaces@[i]
                    == old(self).workspaces@[i],
            ({
                let ws = final(self).workspaces@.last();
                let ti = if old(self).workspaces@.len() < old(self).tags@.len() {
                    old(self).workspaces@.len() as int
                } else {
                    old(self).tags@.len() - 1
                };
                &&& ws.tags@ == seq![old(self).tags@[ti].id]
                &&& ws.xyhw == screen.xyhw
                &&& ws.xyhw_avoided == screen.xyhw
                &&& ws.layout == Layout::MainAndVertStack
                &&& ws.avoid@ == Seq::<Xyhw>::empty()
                &&& ws.margin_multiplier == 100u32
            }),
    {
        let ti = if self.workspaces.len() < self.tags.len() {
            self.workspaces.len()
        } else {
            self.tags.len() - 1
        };
        let tag_id = self.tags[ti].id;
        let mut t: Vec<u64> = Vec::new();
        t.push(tag_id);
        let ws = Workspace::new(t, screen.xyhw, Layout::MainAndVertStack);
        self.workspaces.push(ws);
        self.screens.push(screen);
        proof {
            assert(Seq::<u64>::empty().push(tag_id) =~= seq![tag_id]);
        }
        true
    }

    /// Focus whatever focusable window shows under the point; the first one
    /// in stacking order wins.
    pub fn move_focus_to_point(&mut self, x: i32, y: i32) -> (r: bool)
        requires
            old(self).wf(),
        ensures
            final(self).wf(),
            focus_at_point_effect(*old(self), *final(self), x as int, y as int, r),
    {
        let mut i: usize = 0;
        while i < self.windows.len()
            invariant
                *self == *old(self),
                old(self).wf(),
                i <= self.windows@.len(),
                forall|j: int|
                    0 <= j < i ==> !under_point(
                        #[trigger] self.windows@[j],
                        x as int,
                        y as int,
                    ),
            decreases self.windows.len() - i,
        {
            let visible = self.windows[i].calculated_xyhw();
            if !self.windows[i].is_unmanaged() && visible.contains_point(x, y) {
                let h = self.windows[i].handle;
                return self.focus_window(h);
            }
            i += 1;
        }
        false
    }

    /// Double-check that the window under the point is the focused one; used
    /// under Sloppy focus when a focus event may have been missed.
    pub fn validate_focus_at(&mut self, x: i32, y: i32) -> (r: bool)
        requires
            old(self).wf(),
        ensures
            final(self).wf(),
            focus_at_point_effect(*old(self), *final(self), x as int, y as int, r),
    {
        self.move_focus_to_point(x, y)
    }

    /// Move a window under the pointer: it floats and follows the offset.
    pub fn window_move_handler(&mut self, handle: u64, ox: i32, oy: i32) -> (r: bool)
        requires
            old(self).wf(),
        ensures
            final(self).wf(),
            r == spec_tracks(old(self).windows@, handle),
            !r ==> *final(self) == *old(self),
            *final(self) == (Manager { windows: final(self).windows, ..*old(self) }),
            forall|i: int|
                0 <= i < old(self).windows@.len() && (#[trigger] old(
                    self,
                ).windows@[i]).handle == handle ==> final(self).windows@ == old(
                    self,
                ).windows@.update(i, spec_moved(old(self).windows@[i], ox as int, oy as int)),
    {
        let idx = match self.window_index(handle) {
            Some(i) => i,
            None => {
                return false;
            },
        };
        let ghost s0 = self.windows@;
        let mut w = self.windows.remove(idx);
        let (ow, oh) = match w.floating_offsets {
            Some(o) => (o.w, o.h),
            None => (0, 0),
        };
        let nx = crate::geometry::sat_sub(ox, w.normal.x);
        let ny = crate::geometry::sat_sub(oy, w.normal.y);
        w.floating_offsets = Some(Xyhw { x: nx, y: ny, w: ow, h: oh });
        w.floating = true;
        self.windows.insert(idx, w);
        proof {
            assert(self.windows@ =~= s0.update(
                idx as int,
                spec_moved(s0[idx as int], ox as int, oy as int),
            ));
            assert(unique_handles(self.windows@)) by {
                assert forall|a: int, b: int| 0 <= a < b < self.windows@.len() implies (
                #[trigger] self.windows@[a]).handle != (#[trigger] self.windows@[b]).handle by {
                    assert(s0[a].handle != s0[b].handle);
                }
            }
            assert forall|i: int|
                0 <= i < s0.len() && (#[trigger] s0[i]).handle == handle implies self.windows@
                    == s0.update(i, spec_moved(s0[i], ox as int, oy as int)) by {
                if i != idx as int {
                    assert(s0[i].handle != s0[idx as int].handle);
                }
            }
        }
        true
    }

    /// Resize a window under the pointer: it floats and takes the new size.
    pub fn window_resize_handler(&mut self, handle: u64, nw: i32, nh: i32) -> (r: bool)
        requires
            old(self).wf(),
        ensures
            final(self).wf(),
            r == spec_tracks(old(self).windows@, handle),
            !r ==> *final(self) == *old(self),
            *final(self) == (Manager { windows: final(self).windows, ..*old(self) }),
            forall|i: int|
                0 <= i < old(self).windows@.len() && (#[trigger] old(
                    self,
                ).windows@[i]).handle == handle ==> final(self).windows@ == old(
                    self,
                ).windows@.update(
                    i,
                    spec_resized(old(self).windows@[i], nw as int, nh as int),
                ),
    {
        let idx = match self.window_index(handle) {
            Some(i) => i,
            None => {
                return false;
            },
        };
        let ghost s0 = self.windows@;
        let mut w = self.windows.remove(idx);
        let (ox, oy) = match w.floating_offsets {
            Some(o) => (o.x, o.y),
            None => (0, 0),
        };
        let dw = crate::geometry::sat_sub(nw, w.normal.w);
        let dh = crate::geometry::sat_sub(nh, w.normal.h);
        w.floating_offsets = Some(Xyhw { x: ox, y: oy, w: dw, h: dh });
        w.floating = true;
        self.windows.insert(idx, w);
        proof {
            assert(self.windows@ =~= s0.update(
                idx as int,
                spec_resized(s0[idx as int], nw as int, nh as int),
            ));
            assert(unique_handles(self.windows@)) by {
                assert forall|a: int, b: int| 0 <= a < b < self.windows@.len() implies (
                #[trigger] self.windows@[a]).handle != (#[trigger] self.windows@[b]).handle by {
                    assert(s0[a].handle != s0[b].handle);
                }
            }
            assert forall|i: int|
                0 <= i < s0.len() && (#[trigger] s0[i]).handle == handle implies self.windows@
                    == s0.update(i, spec_resized(s0[i], nw as int, nh as int)) by {
                if i != idx as int {
                    assert(s0[i].handle != s0[idx as int].handle);
                }
            }
        }
        true
    }

    /// A screen root window carries this handle.
    pub open spec fn spec_is_root(self, handle: u64) -> bool {
        exists|i: int| 0 <= i < self.screens@.len() && (#[trigger] self.screens@[i]).root
            == handle
    }

    /// Dispatch one display event to its handler and report whether the
    /// displayed state needs to be re-rendered. Move and resize events are
    /// frame-rate limited: one is applied only when more than 1000/60 ms
    /// passed since the last applied one, otherwise it is dropped.
    pub fn display_event_handler(&mut self, event: DisplayEvent) -> (r: bool)
        requires
            old(self).wf(),
        ensures
            final(self).wf(),
            match event {
                DisplayEvent::WindowCreate(w, x, y) => {
                    &&& r == !spec_tracks(old(self).windows@, w.handle)
                    &&& !r ==> *final(self) == *old(self)
                    &&& r ==> crate::manager::handles_of(final(self).windows@)
                        == crate::manager::handles_of(old(self).windows@).insert(w.handle)
                },
                DisplayEvent::WindowDestroy(h) => {
                    &&& r
                    &&& final(self).windows@ == crate::window_handler::seq_filter_w(
                        old(self).windows@,
                        crate::window_handler::keep_pred(h),
                    )
                    &&& crate::manager::handles_of(final(self).windows@)
                        == crate::manager::handles_of(old(self).windows@).remove(h)
                },
                DisplayEvent::WindowChange(c) => r == (spec_tracks(
                    old(self).windows@,
                    c.handle,
                ) && c.spec_touches_any()),
                DisplayEvent::MouseEnteredWindow(h) => {
                    if old(self).focus_manager.behaviour == FocusBehaviour::Sloppy {
                        Self::focus_effect(*old(self), *final(self), h, r)
                    } else {
                        !r && *final(self) == *old(self)
                    }
                },
                DisplayEvent::ChangeToNormalMode => {
                    &&& r
                    &&& *final(self) == (Manager {
                        mode: Mode::Normal,
                        actions: final(self).actions,
                        ..*old(self)
                    })
                    &&& final(self).actions@ == old(self).actions@.push(
                        DisplayAction::NormalMode,
                    )
                },
                DisplayEvent::Movement(h, x, y) => {
                    if !(old(self).spec_is_root(h) && old(self).focus_manager.behaviour
                        == FocusBehaviour::Sloppy) {
                        !r && *final(self) == *old(self)
                    } else {
                        Self::ws_focus_effect(*old(self), *final(self), x as int, y as int, r)
                    }
                },
                DisplayEvent::MoveWindow(h, time, x, y) => {
                    if time > old(self).frame_rate_limitor && time - old(
                        self,
                    ).frame_rate_limitor > 16 {
                        &&& final(self).frame_rate_limitor == time
                        &&& r == spec_tracks(old(self).windows@, h)
                        &&& forall|i: int|
                            0 <= i < old(self).windows@.len() && (#[trigger] old(
                                self,
                            ).windows@[i]).handle == h ==> final(self).windows@ == old(
                                self,
                            ).windows@.update(
                                i,
                                spec_moved(old(self).windows@[i], x as int, y as int),
                            )
                    } else {
                        !r && *final(self) == *old(self)
                    }
                },
                DisplayEvent::ResizeWindow(h, time, x, y) => {
                    if time > old(self).frame_rate_limitor && time - old(
                        self,
                    ).frame_rate_limitor > 16 {
                        &&& final(self).frame_rate_limitor == time
                        &&& r == spec_tracks(old(self).windows@, h)
                        &&& forall|i: int|
                            0 <= i < old(self).windows@.len() && (#[trigger] old(
                                self,
                            ).windows@[i]).handle == h ==> final(self).windows@ == old(
                                self,
                            ).windows@.update(
                                i,
                                spec_resized(old(self).windows@[i], x as int, y as int),
                            )
                    } else {
                        !r && *final(self) == *old(self)
                    }
                },
                DisplayEvent::ScreenCreate(s) => r && final(self).screens@ == old(
                    self,
                ).screens@.push(s),
                DisplayEvent::MoveFocusTo(x, y) => focus_at_point_effect(
                    *old(self),
                    *final(self),
                    x as int,
                    y as int,
                    r,
                ),
                DisplayEvent::VerifyFocusedAt(x, y) => {
                    if old(self).focus_manager.behaviour != FocusBehaviour::Sloppy {
                        !r && *final(self) == *old(self)
                    } else {
                        focus_at_point_effect(*old(self), *final(self), x as int, y as int, r)
                    }
                },
            },
    {
        match event {
            DisplayEvent::ScreenCreate(s) => self.screen_create_handler(s),
            DisplayEvent::WindowCreate(w, x, y) => self.window_created_handler(w, x, y),
            DisplayEvent::WindowChange(c) => self.window_changed_handler(c),
            DisplayEvent::WindowDestroy(h) => self.window_destroyed_handler(h),
            DisplayEvent::MouseEnteredWindow(h) => {
                if matches!(self.focus_manager.behaviour, FocusBehaviour::Sloppy) {
                    self.focus_window(h)
                } else {
                    false
                }
            },
            DisplayEvent::MoveFocusTo(x, y) => self.move_focus_to_point(x, y),
            DisplayEvent::VerifyFocusedAt(x, y) => {
                if matches!(self.focus_manager.behaviour, FocusBehaviour::Sloppy) {
                    self.validate_focus_at(x, y)
                } else {
                    false
                }
            },
            DisplayEvent::ChangeToNormalMode => {
                self.mode = Mode::Normal;
                self.actions.push(DisplayAction::NormalMode);
                true
            },
            DisplayEvent::Movement(h, x, y) => {
                let mut is_root = false;
                let mut i: usize = 0;
                while i < self.screens.len()
                    invariant
                        *self == *old(self),
                        i <= self.screens@.len(),
                        is_root == exists|j: int|
                            0 <= j < i && (#[trigger] self.screens@[j]).root == h,
                    decreases self.screens.len() - i,
                {
                    if self.screens[i].root == h {
                        is_root = true;
                        proof {
                            assert(exists|j: int|
                                0 <= j < i + 1 && (#[trigger] self.screens@[j]).root == h) by {
                                assert(self.screens@[i as int].root == h);
                            }
                        }
                    }
                    i += 1;
                }
                if is_root && matches!(self.focus_manager.behaviour, FocusBehaviour::Sloppy) {
                    self.focus_workspace_under_cursor(x, y)
                } else {
                    false
                }
            },
            DisplayEvent::MoveWindow(h, time, x, y) => {
                if time > self.frame_rate_limitor && time - self.frame_rate_limitor > 1000 / 60 {
                    let refresh = self.window_move_handler(h, x, y);
                    self.frame_rate_limitor = time;
                    refresh
                } else {
                    false
                }
            },
            DisplayEvent::ResizeWindow(h, time, x, y) => {
                if time > self.frame_rate_limitor && time - self.frame_rate_limitor > 1000 / 60 {
                    let refresh = self.window_resize_handler(h, x, y);
                    self.frame_rate_limitor = time;
                    refresh
                } else {
                    false
                }
            },
        }
    }
}

} // verus!
