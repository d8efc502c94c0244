use vstd::prelude::*;
use crate::config::Config;
use crate::focus::{FocusManager, tlw_unique};
use crate::geometry::Xyhw;
use crate::helpers::clone_tags;
use crate::models::{DisplayAction, FocusBehaviour, Layout, Mode, Screen, Tag};
use crate::window::Window;
use crate::workspace::Workspace;

verus! {

/// A handle is tracked when some live window carries it.
pub open spec fn spec_tracks(s: Seq<Window>, h: u64) -> bool {
    exists|i: int| 0 <= i < s.len() && (#[trigger] s[i]).handle == h
}

/// No two live windows share a handle.
pub open spec fn unique_handles(s: Seq<Window>) -> bool {
    forall|i: int, j: int|
        0 <= i < j < s.len() ==> (#[trigger] s[i]).handle != (#[trigger] s[j]).handle
}

/// The set of live handles.
pub open spec fn handles_of(s: Seq<Window>) -> Set<u64> {
    Set::new(|h: u64| spec_tracks(s, h))
}

/// The tracked window carrying handle `h`; meaningful under
/// `unique_handles` and `spec_tracks`.
pub open spec fn the_window(s: Seq<Window>, h: u64) -> Window {
    s[choose|i: int| 0 <= i < s.len() && (#[trigger] s[i]).handle == h]
}

/// The whole manager state: the authoritative model of the session.
#[verifier::reject_recursive_types(C)]
pub struct Manager<C: Config> {
    pub config: C,
    pub windows: Vec<Window>,
    pub workspaces: Vec<Workspace>,
    pub tags: Vec<Tag>,
    pub screens: Vec<Screen>,
    pub focus_manager: FocusManager,
    pub actions: Vec<DisplayAction>,
    pub active_scratchpads: Vec<(String, u32)>,
    pub mode: Mode,
    pub frame_rate_limitor: u64,
    pub spawn_queue: Vec<String>,
    pub reload_requested: bool,
}

/// The tag list built from the configured labels: tag ids count from 1 in
/// label order, every label is kept, and a configuration without labels
/// still yields one default tag. Only the `u64` id space bounds the list.
pub fn tags_from_labels(labels: Vec<String>) -> (r: Vec<Tag>)
    ensures
        r@.len() >= 1,
        forall|i: int| 0 <= i < r@.len() ==> (#[trigger] r@[i]).id == i + 1,
        labels@.len() == 0 ==> r@.len() == 1,
        labels@.len() > 0 ==> r@.len() == (if labels@.len() < u64::MAX {
            labels@.len() as int
        } else {
            u64::MAX - 1
        }),
        forall|i: int|
            0 <= i < r@.len() && i < labels@.len() ==> (#[trigger] r@[i]).label
                == labels@[i],
{
    let ghost labels0 = labels@;
    let mut labels = labels;
    let mut tags: Vec<Tag> = Vec::new();
    let mut next_id: u64 = 1;
    while labels.len() > 0 && next_id < u64::MAX
        invariant
            next_id == tags@.len() + 1,
            tags@.len() <= labels0.len(),
            labels@ == labels0.skip(tags@.len() as int),
            forall|i: int| 0 <= i < tags@.len() ==> (#[trigger] tags@[i]).id == i + 1,
            forall|i: int|
                0 <= i < tags@.len() ==> (#[trigger] tags@[i]).label == labels0[i],
        decreases labels.len(),
    {
        proof {
            assert(labels@.len() == labels0.len() - tags@.len());
            assert(labels0.skip(tags@.len() as int)[0] == labels0[tags@.len() as int]);
        }
        let ghost consumed = tags@.len() as int;
        let label = labels.remove(0);
        proof {
            assert(labels@ =~= labels0.skip(consumed + 1));
        }
        tags.push(Tag { id: next_id, label });
        next_id += 1;
    }
    proof {
        assert(labels@.len() == labels0.len() - tags@.len());
        if labels0.len() > 0 {
            if labels@.len() == 0 {
                assert(tags@.len() == labels0.len());
                assert(tags@.len() <= u64::MAX - 1);
            } else {
                assert(next_id == u64::MAX);
                assert(tags@.len() == u64::MAX - 1);
                assert(labels0.len() >= u64::MAX);
            }
        }
    }
    if tags.len() == 0 {
        tags.push(Tag { id: 1, label: String::new() });
    }
    tags
}

impl<C: Config> Manager<C> {
    /// The invariants every handler preserves: handles are unique, the
    /// per-tag focus map has unique keys, and the default tags exist.
    pub open spec fn wf(self) -> bool {
        &&& unique_handles(self.windows@)
        &&& tlw_unique(self.focus_manager.tags_last_window@)
        &&& self.tags@.len() >= 1
    }

    /// A fresh manager, its tags and focus policy taken from the
    /// configuration. A configuration without tags still gets one default
    /// tag: the first tag must always exist.
    pub fn new(config: C) -> (r: Manager<C>)
        ensures
            r.wf(),
            r.windows@ == Seq::<Window>::empty(),
            r.workspaces@ == Seq::<Workspace>::empty(),
            r.screens@ == Seq::<Screen>::empty(),
            r.actions@ == Seq::<DisplayAction>::empty(),
            r.spawn_queue@ == Seq::<String>::empty(),
            r.active_scratchpads@ == Seq::<(String, u32)>::empty(),
            r.mode == Mode::Normal,
            r.frame_rate_limitor == 0u64,
            !r.reload_requested,
            r.focus_manager.window_history@ == Seq::<Option<u64>>::empty(),
            r.focus_manager.workspace_history@ == Seq::<usize>::empty(),
            r.focus_manager.tags_last_window@ == Seq::<(u64, u64)>::empty(),
            forall|i: int| 0 <= i < r.tags@.len() ==> (#[trigger] r.tags@[i]).id == i + 1,
    {
        let behaviour = config.focus_behaviour();
        let tags = tags_from_labels(config.get_list_of_tags());
        Manager {
            config,
            windows: Vec::new(),
            workspaces: Vec::new(),
            tags,
            screens: Vec::new(),
            focus_manager: FocusManager::new(behaviour),
            actions: Vec::new(),
            active_scratchpads: Vec::new(),
            mode: Mode::Normal,
            frame_rate_limitor: 0,
            spawn_queue: Vec::new(),
            reload_requested: false,
        }
    }

    /// The workspace the focus history names, when it names one.
    pub open spec fn spec_focused_ws_idx(self) -> Option<int> {
        if self.focus_manager.workspace_history@.len() > 0 && (
        self.focus_manager.workspace_history@[0] as int) < self.workspaces@.len() {
            Some(self.focus_manager.workspace_history@[0] as int)
        } else {
            None
        }
    }

    pub fn focused_workspace_index(&self) -> (r: Option<usize>)
        ensures
            match r {
                Some(i) => self.spec_focused_ws_idx() == Some(i as int),
                None => self.spec_focused_ws_idx() is None,
            },
    {
        if self.focus_manager.workspace_history.len() > 0 {
            let i = self.focus_manager.workspace_history[0];
            if i < self.workspaces.len() {
                return Some(i);
            }
        }
        None
    }

    /// `handle` was already at the head of the focus history.
    pub open spec fn spec_already_focused(self, handle: u64) -> bool {
        self.focus_manager.window_history@.len() > 0
            && self.focus_manager.window_history@[0] == Some(handle)
    }

    /// What a successful or refused focus change does: `r` tells whether
    /// focus moved; when it did, the history gains `handle` at the front and
    /// every tag of the window now names `handle` as its last window.
    pub open spec fn focus_effect(pre: Self, post: Self, handle: u64, r: bool) -> bool {
        let w = the_window(pre.windows@, handle);
        &&& r == (spec_tracks(pre.windows@, handle) && !pre.spec_already_focused(handle))
        &&& if !r {
            post == pre
        } else {
            &&& post == (Manager { focus_manager: post.focus_manager, ..pre })
            &&& post.focus_manager == (FocusManager {
                window_history: post.focus_manager.window_history,
                tags_last_window: post.focus_manager.tags_last_window,
                ..pre.focus_manager
            })
            &&& post.focus_manager.window_history@ == pre.focus_manager.window_history@.insert(
                0,
                Some(handle),
            )
            &&& tlw_unique(post.focus_manager.tags_last_window@)
            &&& forall|q: u64|
                w.tags@.contains(q) ==> post.focus_manager.tags_last_window@.contains(
                    (q, handle),
                )
            &&& forall|q: u64, v: u64|
                !w.tags@.contains(q) ==> (post.focus_manager.tags_last_window@.contains((q, v))
                    <==> pre.focus_manager.tags_last_window@.contains((q, v)))
            &&& forall|q: u64, v: u64|
                w.tags@.contains(q) && post.focus_manager.tags_last_window@.contains((q, v))
                    ==> v == handle
        }
    }

    /// The position of the window carrying `handle` in the window sequence.
    pub fn window_index(&self, handle: u64) -> (r: Option<usize>)
        ensures
            match r {
                Some(i) => i < self.windows@.len() && self.windows@[i as int].handle == handle
                    && forall|j: int|
                    0 <= j < i ==> (#[trigger] self.windows@[j]).handle != handle,
                None => !spec_tracks(self.windows@, handle),
            },
    {
        let mut idx: usize = 0;
        while idx < self.windows.len()
            invariant
                idx <= self.windows@.len(),
                forall|j: int| 0 <= j < idx ==> (#[trigger] self.windows@[j]).handle != handle,
            decreases self.windows.len() - idx,
        {
            if self.windows[idx].handle == handle {
                return Some(idx);
            }
            idx += 1;
        }
        proof {
            if spec_tracks(self.windows@, handle) {
                let i = choose|i: int|
                    0 <= i < self.windows@.len() && (#[trigger] self.windows@[i]).handle
                        == handle;
                assert(false);
            }
        }
        None
    }

    /// Move focus to the window carrying `handle`. Focus does not move when
    /// the handle is unknown or the window is already focused.
    pub fn focus_window(&mut self, handle: u64) -> (r: bool)
        requires
            old(self).wf(),
        ensures
            final(self).wf(),
            Self::focus_effect(*old(self), *final(self), handle, r),
    {
        let ghost pre = *self;
        let found = self.window_index(handle);
        let idx: usize = match found {
            Some(i) => i,
            None => {
                return false;
            },
        };
        proof {
            assert(spec_tracks(pre.windows@, handle));
            let c = choose|i: int|
                0 <= i < pre.windows@.len() && (#[trigger] pre.windows@[i]).handle == handle;
            assert(c == idx as int);
            assert(the_window(pre.windows@, handle) == pre.windows@[idx as int]);
        }
        if self.focus_manager.window_history.len() > 0 {
            let already = match self.focus_manager.window_history[0] {
                Some(h0) => h0 == handle,
                None => false,
            };
            if already {
                return false;
            }
        }
        let tags = clone_tags(&self.windows[idx].tags);
        self.focus_manager.prepend_history(Some(handle));
        let ghost mid = *self;
        let ghost tlw0 = self.focus_manager.tags_last_window@;
        let mut j: usize = 0;
        while j < tags.len()
            invariant
                j <= tags@.len(),
                pre == *old(self),
                pre.wf(),
                mid == (Manager { focus_manager: mid.focus_manager, ..pre }),
                mid.focus_manager == (FocusManager {
                    window_history: mid.focus_manager.window_history,
                    ..pre.focus_manager
                }),
                mid.focus_manager.window_history@ == pre.focus_manager.window_history@.insert(
                    0,
                    Some(handle),
                ),
                tlw0 == mid.focus_manager.tags_last_window@,
                tlw0 == pre.focus_manager.tags_last_window@,
                spec_tracks(pre.windows@, handle),
                !pre.spec_already_focused(handle),
                tags@ == the_window(pre.windows@, handle).tags@,
                tlw_unique(self.focus_manager.tags_last_window@),
                *self == (Manager { focus_manager: self.focus_manager, ..mid }),
                self.focus_manager == (FocusManager {
                    tags_last_window: self.focus_manager.tags_last_window,
                    ..mid.focus_manager
                }),
                forall|jp: int|
                    0 <= jp < j ==> self.focus_manager.tags_last_window@.contains(
                        (#[trigger] tags@[jp], handle),
                    ),
                forall|q: u64, v: u64|
                    (forall|jp: int| 0 <= jp < j ==> #[trigger] tags@[jp] != q) ==> (
                    self.focus_manager.tags_last_window@.contains((q, v)) <==> tlw0.contains(
                        (q, v),
                    )),
                forall|jp: int, v: u64|
                    0 <= jp < j && #[trigger] self.focus_manager.tags_last_window@.contains(
                        (tags@[jp], v),
                    ) ==> v == handle,
            decreases tags.len() - j,
        {
            self.focus_manager.remember_tag(tags[j], handle);
            j += 1;
        }
        proof {
            let w = the_window(pre.windows@, handle);
            let tlw = self.focus_manager.tags_last_window@;
            assert forall|q: u64| w.tags@.contains(q) implies tlw.contains((q, handle)) by {
                let jp = choose|jp: int| 0 <= jp < tags@.len() && tags@[jp] == q;
                assert(tlw.contains((tags@[jp], handle)));
            }
            assert forall|q: u64, v: u64| !w.tags@.contains(q) implies (tlw.contains((q, v))
                <==> tlw0.contains((q, v))) by {
                assert forall|jp: int| 0 <= jp < tags@.len() implies #[trigger] tags@[jp]
                    != q by {
                    assert(w.tags@.contains(tags@[jp]));
                }
            }
            assert forall|q: u64, v: u64| w.tags@.contains(q) && tlw.contains((q, v)) implies v
                == handle by {
                let jp = choose|jp: int| 0 <= jp < tags@.len() && tags@[jp] == q;
            }
        }
        true
    }

    /// What focusing the workspace under a point does: nothing when no
    /// workspace holds the point or it is the focused one already, else the
    /// first matching workspace moves to the head of the workspace history.
    pub open spec fn ws_focus_effect(pre: Self, post: Self, x: int, y: int, r: bool) -> bool {
        &&& (forall|i: int|
            0 <= i < pre.workspaces@.len() ==> !crate::geometry::spec_contains(
                (#[trigger] pre.workspaces@[i]).xyhw,
                x,
                y,
            )) ==> (!r && post == pre)
        &&& (exists|i: int|
            0 <= i < pre.workspaces@.len() && crate::geometry::spec_contains(
                (#[trigger] pre.workspaces@[i]).xyhw,
                x,
                y,
            )) ==> exists|i: int|
            {
                &&& 0 <= i < pre.workspaces@.len()
                &&& crate::geometry::spec_contains(pre.workspaces@[i].xyhw, x, y)
                &&& forall|j: int|
                    0 <= j < i ==> !crate::geometry::spec_contains(
                        (#[trigger] pre.workspaces@[j]).xyhw,
                        x,
                        y,
                    )
                &&& if pre.spec_focused_ws_idx() == Some(i) {
                    !r && post == pre
                } else {
                    &&& r
                    &&& post == (Manager { focus_manager: post.focus_manager, ..pre })
                    &&& post.focus_manager == (FocusManager {
                        workspace_history: post.focus_manager.workspace_history,
                        ..pre.focus_manager
                    })
                    &&& post.focus_manager.workspace_history@
                        == pre.focus_manager.workspace_history@.insert(0, i as usize)
                }
            }
    }

    /// Focus the first workspace whose rectangle holds the point, if it is
    /// not the focused one already.
    pub fn focus_workspace_under_cursor(&mut self, x: i32, y: i32) -> (r: bool)
        requires
            old(self).wf(),
        ensures
            final(self).wf(),
            Self::ws_focus_effect(*old(self), *final(self), x as int, y as int, r),
    {
        let mut i: usize = 0;
        while i < self.workspaces.len()
            invariant
                *self == *old(self),
                old(self).wf(),
                i <= self.workspaces@.len(),
                forall|j: int|
                    0 <= j < i ==> !crate::geometry::spec_contains(
                        (#[trigger] self.workspaces@[j]).xyhw,
                        x as int,
                        y as int,
                    ),
            decreases self.workspaces.len() - i,
        {
            if self.workspaces[i].contains_point(x, y) {
                let focused = self.focused_workspace_index();
                let same = match focused {
                    Some(f) => f == i,
                    None => false,
                };
                if same {
                    return false;
                }
                self.focus_manager.workspace_history.insert(0, i);
                return true;
            }
            i += 1;
        }
        false
    }
}

} // verus!
