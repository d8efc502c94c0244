use vstd::prelude::*;
use crate::config::Config;
use crate::focus::{FocusManager, tlw_without, tlw_unique};
use crate::geometry::{
    Xyhw, clip, half, spec_contains, spec_offset_sub, spec_center_halfed, spec_avoided, half_len,
    sat_sub, sat_add, offset_sub,
};
use crate::helpers::{tags_intersect, intersect, clone_tags, tags_eq};
use crate::manager::{Manager, spec_tracks, unique_handles, handles_of, the_window};
use crate::models::{DisplayAction, FocusBehaviour, Layout, Mode, WindowType};
use crate::window::{Window, WindowChange};
use crate::workspace::Workspace;

verus! {

/// Windows kept by a predicate, in order.
pub open spec fn seq_filter_w(s: Seq<Window>, pred: spec_fn(Window) -> bool) -> Seq<Window>
    decreases s.len(),
{
    if s.len() == 0 {
        Seq::empty()
    } else {
        let rest = seq_filter_w(s.drop_last(), pred);
        if pred(s.last()) {
            rest.push(s.last())
        } else {
            rest
        }
    }
}

/// The predicate "is shown and managed on this workspace".
pub open spec fn managed_pred(ws: Workspace) -> spec_fn(Window) -> bool {
    |w: Window| ws.spec_is_managed(w)
}

/// The predicate "shares a tag with `tags` and takes part in tiling".
pub open spec fn tag_pred(tags: Seq<u64>) -> spec_fn(Window) -> bool {
    |w: Window| tags_intersect(tags, w.tags@) && !w.spec_is_unmanaged()
}

/// The complement of `tag_pred`.
pub open spec fn not_tag_pred(tags: Seq<u64>) -> spec_fn(Window) -> bool {
    |w: Window| !(tags_intersect(tags, w.tags@) && !w.spec_is_unmanaged())
}

/// The predicate "does not carry handle `h`".
pub open spec fn keep_pred(h: u64) -> spec_fn(Window) -> bool {
    |w: Window| w.handle != h
}

/// What a filter keeps: members of the source that satisfy the predicate.
pub proof fn lemma_filter_w(s: Seq<Window>, pred: spec_fn(Window) -> bool)
    ensures
        forall|x: Window|
            #[trigger] seq_filter_w(s, pred).contains(x) ==> s.contains(x) && pred(x),
        forall|x: Window| s.contains(x) && pred(x) ==> seq_filter_w(s, pred).contains(x),
        seq_filter_w(s, pred).len() <= s.len(),
    decreases s.len(),
{
    let t = seq_filter_w(s, pred);
    if s.len() == 0 {
        assert forall|x: Window| !(#[trigger] t.contains(x)) by {
            if t.contains(x) {
                let m = choose|m: int| 0 <= m < t.len() && t[m] == x;
            }
        }
        assert forall|x: Window| !(#[trigger] s.contains(x)) by {
            if s.contains(x) {
                let m = choose|m: int| 0 <= m < s.len() && s[m] == x;
            }
        }
    } else {
        let d = s.drop_last();
        lemma_filter_w(d, pred);
        let rest = seq_filter_w(d, pred);
        assert forall|x: Window| #[trigger] t.contains(x) implies s.contains(x) && pred(x) by {
            let m = choose|m: int| 0 <= m < t.len() && t[m] == x;
            if pred(s.last()) && m == t.len() - 1 {
                assert(s[s.len() - 1] == x);
                assert(s.contains(x));
            } else {
                assert(rest[m] == x);
                assert(rest.contains(x));
                let j = choose|j: int| 0 <= j < d.len() && d[j] == x;
                assert(s[j] == x);
                assert(s.contains(x));
            }
        }
        assert forall|x: Window| s.contains(x) && pred(x) implies #[trigger] t.contains(x) by {
            let j = choose|j: int| 0 <= j < s.len() && s[j] == x;
            if j == s.len() - 1 {
                assert(t[t.len() - 1] == x);
                assert(t.contains(x));
            } else {
                assert(d[j] == x);
                assert(d.contains(x));
                assert(rest.contains(x));
                let m = choose|m: int| 0 <= m < rest.len() && rest[m] == x;
                assert(t[m] == x);
                assert(t.contains(x));
            }
        }
    }
}

/// A filter of a duplicate-free window sequence is duplicate-free.
pub proof fn lemma_filter_w_unique(s: Seq<Window>, pred: spec_fn(Window) -> bool)
    requires
        unique_handles(s),
    ensures
        unique_handles(seq_filter_w(s, pred)),
    decreases s.len(),
{
    let t = seq_filter_w(s, pred);
    if s.len() > 0 {
        let d = s.drop_last();
        assert(unique_handles(d)) by {
            assert forall|a: int, b: int| 0 <= a < b < d.len() implies (
            #[trigger] d[a]).handle != (#[trigger] d[b]).handle by {
                assert(s[a].handle != s[b].handle);
            }
        }
        lemma_filter_w_unique(d, pred);
        lemma_filter_w(d, pred);
        let rest = seq_filter_w(d, pred);
        assert forall|a: int, b: int| 0 <= a < b < t.len() implies (#[trigger] t[a]).handle != (
        #[trigger] t[b]).handle by {
            if pred(s.last()) && b == t.len() - 1 {
                assert(rest.contains(rest[a]));
                assert(d.contains(rest[a]));
                let j = choose|j: int| 0 <= j < d.len() && d[j] == rest[a];
                assert(s[j] == rest[a]);
                assert(s[j].handle != s[s.len() - 1].handle);
            } else {
                assert(t[a] == rest[a] && t[b] == rest[b]);
                assert(rest[a].handle != rest[b].handle);
            }
        }
    }
}

/// A partition of a duplicate-free sequence, reassembled around one fresh
/// window, stays duplicate-free wherever the fresh window stands.
pub proof fn lemma_rebuild_unique(base: Seq<Window>, tags: Seq<u64>, w: Window)
    requires
        unique_handles(base),
        !spec_tracks(base, w.handle),
    ensures
        unique_handles(
            seq_filter_w(base, not_tag_pred(tags)) + (seq![w] + seq_filter_w(
                base,
                tag_pred(tags),
            )),
        ),
        seq_filter_w(base, tag_pred(tags)).len() > 0 ==> unique_handles(
            seq_filter_w(base, not_tag_pred(tags)) + (seq![
                seq_filter_w(base, tag_pred(tags))[0],
                w,
            ] + seq_filter_w(base, tag_pred(tags)).drop_first()),
        ),
{
    let grp = seq_filter_w(base, tag_pred(tags));
    let rest = seq_filter_w(base, not_tag_pred(tags));
    lemma_filter_w(base, tag_pred(tags));
    lemma_filter_w(base, not_tag_pred(tags));
    lemma_filter_w_unique(base, tag_pred(tags));
    lemma_filter_w_unique(base, not_tag_pred(tags));
    assert forall|x: Window| base.contains(x) implies x.handle != w.handle by {
        let j = choose|j: int| 0 <= j < base.len() && base[j] == x;
    }
    // any member of rest and any member of grp differ in handle
    assert forall|a: int, b: int|
        0 <= a < rest.len() && 0 <= b < grp.len() implies (#[trigger] rest[a]).handle != (
    #[trigger] grp[b]).handle by {
        assert(rest.contains(rest[a]));
        assert(grp.contains(grp[b]));
        let i = choose|i: int| 0 <= i < base.len() && base[i] == rest[a];
        let j = choose|j: int| 0 <= j < base.len() && base[j] == grp[b];
        if i == j {
            assert(tag_pred(tags)(grp[b]));
            assert(not_tag_pred(tags)(rest[a]));
        } else if i < j {
            assert(base[i].handle != base[j].handle);
        } else {
            assert(base[j].handle != base[i].handle);
        }
    }
    assert forall|a: int| 0 <= a < rest.len() implies (#[trigger] rest[a]).handle
        != w.handle by {
        assert(rest.contains(rest[a]));
    }
    assert forall|b: int| 0 <= b < grp.len() implies (#[trigger] grp[b]).handle != w.handle by {
        assert(grp.contains(grp[b]));
    }
    let c1 = rest + (seq![w] + grp);
    assert forall|i: int, j: int| 0 <= i < j < c1.len() implies (#[trigger] c1[i]).handle != (
    #[trigger] c1[j]).handle by {
        let rl = rest.len() as int;
        if i < rl && j < rl {
            assert(c1[i] == rest[i] && c1[j] == rest[j]);
        } else if i < rl && j == rl {
            assert(c1[i] == rest[i] && c1[j] == w);
        } else if i < rl {
            assert(c1[i] == rest[i] && c1[j] == grp[j - rl - 1]);
        } else if i == rl {
            assert(c1[i] == w && c1[j] == grp[j - rl - 1]);
        } else {
            assert(c1[i] == grp[i - rl - 1] && c1[j] == grp[j - rl - 1]);
        }
    }
    if grp.len() > 0 {
        let c2 = rest + (seq![grp[0], w] + grp.drop_first());
        assert forall|i: int, j: int| 0 <= i < j < c2.len() implies (#[trigger] c2[i]).handle
            != (#[trigger] c2[j]).handle by {
            let rl = rest.len() as int;
            let g0 = grp[0];
            assert(forall|k: int| 0 <= k < grp.drop_first().len() ==> #[trigger] grp.drop_first()[k]
                == grp[k + 1]);
            if i < rl {
                assert(c2[i] == rest[i]);
            } else if i == rl {
                assert(c2[i] == grp[0]);
            } else if i == rl + 1 {
                assert(c2[i] == w);
            } else {
                assert(c2[i] == grp[i - rl - 1]);
            }
            if j < rl {
                assert(c2[j] == rest[j]);
            } else if j == rl {
                assert(c2[j] == grp[0]);
            } else if j == rl + 1 {
                assert(c2[j] == w);
            } else {
                assert(c2[j] == grp[j - rl - 1]);
            }
        }
    }
}

impl<C: Config> Manager<C> {
    /// The window carries the process id of a spawned scratchpad program.
    pub open spec fn spec_is_scratchpad(self, w: Window) -> bool {
        exists|i: int|
            0 <= i < self.active_scratchpads@.len() && w.pid == Some(
                (#[trigger] self.active_scratchpads@[i]).1,
            )
    }
}

/// Whether the window belongs to one of the manager's active scratchpads.
pub fn is_scratchpad<C: Config>(manager: &Manager<C>, window: &Window) -> (r: bool)
    ensures
        r == manager.spec_is_scratchpad(*window),
{
    let mut i: usize = 0;
    while i < manager.active_scratchpads.len()
        invariant
            i <= manager.active_scratchpads@.len(),
            forall|j: int|
                0 <= j < i ==> window.pid != Some(
                    (#[trigger] manager.active_scratchpads@[j]).1,
                ),
        decreases manager.active_scratchpads.len() - i,
    {
        let matches_pid = match window.pid {
            Some(p) => p == manager.active_scratchpads[i].1,
            None => false,
        };
        if matches_pid {
            return true;
        }
        i += 1;
    }
    false
}

/// The tracked window with the given handle, when one exists; `None` is
/// "already gone", never an error.
pub open spec fn spec_find(s: Seq<Window>, h: u64) -> Option<Window> {
    if spec_tracks(s, h) {
        Some(the_window(s, h))
    } else {
        None
    }
}

pub fn find_window<'w, C: Config>(manager: &'w Manager<C>, handle: u64) -> (r: Option<
    &'w Window,
>)
    requires
        manager.wf(),
    ensures
        match r {
            Some(w) => spec_find(manager.windows@, handle) == Some(*w),
            None => spec_find(manager.windows@, handle) is None,
        },
{
    match manager.window_index(handle) {
        Some(i) => {
            proof {
                let c = choose|k: int|
                    0 <= k < manager.windows@.len() && (#[trigger] manager.windows@[k]).handle
                        == handle;
                assert(c == i as int);
            }
            Some(&manager.windows[i])
        },
        None => None,
    }
}

/// The root of a transient chain, found by following `transient` links;
/// `fuel` bounds the walk so that a malformed cyclic chain ends in `None`
/// instead of never ending.
pub open spec fn spec_resolve_rec(s: Seq<Window>, cur: Window, fuel: nat) -> Option<Window>
    decreases fuel,
{
    match cur.transient {
        None => Some(cur),
        Some(h) => {
            if fuel == 0 {
                None
            } else {
                match spec_find(s, h) {
                    None => None,
                    Some(p) => spec_resolve_rec(s, p, (fuel - 1) as nat),
                }
            }
        },
    }
}

/// The resolved transient parent of `w`: the end of the chain starting at
/// `w.transient`, or `None` when `w` is not transient or a link is missing.
pub open spec fn spec_resolve(s: Seq<Window>, w: Window) -> Option<Window> {
    match w.transient {
        None => None,
        Some(h) => {
            match spec_find(s, h) {
                None => None,
                Some(p) => spec_resolve_rec(s, p, s.len()),
            }
        },
    }
}

/// Walk the transient chain of `window` to its root. The walk is bounded by
/// the number of tracked windows: the chain is expected to be acyclic, and a
/// cyclic one gives `None` rather than looping forever.
pub fn find_transient_parent<'w, C: Config>(manager: &'w Manager<C>, window: &Window) -> (r:
    Option<&'w Window>)
    requires
        manager.wf(),
    ensures
        match r {
            Some(p) => spec_resolve(manager.windows@, *window) == Some(*p),
            None => spec_resolve(manager.windows@, *window) is None,
        },
{
    let h = match window.transient {
        Some(h) => h,
        None => {
            return None;
        },
    };
    let mut cur: &Window = match find_window(manager, h) {
        Some(p) => p,
        None => {
            return None;
        },
    };
    let mut fuel: usize = manager.windows.len();
    while cur.transient.is_some()
        invariant
            manager.wf(),
            fuel <= manager.windows@.len(),
            spec_resolve(manager.windows@, *window) == spec_resolve_rec(
                manager.windows@,
                *cur,
                fuel as nat,
            ),
        decreases fuel,
    {
        let h2 = match cur.transient {
            Some(h2) => h2,
            None => {
                return None;
            },
        };
        if fuel == 0 {
            return None;
        }
        cur = match find_window(manager, h2) {
            Some(p) => p,
            None => {
                return None;
            },
        };
        fuel -= 1;
    }
    Some(cur)
}


/// A workspace under the cursor counts only while the focus policy is
/// pointer-driven.
pub open spec fn sloppy_ws_at<C: Config>(m: Manager<C>, i: int, x: int, y: int) -> bool {
    &&& 0 <= i < m.workspaces@.len()
    &&& spec_contains(m.workspaces@[i].xyhw, x, y)
    &&& m.focus_manager.behaviour == FocusBehaviour::Sloppy
}

/// The first workspace whose rectangle holds the cursor, under Sloppy focus.
pub fn sloppy_ws_index<C: Config>(manager: &Manager<C>, x: i32, y: i32) -> (r: Option<usize>)
    ensures
        match r {
            Some(i) => sloppy_ws_at(*manager, i as int, x as int, y as int) && forall|j: int|
                0 <= j < i ==> !sloppy_ws_at(*manager, j, x as int, y as int),
            None => forall|j: int| !sloppy_ws_at(*manager, j, x as int, y as int),
        },
{
    if !matches!(manager.focus_manager.behaviour, FocusBehaviour::Sloppy) {
        return None;
    }
    let mut i: usize = 0;
    while i < manager.workspaces.len()
        invariant
            manager.focus_manager.behaviour == FocusBehaviour::Sloppy,
            i <= manager.workspaces@.len(),
            forall|j: int|
                0 <= j < i ==> !spec_contains(
                    (#[trigger] manager.workspaces@[j]).xyhw,
                    x as int,
                    y as int,
                ),
        decreases manager.workspaces.len() - i,
    {
        if manager.workspaces[i].contains_point(x, y) {
            return Some(i);
        }
        i += 1;
    }
    None
}

/// Whether some tracked window is tiled on one of these tags.
pub fn exists_tagged<C: Config>(manager: &Manager<C>, tags: &Vec<u64>) -> (r: bool)
    ensures
        r == exists|k: int|
            0 <= k < manager.windows@.len() && tags_intersect(
                tags@,
                (#[trigger] manager.windows@[k]).tags@,
            ) && !manager.windows@[k].spec_is_unmanaged(),
{
    let mut k: usize = 0;
    while k < manager.windows.len()
        invariant
            k <= manager.windows@.len(),
            forall|j: int|
                0 <= j < k ==> !(tags_intersect(tags@, (#[trigger] manager.windows@[j]).tags@)
                    && !manager.windows@[j].spec_is_unmanaged()),
        decreases manager.windows.len() - k,
    {
        if intersect(tags, &manager.windows[k].tags) && !manager.windows[k].is_unmanaged() {
            return true;
        }
        k += 1;
    }
    false
}

/// How a window is placed once its workspace is decided, before any
/// transient parent overrides the geometry: it takes the workspace's tags
/// (a scratchpad additionally the reserved hidden tag); dialog, splash and
/// scratchpad windows float centered at half size; a splash window keeps a
/// client-requested geometry instead; a normal window records the
/// workspace's margin multiplier.
pub open spec fn setup_on_ws(ws: Workspace, w0: Window, w1: Window, is_scratch: bool) -> bool {
    &&& w1.handle == w0.handle
    &&& w1.transient == w0.transient
    &&& w1.pid == w0.pid
    &&& w1.type_ == w0.type_
    &&& w1.border == w0.border
    &&& w1.strut == w0.strut
    &&& w1.requested == w0.requested
    &&& w1.start_loc == w0.start_loc
    &&& w1.fullscreen == w0.fullscreen
    &&& w1.tags@ == if is_scratch && !ws.tags@.contains(crate::models::NSP_TAG) {
        ws.tags@.push(crate::models::NSP_TAG)
    } else {
        ws.tags@
    }
    &&& w1.margin_multiplier == if w0.type_ == WindowType::Normal {
        ws.margin_multiplier
    } else {
        w0.margin_multiplier
    }
    &&& if w0.type_ == WindowType::Splash && w0.requested is Some {
        &&& w1.floating
        &&& w1.normal == ws.xyhw
        &&& w1.floating_offsets == Some(
            crate::geometry::spec_centered_of(ws.xyhw, w0.requested->0),
        )
    } else if is_scratch || w0.type_ == WindowType::Dialog || w0.type_ == WindowType::Splash {
        &&& w1.floating
        &&& w1.normal == ws.xyhw
        &&& w1.floating_offsets == Some(spec_offset_sub(spec_center_halfed(ws.xyhw), ws.xyhw))
    } else {
        &&& w1.floating == w0.floating
        &&& w1.floating_offsets == w0.floating_offsets
        &&& w1.normal == w0.normal
    }
}

/// How a window is placed when no workspace matches: it gets the first tag,
/// and a scratchpad additionally gets the reserved hidden tag and floats.
pub open spec fn setup_fallback<C: Config>(
    m: Manager<C>,
    w0: Window,
    w1: Window,
    is_scratch: bool,
) -> bool {
    let first = m.tags@[0].id;
    &&& w1.handle == w0.handle
    &&& w1.transient == w0.transient
    &&& w1.pid == w0.pid
    &&& w1.type_ == w0.type_
    &&& w1.border == w0.border
    &&& w1.strut == w0.strut
    &&& w1.requested == w0.requested
    &&& w1.start_loc == w0.start_loc
    &&& w1.fullscreen == w0.fullscreen
    &&& w1.normal == w0.normal
    &&& w1.margin_multiplier == w0.margin_multiplier
    &&& w1.tags@ == if is_scratch && first != crate::models::NSP_TAG {
        seq![first, crate::models::NSP_TAG]
    } else {
        seq![first]
    }
    &&& if is_scratch {
        &&& w1.floating
        &&& w1.floating_offsets == if w0.floating_offsets is None {
            Some(Xyhw { x: 0, y: 0, w: 0, h: 0 })
        } else {
            w0.floating_offsets
        }
    } else {
        &&& w1.floating == w0.floating
        &&& w1.floating_offsets == w0.floating_offsets
    }
}

/// A transient window is centered over its resolved root ancestor and
/// floats; without a resolvable parent it is left as it stands.
pub open spec fn transient_override(s: Seq<Window>, wmid: Window, w1: Window) -> bool {
    match spec_resolve(s, wmid) {
        None => w1 == wmid,
        Some(parent) => {
            &&& w1 == (Window {
                floating: true,
                floating_offsets: w1.floating_offsets,
                normal: parent.normal,
                ..wmid
            })
            &&& w1.floating_offsets == Some(
                spec_offset_sub(
                    spec_center_halfed(parent.spec_calculated_xyhw()),
                    parent.normal,
                ),
            )
        },
    }
}

/// Everything `setup_window` decides once a workspace is chosen.
pub open spec fn ws_setup_outcome<C: Config>(
    m: Manager<C>,
    ws: Workspace,
    w0: Window,
    w1: Window,
    l1: Layout,
    f1: bool,
    is_scratch: bool,
) -> bool {
    &&& exists|wmid: Window|
        #[trigger] setup_on_ws(ws, w0, wmid, is_scratch) && transient_override(
            m.windows@,
            wmid,
            w1,
        )
    &&& l1 == ws.layout
    &&& f1 == !(exists|k: int|
        0 <= k < m.windows@.len() && tags_intersect(
            ws.tags@,
            (#[trigger] m.windows@[k]).tags@,
        ) && !m.windows@[k].spec_is_unmanaged())
}

/// Everything `setup_window` decides for a fresh window during a create:
/// the placed window `w1`, the layout `l1` that then guides insertion
/// (`MainAndVertStack` when no workspace matched), and whether the window
/// is the first managed one on its workspace's tags.
pub open spec fn created_placement<C: Config>(
    pre: Manager<C>,
    w0: Window,
    x: int,
    y: int,
    scratch: bool,
    w1: Window,
    l1: Layout,
    f1: bool,
) -> bool {
    if exists|i: int| sloppy_ws_at(pre, i, x, y) {
        exists|i: int|
            {
                &&& #[trigger] sloppy_ws_at(pre, i, x, y)
                &&& forall|j: int| 0 <= j < i ==> !sloppy_ws_at(pre, j, x, y)
                &&& ws_setup_outcome(pre, pre.workspaces@[i], w0, w1, l1, f1, scratch)
            }
    } else if pre.spec_focused_ws_idx() is Some {
        ws_setup_outcome(
            pre,
            pre.workspaces@[pre.spec_focused_ws_idx()->0],
            w0,
            w1,
            l1,
            f1,
            scratch,
        )
    } else {
        &&& exists|wmid: Window|
            #[trigger] setup_fallback(pre, w0, wmid, scratch) && transient_override(
                pre.windows@,
                wmid,
                w1,
            )
        &&& l1 == Layout::MainAndVertStack
        &&& f1 == false
    }
}

/// Decide the new window's workspace, tags, layout and geometry. The
/// workspace under the cursor wins under Sloppy focus, then the focused
/// workspace; with neither, the window gets the first tag. A transient
/// window is then centered over its resolved parent, floating.
pub fn setup_window<C: Config>(
    manager: &mut Manager<C>,
    window: &mut Window,
    x: i32,
    y: i32,
    is_scratchpad_flag: bool,
    layout: &mut Layout,
    is_first: &mut bool,
)
    requires
        old(manager).wf(),
    ensures
        *final(manager) == *old(manager),
        final(window).handle == old(window).handle,
        ({
            let m = *old(manager);
            let w0 = *old(window);
            if exists|i: int| sloppy_ws_at(m, i, x as int, y as int) {
                exists|i: int|
                    {
                        &&& #[trigger] sloppy_ws_at(m, i, x as int, y as int)
                        &&& forall|j: int| 0 <= j < i ==> !sloppy_ws_at(m, j, x as int, y as int)
                        &&& ws_setup_outcome(
                            m,
                            m.workspaces@[i],
                            w0,
                            *final(window),
                            *final(layout),
                            *final(is_first),
                            is_scratchpad_flag,
                        )
                    }
            } else if m.spec_focused_ws_idx() is Some {
                ws_setup_outcome(
                    m,
                    m.workspaces@[m.spec_focused_ws_idx()->0],
                    w0,
                    *final(window),
                    *final(layout),
                    *final(is_first),
                    is_scratchpad_flag,
                )
            } else {
                &&& exists|wmid: Window|
                    #[trigger] setup_fallback(m, w0, wmid, is_scratchpad_flag)
                        && transient_override(m.windows@, wmid, *final(window))
                &&& *final(layout) == *old(layout)
                &&& *final(is_first) == *old(is_first)
            }
        }),
{
    let ws_idx = match sloppy_ws_index(manager, x, y) {
        Some(i) => Some(i),
        None => manager.focused_workspace_index(),
    };
    match ws_idx {
        Some(wsi) => {
            let ws_tags = clone_tags(&manager.workspaces[wsi].tags);
            let ws_xyhw = manager.workspaces[wsi].xyhw;
            let ws_layout = manager.workspaces[wsi].layout;
            let ws_margin = manager.workspaces[wsi].margin_multiplier;
            *is_first = !exists_tagged(manager, &ws_tags);
            window.tags = ws_tags;
            if is_scratchpad_flag {
                window.tag(crate::models::NSP_TAG);
            }
            *layout = ws_layout;
            if is_scratchpad_flag {
                window.set_floating(true);
                window.normal = ws_xyhw;
                let exact = ws_xyhw.center_halfed();
                window.set_floating_exact(exact);
            }
            if matches!(window.type_, WindowType::Normal) {
                window.apply_margin_multiplier(ws_margin);
            }
            if matches!(window.type_, WindowType::Dialog) {
                window.set_floating(true);
                window.normal = ws_xyhw;
                let exact = ws_xyhw.center_halfed();
                window.set_floating_exact(exact);
            }
            if matches!(window.type_, WindowType::Splash) {
                match window.requested {
                    Some(req) => {
                        window.normal = ws_xyhw;
                        window.set_floating(true);
                        let off = crate::geometry::centered_of(&ws_xyhw, &req);
                        window.set_floating_offsets(Some(off));
                    },
                    None => {
                        window.set_floating(true);
                        window.normal = ws_xyhw;
                        let exact = ws_xyhw.center_halfed();
                        window.set_floating_exact(exact);
                    },
                }
            }
        },
        None => {
            let first = manager.tags[0].id;
            let mut t: Vec<u64> = Vec::new();
            t.push(first);
            window.tags = t;
            if is_scratchpad_flag {
                window.tag(crate::models::NSP_TAG);
                window.set_floating(true);
            }
        },
    }
    let ghost wmid = *window;
    let parent_geom: Option<(Xyhw, Xyhw)> = match find_transient_parent(manager, window) {
        Some(p) => Some((p.normal, p.calculated_xyhw())),
        None => None,
    };
    match parent_geom {
        Some((pn, pc)) => {
            window.set_floating(true);
            window.normal = pn;
            let exact = pc.center_halfed();
            window.set_floating_exact(exact);
        },
        None => {},
    }
    proof {
        let m = *old(manager);
        let w0 = *old(window);
        if ws_idx is Some {
            let ws = m.workspaces@[ws_idx->0 as int];
            assert(setup_on_ws(ws, w0, wmid, is_scratchpad_flag));
            assert(transient_override(m.windows@, wmid, *window));
        } else {
            assert(seq![m.tags@[0].id].contains(crate::models::NSP_TAG) == (m.tags@[0].id
                == crate::models::NSP_TAG)) by {
                if seq![m.tags@[0].id].contains(crate::models::NSP_TAG) {
                    let k = choose|k: int|
                        0 <= k < 1 && seq![m.tags@[0].id][k] == crate::models::NSP_TAG;
                }
                if m.tags@[0].id == crate::models::NSP_TAG {
                    assert(seq![m.tags@[0].id][0] == crate::models::NSP_TAG);
                }
            }
            let first = m.tags@[0].id;
            assert(Seq::<u64>::empty().push(first) =~= seq![first]);
            assert(seq![first].push(crate::models::NSP_TAG) =~= seq![
                first,
                crate::models::NSP_TAG,
            ]);
            assert(setup_fallback(m, w0, wmid, is_scratchpad_flag));
            assert(transient_override(m.windows@, wmid, *window));
        }
    }
}


/// `w` with the fullscreen flag flipped, as `toggle_fullscreen` leaves it.
pub open spec fn fs_toggled(w: Window) -> Window {
    Window { fullscreen: !w.fullscreen, ..w }
}

/// Position `i` holds a fullscreen window tiled on one of `tags`.
pub open spec fn fs_match(s: Seq<Window>, tags: Seq<u64>, i: int) -> bool {
    &&& 0 <= i < s.len()
    &&& tags_intersect(tags, s[i].tags@)
    &&& !s[i].spec_is_unmanaged()
    &&& s[i].fullscreen
}

/// The first fullscreen window sharing one of these tags.
fn find_fs_index<C: Config>(manager: &Manager<C>, tags: &Vec<u64>) -> (r: Option<usize>)
    ensures
        match r {
            Some(i) => fs_match(manager.windows@, tags@, i as int) && forall|j: int|
                0 <= j < i ==> !fs_match(manager.windows@, tags@, j),
            None => forall|j: int| !fs_match(manager.windows@, tags@, j),
        },
{
    let mut k: usize = 0;
    while k < manager.windows.len()
        invariant
            k <= manager.windows@.len(),
            forall|j: int| 0 <= j < k ==> !fs_match(manager.windows@, tags@, j),
        decreases manager.windows.len() - k,
    {
        if intersect(tags, &manager.windows[k].tags) && !manager.windows[k].is_unmanaged()
            && manager.windows[k].is_fullscreen() {
            return Some(k);
        }
        k += 1;
    }
    None
}

/// Where the new window lands in the stacking order, starting from the
/// window sequence `base` and queued actions `acts` left after the
/// fullscreen check: under Monocle (or an empty MainAndDeck group) the new
/// window leads its tag group, which moves to the back of the global order,
/// and inherits fullscreen if a window gave it up; under MainAndDeck it
/// becomes stack-second; dialog, splash and scratchpad windows go to the
/// front of the global order; all else appends at the back.
pub open spec fn insert_outcome(
    base: Seq<Window>,
    acts: Seq<DisplayAction>,
    was_fs: bool,
    w: Window,
    scratch: bool,
    layout: Layout,
    s1: Seq<Window>,
    a1: Seq<DisplayAction>,
) -> bool {
    if (layout == Layout::Monocle || layout == Layout::MainAndDeck) && w.type_
        == WindowType::Normal {
        let grp = seq_filter_w(base, tag_pred(w.tags@));
        let rest = seq_filter_w(base, not_tag_pred(w.tags@));
        if layout == Layout::Monocle || grp.len() == 0 {
            let w2 = if was_fs {
                fs_toggled(w)
            } else {
                w
            };
            &&& s1 == rest + (seq![w2] + grp)
            &&& a1 == if was_fs {
                acts.push(DisplayAction::SetFullScreen(w.handle, !w.fullscreen))
            } else {
                acts
            }
        } else {
            &&& s1 == rest + (seq![grp[0], w] + grp.drop_first())
            &&& a1 == acts
        }
    } else if w.type_ == WindowType::Dialog || w.type_ == WindowType::Splash || scratch {
        s1 == seq![w] + base && a1 == acts
    } else {
        s1 == base.push(w) && a1 == acts
    }
}

/// Everything `insert_window` does to the window sequence and the action
/// queue: the first fullscreen window sharing a tag (if any) gives its
/// state up, with the action queued, and the newcomer is then placed by
/// `insert_outcome`.
pub open spec fn inserted(
    s0: Seq<Window>,
    a0: Seq<DisplayAction>,
    w: Window,
    scratch: bool,
    layout: Layout,
    s1: Seq<Window>,
    a1: Seq<DisplayAction>,
) -> bool {
    if exists|i: int| fs_match(s0, w.tags@, i) {
        exists|fsi: int|
            {
                &&& #[trigger] fs_match(s0, w.tags@, fsi)
                &&& forall|j: int| 0 <= j < fsi ==> !fs_match(s0, w.tags@, j)
                &&& insert_outcome(
                    s0.update(fsi, fs_toggled(s0[fsi])),
                    a0.push(DisplayAction::SetFullScreen(s0[fsi].handle, !s0[fsi].fullscreen)),
                    true,
                    w,
                    scratch,
                    layout,
                    s1,
                    a1,
                )
            }
    } else {
        insert_outcome(s0, a0, false, w, scratch, layout, s1, a1)
    }
}

/// Insert a new window into the global stacking order, un-fullscreening a
/// window that already holds the tag (the newcomer inherits the fullscreen
/// under Monocle).
#[verifier::rlimit(80)]
pub fn insert_window<C: Config>(
    manager: &mut Manager<C>,
    window: Window,
    is_scratchpad_flag: bool,
    layout: Layout,
)
    requires
        old(manager).wf(),
        !spec_tracks(old(manager).windows@, window.handle),
    ensures
        final(manager).wf(),
        *final(manager) == (Manager {
            windows: final(manager).windows,
            actions: final(manager).actions,
            ..*old(manager)
        }),
        handles_of(final(manager).windows@) == handles_of(old(manager).windows@).insert(
            window.handle,
        ),
        inserted(
            old(manager).windows@,
            old(manager).actions@,
            window,
            is_scratchpad_flag,
            layout,
            final(manager).windows@,
            final(manager).actions@,
        ),
{
    let ghost s0 = manager.windows@;
    let tags = clone_tags(&window.tags);
    let fs_idx = find_fs_index(manager, &tags);
    let mut was_fullscreen = false;
    if let Some(i) = fs_idx {
        let mut fsw = manager.windows.remove(i);
        let act = fsw.toggle_fullscreen();
        manager.windows.insert(i, fsw);
        manager.actions.push(act);
        was_fullscreen = true;
        proof {
            assert(manager.windows@ =~= s0.update(i as int, fs_toggled(s0[i as int])));
        }
    }
    let ghost base = manager.windows@;
    let ghost acts = manager.actions@;
    proof {
        assert forall|h2: u64| spec_tracks(base, h2) == spec_tracks(s0, h2) by {
            if spec_tracks(base, h2) {
                let i = choose|i: int|
                    0 <= i < base.len() && (#[trigger] base[i]).handle == h2;
                assert(s0[i].handle == h2);
            }
            if spec_tracks(s0, h2) {
                let i = choose|i: int| 0 <= i < s0.len() && (#[trigger] s0[i]).handle == h2;
                assert(base[i].handle == h2);
            }
        }
        assert(unique_handles(base)) by {
            assert forall|a: int, b: int| 0 <= a < b < base.len() implies (
            #[trigger] base[a]).handle != (#[trigger] base[b]).handle by {
                assert(s0[a].handle != s0[b].handle);
            }
        }
    }
    let is_stack_layout = matches!(layout, Layout::Monocle) || matches!(
        layout,
        Layout::MainAndDeck,
    );
    if is_stack_layout && matches!(window.type_, WindowType::Normal) {
        let mut grp: Vec<Window> = Vec::new();
        let mut rest: Vec<Window> = Vec::new();
        proof {
            assert(base.take(0) =~= Seq::<Window>::empty());
        }
        let mut k: usize = 0;
        let n = manager.windows.len();
        while k < n
            invariant
                n == base.len(),
                k <= n,
                tags@ == window.tags@,
                *manager == (Manager {
                    windows: manager.windows,
                    actions: manager.actions,
                    ..*old(manager)
                }),
                manager.actions@ == acts,
                manager.windows@ == base.skip(k as int),
                grp@ == seq_filter_w(base.take(k as int), tag_pred(tags@)),
                rest@ == seq_filter_w(base.take(k as int), not_tag_pred(tags@)),
            decreases n - k,
        {
            proof {
                assert(base.take(k as int + 1).drop_last() =~= base.take(k as int));
                assert(base.take(k as int + 1).last() == base[k as int]);
                assert(base.skip(k as int)[0] == base[k as int]);
            }
            let w = manager.windows.remove(0);
            proof {
                assert(manager.windows@ =~= base.skip(k as int + 1));
            }
            if intersect(&tags, &w.tags) && !w.is_unmanaged() {
                proof {
                    assert(tag_pred(tags@)(base[k as int]));
                    assert(!(not_tag_pred(tags@)(base[k as int])));
                }
                grp.push(w);
            } else {
                proof {
                    assert(!(tag_pred(tags@)(base[k as int])));
                    assert(not_tag_pred(tags@)(base[k as int]));
                }
                rest.push(w);
            }
            k += 1;
        }
        proof {
            assert(base.take(base.len() as int) =~= base);
        }
        let ghost grp0 = grp@;
        let mut w2 = window;
        if matches!(layout, Layout::Monocle) || grp.len() == 0 {
            if was_fullscreen {
                let act = w2.toggle_fullscreen();
                manager.actions.push(act);
            }
            grp.insert(0, w2);
            proof {
                assert(grp@ =~= seq![if was_fullscreen {
                    fs_toggled(window)
                } else {
                    window
                }] + grp0);
            }
        } else {
            grp.insert(1, w2);
            proof {
                assert(grp@ =~= seq![grp0[0], window] + grp0.drop_first());
            }
        }
        let ghost restn = rest@;
        let ghost grpn = grp@;
        manager.windows.append(&mut rest);
        manager.windows.append(&mut grp);
        proof {
            let n = base.len() as int;
            assert(base.skip(n) =~= Seq::<Window>::empty());
            let tagseq = window.tags@;
            let g = seq_filter_w(base, tag_pred(tagseq));
            let rst = seq_filter_w(base, not_tag_pred(tagseq));
            assert(grp0 == g);
            assert(restn == rst);
            let s1 = manager.windows@;
            assert(s1 =~= restn + grpn);
            let mono_front = matches!(layout, Layout::Monocle) || g.len() == 0;
            let w2v = if was_fullscreen && mono_front {
                fs_toggled(window)
            } else {
                window
            };
            if mono_front {
                assert(s1 == rst + (seq![w2v] + g));
            } else {
                assert(s1 == rst + (seq![g[0], window] + g.drop_first()));
            }
            lemma_rebuild_unique(base, tagseq, window);
            lemma_rebuild_unique(base, tagseq, fs_toggled(window));
            lemma_filter_w(base, tag_pred(tagseq));
            lemma_filter_w(base, not_tag_pred(tagseq));
            assert forall|h2: u64| spec_tracks(s1, h2) == (spec_tracks(base, h2) || h2
                == window.handle) by {
                if spec_tracks(s1, h2) {
                    let i = choose|i: int|
                        0 <= i < s1.len() && (#[trigger] s1[i]).handle == h2;
                    if s1[i].handle != window.handle {
                        if i < rst.len() {
                            assert(rst.contains(s1[i]));
                            let j = choose|j: int| 0 <= j < base.len() && base[j] == s1[i];
                            assert(spec_tracks(base, h2));
                        } else {
                            let x = s1[i];
                            assert(g.contains(x)) by {
                                if mono_front {
                                    assert(x == g[i - rst.len() - 1]);
                                } else {
                                    if i == rst.len() {
                                        assert(x == g[0]);
                                    } else {
                                        assert(x == g[i - rst.len() - 1]);
                                    }
                                }
                            }
                            let j = choose|j: int| 0 <= j < base.len() && base[j] == x;
                            assert(spec_tracks(base, h2));
                        }
                    }
                }
                if spec_tracks(base, h2) {
                    let i = choose|i: int|
                        0 <= i < base.len() && (#[trigger] base[i]).handle == h2;
                    let x = base[i];
                    assert(base.contains(x));
                    if tag_pred(tagseq)(x) {
                        assert(g.contains(x));
                        let m = choose|m: int| 0 <= m < g.len() && g[m] == x;
                        if mono_front {
                            assert(s1[rst.len() as int + 1 + m] == x);
                        } else {
                            if m == 0 {
                                assert(s1[rst.len() as int] == x);
                            } else {
                                assert(s1[rst.len() as int + 1 + m] == x);
                            }
                        }
                        assert(spec_tracks(s1, h2));
                    } else {
                        assert(not_tag_pred(tagseq)(x));
                        assert(rst.contains(x));
                        let m = choose|m: int| 0 <= m < rst.len() && rst[m] == x;
                        assert(s1[m] == x);
                        assert(spec_tracks(s1, h2));
                    }
                }
                if h2 == window.handle {
                    if mono_front {
                        assert(s1[rst.len() as int].handle == window.handle);
                    } else {
                        assert(s1[rst.len() as int + 1].handle == window.handle);
                    }
                }
            }
            assert(handles_of(s1) =~= handles_of(s0).insert(window.handle));
        }
    } else if matches!(window.type_, WindowType::Dialog) || matches!(
        window.type_,
        WindowType::Splash,
    ) || is_scratchpad_flag {
        manager.windows.insert(0, window);
        proof {
            let s1 = manager.windows@;
            assert(s1 =~= seq![window] + base);
            assert forall|a: int, b: int| 0 <= a < b < s1.len() implies (
            #[trigger] s1[a]).handle != (#[trigger] s1[b]).handle by {
                if a == 0 {
                    assert(s1[b] == base[b - 1]);
                    assert(base[b - 1].handle != window.handle);
                } else {
                    assert(base[a - 1].handle != base[b - 1].handle);
                }
            }
            assert forall|h2: u64| spec_tracks(s1, h2) == (spec_tracks(base, h2) || h2
                == window.handle) by {
                if spec_tracks(s1, h2) {
                    let i = choose|i: int|
                        0 <= i < s1.len() && (#[trigger] s1[i]).handle == h2;
                    if i > 0 {
                        assert(base[i - 1].handle == h2);
                    }
                }
                if spec_tracks(base, h2) {
                    let i = choose|i: int|
                        0 <= i < base.len() && (#[trigger] base[i]).handle == h2;
                    assert(s1[i + 1].handle == h2);
                }
                if h2 == window.handle {
                    assert(s1[0].handle == h2);
                }
            }
            assert(handles_of(s1) =~= handles_of(s0).insert(window.handle));
        }
    } else {
        manager.windows.push(window);
        proof {
            let s1 = manager.windows@;
            assert(s1 =~= base.push(window));
            assert forall|a: int, b: int| 0 <= a < b < s1.len() implies (
            #[trigger] s1[a]).handle != (#[trigger] s1[b]).handle by {
                if b == s1.len() - 1 {
                    assert(s1[a] == base[a]);
                    assert(base[a].handle != window.handle);
                } else {
                    assert(base[a].handle != base[b].handle);
                }
            }
            assert forall|h2: u64| spec_tracks(s1, h2) == (spec_tracks(base, h2) || h2
                == window.handle) by {
                if spec_tracks(s1, h2) {
                    let i = choose|i: int|
                        0 <= i < s1.len() && (#[trigger] s1[i]).handle == h2;
                    if i < s1.len() - 1 {
                        assert(base[i].handle == h2);
                    }
                }
                if spec_tracks(base, h2) {
                    let i = choose|i: int|
                        0 <= i < base.len() && (#[trigger] base[i]).handle == h2;
                    assert(s1[i].handle == h2);
                }
                if h2 == window.handle {
                    assert(s1[s1.len() - 1].handle == h2);
                }
            }
            assert(handles_of(s1) =~= handles_of(s0).insert(window.handle));
        }
    }
}

impl Window {
    /// Re-parent the window onto `workspace`: it becomes tiled there, and
    /// when the tags actually change, its floating offset and start location
    /// are re-based from the old workspace origin to the new one.
    pub fn snap_to_workspace(&mut self, workspace: &Workspace) -> (r: bool)
        ensures
            r,
            old(self).tags@ == workspace.tags@ ==> *final(self) == (Window {
                floating: false,
                ..*old(self)
            }),
            old(self).tags@ != workspace.tags@ ==> {
                let off0 = if old(self).floating_offsets is Some {
                    old(self).floating_offsets->0
                } else {
                    (Xyhw { x: 0, y: 0, w: 0, h: 0 })
                };
                let sl0 = if old(self).start_loc is Some {
                    old(self).start_loc->0
                } else {
                    (Xyhw { x: 0, y: 0, w: 0, h: 0 })
                };
                &&& *final(self) == (Window {
                    floating: false,
                    tags: final(self).tags,
                    floating_offsets: final(self).floating_offsets,
                    start_loc: final(self).start_loc,
                    ..*old(self)
                })
                &&& final(self).tags@ == workspace.tags@
                &&& final(self).floating_offsets == Some(
                    Xyhw {
                        x: clip(clip(off0.x + old(self).normal.x) - workspace.xyhw.x) as i32,
                        y: clip(clip(off0.y + old(self).normal.y) - workspace.xyhw.y) as i32,
                        w: off0.w,
                        h: off0.h,
                    },
                )
                &&& final(self).start_loc == Some(
                    Xyhw {
                        x: clip(clip(sl0.x + old(self).normal.x) - workspace.xyhw.x) as i32,
                        y: clip(clip(sl0.y + old(self).normal.y) - workspace.xyhw.y) as i32,
                        w: sl0.w,
                        h: sl0.h,
                    },
                )
            },
    {
        self.set_floating(false);
        if !tags_eq(&self.tags, &workspace.tags) {
            self.tags = clone_tags(&workspace.tags);
            let mut offset = match self.floating_offsets {
                Some(o) => o,
                None => Xyhw { x: 0, y: 0, w: 0, h: 0 },
            };
            let mut start_loc = match self.start_loc {
                Some(o) => o,
                None => Xyhw { x: 0, y: 0, w: 0, h: 0 },
            };
            let x = sat_add(offset.x, self.normal.x);
            let y = sat_add(offset.y, self.normal.y);
            offset.x = sat_sub(x, workspace.xyhw.x);
            offset.y = sat_sub(y, workspace.xyhw.y);
            self.set_floating_offsets(Some(offset));

            let x = sat_add(start_loc.x, self.normal.x);
            let y = sat_add(start_loc.y, self.normal.y);
            start_loc.x = sat_sub(x, workspace.xyhw.x);
            start_loc.y = sat_sub(y, workspace.xyhw.y);
            self.start_loc = Some(start_loc);
        }
        true
    }
}


/// The strut rectangles of the tracked dock windows, in window order.
pub open spec fn dock_struts(s: Seq<Window>) -> Seq<Xyhw>
    decreases s.len(),
{
    if s.len() == 0 {
        Seq::empty()
    } else {
        let rest = dock_struts(s.drop_last());
        let w = s.last();
        if w.type_ == WindowType::Dock && w.strut is Some {
            rest.push(w.strut->0)
        } else {
            rest
        }
    }
}

/// The strut's center point lies inside the workspace rectangle.
pub open spec fn strut_center_in(ws_rect: Xyhw, st: Xyhw) -> bool {
    spec_contains(
        ws_rect,
        clip(st.x + half(st.w as int)),
        clip(st.y + half(st.h as int)),
    )
}

/// The struts kept for one workspace: those centered inside its rectangle.
pub open spec fn struts_near(struts: Seq<Xyhw>, ws_rect: Xyhw) -> Seq<Xyhw>
    decreases struts.len(),
{
    if struts.len() == 0 {
        Seq::empty()
    } else {
        let rest = struts_near(struts.drop_last(), ws_rect);
        if strut_center_in(ws_rect, struts.last()) {
            rest.push(struts.last())
        } else {
            rest
        }
    }
}

/// One workspace after dock avoidance was rebuilt against `wins`: its
/// `avoid` list is a pure function of the current dock struts and its own
/// rectangle, and its usable area follows from it.
pub open spec fn avoid_updated(ws0: Workspace, ws1: Workspace, wins: Seq<Window>) -> bool {
    &&& ws1.tags == ws0.tags
    &&& ws1.layout == ws0.layout
    &&& ws1.xyhw == ws0.xyhw
    &&& ws1.margin_multiplier == ws0.margin_multiplier
    &&& ws1.avoid@ == struts_near(dock_struts(wins), ws0.xyhw)
    &&& ws1.xyhw_avoided == spec_avoided(ws0.xyhw, ws1.avoid@)
}

impl<C: Config> Manager<C> {
    /// Rebuild every workspace's `avoid` list from the struts of the
    /// currently tracked dock windows. The result depends only on the
    /// current set of dock struts and the workspace rectangles, never on
    /// history: recomputing is idempotent.
    pub fn update_workspace_avoid_list(&mut self)
        ensures
            *final(self) == (Manager { workspaces: final(self).workspaces, ..*old(self) }),
            final(self).workspaces@.len() == old(self).workspaces@.len(),
            forall|i: int|
                0 <= i < old(self).workspaces@.len() ==> avoid_updated(
                    old(self).workspaces@[i],
                    #[trigger] final(self).workspaces@[i],
                    old(self).windows@,
                ),
    {
        let mut avoid: Vec<Xyhw> = Vec::new();
        proof {
            assert(self.windows@.take(0) =~= Seq::<Window>::empty());
        }
        let mut i: usize = 0;
        while i < self.windows.len()
            invariant
                *self == *old(self),
                i <= self.windows@.len(),
                avoid@ == dock_struts(self.windows@.take(i as int)),
            decreases self.windows.len() - i,
        {
            proof {
                assert(self.windows@.take(i as int + 1).drop_last() =~= self.windows@.take(
                    i as int,
                ));
                assert(self.windows@.take(i as int + 1).last() == self.windows@[i as int]);
            }
            if matches!(self.windows[i].type_, WindowType::Dock) {
                if let Some(st) = self.windows[i].strut {
                    avoid.push(st);
                }
            }
            i += 1;
        }
        proof {
            assert(self.windows@.take(self.windows@.len() as int) =~= self.windows@);
        }
        let ghost all_struts = avoid@;
        let mut k: usize = 0;
        while k < self.workspaces.len()
            invariant
                *self == (Manager { workspaces: self.workspaces, ..*old(self) }),
                avoid@ == all_struts,
                all_struts == dock_struts(old(self).windows@),
                self.workspaces@.len() == old(self).workspaces@.len(),
                k <= self.workspaces@.len(),
                forall|j: int|
                    0 <= j < k ==> avoid_updated(
                        old(self).workspaces@[j],
                        #[trigger] self.workspaces@[j],
                        old(self).windows@,
                    ),
                forall|j: int|
                    k <= j < self.workspaces@.len() ==> self.workspaces@[j] == old(
                        self,
                    ).workspaces@[j],
            decreases self.workspaces.len() - k,
        {
            let ghost wss_before = self.workspaces@;
            let ws_rect = self.workspaces[k].xyhw;
            let mut struts: Vec<Xyhw> = Vec::new();
            proof {
                assert(avoid@.take(0) =~= Seq::<Xyhw>::empty());
            }
            let mut t: usize = 0;
            while t < avoid.len()
                invariant
                    avoid@ == all_struts,
                    t <= avoid@.len(),
                    struts@ == struts_near(avoid@.take(t as int), ws_rect),
                decreases avoid.len() - t,
            {
                proof {
                    assert(avoid@.take(t as int + 1).drop_last() =~= avoid@.take(t as int));
                    assert(avoid@.take(t as int + 1).last() == avoid@[t as int]);
                }
                let st = avoid[t];
                let (cx, cy) = st.center();
                if ws_rect.contains_point(cx, cy) {
                    struts.push(st);
                }
                t += 1;
            }
            proof {
                assert(avoid@.take(avoid@.len() as int) =~= avoid@);
            }
            let mut ws = self.workspaces.remove(k);
            ws.avoid = struts;
            ws.update_avoided_areas();
            self.workspaces.insert(k, ws);
            proof {
                assert(self.workspaces@ =~= wss_before.update(
                    k as int,
                    self.workspaces@[k as int],
                ));
            }
            k += 1;
        }
    }

    /// The window that should take focus when `handle` goes away: its
    /// neighbour one step forward in the focused workspace's window order,
    /// or one step back when no forward neighbour exists. Under Sloppy focus
    /// the pointer decides instead, and there is no candidate.
    pub open spec fn spec_next_or_previous(m: Manager<C>, handle: u64) -> Option<u64> {
        if m.focus_manager.behaviour == FocusBehaviour::Sloppy {
            None
        } else {
            match m.spec_focused_ws_idx() {
                None => None,
                Some(wsi) => {
                    let filtered = seq_filter_w(m.windows@, managed_pred(m.workspaces@[wsi]));
                    if !spec_tracks(filtered, handle) {
                        None
                    } else {
                        let p = choose|p: int|
                            0 <= p < filtered.len() && (#[trigger] filtered[p]).handle
                                == handle;
                        if p + 1 < filtered.len() {
                            Some(filtered[p + 1].handle)
                        } else if p > 0 {
                            Some(filtered[p - 1].handle)
                        } else {
                            None
                        }
                    }
                },
            }
        }
    }

    /// Find the next or previous window on the focused workspace.
    pub fn get_next_or_previous(&mut self, handle: u64) -> (r: Option<u64>)
        requires
            old(self).wf(),
        ensures
            *final(self) == *old(self),
            r == Self::spec_next_or_previous(*old(self), handle),
    {
        if matches!(self.focus_manager.behaviour, FocusBehaviour::Sloppy) {
            return None;
        }
        let wsi = match self.focused_workspace_index() {
            Some(i) => i,
            None => {
                return None;
            },
        };
        let ghost ws = self.workspaces@[wsi as int];
        let ghost filtered = seq_filter_w(self.windows@, managed_pred(ws));
        let mut hs: Vec<u64> = Vec::new();
        proof {
            assert(self.windows@.take(0) =~= Seq::<Window>::empty());
        }
        let mut i: usize = 0;
        while i < self.windows.len()
            invariant
                *self == *old(self),
                ws == self.workspaces@[wsi as int],
                wsi < self.workspaces@.len(),
                i <= self.windows@.len(),
                hs@.len() == seq_filter_w(self.windows@.take(i as int), managed_pred(ws)).len(),
                forall|m: int|
                    0 <= m < hs@.len() ==> #[trigger] hs@[m] == seq_filter_w(
                        self.windows@.take(i as int),
                        managed_pred(ws),
                    )[m].handle,
            decreases self.windows.len() - i,
        {
            proof {
                assert(self.windows@.take(i as int + 1).drop_last() =~= self.windows@.take(
                    i as int,
                ));
                assert(self.windows@.take(i as int + 1).last() == self.windows@[i as int]);
            }
            if self.workspaces[wsi].is_managed(&self.windows[i]) {
                hs.push(self.windows[i].handle);
            }
            i += 1;
        }
        proof {
            assert(self.windows@.take(self.windows@.len() as int) =~= self.windows@);
            lemma_filter_w_unique(self.windows@, managed_pred(ws));
        }
        let mut p: usize = 0;
        while p < hs.len()
            invariant
                *self == *old(self),
                old(self).focus_manager.behaviour != FocusBehaviour::Sloppy,
                old(self).spec_focused_ws_idx() == Some(wsi as int),
                wsi < old(self).workspaces@.len(),
                ws == old(self).workspaces@[wsi as int],
                filtered == seq_filter_w(old(self).windows@, managed_pred(ws)),
                hs@.len() == filtered.len(),
                forall|m: int| 0 <= m < hs@.len() ==> #[trigger] hs@[m] == filtered[m].handle,
                unique_handles(filtered),
                p <= hs@.len(),
                forall|m: int| 0 <= m < p ==> #[trigger] hs@[m] != handle,
            decreases hs.len() - p,
        {
            if hs[p] == handle {
                proof {
                    assert(spec_tracks(filtered, handle)) by {
                        assert(filtered[p as int].handle == handle);
                    }
                    let c = choose|c: int|
                        0 <= c < filtered.len() && (#[trigger] filtered[c]).handle == handle;
                    assert(c == p as int);
                }
                if p + 1 < hs.len() {
                    return Some(hs[p + 1]);
                } else if p > 0 {
                    return Some(hs[p - 1]);
                } else {
                    return None;
                }
            }
            p += 1;
        }
        proof {
            if spec_tracks(filtered, handle) {
                let c = choose|c: int|
                    0 <= c < filtered.len() && (#[trigger] filtered[c]).handle == handle;
                assert(hs@[c] == handle);
                assert(false);
            }
        }
        None
    }
}

/// `w` after a change event's touched fields are applied.
pub open spec fn spec_apply_change(c: WindowChange, w: Window) -> Window {
    Window {
        transient: if c.transient is Some {
            c.transient->0
        } else {
            w.transient
        },
        strut: if c.strut is Some {
            c.strut->0
        } else {
            w.strut
        },
        type_: if c.type_ is Some {
            c.type_->0
        } else {
            w.type_
        },
        requested: if c.requested is Some {
            c.requested->0
        } else {
            w.requested
        },
        ..w
    }
}

impl<C: Config> Manager<C> {
    /// Apply a property change to the matching tracked window. A miss is
    /// "already gone" and changes nothing. When the strut was touched, or
    /// the window is a dock, dock avoidance is rebuilt; the return value
    /// only reports whether the change itself carried fields.
    pub fn window_changed_handler(&mut self, change: WindowChange) -> (r: bool)
        requires
            old(self).wf(),
        ensures
            final(self).wf(),
            r == (spec_tracks(old(self).windows@, change.handle)
                && change.spec_touches_any()),
            *final(self) == (Manager {
                windows: final(self).windows,
                workspaces: final(self).workspaces,
                ..*old(self)
            }),
            !spec_tracks(old(self).windows@, change.handle) ==> final(self).windows@ == old(
                self,
            ).windows@,
            forall|i: int|
                0 <= i < old(self).windows@.len() && (#[trigger] old(
                    self,
                ).windows@[i]).handle == change.handle ==> final(self).windows@ == old(
                    self,
                ).windows@.update(i, spec_apply_change(change, old(self).windows@[i])),
            ({
                let recompute = (spec_tracks(old(self).windows@, change.handle)
                    && spec_apply_change(
                    change,
                    the_window(old(self).windows@, change.handle),
                ).type_ == WindowType::Dock) || change.strut is Some;
                if recompute {
                    &&& final(self).workspaces@.len() == old(self).workspaces@.len()
                    &&& forall|i: int|
                        0 <= i < old(self).workspaces@.len() ==> avoid_updated(
                            old(self).workspaces@[i],
                            #[trigger] final(self).workspaces@[i],
                            final(self).windows@,
                        )
                } else {
                    final(self).workspaces@ == old(self).workspaces@
                }
            }),
    {
        let strut_changed = change.strut.is_some();
        let idx = self.window_index(change.handle);
        match idx {
            Some(i) => {
                proof {
                    let c = choose|c: int|
                        0 <= c < self.windows@.len() && (#[trigger] self.windows@[c]).handle
                            == change.handle;
                    assert(c == i as int);
                    assert(the_window(self.windows@, change.handle) == self.windows@[i as int]);
                }
                let ghost s0 = self.windows@;
                let mut w = self.windows.remove(i);
                let changed = change.update(&mut w);
                let is_dock = matches!(w.type_, WindowType::Dock);
                self.windows.insert(i, w);
                proof {
                    assert(self.windows@ =~= s0.update(
                        i as int,
                        spec_apply_change(change, s0[i as int]),
                    ));
                    assert(unique_handles(self.windows@)) by {
                        assert forall|a: int, b: int|
                            0 <= a < b < self.windows@.len() implies (
                        #[trigger] self.windows@[a]).handle != (
                        #[trigger] self.windows@[b]).handle by {
                            assert(s0[a].handle != s0[b].handle);
                        }
                    }
                    assert forall|j: int|
                        0 <= j < s0.len() && (#[trigger] s0[j]).handle
                            == change.handle implies self.windows@ == s0.update(
                        j,
                        spec_apply_change(change, s0[j]),
                    ) by {
                        if j != i as int {
                            assert(s0[j].handle != s0[i as int].handle);
                        }
                    }
                }
                if is_dock || strut_changed {
                    self.update_workspace_avoid_list();
                }
                changed
            },
            None => {
                if strut_changed {
                    self.update_workspace_avoid_list();
                }
                false
            },
        }
    }

    /// Remove a destroyed window: pick the focus replacement first, drop the
    /// per-tag focus entries pointing at it, forget the window, rebuild dock
    /// avoidance, and resolve focus — under Sloppy focus by asking the
    /// display server for the window under the cursor, otherwise by
    /// focusing the computed neighbour.
    pub fn window_destroyed_handler(&mut self, handle: u64) -> (r: bool)
        requires
            old(self).wf(),
        ensures
            r,
            final(self).wf(),
            *final(self) == (Manager {
                windows: final(self).windows,
                workspaces: final(self).workspaces,
                focus_manager: final(self).focus_manager,
                actions: final(self).actions,
                ..*old(self)
            }),
            final(self).windows@ == seq_filter_w(old(self).windows@, keep_pred(handle)),
            handles_of(final(self).windows@) == handles_of(old(self).windows@).remove(handle),
            final(self).workspaces@.len() == old(self).workspaces@.len(),
            forall|i: int|
                0 <= i < old(self).workspaces@.len() ==> avoid_updated(
                    old(self).workspaces@[i],
                    #[trigger] final(self).workspaces@[i],
                    final(self).windows@,
                ),
            final(self).focus_manager.behaviour == old(self).focus_manager.behaviour,
            final(self).focus_manager.focus_new_windows == old(
                self,
            ).focus_manager.focus_new_windows,
            final(self).focus_manager.workspace_history@ == old(
                self,
            ).focus_manager.workspace_history@,
            forall|q: u64, v: u64|
                #[trigger] final(self).focus_manager.tags_last_window@.contains((q, v))
                    ==> v != handle,
            ({
                let was_focused = old(self).spec_already_focused(handle);
                let nh = Self::spec_next_or_previous(*old(self), handle);
                if !was_focused {
                    &&& final(self).focus_manager.window_history@ == old(
                        self,
                    ).focus_manager.window_history@
                    &&& final(self).focus_manager.tags_last_window@ == tlw_without(
                        old(self).focus_manager.tags_last_window@,
                        handle,
                    )
                    &&& final(self).actions@ == old(self).actions@
                } else if old(self).focus_manager.behaviour == FocusBehaviour::Sloppy {
                    &&& final(self).focus_manager.window_history@ == old(
                        self,
                    ).focus_manager.window_history@
                    &&& final(self).focus_manager.tags_last_window@ == tlw_without(
                        old(self).focus_manager.tags_last_window@,
                        handle,
                    )
                    &&& final(self).actions@ == old(self).actions@.push(
                        DisplayAction::FocusWindowUnderCursor,
                    )
                } else {
                    &&& final(self).actions@ == old(self).actions@
                    &&& match nh {
                        None => {
                            &&& final(self).focus_manager.window_history@ == old(
                                self,
                            ).focus_manager.window_history@
                            &&& final(self).focus_manager.tags_last_window@ == tlw_without(
                                old(self).focus_manager.tags_last_window@,
                                handle,
                            )
                        },
                        Some(h2) => {
                            let nw = the_window(final(self).windows@, h2);
                            &&& final(self).focus_manager.window_history@ == old(
                                self,
                            ).focus_manager.window_history@.insert(0, Some(h2))
                            &&& forall|q: u64|
                                nw.tags@.contains(q)
                                    ==> final(self).focus_manager.tags_last_window@.contains(
                                    (q, h2),
                                )
                            &&& forall|q: u64, v: u64|
                                !nw.tags@.contains(q)
                                    ==> (#[trigger] final(self).focus_manager.tags_last_window@.contains((q, v))
                                    <==> tlw_without(
                                    old(self).focus_manager.tags_last_window@,
                                    handle,
                                ).contains((q, v)))
                            &&& forall|q: u64, v: u64|
                                nw.tags@.contains(q)
                                    && #[trigger] final(self).focus_manager.tags_last_window@.contains((q, v))
                                    ==> v == h2
                        },
                    }
                }
            }),
    {
        let new_handle = self.get_next_or_previous(handle);
        self.focus_manager.forget_window(handle);
        let ghost s0 = old(self).windows@;
        proof {
            assert(s0.take(0) =~= Seq::<Window>::empty());
        }
        let mut kept: Vec<Window> = Vec::new();
        let n = self.windows.len();
        let mut k: usize = 0;
        while k < n
            invariant
                n == s0.len(),
                k <= n,
                *self == (Manager {
                    windows: self.windows,
                    focus_manager: self.focus_manager,
                    ..*old(self)
                }),
                self.focus_manager == (FocusManager {
                    tags_last_window: self.focus_manager.tags_last_window,
                    ..old(self).focus_manager
                }),
                self.focus_manager.tags_last_window@ == tlw_without(
                    old(self).focus_manager.tags_last_window@,
                    handle,
                ),
                tlw_unique(self.focus_manager.tags_last_window@),
                self.windows@ == s0.skip(k as int),
                kept@ == seq_filter_w(s0.take(k as int), keep_pred(handle)),
            decreases n - k,
        {
            proof {
                assert(s0.take(k as int + 1).drop_last() =~= s0.take(k as int));
                assert(s0.take(k as int + 1).last() == s0[k as int]);
                assert(s0.skip(k as int)[0] == s0[k as int]);
            }
            let w = self.windows.remove(0);
            proof {
                assert(self.windows@ =~= s0.skip(k as int + 1));
            }
            if w.handle != handle {
                kept.push(w);
            }
            k += 1;
        }
        proof {
            assert(s0.take(s0.len() as int) =~= s0);
            assert(s0.skip(s0.len() as int) =~= Seq::<Window>::empty());
        }
        self.windows.append(&mut kept);
        proof {
            let s1 = self.windows@;
            assert(s1 =~= seq_filter_w(s0, keep_pred(handle)));
            lemma_filter_w(s0, keep_pred(handle));
            lemma_filter_w_unique(s0, keep_pred(handle));
            assert forall|h2: u64| spec_tracks(s1, h2) == (spec_tracks(s0, h2) && h2
                != handle) by {
                if spec_tracks(s1, h2) {
                    let i = choose|i: int|
                        0 <= i < s1.len() && (#[trigger] s1[i]).handle == h2;
                    assert(s1.contains(s1[i]));
                    let j = choose|j: int| 0 <= j < s0.len() && s0[j] == s1[i];
                    assert(keep_pred(handle)(s1[i]));
                    assert(spec_tracks(s0, h2));
                }
                if spec_tracks(s0, h2) && h2 != handle {
                    let i = choose|i: int|
                        0 <= i < s0.len() && (#[trigger] s0[i]).handle == h2;
                    assert(s0.contains(s0[i]));
                    assert(keep_pred(handle)(s0[i]));
                    assert(s1.contains(s0[i]));
                    let m = choose|m: int| 0 <= m < s1.len() && s1[m] == s0[i];
                    assert(spec_tracks(s1, h2));
                }
            }
            assert(handles_of(s1) =~= handles_of(s0).remove(handle));
        }
        self.update_workspace_avoid_list();
        let focused_on_it = if self.focus_manager.window_history.len() > 0 {
            match self.focus_manager.window_history[0] {
                Some(h0) => h0 == handle,
                None => false,
            }
        } else {
            false
        };
        if focused_on_it {
            if matches!(self.focus_manager.behaviour, FocusBehaviour::Sloppy) {
                self.actions.push(DisplayAction::FocusWindowUnderCursor);
            } else if let Some(h2) = new_handle {
                proof {
                    let ws = old(self).workspaces@[old(self).spec_focused_ws_idx()->0];
                    let filtered = seq_filter_w(old(self).windows@, managed_pred(ws));
                    lemma_filter_w(old(self).windows@, managed_pred(ws));
                    lemma_filter_w_unique(old(self).windows@, managed_pred(ws));
                    let p = choose|p: int|
                        0 <= p < filtered.len() && (#[trigger] filtered[p]).handle == handle;
                    let q: int = if p + 1 < filtered.len() {
                        p + 1
                    } else {
                        p - 1
                    };
                    assert(filtered[q].handle == h2);
                    assert(filtered[q].handle != filtered[p].handle);
                    assert(h2 != handle);
                    assert(filtered.contains(filtered[q]));
                    let j = choose|j: int|
                        0 <= j < old(self).windows@.len() && old(self).windows@[j]
                            == filtered[q];
                    assert(keep_pred(handle)(filtered[q]));
                    assert(self.windows@.contains(filtered[q]));
                    let m = choose|m: int|
                        0 <= m < self.windows@.len() && self.windows@[m] == filtered[q];
                    assert(spec_tracks(self.windows@, h2));
                }
                let moved = self.focus_window(h2);
                proof {
                    assert(moved);
                }
            }
        }
        proof {
            crate::focus::lemma_tlw_without(
                old(self).focus_manager.tags_last_window@,
                handle,
            );
        }
        true
    }

    /// Track a newly created window, unless the handle is already known
    /// (duplicate create events are a no-op). The window is placed by the
    /// layout rules, announced to the display server, focused when policy or
    /// being first on its tag asks for it, and the configured new-window
    /// command is queued for the embedding program to spawn.
    pub fn window_created_handler(&mut self, window: Window, x: i32, y: i32) -> (r: bool)
        requires
            old(self).wf(),
        ensures
            final(self).wf(),
            r == !spec_tracks(old(self).windows@, window.handle),
            !r ==> *final(self) == *old(self),
            r ==> spec_tracks(final(self).windows@, window.handle),
            handles_of(final(self).windows@) == handles_of(old(self).windows@).insert(
                window.handle,
            ),
            r ==> *final(self) == (Manager {
                windows: final(self).windows,
                actions: final(self).actions,
                focus_manager: final(self).focus_manager,
                spawn_queue: final(self).spawn_queue,
                ..*old(self)
            }),
            r ==> final(self).focus_manager.behaviour == old(self).focus_manager.behaviour,
            r ==> final(self).focus_manager.focus_new_windows == old(
                self,
            ).focus_manager.focus_new_windows,
            r ==> final(self).focus_manager.workspace_history@ == old(
                self,
            ).focus_manager.workspace_history@,
            r ==> (exists|w1: Window, l1: Layout, f1: bool, acts_mid: Seq<DisplayAction>|
                #![trigger created_placement(
                    *old(self),
                    window,
                    x as int,
                    y as int,
                    old(self).spec_is_scratchpad(window),
                    w1,
                    l1,
                    f1,
                ), inserted(
                    old(self).windows@,
                    old(self).actions@,
                    w1,
                    old(self).spec_is_scratchpad(window),
                    l1,
                    final(self).windows@,
                    acts_mid,
                )]
                {
                    &&& created_placement(
                        *old(self),
                        window,
                        x as int,
                        y as int,
                        old(self).spec_is_scratchpad(window),
                        w1,
                        l1,
                        f1,
                    )
                    &&& w1.handle == window.handle
                    &&& inserted(
                        old(self).windows@,
                        old(self).actions@,
                        w1,
                        old(self).spec_is_scratchpad(window),
                        l1,
                        final(self).windows@,
                        acts_mid,
                    )
                    &&& final(self).actions@ == (if w1.tags@.len() > 0 {
                        acts_mid + seq![
                            DisplayAction::AddedWindow(
                                window.handle,
                                old(self).focus_manager.focus_new_windows || old(
                                    self,
                                ).focus_manager.behaviour == FocusBehaviour::Sloppy,
                            ),
                            DisplayAction::SetWindowTags(window.handle, w1.tags@[0]),
                        ]
                    } else {
                        acts_mid.push(
                            DisplayAction::AddedWindow(
                                window.handle,
                                old(self).focus_manager.focus_new_windows || old(
                                    self,
                                ).focus_manager.behaviour == FocusBehaviour::Sloppy,
                            ),
                        )
                    })
                    &&& ({
                        let mid = (Manager {
                            windows: final(self).windows,
                            actions: final(self).actions,
                            spawn_queue: final(self).spawn_queue,
                            ..*old(self)
                        });
                        if old(self).focus_manager.focus_new_windows || f1 {
                            exists|rf: bool|
                                #[trigger] Self::focus_effect(
                                    mid,
                                    *final(self),
                                    window.handle,
                                    rf,
                                )
                        } else {
                            final(self).focus_manager == old(self).focus_manager
                        }
                    })
                }),
            r ==> (forall|k: int|
                0 <= k < old(self).spawn_queue@.len()
                    ==> #[trigger] final(self).spawn_queue@[k] == old(self).spawn_queue@[k]),
            r ==> old(self).spawn_queue@.len() <= final(self).spawn_queue@.len(),
            r ==> final(self).spawn_queue@.len() <= old(self).spawn_queue@.len() + 1,
    {
        if self.window_index(window.handle).is_some() {
            proof {
                assert(handles_of(self.windows@).contains(window.handle));
                assert(handles_of(self.windows@).insert(window.handle) =~= handles_of(
                    self.windows@,
                ));
            }
            return false;
        }
        let handle = window.handle;
        let mut is_first = false;
        let mut layout = Layout::MainAndVertStack;
        let scratch = is_scratchpad(self, &window);
        let mut w = window;
        setup_window(self, &mut w, x, y, scratch, &mut layout, &mut is_first);
        let ghost placed = w;
        let first_tag: Option<u64> = if w.tags.len() > 0 {
            Some(w.tags[0])
        } else {
            None
        };
        insert_window(self, w, scratch, layout);
        let follow_mouse = self.focus_manager.focus_new_windows || matches!(
            self.focus_manager.behaviour,
            FocusBehaviour::Sloppy,
        );
        let ghost amid = self.actions@;
        self.actions.push(DisplayAction::AddedWindow(handle, follow_mouse));
        if let Some(t) = first_tag {
            self.actions.push(DisplayAction::SetWindowTags(handle, t));
        }
        if let Some(cmd) = self.config.on_new_window_cmd() {
            self.spawn_queue.push(cmd);
        }
        let ghost mid = *self;
        let should_focus = self.focus_manager.focus_new_windows || is_first;
        let mut focus_moved = false;
        if should_focus {
            focus_moved = self.focus_window(handle);
        }
        proof {
            assert(follow_mouse == (old(self).focus_manager.focus_new_windows || old(
                self,
            ).focus_manager.behaviour == FocusBehaviour::Sloppy));
            assert(handles_of(self.windows@).contains(window.handle)) by {
                assert(handles_of(old(self).windows@).insert(window.handle).contains(
                    window.handle,
                ));
            }
            assert(spec_tracks(self.windows@, window.handle));
            assert(created_placement(
                *old(self),
                window,
                x as int,
                y as int,
                old(self).spec_is_scratchpad(window),
                placed,
                layout,
                is_first,
            ));
            assert(inserted(
                old(self).windows@,
                old(self).actions@,
                placed,
                old(self).spec_is_scratchpad(window),
                layout,
                self.windows@,
                amid,
            ));
            if placed.tags@.len() > 0 {
                assert(self.actions@ == amid + seq![
                    DisplayAction::AddedWindow(handle, follow_mouse),
                    DisplayAction::SetWindowTags(handle, placed.tags@[0]),
                ]) by {
                    assert(amid.push(DisplayAction::AddedWindow(handle, follow_mouse)).push(
                        DisplayAction::SetWindowTags(handle, placed.tags@[0]),
                    ) =~= amid + seq![
                        DisplayAction::AddedWindow(handle, follow_mouse),
                        DisplayAction::SetWindowTags(handle, placed.tags@[0]),
                    ]);
                }
            }
            assert(mid == (Manager {
                windows: self.windows,
                actions: self.actions,
                spawn_queue: self.spawn_queue,
                ..*old(self)
            }));
            if should_focus {
                assert(Self::focus_effect(mid, *self, window.handle, focus_moved));
            } else {
                assert(self.focus_manager == old(self).focus_manager);
            }
        }
        true
    }
}

} // verus!
