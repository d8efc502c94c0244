use vstd::prelude::*;
use crate::config::Config;
use crate::manager::Manager;
use crate::models::{DisplayAction, Layout, WindowType};
use crate::window::Window;
use crate::window_handler::{
    avoid_updated, dock_struts, insert_outcome, seq_filter_w, setup_fallback, setup_on_ws,
    tag_pred, not_tag_pred, lemma_filter_w,
};
use crate::workspace::Workspace;
use crate::helpers::tags_intersect;

verus! {

/// One window lifecycle event, for replaying histories.
pub enum LifecycleEvent {
    Create(u64),
    Destroy(u64),
}

/// The set of handles still live after replaying the events over `init`:
/// creates insert, destroys remove.
pub open spec fn live_after(init: Set<u64>, evs: Seq<LifecycleEvent>) -> Set<u64>
    decreases evs.len(),
{
    if evs.len() == 0 {
        init
    } else {
        let rest = live_after(init, evs.drop_last());
        match evs.last() {
            LifecycleEvent::Create(h) => rest.insert(h),
            LifecycleEvent::Destroy(h) => rest.remove(h),
        }
    }
}

/// For every sequence of create and destroy events, the tracked handle set
/// after replay equals the set of still-live handles. The hypothesis on
/// `states` is exactly what the create and destroy handlers promise of the
/// tracked set at each step: a create inserts its handle (a duplicate create
/// changes nothing, since inserting a member is the identity) and a destroy
/// removes its handle (idempotent against unknown handles).
pub proof fn lemma_lifecycle_replay(
    init: Set<u64>,
    evs: Seq<LifecycleEvent>,
    states: Seq<Set<u64>>,
)
    requires
        states.len() == evs.len() + 1,
        states[0] == init,
        forall|k: int|
            0 <= k < evs.len() ==> #[trigger] states[k + 1] == match evs[k] {
                LifecycleEvent::Create(h) => states[k].insert(h),
                LifecycleEvent::Destroy(h) => states[k].remove(h),
            },
    ensures
        states[evs.len() as int] == live_after(init, evs),
    decreases evs.len(),
{
    if evs.len() > 0 {
        let n = evs.len() as int;
        let evs0 = evs.drop_last();
        let states0 = states.take(n);
        assert(states0[0] == init);
        assert forall|k: int| 0 <= k < evs0.len() implies #[trigger] states0[k + 1]
            == match evs0[k] {
            LifecycleEvent::Create(h) => states0[k].insert(h),
            LifecycleEvent::Destroy(h) => states0[k].remove(h),
        } by {
            assert(states0[k + 1] == states[k + 1]);
            assert(states0[k] == states[k]);
            assert(evs0[k] == evs[k]);
        }
        lemma_lifecycle_replay(init, evs0, states0);
        assert(states0[n - 1] == live_after(init, evs0));
        assert(states[n] == match evs[n - 1] {
            LifecycleEvent::Create(h) => states[n - 1].insert(h),
            LifecycleEvent::Destroy(h) => states[n - 1].remove(h),
        });
        assert(evs.last() == evs[n - 1]);
    }
}

/// Dock avoidance is a pure function: given the same dock struts and the
/// same workspace rectangle, two recomputations yield the same avoid list.
pub proof fn lemma_avoid_pure(
    a0: Workspace,
    a1: Workspace,
    wins_a: Seq<Window>,
    b0: Workspace,
    b1: Workspace,
    wins_b: Seq<Window>,
)
    requires
        avoid_updated(a0, a1, wins_a),
        avoid_updated(b0, b1, wins_b),
        dock_struts(wins_a) == dock_struts(wins_b),
        a0.xyhw == b0.xyhw,
    ensures
        a1.avoid@ == b1.avoid@,
        a1.xyhw_avoided == b1.xyhw_avoided,
{
}

/// Recomputing dock avoidance twice over the same windows changes nothing
/// the second time: the avoid list and the usable area are already fixed
/// points.
pub proof fn lemma_avoid_idempotent(
    ws0: Workspace,
    ws1: Workspace,
    ws2: Workspace,
    wins: Seq<Window>,
)
    requires
        avoid_updated(ws0, ws1, wins),
        avoid_updated(ws1, ws2, wins),
    ensures
        ws2.avoid@ == ws1.avoid@,
        ws2.xyhw_avoided == ws1.xyhw_avoided,
        ws2.xyhw == ws1.xyhw,
        ws2.tags == ws1.tags,
        ws2.layout == ws1.layout,
        ws2.margin_multiplier == ws1.margin_multiplier,
{
}

/// A scratchpad window placed without a matching workspace floats and
/// carries the reserved hidden tag beside the first tag.
pub proof fn lemma_scratchpad_fallback<C: Config>(m: Manager<C>, w0: Window, w1: Window)
    requires
        setup_fallback(m, w0, w1, true),
        m.tags@.len() >= 1,
    ensures
        w1.floating,
        w1.tags@.contains(m.tags@[0].id),
        m.tags@[0].id != crate::models::NSP_TAG ==> w1.tags@.contains(
            crate::models::NSP_TAG,
        ),
{
    assert(w1.tags@[0] == m.tags@[0].id);
    if m.tags@[0].id != crate::models::NSP_TAG {
        assert(w1.tags@[1] == crate::models::NSP_TAG);
    }
}

/// A scratchpad window placed on a workspace floats and carries the
/// reserved hidden tag.
pub proof fn lemma_scratchpad_on_ws(ws: Workspace, w0: Window, w1: Window)
    requires
        setup_on_ws(ws, w0, w1, true),
    ensures
        w1.floating,
        w1.tags@.contains(crate::models::NSP_TAG),
{
    if !ws.tags@.contains(crate::models::NSP_TAG) {
        assert(w1.tags@[w1.tags@.len() - 1] == crate::models::NSP_TAG);
    }
}

/// A scratchpad (or dialog, or splash) window is inserted at the front of
/// the global stacking order, as long as no Monocle or MainAndDeck layout
/// reorders normal windows instead.
pub proof fn lemma_scratchpad_front(
    base: Seq<Window>,
    acts: Seq<DisplayAction>,
    was_fs: bool,
    w: Window,
    layout: Layout,
    s1: Seq<Window>,
    a1: Seq<DisplayAction>,
)
    requires
        insert_outcome(base, acts, was_fs, w, true, layout, s1, a1),
        !((layout == Layout::Monocle || layout == Layout::MainAndDeck) && w.type_
            == WindowType::Normal),
    ensures
        s1.len() > 0,
        s1[0] == w,
{
}

/// Under Monocle, the incoming normal window leads its tag group: it is the
/// first window of the new order that is tiled on one of its tags, and when
/// a fullscreen window occupied the tag, the newcomer inherited fullscreen.
pub proof fn lemma_monocle_leads(
    base: Seq<Window>,
    acts: Seq<DisplayAction>,
    was_fs: bool,
    w: Window,
    scratch: bool,
    s1: Seq<Window>,
    a1: Seq<DisplayAction>,
)
    requires
        insert_outcome(base, acts, was_fs, w, scratch, Layout::Monocle, s1, a1),
        w.type_ == WindowType::Normal,
        w.tags@.len() > 0,
    ensures
        exists|k: int|
            {
                &&& 0 <= k < s1.len()
                &&& (#[trigger] s1[k]).handle == w.handle
                &&& s1[k].fullscreen == (if was_fs {
                    !w.fullscreen
                } else {
                    w.fullscreen
                })
                &&& forall|j: int|
                    0 <= j < k ==> !(tags_intersect(w.tags@, (#[trigger] s1[j]).tags@)
                        && !s1[j].spec_is_unmanaged())
            },
{
    let grp = seq_filter_w(base, tag_pred(w.tags@));
    let rest = seq_filter_w(base, not_tag_pred(w.tags@));
    lemma_filter_w(base, not_tag_pred(w.tags@));
    let k = rest.len() as int;
    let w2 = if was_fs {
        crate::window_handler::fs_toggled(w)
    } else {
        w
    };
    assert(s1[k] == w2);
    assert forall|j: int| 0 <= j < k implies !(tags_intersect(
        w.tags@,
        (#[trigger] s1[j]).tags@,
    ) && !s1[j].spec_is_unmanaged()) by {
        assert(s1[j] == rest[j]);
        assert(rest.contains(rest[j]));
        assert(not_tag_pred(w.tags@)(rest[j]));
    }
}

} // verus!
