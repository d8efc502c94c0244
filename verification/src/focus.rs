use vstd::prelude::*;
use crate::models::FocusBehaviour;

verus! {

/// The per-tag "last focused window" association, kept as key/value pairs
/// with unique keys.
pub open spec fn tlw_unique(s: Seq<(u64, u64)>) -> bool {
    forall|i: int, j: int| 0 <= i < j < s.len() ==> (#[trigger] s[i]).0 != (#[trigger] s[j]).0
}

pub open spec fn tlw_has_key(s: Seq<(u64, u64)>, k: u64) -> bool {
    exists|i: int| 0 <= i < s.len() && (#[trigger] s[i]).0 == k
}

/// The association with every entry pointing at `handle` removed, order
/// kept.
pub open spec fn tlw_without(s: Seq<(u64, u64)>, handle: u64) -> Seq<(u64, u64)>
    decreases s.len(),
{
    if s.len() == 0 {
        Seq::empty()
    } else {
        let rest = tlw_without(s.drop_last(), handle);
        if s.last().1 != handle {
            rest.push(s.last())
        } else {
            rest
        }
    }
}

/// Removing one window's entries keeps the keys unique and keeps exactly the
/// entries that point elsewhere.
pub proof fn lemma_tlw_without(s: Seq<(u64, u64)>, handle: u64)
    requires
        tlw_unique(s),
    ensures
        tlw_unique(tlw_without(s, handle)),
        forall|q: u64, v: u64|
            #[trigger] tlw_without(s, handle).contains((q, v)) <==> (s.contains((q, v)) && v
                != handle),
    decreases s.len(),
{
    let t = tlw_without(s, handle);
    if s.len() == 0 {
        assert forall|q: u64, v: u64| !(#[trigger] t.contains((q, v))) by {
            if t.contains((q, v)) {
                let m = choose|m: int| 0 <= m < t.len() && t[m] == (q, v);
            }
        }
        assert forall|q: u64, v: u64| !(#[trigger] s.contains((q, v))) by {
            if s.contains((q, v)) {
                let m = choose|m: int| 0 <= m < s.len() && s[m] == (q, v);
            }
        }
    } else {
        let d = s.drop_last();
        let last = s.last();
        assert(tlw_unique(d)) by {
            assert forall|a: int, b: int| 0 <= a < b < d.len() implies (#[trigger] d[a]).0 != (
            #[trigger] d[b]).0 by {
                assert(s[a].0 != s[b].0);
            }
        }
        lemma_tlw_without(d, handle);
        let rest = tlw_without(d, handle);
        assert forall|q: u64, v: u64| #[trigger] t.contains((q, v)) implies (s.contains((q, v))
            && v != handle) by {
            let m = choose|m: int| 0 <= m < t.len() && t[m] == (q, v);
            if last.1 != handle && m == t.len() - 1 {
                assert(s[s.len() - 1] == (q, v));
                assert(s.contains((q, v)));
            } else {
                assert(rest[m] == (q, v));
                assert(rest.contains((q, v)));
                assert(d.contains((q, v)));
                let j = choose|j: int| 0 <= j < d.len() && d[j] == (q, v);
                assert(s[j] == (q, v));
                assert(s.contains((q, v)));
            }
        }
        assert forall|q: u64, v: u64| s.contains((q, v)) && v != handle implies
            #[trigger] t.contains((q, v)) by {
            let j = choose|j: int| 0 <= j < s.len() && s[j] == (q, v);
            if j == s.len() - 1 {
                assert(last == (q, v));
                assert(t[t.len() - 1] == (q, v));
                assert(t.contains((q, v)));
            } else {
                assert(d[j] == (q, v));
                assert(d.contains((q, v)));
                assert(rest.contains((q, v)));
                let m = choose|m: int| 0 <= m < rest.len() && rest[m] == (q, v);
                assert(t[m] == (q, v));
                assert(t.contains((q, v)));
            }
        }
        assert forall|a: int, b: int| 0 <= a < b < t.len() implies (#[trigger] t[a]).0 != (
        #[trigger] t[b]).0 by {
            if last.1 != handle && b == t.len() - 1 {
                let pa = rest[a];
                assert(pa == (pa.0, pa.1));
                assert(t[a] == pa);
                assert(rest.contains((pa.0, pa.1)));
                assert(d.contains((pa.0, pa.1)));
                let j = choose|j: int| 0 <= j < d.len() && d[j] == (pa.0, pa.1);
                assert(s[j] == pa);
                assert(s[j].0 != s[s.len() - 1].0);
            } else {
                assert(t[a] == rest[a] && t[b] == rest[b]);
            }
        }
    }
}

/// Tracks who is focused and who was: the policy, the focus history (most
/// recent first), and the last focused window of each tag.
#[derive(Clone, Debug)]
pub struct FocusManager {
    pub behaviour: FocusBehaviour,
    pub focus_new_windows: bool,
    pub window_history: Vec<Option<u64>>,
    pub workspace_history: Vec<usize>,
    pub tags_last_window: Vec<(u64, u64)>,
}

impl FocusManager {
    pub fn new(behaviour: FocusBehaviour) -> (r: FocusManager)
        ensures
            r.behaviour == behaviour,
            !r.focus_new_windows,
            r.window_history@ == Seq::<Option<u64>>::empty(),
            r.workspace_history@ == Seq::<usize>::empty(),
            r.tags_last_window@ == Seq::<(u64, u64)>::empty(),
    {
        FocusManager {
            behaviour,
            focus_new_windows: false,
            window_history: Vec::new(),
            workspace_history: Vec::new(),
            tags_last_window: Vec::new(),
        }
    }

    /// Record `handle` as the last focused window of `tag`, replacing any
    /// earlier entry for that tag.
    pub fn remember_tag(&mut self, tag: u64, handle: u64)
        requires
            tlw_unique(old(self).tags_last_window@),
        ensures
            *final(self) == (FocusManager {
                tags_last_window: final(self).tags_last_window,
                ..*old(self)
            }),
            tlw_unique(final(self).tags_last_window@),
            final(self).tags_last_window@.contains((tag, handle)),
            forall|q: u64, v: u64|
                q != tag ==> (#[trigger] final(self).tags_last_window@.contains((q, v))
                    <==> old(self).tags_last_window@.contains((q, v))),
            forall|v: u64|
                #[trigger] final(self).tags_last_window@.contains((tag, v)) ==> v == handle,
    {
        let ghost s = old(self).tags_last_window@;
        let mut i: usize = 0;
        while i < self.tags_last_window.len()
            invariant
                *self == *old(self),
                s == old(self).tags_last_window@,
                tlw_unique(s),
                i <= s.len(),
                forall|j: int| 0 <= j < i ==> (#[trigger] s[j]).0 != tag,
            decreases self.tags_last_window.len() - i,
        {
            if self.tags_last_window[i].0 == tag {
                self.tags_last_window.set(i, (tag, handle));
                proof {
                    let t = self.tags_last_window@;
                    assert(t == s.update(i as int, (tag, handle)));
                    assert(t[i as int] == (tag, handle));
                    assert(t.contains((tag, handle)));
                    assert forall|q: u64, v: u64| q != tag implies (#[trigger] t.contains(
                        (q, v),
                    ) <==> s.contains((q, v))) by {
                        if t.contains((q, v)) {
                            let j = choose|j: int| 0 <= j < t.len() && t[j] == (q, v);
                            assert(j != i);
                            assert(s[j] == (q, v));
                            assert(s.contains((q, v)));
                        }
                        if s.contains((q, v)) {
                            let j = choose|j: int| 0 <= j < s.len() && s[j] == (q, v);
                            assert(j != i);
                            assert(t[j] == (q, v));
                            assert(t.contains((q, v)));
                        }
                    }
                    assert forall|v: u64| #[trigger] t.contains((tag, v)) implies v == handle by {
                        let j = choose|j: int| 0 <= j < t.len() && t[j] == (tag, v);
                        if j != i {
                            assert(s[j] == (tag, v));
                            if j < i {
                                assert(s[j].0 != s[i as int].0);
                            } else {
                                assert(s[i as int].0 != s[j].0);
                            }
                        }
                    }
                    assert forall|a: int, b: int| 0 <= a < b < t.len() implies (
                    #[trigger] t[a]).0 != (#[trigger] t[b]).0 by {
                        assert(s[a].0 != s[b].0);
                    }
                }
                return ;
            }
            i += 1;
        }
        let ghost slen = s.len() as int;
        self.tags_last_window.push((tag, handle));
        proof {
            let t = self.tags_last_window@;
            assert(t == s.push((tag, handle)));
            assert(t[slen] == (tag, handle));
            assert(t.contains((tag, handle)));
            assert(!tlw_has_key(s, tag));
            assert forall|q: u64, v: u64| q != tag implies (#[trigger] t.contains((q, v))
                <==> s.contains((q, v))) by {
                if t.contains((q, v)) {
                    let j = choose|j: int| 0 <= j < t.len() && t[j] == (q, v);
                    assert(j != slen);
                    assert(s[j] == (q, v));
                    assert(s.contains((q, v)));
                }
                if s.contains((q, v)) {
                    let j = choose|j: int| 0 <= j < s.len() && s[j] == (q, v);
                    assert(t[j] == (q, v));
                    assert(t.contains((q, v)));
                }
            }
            assert forall|v: u64| #[trigger] t.contains((tag, v)) implies v == handle by {
                let j = choose|j: int| 0 <= j < t.len() && t[j] == (tag, v);
                if j != slen {
                    assert(s[j] == (tag, v));
                    assert(s[j].0 == tag);
                }
            }
            assert forall|a: int, b: int| 0 <= a < b < t.len() implies (#[trigger] t[a]).0 != (
            #[trigger] t[b]).0 by {
                if b != slen {
                    assert(s[a].0 != s[b].0);
                } else {
                    assert(s[a].0 != tag);
                }
            }
        }
    }

    /// Drop every "last focused on tag" entry that points at `handle`; used
    /// when that window is destroyed.
    pub fn forget_window(&mut self, handle: u64)
        requires
            tlw_unique(old(self).tags_last_window@),
        ensures
            *final(self) == (FocusManager {
                tags_last_window: final(self).tags_last_window,
                ..*old(self)
            }),
            final(self).tags_last_window@ == tlw_without(old(self).tags_last_window@, handle),
            tlw_unique(final(self).tags_last_window@),
            forall|q: u64, v: u64|
                #[trigger] final(self).tags_last_window@.contains((q, v)) <==> (old(
                    self,
                ).tags_last_window@.contains((q, v)) && v != handle),
    {
        let ghost s = old(self).tags_last_window@;
        let mut out: Vec<(u64, u64)> = Vec::new();
        let mut i: usize = 0;
        proof {
            assert(s.take(0) =~= Seq::<(u64, u64)>::empty());
        }
        while i < self.tags_last_window.len()
            invariant
                *self == *old(self),
                s == old(self).tags_last_window@,
                i <= s.len(),
                out@ == tlw_without(s.take(i as int), handle),
            decreases self.tags_last_window.len() - i,
        {
            let p = self.tags_last_window[i];
            proof {
                assert(s.take(i as int + 1).drop_last() =~= s.take(i as int));
                assert(s.take(i as int + 1).last() == s[i as int]);
            }
            if p.1 != handle {
                out.push(p);
            }
            i += 1;
        }
        proof {
            assert(s.take(s.len() as int) =~= s);
            lemma_tlw_without(s, handle);
        }
        self.tags_last_window = out;
    }

    /// Prepend an entry to the focus history (most recent first).
    pub fn prepend_history(&mut self, entry: Option<u64>)
        ensures
            *final(self) == (FocusManager {
                window_history: final(self).window_history,
                ..*old(self)
            }),
            final(self).window_history@ == old(self).window_history@.insert(0, entry),
    {
        self.window_history.insert(0, entry);
    }
}

} // verus!
