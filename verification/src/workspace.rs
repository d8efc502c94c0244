use vstd::prelude::*;
use crate::geometry::{Xyhw, spec_center_halfed, spec_avoided};
use crate::models::Layout;
use crate::window::Window;
use crate::helpers::{tags_intersect, intersect};

verus! {

/// A screen region that displays the windows of its tag set.
///
/// `avoid` is never authored directly: it is recomputed from the struts of
/// the tracked dock windows, and `xyhw_avoided` is the part of `xyhw` that
/// those struts leave usable.
#[derive(Clone, Debug)]
pub struct Workspace {
    pub tags: Vec<u64>,
    pub layout: Layout,
    pub xyhw: Xyhw,
    pub xyhw_avoided: Xyhw,
    pub avoid: Vec<Xyhw>,
    pub margin_multiplier: u32,
}

impl Workspace {
    pub fn new(tags: Vec<u64>, xyhw: Xyhw, layout: Layout) -> (r: Workspace)
        ensures
            r.tags@ == tags@,
            r.layout == layout,
            r.xyhw == xyhw,
            r.xyhw_avoided == xyhw,
            r.avoid@ == Seq::<Xyhw>::empty(),
            r.margin_multiplier == 100u32,
    {
        Workspace {
            tags,
            layout,
            xyhw,
            xyhw_avoided: xyhw,
            avoid: Vec::new(),
            margin_multiplier: 100,
        }
    }

    /// True when the point lies inside the workspace's screen rectangle.
    pub fn contains_point(&self, x: i32, y: i32) -> (r: bool)
        ensures
            r == (self.xyhw.x <= x && x <= self.xyhw.x + self.xyhw.w && self.xyhw.y <= y && y
                <= self.xyhw.y + self.xyhw.h),
    {
        self.xyhw.contains_point(x, y)
    }

    /// A rectangle of half the workspace size, centered on the workspace.
    pub fn center_halfed(&self) -> (r: Xyhw)
        ensures
            r == spec_center_halfed(self.xyhw),
    {
        self.xyhw.center_halfed()
    }

    /// The window is shown and managed on this workspace: it shares a tag
    /// with the workspace and is neither a dock nor a desktop window.
    pub open spec fn spec_is_managed(self, w: Window) -> bool {
        tags_intersect(self.tags@, w.tags@) && !w.spec_is_unmanaged()
    }

    pub fn is_managed(&self, w: &Window) -> (r: bool)
        ensures
            r == self.spec_is_managed(*w),
    {
        intersect(&self.tags, &w.tags) && !w.is_unmanaged()
    }

    /// Recompute the usable rectangle from the current `avoid` list.
    pub fn update_avoided_areas(&mut self)
        ensures
            *final(self) == (Workspace {
                xyhw_avoided: spec_avoided(old(self).xyhw, old(self).avoid@),
                ..*old(self)
            }),
    {
        let mut cur: Xyhw = self.xyhw;
        let mut i: usize = 0;
        proof {
            assert(self.avoid@.skip(0) =~= self.avoid@);
        }
        while i < self.avoid.len()
            invariant
                i <= self.avoid.len(),
                spec_avoided(cur, self.avoid@.skip(i as int)) == spec_avoided(
                    self.xyhw,
                    self.avoid@,
                ),
            decreases self.avoid.len() - i,
        {
            proof {
                assert(self.avoid@.skip(i as int).drop_first() =~= self.avoid@.skip(
                    i as int + 1,
                ));
                assert(self.avoid@.skip(i as int)[0] == self.avoid@[i as int]);
            }
            cur = cur.without(&self.avoid[i]);
            i += 1;
        }
        proof {
            assert(self.avoid@.skip(self.avoid@.len() as int) =~= Seq::<Xyhw>::empty());
        }
        self.xyhw_avoided = cur;
    }
}

} // verus!
