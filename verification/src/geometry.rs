use vstd::prelude::*;

verus! {

/// A rectangle on the screen: position `(x, y)` and size `(w, h)`.
///
/// All placement math in this crate saturates at the `i32` range instead of
/// wrapping or panicking, so no caller has to prove bounds on coordinates.
#[derive(Clone, Copy, Debug, PartialEq, Eq, Structural)]
pub struct Xyhw {
    pub x: i32,
    pub y: i32,
    pub h: i32,
    pub w: i32,
}

/// The point `(px, py)` lies inside `r`, edges included.
pub open spec fn spec_contains(r: Xyhw, px: int, py: int) -> bool {
    r.x <= px && px <= r.x + r.w && r.y <= py && py <= r.y + r.h
}

/// Clamp a mathematical integer into the `i32` range.
pub open spec fn clip(v: int) -> int {
    if v < i32::MIN as int {
        i32::MIN as int
    } else if v > i32::MAX as int {
        i32::MAX as int
    } else {
        v
    }
}

/// Half of a length; degenerate (negative) lengths are treated as zero.
pub open spec fn half(v: int) -> int {
    if v >= 0 {
        v / 2
    } else {
        0
    }
}

pub open spec fn imax(a: int, b: int) -> int {
    if a >= b {
        a
    } else {
        b
    }
}

pub open spec fn imin(a: int, b: int) -> int {
    if a <= b {
        a
    } else {
        b
    }
}

/// Saturating addition of two coordinates.
pub fn sat_add(a: i32, b: i32) -> (r: i32)
    ensures
        r as int == clip(a as int + b as int),
{
    let s: i64 = a as i64 + b as i64;
    if s > i32::MAX as i64 {
        i32::MAX
    } else if s < i32::MIN as i64 {
        i32::MIN
    } else {
        s as i32
    }
}

/// Saturating subtraction of two coordinates.
pub fn sat_sub(a: i32, b: i32) -> (r: i32)
    ensures
        r as int == clip(a as int - b as int),
{
    let s: i64 = a as i64 - b as i64;
    if s > i32::MAX as i64 {
        i32::MAX
    } else if s < i32::MIN as i64 {
        i32::MIN
    } else {
        s as i32
    }
}

/// Half of a length, as executable code; negative lengths give zero.
pub fn half_len(v: i32) -> (r: i32)
    ensures
        r as int == half(v as int),
{
    if v >= 0 {
        ((v as u32) / 2) as i32
    } else {
        0
    }
}

/// The rectangle `a` offset by `b`, field by field, saturating.
pub open spec fn spec_offset_add(a: Xyhw, b: Xyhw) -> Xyhw {
    Xyhw {
        x: clip(a.x + b.x) as i32,
        y: clip(a.y + b.y) as i32,
        w: clip(a.w + b.w) as i32,
        h: clip(a.h + b.h) as i32,
    }
}

/// The field-by-field difference `a - b`, saturating.
pub open spec fn spec_offset_sub(a: Xyhw, b: Xyhw) -> Xyhw {
    Xyhw {
        x: clip(a.x - b.x) as i32,
        y: clip(a.y - b.y) as i32,
        w: clip(a.w - b.w) as i32,
        h: clip(a.h - b.h) as i32,
    }
}

pub fn offset_add(a: &Xyhw, b: &Xyhw) -> (r: Xyhw)
    ensures
        r == spec_offset_add(*a, *b),
{
    Xyhw { x: sat_add(a.x, b.x), y: sat_add(a.y, b.y), w: sat_add(a.w, b.w), h: sat_add(a.h, b.h) }
}

pub fn offset_sub(a: &Xyhw, b: &Xyhw) -> (r: Xyhw)
    ensures
        r == spec_offset_sub(*a, *b),
{
    Xyhw { x: sat_sub(a.x, b.x), y: sat_sub(a.y, b.y), w: sat_sub(a.w, b.w), h: sat_sub(a.h, b.h) }
}

/// A rectangle of half the size of `r`, centered inside `r`.
pub open spec fn spec_center_halfed(r: Xyhw) -> Xyhw {
    Xyhw {
        x: clip(r.x + half(half(r.w as int))) as i32,
        y: clip(r.y + half(half(r.h as int))) as i32,
        w: half(r.w as int) as i32,
        h: half(r.h as int) as i32,
    }
}

/// The floating offsets that give a window of the client-requested size
/// `req`, centered inside the workspace rectangle `wsr`, relative to a tiled
/// geometry equal to `wsr`.
pub open spec fn spec_centered_of(wsr: Xyhw, req: Xyhw) -> Xyhw {
    Xyhw {
        x: half(clip(wsr.w - req.w)) as i32,
        y: half(clip(wsr.h - req.h)) as i32,
        w: clip(req.w - wsr.w) as i32,
        h: clip(req.h - wsr.h) as i32,
    }
}

pub fn centered_of(wsr: &Xyhw, req: &Xyhw) -> (r: Xyhw)
    ensures
        r == spec_centered_of(*wsr, *req),
{
    Xyhw {
        x: half_len(sat_sub(wsr.w, req.w)),
        y: half_len(sat_sub(wsr.h, req.h)),
        w: sat_sub(req.w, wsr.w),
        h: sat_sub(req.h, wsr.h),
    }
}

/// A rectangle `r` with a strut rectangle `a` carved away from the screen
/// edge the strut occupies. A strut wider than tall is taken from the top or
/// bottom (whichever half of `r` holds its center), otherwise from the left
/// or right.
pub open spec fn spec_without(r: Xyhw, a: Xyhw) -> Xyhw {
    if a.w >= a.h {
        if a.y + half(a.h as int) <= r.y + half(r.h as int) {
            let ntop = imax(r.y as int, imin(a.y + a.h, r.y + r.h));
            Xyhw { x: r.x, w: r.w, y: clip(ntop) as i32, h: clip(r.y + r.h - ntop) as i32 }
        } else {
            let nbottom = imin(r.y + r.h, imax(a.y as int, r.y as int));
            Xyhw { x: r.x, w: r.w, y: r.y, h: clip(nbottom - r.y) as i32 }
        }
    } else {
        if a.x + half(a.w as int) <= r.x + half(r.w as int) {
            let nleft = imax(r.x as int, imin(a.x + a.w, r.x + r.w));
            Xyhw { y: r.y, h: r.h, x: clip(nleft) as i32, w: clip(r.x + r.w - nleft) as i32 }
        } else {
            let nright = imin(r.x + r.w, imax(a.x as int, r.x as int));
            Xyhw { y: r.y, h: r.h, x: r.x, w: clip(nright - r.x) as i32 }
        }
    }
}

/// The usable rectangle that remains of `r` after carving away each strut in
/// turn, front to back.
pub open spec fn spec_avoided(r: Xyhw, struts: Seq<Xyhw>) -> Xyhw
    decreases struts.len(),
{
    if struts.len() == 0 {
        r
    } else {
        spec_avoided(spec_without(r, struts[0]), struts.drop_first())
    }
}

impl Xyhw {
    /// True when the point `(px, py)` lies inside this rectangle (edges
    /// included).
    pub fn contains_point(&self, px: i32, py: i32) -> (r: bool)
        ensures
            r == (self.x <= px && px <= self.x + self.w && self.y <= py && py <= self.y
                + self.h),
    {
        let x = self.x as i64;
        let y = self.y as i64;
        let w = self.w as i64;
        let h = self.h as i64;
        x <= px as i64 && px as i64 <= x + w && y <= py as i64 && py as i64 <= y + h
    }

    /// The center point of the rectangle.
    pub fn center(&self) -> (r: (i32, i32))
        ensures
            r.0 as int == clip(self.x + half(self.w as int)),
            r.1 as int == clip(self.y + half(self.h as int)),
    {
        (sat_add(self.x, half_len(self.w)), sat_add(self.y, half_len(self.h)))
    }

    /// A rectangle of half this size, centered inside this one.
    pub fn center_halfed(&self) -> (r: Xyhw)
        ensures
            r == spec_center_halfed(*self),
    {
        Xyhw {
            x: sat_add(self.x, half_len(half_len(self.w))),
            y: sat_add(self.y, half_len(half_len(self.h))),
            w: half_len(self.w),
            h: half_len(self.h),
        }
    }

    /// This rectangle with the strut `a` carved away from one edge.
    pub fn without(&self, a: &Xyhw) -> (r: Xyhw)
        ensures
            r == spec_without(*self, *a),
    {
        if a.w >= a.h {
            if a.y as i64 + half_len(a.h) as i64 <= self.y as i64 + half_len(self.h) as i64 {
                let top = self.y as i64;
                let bottom = self.y as i64 + self.h as i64;
                let sb = a.y as i64 + a.h as i64;
                let m = if sb < bottom {
                    sb
                } else {
                    bottom
                };
                let ntop = if m > top {
                    m
                } else {
                    top
                };
                Xyhw {
                    x: self.x,
                    w: self.w,
                    y: clip_i64(ntop),
                    h: clip_i64(bottom - ntop),
                }
            } else {
                let top = self.y as i64;
                let bottom = self.y as i64 + self.h as i64;
                let st = a.y as i64;
                let m = if st > top {
                    st
                } else {
                    top
                };
                let nbottom = if m < bottom {
                    m
                } else {
                    bottom
                };
                Xyhw { x: self.x, w: self.w, y: self.y, h: clip_i64(nbottom - top) }
            }
        } else {
            if a.x as i64 + half_len(a.w) as i64 <= self.x as i64 + half_len(self.w) as i64 {
                let left = self.x as i64;
                let right = self.x as i64 + self.w as i64;
                let sr = a.x as i64 + a.w as i64;
                let m = if sr < right {
                    sr
                } else {
                    right
                };
                let nleft = if m > left {
                    m
                } else {
                    left
                };
                Xyhw {
                    y: self.y,
                    h: self.h,
                    x: clip_i64(nleft),
                    w: clip_i64(right - nleft),
                }
            } else {
                let left = self.x as i64;
                let right = self.x as i64 + self.w as i64;
                let sl = a.x as i64;
                let m = if sl > left {
                    sl
                } else {
                    left
                };
                let nright = if m < right {
                    m
                } else {
                    right
                };
                Xyhw { y: self.y, h: self.h, x: self.x, w: clip_i64(nright - left) }
            }
        }
    }
}

/// Clamp a wide intermediate value back into `i32`.
pub fn clip_i64(v: i64) -> (r: i32)
    ensures
        r as int == clip(v as int),
{
    if v > i32::MAX as i64 {
        i32::MAX
    } else if v < i32::MIN as i64 {
        i32::MIN
    } else {
        v as i32
    }
}

} // verus!
