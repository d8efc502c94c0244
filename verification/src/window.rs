use vstd::prelude::*;
use crate::geometry::{Xyhw, spec_offset_add, spec_offset_sub, offset_add, offset_sub};
use crate::models::{WindowType, DisplayAction};

verus! {

/// A managed on-screen client window.
///
/// `handle` is the opaque, stable identity the display protocol gave the
/// window; it is unique across the live window sequence. `normal` is the
/// tiled geometry; a floating window additionally carries `floating_offsets`
/// relative to `normal`.
#[derive(Clone, Debug)]
pub struct Window {
    pub handle: u64,
    pub transient: Option<u64>,
    pub pid: Option<u32>,
    pub type_: WindowType,
    pub tags: Vec<u64>,
    pub border: i32,
    pub margin_multiplier: u32,
    pub fullscreen: bool,
    pub floating: bool,
    pub floating_offsets: Option<Xyhw>,
    pub normal: Xyhw,
    pub requested: Option<Xyhw>,
    pub start_loc: Option<Xyhw>,
    pub strut: Option<Xyhw>,
}

impl Window {
    /// A fresh window as the create event hands it over: untagged, tiled,
    /// with the client-declared type, geometry and kinship.
    pub fn new(
        handle: u64,
        type_: WindowType,
        normal: Xyhw,
        transient: Option<u64>,
        pid: Option<u32>,
        requested: Option<Xyhw>,
        strut: Option<Xyhw>,
    ) -> (r: Window)
        ensures
            r.handle == handle,
            r.type_ == type_,
            r.normal == normal,
            r.transient == transient,
            r.pid == pid,
            r.requested == requested,
            r.strut == strut,
            r.tags@ == Seq::<u64>::empty(),
            r.border == 1,
            r.margin_multiplier == 100u32,
            !r.fullscreen,
            !r.floating,
            r.floating_offsets is None,
            r.start_loc is None,
    {
        Window {
            handle,
            transient,
            pid,
            type_,
            tags: Vec::new(),
            border: 1,
            margin_multiplier: 100,
            fullscreen: false,
            floating: false,
            floating_offsets: None,
            normal,
            requested,
            start_loc: None,
            strut,
        }
    }

    pub open spec fn spec_is_unmanaged(self) -> bool {
        self.type_ == WindowType::Desktop || self.type_ == WindowType::Dock
    }

    /// Desktop and dock windows are displayed but never tiled or focused by
    /// the placement rules.
    pub fn is_unmanaged(&self) -> (r: bool)
        ensures
            r == self.spec_is_unmanaged(),
    {
        self.type_ == WindowType::Desktop || self.type_ == WindowType::Dock
    }

    pub fn is_fullscreen(&self) -> (r: bool)
        ensures
            r == self.fullscreen,
    {
        self.fullscreen
    }

    /// Make the window float or tile. The first time a window floats it gets
    /// a zero offset from its tiled position.
    pub fn set_floating(&mut self, value: bool)
        ensures
            *final(self) == (Window {
                floating: value,
                floating_offsets: if value && old(self).floating_offsets is None {
                    Some(Xyhw { x: 0, y: 0, w: 0, h: 0 })
                } else {
                    old(self).floating_offsets
                },
                ..*old(self)
            }),
    {
        if value && self.floating_offsets.is_none() {
            self.floating_offsets = Some(Xyhw { x: 0, y: 0, w: 0, h: 0 });
        }
        self.floating = value;
    }

    pub fn get_floating_offsets(&self) -> (r: Option<Xyhw>)
        ensures
            r == self.floating_offsets,
    {
        self.floating_offsets
    }

    pub fn set_floating_offsets(&mut self, offsets: Option<Xyhw>)
        ensures
            *final(self) == (Window { floating_offsets: offsets, ..*old(self) }),
    {
        self.floating_offsets = offsets;
    }

    /// Float the window at the exact rectangle `exact`, stored as an offset
    /// from the tiled geometry.
    pub fn set_floating_exact(&mut self, exact: Xyhw)
        ensures
            *final(self) == (Window {
                floating_offsets: Some(spec_offset_sub(exact, old(self).normal)),
                ..*old(self)
            }),
    {
        let off = offset_sub(&exact, &self.normal);
        self.floating_offsets = Some(off);
    }

    /// The geometry the window is shown at: the tiled geometry, shifted by
    /// the floating offsets when the window floats.
    pub open spec fn spec_calculated_xyhw(self) -> Xyhw {
        if self.floating && self.floating_offsets is Some {
            spec_offset_add(self.normal, self.floating_offsets->0)
        } else {
            self.normal
        }
    }

    pub fn calculated_xyhw(&self) -> (r: Xyhw)
        ensures
            r == self.spec_calculated_xyhw(),
    {
        match self.floating_offsets {
            Some(off) if self.floating => offset_add(&self.normal, &off),
            _ => self.normal,
        }
    }

    /// Record the workspace's margin multiplier on the window.
    pub fn apply_margin_multiplier(&mut self, multiplier: u32)
        ensures
            *final(self) == (Window { margin_multiplier: multiplier, ..*old(self) }),
    {
        self.margin_multiplier = multiplier;
    }

    /// Flip the fullscreen flag and hand back the protocol action that tells
    /// the display server about the new state.
    pub fn toggle_fullscreen(&mut self) -> (r: DisplayAction)
        ensures
            *final(self) == (Window { fullscreen: !old(self).fullscreen, ..*old(self) }),
            r == DisplayAction::SetFullScreen(old(self).handle, !old(self).fullscreen),
    {
        self.fullscreen = !self.fullscreen;
        DisplayAction::SetFullScreen(self.handle, self.fullscreen)
    }

    pub fn has_tag(&self, tag: u64) -> (r: bool)
        ensures
            r == self.tags@.contains(tag),
    {
        let mut i: usize = 0;
        while i < self.tags.len()
            invariant
                i <= self.tags.len(),
                forall|j: int| 0 <= j < i ==> self.tags@[j] != tag,
            decreases self.tags.len() - i,
        {
            if self.tags[i] == tag {
                return true;
            }
            i += 1;
        }
        false
    }

    /// Add the tag to the window's tag list if it is not already there.
    pub fn tag(&mut self, tag: u64)
        ensures
            *final(self) == (Window { tags: final(self).tags, ..*old(self) }),
            final(self).tags@ == if old(self).tags@.contains(tag) {
                old(self).tags@
            } else {
                old(self).tags@.push(tag)
            },
    {
        if !self.has_tag(tag) {
            self.tags.push(tag);
        }
    }
}

/// A property update for one tracked window, as a change event carries it.
/// A field of `None` was not touched by the event.
#[derive(Clone, Debug)]
pub struct WindowChange {
    pub handle: u64,
    pub transient: Option<Option<u64>>,
    pub strut: Option<Option<Xyhw>>,
    pub type_: Option<WindowType>,
    pub requested: Option<Option<Xyhw>>,
}

impl WindowChange {
    pub fn new(handle: u64) -> (r: WindowChange)
        ensures
            r.handle == handle,
            r.transient is None,
            r.strut is None,
            r.type_ is None,
            r.requested is None,
    {
        WindowChange { handle, transient: None, strut: None, type_: None, requested: None }
    }

    /// True when the change carries at least one touched field.
    pub open spec fn spec_touches_any(self) -> bool {
        self.transient is Some || self.strut is Some || self.type_ is Some
            || self.requested is Some
    }

    /// Apply every touched field to the window; reports whether the change
    /// carried any field at all.
    pub fn update(&self, w: &mut Window) -> (changed: bool)
        ensures
            changed == self.spec_touches_any(),
            *final(w) == (Window {
                transient: if self.transient is Some {
                    self.transient->0
                } else {
                    old(w).transient
                },
                strut: if self.strut is Some {
                    self.strut->0
                } else {
                    old(w).strut
                },
                type_: if self.type_ is Some {
                    self.type_->0
                } else {
                    old(w).type_
                },
                requested: if self.requested is Some {
                    self.requested->0
                } else {
                    old(w).requested
                },
                ..*old(w)
            }),
    {
        let mut changed = false;
        if let Some(t) = self.transient {
            w.transient = t;
            changed = true;
        }
        if let Some(s) = self.strut {
            w.strut = s;
            changed = true;
        }
        if let Some(t) = self.type_ {
            w.type_ = t;
            changed = true;
        }
        if let Some(rq) = self.requested {
            w.requested = rq;
            changed = true;
        }
        changed
    }
}

} // verus!
