//! What is learnt of an output from its first events, before a session
//! starts on it.

use crate::paper::Paper;
use crate::text::{contains, has_infix};
use vstd::prelude::*;

verus! {

/// An output as its advertisement and its geometry, mode and scale events describe it.
///
/// Once each of the three events has been seen the descriptor is configured and
/// takes no further change.
pub struct OutputDescriptor {
    /// The compositor's handle for the output.
    pub id: u32,
    /// The name the output reported in its geometry event.
    pub name: String,
    pub scale: i32,
    pub width: i32,
    pub height: i32,
    pub seen_geometry: bool,
    pub seen_mode: bool,
    pub seen_scale: bool,
    pub configured: bool,
    /// The output filter lets this output be drawn on.
    pub selected: bool,
}

/// An output named `name` is drawn on under `filter`: no filter, or one that occurs in the name.
pub open spec fn selected_by(filter: Option<String>, name: Seq<char>) -> bool {
    match filter {
        Some(f) => contains(name, f@),
        None => true,
    }
}

/// Whether an output named `name` is drawn on under `filter`.
pub fn selects(filter: &Option<String>, name: &str) -> (r: bool)
    ensures
        r == selected_by(*filter, name@),
{
    match filter {
        Some(f) => has_infix(name, f.as_str()),
        None => true,
    }
}

/// The exclusive zone the surface asks for: `1` when a border is drawn, so that
/// other surfaces keep clear of it, and `-1` otherwise.
pub fn exclusive_zone(paper: &Paper) -> (r: i32)
    ensures
        r == if paper.border is Some { 1i32 } else { -1i32 },
{
    if paper.border.is_some() {
        1
    } else {
        -1
    }
}

impl OutputDescriptor {
    /// Scale at least one, and configured exactly when all three events have been seen.
    pub open spec fn wf(&self) -> bool {
        &&& self.scale >= 1
        &&& self.configured == (self.seen_geometry && self.seen_mode && self.seen_scale)
    }

    /// A freshly advertised output: no name, no size, scale one, selected until its name says otherwise.
    pub fn new(id: u32) -> (r: Self)
        ensures
            r.wf(),
            r.id == id,
            r.name@.len() == 0,
            r.scale == 1,
            r.width == 0,
            r.height == 0,
            !r.seen_geometry && !r.seen_mode && !r.seen_scale,
            !r.configured,
            r.selected,
    {
        OutputDescriptor {
            id,
            name: String::new(),
            scale: 1,
            width: 0,
            height: 0,
            seen_geometry: false,
            seen_mode: false,
            seen_scale: false,
            configured: false,
            selected: true,
        }
    }

    /// The geometry event: records the output's name and whether `filter` selects it.
    pub fn on_geometry(&mut self, name: String, filter: &Option<String>)
        requires
            old(self).wf(),
        ensures
            final(self).wf(),
            old(self).configured ==> *final(self) == *old(self),
            !old(self).configured ==> *final(self) == (OutputDescriptor {
                name,
                selected: selected_by(*filter, name@),
                seen_geometry: true,
                configured: old(self).seen_mode && old(self).seen_scale,
                ..*old(self)
            }),
    {
        if self.configured {
            return;
        }
        let selected = selects(filter, name.as_str());
        self.name = name;
        self.selected = selected;
        self.seen_geometry = true;
        self.configured = self.seen_mode && self.seen_scale;
    }

    /// The mode event: records the output's size in pixels.
    pub fn on_mode(&mut self, width: i32, height: i32)
        requires
            old(self).wf(),
        ensures
            final(self).wf(),
            old(self).configured ==> *final(self) == *old(self),
            !old(self).configured ==> *final(self) == (OutputDescriptor {
                width,
                height,
                seen_mode: true,
                configured: old(self).seen_geometry && old(self).seen_scale,
                ..*old(self)
            }),
    {
        if self.configured {
            return;
        }
        self.width = width;
        self.height = height;
        self.seen_mode = true;
        self.configured = self.seen_geometry && self.seen_scale;
    }

    /// The scale event: records the scale factor, taking one for a factor below one.
    pub fn on_scale(&mut self, factor: i32)
        requires
            old(self).wf(),
        ensures
            final(self).wf(),
            old(self).configured ==> *final(self) == *old(self),
            !old(self).configured ==> *final(self) == (OutputDescriptor {
                scale: if factor >= 1 { factor } else { 1i32 },
                seen_scale: true,
                configured: old(self).seen_geometry && old(self).seen_mode,
                ..*old(self)
            }),
    {
        if self.configured {
            return;
        }
        self.scale = if factor >= 1 {
            factor
        } else {
            1
        };
        self.seen_scale = true;
        self.configured = self.seen_geometry && self.seen_mode;
    }

    /// A session may start on this output: it is configured and the filter selects it.
    pub fn is_ready(&self) -> (r: bool)
        ensures
            r == (self.configured && self.selected),
    {
        self.configured && self.selected
    }
}

} // verus!
