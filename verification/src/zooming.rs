//! The zoom window on the picture.

use vstd::prelude::*;
use vstd::string::*;
use crate::text::{decimal, decimal_string};

verus! {

/// A change of the zoom window.
#[derive(Debug, Copy, Clone, PartialEq, Eq)]
pub enum ZoomUpdateKind {
    /// Narrow the window by a hundred times this many pixels; widen it where the
    /// number is negative.
    WindowWidth(i16),
    /// Move the window along the horizontal axis by this many pixels.
    PosX(i16),
    /// Move the window along the vertical axis by this many pixels.
    PosY(i16),
}

/// The window that is cut out of the picture: its size and its place in a picture of
/// `max_width` by `max_height` pixels.
#[derive(Debug, Copy, Clone, PartialEq, Eq)]
pub struct Zoom {
    pub max_width: u32,
    pub max_height: u32,
    pub zoom_width: u32,
    pub zoom_height: u32,
    pub zoom_posx: u32,
    pub zoom_posy: u32,
}

/// The width after a change by `delta` hundreds of pixels: the width stays where more
/// would be taken than it has, and is never more than the picture's.
pub open spec fn width_after_change(zoom: Zoom, delta: i16) -> u32 {
    if delta * 100 > zoom.zoom_width {
        zoom.zoom_width
    } else if zoom.zoom_width - delta * 100 > zoom.max_width {
        zoom.max_width
    } else {
        (zoom.zoom_width - delta * 100) as u32
    }
}

/// The place after a move by `delta` pixels from `pos`, with `room` pixels to move
/// in: the place stays where the move would lead below 0, and is never more than the
/// room.
pub open spec fn moved(pos: u32, delta: i16, room: u32) -> u32 {
    if pos + delta < 0 {
        pos
    } else if pos + delta > room {
        room
    } else {
        (pos + delta) as u32
    }
}

/// The zoom window after the change `kind`. A new width brings the height `height`
/// with it.
pub open spec fn zoom_after(zoom: Zoom, kind: ZoomUpdateKind, height: u32) -> Zoom {
    match kind {
        ZoomUpdateKind::WindowWidth(delta) => Zoom {
            zoom_width: width_after_change(zoom, delta),
            zoom_height: height,
            ..zoom
        },
        ZoomUpdateKind::PosX(delta) => Zoom {
            zoom_posx: moved(zoom.zoom_posx, delta, (zoom.max_width - zoom.zoom_width) as u32),
            ..zoom
        },
        ZoomUpdateKind::PosY(delta) => Zoom {
            zoom_posy: moved(zoom.zoom_posy, delta, (zoom.max_height - zoom.zoom_height) as u32),
            ..zoom
        },
    }
}

/// The geometry of the zoom window as the player reads it: width, `x`, height, and
/// the two places, each behind a plus sign.
pub open spec fn geometry_text(zoom: Zoom) -> Seq<char> {
    decimal(zoom.zoom_width as nat) + "x"@ + decimal(zoom.zoom_height as nat) + "+"@ + decimal(
        zoom.zoom_posy as nat,
    ) + "+"@ + decimal(zoom.zoom_posx as nat)
}

impl Zoom {
    /// The invariant of the type: the window is no larger than the picture.
    pub open spec fn wf(&self) -> bool {
        self.zoom_width <= self.max_width && self.zoom_height <= self.max_height
    }

    /// The zoom window that shows the whole picture of `resolution`, width and height.
    pub fn new(resolution: (u32, u32)) -> (r: Zoom)
        ensures
            r.wf(),
            r == (Zoom {
                max_width: resolution.0,
                max_height: resolution.1,
                zoom_width: resolution.0,
                zoom_height: resolution.1,
                zoom_posx: 0,
                zoom_posy: 0,
            }),
    {
        Zoom {
            max_width: resolution.0,
            max_height: resolution.1,
            zoom_width: resolution.0,
            zoom_height: resolution.1,
            zoom_posx: 0,
            zoom_posy: 0,
        }
    }

    /// The width that the window has after a change by `delta` hundreds of pixels.
    pub fn width_after(&self, delta: i16) -> (w: u32)
        requires
            self.wf(),
        ensures
            w == width_after_change(*self, delta),
            w <= self.max_width,
    {
        let taken: i64 = delta as i64 * 100;
        let width: i64 = self.zoom_width as i64;
        if taken > width {
            self.zoom_width
        } else if width - taken > self.max_width as i64 {
            self.max_width
        } else {
            (width - taken) as u32
        }
    }

    /// Changes the zoom window by `kind`. With a new width the window takes the height
    /// `height`, which the surroundings work out from the width that `width_after`
    /// gives; with a move `height` is not looked at.
    pub fn update_zoom(&mut self, kind: ZoomUpdateKind, height: u32)
        requires
            old(self).wf(),
            kind is WindowWidth ==> height <= old(self).max_height,
        ensures
            final(self).wf(),
            *final(self) == zoom_after(*old(self), kind, height),
    {
        match kind {
            ZoomUpdateKind::WindowWidth(delta) => {
                self.zoom_width = self.width_after(delta);
                self.zoom_height = height;
            },
            ZoomUpdateKind::PosX(delta) => {
                self.zoom_posx = shift(self.zoom_posx, delta, self.max_width - self.zoom_width);
            },
            ZoomUpdateKind::PosY(delta) => {
                self.zoom_posy = shift(self.zoom_posy, delta, self.max_height - self.zoom_height);
            },
        }
    }

    /// The geometry of the zoom window as the player reads it.
    pub fn geometry(&self) -> (r: String)
        ensures
            r@ == geometry_text(*self),
    {
        let mut r = decimal_string(self.zoom_width as u64);
        r.append("x");
        let height = decimal_string(self.zoom_height as u64);
        r.append(height.as_str());
        r.append("+");
        let posy = decimal_string(self.zoom_posy as u64);
        r.append(posy.as_str());
        r.append("+");
        let posx = decimal_string(self.zoom_posx as u64);
        r.append(posx.as_str());
        r
    }
}

/// The place after a move by `delta` pixels from `pos`, with `room` pixels to move in.
fn shift(pos: u32, delta: i16, room: u32) -> (r: u32)
    ensures
        r == moved(pos, delta, room),
{
    let target: i64 = pos as i64 + delta as i64;
    if target < 0 {
        pos
    } else if target > room as i64 {
        room
    } else {
        target as u32
    }
}

} // verus!
