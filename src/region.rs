//! The part of a frame that a scanner reads: a rectangle anchored at one of
//! the frame's corners.
use vstd::prelude::*;
use crate::frame::VideoGeometry;

verus! {

/// The frame corner a scan region is attached to.
#[derive(Clone, Copy, PartialEq, Eq, Debug, Structural)]
pub enum Anchor {
    TopLeft,
    TopRight,
    BottomLeft,
    BottomRight,
}

/// The anchor a position name selects: `top-right`, `bottom-left` and
/// `bottom-right` name their corners, anything else means the top-left one.
pub open spec fn anchor_named(name: Option<Seq<char>>) -> Anchor {
    match name {
        Some(s) => if s == "top-right"@ {
            Anchor::TopRight
        } else if s == "bottom-left"@ {
            Anchor::BottomLeft
        } else if s == "bottom-right"@ {
            Anchor::BottomRight
        } else {
            Anchor::TopLeft
        },
        None => Anchor::TopLeft,
    }
}

impl Anchor {
    pub open spec fn spec_position(self) -> Seq<char> {
        match self {
            Anchor::TopLeft => "top-left"@,
            Anchor::TopRight => "top-right"@,
            Anchor::BottomLeft => "bottom-left"@,
            Anchor::BottomRight => "bottom-right"@,
        }
    }

    /// The anchor for a position name (see `anchor_named`).
    pub fn from_position(name: &Option<String>) -> (r: Anchor)
        ensures
            r == anchor_named(
                match name {
                    Some(s) => Some(s@),
                    None => None,
                },
            ),
    {
        match name {
            Some(s) => {
                if *s == "top-right".to_owned() {
                    Anchor::TopRight
                } else if *s == "bottom-left".to_owned() {
                    Anchor::BottomLeft
                } else if *s == "bottom-right".to_owned() {
                    Anchor::BottomRight
                } else {
                    Anchor::TopLeft
                }
            },
            None => Anchor::TopLeft,
        }
    }

    /// The position name of this anchor.
    pub fn position(&self) -> (r: String)
        ensures
            r@ == self.spec_position(),
    {
        match self {
            Anchor::TopLeft => "top-left".to_owned(),
            Anchor::TopRight => "top-right".to_owned(),
            Anchor::BottomLeft => "bottom-left".to_owned(),
            Anchor::BottomRight => "bottom-right".to_owned(),
        }
    }
}

/// A rectangle of pixels: its top-left corner and its extent.
#[derive(Clone, Copy, PartialEq, Eq, Debug, Structural)]
pub struct Rect {
    pub x: u32,
    pub y: u32,
    pub width: u32,
    pub height: u32,
}

impl Rect {
    pub open spec fn inside(self, g: VideoGeometry) -> bool {
        self.x + self.width <= g.width && self.y + self.height <= g.height
    }
}

/// A scan region: an anchor corner and a size, where a zero width or height
/// stands for the whole extent of the frame in that direction.
#[derive(Clone, Copy, PartialEq, Eq, Debug, Structural)]
pub struct ScanRegion {
    pub anchor: Anchor,
    pub width: u32,
    pub height: u32,
}

impl ScanRegion {
    /// The whole frame, anchored at the top-left corner.
    pub fn full_frame() -> (r: ScanRegion)
        ensures
            r == (ScanRegion { anchor: Anchor::TopLeft, width: 0, height: 0 }),
    {
        ScanRegion { anchor: Anchor::TopLeft, width: 0, height: 0 }
    }

    pub open spec fn extent_width(self, g: VideoGeometry) -> u32 {
        if self.width == 0 {
            g.width
        } else {
            self.width
        }
    }

    pub open spec fn extent_height(self, g: VideoGeometry) -> u32 {
        if self.height == 0 {
            g.height
        } else {
            self.height
        }
    }

    pub open spec fn fits(self, g: VideoGeometry) -> bool {
        self.extent_width(g) <= g.width && self.extent_height(g) <= g.height
    }

    /// The rectangle this region covers in a frame of geometry `g`: right
    /// anchors sit `extent` pixels from the right edge, bottom anchors from the
    /// bottom edge, the others at offset 0.
    pub open spec fn spec_rect(self, g: VideoGeometry) -> Rect {
        let w = self.extent_width(g);
        let h = self.extent_height(g);
        let x = match self.anchor {
            Anchor::TopRight | Anchor::BottomRight => g.width - w,
            _ => 0,
        };
        let y = match self.anchor {
            Anchor::BottomLeft | Anchor::BottomRight => g.height - h,
            _ => 0,
        };
        Rect { x: x as u32, y: y as u32, width: w, height: h }
    }

    /// The rectangle this region covers in a frame of geometry `g`, or `None`
    /// where the region is larger than the frame.
    pub fn rect(&self, g: &VideoGeometry) -> (r: Option<Rect>)
        ensures
            r == if self.fits(*g) {
                Some(self.spec_rect(*g))
            } else {
                None::<Rect>
            },
            r matches Some(q) ==> q.inside(*g),
    {
        let w = if self.width == 0 {
            g.width
        } else {
            self.width
        };
        let h = if self.height == 0 {
            g.height
        } else {
            self.height
        };
        if w > g.width || h > g.height {
            return None;
        }
        let x = match self.anchor {
            Anchor::TopRight | Anchor::BottomRight => g.width - w,
            _ => 0,
        };
        let y = match self.anchor {
            Anchor::BottomLeft | Anchor::BottomRight => g.height - h,
            _ => 0,
        };
        Some(Rect { x, y, width: w, height: h })
    }
}

} // verus!
