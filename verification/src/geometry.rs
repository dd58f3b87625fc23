//! Points and the canvas they are placed on.

use crate::random::random_below;
use vstd::prelude::*;

verus! {

/// A position on the canvas, in pixels.
#[derive(Clone, Copy, Debug, PartialEq, Eq, Structural)]
pub struct Point {
    pub x: i32,
    pub y: i32,
}

impl Point {
    pub fn new(x: i32, y: i32) -> (p: Point)
        ensures
            p.x == x,
            p.y == y,
    {
        Point { x, y }
    }
}

/// The drawable area: `width` by `height` pixels, neither of them zero.
#[derive(Clone, Copy, Debug, PartialEq, Eq, Structural)]
pub struct Canvas {
    width: i32,
    height: i32,
}

impl Canvas {
    /// Both sides are at least one pixel long. This holds of every canvas
    /// that a program can get hold of.
    #[verifier::type_invariant]
    pub closed spec fn wf(self) -> bool {
        self.width >= 1 && self.height >= 1
    }

    pub closed spec fn spec_width(&self) -> i32 {
        self.width
    }

    pub closed spec fn spec_height(&self) -> i32 {
        self.height
    }

    /// `p` lies in `[0, width) x [0, height)`.
    pub open spec fn contains(self, p: Point) -> bool {
        0 <= p.x < self.spec_width() && 0 <= p.y < self.spec_height()
    }

    /// A canvas of the given size, where there is one: a side of zero pixels
    /// has no position on it, and a side beyond `i32::MAX` has positions that
    /// a `Point` cannot hold.
    pub fn new(width: u32, height: u32) -> (c: Option<Canvas>)
        ensures
            c.is_some() <==> (1 <= width <= i32::MAX && 1 <= height <= i32::MAX),
            c matches Some(canvas) ==> canvas.wf() && canvas.spec_width() == width
                && canvas.spec_height() == height,
    {
        if width == 0 || height == 0 || width > 0x7fff_ffff || height > 0x7fff_ffff {
            None
        } else {
            Some(Canvas { width: width as i32, height: height as i32 })
        }
    }

    #[verifier::when_used_as_spec(spec_width)]
    pub fn width(&self) -> (w: i32)
        ensures
            w == self.spec_width(),
    {
        self.width
    }

    #[verifier::when_used_as_spec(spec_height)]
    pub fn height(&self) -> (h: i32)
        ensures
            h == self.spec_height(),
    {
        self.height
    }

    /// A position drawn at random from the canvas. Which one is open; that it
    /// lies on the canvas is not.
    pub fn rand_pos(&self) -> (p: Point)
        ensures
            self.contains(p),
    {
        proof {
            use_type_invariant(self);
        }
        let x: i32 = random_below(self.width);
        let y: i32 = random_below(self.height);
        Point { x, y }
    }
}

} // verus!
