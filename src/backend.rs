//! Plain geometry and colour values shared by the input and focus logic.
use vstd::prelude::*;

verus! {

/// An RGBA colour.
#[derive(Clone, Copy, PartialEq, Eq, Structural, Debug, Default)]
pub struct Color {
    pub r: u8,
    pub g: u8,
    pub b: u8,
    pub a: u8,
}

impl Color {
    /// Build a colour from its four channels.
    pub fn new(r: u8, g: u8, b: u8, a: u8) -> (c: Self)
        ensures
            c.r == r && c.g == g && c.b == b && c.a == a,
    {
        Color { r, g, b, a }
    }
}

/// An axis-aligned box in whole pixels: `x`, `y` is the top-left corner.
#[derive(Clone, Copy, PartialEq, Eq, Structural, Debug, Default)]
pub struct Rectangle {
    pub x: i32,
    pub y: i32,
    pub width: i32,
    pub height: i32,
}

impl Rectangle {
    /// Build a box from its corner and size.
    pub fn new(x: i32, y: i32, width: i32, height: i32) -> (r: Self)
        ensures
            r.x == x && r.y == y && r.width == width && r.height == height,
    {
        Rectangle { x, y, width, height }
    }

    /// Horizontal position of the centre, doubled so that it stays whole.
    pub open spec fn center_x2(self) -> int {
        2 * self.x + self.width
    }

    /// Vertical position of the centre, doubled so that it stays whole.
    pub open spec fn center_y2(self) -> int {
        2 * self.y + self.height
    }

    /// Squared distance between the centres of two boxes, measured in half pixels.
    pub open spec fn distance2_spec(self, other: Rectangle) -> int {
        let dx = self.center_x2() - other.center_x2();
        let dy = self.center_y2() - other.center_y2();
        dx * dx + dy * dy
    }

    /// Squared distance between the centres of two boxes, measured in half pixels
    /// (four times the squared distance in pixels). No square root is taken.
    pub fn distance2(&self, other: &Rectangle) -> (d: i128)
        ensures
            d == self.distance2_spec(*other),
            d >= 0,
    {
        let dx: i128 = (2 * (self.x as i128) + self.width as i128) - (2 * (other.x as i128)
            + other.width as i128);
        let dy: i128 = (2 * (self.y as i128) + self.height as i128) - (2 * (other.y as i128)
            + other.height as i128);
        assert(-0x4_0000_0000 <= dx <= 0x4_0000_0000);
        assert(-0x4_0000_0000 <= dy <= 0x4_0000_0000);
        let sx: i128 = mul_bounded(dx);
        let sy: i128 = mul_bounded(dy);
        sx + sy
    }
}

/// The square of a value whose magnitude is at most 2^34.
fn mul_bounded(v: i128) -> (r: i128)
    requires
        -0x4_0000_0000 <= v <= 0x4_0000_0000,
    ensures
        r == v * v,
        0 <= r <= 0x10_0000_0000_0000_0000,
{
    proof {
        assert(0 <= v * v <= 0x10_0000_0000_0000_0000) by (nonlinear_arith)
            requires
                -0x4_0000_0000 <= v <= 0x4_0000_0000,
        ;
    }
    v * v
}

/// Cursor shapes offered by the system.
#[derive(Clone, Copy, PartialEq, Eq, Structural, Debug)]
pub enum SystemCursors {
    /// Default system cursor.
    SystemDefault,
    /// No pointer.
    NoCursor,
    /// Pointer indicating a link or button, typically a pointing hand.
    Pointer,
    /// Cross cursor, often indicating selection inside images.
    Crosshair,
    /// Vertical beam indicating selectable text.
    Text,
    /// Omnidirectional scroll: content can be panned.
    AllScroll,
    /// The content underneath can be resized horizontally.
    ResizeEW,
    /// The content underneath can be resized vertically.
    ResizeNS,
    /// Diagonal resize, top-right and bottom-left.
    ResizeNESW,
    /// Diagonal resize, top-left and bottom-right.
    ResizeNWSE,
    /// Indicates a forbidden action.
    NotAllowed,
}

/// Mouse cursor icon.
#[derive(Clone, Copy, PartialEq, Eq, Structural, Debug)]
pub struct MouseCursor {
    /// Use a system-provided cursor.
    pub system: SystemCursors,
}

} // verus!
