//! Plain data of the tablet's display and input: rectangles, colors and
//! input events.

use vstd::prelude::*;

verus! {

/// A point.
#[derive(PartialEq, Eq, Structural, Copy, Clone, Debug, Default)]
pub struct Point2<T> {
    pub x: T,
    pub y: T,
}

/// A two-dimensional extent.
#[derive(PartialEq, Eq, Structural, Copy, Clone, Debug, Default)]
pub struct Vector2<T> {
    pub x: T,
    pub y: T,
}

/// Rectangle region on the display.
#[allow(non_camel_case_types)]
#[derive(PartialEq, Eq, Structural, Copy, Clone, Debug, Default)]
pub struct mxcfb_rect {
    pub top: u32,
    pub left: u32,
    pub width: u32,
    pub height: u32,
}

impl mxcfb_rect {
    /// The width and height.
    pub fn size(&self) -> (r: Vector2<u32>)
        ensures
            r.x == self.width && r.y == self.height,
    {
        Vector2 { x: self.width, y: self.height }
    }

    /// The top left corner.
    pub fn top_left(&self) -> (r: Point2<u32>)
        ensures
            r.x == self.left && r.y == self.top,
    {
        Point2 { x: self.left, y: self.top }
    }
}

/// An RGB color.
#[allow(non_camel_case_types)]
#[derive(PartialEq, Eq, Structural, Copy, Clone, Debug)]
pub struct color {
    pub r: u8,
    pub g: u8,
    pub b: u8,
}

impl color {
    #[allow(non_snake_case)]
    pub fn BLACK() -> (c: color)
        ensures
            c == (color { r: 0, g: 0, b: 0 }),
    {
        color { r: 0, g: 0, b: 0 }
    }
    #[allow(non_snake_case)]
    pub fn WHITE() -> (c: color)
        ensures
            c == (color { r: 255, g: 255, b: 255 }),
    {
        color { r: 255, g: 255, b: 255 }
    }
    #[allow(non_snake_case)]
    pub fn LIGHT_SQUARE() -> (c: color)
        ensures
            c == (color { r: 240, g: 217, b: 181 }),
    {
        color { r: 240, g: 217, b: 181 }
    }
    #[allow(non_snake_case)]
    pub fn DARK_SQUARE() -> (c: color)
        ensures
            c == (color { r: 181, g: 136, b: 99 }),
    {
        color { r: 181, g: 136, b: 99 }
    }
    #[allow(non_snake_case)]
    pub fn SELECTED_SQ() -> (c: color)
        ensures
            c == (color { r: 246, g: 246, b: 105 }),
    {
        color { r: 246, g: 246, b: 105 }
    }
    #[allow(non_snake_case)]
    pub fn LAST_MOVE_LIGHT() -> (c: color)
        ensures
            c == (color { r: 205, g: 210, b: 106 }),
    {
        color { r: 205, g: 210, b: 106 }
    }
    #[allow(non_snake_case)]
    pub fn LAST_MOVE_DARK() -> (c: color)
        ensures
            c == (color { r: 170, g: 162, b: 58 }),
    {
        color { r: 170, g: 162, b: 58 }
    }
    #[allow(non_snake_case)]
    pub fn MOVE_HINT_LIGHT() -> (c: color)
        ensures
            c == (color { r: 170, g: 210, b: 130 }),
    {
        color { r: 170, g: 210, b: 130 }
    }
    #[allow(non_snake_case)]
    pub fn MOVE_HINT_DARK() -> (c: color)
        ensures
            c == (color { r: 130, g: 170, b: 90 }),
    {
        color { r: 130, g: 170, b: 90 }
    }

    /// The gray of the given brightness.
    #[allow(non_snake_case)]
    pub fn GRAY(v: u8) -> (r: color)
        ensures
            r == (color { r: v, g: v, b: v }),
    {
        color { r: v, g: v, b: v }
    }

    /// The brightness of the color: the mean of its channels, rounded down.
    pub open spec fn as_u8_spec(self) -> u8 {
        ((self.r + self.g + self.b) / 3) as u8
    }

    /// The brightness of the color: the mean of its channels, rounded down.
    pub fn as_u8(&self) -> (r: u8)
        ensures
            r == self.as_u8_spec(),
            r == (self.r + self.g + self.b) / 3,
    {
        ((self.r as u16 + self.g as u16 + self.b as u16) / 3) as u8
    }
}

/// A finger on the touch screen.
#[derive(PartialEq, Eq, Structural, Copy, Clone, Debug)]
pub struct Finger {
    pub pos: Point2<u16>,
    pub tracking_id: i32,
}

/// Touch event types.
#[derive(PartialEq, Eq, Structural, Copy, Clone, Debug)]
pub enum MultitouchEvent {
    Press { finger: Finger },
    Release { finger: Finger },
    Move { finger: Finger },
}

/// Physical button identifiers.
#[allow(non_camel_case_types)]
#[derive(PartialEq, Eq, Structural, Copy, Clone, Debug)]
pub enum PhysicalButton {
    LEFT,
    MIDDLE,
    RIGHT,
    POWER,
}

/// Button event (the tablet has no page buttons; kept for the interface).
#[derive(PartialEq, Eq, Structural, Copy, Clone, Debug)]
pub enum GPIOEvent {
    Press { button: PhysicalButton },
    Release { button: PhysicalButton },
}

/// Input event from touch or buttons.
#[derive(PartialEq, Eq, Structural, Copy, Clone, Debug)]
pub enum InputEvent {
    MultitouchEvent { event: MultitouchEvent },
    GPIO { event: GPIOEvent },
}

} // verus!
