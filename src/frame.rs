use crate::grid::Vector2D;
use vstd::prelude::*;

verus! {

/// A banner drawn across the board.
#[derive(Clone, Copy, Debug, PartialEq, Eq, Structural)]
pub enum Banner {
    Paused,
    GameOver,
    YouWon,
    LostFocus,
}

pub open spec fn banner_text(b: Banner) -> Seq<char> {
    match b {
        Banner::Paused => "PAUSED"@,
        Banner::GameOver => "GAME OVER"@,
        Banner::YouWon => "YOU WON!!!"@,
        Banner::LostFocus => "LOST FOCUS"@,
    }
}

impl Banner {
    /// The text shown on the banner.
    pub fn text(&self) -> (r: &'static str)
        ensures
            r@ == banner_text(*self),
    {
        match self {
            Banner::Paused => "PAUSED",
            Banner::GameOver => "GAME OVER",
            Banner::YouWon => "YOU WON!!!",
            Banner::LostFocus => "LOST FOCUS",
        }
    }
}

/// One drawing operation on a surface of cells.
#[derive(Clone, Copy, Debug, PartialEq, Eq, Structural)]
pub enum DrawOp {
    /// Clear the whole surface.
    Clear,
    /// An apple: a filled circle in the cell.
    Apple(Vector2D),
    /// A body cell: a filled square.
    Body(Vector2D),
    /// The tail cell, drawn over the body.
    Tail(Vector2D),
    /// The head cell with a triangle turned by the given degrees clockwise
    /// from pointing up.
    Head(Vector2D, u32),
    /// A translucent strip with centred text.
    Banner(Banner),
}

/// The rotation of the head marker for a heading; rows grow downwards.
pub open spec fn heading_degrees(d: Vector2D) -> u32 {
    if d.x == 1 && d.y == 0 {
        90
    } else if d.x == -1 && d.y == 0 {
        270
    } else if d.x == 0 && d.y == 1 {
        180
    } else {
        0
    }
}

pub fn head_angle(d: Vector2D) -> (r: u32)
    ensures
        r == heading_degrees(d),
{
    if d.x == 1 && d.y == 0 {
        90
    } else if d.x == -1 && d.y == 0 {
        270
    } else if d.x == 0 && d.y == 1 {
        180
    } else {
        0
    }
}

} // verus!
