//! The viewport: the window over the rows of the virtual document that is
//! shown on the screen.

use vstd::prelude::*;

verus! {

/// A rectangle of screen cells.
#[derive(Clone, Copy, Debug, PartialEq, Eq, Structural)]
pub struct Rect {
    pub x: u16,
    pub y: u16,
    pub width: u16,
    pub height: u16,
}

/// The size of a rectangle of screen cells.
#[derive(Clone, Copy, Debug, PartialEq, Eq, Structural)]
pub struct Size {
    pub width: u16,
    pub height: u16,
}

/// `v`, moved into `low..=high` where it lies outside.
pub open spec fn clamp(v: int, low: int, high: int) -> int {
    if v < low {
        low
    } else if v > high {
        high
    } else {
        v
    }
}

impl Rect {
    /// The first row of the rectangle.
    pub open spec fn spec_top(self) -> u16 {
        self.y
    }

    /// The first row below the rectangle, as far as a `u16` counts.
    pub open spec fn spec_bottom(self) -> u16 {
        if self.y + self.height <= u16::MAX {
            (self.y + self.height) as u16
        } else {
            u16::MAX
        }
    }

    /// The rectangle moved by `dx` columns and `dy` rows, as far as it stays
    /// within the coordinates that a `u16` counts.
    pub open spec fn moved(self, dx: i32, dy: i32) -> Rect {
        Rect {
            x: clamp(self.x + dx, 0, u16::MAX - self.width) as u16,
            y: clamp(self.y + dy, 0, u16::MAX - self.height) as u16,
            ..self
        }
    }

    #[verifier::when_used_as_spec(spec_top)]
    pub fn top(self) -> (top: u16)
        ensures
            top == self.spec_top(),
    {
        self.y
    }

    #[verifier::when_used_as_spec(spec_bottom)]
    pub fn bottom(self) -> (bottom: u16)
        ensures
            bottom == self.spec_bottom(),
    {
        self.y.saturating_add(self.height)
    }
}

/// `ratatui::layout::Rect::offset` moves a rectangle without changing its
/// size; where the move would take an edge past the coordinates of a `u16`,
/// the position stops at the nearest place that keeps the rectangle inside.
#[verifier::external_body]
fn rect_offset(rect: Rect, dx: i32, dy: i32) -> (moved: (u16, u16))
    ensures
        moved.0 == rect.moved(dx, dy).x,
        moved.1 == rect.moved(dx, dy).y,
{
    let moved = ratatui::layout::Rect { x: rect.x, y: rect.y, width: rect.width, height: rect.height }
        .offset(ratatui::layout::Offset { x: dx, y: dy });
    (moved.x, moved.y)
}

#[derive(Clone, Debug)]
pub struct Viewport {
    area: Rect,
}

impl View for Viewport {
    type V = Rect;

    closed spec fn view(&self) -> Rect {
        self.area
    }
}

impl Default for Viewport {
    fn default() -> (viewport: Self)
        ensures
            viewport@ == (Rect { x: 0, y: 0, width: 0, height: 0 }),
    {
        Viewport { area: Rect { x: 0, y: 0, width: 0, height: 0 } }
    }
}

impl Viewport {
    pub fn area(&self) -> (area: Rect)
        ensures
            area == self@,
    {
        self.area
    }

    /// The first row of the document that is shown.
    pub fn top(&self) -> (top: u16)
        ensures
            top == self@.top(),
    {
        self.area.top()
    }

    /// The first row of the document below those shown.
    pub fn bottom(&self) -> (bottom: u16)
        ensures
            bottom == self@.bottom(),
    {
        self.area.bottom()
    }

    pub fn size_changed(&self, size: Size) -> (changed: bool)
        ensures
            changed == (self@.height != size.height || self@.width != size.width),
    {
        self.area.height != size.height || self.area.width != size.width
    }

    pub fn resize(&mut self, size: Size)
        ensures
            final(self)@ == (Rect { width: size.width, height: size.height, ..old(self)@ }),
    {
        self.area.width = size.width;
        self.area.height = size.height;
    }

    /// Moves the window by `offset.0` rows and `offset.1` columns.
    pub fn scroll_by(&mut self, offset: (i32, i32))
        ensures
            final(self)@ == old(self)@.moved(offset.1, offset.0),
    {
        let (x, y) = rect_offset(self.area, offset.1, offset.0);
        self.area = Rect { x, y, width: self.area.width, height: self.area.height };
    }
}

} // verus!
