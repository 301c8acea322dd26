//! Where the grid stands on a screen of character cells.

use tui::layout::Rect;
use vstd::prelude::*;

verus! {

/// The number of screen cells that the border takes of each side's length.
pub const BORDER_PIXELS: u16 = 2;

/// A rectangle on the screen: its top left corner and its size.
#[derive(Clone, Copy, Debug, PartialEq, Eq, Structural)]
pub struct Frame {
    pub x: u16,
    pub y: u16,
    pub width: u16,
    pub height: u16,
}

/// The width and height that `Rect::new` of tui gives a rectangle asked for
/// with `width` and `height`.
pub uninterp spec fn rect_size(width: u16, height: u16) -> (u16, u16);

/// Calls `Rect::new` of tui. It keeps the corner. It keeps the size too where
/// the area is at most `u16::MAX`; a larger rectangle it shrinks, by a rule
/// that is not restated here.
#[verifier::external_body]
fn rect_of(x: u16, y: u16, width: u16, height: u16) -> (frame: Frame)
    ensures
        frame.x == x,
        frame.y == y,
        (frame.width, frame.height) == rect_size(width, height),
        width * height <= u16::MAX ==> frame.width == width && frame.height == height,
{
    let rect = Rect::new(x, y, width, height);
    Frame { x: rect.x, y: rect.y, width: rect.width, height: rect.height }
}

/// The length on the screen of `cells` squares of `scaling` screen cells each,
/// with the border.
pub open spec fn framed(cells: u16, scaling: u16) -> int {
    cells * scaling + BORDER_PIXELS
}

/// The screen has room for the frame along one side: the squares fit in
/// `screen` cells, and the framed length is a `u16`.
pub open spec fn has_room(screen: u16, cells: u16, scaling: u16) -> bool {
    cells * scaling <= screen && framed(cells, scaling) <= u16::MAX
}

/// Where a frame begins that stands in the middle of `screen` cells.
pub open spec fn origin(screen: u16, cells: u16, scaling: u16) -> int {
    (screen - cells * scaling + 2) / 2
}

/// The start and the length of the frame along one side, where the screen has
/// room for it.
fn side(screen: u16, cells: u16, scaling: u16) -> (placed: Option<(u16, u16)>)
    ensures
        placed is Some <==> has_room(screen, cells, scaling),
        placed matches Some(p) ==> p.0 == origin(screen, cells, scaling) && p.1 == framed(
            cells,
            scaling,
        ),
{
    let inner = match cells.checked_mul(scaling) {
        Some(inner) => inner,
        None => {
            return None;
        },
    };
    if inner > screen || inner > u16::MAX - BORDER_PIXELS {
        return None;
    }
    Some(((((screen - inner) as u32 + 2) / 2) as u16, inner + BORDER_PIXELS))
}

impl Frame {
    /// The frame round a grid of `width` by `height` squares, each shown as
    /// `x_scaling` by `y_scaling` screen cells, in the middle of a screen of
    /// `frame_width` by `frame_height` cells. There is none where the grid does
    /// not fit in the screen.
    pub fn centered(
        frame_width: u16,
        frame_height: u16,
        width: u16,
        height: u16,
        x_scaling: u16,
        y_scaling: u16,
    ) -> (frame: Option<Frame>)
        ensures
            frame is Some <==> has_room(frame_width, width, x_scaling) && has_room(
                frame_height,
                height,
                y_scaling,
            ),
            frame matches Some(f) ==> {
                &&& f.x == origin(frame_width, width, x_scaling)
                &&& f.y == origin(frame_height, height, y_scaling)
                &&& (f.width, f.height) == rect_size(
                    framed(width, x_scaling) as u16,
                    framed(height, y_scaling) as u16,
                )
                &&& framed(width, x_scaling) * framed(height, y_scaling) <= u16::MAX ==> f.width
                    == framed(width, x_scaling) && f.height == framed(height, y_scaling)
            },
    {
        match (side(frame_width, width, x_scaling), side(frame_height, height, y_scaling)) {
            (Some((x, across)), Some((y, down))) => Some(rect_of(x, y, across, down)),
            _ => None,
        }
    }
}

} // verus!
