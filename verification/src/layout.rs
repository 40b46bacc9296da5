//! Screen geometry: how many trade rows fit into an area of the terminal and
//! where the scrollbar track runs.
//!
//! Areas are measured in terminal cells. Shrinking an area by a margin and
//! finding its right edge are ratatui's `Rect` arithmetic, which is called
//! here rather than written again.

use vstd::prelude::*;

verus! {

/// Rows of the terminal that the frame around the trade table takes up: the
/// outer margin, the search box and the space between.
pub const CHROME_ROWS: u16 = 5;

/// Rows of the table's own area that hold no trade: its border and header.
pub const TABLE_FRAME_ROWS: u16 = 3;

/// A rectangle of terminal cells.
#[derive(Clone, Copy, Debug, PartialEq, Eq, Structural)]
pub struct Area {
    pub x: u16,
    pub y: u16,
    pub width: u16,
    pub height: u16,
}

/// `value` less `taken`, and zero where that much is not there.
pub open spec fn less(value: int, taken: int) -> int {
    if value > taken {
        value - taken
    } else {
        0
    }
}

/// Twice `margin`, held to the largest `u16`.
pub open spec fn doubled(margin: u16) -> int {
    if 2 * margin > u16::MAX {
        u16::MAX as int
    } else {
        2 * margin
    }
}

/// `area` shrunk by `horizontal` cells on its left and right and `vertical`
/// cells on its top and bottom: the empty area at the origin where the
/// margins do not fit, else the area that is left, whose corner does not
/// move past the largest `u16`.
pub open spec fn inset(area: Area, horizontal: u16, vertical: u16) -> Area {
    if area.width < doubled(horizontal) || area.height < doubled(vertical) {
        Area { x: 0, y: 0, width: 0, height: 0 }
    } else {
        Area {
            x: if area.x + horizontal > u16::MAX {
                u16::MAX
            } else {
                (area.x + horizontal) as u16
            },
            y: if area.y + vertical > u16::MAX {
                u16::MAX
            } else {
                (area.y + vertical) as u16
            },
            width: (area.width - doubled(horizontal)) as u16,
            height: (area.height - doubled(vertical)) as u16,
        }
    }
}

/// The first column right of `area`, held to the largest `u16`.
pub open spec fn right_edge(area: Area) -> int {
    if area.x + area.width > u16::MAX {
        u16::MAX as int
    } else {
        area.x + area.width
    }
}

/// ratatui's `Rect::inner` on a rectangle with `area`'s fields and a `Margin`
/// of the two given sizes. Trusted: the result has the fields of `inset`,
/// which restates the method's saturating arithmetic.
#[verifier::external_body]
fn inner_area(area: Area, horizontal: u16, vertical: u16) -> (inner: Area)
    ensures
        inner == inset(area, horizontal, vertical),
{
    let rect = ratatui::layout::Rect {
        x: area.x,
        y: area.y,
        width: area.width,
        height: area.height,
    };
    let inner = rect.inner(&ratatui::layout::Margin { horizontal, vertical });
    Area { x: inner.x, y: inner.y, width: inner.width, height: inner.height }
}

/// ratatui's `Rect::right` on a rectangle with `area`'s fields. Trusted: the
/// result is `right_edge`, the saturating sum of `x` and `width`.
#[verifier::external_body]
fn right_of(area: Area) -> (column: u16)
    ensures
        column == right_edge(area),
{
    let rect = ratatui::layout::Rect {
        x: area.x,
        y: area.y,
        width: area.width,
        height: area.height,
    };
    rect.right()
}

/// How many trade rows fit on a terminal `terminal_height` rows high.
pub fn rows_on_terminal(terminal_height: u16) -> (rows: usize)
    ensures
        rows == less(terminal_height as int, CHROME_ROWS as int),
{
    if terminal_height > CHROME_ROWS {
        (terminal_height - CHROME_ROWS) as usize
    } else {
        0
    }
}

/// How many trade rows fit into the table's own area.
pub fn rows_in_area(area: Area) -> (rows: usize)
    ensures
        rows == less(area.height as int, TABLE_FRAME_ROWS as int),
{
    if area.height > TABLE_FRAME_ROWS {
        (area.height - TABLE_FRAME_ROWS) as usize
    } else {
        0
    }
}

/// The cell in which the text cursor is drawn when the search box fills
/// `area` and the cursor stands behind `cursor_position` characters: one cell
/// in from the box's border. There is none where that cell lies beyond the
/// largest coordinate.
pub open spec fn cursor_cell_of(area: Area, cursor_position: int) -> Option<(u16, u16)> {
    if area.x + 1 + cursor_position <= u16::MAX && area.y + 1 <= u16::MAX {
        Some(((area.x + 1 + cursor_position) as u16, (area.y + 1) as u16))
    } else {
        None
    }
}

/// The column and row of the text cursor in a search box that fills `area`.
pub fn cursor_cell(area: Area, cursor_position: usize) -> (cell: Option<(u16, u16)>)
    ensures
        cell == cursor_cell_of(area, cursor_position as int),
{
    if area.y == u16::MAX || area.x == u16::MAX {
        return None;
    }
    let room: u16 = u16::MAX - area.x - 1;
    if cursor_position > room as usize {
        return None;
    }
    Some((area.x + 1 + cursor_position as u16, area.y + 1))
}

/// Where the scrollbar track of a table runs.
#[derive(Clone, Copy, Debug, PartialEq, Eq, Structural)]
pub struct Track {
    /// The column of the track: the last column of the table's area.
    pub column: u16,
    /// The first row of the track.
    pub top: u16,
    /// The number of rows of the track.
    pub height: u16,
}

/// The track of the table in `area`, if it has one.
pub open spec fn track_of(area: Area) -> Option<Track> {
    let inner = inset(area, 0, 1);
    if inner.width > 0 && inner.height > 0 && right_edge(area) > area.x {
        Some(Track { column: (right_edge(area) - 1) as u16, top: inner.y, height: inner.height })
    } else {
        None
    }
}

/// The scrollbar track of the table in `area`: the last column of the area,
/// between its top and bottom border rows. There is none where no row is
/// left between the borders or the area has no column.
pub fn scrollbar_track(area: Area) -> (track: Option<Track>)
    ensures
        track == track_of(area),
        track matches Some(t) ==> {
            &&& t.height >= 1
            &&& t.height == area.height - 2
            &&& area.x <= t.column < area.x + area.width
        },
{
    let inner: Area = inner_area(area, 0, 1);
    let right: u16 = right_of(area);
    if inner.width > 0 && inner.height > 0 && right > area.x {
        Some(Track { column: right - 1, top: inner.y, height: inner.height })
    } else {
        None
    }
}

} // verus!
