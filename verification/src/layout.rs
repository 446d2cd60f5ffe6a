//! Placement of the pop-up dialogs on the terminal.
use vstd::prelude::*;
use ratatui::layout::{Constraint, Direction, Layout, Rect};

verus! {

/// A rectangle of terminal cells.
#[derive(Debug, Clone, Copy, PartialEq, Eq, Structural)]
pub struct Area {
    pub x: u16,
    pub y: u16,
    pub width: u16,
    pub height: u16,
}

/// Direction in which a layout cuts an area.
#[derive(Debug, Clone, Copy, PartialEq, Eq, Structural)]
pub enum Axis {
    Vertical,
    Horizontal,
}

/// What ratatui's `Layout::split` gives for three percentage constraints
/// that together ask for at most the whole area, along `axis` on `area`:
/// the rectangles found by its constraint solver. Such constraints never
/// conflict, so the solver's optimum is the same on every call.
pub uninterp spec fn percent_layout(axis: Axis, percents: Seq<u16>, area: Area) -> Seq<Area>;

/// `Layout::split` of ratatui with the constraints `Percentage(a)`,
/// `Percentage(b)`, `Percentage(c)`, which must not sum past 100: the solver
/// settles conflicting constraints of equal strength in no fixed way. The
/// contract names the solver's result and states that it holds one
/// rectangle per constraint, as the segments built in `Layout::try_split` do.
#[verifier::external_body]
fn split_by_percent(axis: Axis, a: u16, b: u16, c: u16, area: Area) -> (r: Vec<Area>)
    requires
        a + b + c <= 100,
    ensures
        r@ == percent_layout(axis, seq![a, b, c], area),
        r@.len() == 3,
{
    let direction = match axis {
        Axis::Vertical => Direction::Vertical,
        Axis::Horizontal => Direction::Horizontal,
    };
    let rect = Rect { x: area.x, y: area.y, width: area.width, height: area.height };
    let parts = Layout::default().direction(direction).constraints(
        [Constraint::Percentage(a), Constraint::Percentage(b), Constraint::Percentage(c)],
    ).split(rect);
    parts.iter().map(|p| Area { x: p.x, y: p.y, width: p.width, height: p.height }).collect()
}

/// The middle band of a three-way percentage split that leaves equal
/// margins: `(100 - p) / 2`, `p`, `(100 - p) / 2` percent.
pub open spec fn middle_band(axis: Axis, p: u16, area: Area) -> Area {
    let m = ((100 - p) / 2) as u16;
    percent_layout(axis, seq![m, p, m], area)[1]
}

/// The centered area covering `percent_x` percent of the width and
/// `percent_y` percent of the height of `r`: the middle row band, then its
/// middle column band.
pub open spec fn centered_rect_spec(percent_x: u16, percent_y: u16, r: Area) -> Area {
    middle_band(Axis::Horizontal, percent_x, middle_band(Axis::Vertical, percent_y, r))
}

/// A rectangle centered in `r` that covers the given percentages of it.
pub fn centered_rect(percent_x: u16, percent_y: u16, r: Area) -> (c: Area)
    requires
        percent_x <= 100,
        percent_y <= 100,
    ensures
        c == centered_rect_spec(percent_x, percent_y, r),
{
    let my = (100 - percent_y) / 2;
    let rows = split_by_percent(Axis::Vertical, my, percent_y, my, r);
    let mx = (100 - percent_x) / 2;
    let cols = split_by_percent(Axis::Horizontal, mx, percent_x, mx, rows[1]);
    cols[1]
}

/// The size of a box of at most `width` by `height` cells that fits in
/// `area` one cell inside each edge.
pub open spec fn box_size(width: u16, height: u16, area: Area) -> (int, int) {
    let aw: int = if area.width >= 2 { area.width - 2 } else { 0 };
    let ah: int = if area.height >= 2 { area.height - 2 } else { 0 };
    (if width <= aw { width as int } else { aw }, if height <= ah { height as int } else { ah })
}

/// A box of at most `width` by `height` cells, centered in `area` and kept
/// one cell inside each edge when the area is small.
pub open spec fn centered_box_spec(width: u16, height: u16, area: Area) -> Area {
    let (w, h) = box_size(width, height, area);
    Area {
        x: (area.x + (area.width - w) / 2) as u16,
        y: (area.y + (area.height - h) / 2) as u16,
        width: w as u16,
        height: h as u16,
    }
}

/// The box's corner lies on the terminal's coordinate range.
pub open spec fn box_corner_fits(width: u16, height: u16, area: Area) -> bool {
    let (w, h) = box_size(width, height, area);
    area.x + (area.width - w) / 2 <= u16::MAX && area.y + (area.height - h) / 2 <= u16::MAX
}

/// Whether `centered_box` can place the box: its corner lies on the
/// terminal's coordinate range.
pub fn box_fits(width: u16, height: u16, area: Area) -> (b: bool)
    ensures
        b == box_corner_fits(width, height, area),
{
    let w = if width <= area.width.saturating_sub(2) { width } else { area.width.saturating_sub(2) };
    let h = if height <= area.height.saturating_sub(2) { height } else { area.height.saturating_sub(2) };
    (area.x as u32) + ((area.width - w) / 2) as u32 <= 0xFFFF && (area.y as u32) + ((area.height - h)
        / 2) as u32 <= 0xFFFF
}

/// The box in which a dialog of `width` by `height` cells is drawn.
pub fn centered_box(width: u16, height: u16, area: Area) -> (b: Area)
    requires
        box_corner_fits(width, height, area),
    ensures
        b == centered_box_spec(width, height, area),
        area.x <= b.x,
        area.y <= b.y,
        b.x + b.width <= area.x + area.width,
        b.y + b.height <= area.y + area.height,
{
    let w = if width <= area.width.saturating_sub(2) { width } else { area.width.saturating_sub(2) };
    let h = if height <= area.height.saturating_sub(2) { height } else { area.height.saturating_sub(2) };
    let x = area.x + (area.width.saturating_sub(w)) / 2;
    let y = area.y + (area.height.saturating_sub(h)) / 2;
    Area { x, y, width: w, height: h }
}

} // verus!
