//! Splitting the screen into one region per pane.
use vstd::prelude::*;
use ratatui::layout::{Constraint, Direction, Layout, Rect};

verus! {

/// Cells left free around the panes on each side.
pub const PANE_MARGIN: u16 = 1;

/// A screen rectangle: column and row of its top left corner, and its size.
#[derive(Clone, Copy, Debug, PartialEq, Eq)]
pub struct Area {
    pub x: u16,
    pub y: u16,
    pub width: u16,
    pub height: u16,
}

impl Area {
    pub fn new(x: u16, y: u16, width: u16, height: u16) -> (r: Area)
        ensures
            r.x == x,
            r.y == y,
            r.width == width,
            r.height == height,
    {
        Area { x, y, width, height }
    }

    pub open spec fn corners(self) -> (u16, u16, u16, u16) {
        (self.x, self.y, self.width, self.height)
    }
}

/// The rectangles that ratatui's layout gives for a split along columns
/// (`horizontal`) or rows, inset by `margin`, with one percentage share of
/// the area per rectangle.
pub uninterp spec fn split_of(
    horizontal: bool,
    margin: u16,
    percents: Seq<u16>,
    area: (u16, u16, u16, u16),
) -> Seq<(u16, u16, u16, u16)>;

/// The corners of each rectangle.
pub open spec fn corners_of(v: Seq<Area>) -> Seq<(u16, u16, u16, u16)> {
    v.map_values(|a: Area| a.corners())
}

/// Relies on ratatui's `Layout::split` (the area made by `Rect::new`): one
/// rectangle per constraint, in order, and the same rectangles for the same
/// layout and area. Its solver is handed only percentage constraints, which
/// it always accepts.
#[verifier::external_body]
fn split_area(horizontal: bool, margin: u16, percents: &Vec<u16>, area: Area) -> (r: Vec<Area>)
    ensures
        corners_of(r@) == split_of(horizontal, margin, percents@, area.corners()),
        r@.len() == percents@.len(),
{
    let direction = if horizontal { Direction::Horizontal } else { Direction::Vertical };
    let rects = Layout::default()
        .direction(direction)
        .margin(margin)
        .constraints(percents.iter().map(|p| Constraint::Percentage(*p)))
        .split(Rect::new(area.x, area.y, area.width, area.height));
    rects.iter().map(|r| Area { x: r.x, y: r.y, width: r.width, height: r.height }).collect()
}

/// Equal percentage shares for `count` regions.
pub open spec fn equal_shares(count: nat) -> Seq<u16> {
    Seq::new(count, |i: int| (100nat / count) as u16)
}

/// Splits `area` into `count` regions of equal share, side by side when
/// `horizontal`, else stacked, inside a margin of `PANE_MARGIN`.
pub fn pane_areas(horizontal: bool, count: usize, area: Area) -> (r: Vec<Area>)
    ensures
        r@.len() == count,
        corners_of(r@) == split_of(horizontal, PANE_MARGIN, equal_shares(count as nat), area.corners()),
{
    let mut percents: Vec<u16> = Vec::new();
    if count > 0 {
        let share: u16 = (100 / count) as u16;
        let mut i: usize = 0;
        while i < count
            invariant
                i <= count,
                count > 0,
                share == (100nat / count as nat) as u16,
                percents@ == Seq::new(i as nat, |j: int| (100nat / count as nat) as u16),
            decreases count - i,
        {
            percents.push(share);
            i = i + 1;
            assert(percents@ =~= Seq::new(i as nat, |j: int| (100nat / count as nat) as u16));
        }
    }
    assert(percents@ =~= equal_shares(count as nat));
    split_area(horizontal, PANE_MARGIN, &percents, area)
}

} // verus!
