//! Rectangles of the terminal and their division into rows and key caps.
use vstd::prelude::*;

use tuirealm::ratatui::layout::{
    Constraint as RConstraint, Direction as RDirection, Layout as RLayout, Rect as RRect,
};

verus! {

/// A rectangle of terminal cells.
#[derive(Clone, Copy, Debug, PartialEq, Eq, Structural)]
pub struct Area {
    pub x: u16,
    pub y: u16,
    pub width: u16,
    pub height: u16,
}

/// The axis along which an area is divided.
#[derive(Clone, Copy, Debug, PartialEq, Eq, Structural)]
pub enum Direction {
    Horizontal,
    Vertical,
}

/// Height of each row of key caps, in terminal lines.
pub const ROW_HEIGHT: u16 = 3;

/// The sum of the first `k` lengths.
pub open spec fn prefix_sum(lengths: Seq<u16>, k: int) -> int
    decreases k,
{
    if k <= 0 {
        0
    } else {
        prefix_sum(lengths, k - 1) + lengths[k - 1]
    }
}

/// Where `a` starts along `direction`.
pub open spec fn start_along(a: Area, direction: Direction) -> int {
    match direction {
        Direction::Horizontal => a.x as int,
        Direction::Vertical => a.y as int,
    }
}

/// How far `a` reaches along `direction`.
pub open spec fn extent_along(a: Area, direction: Direction) -> int {
    match direction {
        Direction::Horizontal => a.width as int,
        Direction::Vertical => a.height as int,
    }
}

/// Each piece spans the whole of `area` across the direction of the split.
pub open spec fn spans_across(area: Area, direction: Direction, pieces: Seq<Area>) -> bool {
    forall|i: int|
        0 <= i < pieces.len() ==> match direction {
            Direction::Horizontal => #[trigger] pieces[i].y == area.y && pieces[i].height
                == area.height,
            Direction::Vertical => pieces[i].x == area.x && pieces[i].width == area.width,
        }
}

/// Each piece lies inside `area` along the direction of the split.
pub open spec fn inside_along(area: Area, direction: Direction, pieces: Seq<Area>) -> bool {
    forall|i: int|
        0 <= i < pieces.len() ==> start_along(area, direction) <= start_along(
            #[trigger] pieces[i],
            direction,
        ) && start_along(pieces[i], direction) + extent_along(pieces[i], direction) <= start_along(
            area,
            direction,
        ) + extent_along(area, direction)
}

/// The lengths fit in `area` along `direction`, and the area ends inside
/// the 16-bit coordinate range.
pub open spec fn lengths_fit(area: Area, direction: Direction, lengths: Seq<u16>) -> bool {
    &&& prefix_sum(lengths, lengths.len() as int) <= extent_along(area, direction)
    &&& start_along(area, direction) + extent_along(area, direction) <= u16::MAX
}

/// `pieces` is a cut of `area` along `direction` into pieces of `lengths`:
/// one piece per length, each spanning the area across the cut and lying
/// inside it; when the lengths fit, the pieces are exactly the lengths,
/// laid end to end from the start of the area.
pub open spec fn split_holds(area: Area, direction: Direction, lengths: Seq<u16>, pieces: Seq<Area>) -> bool {
    &&& pieces.len() == lengths.len()
    &&& spans_across(area, direction, pieces)
    &&& inside_along(area, direction, pieces)
    &&& lengths_fit(area, direction, lengths) ==> forall|i: int|
        0 <= i < pieces.len() ==> start_along(#[trigger] pieces[i], direction) == start_along(
            area,
            direction,
        ) + prefix_sum(lengths, i) && extent_along(pieces[i], direction) == lengths[i]
}

/// Relies on ratatui's `Layout::split` (through tuirealm) with the default
/// layout: no margin, no spacing, `Flex::Start`. It gives one rectangle per
/// `Constraint::Length`, each keeping the area's position and extent across
/// the split and lying inside the area (the solver's required constraints);
/// when the lengths fit, the strong length constraints and the spacers held
/// at zero lay them end to end from the start, the rest left to the last
/// spacer. Where they do not fit, which piece gives way is not stated.
#[verifier::external_body]
pub(crate) fn split_area(area: Area, direction: Direction, lengths: &Vec<u16>) -> (r: Vec<Area>)
    ensures
        split_holds(area, direction, lengths@, r@),
{
    let dir = match direction {
        Direction::Horizontal => RDirection::Horizontal,
        Direction::Vertical => RDirection::Vertical,
    };
    let rect = RRect { x: area.x, y: area.y, width: area.width, height: area.height };
    let constraints = lengths.iter().map(|l| RConstraint::Length(*l));
    let pieces = RLayout::default().direction(dir).constraints(constraints).split(rect);
    pieces.iter().map(|p| Area { x: p.x, y: p.y, width: p.width, height: p.height }).collect()
}

/// A length of `ROW_HEIGHT` for each of `n` rows.
pub fn row_heights(n: usize) -> (r: Vec<u16>)
    ensures
        r@ == Seq::new(n as nat, |i: int| ROW_HEIGHT),
{
    let mut r: Vec<u16> = Vec::new();
    let mut i: usize = 0;
    while i < n
        invariant
            i <= n,
            r@ == Seq::new(i as nat, |k: int| ROW_HEIGHT),
        decreases n - i,
    {
        r.push(ROW_HEIGHT);
        i = i + 1;
        assert(r@ =~= Seq::new(i as nat, |k: int| ROW_HEIGHT));
    }
    r
}

/// Pieces cut to lengths that fit lie end to end: each starts where the one
/// before it ends, and each one that is not empty starts after the one
/// before it.
pub proof fn lemma_fit_pieces_end_to_end(area: Area, direction: Direction, lengths: Seq<u16>, pieces: Seq<Area>)
    requires
        split_holds(area, direction, lengths, pieces),
        lengths_fit(area, direction, lengths),
    ensures
        forall|i: int|
            0 <= i < pieces.len() ==> #[trigger] extent_along(pieces[i], direction) == lengths[i],
        forall|i: int|
            0 < i < pieces.len() ==> #[trigger] start_along(pieces[i], direction) == start_along(
                pieces[i - 1],
                direction,
            ) + extent_along(pieces[i - 1], direction),
        forall|i: int|
            0 < i < pieces.len() && lengths[i - 1] > 0 ==> start_along(pieces[i - 1], direction)
                < #[trigger] start_along(pieces[i], direction),
{
    assert forall|i: int| 0 < i < pieces.len() implies #[trigger] start_along(pieces[i], direction)
        == start_along(pieces[i - 1], direction) + extent_along(pieces[i - 1], direction) by {
        assert(start_along(pieces[i - 1], direction) == start_along(area, direction) + prefix_sum(lengths, i - 1));
    }
}

} // verus!
