//! Geometry of the beat indicator: the widget draws one cell per beat of
//! the measure, divided by tick lines, with the current beat highlighted.
//! Interior tick lines are sheared into diagonals by half the cell height —
//! a purely visual choice that gives the indicator its slanted look — while
//! the two border lines stay vertical.
//!
//! Coordinates are exact: a tick line's horizontal position is the fraction
//! `tick_index / num_ticks` of the rectangle's width, so it is returned as
//! a numerator over the denominator `2 * num_ticks` (the factor of two
//! accommodates the half-cell shear), already scaled to pixels.

use vstd::prelude::*;

verus! {

/// The size of one cell of the overlay's layout grid, in pixels.
pub const GRID_CELL_SIZE: i64 = 48;

/// A rectangle on the overlay's layout grid, in whole grid cells.
#[derive(Debug, Clone, Copy, PartialEq, Eq, Structural)]
pub struct CellRect {
    pub x: i32,
    pub y: i32,
    pub width: i32,
    pub height: i32,
}

/// One endpoint of a tick line: an exact horizontal position
/// (`x_numer / x_denom` pixels) and a whole vertical position in pixels.
#[derive(Debug, Clone, Copy, PartialEq, Eq, Structural)]
pub struct TickPoint {
    pub x_numer: i128,
    pub x_denom: i64,
    pub y: i64,
}

/// A tick line of the beat indicator: its endpoint on the rectangle's top
/// edge and its endpoint on the bottom edge.
#[derive(Debug, Clone, Copy, PartialEq, Eq, Structural)]
pub struct TickLine {
    pub top: TickPoint,
    pub bottom: TickPoint,
}

/// Whether the tick line at `tick_index` is sheared: interior lines are,
/// the two lines on the rectangle's border are not.
pub open spec fn spec_tick_sheared(tick_index: u32, num_ticks: u32) -> bool {
    tick_index != 0 && tick_index != num_ticks
}

/// The numerator of a tick-line endpoint's horizontal position, over the
/// denominator `2 * num_ticks`, in pixels: the rectangle's left edge plus
/// the fraction `tick_index / num_ticks` of its width, shifted right by
/// half the height for a sheared line's top endpoint and left by the same
/// amount for its bottom endpoint.
pub open spec fn spec_tick_x_numer(
    rect: CellRect,
    tick_index: u32,
    num_ticks: u32,
    top_edge: bool,
) -> int {
    let shear: int = if spec_tick_sheared(tick_index, num_ticks) {
        if top_edge {
            (num_ticks as int) * (rect.height as int)
        } else {
            -((num_ticks as int) * (rect.height as int))
        }
    } else {
        0
    };
    GRID_CELL_SIZE * (2 * (num_ticks as int) * (rect.x as int) + 2 * (rect.width as int) * (
    tick_index as int) + shear)
}

/// The two endpoints of the tick line at `tick_index` out of `num_ticks`,
/// in pixels: exact horizontal positions over the denominator
/// `2 * num_ticks`, and the rectangle's top and bottom edges vertically.
pub fn beat_indicator_tick_points(rect: CellRect, tick_index: u32, num_ticks: u32) -> (r: TickLine)
    requires
        num_ticks >= 1,
    ensures
        r.top.x_numer == spec_tick_x_numer(rect, tick_index, num_ticks, true),
        r.bottom.x_numer == spec_tick_x_numer(rect, tick_index, num_ticks, false),
        r.top.x_denom == 2 * num_ticks && r.bottom.x_denom == 2 * num_ticks,
        r.top.y == GRID_CELL_SIZE * rect.y,
        r.bottom.y == GRID_CELL_SIZE * (rect.y + rect.height),
{
    let n = num_ticks as i128;
    let ti = tick_index as i128;
    let x = rect.x as i128;
    let width = rect.width as i128;
    let height = rect.height as i128;
    proof {
        assert((2 * (num_ticks as int)) * (rect.x as int) <= 0x4_0000_0000_0000_0000 && (2 * (
        num_ticks as int)) * (rect.x as int) >= -0x4_0000_0000_0000_0000) by (nonlinear_arith)
            requires
                0 <= num_ticks < 0x1_0000_0000,
                -0x8000_0000 <= rect.x < 0x8000_0000,
        ;
        assert((2 * (rect.width as int)) * (tick_index as int) <= 0x4_0000_0000_0000_0000 && (2 * (
        rect.width as int)) * (tick_index as int) >= -0x4_0000_0000_0000_0000) by (nonlinear_arith)
            requires
                0 <= tick_index < 0x1_0000_0000,
                -0x8000_0000 <= rect.width < 0x8000_0000,
        ;
        assert((num_ticks as int) * (rect.height as int) <= 0x4_0000_0000_0000_0000 && (
        num_ticks as int) * (rect.height as int) >= -0x4_0000_0000_0000_0000) by (nonlinear_arith)
            requires
                0 <= num_ticks < 0x1_0000_0000,
                -0x8000_0000 <= rect.height < 0x8000_0000,
        ;
    }
    let base = 2 * n * x + 2 * width * ti;
    proof {
        assert(-0x8_0000_0000_0000_0000 <= base <= 0x8_0000_0000_0000_0000);
        assert(GRID_CELL_SIZE == 48);
        assert((num_ticks as int) * (rect.height as int) == (n as int) * (height as int));
    }
    let sheared = tick_index != 0 && tick_index != num_ticks;
    let (top_numer, bottom_numer) = if sheared {
        (48i128 * (base + n * height), 48i128 * (base - n * height))
    } else {
        (48i128 * base, 48i128 * base)
    };
    let denom = 2 * num_ticks as i64;
    TickLine {
        top: TickPoint { x_numer: top_numer, x_denom: denom, y: GRID_CELL_SIZE * rect.y as i64 },
        bottom: TickPoint {
            x_numer: bottom_numer,
            x_denom: denom,
            y: GRID_CELL_SIZE * (rect.y as i64 + rect.height as i64),
        },
    }
}

} // verus!
