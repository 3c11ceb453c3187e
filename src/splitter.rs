use vstd::prelude::*;

use vstd::arithmetic::div_mod::{lemma_div_by_multiple, lemma_div_is_ordered};

use crate::layout::{fit, Orientation};

verus! {

/// A split ratio is held in millionths: `RATIO_SCALE` stands for the whole
/// extent, and a stored ratio is always below it.
pub const RATIO_SCALE: u32 = 1_000_000;

/// The ratio of a freshly made splitter: one half.
pub const RATIO_HALF: u32 = 500_000;

/// Thickness that the native toolkit gives the handle between the two panes.
pub const HANDLE_SIZE: u16 = 6;

/// A change of ratio below this (a thousandth of the extent) is ignored.
pub const RATIO_THRESHOLD: u32 = 1_000;

/// Part `ratio` (in millionths) of `extent`, rounded down.
pub open spec fn share(extent: u16, ratio: int) -> int {
    (extent as int * ratio) / (RATIO_SCALE as int)
}

/// Sizes of the first and second pane along the splitter's axis.
pub open spec fn pane_sizes(extent: u16, ratio: u32, start: u16, end: u16) -> (u16, u16) {
    (
        fit(share(extent, ratio as int) - start - HANDLE_SIZE / 2),
        fit(share(extent, RATIO_SCALE - ratio) - end - HANDLE_SIZE / 2),
    )
}

/// The ratio that the splitter keeps when it is asked for `pos`.
pub open spec fn wrapped_ratio(pos: u32) -> u32 {
    (pos % RATIO_SCALE) as u32
}

/// The ratio that a native handle position stands for, kept below the whole.
pub open spec fn ratio_of_position(position: i32, extent: u16) -> u32 {
    if extent == 0 {
        RATIO_HALF
    } else if (position as int) * (RATIO_SCALE as int) / (extent as int) >= RATIO_SCALE as int {
        (RATIO_SCALE - 1) as u32
    } else {
        ((position as int) * (RATIO_SCALE as int) / (extent as int)) as u32
    }
}

/// What a move of the native handle to `position` makes of the ratio
/// `current` on an axis `extent` long: the new ratio, or `None` where the
/// position is below one or the change is no more than the threshold.
pub open spec fn drag_ratio(current: u32, position: i32, extent: u16) -> Option<u32> {
    if position < 1 {
        None
    } else {
        let n = ratio_of_position(position, extent);
        if current as int - n as int > RATIO_THRESHOLD || n as int - current as int > RATIO_THRESHOLD {
            Some(n)
        } else {
            None
        }
    }
}

/// The extent of a splitter of size `(w, h)` along its axis.
pub open spec fn axis_extent(orientation: Orientation, size: (u16, u16)) -> u16 {
    match orientation {
        Orientation::Horizontal => size.0,
        Orientation::Vertical => size.1,
    }
}

pub(crate) proof fn lemma_share_bounded(extent: u16, ratio: int)
    requires
        0 <= ratio <= RATIO_SCALE,
    ensures
        0 <= extent as int * ratio <= 65535 * 1_000_000,
        0 <= share(extent, ratio) <= extent,
{
    let e = extent as int;
    assert(0 <= e * ratio <= e * 1_000_000) by (nonlinear_arith)
        requires
            0 <= e,
            0 <= ratio <= 1_000_000,
    ;
    assert(e * 1_000_000 <= 65535 * 1_000_000) by (nonlinear_arith)
        requires
            0 <= e <= 65535,
    ;
    lemma_div_is_ordered(e * ratio, e * 1_000_000, 1_000_000);
    lemma_div_by_multiple(e, 1_000_000);
    lemma_div_is_ordered(0, e * ratio, 1_000_000);
}

/// Keeps a requested ratio below the whole by taking it modulo the whole.
pub fn wrap_ratio(pos: u32) -> (r: u32)
    ensures
        r == wrapped_ratio(pos),
        r < RATIO_SCALE,
{
    pos % RATIO_SCALE
}

/// Computes the pane sizes of a splitter whose axis is `extent` long, with
/// `start` and `end` the margins at both ends of that axis.
pub fn children_sizes(extent: u16, ratio: u32, start: u16, end: u16) -> (r: (u16, u16))
    requires
        ratio < RATIO_SCALE,
    ensures
        r == pane_sizes(extent, ratio, start, end),
{
    proof {
        lemma_share_bounded(extent, ratio as int);
        lemma_share_bounded(extent, RATIO_SCALE - ratio);
    }
    let a: u64 = extent as u64 * ratio as u64 / RATIO_SCALE as u64;
    let b: u64 = extent as u64 * (RATIO_SCALE - ratio) as u64 / RATIO_SCALE as u64;
    let half: u64 = (HANDLE_SIZE / 2) as u64;
    let first: u16 = if a >= start as u64 + half {
        (a - start as u64 - half) as u16
    } else {
        0
    };
    let second: u16 = if b >= end as u64 + half {
        (b - end as u64 - half) as u16
    } else {
        0
    };
    (first, second)
}

/// The ratio that the native handle's `position` stands for, on an axis of
/// length `extent`; where the axis has no length yet the handle is taken to
/// sit in the middle.
pub fn position_to_ratio(position: i32, extent: u16) -> (r: u32)
    requires
        position >= 1,
    ensures
        r == ratio_of_position(position, extent),
        r < RATIO_SCALE,
{
    if extent == 0 {
        RATIO_HALF
    } else {
        proof {
            assert((position as int) * 1_000_000 <= 2147483647 * 1_000_000) by (nonlinear_arith)
                requires
                    1 <= position <= 2147483647,
            ;
        }
        let q: u64 = position as u64 * RATIO_SCALE as u64 / extent as u64;
        if q >= RATIO_SCALE as u64 {
            RATIO_SCALE - 1
        } else {
            q as u32
        }
    }
}

/// Decides what a move of the native handle to `position` does to a
/// splitter whose ratio is `current` and whose axis is `extent` long: the new
/// ratio, or `None` where the position is not a real one (below one) or the
/// change is too small to matter.
pub fn splitter_after_drag(current: u32, position: i32, extent: u16) -> (r: Option<u32>)
    ensures
        r == drag_ratio(current, position, extent),
{
    if position < 1 {
        return None;
    }
    let n = position_to_ratio(position, extent);
    if (current > n && current - n > RATIO_THRESHOLD) || (n > current && n - current
        > RATIO_THRESHOLD) {
        Some(n)
    } else {
        None
    }
}

} // verus!
