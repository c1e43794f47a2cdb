//! Arithmetic of scrollable viewports over a list of rows.

use vstd::prelude::*;

verus! {

/// Largest first row at which a viewport of `viewport_size` rows over
/// `item_count` rows is still full (0 when everything fits).
pub open spec fn spec_max_viewport_start(item_count: int, viewport_size: int) -> int {
    if item_count > viewport_size {
        item_count - viewport_size
    } else {
        0
    }
}

/// `start_index` limited to the largest full start.
pub open spec fn spec_clamp_viewport_start(start_index: int, item_count: int, viewport_size: int) -> int {
    let max_start = spec_max_viewport_start(item_count, viewport_size);
    if start_index < max_start {
        start_index
    } else {
        max_start
    }
}

/// The first row after moving `delta` rows from `start_index`: never below 0,
/// never past the largest full start.
pub open spec fn spec_scroll_viewport_start(
    start_index: int,
    delta: int,
    item_count: int,
    viewport_size: int,
) -> int {
    let moved = if start_index + delta < 0 {
        0
    } else {
        start_index + delta
    };
    spec_clamp_viewport_start(moved, item_count, viewport_size)
}

/// A requested viewport height limited to 1..=100 rows.
pub open spec fn spec_clamp_viewport_size(value: int) -> int {
    if value < 1 {
        1
    } else if value > 100 {
        100
    } else {
        value
    }
}

pub fn max_viewport_start(item_count: usize, viewport_size: usize) -> (r: usize)
    ensures
        r == spec_max_viewport_start(item_count as int, viewport_size as int),
{
    if item_count > viewport_size {
        item_count - viewport_size
    } else {
        0
    }
}

pub fn clamp_viewport_start(start_index: usize, item_count: usize, viewport_size: usize) -> (r: usize)
    ensures
        r == spec_clamp_viewport_start(start_index as int, item_count as int, viewport_size as int),
{
    let max_start = max_viewport_start(item_count, viewport_size);
    if start_index < max_start {
        start_index
    } else {
        max_start
    }
}

pub fn scroll_viewport_start(
    start_index: usize,
    delta: isize,
    item_count: usize,
    viewport_size: usize,
) -> (r: usize)
    ensures
        r == spec_scroll_viewport_start(
            start_index as int,
            delta as int,
            item_count as int,
            viewport_size as int,
        ),
{
    let max_start = max_viewport_start(item_count, viewport_size);
    let next: usize = if delta >= 0 {
        let step = delta as usize;
        if start_index > usize::MAX - step {
            usize::MAX
        } else {
            start_index + step
        }
    } else {
        let step: usize = ((-(delta + 1)) as usize) + 1;
        if start_index < step {
            0
        } else {
            start_index - step
        }
    };
    if next < max_start {
        next
    } else {
        max_start
    }
}

pub fn clamp_viewport_size(value: usize) -> (r: usize)
    ensures
        r == spec_clamp_viewport_size(value as int),
{
    if value < 1 {
        1
    } else if value > 100 {
        100
    } else {
        value
    }
}

} // verus!
