//! The plain-value parts of the activity grid: a block's configuration and
//! the shade that a day's activity gets.

use vstd::prelude::*;

verus! {

/// The size of a grid block and the text drawn in it.
pub struct GridBlockConf {
    pub width: u16,
    pub height: u16,
    pub view: String,
}

impl GridBlockConf {
    pub fn new(width: u16, height: u16, view: String) -> (r: GridBlockConf)
        ensures
            r.width == width,
            r.height == height,
            r.view == view,
    {
        GridBlockConf { width, height, view }
    }
}

/// The number of shades, from the brightest (0) to the darkest.
pub const SHADE_COUNT: usize = 5;

/// The shade of a day whose mean task progress is `activity` percent: the
/// darkest up to a quarter, then one step brighter per quarter.
pub open spec fn shade_of(activity: int) -> int {
    if 0 <= activity <= 25 {
        4
    } else if 26 <= activity <= 50 {
        3
    } else if 51 <= activity <= 75 {
        2
    } else if 76 <= activity <= 100 {
        1
    } else {
        4
    }
}

pub fn activity_shade(activity: i32) -> (r: usize)
    ensures
        r == shade_of(activity as int),
        r < SHADE_COUNT,
{
    if 0 <= activity && activity <= 25 {
        4
    } else if 26 <= activity && activity <= 50 {
        3
    } else if 51 <= activity && activity <= 75 {
        2
    } else if 76 <= activity && activity <= 100 {
        1
    } else {
        4
    }
}

} // verus!
