//! Which comparator edges a sector listens to.

use vstd::prelude::*;

verus! {

/// The edges of an edge mode in a sector, rising and falling: 0 both, 1
/// rising, 2 falling, 3 the edge of the physical crossing (rising in even
/// sectors, falling in odd ones), 4 the opposite of 3, and both for every
/// other mode, where the interrupt filters on the level.
pub open spec fn edges_of(mode: u8, sector: u8) -> (bool, bool) {
    if mode == 1 {
        (true, false)
    } else if mode == 2 {
        (false, true)
    } else if mode == 3 {
        (sector % 2 == 0, sector % 2 == 1)
    } else if mode == 4 {
        (sector % 2 == 1, sector % 2 == 0)
    } else {
        (true, true)
    }
}

/// The edges to listen to, rising and falling.
pub fn edges_for(mode: u8, sector: u8) -> (r: (bool, bool))
    ensures
        r == edges_of(mode, sector),
{
    match mode {
        0 => (true, true),
        1 => (true, false),
        2 => (false, true),
        3 => {
            if sector % 2 == 0 {
                (true, false)
            } else {
                (false, true)
            }
        },
        4 => {
            if sector % 2 == 0 {
                (false, true)
            } else {
                (true, false)
            }
        },
        _ => (true, true),
    }
}

/// The anti mode is the mirror of the physical one, each listens to exactly
/// one edge, and no mode is deaf.
pub proof fn law_edges_mirror(mode: u8, sector: u8)
    ensures
        edges_of(4, sector) == (edges_of(3, sector).1, edges_of(3, sector).0),
        edges_of(3, sector).0 != edges_of(3, sector).1,
        edges_of(mode, sector).0 || edges_of(mode, sector).1,
{
}

/// Mode 1 hears rising edges, mode 2 falling ones, in every sector; mode 3
/// rising ones in sectors 0, 2 and 4 and falling ones in 1, 3 and 5; any
/// other both.
pub proof fn law_edges_by_mode(mode: u8, sector: u8)
    requires
        sector <= 5,
    ensures
        edges_of(1, sector) == (true, false),
        edges_of(2, sector) == (false, true),
        edges_of(3, sector).0 <==> sector == 0 || sector == 2 || sector == 4,
        mode == 0 || mode >= 5 ==> edges_of(mode, sector) == (true, true),
{
}

} // verus!
