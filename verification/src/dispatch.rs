//! Filters on mirrors and the two sort domains: the order of the list on
//! screen and the order of the exported mirrors.

use vstd::prelude::*;

verus! {

/// A predicate on mirrors that can be switched on and off.
#[derive(Clone, Copy, Debug, PartialEq, Eq, Structural)]
pub enum Filter {
    Http,
    Https,
    Rsync,
    InSync,
}

/// The order of the countries on screen.
#[derive(Clone, Copy, Debug, PartialEq, Eq, Structural)]
pub enum ViewSort {
    Alphabetical,
    MirrorCount,
}

/// The order of the mirrors in the export.
#[derive(Clone, Copy, Debug, PartialEq, Eq, Structural)]
pub enum ExportSort {
    Completion,
    MirroringDelay,
    Duration,
    Score,
}

} // verus!
