//! The settings in force, each with a value.

use vstd::prelude::*;
use crate::cli::SelectionSort;
use crate::dispatch::{ExportSort, Filter, ViewSort};

verus! {

/// The settings of a session.
#[derive(Debug)]
pub struct Configuration {
    pub outfile: String,
    pub export: u16,
    pub filters: Vec<Filter>,
    pub view: ViewSort,
    pub sort: ExportSort,
    pub country: Vec<String>,
    pub ttl: u16,
    pub url: String,
}

/// The export order that a named order of the settings stands for.
pub open spec fn export_order(sort: SelectionSort) -> ExportSort {
    match sort {
        SelectionSort::Percentage => ExportSort::Completion,
        SelectionSort::Delay => ExportSort::MirroringDelay,
        SelectionSort::Duration => ExportSort::Duration,
        SelectionSort::Score => ExportSort::Score,
    }
}

impl Configuration {
    /// Puts the settings together; the order of the export is the one that
    /// `sort` names.
    pub fn new(
        outfile: String,
        export: u16,
        filters: Vec<Filter>,
        view: ViewSort,
        sort: SelectionSort,
        country: Vec<String>,
        ttl: u16,
        url: String,
    ) -> (r: Self)
        ensures
            r.outfile == outfile,
            r.export == export,
            r.filters == filters,
            r.view == view,
            r.sort == export_order(sort),
            r.country == country,
            r.ttl == ttl,
            r.url == url,
    {
        Self {
            outfile,
            export,
            filters,
            view,
            sort: match sort {
                SelectionSort::Percentage => ExportSort::Completion,
                SelectionSort::Delay => ExportSort::MirroringDelay,
                SelectionSort::Duration => ExportSort::Duration,
                SelectionSort::Score => ExportSort::Score,
            },
            country,
            ttl,
            url,
        }
    }
}

} // verus!
