//! The settings that the command line and the configuration file can
//! give, and the values that stand in for those left out.

use vstd::prelude::*;
use crate::dispatch::{Filter, ViewSort};

verus! {

/// The settings as given: each may be left out.
#[derive(Debug)]
pub struct Args {
    /// File to write mirrors to.
    pub outfile: Option<String>,
    /// Number of mirrors to export.
    pub export: Option<u16>,
    /// Filters to use on the mirror list.
    pub filters: Option<Vec<Filter>>,
    /// The order in which to view the countries.
    pub view: Option<ViewSort>,
    /// The order of the exported mirrors.
    pub sort: Option<SelectionSort>,
    /// Countries to search for mirrors.
    pub country: Option<Vec<String>>,
    /// Number of hours to cache the mirror list for.
    pub ttl: Option<u16>,
    /// URL to check for mirrors.
    pub url: Option<String>,
    /// Another configuration file than the usual one.
    pub config: Option<String>,
}

/// The order of the exported mirrors, as it is named in the settings.
#[derive(Debug, PartialEq, Eq, Clone, Copy, PartialOrd, Ord, Structural)]
pub enum SelectionSort {
    Percentage,
    Delay,
    Duration,
    Score,
}

/// No other configuration file unless one is given.
pub fn configuration_dir() -> (r: Option<String>)
    ensures
        r is None,
{
    None
}

/// The address of the mirror status, unless another is given.
pub fn url() -> (r: Option<String>)
    ensures
        r is Some,
        r->0@ == "https://archlinux.org/mirrors/status/json/"@,
{
    Some("https://archlinux.org/mirrors/status/json/".to_owned())
}

/// The mirror list is cached for a day unless told otherwise.
pub fn default_ttl() -> (r: Option<u16>)
    ensures
        r == Some(24u16),
{
    Some(24)
}

/// Fifty mirrors are exported unless told otherwise.
pub fn default_export() -> (r: Option<u16>)
    ensures
        r == Some(50u16),
{
    Some(50)
}

/// No list unless one is given.
pub fn opt_vec<T>() -> (r: Option<Vec<T>>)
    ensures
        r is None,
{
    None
}

/// Exported mirrors are ordered by score unless told otherwise.
pub fn sort() -> (r: Option<SelectionSort>)
    ensures
        r == Some(SelectionSort::Score),
{
    Some(SelectionSort::Score)
}

/// Countries are viewed in alphabetical order unless told otherwise.
pub fn view() -> (r: Option<ViewSort>)
    ensures
        r == Some(ViewSort::Alphabetical),
{
    Some(ViewSort::Alphabetical)
}

/// The two web protocols are the filters unless others are given.
pub fn filters() -> (r: Option<Vec<Filter>>)
    ensures
        r is Some,
        r->0@ == seq![Filter::Http, Filter::Https],
{
    let mut list: Vec<Filter> = Vec::new();
    list.push(Filter::Http);
    list.push(Filter::Https);
    assert(list@ =~= seq![Filter::Http, Filter::Https]);
    Some(list)
}

} // verus!
