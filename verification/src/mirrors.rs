//! The hierarchical data that the dashboard browses: countries and the
//! mirrors they hold.

use vstd::prelude::*;
use crate::dispatch::Filter;

verus! {

/// The protocol that a mirror serves.
#[derive(Clone, Copy, Debug, PartialEq, Eq, Structural)]
pub enum Protocol {
    Http,
    Https,
    Rsync,
}

/// One mirror. Its quality attributes are carried as integers: completion
/// in hundredths of a percent, durations in microseconds, the score in
/// thousandths, times in seconds since the epoch.
#[derive(Clone, Copy, Debug, PartialEq, Eq, Structural)]
pub struct Mirror {
    pub protocol: Protocol,
    pub completion_pct: u32,
    pub delay: Option<i64>,
    pub duration_avg: Option<u64>,
    pub duration_stddev: Option<u64>,
    pub score: Option<u64>,
    pub last_sync: Option<i64>,
}

/// A country: a stable code, a display name and its mirrors in order.
#[derive(Debug)]
pub struct Country {
    pub code: String,
    pub name: String,
    pub mirrors: Vec<Mirror>,
}

/// The whole collection, with the time of the status check that gave it.
#[derive(Debug)]
pub struct ArchLinux {
    pub countries: Vec<Country>,
    pub last_check: i64,
}

/// The longest time, in seconds, between a mirror's last synchronisation
/// and the status check for the mirror to count as in sync.
pub const SYNC_WINDOW: i64 = 86400;

impl Mirror {
    /// Whether the mirror meets the filter. A protocol filter asks for that
    /// protocol; the in-sync filter asks for a last synchronisation that is
    /// known and at most `SYNC_WINDOW` seconds older than `last_check`.
    pub open spec fn meets(self, filter: Filter, last_check: i64) -> bool {
        match filter {
            Filter::Http => self.protocol == Protocol::Http,
            Filter::Https => self.protocol == Protocol::Https,
            Filter::Rsync => self.protocol == Protocol::Rsync,
            Filter::InSync => match self.last_sync {
                Some(at) => last_check - at <= SYNC_WINDOW,
                None => false,
            },
        }
    }

    /// Whether the mirror meets the filter.
    pub fn matches(&self, filter: Filter, last_check: i64) -> (r: bool)
        ensures
            r == self.meets(filter, last_check),
    {
        match filter {
            Filter::Http => self.protocol == Protocol::Http,
            Filter::Https => self.protocol == Protocol::Https,
            Filter::Rsync => self.protocol == Protocol::Rsync,
            Filter::InSync => match self.last_sync {
                Some(at) => {
                    if at >= 0 {
                        // the difference cannot overflow downwards, and an
                        // overflow upwards is impossible for a non-negative `at`
                        last_check < 0 || last_check - at <= SYNC_WINDOW
                    } else if last_check < 0 {
                        last_check - at <= SYNC_WINDOW
                    } else {
                        // at < 0 <= last_check: compare without forming the difference
                        last_check <= SYNC_WINDOW && at >= last_check - SYNC_WINDOW
                    }
                },
                None => false,
            },
        }
    }
}

/// Whether some mirror of `mirrors` meets the filter.
pub open spec fn some_meets(mirrors: Seq<Mirror>, filter: Filter, last_check: i64) -> bool {
    exists|i: int| 0 <= i < mirrors.len() && (#[trigger] mirrors[i]).meets(filter, last_check)
}

/// Whether a country with these mirrors passes one filter: some mirror
/// meets it, or the country has no mirror at all.
pub open spec fn passes_one(mirrors: Seq<Mirror>, filter: Filter, last_check: i64) -> bool {
    mirrors.len() == 0 || some_meets(mirrors, filter, last_check)
}

/// Whether a country with these mirrors passes every active filter.
pub open spec fn passes_all(mirrors: Seq<Mirror>, filters: Seq<Filter>, last_check: i64) -> bool {
    forall|k: int| 0 <= k < filters.len() ==> passes_one(mirrors, #[trigger] filters[k], last_check)
}

impl Country {
    /// Whether some mirror of the country meets the filter.
    pub fn any_mirror_matches(&self, filter: Filter, last_check: i64) -> (r: bool)
        ensures
            r == some_meets(self.mirrors@, filter, last_check),
    {
        let mut i: usize = 0;
        while i < self.mirrors.len()
            invariant
                i <= self.mirrors.len(),
                forall|j: int| 0 <= j < i ==> !(#[trigger] self.mirrors@[j]).meets(filter, last_check),
            decreases self.mirrors.len() - i,
        {
            if self.mirrors[i].matches(filter, last_check) {
                return true;
            }
            i += 1;
        }
        false
    }

    /// Whether the country passes every filter of `filters`.
    pub fn passes(&self, filters: &Vec<Filter>, last_check: i64) -> (r: bool)
        ensures
            r == passes_all(self.mirrors@, filters@, last_check),
    {
        if self.mirrors.len() == 0 {
            return true;
        }
        let mut k: usize = 0;
        while k < filters.len()
            invariant
                k <= filters.len(),
                self.mirrors@.len() > 0,
                forall|j: int| 0 <= j < k ==> passes_one(self.mirrors@, #[trigger] filters@[j], last_check),
            decreases filters.len() - k,
        {
            if !self.any_mirror_matches(filters[k], last_check) {
                assert(!passes_one(self.mirrors@, filters@[k as int], last_check));
                return false;
            }
            k += 1;
        }
        true
    }
}

} // verus!
