//! The set of chosen mirrors: whole countries are added and removed.

use vstd::prelude::*;
use itertools::Itertools;
use crate::mirrors::{Country, Mirror, Protocol};

verus! {

/// A mirror as it was when its country was chosen, with the country's code.
#[derive(Debug, Clone)]
pub struct SelectedMirror {
    pub country_code: String,
    pub protocol: Protocol,
    pub completion_pct: u32,
    pub delay: Option<i64>,
    pub duration_avg: Option<u64>,
    pub duration_stddev: Option<u64>,
    pub score: Option<u64>,
    pub last_sync: Option<i64>,
}

/// The record that stands for `mirror` of the country with code `code`.
pub open spec fn snapshot(code: String, mirror: Mirror) -> SelectedMirror {
    SelectedMirror {
        country_code: code,
        protocol: mirror.protocol,
        completion_pct: mirror.completion_pct,
        delay: mirror.delay,
        duration_avg: mirror.duration_avg,
        duration_stddev: mirror.duration_stddev,
        score: mirror.score,
        last_sync: mirror.last_sync,
    }
}

/// The records of all mirrors of a country, in the country's order.
pub open spec fn snapshots(country: Country) -> Seq<SelectedMirror> {
    Seq::new(country.mirrors@.len(), |i: int| snapshot(country.code, country.mirrors@[i]))
}

/// Whether some record of `chosen` belongs to the country with code `code`.
pub open spec fn holds_parent(chosen: Seq<SelectedMirror>, code: Seq<char>) -> bool {
    exists|i: int| 0 <= i < chosen.len() && (#[trigger] chosen[i]).country_code@ == code
}

/// `chosen` without the records of the country with code `code`; the
/// others keep their order.
pub open spec fn without_parent(chosen: Seq<SelectedMirror>, code: Seq<char>) -> Seq<SelectedMirror>
    decreases chosen.len(),
{
    if chosen.len() == 0 {
        chosen
    } else if chosen.last().country_code@ == code {
        without_parent(chosen.drop_last(), code)
    } else {
        without_parent(chosen.drop_last(), code).push(chosen.last())
    }
}

/// The selection after the country is toggled: where it holds records of
/// the country, all of them leave; else the country's mirrors are appended.
pub open spec fn toggled(chosen: Seq<SelectedMirror>, country: Country) -> Seq<SelectedMirror> {
    if holds_parent(chosen, country.code@) {
        without_parent(chosen, country.code@)
    } else {
        chosen + snapshots(country)
    }
}

impl SelectedMirror {
    /// Whether the record belongs to the country with code `code`.
    pub fn belongs_to(&self, code: &String) -> (r: bool)
        ensures
            r == (self.country_code@ == code@),
    {
        self.country_code == *code
    }

    /// A copy of the record.
    pub fn duplicate(&self) -> (r: SelectedMirror)
        ensures
            r == *self,
    {
        SelectedMirror {
            country_code: self.country_code.clone(),
            protocol: self.protocol,
            completion_pct: self.completion_pct,
            delay: self.delay,
            duration_avg: self.duration_avg,
            duration_stddev: self.duration_stddev,
            score: self.score,
            last_sync: self.last_sync,
        }
    }
}

/// Calls `Itertools::positions` of the crate itertools, and collects with
/// its `collect_vec`. Trusted: the result holds, in rising order, exactly
/// the indices of the records for which `belongs_to` answers yes.
#[verifier::external_body]
fn parent_positions(chosen: &Vec<SelectedMirror>, code: &String) -> (r: Vec<usize>)
    ensures
        forall|k: int| 0 <= k < r@.len() ==> (#[trigger] r@[k]) < chosen@.len() && chosen@[r@[k] as int].country_code@ == code@,
        forall|j: int| 0 <= j < chosen@.len() && (#[trigger] chosen@[j]).country_code@ == code@ ==> r@.contains(j as usize),
        forall|a: int, b: int| 0 <= a < b < r@.len() ==> r@[a] < r@[b],
{
    chosen.iter().positions(|leaf| leaf.belongs_to(code)).collect_vec()
}

/// The records of all mirrors of `country`.
pub fn flatten(country: &Country) -> (r: Vec<SelectedMirror>)
    ensures
        r@ == snapshots(*country),
{
    let mut out: Vec<SelectedMirror> = Vec::new();
    let mut i: usize = 0;
    while i < country.mirrors.len()
        invariant
            i <= country.mirrors.len(),
            out@.len() == i,
            forall|j: int| 0 <= j < i ==> out@[j] == snapshot(country.code, country.mirrors@[j]),
        decreases country.mirrors.len() - i,
    {
        let m: Mirror = country.mirrors[i];
        out.push(
            SelectedMirror {
                country_code: country.code.clone(),
                protocol: m.protocol,
                completion_pct: m.completion_pct,
                delay: m.delay,
                duration_avg: m.duration_avg,
                duration_stddev: m.duration_stddev,
                score: m.score,
                last_sync: m.last_sync,
            },
        );
        i += 1;
    }
    assert(out@ =~= snapshots(*country));
    out
}

/// Toggles a country in the selection: removes every record of it where
/// there is one, else appends a record for each of its mirrors.
pub fn toggle_country(chosen: &mut Vec<SelectedMirror>, country: &Country)
    ensures
        final(chosen)@ == toggled(old(chosen)@, *country),
{
    let found = parent_positions(chosen, &country.code);
    if found.is_empty() {
        assert(!holds_parent(chosen@, country.code@)) by {
            if holds_parent(chosen@, country.code@) {
                let j = choose|j: int| 0 <= j < chosen@.len() && (#[trigger] chosen@[j]).country_code@ == country.code@;
                assert(found@.contains(j as usize));
            }
        }
        let mut fresh = flatten(country);
        chosen.append(&mut fresh);
    } else {
        assert(holds_parent(chosen@, country.code@)) by {
            assert(chosen@[found@[0] as int].country_code@ == country.code@);
        }
        let mut kept: Vec<SelectedMirror> = Vec::new();
        let mut i: usize = 0;
        assert(chosen@.subrange(0, 0) =~= Seq::<SelectedMirror>::empty());
        while i < chosen.len()
            invariant
                i <= chosen.len(),
                kept@ == without_parent(chosen@.subrange(0, i as int), country.code@),
            decreases chosen.len() - i,
        {
            assert(chosen@.subrange(0, i + 1).drop_last() =~= chosen@.subrange(0, i as int));
            assert(chosen@.subrange(0, i + 1).last() == chosen@[i as int]);
            if !chosen[i].belongs_to(&country.code) {
                kept.push(chosen[i].duplicate());
            }
            i += 1;
        }
        assert(chosen@.subrange(0, i as int) =~= chosen@);
        *chosen = kept;
    }
}

/// No record of the country is left after its records are removed, and a
/// selection without records of the country is left as it is.
pub proof fn lemma_without_parent(chosen: Seq<SelectedMirror>, code: Seq<char>)
    ensures
        !holds_parent(without_parent(chosen, code), code),
        !holds_parent(chosen, code) ==> without_parent(chosen, code) == chosen,
    decreases chosen.len(),
{
    if chosen.len() > 0 {
        let head = chosen.drop_last();
        lemma_without_parent(head, code);
        let rest = without_parent(head, code);
        if holds_parent(without_parent(chosen, code), code) {
            let w = without_parent(chosen, code);
            let i = choose|i: int| 0 <= i < w.len() && (#[trigger] w[i]).country_code@ == code;
            if chosen.last().country_code@ != code {
                if i < rest.len() {
                    assert(rest[i].country_code@ == code);
                }
            }
            assert(false);
        }
        if !holds_parent(chosen, code) {
            assert(chosen.last() == chosen[chosen.len() - 1]);
            if holds_parent(head, code) {
                let i = choose|i: int| 0 <= i < head.len() && (#[trigger] head[i]).country_code@ == code;
                assert(chosen[i].country_code@ == code);
            }
            assert(rest.push(chosen.last()) =~= chosen);
        }
    }
}

/// Removing a country's records from a selection that ends in records of
/// that country alone removes that end.
pub proof fn lemma_without_appended(chosen: Seq<SelectedMirror>, added: Seq<SelectedMirror>, code: Seq<char>)
    requires
        forall|i: int| 0 <= i < added.len() ==> (#[trigger] added[i]).country_code@ == code,
    ensures
        without_parent(chosen + added, code) == without_parent(chosen, code),
    decreases added.len(),
{
    if added.len() == 0 {
        assert(chosen + added =~= chosen);
    } else {
        let all = chosen + added;
        assert(all.last() == added[added.len() - 1]);
        assert(all.drop_last() =~= chosen + added.drop_last());
        lemma_without_appended(chosen, added.drop_last(), code);
    }
}

/// Toggling a country twice in a row, with its mirrors unchanged, gives
/// back the selection, where the selection held no record of the country
/// to begin with.
pub proof fn lemma_toggle_twice(chosen: Seq<SelectedMirror>, country: Country)
    requires
        !holds_parent(chosen, country.code@),
    ensures
        toggled(toggled(chosen, country), country) == chosen,
{
    let added = snapshots(country);
    let once = chosen + added;
    if added.len() == 0 {
        assert(once =~= chosen);
    } else {
        assert(once[chosen.len() as int] == added[0]);
        assert(holds_parent(once, country.code@));
        lemma_without_appended(chosen, added, country.code@);
        lemma_without_parent(chosen, country.code@);
    }
}

} // verus!
