//! The list on screen: the countries that pass the active filters, in the
//! chosen order. An entry names a country by its index in the collection
//! and carries the number of its mirrors.

use vstd::prelude::*;
use crate::dispatch::{Filter, ViewSort};
use crate::mirrors::{passes_all, Country};
use crate::text::{lex_lt, name_before};

verus! {

/// Whether country `a` has to stand before country `b` in the given order:
/// alphabetically by name, or by falling number of mirrors.
pub open spec fn goes_before(a: Country, b: Country, order: ViewSort) -> bool {
    match order {
        ViewSort::Alphabetical => lex_lt(a.name@, b.name@),
        ViewSort::MirrorCount => a.mirrors@.len() > b.mirrors@.len(),
    }
}

/// Where a new country goes into a list that is already in order: behind
/// every entry that it does not have to stand before, so that entries that
/// tie keep the order in which they came.
pub open spec fn slot(
    listed: Seq<(usize, usize)>,
    items: Seq<Country>,
    order: ViewSort,
    fresh: int,
) -> int
    recommends
        0 <= fresh < items.len(),
        forall|p: int| 0 <= p < listed.len() ==> (#[trigger] listed[p]).0 < items.len(),
    decreases listed.len(),
{
    if listed.len() == 0 {
        0
    } else if goes_before(items[fresh], items[listed.last().0 as int], order) {
        slot(listed.drop_last(), items, order, fresh)
    } else {
        listed.len() as int
    }
}

/// The list made of the first `upto` countries of `items`: those that pass
/// every filter, stably sorted in the given order.
pub open spec fn listed_upto(
    items: Seq<Country>,
    last_check: i64,
    filters: Seq<Filter>,
    order: ViewSort,
    upto: int,
) -> Seq<(usize, usize)>
    recommends
        0 <= upto <= items.len(),
    decreases upto,
{
    if upto <= 0 {
        Seq::empty()
    } else {
        let before = listed_upto(items, last_check, filters, order, upto - 1);
        let fresh = upto - 1;
        if passes_all(items[fresh].mirrors@, filters, last_check) {
            before.insert(
                slot(before, items, order, fresh),
                (fresh as usize, items[fresh].mirrors@.len() as usize),
            )
        } else {
            before
        }
    }
}

/// The list on screen for a collection, filters and an order.
pub open spec fn listed(
    items: Seq<Country>,
    last_check: i64,
    filters: Seq<Filter>,
    order: ViewSort,
) -> Seq<(usize, usize)> {
    listed_upto(items, last_check, filters, order, items.len() as int)
}

/// Whether the entries of `view` name countries of `items`, none twice,
/// each with the number of its mirrors.
pub open spec fn names_items(view: Seq<(usize, usize)>, items: Seq<Country>) -> bool {
    &&& forall|p: int|
        0 <= p < view.len() ==> (#[trigger] view[p]).0 < items.len() && view[p].1
            == items[view[p].0 as int].mirrors@.len()
    &&& forall|p: int, q: int| 0 <= p < q < view.len() ==> (#[trigger] view[p]).0 != (#[trigger] view[q]).0
}

/// Whether `view` is in the given order, ties in the order of the
/// collection: no entry has to stand before an earlier one, and of two
/// entries where neither has to stand before the other the one with the
/// smaller index is first.
pub open spec fn in_order(view: Seq<(usize, usize)>, items: Seq<Country>, order: ViewSort) -> bool {
    forall|p: int, q: int|
        0 <= p < q < view.len() ==> {
            let a = items[(#[trigger] view[p]).0 as int];
            let b = items[(#[trigger] view[q]).0 as int];
            !goes_before(b, a, order) && (goes_before(a, b, order) || view[p].0 < view[q].0)
        }
}

/// Whether the entry for country `index` is in `view`.
pub open spec fn lists(view: Seq<(usize, usize)>, index: int) -> bool {
    exists|p: int| 0 <= p < view.len() && (#[trigger] view[p]).0 == index
}

/// Computes the position at which a new country goes into the list.
fn find_slot(view: &Vec<(usize, usize)>, items: &Vec<Country>, order: ViewSort, fresh: usize) -> (at: usize)
    requires
        fresh < items@.len(),
        forall|p: int| 0 <= p < view@.len() ==> (#[trigger] view@[p]).0 < items@.len(),
    ensures
        at == slot(view@, items@, order, fresh as int),
        at <= view@.len(),
{
    let mut at: usize = view.len();
    assert(view@.subrange(0, at as int) =~= view@);
    while at > 0
        invariant
            at <= view@.len(),
            fresh < items@.len(),
            forall|p: int| 0 <= p < view@.len() ==> (#[trigger] view@[p]).0 < items@.len(),
            slot(view@, items@, order, fresh as int) == slot(view@.subrange(0, at as int), items@, order, fresh as int),
        decreases at,
    {
        let ghost head = view@.subrange(0, at as int);
        assert(head.last() == view@[at - 1]);
        let other: usize = view[at - 1].0;
        let first: bool = match order {
            ViewSort::Alphabetical => name_before(&items[fresh].name, &items[other].name),
            ViewSort::MirrorCount => items[fresh].mirrors.len() > items[other].mirrors.len(),
        };
        if !first {
            return at;
        }
        assert(head.drop_last() =~= view@.subrange(0, at - 1));
        at -= 1;
    }
    at
}

/// Builds the list on screen: the countries of `items` that pass every
/// filter of `filters`, stably sorted in the given order. The result is a
/// function of the arguments; it names countries of the collection, none
/// twice, lists a country exactly where it passes every filter, and is in
/// the chosen order with ties in the order of the collection.
pub fn derive_view(items: &Vec<Country>, last_check: i64, filters: &Vec<Filter>, order: ViewSort) -> (view: Vec<(usize, usize)>)
    ensures
        view@ == listed(items@, last_check, filters@, order),
        view@.len() <= items@.len(),
        names_items(view@, items@),
        in_order(view@, items@, order),
        forall|i: int|
            0 <= i < items@.len() ==> (lists(view@, i) <==> passes_all(
                #[trigger] items@[i].mirrors@,
                filters@,
                last_check,
            )),
{
    let mut view: Vec<(usize, usize)> = Vec::new();
    let mut i: usize = 0;
    while i < items.len()
        invariant
            i <= items@.len(),
            view@ == listed_upto(items@, last_check, filters@, order, i as int),
            view@.len() <= i,
            forall|p: int| 0 <= p < view@.len() ==> (#[trigger] view@[p]).0 < items@.len(),
        decreases items.len() - i,
    {
        if items[i].passes(filters, last_check) {
            let at: usize = find_slot(&view, items, order, i);
            let ghost before = view@;
            view.insert(at, (i, items[i].mirrors.len()));
            assert forall|p: int| 0 <= p < view@.len() implies (#[trigger] view@[p]).0 < items@.len() by {
                if p < at {
                    assert(view@[p] == before[p]);
                } else if p > at {
                    assert(view@[p] == before[p - 1]);
                }
            }
        }
        i += 1;
    }
    proof {
        lemma_listed_upto(items@, last_check, filters@, order, items@.len() as int);
    }
    view
}


/// The place that `slot` gives is inside the list or at its end; the new
/// country has to stand before every entry from there on, and not before
/// the entry just ahead of it.
pub proof fn lemma_slot(listed: Seq<(usize, usize)>, items: Seq<Country>, order: ViewSort, fresh: int)
    ensures
        0 <= slot(listed, items, order, fresh) <= listed.len(),
        forall|p: int|
            slot(listed, items, order, fresh) <= p < listed.len() ==> goes_before(
                items[fresh],
                items[(#[trigger] listed[p]).0 as int],
                order,
            ),
        slot(listed, items, order, fresh) > 0 ==> !goes_before(
            items[fresh],
            items[listed[slot(listed, items, order, fresh) - 1].0 as int],
            order,
        ),
    decreases listed.len(),
{
    if listed.len() > 0 && goes_before(items[fresh], items[listed.last().0 as int], order) {
        lemma_slot(listed.drop_last(), items, order, fresh);
        let s = slot(listed.drop_last(), items, order, fresh);
        assert forall|p: int| s <= p < listed.len() implies goes_before(
            items[fresh],
            items[(#[trigger] listed[p]).0 as int],
            order,
        ) by {
            if p < listed.len() - 1 {
                assert(listed.drop_last()[p] == listed[p]);
            }
        }
        if s > 0 {
            assert(listed.drop_last()[s - 1] == listed[s - 1]);
        }
    }
}

/// Of two countries at most one has to stand before the other, and where
/// `a` need not stand before `b`, nor `b` before `c`, `a` need not stand
/// before `c`.
pub proof fn lemma_goes_before(a: Country, b: Country, c: Country, order: ViewSort)
    ensures
        !(goes_before(a, b, order) && goes_before(b, a, order)),
        !goes_before(a, b, order) && !goes_before(b, c, order) ==> !goes_before(a, c, order),
{
    crate::text::lemma_lex_asymmetric(a.name@, b.name@);
    if !lex_lt(a.name@, b.name@) && !lex_lt(b.name@, c.name@) {
        crate::text::lemma_lex_not_before_chain(a.name@, b.name@, c.name@);
    }
}

/// What the list on screen is: it names countries of the collection, none
/// twice, each with the number of its mirrors; a country is listed exactly
/// where it passes every filter; and the list is in the chosen order, ties
/// in the order of the collection.
pub proof fn lemma_listed_upto(
    items: Seq<Country>,
    last_check: i64,
    filters: Seq<Filter>,
    order: ViewSort,
    upto: int,
)
    requires
        0 <= upto <= items.len() <= usize::MAX,
    ensures
        names_items(listed_upto(items, last_check, filters, order, upto), items),
        in_order(listed_upto(items, last_check, filters, order, upto), items, order),
        listed_upto(items, last_check, filters, order, upto).len() <= upto,
        forall|p: int|
            0 <= p < listed_upto(items, last_check, filters, order, upto).len() ==> (
            #[trigger] listed_upto(items, last_check, filters, order, upto)[p]).0 < upto,
        forall|i: int|
            0 <= i < upto ==> (lists(listed_upto(items, last_check, filters, order, upto), i)
                <==> passes_all(#[trigger] items[i].mirrors@, filters, last_check)),
    decreases upto,
{
    if upto > 0 {
        let before = listed_upto(items, last_check, filters, order, upto - 1);
        let after = listed_upto(items, last_check, filters, order, upto);
        let fresh = upto - 1;
        lemma_listed_upto(items, last_check, filters, order, upto - 1);
        if passes_all(items[fresh].mirrors@, filters, last_check) {
            let s = slot(before, items, order, fresh);
            lemma_slot(before, items, order, fresh);
            let entry = (fresh as usize, items[fresh].mirrors@.len() as usize);
            assert(items[fresh].mirrors.len() == items[fresh].mirrors@.len());
            assert(after == before.insert(s, entry));
            assert forall|p: int| 0 <= p < after.len() implies (#[trigger] after[p]).0 < upto
                && after[p].0 < items.len() && after[p].1 == items[after[p].0 as int].mirrors@.len() by {
                if p < s {
                    assert(after[p] == before[p]);
                } else if p > s {
                    assert(after[p] == before[p - 1]);
                }
            }
            assert forall|p: int, q: int| 0 <= p < q < after.len() implies (#[trigger] after[p]).0 != (
            #[trigger] after[q]).0 && !goes_before(
                items[after[q].0 as int],
                items[after[p].0 as int],
                order,
            ) && (goes_before(items[after[p].0 as int], items[after[q].0 as int], order) || after[p].0
                < after[q].0) by {
                let bp = if p < s { p } else { p - 1 };
                let bq = if q < s { q } else { q - 1 };
                if p != s {
                    assert(after[p] == before[bp]);
                }
                if q != s {
                    assert(after[q] == before[bq]);
                }
                if q == s {
                    // an entry ahead of the new one
                    lemma_goes_before(items[fresh], items[before[s - 1].0 as int], items[before[p].0 as int], order);
                    if p < s - 1 {
                        assert(!goes_before(items[before[s - 1].0 as int], items[before[p].0 as int], order));
                    }
                } else if p == s {
                    // an entry behind the new one
                    lemma_goes_before(items[fresh], items[before[bq].0 as int], items[fresh], order);
                } else {
                    assert(bp < bq);
                }
            }
            assert forall|i: int| 0 <= i < upto implies (lists(after, i) <==> passes_all(
                #[trigger] items[i].mirrors@,
                filters,
                last_check,
            )) by {
                if i == fresh {
                    assert(after[s].0 == fresh);
                } else {
                    if lists(before, i) {
                        let p = choose|p: int| 0 <= p < before.len() && (#[trigger] before[p]).0 == i;
                        let ap = if p < s { p } else { p + 1 };
                        assert(after[ap] == before[p]);
                    }
                    if lists(after, i) {
                        let p = choose|p: int| 0 <= p < after.len() && (#[trigger] after[p]).0 == i;
                        let bp = if p < s { p } else { p - 1 };
                        assert(after[p] == before[bp]);
                    }
                }
            }
        } else {
            assert forall|i: int| 0 <= i < upto implies (lists(after, i) <==> passes_all(
                #[trigger] items[i].mirrors@,
                filters,
                last_check,
            )) by {
                if i == fresh && lists(after, i) {
                    let p = choose|p: int| 0 <= p < after.len() && (#[trigger] after[p]).0 == i;
                    assert(after[p].0 < upto - 1);
                }
            }
        }
    }
}

/// The list depends on the active filters only as a set: two filter lists
/// with the same members give the same list.
pub proof fn lemma_listed_by_members(
    items: Seq<Country>,
    last_check: i64,
    first: Seq<Filter>,
    second: Seq<Filter>,
    order: ViewSort,
    upto: int,
)
    requires
        forall|f: Filter| first.contains(f) <==> second.contains(f),
    ensures
        listed_upto(items, last_check, first, order, upto) == listed_upto(
            items,
            last_check,
            second,
            order,
            upto,
        ),
    decreases upto,
{
    if upto > 0 {
        lemma_listed_by_members(items, last_check, first, second, order, upto - 1);
        let m = items[upto - 1].mirrors@;
        assert(passes_all(m, first, last_check) == passes_all(m, second, last_check)) by {
            if passes_all(m, first, last_check) {
                assert forall|k: int| 0 <= k < second.len() implies crate::mirrors::passes_one(
                    m,
                    #[trigger] second[k],
                    last_check,
                ) by {
                    assert(second.contains(second[k]));
                    let j = choose|j: int| 0 <= j < first.len() && first[j] == second[k];
                    assert(crate::mirrors::passes_one(m, first[j], last_check));
                }
            }
            if passes_all(m, second, last_check) {
                assert forall|k: int| 0 <= k < first.len() implies crate::mirrors::passes_one(
                    m,
                    #[trigger] first[k],
                    last_check,
                ) by {
                    assert(first.contains(first[k]));
                    let j = choose|j: int| 0 <= j < second.len() && second[j] == first[k];
                    assert(crate::mirrors::passes_one(m, second[j], last_check));
                }
            }
        }
    }
}

} // verus!
