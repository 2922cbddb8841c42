//! What holds of the transitions, whatever the state.

use vstd::prelude::*;
use crate::dispatch::{Filter, ViewSort};
use crate::key::Key;
use crate::listing::{lemma_listed_by_members, lemma_listed_upto};
use crate::mirrors::Country;
use crate::model::{
    distinct, flipped, page_count, page_end, page_index, page_len, page_offset, pages_total, position, Model,
};
use crate::selection::{holds_parent, lemma_toggle_twice};

verus! {

/// `position` is the index of the first occurrence, or the length where
/// there is none.
pub proof fn lemma_position(filters: Seq<Filter>, filter: Filter)
    ensures
        0 <= position(filters, filter) <= filters.len(),
        position(filters, filter) < filters.len() ==> filters[position(filters, filter)] == filter,
        forall|j: int| 0 <= j < position(filters, filter) ==> filters[j] != filter,
    decreases filters.len(),
{
    if filters.len() > 0 && filters[0] != filter {
        let rest = filters.drop_first();
        lemma_position(rest, filter);
        assert forall|j: int| 0 <= j < position(filters, filter) implies filters[j] != filter by {
            if j > 0 {
                assert(rest[j - 1] == filters[j]);
            }
        }
    }
}

/// Toggling a filter in a list without repetitions: the filter changes
/// sides, every other filter stays where it was, in or out, and still no
/// filter is active twice.
pub proof fn lemma_flipped(filters: Seq<Filter>, filter: Filter)
    requires
        distinct(filters),
    ensures
        distinct(flipped(filters, filter)),
        forall|f: Filter|
            flipped(filters, filter).contains(f) <==> (if f == filter {
                !filters.contains(f)
            } else {
                filters.contains(f)
            }),
{
    lemma_position(filters, filter);
    let at = position(filters, filter);
    let after = flipped(filters, filter);
    if at < filters.len() {
        assert forall|f: Filter| after.contains(f) <==> (if f == filter {
            !filters.contains(f)
        } else {
            filters.contains(f)
        }) by {
            if after.contains(f) {
                let i = choose|i: int| 0 <= i < after.len() && after[i] == f;
                let j = if i < at { i } else { i + 1 };
                assert(filters[j] == f);
            }
            if filters.contains(f) && f != filter {
                let j = choose|j: int| 0 <= j < filters.len() && filters[j] == f;
                let i = if j < at { j } else { j - 1 };
                assert(after[i] == f);
            }
        }
    } else {
        assert forall|f: Filter| after.contains(f) <==> (if f == filter {
            !filters.contains(f)
        } else {
            filters.contains(f)
        }) by {
            assert(after[filters.len() as int] == filter);
            if after.contains(f) && f != filter {
                let i = choose|i: int| 0 <= i < after.len() && after[i] == f;
                assert(filters[i] == f);
            }
            if filters.contains(f) {
                let j = choose|j: int| 0 <= j < filters.len() && filters[j] == f;
                assert(after[j] == f);
            }
        }
    }
}

/// Rebuilding the list of a state whose settings are settled gives a
/// state that meets the invariant.
pub proof fn lemma_refreshed(m: Model)
    requires
        m.settled(),
        m.item_count() <= usize::MAX,
    ensures
        m.refreshed().wf(),
{
    match m.items {
        Some(items) => {
            lemma_listed_upto(items, m.last_check, m.filters, m.order(), items.len() as int);
        },
        None => {},
    }
}

/// Deriving the list again, with the collection, the filters and the
/// order unchanged, gives the same list.
pub proof fn lemma_derive_idempotent(m: Model)
    ensures
        m.refreshed().derived() == m.derived(),
        m.refreshed().refreshed() == m.refreshed(),
{
}

/// The invariant holds of every reachable state: a key takes a state that
/// meets it to a state that meets it. In particular the cursor stays
/// inside a list that is not empty.
pub proof fn lemma_step_keeps_wf(m: Model, key: Key)
    requires
        m.wf(),
        m.item_count() <= usize::MAX,
    ensures
        m.step(key).wf(),
        m.step(key).filtered.len() > 0 ==> 0 <= m.step(key).cursor < m.step(key).filtered.len(),
{
    lemma_moves(m);
    lemma_flipped(m.filters, Filter::Http);
    lemma_flipped(m.filters, Filter::Https);
    lemma_flipped(m.filters, Filter::Rsync);
    lemma_flipped(m.filters, Filter::InSync);
    lemma_refreshed(Model { filters: flipped(m.filters, Filter::Http), ..m });
    lemma_refreshed(Model { filters: flipped(m.filters, Filter::Https), ..m });
    lemma_refreshed(Model { filters: flipped(m.filters, Filter::Rsync), ..m });
    lemma_refreshed(Model { filters: flipped(m.filters, Filter::InSync), ..m });
    lemma_refreshed(Model { sort: seq![ViewSort::Alphabetical], ..m });
    lemma_refreshed(Model { sort: seq![ViewSort::MirrorCount], ..m });
}

/// Moving the cursor keeps it inside the list; down from the last row
/// leads to the first, up from the first row to the last.
pub proof fn lemma_moves(m: Model)
    requires
        m.wf(),
    ensures
        m.next().wf(),
        m.previous().wf(),
        m.filtered.len() > 0 && m.cursor == m.filtered.len() - 1 ==> m.next().cursor == 0,
        m.filtered.len() > 0 && m.cursor == 0 ==> m.previous().cursor == m.filtered.len() - 1,
        m.filtered.len() > 0 && m.cursor < m.filtered.len() - 1 ==> m.next().cursor == m.cursor + 1,
        m.filtered.len() > 0 && m.cursor > 0 ==> m.previous().cursor == m.cursor - 1,
{
    let n = m.filtered.len() as int;
    if n > 0 {
        let c = m.cursor;
        if c == n - 1 {
            assert(n % n == 0) by (nonlinear_arith)
                requires
                    n > 0,
            ;
        } else {
            vstd::arithmetic::div_mod::lemma_small_mod((c + 1) as nat, n as nat);
        }
        if c == 0 {
            vstd::arithmetic::div_mod::lemma_small_mod((n - 1) as nat, n as nat);
        } else {
            vstd::arithmetic::div_mod::lemma_mod_add_multiples_vanish(c - 1, n);
            vstd::arithmetic::div_mod::lemma_small_mod((c - 1) as nat, n as nat);
        }
    }
}

/// Toggling a filter twice, with nothing else changed, gives back the list
/// on screen and the set of active filters.
pub proof fn lemma_toggle_filter_twice(m: Model, filter: Filter)
    requires
        m.wf(),
    ensures
        m.toggle_filter(filter).toggle_filter(filter).filtered == m.filtered,
        forall|f: Filter|
            m.toggle_filter(filter).toggle_filter(filter).filters.contains(f) <==> m.filters.contains(f),
        !m.filters.contains(filter) ==> m.toggle_filter(filter).toggle_filter(filter).filters == m.filters,
{
    let once = flipped(m.filters, filter);
    let twice = flipped(once, filter);
    lemma_flipped(m.filters, filter);
    lemma_flipped(once, filter);
    match m.items {
        Some(items) => {
            lemma_listed_by_members(items, m.last_check, twice, m.filters, m.order(), items.len() as int);
        },
        None => {},
    }
    if !m.filters.contains(filter) {
        lemma_position(m.filters, filter);
        lemma_position(once, filter);
        let at = position(m.filters, filter);
        if at < m.filters.len() {
            assert(m.filters.contains(m.filters[at]));
        }
        assert(once == m.filters.push(filter));
        let back = position(once, filter);
        if back < m.filters.len() {
            assert(once[back] == m.filters[back]);
            assert(m.filters.contains(m.filters[back]));
        }
        assert(twice =~= m.filters);
    }
}

/// Toggling the country under the cursor twice in a row, with the list
/// and the collection unchanged, gives back the selection, where the
/// selection held no mirror of that country to begin with.
pub proof fn lemma_toggle_select_twice(m: Model)
    requires
        m.wf(),
        match m.items {
            Some(items) => m.filtered.len() > 0 ==> !holds_parent(
                m.selected,
                items[m.filtered[m.cursor].0 as int].code@,
            ),
            None => true,
        },
    ensures
        m.toggle_select().toggle_select() == m,
{
    match m.items {
        Some(items) => {
            if m.filtered.len() > 0 {
                lemma_toggle_twice(m.selected, items[m.filtered[m.cursor].0 as int]);
            }
        },
        None => {},
    }
}

/// A position is found again by its page and its row in the page, and the
/// row is inside the page.
pub proof fn lemma_page_locates(cursor: int, height: int)
    requires
        cursor >= 0,
    ensures
        page_index(cursor, height) * height + page_offset(cursor, height) == cursor,
        page_index(cursor, height) >= 0,
        height > 0 ==> 0 <= page_offset(cursor, height) < height,
        height > 0 ==> page_offset(cursor, height) == cursor % height,
{
    if height > 0 {
        vstd::arithmetic::div_mod::lemma_fundamental_div_mod(cursor, height);
        vstd::arithmetic::div_mod::lemma_mod_bound(cursor, height);
        assert((cursor / height) * height == height * (cursor / height)) by (nonlinear_arith);
        assert(cursor / height >= 0) by (nonlinear_arith)
            requires
                cursor >= 0,
                height > 0,
        ;
    }
}

/// As long as whole pages fit, the pages together hold as many entries as
/// their number times the height.
proof fn lemma_full_pages(len: int, height: int, pages: int)
    requires
        height > 0,
        0 <= pages,
        pages * height <= len,
    ensures
        pages_total(len, height, pages) == pages * height,
    decreases pages,
{
    if pages > 0 {
        assert((pages - 1) * height == pages * height - height) by (nonlinear_arith);
        lemma_full_pages(len, height, pages - 1);
    } else {
        assert(0 * height == 0) by (nonlinear_arith);
    }
}

/// The pages partition the list: their lengths add up to the length of the
/// list, every page but the last is as long as the table is high, and the
/// last holds at least one entry and at most that many.
pub proof fn lemma_pages_partition(len: int, height: int)
    requires
        len >= 0,
        height > 0,
    ensures
        page_count(len, height) >= 0,
        pages_total(len, height, page_count(len, height)) == len,
        forall|i: int| 0 <= i < page_count(len, height) - 1 ==> #[trigger] page_len(len, height, i) == height,
        page_count(len, height) > 0 ==> 0 < page_len(len, height, page_count(len, height) - 1) <= height,
        len == 0 <==> page_count(len, height) == 0,
{
    let count = page_count(len, height);
    assert(count >= 0 && (count - 1) * height < len + 0 && len <= count * height && (len == 0 <==> count == 0))
        by (nonlinear_arith)
        requires
            count == (len + height - 1) / height,
            len >= 0,
            height > 0,
    ;
    if count > 0 {
        lemma_full_pages(len, height, count - 1);
        assert((count - 1 + 1) * height == count * height) by (nonlinear_arith);
        assert forall|i: int| 0 <= i < count - 1 implies #[trigger] page_len(len, height, i) == height by {
            assert((i + 1) * height <= (count - 1) * height && (i + 1) * height - i * height == height)
                by (nonlinear_arith)
                requires
                    i + 1 <= count - 1,
                    height > 0,
            ;
        }
        assert(page_end(len, height, count - 1) == len);
        assert(count * height - (count - 1) * height == height) by (nonlinear_arith);
    }
}

} // verus!
