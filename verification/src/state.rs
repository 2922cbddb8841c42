//! The dashboard's state and the dispatch of keys on it.

use vstd::prelude::*;
use crate::action::{Action, Actions};
use crate::dispatch::{Filter, ViewSort};
use crate::key::Key;
use crate::listing::derive_view;
use crate::mirrors::ArchLinux;
use crate::model::{page_count, page_end, page_index, page_offset, position, AppReturn, Model};
use crate::selection::{toggle_country, SelectedMirror};
use crate::text::{prefix_width, display_width};

verus! {

/// The state of the dashboard. The list on screen names each country by
/// its index in the collection and carries the number of its mirrors.
pub struct App {
    pub show_popup: bool,
    pub actions: Actions,
    pub mirrors: Option<ArchLinux>,
    pub input: Vec<char>,
    pub input_cursor_position: usize,
    pub show_input: bool,
    pub active_sort: Vec<ViewSort>,
    pub active_filter: Vec<Filter>,
    pub scroll_pos: usize,
    pub filtered_countries: Vec<(usize, usize)>,
    pub selected_mirrors: Vec<SelectedMirror>,
    pub table_viewport_height: u16,
}

impl App {
    /// The state as a mathematical value.
    pub open spec fn model(&self) -> Model {
        Model {
            show_popup: self.show_popup,
            actions: self.actions.list@,
            items: match self.mirrors {
                Some(m) => Some(m.countries@),
                None => None,
            },
            last_check: match self.mirrors {
                Some(m) => m.last_check,
                None => 0i64,
            },
            input: self.input@,
            input_cursor: self.input_cursor_position as int,
            show_input: self.show_input,
            sort: self.active_sort@,
            filters: self.active_filter@,
            cursor: self.scroll_pos as int,
            filtered: self.filtered_countries@,
            selected: self.selected_mirrors@,
            height: self.table_viewport_height as int,
        }
    }

    /// The invariant that every operation keeps.
    pub open spec fn wf(&self) -> bool {
        self.model().wf()
    }

    /// The state at the start of a session: loading, in command mode, with
    /// no collection, the two web filters active and alphabetical order.
    pub fn new() -> (app: App)
        ensures
            app.wf(),
            app.model() == (Model {
                show_popup: true,
                actions: crate::action::loading_actions(),
                items: None,
                last_check: 0i64,
                input: Seq::empty(),
                input_cursor: 0,
                show_input: false,
                sort: seq![ViewSort::Alphabetical],
                filters: seq![Filter::Https, Filter::Http],
                cursor: 0,
                filtered: Seq::empty(),
                selected: Seq::empty(),
                height: 0,
            }),
    {
        let mut active_sort: Vec<ViewSort> = Vec::new();
        active_sort.push(ViewSort::Alphabetical);
        let mut active_filter: Vec<Filter> = Vec::new();
        active_filter.push(Filter::Https);
        active_filter.push(Filter::Http);
        let app = App {
            actions: Actions::loading(),
            show_popup: true,
            show_input: false,
            mirrors: None,
            input: Vec::new(),
            input_cursor_position: 0,
            active_sort,
            active_filter,
            scroll_pos: 0,
            table_viewport_height: 0,
            selected_mirrors: Vec::new(),
            filtered_countries: Vec::new(),
        };
        assert(app.active_sort@ =~= seq![ViewSort::Alphabetical]);
        assert(app.active_filter@ =~= seq![Filter::Https, Filter::Http]);
        assert(app.filtered_countries@ =~= Seq::empty());
        app
    }

    /// Rebuilds the list on screen and puts the cursor on its first row.
    fn refresh(&mut self)
        ensures
            final(self).model() == old(self).model().refreshed(),
            old(self).model().settled() ==> final(self).wf(),
    {
        let order: ViewSort = if self.active_sort.len() > 0 {
            self.active_sort[self.active_sort.len() - 1]
        } else {
            ViewSort::Alphabetical
        };
        let view: Vec<(usize, usize)> = match &self.mirrors {
            Some(m) => derive_view(&m.countries, m.last_check, &self.active_filter, order),
            None => Vec::new(),
        };
        self.filtered_countries = view;
        self.scroll_pos = 0;
    }

    /// Replaces the collection; the list on screen is rebuilt and the
    /// cursor put on its first row.
    pub fn set_items(&mut self, collection: ArchLinux)
        requires
            old(self).wf(),
        ensures
            final(self).wf(),
            final(self).model() == old(self).model().set_items(collection.countries@, collection.last_check),
    {
        self.mirrors = Some(collection);
        self.refresh();
    }

    /// Records the height of the table on screen, in rows.
    pub fn set_viewport_height(&mut self, height: u16)
        requires
            old(self).wf(),
        ensures
            final(self).wf(),
            final(self).model() == (Model { height: height as int, ..old(self).model() }),
    {
        self.table_viewport_height = height;
    }

    /// Handles one key: in text entry it edits the text, in command mode it
    /// runs the action that the key is bound to. Tells whether the session
    /// goes on.
    pub fn dispatch_action(&mut self, key: Key) -> (r: AppReturn)
        requires
            old(self).wf(),
        ensures
            final(self).wf(),
            final(self).model() == old(self).model().step(key),
            r == old(self).model().outcome(key),
    {
        let found: Option<Action> = self.actions.find(key);
        if self.show_input {
            match found {
                Some(action) => match key {
                    Key::Char(c) => {
                        match action {
                            Action::Quit
                            | Action::NavigateUp
                            | Action::NavigateDown
                            | Action::ViewSortAlphabetically
                            | Action::ViewSortMirrorCount => {
                                self.insert_character(c);
                            },
                            _ => {},
                        }
                    },
                    Key::Esc => {
                        self.show_input = false;
                    },
                    _ => {},
                },
                None => match key {
                    Key::Char(c) => {
                        self.insert_character(c);
                    },
                    Key::Backspace => {
                        if self.input_cursor_position > 0 {
                            self.input.remove(self.input_cursor_position - 1);
                            self.input_cursor_position -= 1;
                        }
                    },
                    Key::Delete => {
                        if self.input_cursor_position < self.input.len() {
                            self.input.remove(self.input_cursor_position);
                        }
                    },
                    Key::Left => {
                        if self.input_cursor_position > 0 {
                            self.input_cursor_position -= 1;
                        }
                    },
                    Key::Right => {
                        if self.input_cursor_position < self.input.len() {
                            self.input_cursor_position += 1;
                        } else {
                            self.input_cursor_position = self.input.len();
                        }
                    },
                    Key::Home => {
                        self.input_cursor_position = 0;
                    },
                    Key::End => {
                        self.input_cursor_position = self.input.len();
                    },
                    Key::Esc => {
                        self.show_input = false;
                    },
                    _ => {},
                },
            }
            AppReturn::Continue
        } else if key.is_exit() {
            AppReturn::Exit
        } else {
            match found {
                Some(action) => match action {
                    Action::ClosePopUp => {
                        self.show_popup = !self.show_popup;
                    },
                    Action::Quit => {},
                    Action::ShowInput => {
                        self.show_input = !self.show_input;
                    },
                    Action::NavigateUp => {
                        self.previous();
                    },
                    Action::NavigateDown => {
                        self.next();
                    },
                    Action::FilterHttps => {
                        self.insert_filter(Filter::Https);
                    },
                    Action::FilterHttp => {
                        self.insert_filter(Filter::Http);
                    },
                    Action::FilterRsync => {
                        self.insert_filter(Filter::Rsync);
                    },
                    Action::FilterSyncing => {
                        self.insert_filter(Filter::InSync);
                    },
                    Action::ViewSortAlphabetically => {
                        self.insert_sort(ViewSort::Alphabetical);
                    },
                    Action::ViewSortMirrorCount => {
                        self.insert_sort(ViewSort::MirrorCount);
                    },
                    Action::ToggleSelect => {
                        self.focused_country();
                    },
                },
                None => {},
            }
            AppReturn::Continue
        }
    }

    /// Records how the hand-over of a background request went: the popup
    /// stays up while the request is under way, and goes where the request
    /// could not be handed over.
    pub fn dispatch(&mut self, delivered: bool)
        ensures
            final(self).model() == (Model { show_popup: delivered, ..old(self).model() }),
            old(self).wf() ==> final(self).wf(),
    {
        self.show_popup = delivered;
    }

    /// The idle tick: nothing changes and the session goes on.
    pub fn update_on_tick(&mut self) -> (r: AppReturn)
        ensures
            r == AppReturn::Continue,
            *final(self) == *old(self),
    {
        AppReturn::Continue
    }

    /// Enters the ready phase: the full action set is enabled and the popup
    /// goes.
    pub fn ready(&mut self)
        ensures
            final(self).model() == (Model {
                actions: crate::action::ready_actions(),
                show_popup: false,
                ..old(self).model()
            }),
            old(self).wf() ==> final(self).wf(),
    {
        self.actions = Actions::full();
        self.show_popup = false;
    }

    /// Moves the cursor one row down; from the last row it goes to the
    /// first. Nothing changes where the list is empty.
    pub fn next(&mut self)
        requires
            old(self).wf(),
        ensures
            final(self).wf(),
            final(self).model() == old(self).model().next(),
    {
        let n: usize = self.filtered_countries.len();
        if n == 0 {
        } else if self.scroll_pos + 1 == n {
            assert((n as int) % (n as int) == 0) by (nonlinear_arith)
                requires
                    n > 0,
            ;
            self.scroll_pos = 0;
        } else {
            assert((self.scroll_pos + 1) % (n as int) == self.scroll_pos + 1) by {
                vstd::arithmetic::div_mod::lemma_small_mod((self.scroll_pos + 1) as nat, n as nat);
            }
            self.scroll_pos += 1;
        }
    }

    /// Moves the cursor one row up; from the first row it goes to the last.
    /// Nothing changes where the list is empty.
    pub fn previous(&mut self)
        requires
            old(self).wf(),
        ensures
            final(self).wf(),
            final(self).model() == old(self).model().previous(),
    {
        let n: usize = self.filtered_countries.len();
        if n == 0 {
        } else if self.scroll_pos == 0 {
            assert((0 - 1 + n) % (n as int) == n - 1) by {
                vstd::arithmetic::div_mod::lemma_small_mod((n - 1) as nat, n as nat);
            }
            self.scroll_pos = n - 1;
        } else {
            assert((self.scroll_pos - 1 + n) % (n as int) == self.scroll_pos - 1) by {
                vstd::arithmetic::div_mod::lemma_mod_add_multiples_vanish(self.scroll_pos - 1, n as int);
                vstd::arithmetic::div_mod::lemma_small_mod((self.scroll_pos - 1) as nat, n as nat);
            }
            self.scroll_pos -= 1;
        }
    }

    /// Cuts `iter` into pages of the table's height; the last page may be
    /// shorter.
    pub fn view_fragments<'a, T>(&'a self, iter: &'a [T]) -> (pages: Vec<&'a [T]>)
        requires
            self.table_viewport_height > 0,
        ensures
            pages@.len() == page_count(iter@.len() as int, self.table_viewport_height as int),
            forall|i: int|
                0 <= i < pages@.len() ==> (#[trigger] pages@[i])@ == iter@.subrange(
                    i * self.table_viewport_height,
                    page_end(iter@.len() as int, self.table_viewport_height as int, i),
                ),
    {
        let h: usize = self.table_viewport_height as usize;
        let n: usize = iter.len();
        let mut pages: Vec<&'a [T]> = Vec::new();
        let mut start: usize = 0;
        assert(0 == 0 * h) by (nonlinear_arith);
        while start < n
            invariant
                h == self.table_viewport_height,
                h > 0,
                n == iter@.len(),
                start <= n,
                start == pages@.len() * h,
                forall|i: int|
                    0 <= i < pages@.len() ==> (#[trigger] pages@[i])@ == iter@.subrange(
                        i * h,
                        page_end(n as int, h as int, i),
                    ),
            decreases n - start,
        {
            let end: usize = if n - start >= h { start + h } else { n };
            let ghost k = pages@.len() as int;
            assert((k + 1) * h == start + h) by (nonlinear_arith)
                requires
                    start == k * h,
            ;
            pages.push(vstd::slice::slice_subrange(iter, start, end));
            if end == n && n - start < h {
                proof {
                    assert((k + 1 - 1) * h == start) by (nonlinear_arith)
                        requires
                            start == k * h,
                    ;
                    lemma_page_count(n as int, h as int, k + 1);
                }
                return pages;
            }
            start = end;
        }
        proof {
            let k = pages@.len() as int;
            if k > 0 {
                assert((k - 1) * h == n - h) by (nonlinear_arith)
                    requires
                        n == k * h,
                ;
            }
            lemma_page_count(n as int, h as int, k);
        }
        pages
    }

    /// The element of `fragment` that belongs to the page under the cursor.
    pub fn view<T: Copy>(&self, fragment: &[T]) -> (r: T)
        requires
            page_index(self.scroll_pos as int, self.table_viewport_height as int) < fragment@.len(),
        ensures
            r == fragment@[page_index(self.scroll_pos as int, self.table_viewport_height as int)],
    {
        fragment[self.fragment_number()]
    }

    /// The page under the cursor; page 0 while no height is known.
    pub fn fragment_number(&self) -> (page: usize)
        ensures
            page == page_index(self.scroll_pos as int, self.table_viewport_height as int),
    {
        if self.table_viewport_height == 0 {
            0
        } else {
            self.scroll_pos / (self.table_viewport_height as usize)
        }
    }

    /// The row of the cursor within its page.
    pub fn in_page_offset(&self) -> (row: usize)
        ensures
            row == page_offset(self.scroll_pos as int, self.table_viewport_height as int),
    {
        if self.table_viewport_height == 0 {
            self.scroll_pos
        } else {
            let h: usize = self.table_viewport_height as usize;
            assert(self.scroll_pos - (self.scroll_pos / h) * h == self.scroll_pos % h) by {
                vstd::arithmetic::div_mod::lemma_fundamental_div_mod(self.scroll_pos as int, h as int);
                assert((self.scroll_pos as int / h as int) * h == h * (self.scroll_pos as int / h as int)) by (nonlinear_arith);
            }
            self.scroll_pos % h
        }
    }

    /// The entry of the list on screen under the cursor, found by its page
    /// and its row in the page; none where the list is empty.
    pub fn item_at(&self) -> (r: Option<(usize, usize)>)
        requires
            self.wf(),
        ensures
            r == (if self.filtered_countries@.len() > 0 {
                Some(self.filtered_countries@[self.scroll_pos as int])
            } else {
                None
            }),
    {
        if self.filtered_countries.len() == 0 {
            return None;
        }
        let page: usize = self.fragment_number();
        let row: usize = self.in_page_offset();
        let h: usize = self.table_viewport_height as usize;
        assert(page * h + row == self.scroll_pos) by (nonlinear_arith)
            requires
                row == self.scroll_pos - page * h,
        ;
        assert(page * h <= self.scroll_pos) by (nonlinear_arith)
            requires
                row == self.scroll_pos - page * h,
                row >= 0,
        ;
        Some(self.filtered_countries[page * h + row])
    }

    /// Toggles the country under the cursor in the selection: where the
    /// selection holds mirrors of it, all of them leave; else all its
    /// mirrors are added. Nothing changes where no country is under the
    /// cursor.
    pub fn focused_country(&mut self)
        requires
            old(self).wf(),
        ensures
            final(self).wf(),
            final(self).model() == old(self).model().toggle_select(),
    {
        let at: Option<(usize, usize)> = self.item_at();
        match at {
            Some(entry) => {
                match &self.mirrors {
                    Some(items) => {
                        assert(entry == self.filtered_countries@[self.scroll_pos as int]);
                        toggle_country(&mut self.selected_mirrors, &items.countries[entry.0]);
                    },
                    None => {},
                }
            },
            None => {},
        }
    }

    /// The column of the text cursor on screen: the width of the text
    /// before it.
    pub fn input_cursor_column(&self) -> (column: usize)
        requires
            self.wf(),
        ensures
            column == display_width(self.input@.subrange(0, self.input_cursor_position as int)),
    {
        prefix_width(&self.input, self.input_cursor_position)
    }

    /// Types a character at the text cursor and puts the list cursor on the
    /// first row.
    fn insert_character(&mut self, key: char)
        requires
            old(self).wf(),
        ensures
            final(self).wf(),
            final(self).model() == old(self).model().typed(key),
    {
        self.input.insert(self.input_cursor_position, key);
        // the text has grown, so the cursor is now below its length
        if self.input_cursor_position < self.input.len() {
            self.input_cursor_position += 1;
        }
        self.scroll_pos = 0;
    }

    /// Toggles a filter, rebuilds the list and resets the cursor.
    fn insert_filter(&mut self, filter: Filter)
        requires
            old(self).wf(),
        ensures
            final(self).wf(),
            final(self).model() == old(self).model().toggle_filter(filter),
    {
        let mut idx: usize = 0;
        let n: usize = self.active_filter.len();
        assert(self.active_filter@.subrange(0, n as int) =~= self.active_filter@);
        while idx < n && self.active_filter[idx] != filter
            invariant
                idx <= n,
                n == self.active_filter@.len(),
                position(self.active_filter@, filter) == idx + position(self.active_filter@.subrange(idx as int, n as int), filter),
            decreases n - idx,
        {
            assert(self.active_filter@.subrange(idx as int, n as int).drop_first() =~= self.active_filter@.subrange(idx + 1, n as int));
            idx += 1;
        }
        proof {
            crate::laws::lemma_position(self.active_filter@, filter);
            crate::laws::lemma_flipped(self.active_filter@, filter);
        }
        if idx < n {
            self.active_filter.remove(idx);
        } else {
            self.active_filter.push(filter);
        }
        self.refresh();
    }

    /// Replaces the order in force, rebuilds the list and resets the
    /// cursor.
    fn insert_sort(&mut self, view: ViewSort)
        requires
            old(self).wf(),
        ensures
            final(self).wf(),
            final(self).model() == old(self).model().set_sort(view),
    {
        self.active_sort.clear();
        self.active_sort.push(view);
        assert(self.active_sort@ =~= seq![view]);
        self.refresh();
    }
}

/// The pages built so far end the list exactly where their number is the
/// number of pages that the list takes.
proof fn lemma_page_count(n: int, h: int, k: int)
    requires
        h > 0,
        n >= 0,
        k >= 0,
        (k - 1) * h < n <= k * h || (n == 0 && k == 0),
    ensures
        page_count(n, h) == k,
{
    if n == 0 && k == 0 {
        assert((0 + h - 1) / h == 0) by (nonlinear_arith)
            requires
                h > 0,
        ;
    } else {
        assert((n + h - 1) / h == k) by (nonlinear_arith)
            requires
                h > 0,
                (k - 1) * h < n <= k * h,
        ;
    }
}

} // verus!
