//! The dashboard's state as a mathematical value, and its transitions as
//! functions on that value.

use vstd::prelude::*;
use crate::action::{resolved, Action};
use crate::dispatch::{Filter, ViewSort};
use crate::key::Key;
use crate::listing::listed;
use crate::mirrors::Country;
use crate::selection::{toggled, SelectedMirror};

verus! {

/// What a key press asks of the event loop.
#[derive(Clone, Copy, Debug, PartialEq, Eq, Structural)]
pub enum AppReturn {
    Exit,
    Continue,
}

/// The page that holds position `cursor` of a list shown `height` rows at a
/// time; page 0 where no height is known yet.
pub open spec fn page_index(cursor: int, height: int) -> int {
    if height <= 0 {
        0
    } else {
        cursor / height
    }
}

/// The row of position `cursor` within its page.
pub open spec fn page_offset(cursor: int, height: int) -> int {
    cursor - page_index(cursor, height) * height
}

/// The number of pages that a list of `len` entries takes.
pub open spec fn page_count(len: int, height: int) -> int
    recommends
        height > 0,
{
    (len + height - 1) / height
}

/// The first index behind page `page`, in a list of `len` entries.
pub open spec fn page_end(len: int, height: int, page: int) -> int {
    if (page + 1) * height <= len {
        (page + 1) * height
    } else {
        len
    }
}

/// The index of the first occurrence of `filter` in `filters`, or their
/// number where it does not occur.
pub open spec fn position(filters: Seq<Filter>, filter: Filter) -> int
    decreases filters.len(),
{
    if filters.len() == 0 {
        0
    } else if filters[0] == filter {
        0
    } else {
        1 + position(filters.drop_first(), filter)
    }
}

/// Whether no filter occurs twice.
pub open spec fn distinct(filters: Seq<Filter>) -> bool {
    forall|i: int, j: int| 0 <= i < j < filters.len() ==> filters[i] != filters[j]
}

/// The length of page `page` of a list of `len` entries.
pub open spec fn page_len(len: int, height: int, page: int) -> int {
    page_end(len, height, page) - page * height
}

/// The lengths of the first `pages` pages together.
pub open spec fn pages_total(len: int, height: int, pages: int) -> int
    decreases pages,
{
    if pages <= 0 {
        0
    } else {
        pages_total(len, height, pages - 1) + page_len(len, height, pages - 1)
    }
}

/// The filters after `filter` is toggled: its first occurrence leaves, or,
/// where it does not occur, it is added at the end.
pub open spec fn flipped(filters: Seq<Filter>, filter: Filter) -> Seq<Filter> {
    let at = position(filters, filter);
    if at < filters.len() {
        filters.remove(at)
    } else {
        filters.push(filter)
    }
}

/// The state of the dashboard.
pub struct Model {
    pub show_popup: bool,
    pub actions: Seq<Action>,
    pub items: Option<Seq<Country>>,
    pub last_check: i64,
    pub input: Seq<char>,
    pub input_cursor: int,
    pub show_input: bool,
    pub sort: Seq<ViewSort>,
    pub filters: Seq<Filter>,
    pub cursor: int,
    pub filtered: Seq<(usize, usize)>,
    pub selected: Seq<SelectedMirror>,
    pub height: int,
}

impl Model {
    /// The order in force: the one chosen last, alphabetical where none is.
    pub open spec fn order(self) -> ViewSort {
        if self.sort.len() > 0 {
            self.sort.last()
        } else {
            ViewSort::Alphabetical
        }
    }

    /// The list on screen that the collection, filters and order call for.
    pub open spec fn derived(self) -> Seq<(usize, usize)> {
        match self.items {
            Some(items) => listed(items, self.last_check, self.filters, self.order()),
            None => Seq::empty(),
        }
    }

    /// The number of countries in the collection.
    pub open spec fn item_count(self) -> int {
        match self.items {
            Some(items) => items.len() as int,
            None => 0,
        }
    }

    /// What holds of the settings and the text: no filter is active
    /// twice, one order is in force, and the text cursor is inside the text
    /// or at its end.
    pub open spec fn settled(self) -> bool {
        &&& distinct(self.filters)
        &&& self.sort.len() == 1
        &&& 0 <= self.input_cursor <= self.input.len()
    }

    /// The invariant of every reachable state: the settings are settled,
    /// the list on screen is the derived one, and the cursor is inside it
    /// (0 where it is empty).
    pub open spec fn wf(self) -> bool {
        &&& self.settled()
        &&& self.filtered == self.derived()
        &&& forall|p: int| 0 <= p < self.filtered.len() ==> (#[trigger] self.filtered[p]).0 < self.item_count()
        &&& 0 <= self.cursor
        &&& self.filtered.len() > 0 ==> self.cursor < self.filtered.len()
        &&& self.filtered.len() == 0 ==> self.cursor == 0
    }

    /// The state with the list on screen rebuilt and the cursor on its
    /// first row.
    pub open spec fn refreshed(self) -> Model {
        Model { filtered: self.derived(), cursor: 0, ..self }
    }

    /// The cursor moves one row down and wraps to the first row.
    pub open spec fn next(self) -> Model {
        if self.filtered.len() == 0 {
            self
        } else {
            Model { cursor: (self.cursor + 1) % (self.filtered.len() as int), ..self }
        }
    }

    /// The cursor moves one row up and wraps to the last row.
    pub open spec fn previous(self) -> Model {
        if self.filtered.len() == 0 {
            self
        } else {
            Model {
                cursor: (self.cursor - 1 + self.filtered.len()) % (self.filtered.len() as int),
                ..self
            }
        }
    }

    /// A filter is toggled; the list is rebuilt and the cursor reset.
    pub open spec fn toggle_filter(self, filter: Filter) -> Model {
        Model { filters: flipped(self.filters, filter), ..self }.refreshed()
    }

    /// An order replaces the one in force; the list is rebuilt and the
    /// cursor reset.
    pub open spec fn set_sort(self, order: ViewSort) -> Model {
        Model { sort: seq![order], ..self }.refreshed()
    }

    /// A collection replaces the one held; the list is rebuilt and the
    /// cursor reset.
    pub open spec fn set_items(self, items: Seq<Country>, last_check: i64) -> Model {
        Model { items: Some(items), last_check: last_check, ..self }.refreshed()
    }

    /// The country under the cursor is toggled in the selection; nothing
    /// changes where no country is under the cursor.
    pub open spec fn toggle_select(self) -> Model {
        match self.items {
            Some(items) => if 0 <= self.cursor < self.filtered.len() {
                Model {
                    selected: toggled(self.selected, items[self.filtered[self.cursor].0 as int]),
                    ..self
                }
            } else {
                self
            },
            None => self,
        }
    }

    /// A character is typed at the text cursor; the list cursor is reset.
    pub open spec fn typed(self, c: char) -> Model {
        Model {
            input: self.input.insert(self.input_cursor, c),
            input_cursor: self.input_cursor + 1,
            cursor: 0,
            ..self
        }
    }

    /// The character before the text cursor is deleted.
    pub open spec fn backspace(self) -> Model {
        if self.input_cursor > 0 {
            Model {
                input: self.input.remove(self.input_cursor - 1),
                input_cursor: self.input_cursor - 1,
                ..self
            }
        } else {
            self
        }
    }

    /// The character at the text cursor is deleted.
    pub open spec fn delete(self) -> Model {
        if self.input_cursor < self.input.len() {
            Model { input: self.input.remove(self.input_cursor), ..self }
        } else {
            self
        }
    }

    /// The text cursor moves one character to the left.
    pub open spec fn left(self) -> Model {
        if self.input_cursor > 0 {
            Model { input_cursor: self.input_cursor - 1, ..self }
        } else {
            self
        }
    }

    /// The text cursor moves one character to the right.
    pub open spec fn right(self) -> Model {
        if self.input_cursor < self.input.len() {
            Model { input_cursor: self.input_cursor + 1, ..self }
        } else {
            Model { input_cursor: self.input.len() as int, ..self }
        }
    }

    /// Whether a key that is bound to `action` is typed as a character in
    /// text entry.
    pub open spec fn types_in_text(action: Action) -> bool {
        action == Action::Quit || action == Action::NavigateUp || action == Action::NavigateDown
            || action == Action::ViewSortAlphabetically || action == Action::ViewSortMirrorCount
    }

    /// The effect of a key in text entry.
    pub open spec fn text_step(self, key: Key) -> Model {
        match resolved(self.actions, key) {
            Some(action) => match key {
                Key::Char(c) => if Self::types_in_text(action) {
                    self.typed(c)
                } else {
                    self
                },
                Key::Esc => Model { show_input: false, ..self },
                _ => self,
            },
            None => match key {
                Key::Char(c) => self.typed(c),
                Key::Backspace => self.backspace(),
                Key::Delete => self.delete(),
                Key::Left => self.left(),
                Key::Right => self.right(),
                Key::Home => Model { input_cursor: 0, ..self },
                Key::End => Model { input_cursor: self.input.len() as int, ..self },
                Key::Esc => Model { show_input: false, ..self },
                _ => self,
            },
        }
    }

    /// The effect of an action in command mode.
    pub open spec fn act(self, action: Action) -> Model {
        match action {
            Action::ClosePopUp => Model { show_popup: !self.show_popup, ..self },
            Action::Quit => self,
            Action::ShowInput => Model { show_input: !self.show_input, ..self },
            Action::NavigateUp => self.previous(),
            Action::NavigateDown => self.next(),
            Action::FilterHttps => self.toggle_filter(Filter::Https),
            Action::FilterHttp => self.toggle_filter(Filter::Http),
            Action::FilterRsync => self.toggle_filter(Filter::Rsync),
            Action::FilterSyncing => self.toggle_filter(Filter::InSync),
            Action::ViewSortAlphabetically => self.set_sort(ViewSort::Alphabetical),
            Action::ViewSortMirrorCount => self.set_sort(ViewSort::MirrorCount),
            Action::ToggleSelect => self.toggle_select(),
        }
    }

    /// The effect of a key in command mode.
    pub open spec fn command_step(self, key: Key) -> Model {
        if key.exits() {
            self
        } else {
            match resolved(self.actions, key) {
                Some(action) => self.act(action),
                None => self,
            }
        }
    }

    /// The state after a key.
    pub open spec fn step(self, key: Key) -> Model {
        if self.show_input {
            self.text_step(key)
        } else {
            self.command_step(key)
        }
    }

    /// Whether the session goes on after a key: it ends on an exit key in
    /// command mode.
    pub open spec fn outcome(self, key: Key) -> AppReturn {
        if !self.show_input && key.exits() {
            AppReturn::Exit
        } else {
            AppReturn::Continue
        }
    }
}

} // verus!
