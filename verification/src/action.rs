//! Actions, their fixed key bindings, and the lookup of an action by key
//! among the actions that are currently enabled.

use vstd::prelude::*;
use crate::key::Key;

verus! {

/// What a key press can ask the dashboard to do.
#[derive(Clone, Copy, Debug, PartialEq, Eq, Structural)]
pub enum Action {
    ClosePopUp,
    Quit,
    ShowInput,
    NavigateUp,
    NavigateDown,
    FilterHttps,
    FilterHttp,
    FilterRsync,
    FilterSyncing,
    ViewSortAlphabetically,
    ViewSortMirrorCount,
    ToggleSelect,
}

impl Action {
    /// The one key that each action is bound to.
    pub open spec fn binding(self) -> Key {
        match self {
            Action::ClosePopUp => Key::Ctrl('p'),
            Action::Quit => Key::Char('q'),
            Action::ShowInput => Key::Esc,
            Action::NavigateUp => Key::Char('k'),
            Action::NavigateDown => Key::Char('j'),
            Action::FilterHttps => Key::Ctrl('s'),
            Action::FilterHttp => Key::Ctrl('h'),
            Action::FilterRsync => Key::Ctrl('r'),
            Action::FilterSyncing => Key::Ctrl('o'),
            Action::ViewSortAlphabetically => Key::Char('1'),
            Action::ViewSortMirrorCount => Key::Char('2'),
            Action::ToggleSelect => Key::Char(' '),
        }
    }

    /// The key that the action is bound to.
    pub fn key(&self) -> (k: Key)
        ensures
            k == self.binding(),
    {
        match *self {
            Action::ClosePopUp => Key::Ctrl('p'),
            Action::Quit => Key::Char('q'),
            Action::ShowInput => Key::Esc,
            Action::NavigateUp => Key::Char('k'),
            Action::NavigateDown => Key::Char('j'),
            Action::FilterHttps => Key::Ctrl('s'),
            Action::FilterHttp => Key::Ctrl('h'),
            Action::FilterRsync => Key::Ctrl('r'),
            Action::FilterSyncing => Key::Ctrl('o'),
            Action::ViewSortAlphabetically => Key::Char('1'),
            Action::ViewSortMirrorCount => Key::Char('2'),
            Action::ToggleSelect => Key::Char(' '),
        }
    }
}

/// The first action of `enabled` that is bound to `key`, if there is one.
pub open spec fn resolved(enabled: Seq<Action>, key: Key) -> Option<Action>
    decreases enabled.len(),
{
    if enabled.len() == 0 {
        None
    } else if enabled[0].binding() == key {
        Some(enabled[0])
    } else {
        resolved(enabled.drop_first(), key)
    }
}

/// The actions of the loading phase: only leaving is possible.
pub open spec fn loading_actions() -> Seq<Action> {
    seq![Action::Quit]
}

/// The actions of the ready phase, in the order in which they are looked up.
pub open spec fn ready_actions() -> Seq<Action> {
    seq![
        Action::ShowInput,
        Action::ClosePopUp,
        Action::Quit,
        Action::NavigateDown,
        Action::NavigateUp,
        Action::FilterHttp,
        Action::FilterHttps,
        Action::FilterRsync,
        Action::FilterSyncing,
        Action::ViewSortAlphabetically,
        Action::ViewSortMirrorCount,
        Action::ToggleSelect,
    ]
}

/// What `resolved` finds is enabled and bound to the key, and no action
/// before it is; it finds nothing only where no enabled action is bound to
/// the key.
pub proof fn lemma_resolved_is_first(enabled: Seq<Action>, key: Key)
    ensures
        match resolved(enabled, key) {
            Some(a) => exists|i: int|
                0 <= i < enabled.len() && enabled[i] == a && a.binding() == key && (forall|j: int|
                    0 <= j < i ==> (#[trigger] enabled[j]).binding() != key),
            None => forall|j: int| 0 <= j < enabled.len() ==> (#[trigger] enabled[j]).binding() != key,
        },
    decreases enabled.len(),
{
    if enabled.len() == 0 {
    } else if enabled[0].binding() == key {
        assert(enabled[0] == enabled[0] && (forall|j: int|
            0 <= j < 0 ==> (#[trigger] enabled[j]).binding() != key));
    } else {
        let rest = enabled.drop_first();
        lemma_resolved_is_first(rest, key);
        match resolved(rest, key) {
            Some(a) => {
                let i = choose|i: int|
                    0 <= i < rest.len() && rest[i] == a && a.binding() == key && (forall|j: int|
                        0 <= j < i ==> (#[trigger] rest[j]).binding() != key);
                assert forall|j: int| 0 <= j < i + 1 implies (#[trigger] enabled[j]).binding()
                    != key by {
                    if j > 0 {
                        assert(rest[j - 1] == enabled[j]);
                    }
                }
                assert(enabled[i + 1] == a);
            },
            None => {
                assert forall|j: int| 0 <= j < enabled.len() implies (#[trigger] enabled[j]).binding()
                    != key by {
                    if j > 0 {
                        assert(rest[j - 1] == enabled[j]);
                    }
                }
            },
        }
    }
}

/// No two actions share a key.
pub proof fn lemma_bindings_differ(a: Action, b: Action)
    ensures
        a.binding() == b.binding() ==> a == b,
{
}

/// In the ready phase every action is reached by its key.
pub proof fn lemma_ready_resolves(a: Action)
    ensures
        resolved(ready_actions(), a.binding()) == Some(a),
{
    let all = ready_actions();
    assert(all.len() == 12);
    lemma_resolved_is_first(all, a.binding());
    assert(all[0] == Action::ShowInput && all[1] == Action::ClosePopUp && all[2] == Action::Quit && all[3]
        == Action::NavigateDown && all[4] == Action::NavigateUp && all[5] == Action::FilterHttp && all[6]
        == Action::FilterHttps && all[7] == Action::FilterRsync && all[8] == Action::FilterSyncing
        && all[9] == Action::ViewSortAlphabetically && all[10] == Action::ViewSortMirrorCount && all[11]
        == Action::ToggleSelect);
    match resolved(all, a.binding()) {
        Some(b) => {
            lemma_bindings_differ(a, b);
        },
        None => {},
    }
}

/// The ordered set of actions that are enabled.
#[derive(Debug)]
pub struct Actions {
    pub list: Vec<Action>,
}

impl Actions {
    /// The enabled actions, in lookup order.
    pub open spec fn enabled(&self) -> Seq<Action> {
        self.list@
    }

    /// The action set of the loading phase.
    pub fn loading() -> (r: Actions)
        ensures
            r.enabled() == loading_actions(),
    {
        let mut list: Vec<Action> = Vec::new();
        list.push(Action::Quit);
        assert(list@ =~= loading_actions());
        Actions { list }
    }

    /// The action set of the ready phase.
    pub fn full() -> (r: Actions)
        ensures
            r.enabled() == ready_actions(),
    {
        let mut list: Vec<Action> = Vec::new();
        list.push(Action::ShowInput);
        list.push(Action::ClosePopUp);
        list.push(Action::Quit);
        list.push(Action::NavigateDown);
        list.push(Action::NavigateUp);
        list.push(Action::FilterHttp);
        list.push(Action::FilterHttps);
        list.push(Action::FilterRsync);
        list.push(Action::FilterSyncing);
        list.push(Action::ViewSortAlphabetically);
        list.push(Action::ViewSortMirrorCount);
        list.push(Action::ToggleSelect);
        assert(list@ =~= ready_actions());
        Actions { list }
    }

    /// The first enabled action that is bound to `key`, or none.
    pub fn find(&self, key: Key) -> (r: Option<Action>)
        ensures
            r == resolved(self.enabled(), key),
    {
        let mut i: usize = 0;
        assert(self.list@.subrange(0, self.list@.len() as int) =~= self.list@);
        while i < self.list.len()
            invariant
                i <= self.list.len(),
                resolved(self.list@, key) == resolved(self.list@.subrange(i as int, self.list@.len() as int), key),
            decreases self.list.len() - i,
        {
            let a: Action = self.list[i];
            let ghost tail = self.list@.subrange(i as int, self.list@.len() as int);
            assert(tail[0] == a);
            if a.key() == key {
                return Some(a);
            }
            assert(tail.drop_first() =~= self.list@.subrange(i + 1, self.list@.len() as int));
            i += 1;
        }
        assert(self.list@.subrange(i as int, self.list@.len() as int).len() == 0);
        None
    }
}

} // verus!
