//! Keymaps: which action each key stands for.

use vstd::prelude::*;
use crate::action::Action;
use crate::clip::ClipType;
use crate::key::Key;

verus! {

/// The map that a list of bindings stands for; of two bindings of one key the later
/// counts.
pub open spec fn map_of(bindings: Seq<(Key, Action)>) -> Map<Key, Action>
    decreases bindings.len(),
{
    if bindings.len() == 0 {
        Map::empty()
    } else {
        map_of(bindings.drop_last()).insert(bindings.last().0, bindings.last().1)
    }
}

/// Whether no key is bound twice in `bindings`.
pub open spec fn distinct_keys(bindings: Seq<(Key, Action)>) -> bool {
    forall|i: int, j: int| 0 <= i < j < bindings.len() ==> bindings[i].0 != bindings[j].0
}

/// A list that binds no key twice stands for the map of exactly its bindings.
pub proof fn lemma_map_of(bindings: Seq<(Key, Action)>)
    requires
        distinct_keys(bindings),
    ensures
        forall|k: Key|
            map_of(bindings).contains_key(k) <==> exists|i: int|
                0 <= i < bindings.len() && bindings[i].0 == k,
        forall|i: int|
            0 <= i < bindings.len() ==> map_of(bindings).contains_key(bindings[i].0) && map_of(
                bindings,
            )[bindings[i].0] == bindings[i].1,
        map_of(bindings).dom().finite(),
        map_of(bindings).len() == bindings.len(),
    decreases bindings.len(),
{
    if bindings.len() > 0 {
        let head = bindings.drop_last();
        let last = bindings.last();
        assert(forall|i: int| 0 <= i < head.len() ==> head[i] == bindings[i]);
        lemma_map_of(head);
        assert(!map_of(head).contains_key(last.0)) by {
            if map_of(head).contains_key(last.0) {
                let i = choose|i: int| 0 <= i < head.len() && head[i].0 == last.0;
                assert(bindings[i].0 != bindings[bindings.len() - 1].0);
            }
        }
        assert forall|k: Key|
            map_of(bindings).contains_key(k) <==> exists|i: int|
                0 <= i < bindings.len() && bindings[i].0 == k by {
            if map_of(bindings).contains_key(k) {
                if k == last.0 {
                    assert(bindings[bindings.len() - 1].0 == k);
                } else {
                    let i = choose|i: int| 0 <= i < head.len() && head[i].0 == k;
                    assert(bindings[i].0 == k);
                }
            }
            if exists|i: int| 0 <= i < bindings.len() && bindings[i].0 == k {
                let i = choose|i: int| 0 <= i < bindings.len() && bindings[i].0 == k;
                if i < head.len() {
                    assert(head[i].0 == k);
                }
            }
        }
        assert forall|i: int| 0 <= i < bindings.len() implies map_of(bindings).contains_key(
            bindings[i].0,
        ) && map_of(bindings)[bindings[i].0] == bindings[i].1 by {
            if i < head.len() {
                assert(head[i] == bindings[i]);
                assert(bindings[i].0 != bindings[bindings.len() - 1].0);
            }
        }
        assert(map_of(bindings).dom() =~= map_of(head).dom().insert(last.0));
    } else {
        assert(map_of(bindings).dom() =~= Set::<Key>::empty());
    }
}

/// To bind a key anew at its place in the list is to bind it anew in the map.
pub proof fn lemma_map_of_update(bindings: Seq<(Key, Action)>, i: int, action: Action)
    requires
        distinct_keys(bindings),
        0 <= i < bindings.len(),
    ensures
        map_of(bindings.update(i, (bindings[i].0, action))) == map_of(bindings).insert(
            bindings[i].0,
            action,
        ),
        distinct_keys(bindings.update(i, (bindings[i].0, action))),
    decreases bindings.len(),
{
    let key = bindings[i].0;
    let changed = bindings.update(i, (key, action));
    let head = bindings.drop_last();
    if i == bindings.len() - 1 {
        assert(changed.drop_last() =~= head);
        assert(map_of(changed) =~= map_of(bindings).insert(key, action));
    } else {
        assert(forall|j: int| 0 <= j < head.len() ==> head[j] == bindings[j]);
        lemma_map_of_update(head, i, action);
        assert(changed.drop_last() =~= head.update(i, (key, action)));
        assert(changed.last() == bindings.last());
        assert(bindings[i].0 != bindings[bindings.len() - 1].0);
        assert(map_of(changed) =~= map_of(bindings).insert(key, action));
    }
}

/// Which action each key stands for.
#[derive(Debug, Clone, PartialEq, Eq)]
pub struct KeyMap {
    bindings: Vec<(Key, Action)>,
}

impl View for KeyMap {
    type V = Map<Key, Action>;

    closed spec fn view(&self) -> Map<Key, Action> {
        map_of(self.bindings@)
    }
}

impl KeyMap {
    /// The invariant of the type: no key is bound twice.
    pub closed spec fn wf(&self) -> bool {
        distinct_keys(self.bindings@)
    }

    /// A map that binds no key.
    pub fn new() -> (r: KeyMap)
        ensures
            r.wf(),
            r@ == Map::<Key, Action>::empty(),
    {
        KeyMap { bindings: Vec::new() }
    }

    /// The place of `key` in the list of bindings, if it is bound.
    fn position(&self, key: Key) -> (r: Option<usize>)
        requires
            self.wf(),
        ensures
            match r {
                Some(i) => i < self.bindings@.len() && self.bindings@[i as int].0 == key,
                None => forall|i: int| 0 <= i < self.bindings@.len() ==> self.bindings@[i].0 != key,
            },
    {
        let mut i: usize = 0;
        while i < self.bindings.len()
            invariant
                i <= self.bindings@.len(),
                forall|j: int| 0 <= j < i ==> self.bindings@[j].0 != key,
            decreases self.bindings@.len() - i,
        {
            if self.bindings[i].0 == key {
                return Some(i);
            }
            i += 1;
        }
        None
    }

    /// Binds `key` to `action`, in place of what it was bound to.
    pub fn insert(&mut self, key: Key, action: Action)
        requires
            old(self).wf(),
        ensures
            final(self).wf(),
            final(self)@ == old(self)@.insert(key, action),
    {
        match self.position(key) {
            Some(i) => {
                proof {
                    lemma_map_of_update(self.bindings@, i as int, action);
                }
                self.bindings.set(i, (key, action));
            },
            None => {
                self.bindings.push((key, action));
                assert(self.bindings@.drop_last() =~= old(self).bindings@);
            },
        }
    }

    /// The action that `key` is bound to, if it is bound.
    pub fn get(&self, key: Key) -> (r: Option<Action>)
        requires
            self.wf(),
        ensures
            r == if self@.contains_key(key) {
                Some(self@[key])
            } else {
                None
            },
    {
        proof {
            lemma_map_of(self.bindings@);
        }
        match self.position(key) {
            Some(i) => Some(self.bindings[i].1),
            None => None,
        }
    }

    /// The number of keys that are bound.
    pub fn len(&self) -> (n: usize)
        requires
            self.wf(),
        ensures
            n == self@.len(),
    {
        proof {
            lemma_map_of(self.bindings@);
        }
        self.bindings.len()
    }

    /// The bindings, each key once.
    pub fn bindings(&self) -> (r: Vec<(Key, Action)>)
        requires
            self.wf(),
        ensures
            distinct_keys(r@),
            map_of(r@) == self@,
    {
        let mut r: Vec<(Key, Action)> = Vec::new();
        let mut i: usize = 0;
        while i < self.bindings.len()
            invariant
                i <= self.bindings@.len(),
                r@ == self.bindings@.take(i as int),
            decreases self.bindings@.len() - i,
        {
            r.push(self.bindings[i]);
            assert(r@ =~= self.bindings@.take(i + 1));
            i += 1;
        }
        assert(r@ =~= self.bindings@);
        r
    }
}

/// The bindings of the keyboard where no configuration is found.
pub open spec fn default_bindings() -> Seq<(Key, Action)> {
    seq![
        (Key::Space, Action::TogglePlayPause),
        (Key::LeftArrow, Action::Rewind(700)),
        (Key::RightArrow, Action::Forward(700)),
        (Key::UpArrow, Action::IncreaseSpeed),
        (Key::DownArrow, Action::DecreaseSpeed),
        (Key::T, Action::StartLoop),
        (Key::Z, Action::EndLoop),
        (Key::B, Action::BreakLoop),
        (Key::O, Action::CutCurrentLoop(Some(ClipType::Offense))),
        (Key::D, Action::CutCurrentLoop(Some(ClipType::Defense))),
        (Key::C, Action::CutCurrentLoop(None)),
        (Key::I, Action::NextMedia),
        (Key::K, Action::PreviousMedia),
        (Key::M, Action::RestartMedia),
        (Key::W, Action::NextClip),
        (Key::S, Action::PreviousClip),
        (Key::Y, Action::RestartClip),
        (Key::U, Action::ConcatClips),
        (Key::Esc, Action::Exit),
    ]
}

/// The bindings of the keys that are pressed in the window.
pub open spec fn window_bindings() -> Seq<(Key, Action)> {
    seq![
        (Key::Space, Action::TogglePlayPause),
        (Key::LeftArrow, Action::Rewind(700)),
        (Key::RightArrow, Action::Forward(700)),
        (Key::UpArrow, Action::IncreaseSpeed),
        (Key::DownArrow, Action::TogglePlayPause),
        (Key::T, Action::StartLoop),
        (Key::Z, Action::EndLoop),
        (Key::B, Action::BreakLoop),
        (Key::O, Action::CutCurrentLoop(Some(ClipType::Offense))),
        (Key::D, Action::CutCurrentLoop(Some(ClipType::Defense))),
        (Key::C, Action::CutCurrentLoop(None)),
        (Key::I, Action::NextMedia),
        (Key::K, Action::PreviousMedia),
        (Key::M, Action::RestartMedia),
        (Key::W, Action::NextClip),
        (Key::S, Action::PreviousClip),
        (Key::Y, Action::RestartClip),
        (Key::U, Action::ConcatClips),
        (Key::Number1, Action::PreviousCutmark),
        (Key::Number2, Action::NextCutmark),
        (Key::Esc, Action::Exit),
    ]
}

/// The map of the bindings in `bindings`, the later of two bindings of one key
/// counting.
pub fn key_map_of(bindings: &Vec<(Key, Action)>) -> (r: KeyMap)
    ensures
        r.wf(),
        r@ == map_of(bindings@),
{
    let mut map = KeyMap::new();
    let mut i: usize = 0;
    assert(bindings@.take(0) =~= Seq::<(Key, Action)>::empty());
    while i < bindings.len()
        invariant
            i <= bindings@.len(),
            map.wf(),
            map@ == map_of(bindings@.take(i as int)),
        decreases bindings@.len() - i,
    {
        assert(bindings@.take(i + 1).drop_last() =~= bindings@.take(i as int));
        map.insert(bindings[i].0, bindings[i].1);
        i += 1;
    }
    assert(bindings@.take(i as int) =~= bindings@);
    map
}

/// The map of the keyboard where no configuration is found.
pub fn default_keymap() -> (r: KeyMap)
    ensures
        r.wf(),
        r@ == map_of(default_bindings()),
{
    let bindings = vec![
        (Key::Space, Action::TogglePlayPause),
        (Key::LeftArrow, Action::Rewind(700)),
        (Key::RightArrow, Action::Forward(700)),
        (Key::UpArrow, Action::IncreaseSpeed),
        (Key::DownArrow, Action::DecreaseSpeed),
        (Key::T, Action::StartLoop),
        (Key::Z, Action::EndLoop),
        (Key::B, Action::BreakLoop),
        (Key::O, Action::CutCurrentLoop(Some(ClipType::Offense))),
        (Key::D, Action::CutCurrentLoop(Some(ClipType::Defense))),
        (Key::C, Action::CutCurrentLoop(None)),
        (Key::I, Action::NextMedia),
        (Key::K, Action::PreviousMedia),
        (Key::M, Action::RestartMedia),
        (Key::W, Action::NextClip),
        (Key::S, Action::PreviousClip),
        (Key::Y, Action::RestartClip),
        (Key::U, Action::ConcatClips),
        (Key::Esc, Action::Exit),
    ];
    assert(bindings@ =~= default_bindings());
    key_map_of(&bindings)
}

/// The map of the keys that are pressed in the window.
pub fn window_keymap() -> (r: KeyMap)
    ensures
        r.wf(),
        r@ == map_of(window_bindings()),
{
    let bindings = vec![
        (Key::Space, Action::TogglePlayPause),
        (Key::LeftArrow, Action::Rewind(700)),
        (Key::RightArrow, Action::Forward(700)),
        (Key::UpArrow, Action::IncreaseSpeed),
        (Key::DownArrow, Action::TogglePlayPause),
        (Key::T, Action::StartLoop),
        (Key::Z, Action::EndLoop),
        (Key::B, Action::BreakLoop),
        (Key::O, Action::CutCurrentLoop(Some(ClipType::Offense))),
        (Key::D, Action::CutCurrentLoop(Some(ClipType::Defense))),
        (Key::C, Action::CutCurrentLoop(None)),
        (Key::I, Action::NextMedia),
        (Key::K, Action::PreviousMedia),
        (Key::M, Action::RestartMedia),
        (Key::W, Action::NextClip),
        (Key::S, Action::PreviousClip),
        (Key::Y, Action::RestartClip),
        (Key::U, Action::ConcatClips),
        (Key::Number1, Action::PreviousCutmark),
        (Key::Number2, Action::NextCutmark),
        (Key::Esc, Action::Exit),
    ];
    assert(bindings@ =~= window_bindings());
    key_map_of(&bindings)
}

/// The action of a key that is pressed in the window, if it has one.
pub fn action_from_pressed_key(key: Key) -> (r: Option<Action>)
    ensures
        r == if map_of(window_bindings()).contains_key(key) {
            Some(map_of(window_bindings())[key])
        } else {
            None
        },
{
    let keymap = window_keymap();
    keymap.get(key)
}

/// The actions of the keys of `keys` that are bound in `map`, in the order of the
/// keys.
pub open spec fn actions_of(map: Map<Key, Action>, keys: Seq<Key>) -> Seq<Action>
    decreases keys.len(),
{
    if keys.len() == 0 {
        Seq::<Action>::empty()
    } else if map.contains_key(keys.last()) {
        actions_of(map, keys.drop_last()).push(map[keys.last()])
    } else {
        actions_of(map, keys.drop_last())
    }
}

/// Turns the keys that came up, in their order, into the actions that they are bound
/// to; a key that is not bound gives none.
pub fn read_keyboard(keymap: &KeyMap, keys: &Vec<Key>) -> (actions: Vec<Action>)
    requires
        keymap.wf(),
    ensures
        actions@ == actions_of(keymap@, keys@),
{
    let mut actions: Vec<Action> = Vec::new();
    let mut i: usize = 0;
    assert(keys@.take(0) =~= Seq::<Key>::empty());
    while i < keys.len()
        invariant
            i <= keys@.len(),
            keymap.wf(),
            actions@ == actions_of(keymap@, keys@.take(i as int)),
        decreases keys@.len() - i,
    {
        assert(keys@.take(i + 1).drop_last() =~= keys@.take(i as int));
        match keymap.get(keys[i]) {
            Some(action) => actions.push(action),
            None => {},
        }
        i += 1;
    }
    assert(keys@.take(i as int) =~= keys@);
    actions
}

} // verus!
