//! The keymap configuration, a text in the TOML format that names a key for each
//! action.

use vstd::prelude::*;
use vstd::string::*;
use crate::action::{action_name, Action};
use crate::clip::ClipType;
use crate::key::{key_named, translate_key_id, unknown_key_message, Key};
use crate::keymap::{default_bindings, default_keymap, map_of, KeyMap};

verus! {

/// The tree of values that the crate `configuration` makes of a text.
#[verifier::external_type_specification]
#[verifier::external_body]
pub struct ExTree(configuration::Tree);

/// The texts that a tree gives under plain names, each by its name.
pub uninterp spec fn tree_strings(tree: configuration::Tree) -> Map<Seq<char>, Seq<char>>;

/// The texts, by their names, of the tree that `configuration::format::TOML::parse`
/// makes of `content`, or nothing where it refuses the text.
pub uninterp spec fn toml_strings(content: Seq<char>) -> Option<Map<Seq<char>, Seq<char>>>;

/// Calls `configuration::format::TOML::parse`, which reads a text in the TOML format
/// into a tree. What the contract claims: whether there is a tree, and which texts it
/// holds under which names, depends on `content` alone.
#[verifier::external_body]
fn parse_toml(content: &str) -> (r: Option<configuration::Tree>)
    ensures
        match r {
            Some(tree) => toml_strings(content@) == Some(tree_strings(tree)),
            None => toml_strings(content@) is None,
        },
{
    configuration::format::TOML::parse(content).ok()
}

/// Whether `name` is one word that begins with a letter: it holds no dot, so that it
/// is no path into the tree, and it is no number, so that it is no position in a list.
pub open spec fn is_plain_name(name: Seq<char>) -> bool {
    &&& name.len() > 0
    &&& ('A' <= name[0] && name[0] <= 'Z') || ('a' <= name[0] && name[0] <= 'z')
    &&& !name.contains('.')
}

/// Calls `configuration::Tree::get` for a text. What the contract claims: under a plain
/// name the tree gives its text of that name, and nothing where it has none.
#[verifier::external_body]
fn tree_get(tree: &configuration::Tree, name: &str) -> (r: Option<String>)
    requires
        is_plain_name(name@),
    ensures
        match r {
            Some(text) => tree_strings(*tree).contains_key(name@) && tree_strings(*tree)[name@]
                == text@,
            None => !tree_strings(*tree).contains_key(name@),
        },
{
    tree.get::<String>(name).cloned()
}

/// The actions that a keymap configuration can bind, in the order in which they are
/// looked up.
pub open spec fn configurable_actions() -> Seq<Action> {
    seq![
        Action::TogglePlayPause,
        Action::Rewind(700),
        Action::Forward(700),
        Action::IncreaseSpeed,
        Action::DecreaseSpeed,
        Action::StartLoop,
        Action::EndLoop,
        Action::BreakLoop,
        Action::CutCurrentLoop(Some(ClipType::Offense)),
        Action::CutCurrentLoop(Some(ClipType::Defense)),
        Action::CutCurrentLoop(None),
        Action::NextMedia,
        Action::PreviousMedia,
        Action::RestartMedia,
        Action::NextClip,
        Action::PreviousClip,
        Action::RestartClip,
        Action::ConcatClips,
        Action::Stop,
        Action::Exit,
    ]
}

/// The texts that a configuration holds for `actions`, in their order: each action
/// that has a text under its name, with that text.
pub open spec fn texts_found(strings: Map<Seq<char>, Seq<char>>, actions: Seq<Action>) -> Seq<
    (Action, Seq<char>),
>
    decreases actions.len(),
{
    if actions.len() == 0 {
        Seq::<(Action, Seq<char>)>::empty()
    } else {
        let action = actions.last();
        if strings.contains_key(action_name(action)) {
            texts_found(strings, actions.drop_last()).push(
                (action, strings[action_name(action)]),
            )
        } else {
            texts_found(strings, actions.drop_last())
        }
    }
}

/// The keymap that binds each action of `found`, in order, to the key that its text
/// names, or the first text in it that names no key. Of two actions on one key the
/// later counts.
pub open spec fn keymap_of_texts(found: Seq<(Action, Seq<char>)>) -> Result<
    Map<Key, Action>,
    Seq<char>,
>
    decreases found.len(),
{
    if found.len() == 0 {
        Ok(Map::empty())
    } else {
        match keymap_of_texts(found.drop_last()) {
            Err(name) => Err(name),
            Ok(map) => match key_named(found.last().1) {
                Some(key) => Ok(map.insert(key, found.last().0)),
                None => Err(found.last().1),
            },
        }
    }
}

/// The keymap that the texts of a configuration stand for, or the first key name in
/// it that means no key. Each of `actions`, in order, is bound to the key named under
/// the action's name, if there is such a text.
pub open spec fn keymap_of(strings: Map<Seq<char>, Seq<char>>, actions: Seq<Action>) -> Result<
    Map<Key, Action>,
    Seq<char>,
> {
    keymap_of_texts(texts_found(strings, actions))
}

/// The keymap that the text of a configuration stands for: the default one where the
/// text is no TOML, else what its texts say.
pub open spec fn keymap_of_text(content: Seq<char>) -> Result<Map<Key, Action>, Seq<char>> {
    match toml_strings(content) {
        Some(strings) => keymap_of(strings, configurable_actions()),
        None => Ok(map_of(default_bindings())),
    }
}

/// The keymap in use for a keymap configuration: the one that its text stands for, and
/// the default one, whole, where there is no text, where the text is no TOML, or where
/// it holds a key name that means no key.
pub open spec fn keymap_in_use(content: Option<Seq<char>>) -> Map<Key, Action> {
    match content {
        Some(text) => match keymap_of_text(text) {
            Ok(map) => map,
            Err(_) => map_of(default_bindings()),
        },
        None => map_of(default_bindings()),
    }
}

/// What a list of actions with their texts holds.
pub open spec fn found_texts(found: Seq<(Action, String)>) -> Seq<(Action, Seq<char>)> {
    Seq::new(found.len(), |i: int| (found[i].0, found[i].1@))
}

/// The name of an action is a plain name.
pub proof fn lemma_action_names_are_plain(action: Action)
    ensures
        is_plain_name(action_name(action)),
{
    reveal_strlit("TogglePlayPause");
    reveal_strlit("Rewind");
    reveal_strlit("Forward");
    reveal_strlit("IncreaseSpeed");
    reveal_strlit("DecreaseSpeed");
    reveal_strlit("StartLoop");
    reveal_strlit("EndLoop");
    reveal_strlit("BreakLoop");
    reveal_strlit("CutLoop_Offense");
    reveal_strlit("CutLoop_Defense");
    reveal_strlit("CutLoop");
    reveal_strlit("NextMedia");
    reveal_strlit("PreviousMedia");
    reveal_strlit("RestartMedia");
    reveal_strlit("NextClip");
    reveal_strlit("PreviousClip");
    reveal_strlit("RestartClip");
    reveal_strlit("ConcatClips");
    reveal_strlit("PreviousCutmark");
    reveal_strlit("NextCutmarks");
    reveal_strlit("Stop");
    reveal_strlit("Exit");
    let name = action_name(action);
    if name.contains('.') {
        let i = choose|i: int| 0 <= i < name.len() && name[i] == '.';
        assert(name[i] == '.');
        assert(false);
    }
}

/// The actions that a keymap configuration can bind.
fn actions_to_configure() -> (r: Vec<Action>)
    ensures
        r@ == configurable_actions(),
{
    let r = vec![
        Action::TogglePlayPause,
        Action::Rewind(700),
        Action::Forward(700),
        Action::IncreaseSpeed,
        Action::DecreaseSpeed,
        Action::StartLoop,
        Action::EndLoop,
        Action::BreakLoop,
        Action::CutCurrentLoop(Some(ClipType::Offense)),
        Action::CutCurrentLoop(Some(ClipType::Defense)),
        Action::CutCurrentLoop(None),
        Action::NextMedia,
        Action::PreviousMedia,
        Action::RestartMedia,
        Action::NextClip,
        Action::PreviousClip,
        Action::RestartClip,
        Action::ConcatClips,
        Action::Stop,
        Action::Exit,
    ];
    assert(r@ =~= configurable_actions());
    r
}

/// Where the keymap of the first `k` texts fails on a name, that of all of them fails
/// on the same name.
pub proof fn lemma_keymap_of_texts_fails_on(found: Seq<(Action, Seq<char>)>, k: int)
    requires
        0 <= k <= found.len(),
        keymap_of_texts(found.take(k)) is Err,
    ensures
        keymap_of_texts(found) == keymap_of_texts(found.take(k)),
    decreases found.len() - k,
{
    if k < found.len() {
        assert(found.take(k + 1).drop_last() =~= found.take(k));
        lemma_keymap_of_texts_fails_on(found, k + 1);
    } else {
        assert(found.take(k) =~= found);
    }
}

/// The keymap that binds each action of `found`, in order, to the key that its text
/// names, or what is said of the first text in it that names no key.
pub fn key_map_from_texts(found: &Vec<(Action, String)>) -> (r: Result<KeyMap, String>)
    ensures
        match r {
            Ok(map) => map.wf() && keymap_of_texts(found_texts(found@)) == Ok::<
                Map<Key, Action>,
                Seq<char>,
            >(map@),
            Err(message) => match keymap_of_texts(found_texts(found@)) {
                Err(name) => message@ == unknown_key_message(name),
                Ok(_) => false,
            },
        },
{
    let ghost texts = found_texts(found@);
    let mut map = KeyMap::new();
    let mut i: usize = 0;
    assert(texts.take(0) =~= Seq::<(Action, Seq<char>)>::empty());
    while i < found.len()
        invariant
            i <= found@.len(),
            texts == found_texts(found@),
            map.wf(),
            keymap_of_texts(texts.take(i as int)) == Ok::<Map<Key, Action>, Seq<char>>(map@),
        decreases found@.len() - i,
    {
        proof {
            assert(texts.take(i + 1).drop_last() =~= texts.take(i as int));
            assert(texts.take(i + 1).last() == (found@[i as int].0, found@[i as int].1@));
        }
        match translate_key_id(found[i].1.as_str()) {
            Ok(key) => {
                map.insert(key, found[i].0);
            },
            Err(message) => {
                proof {
                    lemma_keymap_of_texts_fails_on(texts, i + 1);
                }
                return Err(message);
            },
        }
        i += 1;
    }
    assert(texts.take(i as int) =~= texts);
    Ok(map)
}

/// The texts that a tree of configuration values holds for the actions that can be
/// bound.
fn texts_of_tree(tree: &configuration::Tree) -> (found: Vec<(Action, String)>)
    ensures
        found_texts(found@) == texts_found(tree_strings(*tree), configurable_actions()),
{
    let actions = actions_to_configure();
    let ghost strings = tree_strings(*tree);
    let mut found: Vec<(Action, String)> = Vec::new();
    let mut i: usize = 0;
    proof {
        assert(actions@.take(0) =~= Seq::<Action>::empty());
        assert(found_texts(found@) =~= Seq::<(Action, Seq<char>)>::empty());
    }
    while i < actions.len()
        invariant
            i <= actions@.len(),
            actions@ == configurable_actions(),
            strings == tree_strings(*tree),
            found_texts(found@) == texts_found(strings, actions@.take(i as int)),
        decreases actions@.len() - i,
    {
        let action = actions[i];
        let ghost before = found_texts(found@);
        proof {
            lemma_action_names_are_plain(action);
            assert(actions@.take(i + 1).drop_last() =~= actions@.take(i as int));
            assert(actions@.take(i + 1).last() == action);
        }
        match tree_get(tree, action.name()) {
            Some(name) => {
                found.push((action, name));
                assert(found_texts(found@) =~= before.push((action, name@)));
            },
            None => {},
        }
        i += 1;
    }
    assert(actions@.take(i as int) =~= actions@);
    found
}

/// The keymap that a tree of configuration values stands for, or what is said of the
/// first key name in it that means no key.
pub fn key_map_from_tree(tree: &configuration::Tree) -> (r: Result<KeyMap, String>)
    ensures
        match r {
            Ok(map) => map.wf() && keymap_of(tree_strings(*tree), configurable_actions()) == Ok::<
                Map<Key, Action>,
                Seq<char>,
            >(map@),
            Err(message) => match keymap_of(tree_strings(*tree), configurable_actions()) {
                Err(name) => message@ == unknown_key_message(name),
                Ok(_) => false,
            },
        },
{
    let found = texts_of_tree(tree);
    key_map_from_texts(&found)
}

/// The keymap in use for the text of a keymap configuration: the keys that it names
/// for the actions, and the default keymap, whole, where the text is not valid: where
/// it is no TOML, or where it holds a key name that means no key. It always succeeds.
pub fn key_map_from_config(content: &str) -> (r: Result<KeyMap, String>)
    ensures
        r matches Ok(map) && map.wf() && map@ == keymap_in_use(Some(content@)),
{
    match parse_toml(content) {
        Some(tree) => match key_map_from_tree(&tree) {
            Ok(map) => Ok(map),
            Err(_) => Ok(default_keymap()),
        },
        None => Ok(default_keymap()),
    }
}

/// The keymap in use for the text of a keymap configuration, if there is a text: the
/// one that the text stands for, and the default one where the configuration is absent
/// or not valid.
pub fn load_keymap(content: Option<&str>) -> (r: KeyMap)
    ensures
        r.wf(),
        r@ == keymap_in_use(
            match content {
                Some(text) => Some(text@),
                None => None,
            },
        ),
{
    match content {
        Some(text) => match key_map_from_config(text) {
            Ok(map) => map,
            Err(_) => default_keymap(),
        },
        None => default_keymap(),
    }
}

} // verus!
