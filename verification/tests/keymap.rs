use vac::action::Action;
use vac::clip::ClipType;
use vac::config::{key_map_from_config, key_map_from_texts, key_map_from_tree, load_keymap};
use vac::key::{name_of_key, translate_key_id, Key};
use vac::keymap::{
    action_from_pressed_key, default_keymap, key_map_of, read_keyboard, window_keymap, KeyMap,
};

const KEYMAP_FILE: &str = "TogglePlayPause = \"Space\"\nRewind = \"Left\"\nForward = \"Right\"\nIncreaseSpeed = \"Up\"\nDecreaseSpeed = \"Down\"\nStartLoop = \"T\"\nEndLoop = \"Z\"\nBreakLoop = \"B\"\nCutLoop_Offense = \"O\"\nCutLoop_Defense = \"D\"\nCutLoop = \"C\"\nNextMedia = \"I\"\nPreviousMedia = \"K\"\nRestartMedia = \"M\"\nNextClip = \"W\"\nPreviousClip = \"S\"\nRestartClip = \"Y\"\nConcatClips = \"U\"\nStop = \"F12\"\nExit = \"Escape\"\n";

#[test]
fn keyboard_read_config_test() {
    let key_map = key_map_from_config(KEYMAP_FILE).unwrap();
    println!("{:?}", key_map);
    assert!(key_map.len() > 0);
    assert_eq!(key_map.len(), 20);
    assert_eq!(key_map.get(Key::F12), Some(Action::Stop));
    assert_eq!(key_map.get(Key::LeftArrow), Some(Action::Rewind(700)));
}

#[test]
fn keyboard_windows_read_config_test() {
    let key_map = key_map_from_config(KEYMAP_FILE).unwrap();
    println!("{:?}", key_map);
    assert!(key_map.len() > 0);
    assert_ne!(key_map, default_keymap());
    assert_eq!(key_map.get(Key::Esc), Some(Action::Exit));
}

#[test]
fn text_that_is_no_toml_gives_the_default_keymap() {
    assert_eq!(key_map_from_config("= = ="), Ok(default_keymap()));
    assert_eq!(default_keymap().len(), 19);
    assert_eq!(default_keymap().get(Key::Space), Some(Action::TogglePlayPause));
    assert_eq!(default_keymap().get(Key::LeftArrow), Some(Action::Rewind(700)));
    assert_eq!(default_keymap().get(Key::RightArrow), Some(Action::Forward(700)));
    assert_eq!(default_keymap().get(Key::DownArrow), Some(Action::DecreaseSpeed));
    assert_eq!(default_keymap().get(Key::Esc), Some(Action::Exit));
    assert_eq!(default_keymap().get(Key::F1), None);
}

#[test]
fn configuration_binds_the_keys_it_names() {
    let content = "TogglePlayPause = \"P\"\nCutLoop_Offense = \"f1\"\nCutLoop = \"9\"\nStop = \"Escape\"\nanswer = 42\n";
    let map = key_map_from_config(content).unwrap();
    assert_eq!(map.len(), 4);
    assert_eq!(map.get(Key::P), Some(Action::TogglePlayPause));
    assert_eq!(map.get(Key::F1), Some(Action::CutCurrentLoop(Some(ClipType::Offense))));
    assert_eq!(map.get(Key::Number9), Some(Action::CutCurrentLoop(None)));
    assert_eq!(map.get(Key::Esc), Some(Action::Stop));
    assert_eq!(map.get(Key::Space), None);
}

#[test]
fn empty_configuration_binds_nothing() {
    let map = key_map_from_config("").unwrap();
    assert_eq!(map.len(), 0);
    assert_eq!(map, KeyMap::new());
}

#[test]
fn later_action_takes_a_key_from_an_earlier_one() {
    let map = key_map_from_config("Rewind = \"x\"\nExit = \"X\"\n").unwrap();
    assert_eq!(map.len(), 1);
    assert_eq!(map.get(Key::X), Some(Action::Exit));
}

#[test]
fn unknown_key_name_is_reported() {
    let found = vec![
        (Action::StartLoop, "t".to_string()),
        (Action::EndLoop, "pause".to_string()),
        (Action::Exit, "nope".to_string()),
    ];
    assert_eq!(
        key_map_from_texts(&found),
        Err("no corresponding key id for 'pause'".to_string())
    );
    let tree = configuration::format::TOML::parse(
        "StartLoop = \"t\"\nEndLoop = \"pause\"\nExit = \"nope\"\n",
    )
    .unwrap();
    assert_eq!(
        key_map_from_tree(&tree),
        Err("no corresponding key id for 'pause'".to_string())
    );
}

#[test]
fn texts_bind_their_actions_in_order() {
    let found = vec![
        (Action::StartLoop, "T".to_string()),
        (Action::EndLoop, "f3".to_string()),
        (Action::Exit, "t".to_string()),
    ];
    let map = key_map_from_texts(&found).unwrap();
    assert_eq!(map.len(), 2);
    assert_eq!(map.get(Key::T), Some(Action::Exit));
    assert_eq!(map.get(Key::F3), Some(Action::EndLoop));
    assert_eq!(key_map_from_texts(&Vec::new()), Ok(KeyMap::new()));
}

#[test]
fn configuration_with_an_unknown_key_name_gives_the_default_keymap() {
    assert_eq!(key_map_from_config("TogglePlayPause = \"tab\"\n"), Ok(default_keymap()));
    assert_eq!(
        key_map_from_config("StartLoop = \"t\"\nEndLoop = \"pause\"\nExit = \"q\"\n"),
        Ok(default_keymap())
    );
}

#[test]
fn tree_of_the_outside_parser_is_read() {
    let tree = configuration::format::TOML::parse("NextMedia = \"Right\"\n[other]\nExit = \"q\"\n")
        .unwrap();
    let map = key_map_from_tree(&tree).unwrap();
    assert_eq!(map.len(), 1);
    assert_eq!(map.get(Key::RightArrow), Some(Action::NextMedia));
}

#[test]
fn key_names_are_read_in_any_case() {
    assert_eq!(translate_key_id("escape"), Ok(Key::Esc));
    assert_eq!(translate_key_id("ESCAPE"), Ok(Key::Esc));
    assert_eq!(translate_key_id("Return"), Ok(Key::Return));
    assert_eq!(translate_key_id("backspace"), Ok(Key::Backspace));
    assert_eq!(translate_key_id("left"), Ok(Key::LeftArrow));
    assert_eq!(translate_key_id("right"), Ok(Key::RightArrow));
    assert_eq!(translate_key_id("up"), Ok(Key::UpArrow));
    assert_eq!(translate_key_id("down"), Ok(Key::DownArrow));
    assert_eq!(translate_key_id("SPACE"), Ok(Key::Space));
    assert_eq!(translate_key_id("a"), Ok(Key::A));
    assert_eq!(translate_key_id("Z"), Ok(Key::Z));
    assert_eq!(translate_key_id("f1"), Ok(Key::F1));
    assert_eq!(translate_key_id("F12"), Ok(Key::F12));
    assert_eq!(translate_key_id("0"), Ok(Key::Number0));
    assert_eq!(translate_key_id("9"), Ok(Key::Number9));
    assert_eq!(
        translate_key_id("f13"),
        Err("no corresponding key id for 'f13'".to_string())
    );
    assert_eq!(translate_key_id(""), Err("no corresponding key id for ''".to_string()));
}

#[test]
fn every_key_is_found_by_its_own_name() {
    let keys = [
        Key::Esc, Key::Return, Key::Backspace, Key::LeftArrow, Key::RightArrow, Key::UpArrow,
        Key::DownArrow, Key::Space, Key::A, Key::B, Key::C, Key::D, Key::E, Key::F, Key::G,
        Key::H, Key::I, Key::J, Key::K, Key::L, Key::M, Key::N, Key::O, Key::P, Key::Q, Key::R,
        Key::S, Key::T, Key::U, Key::V, Key::W, Key::X, Key::Y, Key::Z, Key::F1, Key::F2,
        Key::F3, Key::F4, Key::F5, Key::F6, Key::F7, Key::F8, Key::F9, Key::F10, Key::F11,
        Key::F12, Key::Number0, Key::Number1, Key::Number2, Key::Number3, Key::Number4,
        Key::Number5, Key::Number6, Key::Number7, Key::Number8, Key::Number9,
    ];
    for key in keys {
        assert_eq!(translate_key_id(name_of_key(key)), Ok(key));
    }
}

#[test]
fn insert_replaces_the_binding_of_a_key() {
    let mut map = KeyMap::new();
    map.insert(Key::A, Action::StartLoop);
    map.insert(Key::B, Action::EndLoop);
    map.insert(Key::A, Action::BreakLoop);
    assert_eq!(map.len(), 2);
    assert_eq!(map.get(Key::A), Some(Action::BreakLoop));
    assert_eq!(map.get(Key::B), Some(Action::EndLoop));
    assert_eq!(map.bindings(), vec![(Key::A, Action::BreakLoop), (Key::B, Action::EndLoop)]);
    assert_eq!(
        key_map_of(&vec![
            (Key::A, Action::StartLoop),
            (Key::B, Action::EndLoop),
            (Key::A, Action::BreakLoop)
        ]),
        map
    );
}

#[test]
fn window_keys_have_their_actions() {
    assert_eq!(window_keymap().len(), 21);
    assert_eq!(action_from_pressed_key(Key::Space), Some(Action::TogglePlayPause));
    assert_eq!(action_from_pressed_key(Key::DownArrow), Some(Action::TogglePlayPause));
    assert_eq!(action_from_pressed_key(Key::UpArrow), Some(Action::IncreaseSpeed));
    assert_eq!(action_from_pressed_key(Key::Number1), Some(Action::PreviousCutmark));
    assert_eq!(action_from_pressed_key(Key::Number2), Some(Action::NextCutmark));
    assert_eq!(action_from_pressed_key(Key::Esc), Some(Action::Exit));
    assert_eq!(action_from_pressed_key(Key::Number3), None);
    assert_eq!(action_from_pressed_key(Key::Return), None);
}

#[test]
fn actions_have_their_configuration_names() {
    assert_eq!(Action::TogglePlayPause.name(), "TogglePlayPause");
    assert_eq!(Action::Rewind(1).name(), "Rewind");
    assert_eq!(Action::Forward(-5).name(), "Forward");
    assert_eq!(Action::CutCurrentLoop(None).name(), "CutLoop");
    assert_eq!(Action::CutCurrentLoop(Some(ClipType::Offense)).name(), "CutLoop_Offense");
    assert_eq!(Action::CutCurrentLoop(Some(ClipType::Defense)).name(), "CutLoop_Defense");
    assert_eq!(Action::NextCutmark.name(), "NextCutmarks");
    assert_eq!(Action::PreviousCutmark.name(), "PreviousCutmark");
    assert_eq!(Action::Stop.name(), "Stop");
    assert_eq!(Action::Exit.name(), "Exit");
}

#[test]
fn absent_or_invalid_configuration_gives_the_default_keymap() {
    assert_eq!(load_keymap(None), default_keymap());
    assert_eq!(load_keymap(Some("this is no toml")), default_keymap());
    assert_eq!(load_keymap(Some("Exit = \"no such key\"\n")), default_keymap());
    let map = load_keymap(Some("Exit = \"q\"\n"));
    assert_eq!(map.len(), 1);
    assert_eq!(map.get(Key::Q), Some(Action::Exit));
}

#[test]
fn keys_that_come_up_give_their_actions_in_order() {
    let map = default_keymap();
    assert_eq!(
        read_keyboard(&map, &vec![Key::T, Key::F5, Key::Z, Key::C, Key::Number1, Key::Esc]),
        vec![Action::StartLoop, Action::EndLoop, Action::CutCurrentLoop(None), Action::Exit]
    );
    assert_eq!(read_keyboard(&map, &Vec::new()), Vec::<Action>::new());
    assert_eq!(read_keyboard(&KeyMap::new(), &vec![Key::T]), Vec::<Action>::new());
}

#[test]
fn odd_configuration_texts_are_answered() {
    let odd = [
        "[", "]", "[[", "[a", "a =", "a = \"", "a = 'b", "= 1", "a = [1, \"b\"]", "a = {",
        "a.b = 1", "\"\" = 1", "a = 1979-05-27T07:32:00Z", "a = 1e999", "a = -", "a = +",
        "[a]\n[a]", "[[a]]\n[a]", "a = \"\\u00zz\"", "a = \"\\", "\u{0}", "\u{feff}a = 1",
        "ä = \"ö\"", "Exit = \"\"", "Exit = 5", "Exit = [\"q\"]", "[Exit]\nkey = \"q\"",
        "a = \"\"\"", "a = '''", "# only a comment", "\r\n\r\n", "a=1\rb=2",
    ];
    for text in odd {
        let map = key_map_from_config(text).unwrap();
        assert_eq!(load_keymap(Some(text)), map);
    }
    assert_eq!(key_map_from_config("Exit = \"\""), Ok(default_keymap()));
    assert_eq!(key_map_from_config("Exit = 5").map(|m| m.len()), Ok(0));
    assert_eq!(key_map_from_config("[Exit]\nkey = \"q\"").map(|m| m.len()), Ok(0));
}
