//! The keys of the keyboard and their names.

use vstd::prelude::*;
use vstd::string::*;
use crate::text::{eq_ignoring_case, same_ignoring_case};

verus! {

/// A key of the keyboard that an action can be bound to.
#[derive(Debug, Copy, Clone, PartialEq, Eq, Structural)]
pub enum Key {
    Esc,
    Return,
    Backspace,
    LeftArrow,
    RightArrow,
    UpArrow,
    DownArrow,
    Space,
    A,
    B,
    C,
    D,
    E,
    F,
    G,
    H,
    I,
    J,
    K,
    L,
    M,
    N,
    O,
    P,
    Q,
    R,
    S,
    T,
    U,
    V,
    W,
    X,
    Y,
    Z,
    F1,
    F2,
    F3,
    F4,
    F5,
    F6,
    F7,
    F8,
    F9,
    F10,
    F11,
    F12,
    Number0,
    Number1,
    Number2,
    Number3,
    Number4,
    Number5,
    Number6,
    Number7,
    Number8,
    Number9,
}

/// The name under which a keymap configuration writes a key, in lower case.
pub open spec fn key_name(key: Key) -> Seq<char> {
    match key {
        Key::Esc => "escape"@,
        Key::Return => "return"@,
        Key::Backspace => "backspace"@,
        Key::LeftArrow => "left"@,
        Key::RightArrow => "right"@,
        Key::UpArrow => "up"@,
        Key::DownArrow => "down"@,
        Key::Space => "space"@,
        Key::A => "a"@,
        Key::B => "b"@,
        Key::C => "c"@,
        Key::D => "d"@,
        Key::E => "e"@,
        Key::F => "f"@,
        Key::G => "g"@,
        Key::H => "h"@,
        Key::I => "i"@,
        Key::J => "j"@,
        Key::K => "k"@,
        Key::L => "l"@,
        Key::M => "m"@,
        Key::N => "n"@,
        Key::O => "o"@,
        Key::P => "p"@,
        Key::Q => "q"@,
        Key::R => "r"@,
        Key::S => "s"@,
        Key::T => "t"@,
        Key::U => "u"@,
        Key::V => "v"@,
        Key::W => "w"@,
        Key::X => "x"@,
        Key::Y => "y"@,
        Key::Z => "z"@,
        Key::F1 => "f1"@,
        Key::F2 => "f2"@,
        Key::F3 => "f3"@,
        Key::F4 => "f4"@,
        Key::F5 => "f5"@,
        Key::F6 => "f6"@,
        Key::F7 => "f7"@,
        Key::F8 => "f8"@,
        Key::F9 => "f9"@,
        Key::F10 => "f10"@,
        Key::F11 => "f11"@,
        Key::F12 => "f12"@,
        Key::Number0 => "0"@,
        Key::Number1 => "1"@,
        Key::Number2 => "2"@,
        Key::Number3 => "3"@,
        Key::Number4 => "4"@,
        Key::Number5 => "5"@,
        Key::Number6 => "6"@,
        Key::Number7 => "7"@,
        Key::Number8 => "8"@,
        Key::Number9 => "9"@,
    }
}

/// The key that a keymap configuration means by `name`, whatever the case of its
/// letters, if it means one.
pub open spec fn key_named(name: Seq<char>) -> Option<Key> {
    if same_ignoring_case(name, "escape"@) {
        Some(Key::Esc)
    } else if same_ignoring_case(name, "return"@) {
        Some(Key::Return)
    } else if same_ignoring_case(name, "backspace"@) {
        Some(Key::Backspace)
    } else if same_ignoring_case(name, "left"@) {
        Some(Key::LeftArrow)
    } else if same_ignoring_case(name, "right"@) {
        Some(Key::RightArrow)
    } else if same_ignoring_case(name, "up"@) {
        Some(Key::UpArrow)
    } else if same_ignoring_case(name, "down"@) {
        Some(Key::DownArrow)
    } else if same_ignoring_case(name, "space"@) {
        Some(Key::Space)
    } else if same_ignoring_case(name, "a"@) {
        Some(Key::A)
    } else if same_ignoring_case(name, "b"@) {
        Some(Key::B)
    } else if same_ignoring_case(name, "c"@) {
        Some(Key::C)
    } else if same_ignoring_case(name, "d"@) {
        Some(Key::D)
    } else if same_ignoring_case(name, "e"@) {
        Some(Key::E)
    } else if same_ignoring_case(name, "f"@) {
        Some(Key::F)
    } else if same_ignoring_case(name, "g"@) {
        Some(Key::G)
    } else if same_ignoring_case(name, "h"@) {
        Some(Key::H)
    } else if same_ignoring_case(name, "i"@) {
        Some(Key::I)
    } else if same_ignoring_case(name, "j"@) {
        Some(Key::J)
    } else if same_ignoring_case(name, "k"@) {
        Some(Key::K)
    } else if same_ignoring_case(name, "l"@) {
        Some(Key::L)
    } else if same_ignoring_case(name, "m"@) {
        Some(Key::M)
    } else if same_ignoring_case(name, "n"@) {
        Some(Key::N)
    } else if same_ignoring_case(name, "o"@) {
        Some(Key::O)
    } else if same_ignoring_case(name, "p"@) {
        Some(Key::P)
    } else if same_ignoring_case(name, "q"@) {
        Some(Key::Q)
    } else if same_ignoring_case(name, "r"@) {
        Some(Key::R)
    } else if same_ignoring_case(name, "s"@) {
        Some(Key::S)
    } else if same_ignoring_case(name, "t"@) {
        Some(Key::T)
    } else if same_ignoring_case(name, "u"@) {
        Some(Key::U)
    } else if same_ignoring_case(name, "v"@) {
        Some(Key::V)
    } else if same_ignoring_case(name, "w"@) {
        Some(Key::W)
    } else if same_ignoring_case(name, "x"@) {
        Some(Key::X)
    } else if same_ignoring_case(name, "y"@) {
        Some(Key::Y)
    } else if same_ignoring_case(name, "z"@) {
        Some(Key::Z)
    } else if same_ignoring_case(name, "f1"@) {
        Some(Key::F1)
    } else if same_ignoring_case(name, "f2"@) {
        Some(Key::F2)
    } else if same_ignoring_case(name, "f3"@) {
        Some(Key::F3)
    } else if same_ignoring_case(name, "f4"@) {
        Some(Key::F4)
    } else if same_ignoring_case(name, "f5"@) {
        Some(Key::F5)
    } else if same_ignoring_case(name, "f6"@) {
        Some(Key::F6)
    } else if same_ignoring_case(name, "f7"@) {
        Some(Key::F7)
    } else if same_ignoring_case(name, "f8"@) {
        Some(Key::F8)
    } else if same_ignoring_case(name, "f9"@) {
        Some(Key::F9)
    } else if same_ignoring_case(name, "f10"@) {
        Some(Key::F10)
    } else if same_ignoring_case(name, "f11"@) {
        Some(Key::F11)
    } else if same_ignoring_case(name, "f12"@) {
        Some(Key::F12)
    } else if same_ignoring_case(name, "0"@) {
        Some(Key::Number0)
    } else if same_ignoring_case(name, "1"@) {
        Some(Key::Number1)
    } else if same_ignoring_case(name, "2"@) {
        Some(Key::Number2)
    } else if same_ignoring_case(name, "3"@) {
        Some(Key::Number3)
    } else if same_ignoring_case(name, "4"@) {
        Some(Key::Number4)
    } else if same_ignoring_case(name, "5"@) {
        Some(Key::Number5)
    } else if same_ignoring_case(name, "6"@) {
        Some(Key::Number6)
    } else if same_ignoring_case(name, "7"@) {
        Some(Key::Number7)
    } else if same_ignoring_case(name, "8"@) {
        Some(Key::Number8)
    } else if same_ignoring_case(name, "9"@) {
        Some(Key::Number9)
    } else {
        None
    }
}

/// What is said of a name that means no key.
pub open spec fn unknown_key_message(name: Seq<char>) -> Seq<char> {
    "no corresponding key id for '"@ + name + "'"@
}

/// The name under which a keymap configuration writes `key`.
pub fn name_of_key(key: Key) -> (r: &'static str)
    ensures
        r@ == key_name(key),
{
    match key {
        Key::Esc => "escape",
        Key::Return => "return",
        Key::Backspace => "backspace",
        Key::LeftArrow => "left",
        Key::RightArrow => "right",
        Key::UpArrow => "up",
        Key::DownArrow => "down",
        Key::Space => "space",
        Key::A => "a",
        Key::B => "b",
        Key::C => "c",
        Key::D => "d",
        Key::E => "e",
        Key::F => "f",
        Key::G => "g",
        Key::H => "h",
        Key::I => "i",
        Key::J => "j",
        Key::K => "k",
        Key::L => "l",
        Key::M => "m",
        Key::N => "n",
        Key::O => "o",
        Key::P => "p",
        Key::Q => "q",
        Key::R => "r",
        Key::S => "s",
        Key::T => "t",
        Key::U => "u",
        Key::V => "v",
        Key::W => "w",
        Key::X => "x",
        Key::Y => "y",
        Key::Z => "z",
        Key::F1 => "f1",
        Key::F2 => "f2",
        Key::F3 => "f3",
        Key::F4 => "f4",
        Key::F5 => "f5",
        Key::F6 => "f6",
        Key::F7 => "f7",
        Key::F8 => "f8",
        Key::F9 => "f9",
        Key::F10 => "f10",
        Key::F11 => "f11",
        Key::F12 => "f12",
        Key::Number0 => "0",
        Key::Number1 => "1",
        Key::Number2 => "2",
        Key::Number3 => "3",
        Key::Number4 => "4",
        Key::Number5 => "5",
        Key::Number6 => "6",
        Key::Number7 => "7",
        Key::Number8 => "8",
        Key::Number9 => "9",
    }
}

/// The key that a keymap configuration means by `s`, whatever the case of its letters,
/// or what is said of a name that means none.
pub fn translate_key_id(s: &str) -> (r: Result<Key, String>)
    ensures
        match r {
            Ok(key) => key_named(s@) == Some(key),
            Err(message) => key_named(s@) is None && message@ == unknown_key_message(s@),
        },
{
    if eq_ignoring_case(s, "escape") {
        Ok(Key::Esc)
    } else if eq_ignoring_case(s, "return") {
        Ok(Key::Return)
    } else if eq_ignoring_case(s, "backspace") {
        Ok(Key::Backspace)
    } else if eq_ignoring_case(s, "left") {
        Ok(Key::LeftArrow)
    } else if eq_ignoring_case(s, "right") {
        Ok(Key::RightArrow)
    } else if eq_ignoring_case(s, "up") {
        Ok(Key::UpArrow)
    } else if eq_ignoring_case(s, "down") {
        Ok(Key::DownArrow)
    } else if eq_ignoring_case(s, "space") {
        Ok(Key::Space)
    } else if eq_ignoring_case(s, "a") {
        Ok(Key::A)
    } else if eq_ignoring_case(s, "b") {
        Ok(Key::B)
    } else if eq_ignoring_case(s, "c") {
        Ok(Key::C)
    } else if eq_ignoring_case(s, "d") {
        Ok(Key::D)
    } else if eq_ignoring_case(s, "e") {
        Ok(Key::E)
    } else if eq_ignoring_case(s, "f") {
        Ok(Key::F)
    } else if eq_ignoring_case(s, "g") {
        Ok(Key::G)
    } else if eq_ignoring_case(s, "h") {
        Ok(Key::H)
    } else if eq_ignoring_case(s, "i") {
        Ok(Key::I)
    } else if eq_ignoring_case(s, "j") {
        Ok(Key::J)
    } else if eq_ignoring_case(s, "k") {
        Ok(Key::K)
    } else if eq_ignoring_case(s, "l") {
        Ok(Key::L)
    } else if eq_ignoring_case(s, "m") {
        Ok(Key::M)
    } else if eq_ignoring_case(s, "n") {
        Ok(Key::N)
    } else if eq_ignoring_case(s, "o") {
        Ok(Key::O)
    } else if eq_ignoring_case(s, "p") {
        Ok(Key::P)
    } else if eq_ignoring_case(s, "q") {
        Ok(Key::Q)
    } else if eq_ignoring_case(s, "r") {
        Ok(Key::R)
    } else if eq_ignoring_case(s, "s") {
        Ok(Key::S)
    } else if eq_ignoring_case(s, "t") {
        Ok(Key::T)
    } else if eq_ignoring_case(s, "u") {
        Ok(Key::U)
    } else if eq_ignoring_case(s, "v") {
        Ok(Key::V)
    } else if eq_ignoring_case(s, "w") {
        Ok(Key::W)
    } else if eq_ignoring_case(s, "x") {
        Ok(Key::X)
    } else if eq_ignoring_case(s, "y") {
        Ok(Key::Y)
    } else if eq_ignoring_case(s, "z") {
        Ok(Key::Z)
    } else if eq_ignoring_case(s, "f1") {
        Ok(Key::F1)
    } else if eq_ignoring_case(s, "f2") {
        Ok(Key::F2)
    } else if eq_ignoring_case(s, "f3") {
        Ok(Key::F3)
    } else if eq_ignoring_case(s, "f4") {
        Ok(Key::F4)
    } else if eq_ignoring_case(s, "f5") {
        Ok(Key::F5)
    } else if eq_ignoring_case(s, "f6") {
        Ok(Key::F6)
    } else if eq_ignoring_case(s, "f7") {
        Ok(Key::F7)
    } else if eq_ignoring_case(s, "f8") {
        Ok(Key::F8)
    } else if eq_ignoring_case(s, "f9") {
        Ok(Key::F9)
    } else if eq_ignoring_case(s, "f10") {
        Ok(Key::F10)
    } else if eq_ignoring_case(s, "f11") {
        Ok(Key::F11)
    } else if eq_ignoring_case(s, "f12") {
        Ok(Key::F12)
    } else if eq_ignoring_case(s, "0") {
        Ok(Key::Number0)
    } else if eq_ignoring_case(s, "1") {
        Ok(Key::Number1)
    } else if eq_ignoring_case(s, "2") {
        Ok(Key::Number2)
    } else if eq_ignoring_case(s, "3") {
        Ok(Key::Number3)
    } else if eq_ignoring_case(s, "4") {
        Ok(Key::Number4)
    } else if eq_ignoring_case(s, "5") {
        Ok(Key::Number5)
    } else if eq_ignoring_case(s, "6") {
        Ok(Key::Number6)
    } else if eq_ignoring_case(s, "7") {
        Ok(Key::Number7)
    } else if eq_ignoring_case(s, "8") {
        Ok(Key::Number8)
    } else if eq_ignoring_case(s, "9") {
        Ok(Key::Number9)
    } else {
        let mut message = String::from_str("no corresponding key id for '");
        message.append(s);
        message.append("'");
        Err(message)
    }
}

} // verus!
