//! The gamepad: what its buttons and triggers stand for, and how a short press is told
//! from a long one.

use vstd::prelude::*;
use crate::action::Action;
use crate::clip::ClipType;

verus! {

/// A button of a gamepad.
#[derive(Debug, Copy, Clone, PartialEq, Eq, Structural)]
pub enum Button {
    South,
    East,
    North,
    West,
    C,
    Z,
    LeftTrigger,
    LeftTrigger2,
    RightTrigger,
    RightTrigger2,
    Select,
    Start,
    Mode,
    LeftThumb,
    RightThumb,
    DPadUp,
    DPadDown,
    DPadLeft,
    DPadRight,
    Unknown,
}

/// What a gamepad reports.
#[derive(Debug, Copy, Clone, PartialEq, Eq)]
pub enum ControllerEvent {
    /// A button went down.
    ButtonPressed(Button),
    /// A button came up.
    ButtonReleased(Button),
    /// The value of a button changed; the value is given in thousandths, from 0 to
    /// 1000.
    ButtonChanged(Button, i64),
    /// Anything else.
    Other,
}

/// The button that went down last, and when, in milliseconds of a clock that does not
/// run backwards.
#[derive(Debug, Copy, Clone, PartialEq, Eq)]
pub struct LastPressed {
    pub btn: Button,
    pub pressed_at: u64,
}

/// A button held for more than this many milliseconds was pressed long.
pub const LONG_PRESS_MS: u64 = 500;

/// The action of a long press of `btn`, for the buttons that have one.
pub open spec fn long_press_action(btn: Button) -> Option<Action> {
    match btn {
        Button::DPadLeft => Some(Action::PreviousMedia),
        Button::DPadRight => Some(Action::NextMedia),
        Button::South => Some(Action::BreakLoop),
        Button::West => Some(Action::PreviousCutmark),
        Button::East => Some(Action::NextCutmark),
        Button::North => Some(Action::ConcatClips),
        _ => None,
    }
}

/// The action of a short press of `btn`, for the buttons that have one.
pub open spec fn short_press_action(btn: Button) -> Option<Action> {
    match btn {
        Button::Start => Some(Action::Exit),
        Button::South => Some(Action::TogglePlayPause),
        Button::West => Some(Action::StartLoop),
        Button::East => Some(Action::EndLoop),
        Button::North => Some(Action::CutCurrentLoop(None)),
        Button::LeftTrigger => Some(Action::DecreaseSpeed),
        Button::RightTrigger => Some(Action::IncreaseSpeed),
        Button::DPadRight => Some(Action::NextClip),
        Button::DPadLeft => Some(Action::PreviousClip),
        Button::DPadUp => Some(Action::CutCurrentLoop(Some(ClipType::Offense))),
        Button::DPadDown => Some(Action::CutCurrentLoop(Some(ClipType::Defense))),
        _ => None,
    }
}

/// The action of a trigger whose value changed to `value`: the left triggers rewind by
/// it, the right ones go forward.
pub open spec fn trigger_action(btn: Button, value: i64) -> Option<Action> {
    match btn {
        Button::LeftTrigger | Button::LeftTrigger2 => Some(Action::Rewind(value)),
        Button::RightTrigger | Button::RightTrigger2 => Some(Action::Forward(value)),
        _ => None,
    }
}

/// Whether the release of `btn` at `now` ends a long press: `btn` is the button that
/// went down last, and that is more than half a second ago.
pub open spec fn held_long(last: Option<LastPressed>, btn: Button, now: u64) -> bool {
    match last {
        Some(pressed) => pressed.btn == btn && now - pressed.pressed_at > LONG_PRESS_MS,
        None => false,
    }
}

/// The action of the release of `btn` at `now`: that of the long press where the
/// button was held long and has one, else that of the short press.
pub open spec fn release_action(last: Option<LastPressed>, btn: Button, now: u64) -> Option<
    Action,
> {
    if held_long(last, btn, now) && long_press_action(btn) is Some {
        long_press_action(btn)
    } else {
        short_press_action(btn)
    }
}

/// The button that went down last after `event` at `now`.
pub open spec fn last_pressed_after(
    last: Option<LastPressed>,
    event: Option<ControllerEvent>,
    now: u64,
) -> Option<LastPressed> {
    match event {
        Some(ControllerEvent::ButtonPressed(btn)) => Some(LastPressed { btn, pressed_at: now }),
        _ => last,
    }
}

/// The action that `event` at `now` gives.
pub open spec fn event_action(
    last: Option<LastPressed>,
    event: Option<ControllerEvent>,
    now: u64,
) -> Option<Action> {
    match event {
        Some(ControllerEvent::ButtonReleased(btn)) => release_action(last, btn, now),
        Some(ControllerEvent::ButtonChanged(btn, value)) => trigger_action(btn, value),
        _ => None,
    }
}

/// Turns what a gamepad reports into actions, telling short presses from long ones.
#[derive(Debug, Copy, Clone, PartialEq, Eq)]
pub struct Controller {
    last_pressed: Option<LastPressed>,
}

impl View for Controller {
    type V = Option<LastPressed>;

    closed spec fn view(&self) -> Option<LastPressed> {
        self.last_pressed
    }
}

impl Controller {
    /// A controller on which no button has gone down yet.
    pub fn new() -> (r: Controller)
        ensures
            r@ is None,
    {
        Controller { last_pressed: None }
    }

    /// The button that went down last, and when.
    pub fn last_pressed(&self) -> (r: Option<LastPressed>)
        ensures
            r == self@,
    {
        self.last_pressed
    }

    /// The action of a long press of `btn`, for the buttons that have one.
    pub fn long_press_map(btn: Button) -> (r: Option<Action>)
        ensures
            r == long_press_action(btn),
    {
        match btn {
            Button::DPadLeft => Some(Action::PreviousMedia),
            Button::DPadRight => Some(Action::NextMedia),
            Button::South => Some(Action::BreakLoop),
            Button::West => Some(Action::PreviousCutmark),
            Button::East => Some(Action::NextCutmark),
            Button::North => Some(Action::ConcatClips),
            _ => None,
        }
    }

    /// The action of a short press of `btn`, for the buttons that have one.
    pub fn short_press_map(btn: Button) -> (r: Option<Action>)
        ensures
            r == short_press_action(btn),
    {
        match btn {
            Button::Start => Some(Action::Exit),
            Button::South => Some(Action::TogglePlayPause),
            Button::West => Some(Action::StartLoop),
            Button::East => Some(Action::EndLoop),
            Button::North => Some(Action::CutCurrentLoop(None)),
            Button::LeftTrigger => Some(Action::DecreaseSpeed),
            Button::RightTrigger => Some(Action::IncreaseSpeed),
            Button::DPadRight => Some(Action::NextClip),
            Button::DPadLeft => Some(Action::PreviousClip),
            Button::DPadUp => Some(Action::CutCurrentLoop(Some(ClipType::Offense))),
            Button::DPadDown => Some(Action::CutCurrentLoop(Some(ClipType::Defense))),
            _ => None,
        }
    }

    /// Whether the release of `btn` at `now` ends a long press.
    pub fn has_been_held_long(&self, btn: Button, now: u64) -> (b: bool)
        ensures
            b == held_long(self@, btn, now),
    {
        match self.last_pressed {
            Some(pressed) => pressed.btn == btn && now > pressed.pressed_at && now
                - pressed.pressed_at > LONG_PRESS_MS,
            None => false,
        }
    }

    /// Takes the next event of the gamepad, if there is one, with the time `now` in
    /// milliseconds, and gives the action that it stands for, if any.
    pub fn next_action(&mut self, event: Option<ControllerEvent>, now: u64) -> (r: Option<Action>)
        ensures
            r == event_action(old(self)@, event, now),
            final(self)@ == last_pressed_after(old(self)@, event, now),
    {
        match event {
            Some(ControllerEvent::ButtonPressed(btn)) => {
                self.last_pressed = Some(LastPressed { btn, pressed_at: now });
                None
            },
            Some(ControllerEvent::ButtonReleased(btn)) => {
                if self.has_been_held_long(btn, now) {
                    match Controller::long_press_map(btn) {
                        Some(action) => Some(action),
                        None => Controller::short_press_map(btn),
                    }
                } else {
                    Controller::short_press_map(btn)
                }
            },
            Some(ControllerEvent::ButtonChanged(btn, value)) => {
                match btn {
                    Button::LeftTrigger | Button::LeftTrigger2 => Some(Action::Rewind(value)),
                    Button::RightTrigger | Button::RightTrigger2 => Some(Action::Forward(value)),
                    _ => None,
                }
            },
            _ => None,
        }
    }
}

/// A button held for at most half a second gives its short press; one held longer
/// gives its long press where it has one.
pub proof fn lemma_press_length_decides(btn: Button, pressed_at: u64, released_at: u64)
    requires
        pressed_at <= released_at,
    ensures
        released_at - pressed_at <= LONG_PRESS_MS ==> release_action(
            Some(LastPressed { btn, pressed_at }),
            btn,
            released_at,
        ) == short_press_action(btn),
        released_at - pressed_at > LONG_PRESS_MS && long_press_action(btn) is Some
            ==> release_action(Some(LastPressed { btn, pressed_at }), btn, released_at)
            == long_press_action(btn),
{
}

} // verus!
