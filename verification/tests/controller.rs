use vac::action::Action;
use vac::clip::ClipType;
use vac::controller::{Button, Controller, ControllerEvent, LastPressed, LONG_PRESS_MS};

fn press_and_release(btn: Button, held_ms: u64) -> Option<Action> {
    let mut controller = Controller::new();
    let pressed_at = 10_000;
    assert_eq!(
        controller.next_action(Some(ControllerEvent::ButtonPressed(btn)), pressed_at),
        None
    );
    controller.next_action(Some(ControllerEvent::ButtonReleased(btn)), pressed_at + held_ms)
}

#[test]
fn short_hold_gives_the_short_press_and_long_hold_the_long_press() {
    assert_eq!(press_and_release(Button::South, 300), Some(Action::TogglePlayPause));
    assert_eq!(press_and_release(Button::South, 700), Some(Action::BreakLoop));
    assert_eq!(press_and_release(Button::West, 300), Some(Action::StartLoop));
    assert_eq!(press_and_release(Button::West, 700), Some(Action::PreviousCutmark));
}

#[test]
fn the_threshold_itself_is_still_a_short_press() {
    assert_eq!(LONG_PRESS_MS, 500);
    assert_eq!(press_and_release(Button::East, 500), Some(Action::EndLoop));
    assert_eq!(press_and_release(Button::East, 501), Some(Action::NextCutmark));
}

#[test]
fn long_hold_of_a_button_without_long_press_gives_its_short_press() {
    assert_eq!(press_and_release(Button::Start, 2_000), Some(Action::Exit));
    assert_eq!(
        press_and_release(Button::DPadUp, 2_000),
        Some(Action::CutCurrentLoop(Some(ClipType::Offense)))
    );
    assert_eq!(press_and_release(Button::Select, 2_000), None);
}

#[test]
fn release_of_another_button_than_the_last_pressed_is_short() {
    let mut controller = Controller::new();
    controller.next_action(Some(ControllerEvent::ButtonPressed(Button::South)), 0);
    controller.next_action(Some(ControllerEvent::ButtonPressed(Button::North)), 900);
    assert_eq!(
        controller.last_pressed(),
        Some(LastPressed { btn: Button::North, pressed_at: 900 })
    );
    assert_eq!(
        controller.next_action(Some(ControllerEvent::ButtonReleased(Button::South)), 1_000),
        Some(Action::TogglePlayPause)
    );
    assert_eq!(
        controller.next_action(Some(ControllerEvent::ButtonReleased(Button::North)), 1_500),
        Some(Action::ConcatClips)
    );
}

#[test]
fn release_without_any_press_is_short() {
    let mut controller = Controller::new();
    assert_eq!(
        controller.next_action(Some(ControllerEvent::ButtonReleased(Button::North)), 5_000),
        Some(Action::CutCurrentLoop(None))
    );
}

#[test]
fn triggers_forward_their_value() {
    let mut controller = Controller::new();
    let change = |btn, value| Some(ControllerEvent::ButtonChanged(btn, value));
    assert_eq!(controller.next_action(change(Button::LeftTrigger, 250), 0), Some(Action::Rewind(250)));
    assert_eq!(controller.next_action(change(Button::LeftTrigger2, 1000), 0), Some(Action::Rewind(1000)));
    assert_eq!(controller.next_action(change(Button::RightTrigger, 0), 0), Some(Action::Forward(0)));
    assert_eq!(controller.next_action(change(Button::RightTrigger2, 999), 0), Some(Action::Forward(999)));
    assert_eq!(controller.next_action(change(Button::South, 999), 0), None);
    assert_eq!(controller.next_action(Some(ControllerEvent::Other), 0), None);
    assert_eq!(controller.next_action(None, 0), None);
    assert_eq!(controller.last_pressed(), None);
}

#[test]
fn press_maps_are_as_listed() {
    assert_eq!(Controller::long_press_map(Button::DPadLeft), Some(Action::PreviousMedia));
    assert_eq!(Controller::long_press_map(Button::DPadRight), Some(Action::NextMedia));
    assert_eq!(Controller::long_press_map(Button::Start), None);
    assert_eq!(Controller::short_press_map(Button::DPadLeft), Some(Action::PreviousClip));
    assert_eq!(Controller::short_press_map(Button::DPadRight), Some(Action::NextClip));
    assert_eq!(Controller::short_press_map(Button::LeftTrigger), Some(Action::DecreaseSpeed));
    assert_eq!(Controller::short_press_map(Button::RightTrigger), Some(Action::IncreaseSpeed));
    assert_eq!(
        Controller::short_press_map(Button::DPadDown),
        Some(Action::CutCurrentLoop(Some(ClipType::Defense)))
    );
    assert_eq!(Controller::short_press_map(Button::Mode), None);
}
