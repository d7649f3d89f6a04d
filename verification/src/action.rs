//! The actions that an operator can ask of the session.

use vstd::prelude::*;
use crate::clip::ClipType;

verus! {

/// What the operator can ask of the session. `Rewind` and `Forward` carry the distance
/// to seek in milliseconds.
#[derive(Debug, Copy, Clone, PartialEq, Eq)]
pub enum Action {
    TogglePlayPause,
    Rewind(i64),
    Forward(i64),
    IncreaseSpeed,
    DecreaseSpeed,
    StartLoop,
    EndLoop,
    BreakLoop,
    CutCurrentLoop(Option<ClipType>),
    NextMedia,
    PreviousMedia,
    RestartMedia,
    NextClip,
    PreviousClip,
    RestartClip,
    ConcatClips,
    PreviousCutmark,
    NextCutmark,
    Stop,
    Exit,
}

/// The name under which a keymap configuration lists an action.
pub open spec fn action_name(action: Action) -> Seq<char> {
    match action {
        Action::TogglePlayPause => "TogglePlayPause"@,
        Action::Rewind(_) => "Rewind"@,
        Action::Forward(_) => "Forward"@,
        Action::IncreaseSpeed => "IncreaseSpeed"@,
        Action::DecreaseSpeed => "DecreaseSpeed"@,
        Action::StartLoop => "StartLoop"@,
        Action::EndLoop => "EndLoop"@,
        Action::BreakLoop => "BreakLoop"@,
        Action::CutCurrentLoop(Some(ClipType::Offense)) => "CutLoop_Offense"@,
        Action::CutCurrentLoop(Some(ClipType::Defense)) => "CutLoop_Defense"@,
        Action::CutCurrentLoop(None) => "CutLoop"@,
        Action::NextMedia => "NextMedia"@,
        Action::PreviousMedia => "PreviousMedia"@,
        Action::RestartMedia => "RestartMedia"@,
        Action::NextClip => "NextClip"@,
        Action::PreviousClip => "PreviousClip"@,
        Action::RestartClip => "RestartClip"@,
        Action::ConcatClips => "ConcatClips"@,
        Action::PreviousCutmark => "PreviousCutmark"@,
        Action::NextCutmark => "NextCutmarks"@,
        Action::Stop => "Stop"@,
        Action::Exit => "Exit"@,
    }
}

impl Action {
    /// The name under which a keymap configuration lists this action.
    pub fn name(&self) -> (r: &'static str)
        ensures
            r@ == action_name(*self),
    {
        match self {
            Action::TogglePlayPause => "TogglePlayPause",
            Action::Rewind(_) => "Rewind",
            Action::Forward(_) => "Forward",
            Action::IncreaseSpeed => "IncreaseSpeed",
            Action::DecreaseSpeed => "DecreaseSpeed",
            Action::StartLoop => "StartLoop",
            Action::EndLoop => "EndLoop",
            Action::BreakLoop => "BreakLoop",
            Action::CutCurrentLoop(Some(ClipType::Offense)) => "CutLoop_Offense",
            Action::CutCurrentLoop(Some(ClipType::Defense)) => "CutLoop_Defense",
            Action::CutCurrentLoop(None) => "CutLoop",
            Action::NextMedia => "NextMedia",
            Action::PreviousMedia => "PreviousMedia",
            Action::RestartMedia => "RestartMedia",
            Action::NextClip => "NextClip",
            Action::PreviousClip => "PreviousClip",
            Action::RestartClip => "RestartClip",
            Action::ConcatClips => "ConcatClips",
            Action::PreviousCutmark => "PreviousCutmark",
            Action::NextCutmark => "NextCutmarks",
            Action::Stop => "Stop",
            Action::Exit => "Exit",
        }
    }
}

/// Whether the action looks at the time of the playback when it acts on loop markers,
/// clips or cutmarks.
pub open spec fn reads_time(action: Action) -> bool {
    action == Action::StartLoop || action == Action::EndLoop || action == Action::NextClip
        || action == Action::PreviousClip || action == Action::RestartClip || action
        == Action::NextCutmark || action == Action::PreviousCutmark
}

/// Whether the action is still handled where the player has no time to give: the two
/// that set a loop marker, which then leave the markers alone.
pub open spec fn goes_without_time(action: Action) -> bool {
    action == Action::StartLoop || action == Action::EndLoop
}

impl Action {
    /// Whether the action looks at the time of the playback.
    pub fn needs_time(&self) -> (b: bool)
        ensures
            b == reads_time(*self),
    {
        match self {
            Action::StartLoop
            | Action::EndLoop
            | Action::NextClip
            | Action::PreviousClip
            | Action::RestartClip
            | Action::NextCutmark
            | Action::PreviousCutmark => true,
            _ => false,
        }
    }

    /// Whether the action is still handled where the player has no time to give.
    pub fn tolerates_missing_time(&self) -> (b: bool)
        ensures
            b == goes_without_time(*self),
    {
        match self {
            Action::StartLoop | Action::EndLoop => true,
            _ => false,
        }
    }
}

} // verus!
