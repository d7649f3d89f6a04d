//! What the session asks of its surroundings.

use vstd::prelude::*;
use crate::clip::ClipType;

verus! {

/// A short message for the operator.
#[derive(Debug, Copy, Clone, PartialEq, Eq)]
pub enum Notice {
    StartLoop,
    EndLoop,
    BreakLoop,
    PreviousCutmark,
    NextCutmark,
    ClipCut(Option<ClipType>),
    ClipFailed,
    Concatenating,
    ConcatFailed,
}

/// The text of a notice.
pub open spec fn notice_text(notice: Notice) -> Seq<char> {
    match notice {
        Notice::StartLoop => "start loop"@,
        Notice::EndLoop => "end loop"@,
        Notice::BreakLoop => "break loop"@,
        Notice::PreviousCutmark => "Previous Cutmark"@,
        Notice::NextCutmark => "Next Cutmark"@,
        Notice::ClipCut(Some(ClipType::Offense)) => "cut clip as Offense"@,
        Notice::ClipCut(Some(ClipType::Defense)) => "cut clip as Defense"@,
        Notice::ClipCut(None) => "cut clip"@,
        Notice::ClipFailed => "error on creating clip"@,
        Notice::Concatenating => "concatenating clips"@,
        Notice::ConcatFailed => "error concatenating"@,
    }
}

impl Notice {
    /// The text of the notice.
    pub fn text(&self) -> (r: &'static str)
        ensures
            r@ == notice_text(*self),
    {
        match self {
            Notice::StartLoop => "start loop",
            Notice::EndLoop => "end loop",
            Notice::BreakLoop => "break loop",
            Notice::PreviousCutmark => "Previous Cutmark",
            Notice::NextCutmark => "Next Cutmark",
            Notice::ClipCut(Some(ClipType::Offense)) => "cut clip as Offense",
            Notice::ClipCut(Some(ClipType::Defense)) => "cut clip as Defense",
            Notice::ClipCut(None) => "cut clip",
            Notice::ClipFailed => "error on creating clip",
            Notice::Concatenating => "concatenating clips",
            Notice::ConcatFailed => "error concatenating",
        }
    }

    /// The notice that follows the launch of a clip extraction: the cut with its
    /// category where the transcoder was launched, the failure where it was not.
    pub fn after_cut(tag: Option<ClipType>, launched: bool) -> (r: Notice)
        ensures
            r == if launched {
                Notice::ClipCut(tag)
            } else {
                Notice::ClipFailed
            },
    {
        if launched {
            Notice::ClipCut(tag)
        } else {
            Notice::ClipFailed
        }
    }

    /// The notice that follows a concatenation: that it ran, or that it failed.
    pub fn after_concat(succeeded: bool) -> (r: Notice)
        ensures
            r == if succeeded {
                Notice::Concatenating
            } else {
                Notice::ConcatFailed
            },
    {
        if succeeded {
            Notice::Concatenating
        } else {
            Notice::ConcatFailed
        }
    }
}

/// The extraction of one clip by the transcoder.
#[derive(Debug, Clone, PartialEq, Eq)]
pub struct ClipJob {
    /// The media file to cut from.
    pub source: String,
    /// The directory of the clips, which is to exist before the transcoder starts.
    pub clips_dir: String,
    /// The clip's file name in that directory.
    pub file_name: String,
    /// Where the clip starts in the media, in milliseconds.
    pub start_ms: u64,
    /// How long the clip is, in milliseconds.
    pub duration_ms: u64,
    /// The category of the clip.
    pub tag: Option<ClipType>,
}

/// What a `ClipJob` holds.
pub struct ClipJobView {
    pub source: Seq<char>,
    pub clips_dir: Seq<char>,
    pub file_name: Seq<char>,
    pub start_ms: u64,
    pub duration_ms: u64,
    pub tag: Option<ClipType>,
}

impl View for ClipJob {
    type V = ClipJobView;

    open spec fn view(&self) -> ClipJobView {
        ClipJobView {
            source: self.source@,
            clips_dir: self.clips_dir@,
            file_name: self.file_name@,
            start_ms: self.start_ms,
            duration_ms: self.duration_ms,
            tag: self.tag,
        }
    }
}

/// The concatenation of the clips of one media file into its reels.
#[derive(Debug, Clone, PartialEq, Eq)]
pub struct ConcatJob {
    /// The directory of the clips, which is to exist before the transcoder starts.
    pub clips_dir: String,
    /// The directory of the reels, which is to exist before the transcoder starts.
    pub condensed_dir: String,
}

/// What a `ConcatJob` holds.
pub struct ConcatJobView {
    pub clips_dir: Seq<char>,
    pub condensed_dir: Seq<char>,
}

impl View for ConcatJob {
    type V = ConcatJobView;

    open spec fn view(&self) -> ConcatJobView {
        ConcatJobView { clips_dir: self.clips_dir@, condensed_dir: self.condensed_dir@ }
    }
}

/// What the session asks of its surroundings, the media player first of all.
#[derive(Debug, Clone, PartialEq, Eq)]
pub enum Effect {
    /// Start or resume playback.
    Play,
    /// Pause playback.
    Pause,
    /// Seek to a time in milliseconds.
    SeekTo(u64),
    /// Seek to the start marker of the loop; where it is unset, the player gets the
    /// unset position and answers it by its own rules.
    SeekToLoopStart(Option<u64>),
    /// Seek forward from the current time by a number of milliseconds.
    SeekForward(i64),
    /// Seek backward from the current time by a number of milliseconds.
    SeekBackward(i64),
    /// Raise the playback rate by a tenth.
    IncreaseSpeed,
    /// Lower the playback rate by a tenth.
    DecreaseSpeed,
    /// Load the media file at this path.
    LoadMedia(String),
    /// Launch the transcoder on a clip and go on without waiting for it.
    ExtractClip(ClipJob),
    /// Run the transcoder on the clips and wait for it.
    ConcatClips(ConcatJob),
    /// Show a message to the operator.
    Notify(Notice),
}

/// What an `Effect` holds.
pub enum EffectView {
    Play,
    Pause,
    SeekTo(u64),
    SeekToLoopStart(Option<u64>),
    SeekForward(i64),
    SeekBackward(i64),
    IncreaseSpeed,
    DecreaseSpeed,
    LoadMedia(Seq<char>),
    ExtractClip(ClipJobView),
    ConcatClips(ConcatJobView),
    Notify(Notice),
}

impl View for Effect {
    type V = EffectView;

    open spec fn view(&self) -> EffectView {
        match self {
            Effect::Play => EffectView::Play,
            Effect::Pause => EffectView::Pause,
            Effect::SeekTo(t) => EffectView::SeekTo(*t),
            Effect::SeekToLoopStart(t) => EffectView::SeekToLoopStart(*t),
            Effect::SeekForward(d) => EffectView::SeekForward(*d),
            Effect::SeekBackward(d) => EffectView::SeekBackward(*d),
            Effect::IncreaseSpeed => EffectView::IncreaseSpeed,
            Effect::DecreaseSpeed => EffectView::DecreaseSpeed,
            Effect::LoadMedia(path) => EffectView::LoadMedia(path@),
            Effect::ExtractClip(job) => EffectView::ExtractClip(job@),
            Effect::ConcatClips(job) => EffectView::ConcatClips(job@),
            Effect::Notify(notice) => EffectView::Notify(*notice),
        }
    }
}

/// What a list of effects holds, in its order.
pub open spec fn effect_views(effects: Seq<Effect>) -> Seq<EffectView> {
    Seq::new(effects.len(), |i: int| effects[i]@)
}

} // verus!
