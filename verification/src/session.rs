//! The playback session: the state that the actions change, and what each action does.

use vstd::prelude::*;
use vstd::string::*;
use crate::action::{goes_without_time, reads_time, Action};
use crate::clip::{clip_file_name, clip_name, ClipType};
use crate::effect::{
    effect_views, ClipJob, ClipJobView, ConcatJob, ConcatJobView, Effect, EffectView, Notice,
};
use crate::markers::{markers_after_end, markers_after_start, LoopMarkers};
use crate::playlist::{media_among, MediaPlaylist, PlaylistView};
use crate::text::{file_name, file_name_of};
use crate::timeline::{
    current_mark, inserted, next_mark, previous_mark, strictly_ascending, Timeline,
};

verus! {

/// What the media player reports of itself when an action arrives.
#[derive(Debug, Copy, Clone, PartialEq, Eq)]
pub struct PlayerStatus {
    /// The current time of the playback in milliseconds, where the player has one.
    pub time: Option<u64>,
    /// Whether the player is playing.
    pub playing: bool,
}

/// The answer to `Action::Exit`: the session is to end, and nothing has gone wrong.
#[derive(Debug, Copy, Clone, PartialEq, Eq)]
pub struct ExitRequested;

/// Why a session could not be set up on a directory.
#[derive(Debug, Copy, Clone, PartialEq, Eq)]
pub enum SessionError {
    /// The directory holds no media file.
    NoMedia,
}

/// What a session holds.
pub struct SessionView {
    pub playlist: PlaylistView,
    pub clips: Seq<u64>,
    pub cutmarks: Seq<u64>,
    pub markers: LoopMarkers,
}

/// What one action does: the session after it, what it asks of the surroundings, in
/// order, and whether it ends the session.
pub struct Step {
    pub next: SessionView,
    pub effects: Seq<EffectView>,
    pub exit: bool,
}

/// The directory of the clips cut from the media at `path`.
pub open spec fn clips_dir_of(path: Seq<char>) -> Seq<char> {
    path + "_clips"@
}

/// The directory of the reels made of the clips of the media at `path`.
pub open spec fn condensed_dir_of(path: Seq<char>) -> Seq<char> {
    path + "_condensed"@
}

/// The effects that load the media at `path` and start it.
pub open spec fn load_effects(path: Seq<char>) -> Seq<EffectView> {
    seq![EffectView::LoadMedia(path), EffectView::Play]
}

/// A seek to `target` where there is one, and nothing else.
pub open spec fn seek_effects(target: Option<u64>) -> Seq<EffectView> {
    match target {
        Some(t) => seq![EffectView::SeekTo(t)],
        None => Seq::<EffectView>::empty(),
    }
}

impl SessionView {
    /// The invariant of a session.
    pub open spec fn wf(self) -> bool {
        &&& self.playlist.wf()
        &&& strictly_ascending(self.clips)
        &&& strictly_ascending(self.cutmarks)
        &&& self.markers.wf()
    }

    /// The session as it begins on a playlist: no clips, no cutmarks, markers unset.
    pub open spec fn fresh(playlist: PlaylistView) -> SessionView {
        SessionView {
            playlist,
            clips: Seq::<u64>::empty(),
            cutmarks: Seq::<u64>::empty(),
            markers: LoopMarkers { loop_start: None, loop_end: None },
        }
    }

    /// The same session with other markers.
    pub open spec fn with_markers(self, markers: LoopMarkers) -> SessionView {
        SessionView { markers, ..self }
    }

    /// A step that changes nothing in the session.
    pub open spec fn stay(self, effects: Seq<EffectView>) -> Step {
        Step { next: self, effects, exit: false }
    }

    /// The step to another place of the playlist: the media there is loaded and started,
    /// and clips, cutmarks and markers begin anew.
    pub open spec fn change_media(self, playlist: PlaylistView) -> Step {
        Step {
            next: SessionView::fresh(playlist),
            effects: load_effects(playlist.current()),
            exit: false,
        }
    }

    /// The step to the next media of the playlist.
    pub open spec fn next_media(self) -> Step {
        self.change_media(self.playlist.advanced())
    }

    /// The step to the media before the current one.
    pub open spec fn previous_media(self) -> Step {
        self.change_media(self.playlist.receded())
    }

    /// The step that starts the current media again.
    pub open spec fn restart_media(self) -> Step {
        self.stay(seq![EffectView::SeekTo(0)])
    }

    /// The extraction of the range between the markers from the current media.
    pub open spec fn clip_job(self, tag: Option<ClipType>) -> ClipJobView {
        let path = self.playlist.current();
        let start = self.markers.loop_start.unwrap();
        let end = self.markers.loop_end.unwrap();
        ClipJobView {
            source: path,
            clips_dir: clips_dir_of(path),
            file_name: clip_name(file_name_of(path), start, tag),
            start_ms: start,
            duration_ms: (end - start) as u64,
            tag,
        }
    }

    /// The concatenation of the clips of the current media.
    pub open spec fn concat_job(self) -> ConcatJobView {
        let path = self.playlist.current();
        ConcatJobView { clips_dir: clips_dir_of(path), condensed_dir: condensed_dir_of(path) }
    }

    /// What the regular check of the loop's end does at the time `now`: where the end
    /// marker is set and reached, the player is sent back to the start marker.
    pub open spec fn loop_check(self, now: u64) -> Seq<EffectView> {
        if self.markers.reached_end(now) {
            seq![EffectView::SeekToLoopStart(self.markers.loop_start)]
        } else {
            Seq::<EffectView>::empty()
        }
    }

    /// Whether `action` looks at the time of the playback in this session: an action on
    /// clips does so only where there are clips.
    pub open spec fn needs_time(self, action: Action) -> bool {
        reads_time(action) && !(self.clips.len() == 0 && (action == Action::NextClip || action
            == Action::PreviousClip || action == Action::RestartClip))
    }

    /// The markers after `action` put one of them at the time that the player gave; they
    /// stay as they are where it gave none.
    pub open spec fn markers_set(self, action: Action, time: Option<u64>) -> LoopMarkers {
        match time {
            Some(now) => if action == Action::StartLoop {
                markers_after_start(self.markers, now)
            } else {
                markers_after_end(self.markers, now)
            },
            None => self.markers,
        }
    }

    /// What `action` does to the session when the player reports `status`. An action
    /// that needs the time gets it from `status`; the two that set a marker leave the
    /// markers alone where there is none.
    pub open spec fn step(self, action: Action, status: PlayerStatus) -> Step {
        let now = status.time.unwrap();
        match action {
            Action::TogglePlayPause => self.stay(
                if status.playing {
                    seq![EffectView::Pause]
                } else {
                    seq![EffectView::Play]
                },
            ),
            Action::Forward(distance) => self.stay(seq![EffectView::SeekForward(distance)]),
            Action::Rewind(distance) => self.stay(seq![EffectView::SeekBackward(distance)]),
            Action::IncreaseSpeed => self.stay(seq![EffectView::IncreaseSpeed]),
            Action::DecreaseSpeed => self.stay(seq![EffectView::DecreaseSpeed]),
            Action::StartLoop => Step {
                next: self.with_markers(self.markers_set(action, status.time)),
                effects: seq![EffectView::Notify(Notice::StartLoop)],
                exit: false,
            },
            Action::EndLoop => {
                let markers = self.markers_set(action, status.time);
                Step {
                    next: self.with_markers(markers),
                    effects: seq![
                        EffectView::Notify(Notice::EndLoop),
                        EffectView::SeekToLoopStart(markers.loop_start),
                    ],
                    exit: false,
                }
            },
            Action::BreakLoop => Step {
                next: self.with_markers(
                    LoopMarkers { loop_start: self.markers.loop_start, loop_end: None },
                ),
                effects: seq![EffectView::Notify(Notice::BreakLoop)],
                exit: false,
            },
            Action::CutCurrentLoop(tag) => Step {
                next: SessionView {
                    clips: inserted(self.clips, self.markers.loop_start.unwrap()),
                    markers: LoopMarkers { loop_start: None, loop_end: None },
                    ..self
                },
                effects: seq![EffectView::ExtractClip(self.clip_job(tag))],
                exit: false,
            },
            Action::ConcatClips => self.stay(seq![EffectView::ConcatClips(self.concat_job())]),
            Action::NextClip => if self.clips.len() == 0 {
                self.next_media()
            } else {
                self.stay(seek_effects(next_mark(self.clips, now)))
            },
            Action::PreviousClip => if self.clips.len() == 0 {
                self.previous_media()
            } else {
                self.stay(seek_effects(previous_mark(self.clips, now)))
            },
            Action::RestartClip => if self.clips.len() == 0 {
                self.restart_media()
            } else {
                self.stay(seek_effects(current_mark(self.clips, now)))
            },
            Action::PreviousCutmark => self.stay(
                match previous_mark(self.cutmarks, now) {
                    Some(t) => seq![
                        EffectView::SeekTo(t),
                        EffectView::Notify(Notice::PreviousCutmark),
                    ],
                    None => Seq::<EffectView>::empty(),
                },
            ),
            Action::NextCutmark => self.stay(
                match next_mark(self.cutmarks, now) {
                    Some(t) => seq![
                        EffectView::SeekTo(t),
                        EffectView::Play,
                        EffectView::Notify(Notice::NextCutmark),
                    ],
                    None => Seq::<EffectView>::empty(),
                },
            ),
            Action::NextMedia | Action::Stop => self.next_media(),
            Action::PreviousMedia => self.previous_media(),
            Action::RestartMedia => self.restart_media(),
            Action::Exit => Step { next: self, effects: Seq::<EffectView>::empty(), exit: true },
        }
    }

    /// Whether `action` may be handled in this session when the player reports
    /// `status`: a cut needs both markers set, the end after the start, and an action
    /// that needs the time needs the player to have one, but for the two that set a
    /// marker.
    pub open spec fn admits(self, action: Action, status: PlayerStatus) -> bool {
        &&& action is CutCurrentLoop ==> self.markers.cuttable()
        &&& self.needs_time(action) && !goes_without_time(action) ==> status.time is Some
    }
}

/// The playback session: the playlist with its cursor, the clips and cutmarks of the
/// current media, and the loop markers.
#[derive(Debug, PartialEq, Eq)]
pub struct Session {
    playlist: MediaPlaylist,
    clips: Timeline,
    cutmarks: Timeline,
    markers: LoopMarkers,
}

impl View for Session {
    type V = SessionView;

    closed spec fn view(&self) -> SessionView {
        SessionView {
            playlist: self.playlist@,
            clips: self.clips@,
            cutmarks: self.cutmarks@,
            markers: self.markers,
        }
    }
}

/// A seek to `target` where there is one, and nothing else.
fn seek(target: Option<u64>) -> (v: Vec<Effect>)
    ensures
        effect_views(v@) == seek_effects(target),
{
    let v = match target {
        Some(t) => vec![Effect::SeekTo(t)],
        None => Vec::new(),
    };
    assert(effect_views(v@) =~= seek_effects(target));
    v
}

/// The effects that load the media at `path` and start it.
fn load(path: &String) -> (v: Vec<Effect>)
    ensures
        effect_views(v@) == load_effects(path@),
{
    let v = vec![Effect::LoadMedia(path.clone()), Effect::Play];
    assert(effect_views(v@) =~= load_effects(path@));
    v
}

/// The one effect `effect`.
fn only(effect: Effect) -> (v: Vec<Effect>)
    ensures
        effect_views(v@) == seq![effect@],
{
    let v = vec![effect];
    assert(effect_views(v@) =~= seq![effect@]);
    v
}

/// `path` with `tail` behind it.
fn with_tail(path: &String, tail: &str) -> (r: String)
    ensures
        r@ == path@ + tail@,
{
    let mut r = path.clone();
    r.append(tail);
    r
}

impl Session {
    /// The invariant of the type.
    pub open spec fn wf(&self) -> bool {
        self@.wf()
    }

    /// Sets up a session on the media files among `candidates`, the paths found in the
    /// project directory, and asks for the first of them to be played. It fails where
    /// no candidate is a media file.
    pub fn new(candidates: &Vec<String>) -> (r: Result<(Session, Vec<Effect>), SessionError>)
        ensures
            r is Err <==> media_among(candidates.deep_view()).len() == 0,
            r matches Ok((session, effects)) ==> {
                &&& session.wf()
                &&& session@ == SessionView::fresh(session@.playlist)
                &&& session@.playlist.cursor == 0
                &&& session@.playlist.paths.to_multiset() == media_among(
                    candidates.deep_view(),
                ).to_multiset()
                &&& effect_views(effects@) == load_effects(session@.playlist.current())
            },
    {
        match MediaPlaylist::new(candidates) {
            Some(playlist) => {
                let effects = load(playlist.current());
                let session = Session {
                    playlist,
                    clips: Timeline::new(),
                    cutmarks: Timeline::new(),
                    markers: LoopMarkers::unset(),
                };
                Ok((session, effects))
            },
            None => Err(SessionError::NoMedia),
        }
    }

    /// Moves the session to the media files among `candidates`, the paths found in
    /// another project directory, and asks for the first of them to be played. Where no
    /// candidate is a media file it fails and the session stays as it is.
    pub fn set_project_directory(&mut self, candidates: &Vec<String>) -> (r: Result<
        Vec<Effect>,
        SessionError,
    >)
        requires
            old(self).wf(),
        ensures
            final(self).wf(),
            r is Err <==> media_among(candidates.deep_view()).len() == 0,
            r is Err ==> final(self)@ == old(self)@,
            r matches Ok(effects) ==> {
                &&& final(self)@ == SessionView::fresh(final(self)@.playlist)
                &&& final(self)@.playlist.cursor == 0
                &&& final(self)@.playlist.paths.to_multiset() == media_among(
                    candidates.deep_view(),
                ).to_multiset()
                &&& effect_views(effects@) == load_effects(final(self)@.playlist.current())
            },
    {
        match MediaPlaylist::new(candidates) {
            Some(playlist) => {
                let effects = load(playlist.current());
                self.playlist = playlist;
                self.clips = Timeline::new();
                self.cutmarks = Timeline::new();
                self.markers = LoopMarkers::unset();
                Ok(effects)
            },
            None => Err(SessionError::NoMedia),
        }
    }

    /// Replaces the cutmarks by the times in `times`.
    pub fn set_cutmarks(&mut self, times: &Vec<u64>)
        requires
            old(self).wf(),
        ensures
            final(self).wf(),
            final(self)@ == (SessionView { cutmarks: final(self)@.cutmarks, ..old(self)@ }),
            forall|t: u64| final(self)@.cutmarks.contains(t) <==> times@.contains(t),
    {
        self.cutmarks = Timeline::from_vec(times);
    }

    /// The regular check of the loop's end at the time `now`.
    pub fn check_loop_end(&self, now: u64) -> (effects: Vec<Effect>)
        ensures
            effect_views(effects@) == self@.loop_check(now),
    {
        if self.markers.has_reached_end(now) {
            only(Effect::SeekToLoopStart(self.markers.loop_start))
        } else {
            let v = Vec::new();
            assert(effect_views(v@) =~= Seq::<EffectView>::empty());
            v
        }
    }

    /// The loop markers.
    pub fn markers(&self) -> (m: LoopMarkers)
        ensures
            m == self@.markers,
    {
        self.markers
    }

    /// The start times of the clips cut from the current media, ascending.
    pub fn clips(&self) -> (v: Vec<u64>)
        ensures
            v@ == self@.clips,
    {
        self.clips.to_vec()
    }

    /// The cutmarks of the current media, ascending.
    pub fn cutmarks(&self) -> (v: Vec<u64>)
        ensures
            v@ == self@.cutmarks,
    {
        self.cutmarks.to_vec()
    }

    /// The playlist.
    pub fn playlist(&self) -> (p: &MediaPlaylist)
        ensures
            p@ == self@.playlist,
    {
        &self.playlist
    }

    /// The path of the current media.
    pub fn current_media_path(&self) -> (path: &String)
        requires
            self.wf(),
        ensures
            path@ == self@.playlist.current(),
    {
        self.playlist.current()
    }

    /// Whether a cut may be asked for: both markers set, the end after the start.
    pub fn can_cut(&self) -> (b: bool)
        ensures
            b == self@.markers.cuttable(),
            b ==> forall|tag: Option<ClipType>, status: PlayerStatus|
                self@.admits(Action::CutCurrentLoop(tag), status),
    {
        self.markers.can_cut()
    }

    /// Whether `action` may be handled when the player reports `status`.
    pub fn admits(&self, action: Action, status: PlayerStatus) -> (b: bool)
        ensures
            b == self@.admits(action, status),
    {
        let cut_allowed = match action {
            Action::CutCurrentLoop(_) => self.markers.can_cut(),
            _ => true,
        };
        let on_clips = match action {
            Action::NextClip | Action::PreviousClip | Action::RestartClip => true,
            _ => false,
        };
        let needs_time = action.needs_time() && !(on_clips && self.clips.is_empty());
        let time_allowed = !needs_time || action.tolerates_missing_time()
            || status.time.is_some();
        cut_allowed && time_allowed
    }

    /// Loads the media under the cursor and begins anew with clips, cutmarks and markers.
    fn begin_media(&mut self) -> (effects: Vec<Effect>)
        requires
            old(self)@.playlist.wf(),
        ensures
            final(self)@ == SessionView::fresh(old(self)@.playlist),
            effect_views(effects@) == load_effects(old(self)@.playlist.current()),
            final(self).wf(),
    {
        self.clips = Timeline::new();
        self.cutmarks = Timeline::new();
        self.markers = LoopMarkers::unset();
        load(self.playlist.current())
    }

    /// The extraction of the range between the markers from the current media.
    fn make_clip_job(&self, tag: Option<ClipType>) -> (job: ClipJob)
        requires
            self.wf(),
            self@.markers.cuttable(),
        ensures
            job@ == self@.clip_job(tag),
    {
        let path = self.playlist.current();
        let start = self.markers.loop_start.unwrap();
        let end = self.markers.loop_end.unwrap();
        ClipJob {
            source: path.clone(),
            clips_dir: with_tail(path, "_clips"),
            file_name: clip_file_name(file_name(path.as_str()), start, tag),
            start_ms: start,
            duration_ms: end - start,
            tag,
        }
    }

    /// The concatenation of the clips of the current media.
    fn make_concat_job(&self) -> (job: ConcatJob)
        requires
            self.wf(),
        ensures
            job@ == self@.concat_job(),
    {
        let path = self.playlist.current();
        ConcatJob {
            clips_dir: with_tail(path, "_clips"),
            condensed_dir: with_tail(path, "_condensed"),
        }
    }

    /// Handles one action, given what the player reports at that moment. It returns
    /// what is to be done, in order, or that the session is to end. A cut has to be
    /// allowed by the markers, and an action that needs the time of the playback has to
    /// get one, but for the two that set a marker: `admits` tells.
    pub fn handle(&mut self, action: Action, status: PlayerStatus) -> (r: Result<
        Vec<Effect>,
        ExitRequested,
    >)
        requires
            old(self).wf(),
            old(self)@.admits(action, status),
        ensures
            final(self).wf(),
            final(self)@ == old(self)@.step(action, status).next,
            r is Err <==> action == Action::Exit,
            r is Err <==> old(self)@.step(action, status).exit,
            r matches Ok(effects) ==> effect_views(effects@) == old(self)@.step(
                action,
                status,
            ).effects,
    {
        match action {
            Action::TogglePlayPause => {
                if status.playing {
                    Ok(only(Effect::Pause))
                } else {
                    Ok(only(Effect::Play))
                }
            },
            Action::Forward(distance) => Ok(only(Effect::SeekForward(distance))),
            Action::Rewind(distance) => Ok(only(Effect::SeekBackward(distance))),
            Action::IncreaseSpeed => Ok(only(Effect::IncreaseSpeed)),
            Action::DecreaseSpeed => Ok(only(Effect::DecreaseSpeed)),
            Action::StartLoop => {
                match status.time {
                    Some(now) => self.markers.start_at(now),
                    None => {},
                }
                Ok(only(Effect::Notify(Notice::StartLoop)))
            },
            Action::EndLoop => {
                match status.time {
                    Some(now) => self.markers.end_at(now),
                    None => {},
                }
                let v = vec![
                    Effect::Notify(Notice::EndLoop),
                    Effect::SeekToLoopStart(self.markers.loop_start),
                ];
                assert(effect_views(v@) =~= old(self)@.step(action, status).effects);
                Ok(v)
            },
            Action::BreakLoop => {
                self.markers.break_loop();
                Ok(only(Effect::Notify(Notice::BreakLoop)))
            },
            Action::CutCurrentLoop(tag) => {
                let job = self.make_clip_job(tag);
                let start = self.markers.loop_start.unwrap();
                self.clips.insert(start);
                self.markers.reset();
                Ok(only(Effect::ExtractClip(job)))
            },
            Action::ConcatClips => {
                let job = self.make_concat_job();
                Ok(only(Effect::ConcatClips(job)))
            },
            Action::NextClip => {
                if self.clips.is_empty() {
                    self.playlist.advance();
                    Ok(self.begin_media())
                } else {
                    Ok(seek(self.clips.next_from(status.time.unwrap())))
                }
            },
            Action::PreviousClip => {
                if self.clips.is_empty() {
                    self.playlist.recede();
                    Ok(self.begin_media())
                } else {
                    Ok(seek(self.clips.previous_from(status.time.unwrap())))
                }
            },
            Action::RestartClip => {
                if self.clips.is_empty() {
                    Ok(only(Effect::SeekTo(0)))
                } else {
                    Ok(seek(self.clips.current_from(status.time.unwrap())))
                }
            },
            Action::PreviousCutmark => {
                let v = match self.cutmarks.previous_from(status.time.unwrap()) {
                    Some(t) => vec![Effect::SeekTo(t), Effect::Notify(Notice::PreviousCutmark)],
                    None => Vec::new(),
                };
                assert(effect_views(v@) =~= old(self)@.step(action, status).effects);
                Ok(v)
            },
            Action::NextCutmark => {
                let v = match self.cutmarks.next_from(status.time.unwrap()) {
                    Some(t) => vec![
                        Effect::SeekTo(t),
                        Effect::Play,
                        Effect::Notify(Notice::NextCutmark),
                    ],
                    None => Vec::new(),
                };
                assert(effect_views(v@) =~= old(self)@.step(action, status).effects);
                Ok(v)
            },
            Action::NextMedia | Action::Stop => {
                self.playlist.advance();
                Ok(self.begin_media())
            },
            Action::PreviousMedia => {
                self.playlist.recede();
                Ok(self.begin_media())
            },
            Action::RestartMedia => Ok(only(Effect::SeekTo(0))),
            Action::Exit => Err(ExitRequested),
        }
    }
}

/// The marks after the times of `starts` are put in, one after the other.
pub open spec fn marks_after(marks: Seq<u64>, starts: Seq<u64>) -> Seq<u64>
    decreases starts.len(),
{
    if starts.len() == 0 {
        marks
    } else {
        inserted(marks_after(marks, starts.drop_last()), starts.last())
    }
}

/// The session after `n` steps to the media before the current one.
pub open spec fn previous_media_times(s: SessionView, n: nat) -> SessionView
    decreases n,
{
    if n == 0 {
        s
    } else {
        previous_media_times(s.previous_media().next, (n - 1) as nat)
    }
}

/// Ascending times put into an empty set of marks give exactly those times.
pub proof fn lemma_marks_after_ascending(starts: Seq<u64>)
    requires
        strictly_ascending(starts),
    ensures
        marks_after(Seq::<u64>::empty(), starts) == starts,
    decreases starts.len(),
{
    if starts.len() > 0 {
        let head = starts.drop_last();
        let t = starts.last();
        assert(forall|i: int| 0 <= i < head.len() ==> head[i] == starts[i]);
        lemma_marks_after_ascending(head);
        assert(!head.contains(t)) by {
            if head.contains(t) {
                let i = choose|i: int| 0 <= i < head.len() && head[i] == t;
                assert(starts[i] < starts[starts.len() - 1]);
            }
        }
        assert forall|i: int| 0 <= i < head.len() implies head[i] < t by {
            assert(starts[i] < starts[starts.len() - 1]);
        }
        crate::timeline::lemma_count_before_is(head, t, head.len() as int);
        assert(head.insert(head.len() as int, t) =~= starts);
    } else {
        assert(starts =~= Seq::<u64>::empty());
    }
}

/// After cuts at ascending times, at least one of them, the step to the next clip from
/// the time `x` seeks to the smallest of those times that is not before `x`, and does
/// nothing where all of them are before `x`. The session stays as it is.
pub proof fn lemma_next_clip_after_cuts(s: SessionView, starts: Seq<u64>, status: PlayerStatus)
    requires
        s.wf(),
        strictly_ascending(starts),
        starts.len() > 0,
        s.clips == marks_after(Seq::<u64>::empty(), starts),
        status.time is Some,
    ensures
        s.step(Action::NextClip, status).next == s,
        !s.step(Action::NextClip, status).exit,
        match next_mark(starts, status.time.unwrap()) {
            Some(t) => {
                &&& starts.contains(t)
                &&& t >= status.time.unwrap()
                &&& forall|u: u64| starts.contains(u) && u >= status.time.unwrap() ==> t <= u
                &&& s.step(Action::NextClip, status).effects == seq![EffectView::SeekTo(t)]
            },
            None => {
                &&& forall|u: u64| starts.contains(u) ==> u < status.time.unwrap()
                &&& s.step(Action::NextClip, status).effects == Seq::<EffectView>::empty()
            },
        },
{
    lemma_marks_after_ascending(starts);
    crate::timeline::lemma_next_mark(starts, status.time.unwrap());
}

/// Without clips the steps over clips are the steps over media.
pub proof fn lemma_no_clips_means_media(s: SessionView, status: PlayerStatus)
    requires
        s.clips.len() == 0,
    ensures
        s.step(Action::PreviousClip, status) == s.step(Action::PreviousMedia, status),
        s.step(Action::NextClip, status) == s.step(Action::NextMedia, status),
        s.step(Action::RestartClip, status) == s.step(Action::RestartMedia, status),
{
}

/// From a time at or after the last clip, the step to the previous clip seeks to the
/// clip before the last one, and to the last one where it is the only clip.
pub proof fn lemma_previous_clip_from_the_end(s: SessionView, status: PlayerStatus)
    requires
        s.wf(),
        s.clips.len() > 0,
        status.time is Some,
        status.time.unwrap() >= s.clips.last(),
    ensures
        s.step(Action::PreviousClip, status).next == s,
        s.clips.len() == 1 ==> s.step(Action::PreviousClip, status).effects == seq![
            EffectView::SeekTo(s.clips.last()),
        ],
        s.clips.len() >= 2 ==> s.step(Action::PreviousClip, status).effects == seq![
            EffectView::SeekTo(s.clips[s.clips.len() - 2]),
        ],
{
    let n = s.clips.len() as int;
    assert forall|i: int| 0 <= i < n implies s.clips[i] <= status.time.unwrap() by {
        if i < n - 1 {
            assert(s.clips[i] < s.clips[n - 1]);
        }
    }
    crate::timeline::lemma_count_up_to_is(s.clips, status.time.unwrap(), n);
}

/// As many steps to the previous media as the playlist has paths lead back to the media
/// one began on.
pub proof fn lemma_previous_media_full_circle(s: SessionView)
    requires
        s.wf(),
    ensures
        previous_media_times(s, s.playlist.paths.len()).playlist == s.playlist,
{
    lemma_previous_media_times(s, s.playlist.paths.len());
    crate::playlist::lemma_recede_full_circle(s.playlist);
}

/// Steps to the previous media move the playlist's cursor back and nothing else in it.
pub proof fn lemma_previous_media_times(s: SessionView, n: nat)
    requires
        s.wf(),
    ensures
        previous_media_times(s, n).playlist == s.playlist.receded_times(n),
    decreases n,
{
    if n > 0 {
        let next = s.previous_media().next;
        assert(next.playlist == s.playlist.receded());
        assert(next.wf());
        lemma_previous_media_times(next, (n - 1) as nat);
    }
}

/// Every step keeps the session well-formed: the playlist stays sorted with its cursor
/// inside, clips and cutmarks stay ascending, and where both markers are set the end
/// lies after the start.
pub proof fn lemma_step_keeps_wf(s: SessionView, action: Action, status: PlayerStatus)
    requires
        s.wf(),
        s.admits(action, status),
    ensures
        s.step(action, status).next.wf(),
{
    if action is CutCurrentLoop {
        crate::timeline::lemma_inserted(s.clips, s.markers.loop_start.unwrap());
    }
}

/// The markers are unset after every cut and after every change of the media.
pub proof fn lemma_markers_are_reset(s: SessionView, action: Action, status: PlayerStatus)
    requires
        s.wf(),
        s.admits(action, status),
        action is CutCurrentLoop || action == Action::NextMedia || action == Action::Stop
            || action == Action::PreviousMedia,
    ensures
        s.step(action, status).next.markers == (LoopMarkers { loop_start: None, loop_end: None }),
{
}

} // verus!
