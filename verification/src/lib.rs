//! The playback session of a clip cutter: an operator scrubs through a cyclic playlist
//! of media files, marks loops, cuts them out as clips and joins the clips into reels.
//! The session decides; its surroundings play, seek and run the transcoder.

use vstd::prelude::*;

pub mod clip;
pub mod timeline;
pub mod markers;
pub mod action;
pub mod text;
pub mod playlist;
pub mod effect;
pub mod session;
pub mod controller;
pub mod key;
pub mod keymap;
pub mod config;
pub mod ffmpeg;
pub mod number;
pub mod cutmarks;
pub mod analyzer;
pub mod zooming;

use crate::action::Action;
use crate::effect::{effect_views, Effect, EffectView};
use crate::session::{PlayerStatus, Session, SessionView};

verus! {

/// What the window loop hands to the session, each with what the player reported at
/// that moment.
#[derive(Debug, Copy, Clone, PartialEq, Eq)]
pub enum Event {
    /// The regular tick, with the current time of the playback in milliseconds.
    Tick(u64),
    /// An action from the keyboard, the controller or the window.
    Input(Action, PlayerStatus),
}

/// How a run over events ended.
#[derive(Debug, Copy, Clone, PartialEq, Eq)]
pub enum RunEnd {
    /// Every event was handled.
    Drained,
    /// `Action::Exit` arrived: the session is to end, and the events behind it were
    /// left alone.
    Exit,
    /// A cut arrived while the markers did not allow one: a fault of the surroundings.
    /// That event and those behind it were left alone.
    InvalidCut,
    /// An action arrived that needs the time of the playback while the player had none
    /// to give. That event and those behind it were left alone.
    MissingTime,
}

/// What a run over events did.
#[derive(Debug, PartialEq, Eq)]
pub struct RunReport {
    /// What is to be done, in order.
    pub effects: Vec<Effect>,
    /// The number of events that were handled.
    pub handled: usize,
    /// How the run ended.
    pub end: RunEnd,
}

/// What a run over events does: the session after it, what it asks for, how many
/// events it handled and how it ended.
pub struct Run {
    pub session: SessionView,
    pub effects: Seq<EffectView>,
    pub handled: nat,
    pub end: RunEnd,
}

/// The run of the session `s` over `events`, in their order: a tick checks the loop's
/// end, an input is stepped, and the run stops before `Action::Exit`, before a cut that
/// the markers do not allow, and before an action that needs a time that the player
/// does not have.
pub open spec fn run(s: SessionView, events: Seq<Event>) -> Run
    decreases events.len(),
{
    if events.len() == 0 {
        Run { session: s, effects: Seq::<EffectView>::empty(), handled: 0, end: RunEnd::Drained }
    } else {
        match events[0] {
            Event::Tick(now) => {
                let rest = run(s, events.drop_first());
                Run {
                    session: rest.session,
                    effects: s.loop_check(now) + rest.effects,
                    handled: rest.handled + 1,
                    end: rest.end,
                }
            },
            Event::Input(action, status) => {
                if !s.admits(action, status) {
                    Run {
                        session: s,
                        effects: Seq::<EffectView>::empty(),
                        handled: 0,
                        end: if action is CutCurrentLoop {
                            RunEnd::InvalidCut
                        } else {
                            RunEnd::MissingTime
                        },
                    }
                } else if s.step(action, status).exit {
                    Run {
                        session: s,
                        effects: Seq::<EffectView>::empty(),
                        handled: 0,
                        end: RunEnd::Exit,
                    }
                } else {
                    let step = s.step(action, status);
                    let rest = run(step.next, events.drop_first());
                    Run {
                        session: rest.session,
                        effects: step.effects + rest.effects,
                        handled: rest.handled + 1,
                        end: rest.end,
                    }
                }
            },
        }
    }
}

/// Moves the effects of `more` behind those of `effects`.
fn extend(effects: &mut Vec<Effect>, more: Vec<Effect>)
    ensures
        effect_views(final(effects)@) == effect_views(old(effects)@) + effect_views(more@),
{
    let mut more = more;
    let ghost before = effects@;
    let ghost added = more@;
    effects.append(&mut more);
    assert(effect_views(effects@) =~= effect_views(before) + effect_views(added));
}

/// Runs the session over the events that the window loop has collected, in the order
/// of their arrival, until they are used up, `Action::Exit` arrives, a cut arrives that
/// the markers do not allow, or an action arrives that needs a time that the player
/// does not have.
pub fn run_with_fltk(session: &mut Session, events: &Vec<Event>) -> (report: RunReport)
    requires
        old(session).wf(),
    ensures
        final(session).wf(),
        final(session)@ == run(old(session)@, events@).session,
        effect_views(report.effects@) == run(old(session)@, events@).effects,
        report.handled == run(old(session)@, events@).handled,
        report.end == run(old(session)@, events@).end,
        report.handled <= events@.len(),
        report.end == RunEnd::Drained <==> report.handled == events@.len(),
{
    let mut effects: Vec<Effect> = Vec::new();
    let mut end = RunEnd::Drained;
    let mut going = true;
    let mut i: usize = 0;
    let ghost whole = run(session@, events@);
    proof {
        assert(events@.skip(0) =~= events@);
        assert(effect_views(effects@) =~= Seq::<EffectView>::empty());
    }
    while i < events.len() && going
        invariant
            i <= events@.len(),
            going == (end == RunEnd::Drained),
            session.wf(),
            whole == run(old(session)@, events@),
            end == RunEnd::Drained ==> {
                let rest = run(session@, events@.skip(i as int));
                &&& whole.session == rest.session
                &&& whole.effects == effect_views(effects@) + rest.effects
                &&& whole.handled == i + rest.handled
                &&& whole.end == rest.end
            },
            end != RunEnd::Drained ==> {
                &&& whole.session == session@
                &&& whole.effects == effect_views(effects@)
                &&& whole.handled == i
                &&& whole.end == end
                &&& i < events@.len()
            },
        decreases events@.len() - i, if going { 1int } else { 0int },
    {
        let ghost tail = events@.skip(i as int);
        let ghost so_far = effect_views(effects@);
        proof {
            assert(tail[0] == events@[i as int]);
            assert(tail.drop_first() =~= events@.skip(i + 1));
        }
        match events[i] {
            Event::Tick(now) => {
                let more = session.check_loop_end(now);
                let ghost added = effect_views(more@);
                extend(&mut effects, more);
                proof {
                    let rest = run(session@, events@.skip(i + 1));
                    assert((so_far + added) + rest.effects =~= so_far + (added + rest.effects));
                }
                i += 1;
            },
            Event::Input(action, status) => {
                if !session.admits(action, status) {
                    end = match action {
                        Action::CutCurrentLoop(_) => RunEnd::InvalidCut,
                        _ => RunEnd::MissingTime,
                    };
                    going = false;
                    proof {
                        assert(so_far + Seq::<EffectView>::empty() =~= so_far);
                    }
                } else {
                    let ghost before = session@;
                    match session.handle(action, status) {
                        Ok(more) => {
                            let ghost added = effect_views(more@);
                            extend(&mut effects, more);
                            proof {
                                let rest = run(session@, events@.skip(i + 1));
                                assert((so_far + added) + rest.effects =~= so_far + (added
                                    + rest.effects));
                            }
                            i += 1;
                        },
                        Err(_) => {
                            end = RunEnd::Exit;
                            going = false;
                            proof {
                                assert(so_far + Seq::<EffectView>::empty() =~= so_far);
                            }
                        },
                    }
                }
            },
        }
    }
    proof {
        if end == RunEnd::Drained {
            assert(events@.skip(i as int) =~= Seq::<Event>::empty());
            assert(effect_views(effects@) + Seq::<EffectView>::empty() =~= effect_views(
                effects@,
            ));
        }
        lemma_run_handled(old(session)@, events@);
    }
    RunReport { effects, handled: i, end }
}

/// A run handles no more events than there are, and all of them exactly where it is
/// not stopped.
pub proof fn lemma_run_handled(s: SessionView, events: Seq<Event>)
    ensures
        run(s, events).handled <= events.len(),
        run(s, events).end == RunEnd::Drained <==> run(s, events).handled == events.len(),
    decreases events.len(),
{
    if events.len() > 0 {
        match events[0] {
            Event::Tick(now) => {
                lemma_run_handled(s, events.drop_first());
            },
            Event::Input(action, status) => {
                if s.admits(action, status) && !s.step(action, status).exit {
                    lemma_run_handled(s.step(action, status).next, events.drop_first());
                }
            },
        }
    }
}

} // verus!
