//! One-shot interjections: play a clip "on top of" whatever the session is
//! doing — ducking the music — and restore the prior state when the clip
//! ends, without losing the queue position of the current track.

use vstd::prelude::*;

use crate::session::GuildSession;
use crate::session::PlayState;
use crate::session::SessionView;
use crate::session::TransportAction;

verus! {

/// How an interjection clip is to be delivered.
#[derive(Clone, Copy, PartialEq, Eq, Structural, Debug)]
pub enum InterjectionRoute {
    /// Play in voice, ducking the current track; pause it first when `true`.
    Voice(bool),
    /// Connected but idle: play the clip in voice; nothing to duck or
    /// restore afterwards.
    VoiceIdle,
    /// No voice connection: deliver the clip outside voice (e.g. as a file
    /// attachment); no state transition occurs.
    Fallback,
    /// An interjection is already active; nothing new is started.
    Busy,
}

/// How the transport reported the end of the clip. Completion handling must
/// not depend on which of the two it was.
#[derive(Clone, Copy, PartialEq, Eq, Structural, Debug)]
pub enum ClipOutcome {
    Finished,
    Errored,
}

/// One transient playback request that bypasses the queue. Its single
/// cleanup (e.g. deleting a synthesized temp file) must run exactly once,
/// whether the clip finishes or errors, and no matter how many completion
/// events the transport delivers.
pub struct InterjectionJob {
    /// Captured at request time: was the session audibly playing, so that
    /// normal playback must resume once this clip is done?
    pub should_resume_after: bool,
    /// Whether the one cleanup this job owes has already been handed out.
    pub cleanup_done: bool,
}

impl SessionView {
    /// Starting an interjection: an audible or paused track is ducked — and
    /// whether it was audible is remembered — while a session without the
    /// voice connection, an idle one, or one already ducked is untouched.
    pub open spec fn interject_start_spec(self) -> SessionView {
        if self.connected && self.play_state is Playing {
            SessionView { play_state: PlayState::Ducked, pending_resume: true, ..self }
        } else if self.connected && self.play_state is Paused {
            SessionView { play_state: PlayState::Ducked, pending_resume: false, ..self }
        } else {
            self
        }
    }

    /// The route such a request takes.
    pub open spec fn interject_route_spec(self) -> InterjectionRoute {
        if !self.connected {
            InterjectionRoute::Fallback
        } else if self.play_state is Playing {
            InterjectionRoute::Voice(true)
        } else if self.play_state is Paused {
            InterjectionRoute::Voice(false)
        } else if self.play_state is Idle {
            InterjectionRoute::VoiceIdle
        } else {
            InterjectionRoute::Busy
        }
    }

    /// Finishing an interjection: a ducked session returns to `Playing` or
    /// `Paused` according to what was remembered; any other state is
    /// untouched.
    pub open spec fn interject_end_spec(self) -> SessionView {
        if self.play_state is Ducked {
            SessionView {
                play_state: if self.pending_resume {
                    PlayState::Playing
                } else {
                    PlayState::Paused
                },
                pending_resume: false,
                ..self
            }
        } else {
            self
        }
    }
}

impl GuildSession {
    /// Request an interjection. Returns the delivery route and the job that
    /// tracks the clip's one cleanup. Only an audible or paused track is
    /// ducked; without a voice connection the clip goes out on the fallback
    /// path and the state does not change.
    pub fn interjection_start(&mut self) -> (r: (InterjectionRoute, InterjectionJob))
        requires
            old(self).wf(),
        ensures
            final(self).wf(),
            final(self)@ =~= old(self)@.interject_start_spec(),
            final(self).guild_id == old(self).guild_id,
            r.0 == old(self)@.interject_route_spec(),
            !r.1.cleanup_done,
            r.1.should_resume_after == (old(self)@.connected
                && old(self)@.play_state is Playing),
    {
        if !self.connected {
            let job = InterjectionJob { should_resume_after: false, cleanup_done: false };
            (InterjectionRoute::Fallback, job)
        } else if self.play_state == PlayState::Playing {
            self.play_state = PlayState::Ducked;
            self.pending_resume = true;
            let job = InterjectionJob { should_resume_after: true, cleanup_done: false };
            (InterjectionRoute::Voice(true), job)
        } else if self.play_state == PlayState::Paused {
            self.play_state = PlayState::Ducked;
            self.pending_resume = false;
            let job = InterjectionJob { should_resume_after: false, cleanup_done: false };
            (InterjectionRoute::Voice(false), job)
        } else if self.play_state == PlayState::Idle {
            let job = InterjectionJob { should_resume_after: false, cleanup_done: false };
            (InterjectionRoute::VoiceIdle, job)
        } else {
            let job = InterjectionJob { should_resume_after: false, cleanup_done: false };
            (InterjectionRoute::Busy, job)
        }
    }

    /// The transport reported that the interjection clip ended — finished or
    /// errored alike. The first notification hands out the job's one cleanup
    /// (`r.0`) and performs the one transition out of `Ducked`, resuming the
    /// same current track at its paused position when it was audible before;
    /// every later notification is a no-op. The outcome plays no role.
    pub fn interjection_complete(&mut self, job: &mut InterjectionJob, outcome: ClipOutcome) -> (r:
        (bool, TransportAction))
        requires
            old(self).wf(),
        ensures
            final(self).wf(),
            final(job).cleanup_done,
            final(job).should_resume_after == old(job).should_resume_after,
            r.0 == !old(job).cleanup_done,
            final(self)@ =~= if old(job).cleanup_done {
                old(self)@
            } else {
                old(self)@.interject_end_spec()
            },
            final(self).guild_id == old(self).guild_id,
            r.1 == if !old(job).cleanup_done && old(self)@.play_state is Ducked && old(
                self,
            )@.pending_resume {
                TransportAction::Resume
            } else {
                TransportAction::Stay
            },
    {
        let _ = outcome;
        if job.cleanup_done {
            return (false, TransportAction::Stay);
        }
        job.cleanup_done = true;
        if self.play_state == PlayState::Ducked {
            let resume = self.pending_resume;
            self.pending_resume = false;
            if resume {
                self.play_state = PlayState::Playing;
                (true, TransportAction::Resume)
            } else {
                self.play_state = PlayState::Paused;
                (true, TransportAction::Stay)
            }
        } else {
            (true, TransportAction::Stay)
        }
    }
}

/// The interjection round trip. During `Playing`: after the clip completes,
/// the play state returns to `Playing` and the originally-current track is
/// the one that resumes — same identity, same queue, so it continues rather
/// than restarts. During `Paused`: the session returns to `Paused`. With no
/// voice connection the request changes nothing at all (the clip goes out on
/// the fallback path), and completing it changes nothing either.
pub proof fn lemma_interjection_round_trip(v: SessionView)
    requires
        v.wf(),
    ensures
        v.connected && v.play_state is Playing ==> v.interject_start_spec().interject_end_spec()
            =~= v,
        v.connected && v.play_state is Paused ==> v.interject_start_spec().interject_end_spec()
            =~= v,
        !v.connected ==> v.interject_start_spec() =~= v
            && v.interject_start_spec().interject_end_spec() =~= v,
        v.interject_start_spec().interject_end_spec().current == v.current,
        v.interject_start_spec().interject_end_spec().queue == v.queue,
{
}

} // verus!
