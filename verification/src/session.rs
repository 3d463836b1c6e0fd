//! The per-guild playback session state machine.
//!
//! A `GuildSession` owns, for one guild, the relationship between the voice
//! connection, the pending queue, the currently-playing track and the play
//! state. Every transition is a function from the old state to the new state
//! plus the `TransportAction` the caller must perform against the voice
//! transport — the transport itself lives outside this crate.

use vstd::prelude::*;

use crate::queue_store::QueueStore;
use crate::track::TrackRequest;

verus! {

#[derive(Clone, Copy, PartialEq, Eq, Structural, Debug)]
pub enum PlayState {
    /// Nothing current; the queue is empty.
    Idle,
    /// The current track is audible.
    Playing,
    /// The current track is paused by a user.
    Paused,
    /// An interjection clip has temporarily suspended the current track.
    Ducked,
}

/// What the caller must perform against the voice transport after a
/// transition. Every transition that starts or stops audio reports it here
/// exactly once; the session never asks for a duplicate start of one track.
#[derive(Clone, Copy, PartialEq, Eq, Structural, Debug)]
pub enum TransportAction {
    /// Nothing to perform.
    Stay,
    /// Stop whatever plays and start the stream with this id.
    Start(u64),
    /// Pause the current playback where it stands.
    Pause,
    /// Resume the current playback at its paused position, not from the top.
    Resume,
    /// Stop the current playback; nothing follows it.
    Halt,
    /// Stop playback and release the voice connection.
    Disconnect,
}

/// The mathematical state of a session: what the contracts talk about.
#[verifier::ext_equal]
pub ghost struct SessionView {
    pub connected: bool,
    pub queue: Seq<TrackRequest>,
    pub current: Option<TrackRequest>,
    pub play_state: PlayState,
    pub pending_resume: bool,
}

impl SessionView {
    /// The session invariant: a track is current exactly outside `Idle`;
    /// anything but `Idle` holds the voice connection; `Idle` has no backlog
    /// (a track is dispatched the moment it could play); `pending_resume`
    /// only records something while ducked.
    pub open spec fn wf(self) -> bool {
        &&& (self.current is Some <==> !(self.play_state is Idle))
        &&& (!(self.play_state is Idle) ==> self.connected)
        &&& (self.play_state is Idle ==> self.queue.len() == 0)
        &&& (!(self.play_state is Ducked) ==> !self.pending_resume)
    }

    /// Acquiring the voice connection.
    pub open spec fn connect_spec(self) -> SessionView {
        SessionView { connected: true, ..self }
    }

    /// Admitting one resolved track: auto-start when idle, else append.
    pub open spec fn enqueue_spec(self, track: TrackRequest) -> SessionView {
        if self.play_state is Idle {
            SessionView { play_state: PlayState::Playing, current: Some(track), ..self }
        } else {
            SessionView { queue: self.queue.push(track), ..self }
        }
    }

    /// Pausing: only an audible track changes state.
    pub open spec fn pause_spec(self) -> SessionView {
        if self.play_state is Playing {
            SessionView { play_state: PlayState::Paused, ..self }
        } else {
            self
        }
    }

    /// Resuming: only a user-paused track changes state.
    pub open spec fn resume_spec(self) -> SessionView {
        if self.play_state is Paused {
            SessionView { play_state: PlayState::Playing, ..self }
        } else {
            self
        }
    }

    /// Leaving the current track behind — by `skip` or by its natural end:
    /// the former queue head becomes current and plays, or the session goes
    /// idle when nothing is pending.
    pub open spec fn advance_spec(self) -> SessionView {
        if self.queue.len() > 0 {
            SessionView {
                play_state: PlayState::Playing,
                current: Some(self.queue[0]),
                queue: self.queue.drop_first(),
                ..self
            }
        } else {
            SessionView { play_state: PlayState::Idle, current: None, ..self }
        }
    }

    /// Full stop: queue cleared, nothing current, connection released.
    pub open spec fn stop_spec(self) -> SessionView {
        SessionView {
            connected: false,
            queue: Seq::empty(),
            current: None,
            play_state: PlayState::Idle,
            pending_resume: false,
        }
    }

    /// Dropping the backlog without touching the current track.
    pub open spec fn clear_spec(self) -> SessionView {
        SessionView { queue: Seq::empty(), ..self }
    }
}

/// Per-guild session state. The caller (the command layer) holds one of
/// these per guild under that guild's exclusive lock; the methods themselves
/// are sequential.
pub struct GuildSession {
    pub guild_id: u64,
    /// Whether this session owns a live voice connection.
    pub connected: bool,
    /// Pending tracks, in play order.
    pub queue: QueueStore,
    /// The track presently dispatched to the transport, if any.
    pub current: Option<TrackRequest>,
    pub play_state: PlayState,
    /// Whether normal playback should resume once the active interjection
    /// finishes; set only while ducked.
    pub pending_resume: bool,
}

impl View for GuildSession {
    type V = SessionView;

    open spec fn view(&self) -> SessionView {
        SessionView {
            connected: self.connected,
            queue: self.queue@,
            current: self.current,
            play_state: self.play_state,
            pending_resume: self.pending_resume,
        }
    }
}

impl GuildSession {
    pub open spec fn wf(self) -> bool {
        self@.wf()
    }

    /// A fresh session: idle, empty queue, no voice connection.
    pub fn new(guild_id: u64) -> (s: GuildSession)
        ensures
            s.wf(),
            s.guild_id == guild_id,
            !s@.connected,
            s@.queue.len() == 0,
            s@.current is None,
            s@.play_state is Idle,
    {
        GuildSession {
            guild_id,
            connected: false,
            queue: QueueStore::new(),
            current: None,
            play_state: PlayState::Idle,
            pending_resume: false,
        }
    }

    /// Record that the caller acquired the voice connection for this guild.
    /// State and queue are untouched: joining never starts a track.
    pub fn connect(&mut self)
        requires
            old(self).wf(),
        ensures
            final(self).wf(),
            final(self)@ =~= old(self)@.connect_spec(),
            final(self).guild_id == old(self).guild_id,
    {
        self.connected = true;
    }

    /// Admit one already-resolved track. When the session is idle the track
    /// starts at once (the first enqueue is the auto-start); otherwise it is
    /// appended and playback is untouched.
    pub fn enqueue(&mut self, track: TrackRequest) -> (action: TransportAction)
        requires
            old(self).wf(),
            old(self)@.connected,
        ensures
            final(self).wf(),
            final(self)@ =~= old(self)@.enqueue_spec(track),
            final(self).guild_id == old(self).guild_id,
            action == if old(self)@.play_state is Idle {
                TransportAction::Start(track.stream_id)
            } else {
                TransportAction::Stay
            },
    {
        if self.play_state == PlayState::Idle {
            let id = track.stream_id;
            self.current = Some(track);
            self.play_state = PlayState::Playing;
            TransportAction::Start(id)
        } else {
            self.queue.push(track);
            TransportAction::Stay
        }
    }

    /// Pause the audible track; pausing anything else is a no-op, not an
    /// error.
    pub fn pause(&mut self) -> (action: TransportAction)
        requires
            old(self).wf(),
        ensures
            final(self).wf(),
            final(self)@ =~= old(self)@.pause_spec(),
            final(self).guild_id == old(self).guild_id,
            action == if old(self)@.play_state is Playing {
                TransportAction::Pause
            } else {
                TransportAction::Stay
            },
    {
        if self.play_state == PlayState::Playing {
            self.play_state = PlayState::Paused;
            TransportAction::Pause
        } else {
            TransportAction::Stay
        }
    }

    /// Resume the user-paused track at its position; resuming anything else
    /// is a no-op, not an error.
    pub fn resume(&mut self) -> (action: TransportAction)
        requires
            old(self).wf(),
        ensures
            final(self).wf(),
            final(self)@ =~= old(self)@.resume_spec(),
            final(self).guild_id == old(self).guild_id,
            action == if old(self)@.play_state is Paused {
                TransportAction::Resume
            } else {
                TransportAction::Stay
            },
    {
        if self.play_state == PlayState::Paused {
            self.play_state = PlayState::Playing;
            TransportAction::Resume
        } else {
            TransportAction::Stay
        }
    }

    /// Skip the current track: the former queue head is dequeued and plays,
    /// or the session goes idle when the queue is empty.
    pub fn skip(&mut self) -> (action: TransportAction)
        requires
            old(self).wf(),
            old(self)@.play_state is Playing || old(self)@.play_state is Paused,
        ensures
            final(self).wf(),
            final(self)@ =~= old(self)@.advance_spec(),
            final(self).guild_id == old(self).guild_id,
            old(self)@.queue.len() > 0 ==> final(self)@.play_state is Playing
                && final(self)@.current == Some(old(self)@.queue[0]) && final(self)@.queue
                =~= old(self)@.queue.drop_first() && action == TransportAction::Start(
                old(self)@.queue[0].stream_id,
            ),
            old(self)@.queue.len() == 0 ==> final(self)@.play_state is Idle
                && final(self)@.current is None && action == TransportAction::Halt,
    {
        self.advance()
    }

    /// The transport reported that the current track finished on its own;
    /// the session advances exactly as a skip does.
    pub fn track_ended(&mut self) -> (action: TransportAction)
        requires
            old(self).wf(),
            old(self)@.play_state is Playing,
        ensures
            final(self).wf(),
            final(self)@ =~= old(self)@.advance_spec(),
            final(self).guild_id == old(self).guild_id,
            old(self)@.queue.len() > 0 ==> action == TransportAction::Start(
                old(self)@.queue[0].stream_id,
            ),
            old(self)@.queue.len() == 0 ==> action == TransportAction::Halt,
    {
        self.advance()
    }

    fn advance(&mut self) -> (action: TransportAction)
        requires
            old(self).wf(),
            old(self)@.play_state is Playing || old(self)@.play_state is Paused,
        ensures
            final(self).wf(),
            final(self)@ =~= old(self)@.advance_spec(),
            final(self).guild_id == old(self).guild_id,
            old(self)@.queue.len() > 0 ==> action == TransportAction::Start(
                old(self)@.queue[0].stream_id,
            ),
            old(self)@.queue.len() == 0 ==> action == TransportAction::Halt,
    {
        match self.queue.pop_next() {
            Some(next) => {
                let id = next.stream_id;
                self.current = Some(next);
                self.play_state = PlayState::Playing;
                TransportAction::Start(id)
            },
            None => {
                self.current = None;
                self.play_state = PlayState::Idle;
                TransportAction::Halt
            },
        }
    }

    /// Full stop, from any state — ducked included: the queue is emptied,
    /// nothing stays current, and the voice connection is released.
    pub fn stop(&mut self) -> (action: TransportAction)
        ensures
            final(self).wf(),
            final(self)@ =~= old(self)@.stop_spec(),
            final(self).guild_id == old(self).guild_id,
            final(self)@.queue.len() == 0,
            final(self)@.current is None,
            !final(self)@.connected,
            final(self)@.play_state is Idle,
            action == TransportAction::Disconnect,
    {
        self.queue.clear();
        self.current = None;
        self.play_state = PlayState::Idle;
        self.pending_resume = false;
        self.connected = false;
        TransportAction::Disconnect
    }

    /// Empty the pending queue without stopping the current track.
    pub fn clear(&mut self)
        requires
            old(self).wf(),
        ensures
            final(self).wf(),
            final(self)@ =~= old(self)@.clear_spec(),
            final(self).guild_id == old(self).guild_id,
            final(self)@.current == old(self)@.current,
            final(self)@.play_state == old(self)@.play_state,
    {
        self.queue.clear();
    }

    /// Randomly reorder the pending tracks. The multiset of pending tracks
    /// is unchanged and the currently-playing track is unaffected.
    pub fn shuffle(&mut self)
        requires
            old(self).wf(),
        ensures
            final(self).wf(),
            final(self)@.queue.to_multiset() == old(self)@.queue.to_multiset(),
            final(self)@.queue.len() == old(self)@.queue.len(),
            final(self)@.current == old(self)@.current,
            final(self)@.play_state == old(self)@.play_state,
            final(self)@.connected == old(self)@.connected,
            final(self)@.pending_resume == old(self)@.pending_resume,
            final(self).guild_id == old(self).guild_id,
    {
        self.queue.shuffle();
    }
}

/// Admitting tracks from an idle session: the first enqueue is the one that
/// starts playback; each later enqueue only appends.
pub open spec fn enqueue_all(v: SessionView, tracks: Seq<TrackRequest>) -> SessionView
    decreases tracks.len(),
{
    if tracks.len() == 0 {
        v
    } else {
        enqueue_all(v.enqueue_spec(tracks[0]), tracks.drop_first())
    }
}

/// Enqueues never change the play state once something is current, and each
/// one grows the queue by exactly one.
proof fn lemma_enqueue_all_not_idle(v: SessionView, tracks: Seq<TrackRequest>)
    requires
        v.wf(),
        v.connected,
        !(v.play_state is Idle),
    ensures
        enqueue_all(v, tracks).wf(),
        enqueue_all(v, tracks).play_state == v.play_state,
        enqueue_all(v, tracks).current == v.current,
        enqueue_all(v, tracks).queue =~= v.queue + tracks,
        enqueue_all(v, tracks).connected,
    decreases tracks.len(),
{
    if tracks.len() == 0 {
        assert(v.queue + tracks =~= v.queue);
    } else {
        let v1 = v.enqueue_spec(tracks[0]);
        lemma_enqueue_all_not_idle(v1, tracks.drop_first());
        assert(v1.queue + tracks.drop_first() =~= v.queue + tracks);
    }
}

/// For any sequence of enqueues starting idle: the first transitions to
/// `Playing` and becomes current, and each subsequent one leaves the play
/// state unchanged with the queue length incremented by one — the backlog is
/// exactly the later tracks in order.
pub proof fn lemma_enqueue_run_from_idle(v: SessionView, tracks: Seq<TrackRequest>)
    requires
        v.wf(),
        v.connected,
        v.play_state is Idle,
        tracks.len() >= 1,
    ensures
        enqueue_all(v, tracks).wf(),
        enqueue_all(v, tracks).play_state is Playing,
        enqueue_all(v, tracks).current == Some(tracks[0]),
        enqueue_all(v, tracks).queue =~= tracks.drop_first(),
{
    let v1 = v.enqueue_spec(tracks[0]);
    assert(v1.queue =~= Seq::<TrackRequest>::empty());
    lemma_enqueue_all_not_idle(v1, tracks.drop_first());
    assert(Seq::<TrackRequest>::empty() + tracks.drop_first() =~= tracks.drop_first());
}

/// The tracks a session will make current, in order, if it only ever
/// advances — by skips or by tracks ending — until it is idle.
pub open spec fn drain_order(v: SessionView) -> Seq<TrackRequest>
    decreases v.queue.len(),
{
    if v.queue.len() == 0 {
        Seq::empty()
    } else {
        seq![v.queue[0]] + drain_order(v.advance_spec())
    }
}

/// Tracks play in FIFO order of their admission: draining a session plays
/// exactly its pending tracks, first to last.
pub proof fn lemma_fifo_drain(v: SessionView)
    ensures
        drain_order(v) =~= v.queue,
    decreases v.queue.len(),
{
    if v.queue.len() > 0 {
        lemma_fifo_drain(v.advance_spec());
    }
}

/// `pause` followed immediately by `resume` returns the play state to its
/// pre-pause value and alters neither the queue nor the current track. The
/// one starting state left out is `Paused`: there the pause is a no-op but
/// the resume still starts the track, by design.
pub proof fn lemma_pause_resume_round_trip(v: SessionView)
    requires
        v.wf(),
        !(v.play_state is Paused),
    ensures
        v.pause_spec().resume_spec().play_state == v.play_state,
        v.pause_spec().resume_spec().queue == v.queue,
        v.pause_spec().resume_spec().current == v.current,
        v.pause_spec().resume_spec().connected == v.connected,
{
}

/// Whatever the state, `pause` then `resume` never touches the queue or the
/// current track.
pub proof fn lemma_pause_resume_preserves_tracks(v: SessionView)
    ensures
        v.pause_spec().resume_spec().queue == v.queue,
        v.pause_spec().resume_spec().current == v.current,
{
}

} // verus!
