//! The process-wide registry: one playback session per guild.
//!
//! The caller takes a guild's session out to work on it and puts it back
//! when done — ownership of the taken value is what makes per-guild mutation
//! exclusive, the way the running bot guards each session behind its own
//! lock. No two stored sessions ever share a guild id.

use vstd::prelude::*;

use crate::session::GuildSession;

verus! {

/// Map from guild id to that guild's playback session.
pub struct SessionRegistry {
    sessions: Vec<GuildSession>,
}

impl View for SessionRegistry {
    type V = Seq<GuildSession>;

    closed spec fn view(&self) -> Seq<GuildSession> {
        self.sessions@
    }
}

impl SessionRegistry {
    /// Every stored session is well formed and no guild id repeats.
    pub open spec fn wf(self) -> bool {
        &&& forall|i: int| 0 <= i < self@.len() ==> (#[trigger] self@[i]).wf()
        &&& forall|i: int, j: int|
            0 <= i < j < self@.len() ==> self@[i].guild_id != self@[j].guild_id
    }

    /// Whether a session for this guild is stored.
    pub open spec fn contains_guild(self, guild_id: u64) -> bool {
        exists|i: int| 0 <= i < self@.len() && (#[trigger] self@[i]).guild_id == guild_id
    }

    /// An empty registry.
    pub fn new() -> (r: SessionRegistry)
        ensures
            r.wf(),
            r@.len() == 0,
    {
        SessionRegistry { sessions: Vec::new() }
    }

    pub fn len(&self) -> (n: usize)
        ensures
            n == self@.len(),
    {
        self.sessions.len()
    }

    fn find(&self, guild_id: u64) -> (r: Option<usize>)
        ensures
            match r {
                Some(i) => i < self@.len() && self@[i as int].guild_id == guild_id,
                None => !self.contains_guild(guild_id),
            },
    {
        let n = self.sessions.len();
        let mut i: usize = 0;
        while i < n
            invariant
                i <= n,
                n == self@.len(),
                forall|j: int| 0 <= j < i ==> (#[trigger] self@[j]).guild_id != guild_id,
            decreases n - i,
        {
            if self.sessions[i].guild_id == guild_id {
                return Some(i);
            }
            i = i + 1;
        }
        None
    }

    /// Take the guild's session out, or allocate a fresh one — idle, empty
    /// queue, no voice connection — when none is stored. Until it is put
    /// back, the registry holds nothing for this guild: the taker has it
    /// exclusively.
    pub fn get_or_create(&mut self, guild_id: u64) -> (s: GuildSession)
        requires
            old(self).wf(),
        ensures
            final(self).wf(),
            s.wf(),
            s.guild_id == guild_id,
            !final(self).contains_guild(guild_id),
            forall|g: u64|
                g != guild_id ==> final(self).contains_guild(g) == old(self).contains_guild(g),
            forall|t: GuildSession| final(self)@.contains(t) ==> old(self)@.contains(t),
            forall|t: GuildSession|
                old(self)@.contains(t) && t.guild_id != guild_id ==> final(self)@.contains(t),
            old(self).contains_guild(guild_id) ==> old(self)@.contains(s),
            !old(self).contains_guild(guild_id) ==> final(self)@ == old(self)@ && !s@.connected
                && s@.play_state is Idle && s@.queue.len() == 0 && s@.current is None,
    {
        match self.take(guild_id) {
            Some(s) => s,
            None => GuildSession::new(guild_id),
        }
    }

    /// Take the guild's session out, if one is stored; a no-op otherwise.
    pub fn take(&mut self, guild_id: u64) -> (r: Option<GuildSession>)
        requires
            old(self).wf(),
        ensures
            final(self).wf(),
            !final(self).contains_guild(guild_id),
            forall|g: u64|
                g != guild_id ==> final(self).contains_guild(g) == old(self).contains_guild(g),
            forall|t: GuildSession| final(self)@.contains(t) ==> old(self)@.contains(t),
            forall|t: GuildSession|
                old(self)@.contains(t) && t.guild_id != guild_id ==> final(self)@.contains(t),
            r is Some <==> old(self).contains_guild(guild_id),
            r matches Some(s) ==> s.wf() && s.guild_id == guild_id && old(self)@.contains(s),
            r is None ==> final(self)@ == old(self)@,
    {
        broadcast use vstd::seq_lib::group_seq_properties;

        match self.find(guild_id) {
            Some(i) => {
                let ghost pre = self@;
                let s = self.sessions.remove(i);
                proof {
                    assert(self@ =~= pre.subrange(0, i as int) + pre.subrange(
                        i + 1,
                        pre.len() as int,
                    ));
                    assert forall|k: int| 0 <= k < self@.len() implies pre.contains(
                        #[trigger] self@[k],
                    ) && (self@[k].guild_id != guild_id) by {
                        if k < i {
                            assert(self@[k] == pre[k]);
                        } else {
                            assert(self@[k] == pre[k + 1]);
                        }
                    }
                    assert forall|t: GuildSession|
                        pre.contains(t) && t.guild_id != guild_id implies self@.contains(
                        t,
                    ) by {
                        let k = choose|k: int| 0 <= k < pre.len() && pre[k] == t;
                        if k < i {
                            assert(self@[k] == t);
                        } else {
                            assert(k != i);
                            assert(self@[k - 1] == t);
                        }
                    }
                    assert(pre.contains(s));
                    assert forall|g: u64|
                        g != guild_id && old(self).contains_guild(g) implies self.contains_guild(
                        g,
                    ) by {
                        let k = choose|k: int|
                            0 <= k < pre.len() && (#[trigger] pre[k]).guild_id == g;
                        if k < i {
                            assert(self@[k].guild_id == g);
                        } else {
                            assert(k != i);
                            assert(self@[k - 1].guild_id == g);
                        }
                    }
                    assert forall|g: u64|
                        g != guild_id && self.contains_guild(g) implies old(
                        self,
                    ).contains_guild(g) by {
                        let k = choose|k: int|
                            0 <= k < self@.len() && (#[trigger] self@[k]).guild_id == g;
                        if k < i {
                            assert(pre[k].guild_id == g);
                        } else {
                            assert(pre[k + 1].guild_id == g);
                        }
                    }
                }
                Some(s)
            },
            None => None,
        }
    }

    /// Put a session back; its guild must not already be stored.
    pub fn put_back(&mut self, s: GuildSession)
        requires
            old(self).wf(),
            s.wf(),
            !old(self).contains_guild(s.guild_id),
        ensures
            final(self).wf(),
            final(self)@ == old(self)@.push(s),
            final(self).contains_guild(s.guild_id),
            forall|g: u64|
                g != s.guild_id ==> final(self).contains_guild(g) == old(self).contains_guild(g),
    {
        let ghost pre = self@;
        let ghost gid = s.guild_id;
        self.sessions.push(s);
        proof {
            assert(self@[self@.len() - 1] == s);
            assert forall|i: int, j: int| 0 <= i < j < self@.len() implies self@[i].guild_id
                != self@[j].guild_id by {
                if j < self@.len() - 1 {
                    assert(self@[i] == pre[i] && self@[j] == pre[j]);
                } else {
                    assert(self@[i] == pre[i]);
                    assert(self@[j] == s);
                }
            }
            assert forall|g: u64| g != gid && self.contains_guild(g) implies old(
                self,
            ).contains_guild(g) by {
                let i = choose|i: int|
                    0 <= i < self@.len() && (#[trigger] self@[i]).guild_id == g;
                assert(i < pre.len());
                assert(pre[i] == self@[i]);
            }
            assert forall|g: u64| g != gid && old(self).contains_guild(g) implies self
                .contains_guild(g) by {
                let i = choose|i: int| 0 <= i < pre.len() && (#[trigger] pre[i]).guild_id == g;
                assert(self@[i] == pre[i]);
            }
        }
    }

    /// Discard the guild's session, releasing whatever it held; safe to call
    /// when none exists.
    pub fn remove(&mut self, guild_id: u64) -> (r: Option<GuildSession>)
        requires
            old(self).wf(),
        ensures
            final(self).wf(),
            !final(self).contains_guild(guild_id),
            forall|g: u64|
                g != guild_id ==> final(self).contains_guild(g) == old(self).contains_guild(g),
            r is Some <==> old(self).contains_guild(guild_id),
            r matches Some(s) ==> s.guild_id == guild_id && s.wf(),
    {
        self.take(guild_id)
    }
}

/// The bot's shared state: everything the command layer hands around is
/// rooted here.
pub struct Data {
    pub registry: SessionRegistry,
}

impl Data {
    pub fn new() -> (d: Data)
        ensures
            d.registry.wf(),
            d.registry@.len() == 0,
    {
        Data { registry: SessionRegistry::new() }
    }
}

} // verus!
