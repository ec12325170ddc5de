//! The per-guild queue registry: a mapping from guild identifier to that
//! guild's playback queue, with unique keys and no ordering guarantee.
//!
//! An entry is created when a guild's voice session is established
//! (`join`) and removed when the session ends (`leave`), which first
//! stops every track the queue still holds. Joining a guild that is
//! already present is a caller error and changes nothing; the external
//! dispatch layer is expected to serialise join attempts per guild.

use vstd::prelude::*;

verus! {

use crate::queue::{
    added_one, completion_step, fresh_id, head_signalled, stop_signals, QueueStats, TrackQueue,
};
use crate::track::{Queued, TrackHandle, TrackMetadata, TrackResult, TrackState};

/// The registry of one process: every guild with an active voice
/// session, each with its own queue.
pub struct QueueRegistry {
    entries: Vec<(u64, TrackQueue)>,
    released: Ghost<Seq<(u64, TrackState)>>,
}

impl QueueRegistry {
    /// The registered guilds and their queues, in insertion order. The
    /// order carries no meaning; only the key-to-queue mapping does.
    pub closed spec fn guilds(self) -> Seq<(u64, TrackQueue)> {
        self.entries@
    }

    /// The history of signals issued to tracks whose queue has been torn
    /// down, oldest first. A queue that is still registered keeps its own
    /// signal log; `leave` stops every track the departing queue holds,
    /// and this log retains those stop signals — exactly one per held
    /// track — after the queue itself is gone.
    pub closed spec fn released_log(self) -> Seq<(u64, TrackState)> {
        self.released@
    }

    /// Whether `guild` currently has a queue.
    pub open spec fn contains_guild(self, guild: u64) -> bool {
        exists|i: int|
            0 <= i < self.guilds().len() && (#[trigger] self.guilds()[i]).0 == guild
    }

    /// The position of `guild`'s entry; meaningful only while
    /// `contains_guild` holds, since keys are unique.
    pub open spec fn index_of(self, guild: u64) -> int {
        choose|i: int|
            0 <= i < self.guilds().len() && (#[trigger] self.guilds()[i]).0 == guild
    }

    /// The queue of `guild`; meaningful only while `contains_guild`
    /// holds.
    pub open spec fn queue_at(self, guild: u64) -> TrackQueue {
        self.guilds()[self.index_of(guild)].1
    }

    /// Well-formedness: every guild owns at most one queue, and every
    /// queue is itself well-formed.
    pub open spec fn wf(self) -> bool {
        &&& forall|i: int, j: int|
            #![trigger self.guilds()[i], self.guilds()[j]]
            0 <= i < j < self.guilds().len() ==> self.guilds()[i].0 != self.guilds()[j].0
        &&& forall|i: int| 0 <= i < self.guilds().len() ==> (#[trigger] self.guilds()[i]).1.wf()
    }

    /// With unique keys, an index holding `guild` is the one
    /// `index_of(guild)` denotes.
    proof fn lemma_index_unique(self, guild: u64, i: int)
        requires
            self.wf(),
            0 <= i < self.guilds().len(),
            self.guilds()[i].0 == guild,
        ensures
            self.contains_guild(guild),
            self.index_of(guild) == i,
    {
        assert(self.contains_guild(guild));
        let k = self.index_of(guild);
        if k < i {
            assert(self.guilds()[k].0 != self.guilds()[i].0);
        } else if k > i {
            assert(self.guilds()[i].0 != self.guilds()[k].0);
        }
    }

    /// An empty registry: no guild has a voice session yet, and nothing
    /// has been released.
    pub fn new() -> (r: Self)
        ensures
            r.guilds() == Seq::<(u64, TrackQueue)>::empty(),
            forall|g: u64| !r.contains_guild(g),
            r.released_log() == Seq::<(u64, TrackState)>::empty(),
            r.wf(),
    {
        QueueRegistry { entries: Vec::new(), released: Ghost(Seq::empty()) }
    }

    /// The number of guilds with an active queue.
    pub fn guild_count(&self) -> (r: usize)
        ensures
            r == self.guilds().len(),
    {
        self.entries.len()
    }

    /// Looks up the position of `guild`'s entry.
    fn find(&self, guild: u64) -> (r: Option<usize>)
        requires
            self.wf(),
        ensures
            match r {
                Some(i) => {
                    &&& i < self.guilds().len()
                    &&& self.guilds()[i as int].0 == guild
                    &&& self.contains_guild(guild)
                    &&& self.index_of(guild) == i as int
                },
                None => !self.contains_guild(guild),
            },
    {
        let mut k: usize = 0;
        while k < self.entries.len()
            invariant
                self.wf(),
                k <= self.guilds().len(),
                forall|i: int| 0 <= i < k ==> (#[trigger] self.guilds()[i]).0 != guild,
            decreases self.guilds().len() - k,
        {
            if self.entries[k].0 == guild {
                proof {
                    self.lemma_index_unique(guild, k as int);
                }
                return Some(k);
            }
            k += 1;
        }
        None
    }

    /// Whether `guild` currently has a queue.
    pub fn contains(&self, guild: u64) -> (r: bool)
        requires
            self.wf(),
        ensures
            r == self.contains_guild(guild),
    {
        match self.find(guild) {
            Some(_) => true,
            None => false,
        }
    }

    /// Establishes a fresh, empty queue for `guild`, returning whether
    /// one was created. A guild that is already present is a caller
    /// error: nothing changes and the call returns false.
    pub fn join(&mut self, guild: u64) -> (r: bool)
        requires
            old(self).wf(),
        ensures
            final(self).wf(),
            r == !old(self).contains_guild(guild),
            final(self).released_log() == old(self).released_log(),
            !r ==> *final(self) == *old(self),
            r ==> {
                &&& final(self).contains_guild(guild)
                &&& final(self).queue_at(guild).entries() == Seq::<Queued>::empty()
                &&& final(self).queue_at(guild).lifetime_stats() == (QueueStats {
                    added: 0,
                    completed: 0,
                    discarded: 0,
                })
                &&& final(self).guilds().len() == old(self).guilds().len() + 1
                &&& forall|g: u64|
                    g != guild ==> final(self).contains_guild(g) == old(self).contains_guild(g)
                &&& forall|g: u64|
                    g != guild && old(self).contains_guild(g) ==> final(self).queue_at(g) == old(
                        self,
                    ).queue_at(g)
            },
    {
        match self.find(guild) {
            Some(_) => false,
            None => {
                let ghost pre = *self;
                self.entries.push((guild, TrackQueue::new()));
                proof {
                    lemma_guilds_push(pre, *self, guild);
                }
                true
            },
        }
    }

    /// Tears a guild's voice session down: stops every track its queue
    /// still holds — the released log is extended by exactly one stop
    /// signal per held track, in queue order — and removes the entry,
    /// returning whether the guild was present.
    pub fn leave(&mut self, guild: u64) -> (r: bool)
        requires
            old(self).wf(),
        ensures
            final(self).wf(),
            r == old(self).contains_guild(guild),
            !r ==> *final(self) == *old(self),
            r ==> {
                &&& !final(self).contains_guild(guild)
                &&& final(self).guilds().len() == old(self).guilds().len() - 1
                &&& final(self).released_log() == old(self).released_log() + stop_signals(
                    old(self).queue_at(guild).entries(),
                )
                &&& forall|g: u64|
                    g != guild ==> final(self).contains_guild(g) == old(self).contains_guild(g)
                &&& forall|g: u64|
                    g != guild && old(self).contains_guild(g) ==> final(self).queue_at(g) == old(
                        self,
                    ).queue_at(g)
            },
    {
        match self.find(guild) {
            None => false,
            Some(i) => {
                let ghost pre = *self;
                let mut entry = self.entries.remove(i);
                // Release every track the departing guild still holds,
                // and retain the stop signals its queue logged for them.
                entry.1.stop();
                self.released = Ghost(
                    self.released@ + stop_signals(pre.guilds()[i as int].1.entries()),
                );
                proof {
                    lemma_guilds_remove(pre, *self, i as int);
                }
                true
            },
        }
    }

    /// Appends a track to `guild`'s queue, as [`TrackQueue::add`] does,
    /// returning whether the guild was present. The track must be new to
    /// that queue: the playback subsystem hands out unique identities.
    pub fn add_track(&mut self, guild: u64, track: TrackHandle, metadata: TrackMetadata) -> (r:
        bool)
        requires
            old(self).wf(),
            old(self).contains_guild(guild) ==> fresh_id(
                old(self).queue_at(guild).entries(),
                track.id,
            ),
        ensures
            final(self).wf(),
            r == old(self).contains_guild(guild),
            final(self).released_log() == old(self).released_log(),
            !r ==> *final(self) == *old(self),
            r ==> {
                &&& added_one(old(self).queue_at(guild), final(self).queue_at(guild), track,
                metadata)
                &&& registry_frame(*old(self), *final(self), guild)
            },
    {
        match self.find(guild) {
            None => false,
            Some(i) => {
                let ghost pre = *self;
                let mut entry = self.entries.remove(i);
                entry.1.add(track, metadata);
                self.entries.insert(i, entry);
                proof {
                    assert(self.guilds() =~= pre.guilds().update(
                        i as int,
                        self.guilds()[i as int],
                    ));
                    lemma_guilds_update(pre, *self, i as int);
                }
                true
            },
        }
    }

    /// Delivers a completion event for the track with identity
    /// `ended_id` to `guild`'s queue, as [`TrackQueue::handle_track_end`]
    /// does, returning whether the guild was present.
    pub fn handle_track_end(&mut self, guild: u64, ended_id: u64) -> (r: bool)
        requires
            old(self).wf(),
        ensures
            final(self).wf(),
            r == old(self).contains_guild(guild),
            final(self).released_log() == old(self).released_log(),
            !r ==> *final(self) == *old(self),
            r ==> {
                &&& completion_step(old(self).queue_at(guild), final(self).queue_at(guild),
                ended_id)
                &&& registry_frame(*old(self), *final(self), guild)
            },
    {
        match self.find(guild) {
            None => false,
            Some(i) => {
                let ghost pre = *self;
                let mut entry = self.entries.remove(i);
                entry.1.handle_track_end(ended_id);
                self.entries.insert(i, entry);
                proof {
                    assert(self.guilds() =~= pre.guilds().update(
                        i as int,
                        self.guilds()[i as int],
                    ));
                    lemma_guilds_update(pre, *self, i as int);
                }
                true
            },
        }
    }

    /// Signals the head of `guild`'s queue to stop, as
    /// [`TrackQueue::skip`] does: the stopped head's own completion
    /// event drives the advancement. Nothing if the guild is absent.
    pub fn skip(&mut self, guild: u64) -> (r: Option<TrackResult>)
        requires
            old(self).wf(),
        ensures
            final(self).wf(),
            r is Some <==> old(self).contains_guild(guild),
            final(self).released_log() == old(self).released_log(),
            r is None ==> *final(self) == *old(self),
            r matches Some(res) ==> {
                &&& head_signalled(old(self).queue_at(guild), final(self).queue_at(guild),
                TrackState::Stopped, res)
                &&& registry_frame(*old(self), *final(self), guild)
            },
    {
        match self.find(guild) {
            None => None,
            Some(i) => {
                let ghost pre = *self;
                let mut entry = self.entries.remove(i);
                let res = entry.1.skip();
                self.entries.insert(i, entry);
                proof {
                    assert(self.guilds() =~= pre.guilds().update(
                        i as int,
                        self.guilds()[i as int],
                    ));
                    lemma_guilds_update(pre, *self, i as int);
                }
                Some(res)
            },
        }
    }

    /// The number of tracks queued for `guild`, or nothing if the guild
    /// is absent.
    pub fn queue_len(&self, guild: u64) -> (r: Option<usize>)
        requires
            self.wf(),
        ensures
            match r {
                Some(n) => self.contains_guild(guild) && n == self.queue_at(guild).entries().len(),
                None => !self.contains_guild(guild),
            },
    {
        match self.find(guild) {
            None => None,
            Some(i) => Some(self.entries[i].1.len()),
        }
    }

    /// A copy of the handle of `guild`'s currently playing (head) track;
    /// nothing if the guild is absent or its queue is empty.
    pub fn current(&self, guild: u64) -> (r: Option<TrackHandle>)
        requires
            self.wf(),
        ensures
            !self.contains_guild(guild) ==> r is None,
            self.contains_guild(guild) ==> {
                let q = self.queue_at(guild);
                &&& q.entries().len() == 0 ==> r is None
                &&& q.entries().len() > 0 ==> r == Some(q.entries()[0].0)
            },
    {
        match self.find(guild) {
            None => None,
            Some(i) => self.entries[i].1.current(),
        }
    }

    /// A point-in-time snapshot of the handles queued for `guild`, head
    /// first, or nothing if the guild is absent.
    pub fn current_queue(&self, guild: u64) -> (r: Option<Vec<TrackHandle>>)
        requires
            self.wf(),
        ensures
            r is Some <==> self.contains_guild(guild),
            r matches Some(v) ==> {
                let q = self.queue_at(guild);
                &&& v@.len() == q.entries().len()
                &&& forall|k: int| 0 <= k < v@.len() ==> v@[k] == q.entries()[k].0
            },
    {
        match self.find(guild) {
            None => None,
            Some(i) => Some(self.entries[i].1.current_queue()),
        }
    }
}

/// What every per-guild operation leaves untouched: the set of
/// registered guilds and every other guild's queue.
pub open spec fn registry_frame(pre: QueueRegistry, post: QueueRegistry, guild: u64) -> bool {
    &&& post.guilds().len() == pre.guilds().len()
    &&& forall|g: u64| post.contains_guild(g) == pre.contains_guild(g)
    &&& forall|g: u64|
        g != guild && pre.contains_guild(g) ==> post.queue_at(g) == pre.queue_at(g)
}

/// Relates a registry to the one it becomes when a fresh entry for an
/// absent `guild` is appended.
proof fn lemma_guilds_push(pre: QueueRegistry, post: QueueRegistry, guild: u64)
    requires
        pre.wf(),
        !pre.contains_guild(guild),
        post.guilds().len() == pre.guilds().len() + 1,
        post.guilds() == pre.guilds().push(post.guilds()[pre.guilds().len() as int]),
        post.guilds()[pre.guilds().len() as int].0 == guild,
        post.guilds()[pre.guilds().len() as int].1.wf(),
    ensures
        post.wf(),
        post.contains_guild(guild),
        post.index_of(guild) == pre.guilds().len(),
        post.queue_at(guild) == post.guilds()[pre.guilds().len() as int].1,
        forall|g: u64| g != guild ==> post.contains_guild(g) == pre.contains_guild(g),
        forall|g: u64|
            g != guild && pre.contains_guild(g) ==> post.queue_at(g) == pre.queue_at(g),
{
    let n = pre.guilds().len() as int;
    assert forall|i: int| 0 <= i < n implies (#[trigger] post.guilds()[i]) == pre.guilds()[i] by {}
    assert(post.wf()) by {
        assert forall|i: int, j: int|
            #![trigger post.guilds()[i], post.guilds()[j]]
            0 <= i < j < post.guilds().len() implies post.guilds()[i].0 != post.guilds()[j].0 by {
            if j < n {
                assert(pre.guilds()[i].0 != pre.guilds()[j].0);
            } else {
                if post.guilds()[i].0 == guild {
                    assert(pre.contains_guild(guild));
                }
            }
        }
    }
    post.lemma_index_unique(guild, n);
    assert forall|g: u64| g != guild implies post.contains_guild(g) == pre.contains_guild(g) by {
        if pre.contains_guild(g) {
            let i = pre.index_of(g);
            assert(post.guilds()[i].0 == g);
        }
        if post.contains_guild(g) {
            let i = post.index_of(g);
            assert(i < n);
            assert(pre.guilds()[i].0 == g);
        }
    }
    assert forall|g: u64| g != guild && pre.contains_guild(g) implies post.queue_at(g)
        == pre.queue_at(g) by {
        let i = pre.index_of(g);
        post.lemma_index_unique(g, i);
    }
}

/// Relates a registry to the one it becomes when the queue at position
/// `i` is replaced, its guild key kept.
proof fn lemma_guilds_update(pre: QueueRegistry, post: QueueRegistry, i: int)
    requires
        pre.wf(),
        0 <= i < pre.guilds().len(),
        post.guilds().len() == pre.guilds().len(),
        post.guilds() == pre.guilds().update(i, post.guilds()[i]),
        post.guilds()[i].0 == pre.guilds()[i].0,
        post.guilds()[i].1.wf(),
    ensures
        post.wf(),
        post.contains_guild(pre.guilds()[i].0),
        post.index_of(pre.guilds()[i].0) == i,
        post.queue_at(pre.guilds()[i].0) == post.guilds()[i].1,
        registry_frame(pre, post, pre.guilds()[i].0),
{
    let guild = pre.guilds()[i].0;
    assert forall|k: int| 0 <= k < post.guilds().len() && k != i implies (
    #[trigger] post.guilds()[k]) == pre.guilds()[k] by {}
    assert(post.wf());
    post.lemma_index_unique(guild, i);
    pre.lemma_index_unique(guild, i);
    assert forall|g: u64| post.contains_guild(g) == pre.contains_guild(g) by {
        if pre.contains_guild(g) {
            let k = pre.index_of(g);
            assert(post.guilds()[k].0 == g);
        }
        if post.contains_guild(g) {
            let k = post.index_of(g);
            assert(pre.guilds()[k].0 == g);
        }
    }
    assert forall|g: u64| g != guild && pre.contains_guild(g) implies post.queue_at(g)
        == pre.queue_at(g) by {
        let k = pre.index_of(g);
        post.lemma_index_unique(g, k);
    }
}

/// Relates a registry to the one it becomes when the entry at position
/// `i` is removed.
proof fn lemma_guilds_remove(pre: QueueRegistry, post: QueueRegistry, i: int)
    requires
        pre.wf(),
        0 <= i < pre.guilds().len(),
        post.guilds() == pre.guilds().remove(i),
    ensures
        post.wf(),
        !post.contains_guild(pre.guilds()[i].0),
        forall|g: u64|
            g != pre.guilds()[i].0 ==> post.contains_guild(g) == pre.contains_guild(g),
        forall|g: u64|
            g != pre.guilds()[i].0 && pre.contains_guild(g) ==> post.queue_at(g) == pre.queue_at(
                g,
            ),
{
    let guild = pre.guilds()[i].0;
    assert forall|k: int| 0 <= k < post.guilds().len() implies (#[trigger] post.guilds()[k]) == (
    if k < i {
        pre.guilds()[k]
    } else {
        pre.guilds()[k + 1]
    }) by {}
    assert(post.wf()) by {
        assert forall|k: int, l: int|
            #![trigger post.guilds()[k], post.guilds()[l]]
            0 <= k < l < post.guilds().len() implies post.guilds()[k].0 != post.guilds()[l].0 by {
            let pk: int = if k < i {
                k
            } else {
                k + 1
            };
            let pl: int = if l < i {
                l
            } else {
                l + 1
            };
            assert(pre.guilds()[pk].0 != pre.guilds()[pl].0);
        }
    }
    assert forall|k: int| 0 <= k < post.guilds().len() implies (#[trigger] post.guilds()[k]).0
        != guild by {
        if k < i {
            assert(pre.guilds()[k].0 != pre.guilds()[i].0);
        } else {
            assert(pre.guilds()[i].0 != pre.guilds()[k + 1].0);
        }
    }
    assert forall|g: u64| g != guild implies post.contains_guild(g) == pre.contains_guild(g) by {
        if pre.contains_guild(g) {
            let k = pre.index_of(g);
            if k < i {
                assert(post.guilds()[k].0 == g);
            } else {
                assert(k != i);
                assert(post.guilds()[k - 1].0 == g);
            }
        }
        if post.contains_guild(g) {
            let k = post.index_of(g);
            if k < i {
                assert(pre.guilds()[k].0 == g);
            } else {
                assert(pre.guilds()[k + 1].0 == g);
            }
        }
    }
    assert forall|g: u64| g != guild && pre.contains_guild(g) implies post.queue_at(g)
        == pre.queue_at(g) by {
        let k = pre.index_of(g);
        pre.lemma_index_unique(g, k);
        if k < i {
            post.lemma_index_unique(g, k);
        } else {
            assert(k != i);
            assert(post.guilds()[k - 1] == pre.guilds()[k]);
            post.lemma_index_unique(g, k - 1);
        }
    }
}

} // verus!
