//! The queue core: a strictly ordered backlog of queued tracks for one
//! guild, together with the advancement logic driven by completion
//! events.
//!
//! The structural invariant is that only the head entry is ever active:
//! every entry behind the head stays paused (inert) until it is promoted.
//! Advancement happens in exactly one place, the completion-event entry
//! point [`TrackQueue::handle_track_end`], which checks the ended track's
//! identity against the head so that a completion event racing with
//! `skip`, `stop` or `dequeue` is dropped instead of popping twice.

use vstd::prelude::*;

verus! {

use std::collections::VecDeque;
use crate::track::{Queued, TrackError, TrackHandle, TrackMetadata, TrackResult, TrackState};

/// Lifetime counters of one queue, kept as ghost state: how many tracks
/// were ever accepted, how many completion events matched the head and
/// advanced the queue, and how many entries the advancement loop
/// discarded because they could not be started when promoted.
pub ghost struct QueueStats {
    /// Tracks ever accepted into the backlog.
    pub added: int,
    /// Head tracks popped because their own completion event arrived.
    pub completed: int,
    /// Entries discarded by the advancement loop because starting them
    /// failed when they were promoted.
    pub discarded: int,
}

/// Whether a queued entry is inert: paused, awaiting its turn.
pub open spec fn inert(q: Queued) -> bool {
    q.0.state == TrackState::Paused
}

/// The single-active-track invariant on the backlog: every entry behind
/// the head is inert. The head itself may be playing, paused, or stopped
/// while its completion event is still in flight.
pub open spec fn inert_tail(s: Seq<Queued>) -> bool {
    forall|i: int| 1 <= i < s.len() ==> inert(#[trigger] s[i])
}

/// No two entries of the backlog control the same track: identities are
/// unique, as the playback subsystem hands them out.
pub open spec fn distinct_ids(s: Seq<Queued>) -> bool {
    forall|i: int, j: int|
        #![trigger s[i], s[j]]
        0 <= i < j < s.len() ==> s[i].0.id != s[j].0.id
}

/// Whether `id` controls no entry of backlog `s`: what a freshly created
/// track's identity is to every queue it has not entered.
pub open spec fn fresh_id(s: Seq<Queued>, id: u64) -> bool {
    forall|i: int| 0 <= i < s.len() ==> (#[trigger] s[i]).0.id != id
}

/// The backlog discipline every operation preserves: entries behind the
/// head are inert, and no two entries control the same track.
pub open spec fn backlog_wf(s: Seq<Queued>) -> bool {
    &&& inert_tail(s)
    &&& distinct_ids(s)
}

/// The handle as it enters the backlog: left in the caller's state when
/// the queue was empty (it is already the head), paused otherwise.
pub open spec fn entered(track: TrackHandle, was_empty: bool) -> TrackHandle {
    if was_empty {
        track
    } else {
        TrackHandle { state: TrackState::Paused, ..track }
    }
}

/// The entry `q` with its handle's state replaced by `st`.
pub open spec fn with_state(q: Queued, st: TrackState) -> Queued {
    Queued(TrackHandle { state: st, ..q.0 }, q.1)
}

/// The backlog after the advancement loop has run over `s`: leading
/// entries that cannot be started are discarded, and the first startable
/// entry, if any, is set playing and becomes the new head.
pub open spec fn promoted(s: Seq<Queued>) -> Seq<Queued>
    decreases s.len(),
{
    if s.len() == 0 {
        s
    } else if s[0].0.spec_startable() {
        s.update(0, with_state(s[0], TrackState::Playing))
    } else {
        promoted(s.drop_first())
    }
}

/// How many leading entries of `s` the advancement loop discards before
/// it finds a startable head or exhausts the backlog.
pub open spec fn discarded_by_promotion(s: Seq<Queued>) -> int
    decreases s.len(),
{
    if s.len() == 0 {
        0
    } else if s[0].0.spec_startable() {
        0
    } else {
        1 + discarded_by_promotion(s.drop_first())
    }
}

/// The given entries as play signals, in order: what the advancement
/// loop asks of each entry it examines.
pub open spec fn play_records(s: Seq<Queued>) -> Seq<(u64, TrackState)> {
    s.map_values(|q: Queued| (q.0.id, TrackState::Playing))
}

/// How many entries of `s` the advancement loop signals to play: the
/// discarded prefix and, where one exists, the startable entry after it.
pub open spec fn examined_by_promotion(s: Seq<Queued>) -> int {
    if discarded_by_promotion(s) < s.len() {
        discarded_by_promotion(s) + 1
    } else {
        s.len() as int
    }
}

/// The play signals the advancement loop issues over backlog `s`: one
/// per examined entry, in order.
pub open spec fn play_signals(s: Seq<Queued>) -> Seq<(u64, TrackState)> {
    play_records(s.take(examined_by_promotion(s)))
}

/// The signals `stop` issues when it drains backlog `s`: one stop signal
/// per held entry, in queue order.
pub open spec fn stop_signals(s: Seq<Queued>) -> Seq<(u64, TrackState)> {
    s.map_values(|q: Queued| (q.0.id, TrackState::Stopped))
}

/// The relation between a queue before and after one track is accepted:
/// the entry enters at the back of the backlog, paused unless the queue
/// was empty, and one more track is accounted as added. No signal is
/// issued: the enqueue pause is set directly on the track before the
/// playback subsystem owns it, so the signal log is unchanged.
pub open spec fn added_one(
    pre: TrackQueue,
    post: TrackQueue,
    track: TrackHandle,
    metadata: TrackMetadata,
) -> bool {
    &&& post.entries() == pre.entries().push(
        Queued(entered(track, pre.entries().len() == 0), metadata),
    )
    &&& post.lifetime_stats() == (QueueStats {
        added: pre.lifetime_stats().added + 1,
        ..pre.lifetime_stats()
    })
    &&& post.signal_log() == pre.signal_log()
}

/// The relation between a queue before and after its head is signalled
/// with `signal` and `r` came back: a no-op success on an empty queue;
/// the head's state becomes `signal` if it was startable; otherwise the
/// failure is surfaced and the backlog is unchanged. On a non-empty
/// queue the signal is issued to the head — and logged — whether or not
/// it succeeds; the backlog's makeup and the lifetime counters are never
/// disturbed by a signal.
pub open spec fn head_signalled(
    pre: TrackQueue,
    post: TrackQueue,
    signal: TrackState,
    r: TrackResult,
) -> bool {
    &&& post.lifetime_stats() == pre.lifetime_stats()
    &&& if pre.entries().len() == 0 {
        &&& r is Ok
        &&& post.entries() == pre.entries()
        &&& post.signal_log() == pre.signal_log()
    } else if pre.entries()[0].0.spec_startable() {
        &&& r is Ok
        &&& post.entries() == pre.entries().update(0, with_state(pre.entries()[0], signal))
        &&& post.signal_log() == pre.signal_log().push((pre.entries()[0].0.id, signal))
    } else {
        &&& r == TrackResult::Err(TrackError::Finished)
        &&& post.entries() == pre.entries()
        &&& post.signal_log() == pre.signal_log().push((pre.entries()[0].0.id, signal))
    }
}

/// The relation between a queue before and after one delivery of a
/// completion event for the track with identity `ended_id`. A stale
/// event — empty queue or identity mismatch with the current head — is a
/// no-op, so delivery is idempotent and advancement happens at most once
/// per head track. A matching event pops the head and promotes the next
/// startable entry, counting the pops in the lifetime counters and
/// logging one play signal per examined entry.
pub open spec fn completion_step(pre: TrackQueue, post: TrackQueue, ended_id: u64) -> bool {
    if pre.entries().len() == 0 || pre.entries()[0].0.id != ended_id {
        post == pre
    } else {
        &&& post.entries() == promoted(pre.entries().drop_first())
        &&& post.lifetime_stats() == (QueueStats {
            completed: pre.lifetime_stats().completed + 1,
            discarded: pre.lifetime_stats().discarded + discarded_by_promotion(
                pre.entries().drop_first(),
            ),
            ..pre.lifetime_stats()
        })
        &&& post.signal_log() == pre.signal_log() + play_signals(pre.entries().drop_first())
    }
}

/// The sequential playback queue of one guild.
///
/// Operations on the ordered backlog are short, structural mutations; a
/// caller that shares one queue across tasks wraps it in the mutual
/// exclusion of its choice, so that all operations are linearised.
pub struct TrackQueue {
    tracks: VecDeque<Queued>,
    stats: Ghost<QueueStats>,
    signals: Ghost<Seq<(u64, TrackState)>>,
}

impl TrackQueue {
    /// The ordered backlog, head first.
    pub closed spec fn entries(self) -> Seq<Queued> {
        self.tracks@
    }

    /// The lifetime counters of this queue.
    pub closed spec fn lifetime_stats(self) -> QueueStats {
        self.stats@
    }

    /// The history of signals this queue has issued to its entries'
    /// underlying resources, oldest first: one record — track identity
    /// and requested state — per play, pause or stop call, whatever the
    /// call returned. `stop`'s contract extends it by exactly one stop
    /// signal per held entry, making the release guarantee visible.
    pub closed spec fn signal_log(self) -> Seq<(u64, TrackState)> {
        self.signals@
    }

    /// Completion-advancement pops over the lifetime of the queue: heads
    /// popped for their own completion event plus entries discarded as
    /// unstartable. Never exceeds the number of tracks ever added.
    pub open spec fn advanced(self) -> int {
        self.lifetime_stats().completed + self.lifetime_stats().discarded
    }

    /// Well-formedness: the single-active-track invariant and identity
    /// uniqueness hold of the backlog, and the lifetime counters account
    /// for every entry — each track ever added is still queued, was
    /// advanced past, or was removed by an explicit structural operation.
    pub open spec fn wf(self) -> bool {
        &&& backlog_wf(self.entries())
        &&& self.lifetime_stats().completed >= 0
        &&& self.lifetime_stats().discarded >= 0
        &&& self.lifetime_stats().added >= self.advanced() + self.entries().len()
    }

    /// Creates a new, empty track queue.
    pub fn new() -> (r: Self)
        ensures
            r.entries() == Seq::<Queued>::empty(),
            r.lifetime_stats() == (QueueStats { added: 0, completed: 0, discarded: 0 }),
            r.signal_log() == Seq::<(u64, TrackState)>::empty(),
            r.wf(),
    {
        TrackQueue {
            tracks: VecDeque::new(),
            stats: Ghost(QueueStats { added: 0, completed: 0, discarded: 0 }),
            signals: Ghost(Seq::empty()),
        }
    }

    /// Appends a track to the backlog with the given metadata snapshot.
    ///
    /// If the backlog is non-empty the new track is not yet its turn and
    /// is put in the paused state; otherwise it enters as the head in
    /// whatever state the caller started it in, conventionally playing.
    /// Adding always succeeds structurally. The track must be new to this
    /// queue: the playback subsystem hands out unique identities, and the
    /// identity check of the completion path depends on them.
    pub fn add(&mut self, track: TrackHandle, metadata: TrackMetadata)
        requires
            old(self).wf(),
            fresh_id(old(self).entries(), track.id),
        ensures
            added_one(*old(self), *final(self), track, metadata),
            final(self).wf(),
    {
        let mut track = track;
        if self.tracks.len() > 0 {
            track.state = TrackState::Paused;
        }
        self.tracks.push_back(Queued(track, metadata));
        self.stats = Ghost(QueueStats { added: self.stats@.added + 1, ..self.stats@ });
    }

    /// Appends a freshly resolved track, snapshotting the metadata its
    /// own handle reports at enqueue time.
    pub fn add_source(&mut self, track: TrackHandle)
        requires
            old(self).wf(),
            fresh_id(old(self).entries(), track.id),
        ensures
            added_one(*old(self), *final(self), track, track.metadata),
            final(self).wf(),
    {
        let metadata = track.metadata.clone();
        self.add(track, metadata);
    }

    /// Returns a copy of the handle of the currently playing (head)
    /// track, or nothing if the queue is empty.
    pub fn current(&self) -> (r: Option<TrackHandle>)
        ensures
            self.entries().len() == 0 ==> r is None,
            self.entries().len() > 0 ==> r == Some(self.entries()[0].0),
    {
        if self.tracks.len() > 0 {
            let head: &Queued = &self.tracks[0];
            Some(head.handle())
        } else {
            None
        }
    }

    /// The number of tracks currently in the queue, the head included.
    pub fn len(&self) -> (r: usize)
        ensures
            r == self.entries().len(),
    {
        self.tracks.len()
    }

    /// Whether no track is currently queued.
    pub fn is_empty(&self) -> (r: bool)
        ensures
            r == (self.entries().len() == 0),
    {
        self.tracks.len() == 0
    }

    /// Signals the head track with `signal` and reinstates it; a shared
    /// body for `pause`, `resume` and `skip`, which differ only in the
    /// state they request.
    fn signal_head(&mut self, signal: TrackState) -> (r: TrackResult)
        requires
            old(self).wf(),
        ensures
            final(self).wf(),
            head_signalled(*old(self), *final(self), signal, r),
    {
        let ghost s = self.tracks@;
        match self.tracks.pop_front() {
            None => Ok(()),
            Some(mut q) => {
                let signalled = q.0.id;
                let r = match signal {
                    TrackState::Playing => q.0.play(),
                    TrackState::Paused => q.0.pause(),
                    TrackState::Stopped => q.0.stop(),
                };
                self.tracks.push_front(q);
                self.signals = Ghost(self.signals@.push((signalled, signal)));
                proof {
                    if s[0].0.spec_startable() {
                        assert(self.tracks@ =~= s.update(0, with_state(s[0], signal)));
                    } else {
                        assert(self.tracks@ =~= s);
                    }
                }
                r
            },
        }
    }

    /// Pauses the track at the head of the queue. A no-op on an empty
    /// queue; a signal failure against a track that is already gone is
    /// surfaced, and the backlog is unchanged by it.
    pub fn pause(&mut self) -> (r: TrackResult)
        requires
            old(self).wf(),
        ensures
            final(self).wf(),
            head_signalled(*old(self), *final(self), TrackState::Paused, r),
    {
        self.signal_head(TrackState::Paused)
    }

    /// Resumes the track at the head of the queue. A no-op on an empty
    /// queue; a signal failure against a track that is already gone is
    /// surfaced, and the backlog is unchanged by it.
    pub fn resume(&mut self) -> (r: TrackResult)
        requires
            old(self).wf(),
        ensures
            final(self).wf(),
            head_signalled(*old(self), *final(self), TrackState::Playing, r),
    {
        self.signal_head(TrackState::Playing)
    }

    /// Skips to the next track by signalling the head to stop.
    ///
    /// Skipping does not pop the queue: the stopped head's own completion
    /// event drives the normal advancement, so that exactly one code path
    /// ever advances the head and a skip racing with natural completion
    /// cannot pop the same head twice.
    pub fn skip(&mut self) -> (r: TrackResult)
        requires
            old(self).wf(),
        ensures
            final(self).wf(),
            head_signalled(*old(self), *final(self), TrackState::Stopped, r),
    {
        self.signal_head(TrackState::Stopped)
    }

    /// Stops every queued track and drains the backlog.
    ///
    /// This is the designated release point: the signal log is extended
    /// by exactly one stop signal per held entry, in queue order, so
    /// every held track's underlying resource is signalled to stop
    /// exactly once. A signal failure only means the track is already
    /// gone, so failures are ignored and the drain always completes.
    pub fn stop(&mut self)
        requires
            old(self).wf(),
        ensures
            final(self).entries() == Seq::<Queued>::empty(),
            final(self).lifetime_stats() == old(self).lifetime_stats(),
            final(self).signal_log() == old(self).signal_log() + stop_signals(
                old(self).entries(),
            ),
            final(self).wf(),
    {
        let ghost s0 = self.tracks@;
        let ghost sig0 = self.signals@;
        let ghost mut k: int = 0;
        proof {
            assert(s0.skip(0) =~= s0);
            assert(sig0 + stop_signals(s0.take(0)) =~= sig0);
        }
        loop
            invariant
                0 <= k <= s0.len(),
                self.tracks@ == s0.skip(k),
                self.stats@ == old(self).stats@,
                self.signals@ == sig0 + stop_signals(s0.take(k)),
            ensures
                self.tracks@.len() == 0,
                self.stats@ == old(self).stats@,
                self.signals@ == sig0 + stop_signals(s0),
            decreases s0.len() - k,
        {
            match self.tracks.pop_front() {
                None => {
                    proof {
                        assert(s0.take(k) =~= s0);
                    }
                    break ;
                },
                Some(mut q) => {
                    proof {
                        assert(q == s0.skip(k)[0]);
                        assert(s0.skip(k)[0] == s0[k]);
                    }
                    let released = q.0.id;
                    // An error here just means the track is already gone.
                    let _ = q.0.stop();
                    self.signals = Ghost(self.signals@.push((released, TrackState::Stopped)));
                    proof {
                        assert(s0.skip(k).drop_first() =~= s0.skip(k + 1));
                        assert((sig0 + stop_signals(s0.take(k))).push((s0[k].0.id,
                        TrackState::Stopped)) =~= sig0 + stop_signals(s0.take(k + 1)));
                        k = k + 1;
                    }
                },
            }
        }
    }

    /// Removes and returns the entry at `index` without stopping it —
    /// no signal is issued, the log is untouched — or nothing if the
    /// index is out of range. The caller decides whether to stop the
    /// removed track or restart it elsewhere — the returned entry can be
    /// re-added to this queue via [`TrackQueue::modify_queue`] — and the
    /// rest of the queue, the current head included, is not disturbed.
    pub fn dequeue(&mut self, index: usize) -> (r: Option<Queued>)
        requires
            old(self).wf(),
        ensures
            final(self).wf(),
            final(self).lifetime_stats() == old(self).lifetime_stats(),
            final(self).signal_log() == old(self).signal_log(),
            index < old(self).entries().len() ==> r == Some(old(self).entries()[index as int])
                && final(self).entries() == old(self).entries().remove(index as int),
            index >= old(self).entries().len() ==> r is None && final(self).entries() == old(
                self,
            ).entries(),
    {
        let take_at = |mut v: VecDeque<Queued>| -> (res: (VecDeque<Queued>, Option<Queued>))
            ensures
                index < v@.len() ==> res.1 == Some(v@[index as int]) && res.0@ == v@.remove(
                    index as int,
                ),
                index >= v@.len() ==> res.1 is None && res.0@ == v@,
            {
                let r = v.remove(index);
                (v, r)
            };
        proof {
            assert forall|v: Seq<Queued>, w: Seq<Queued>|
                backlog_wf(v) && index < v.len() && w == v.remove(
                    index as int,
                ) implies backlog_wf(w) by {
                assert forall|i: int| 0 <= i < w.len() implies (#[trigger] w[i]) == (
                if i < index {
                    v[i]
                } else {
                    v[i + 1]
                }) by {}
                assert(inert_tail(w));
                assert forall|i: int, j: int|
                    #![trigger w[i], w[j]]
                    0 <= i < j < w.len() implies w[i].0.id != w[j].0.id by {
                    let vi: int = if i < index {
                        i
                    } else {
                        i + 1
                    };
                    let vj: int = if j < index {
                        j
                    } else {
                        j + 1
                    };
                    assert(v[vi].0.id != v[vj].0.id);
                }
            }
        }
        self.modify_queue(take_at)
    }

    /// Returns a point-in-time ordered snapshot of the handles of all
    /// queued tracks, the current head first. The snapshot allows no
    /// modification of the queue.
    pub fn current_queue(&self) -> (r: Vec<TrackHandle>)
        ensures
            r@.len() == self.entries().len(),
            forall|i: int| 0 <= i < r@.len() ==> r@[i] == self.entries()[i].0,
    {
        let mut out: Vec<TrackHandle> = Vec::new();
        let mut idx: usize = 0;
        while idx < self.tracks.len()
            invariant
                idx <= self.tracks@.len(),
                out@.len() == idx,
                forall|i: int| 0 <= i < idx ==> out@[i] == self.tracks@[i].0,
            decreases self.tracks@.len() - idx,
        {
            let q: &Queued = &self.tracks[idx];
            out.push(q.handle());
            idx += 1;
        }
        out
    }

    /// Hands the raw ordered backlog to `func` for arbitrary reordering
    /// or removal under the queue's exclusive access, passing the return
    /// value through.
    ///
    /// The function must keep every entry behind the head inert and the
    /// track identities distinct; it is also responsible for stopping any
    /// entries it removes, to avoid resource leaks — the queue issues no
    /// signals here and its signal log is unchanged. If the function
    /// hands back more entries than it was given, the net growth is
    /// counted as added.
    pub fn modify_queue<F, O>(&mut self, func: F) -> (r: O) where
        F: FnOnce(VecDeque<Queued>) -> (VecDeque<Queued>, O),

        requires
            old(self).wf(),
            forall|v: VecDeque<Queued>| v@ == old(self).entries() ==> call_requires(func, (v,)),
            forall|v: VecDeque<Queued>, res: (VecDeque<Queued>, O)|
                call_ensures(func, (v,), res) && backlog_wf(v@) ==> backlog_wf(res.0@),
        ensures
            final(self).wf(),
            final(self).signal_log() == old(self).signal_log(),
            exists|v: VecDeque<Queued>, nv: VecDeque<Queued>|
                {
                    &&& v@ == old(self).entries()
                    &&& #[trigger] call_ensures(func, (v,), (nv, r))
                    &&& final(self).entries() == nv@
                },
            final(self).lifetime_stats() == (QueueStats {
                added: old(self).lifetime_stats().added + if final(self).entries().len() > old(
                    self,
                ).entries().len() {
                    final(self).entries().len() - old(self).entries().len()
                } else {
                    0
                },
                ..old(self).lifetime_stats()
            }),
    {
        let ghost s0 = self.tracks@;
        let mut taken: VecDeque<Queued> = VecDeque::new();
        core::mem::swap(&mut self.tracks, &mut taken);
        let (reordered, r) = func(taken);
        self.tracks = reordered;
        let ghost grown: int = if self.tracks@.len() > s0.len() {
            self.tracks@.len() - s0.len()
        } else {
            0
        };
        self.stats = Ghost(QueueStats { added: self.stats@.added + grown, ..self.stats@ });
        r
    }

    /// The completion-event entry point: the playback subsystem reports
    /// that the track with identity `ended_id` has ended.
    ///
    /// A track may have been stopped or removed by a concurrent `skip`,
    /// `stop` or `dequeue` before its completion event is delivered, so
    /// the ended identity is first checked against the current head: a
    /// stale event — empty queue or identity mismatch — is a no-op, which
    /// makes delivery idempotent and advancement happen at most once per
    /// head track. On a match the head is popped and the advancement loop
    /// starts the next head, discarding any entry whose resource fails to
    /// start, until a head plays or the backlog is empty.
    pub fn handle_track_end(&mut self, ended_id: u64)
        requires
            old(self).wf(),
        ensures
            final(self).wf(),
            completion_step(*old(self), *final(self), ended_id),
    {
        if self.tracks.len() == 0 {
            return ;
        }
        let head: &Queued = &self.tracks[0];
        if head.0.id != ended_id {
            return ;
        }
        let ghost rest = self.tracks@.drop_first();
        let ghost a0 = self.stats@.added;
        let ghost c0 = self.stats@.completed;
        let ghost d0 = self.stats@.discarded;
        let ghost sig0 = self.signals@;
        self.tracks.pop_front();
        self.stats = Ghost(QueueStats { completed: self.stats@.completed + 1, ..self.stats@ });
        let ghost mut j: int = 0;
        proof {
            assert(rest.skip(0) =~= rest);
            assert(sig0 + play_records(rest.take(0)) =~= sig0);
            assert forall|a: int, b: int|
                #![trigger rest[a], rest[b]]
                0 <= a < b < rest.len() implies rest[a].0.id != rest[b].0.id by {
                assert(self.tracks@[a] == rest[a]);
            }
        }
        // Keep going until one head starts or the backlog runs out,
        // discarding entries which cannot be used for whatever reason.
        loop
            invariant_except_break
                self.tracks@ == rest.skip(j),
                self.signals@ == sig0 + play_records(rest.take(j)),
            invariant
                0 <= j <= rest.len(),
                forall|i: int| 0 <= i < rest.len() ==> inert(#[trigger] rest[i]),
                distinct_ids(rest),
                promoted(rest) == promoted(rest.skip(j)),
                discarded_by_promotion(rest) == j + discarded_by_promotion(rest.skip(j)),
                self.stats@ == (QueueStats { added: a0, completed: c0 + 1, discarded: d0 + j }),
            ensures
                self.tracks@ == promoted(rest),
                self.tracks@.len() == rest.len() - discarded_by_promotion(rest),
                backlog_wf(self.tracks@),
                self.stats@ == (QueueStats {
                    added: a0,
                    completed: c0 + 1,
                    discarded: d0 + discarded_by_promotion(rest),
                }),
                self.signals@ == sig0 + play_signals(rest),
            decreases rest.len() - j,
        {
            match self.tracks.pop_front() {
                None => {
                    proof {
                        assert(examined_by_promotion(rest) == j);
                    }
                    break ;
                },
                Some(mut q) => {
                    proof {
                        assert(q == rest.skip(j)[0]);
                        assert(rest.skip(j)[0] == rest[j]);
                    }
                    let promotee = q.0.id;
                    let attempt = q.0.play();
                    self.signals = Ghost(self.signals@.push((promotee, TrackState::Playing)));
                    proof {
                        assert((sig0 + play_records(rest.take(j))).push((rest[j].0.id,
                        TrackState::Playing)) =~= sig0 + play_records(rest.take(j + 1)));
                    }
                    match attempt {
                        Ok(_) => {
                            self.tracks.push_front(q);
                            proof {
                                assert(self.tracks@ =~= rest.skip(j).update(
                                    0,
                                    with_state(rest.skip(j)[0], TrackState::Playing),
                                ));
                                assert(examined_by_promotion(rest) == j + 1);
                                assert forall|a: int, b: int|
                                    #![trigger self.tracks@[a], self.tracks@[b]]
                                    0 <= a < b < self.tracks@.len() implies self.tracks@[a].0.id
                                    != self.tracks@[b].0.id by {
                                    assert(self.tracks@[a].0.id == rest[j + a].0.id);
                                    assert(self.tracks@[b].0.id == rest[j + b].0.id);
                                    assert(rest[j + a].0.id != rest[j + b].0.id);
                                }
                            }
                            break ;
                        },
                        Err(_) => {
                            // Discard the entry: its resource is gone.
                            self.stats = Ghost(
                                QueueStats { discarded: self.stats@.discarded + 1, ..self.stats@ },
                            );
                            proof {
                                assert(rest.skip(j).drop_first() =~= rest.skip(j + 1));
                                j = j + 1;
                            }
                        },
                    }
                },
            }
        }
    }
}

impl Default for TrackQueue {
    /// An empty queue, equal to what [`TrackQueue::new`] builds.
    fn default() -> (r: Self)
        ensures
            r.entries() == Seq::<Queued>::empty(),
            r.lifetime_stats() == (QueueStats { added: 0, completed: 0, discarded: 0 }),
            r.signal_log() == Seq::<(u64, TrackState)>::empty(),
            r.wf(),
    {
        TrackQueue::new()
    }
}

/// Law: only the head is ever active. In every well-formed queue state,
/// every entry behind the head is inert — paused and untouched since it
/// was enqueued — until it is promoted to the head. Every operation of
/// [`TrackQueue`] preserves well-formedness, and [`TrackQueue::new`]
/// establishes it, so this holds of all reachable states.
pub proof fn lemma_single_active(q: TrackQueue, i: int)
    requires
        q.wf(),
        1 <= i < q.entries().len(),
    ensures
        inert(q.entries()[i]),
{
}

/// Law: a stale completion event is a no-op. Delivering a completion
/// event whose track identity does not match the current head — because
/// a concurrent `skip`, `stop` or `dequeue` already dealt with that
/// track, or the queue is empty — leaves the backlog, the lifetime
/// counters and the signal log exactly as they were.
pub proof fn lemma_stale_completion_no_op(pre: TrackQueue, post: TrackQueue, ended_id: u64)
    requires
        completion_step(pre, post, ended_id),
        pre.entries().len() == 0 || pre.entries()[0].0.id != ended_id,
    ensures
        post == pre,
{
}

/// After the advancement loop, the surviving head — if any — is one of
/// the examined entries of `s`, so an identity absent from `s` cannot
/// head the promoted backlog.
proof fn lemma_promoted_head_fresh(s: Seq<Queued>, id: u64)
    requires
        fresh_id(s, id),
    ensures
        promoted(s).len() > 0 ==> promoted(s)[0].0.id != id,
    decreases s.len(),
{
    if s.len() == 0 {
    } else if s[0].0.spec_startable() {
        assert(promoted(s)[0] == with_state(s[0], TrackState::Playing));
    } else {
        assert forall|i: int| 0 <= i < s.drop_first().len() implies (#[trigger] s.drop_first()[
        i]).0.id != id by {
            assert(s.drop_first()[i] == s[i + 1]);
        }
        lemma_promoted_head_fresh(s.drop_first(), id);
    }
}

/// Law: the queue advances at most once per head track. Track
/// identities in a well-formed queue are distinct, so once a matching
/// completion event for the head has been processed, the new head can
/// never carry the identity that was popped: delivering the same event
/// again is a strict no-op.
pub proof fn lemma_completion_once_per_head(
    pre: TrackQueue,
    mid: TrackQueue,
    post: TrackQueue,
    ended_id: u64,
)
    requires
        pre.wf(),
        completion_step(pre, mid, ended_id),
        completion_step(mid, post, ended_id),
        pre.entries().len() > 0,
        pre.entries()[0].0.id == ended_id,
    ensures
        post == mid,
{
    let rest = pre.entries().drop_first();
    assert forall|i: int| 0 <= i < rest.len() implies (#[trigger] rest[i]).0.id != ended_id by {
        assert(rest[i] == pre.entries()[i + 1]);
        assert(pre.entries()[0].0.id != pre.entries()[i + 1].0.id);
    }
    lemma_promoted_head_fresh(rest, ended_id);
}

/// Law: advancement is fully accounted for. The total number of
/// completion-advancement pops over the lifetime of a well-formed queue
/// equals the number of head tracks whose own completion event arrived
/// plus the number of entries discarded as unstartable, and it never
/// exceeds the number of tracks ever added.
pub proof fn lemma_advancement_accounting(q: TrackQueue)
    requires
        q.wf(),
    ensures
        q.advanced() == q.lifetime_stats().completed + q.lifetime_stats().discarded,
        q.advanced() <= q.lifetime_stats().added,
{
}

} // verus!
