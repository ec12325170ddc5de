//! The track model: a plain-value stand-in for the playback subsystem's
//! control handle to one audio resource.
//!
//! A handle carries exactly what the queue logic reads of a track: its
//! unique identity, its play state, whether the underlying resource is
//! still usable, and a descriptive metadata snapshot. Signalling a track
//! (`play`, `pause`, `stop`) succeeds only while the resource is alive
//! and the track has not already been stopped; every failure is surfaced
//! as a result, never a panic.

use vstd::prelude::*;

verus! {

/// The play state of one track, as the queue observes it.
#[derive(Clone, Copy, Debug, PartialEq, Eq, Structural)]
pub enum TrackState {
    /// The track is playing.
    Playing,
    /// The track is paused, either as the current head or because it
    /// waits in the backlog for its turn.
    Paused,
    /// The track was stopped or finished; it can never be signalled again.
    Stopped,
}

/// The error a signalling call returns when the track is already gone:
/// stopped, finished, or its underlying resource invalidated.
#[derive(Clone, Copy, Debug, PartialEq, Eq, Structural)]
pub enum TrackError {
    /// The track has ended or its resource is no longer usable.
    Finished,
}

/// The result of signalling a track.
pub type TrackResult = Result<(), TrackError>;

/// Descriptive metadata snapshotted at enqueue time, since the underlying
/// resource need not keep it readable after the track ends. All fields
/// are optional and source-dependent.
#[derive(Debug)]
pub struct TrackMetadata {
    /// The title of the piece.
    pub title: Option<String>,
    /// The track name, used as a fallback where no title is known.
    pub track: Option<String>,
    /// The performing artist.
    pub artist: Option<String>,
    /// The duration in whole seconds.
    pub duration: Option<u64>,
    /// The address the audio was resolved from.
    pub source_url: Option<String>,
}

/// Copies an optional string, preserving the value exactly.
fn clone_opt_string(s: &Option<String>) -> (r: Option<String>)
    ensures
        r == *s,
{
    match s {
        Some(v) => Some(v.clone()),
        None => None,
    }
}

impl TrackMetadata {
    /// Metadata with every field unknown.
    pub fn empty() -> (r: Self)
        ensures
            r.title is None,
            r.track is None,
            r.artist is None,
            r.duration is None,
            r.source_url is None,
    {
        TrackMetadata {
            title: None,
            track: None,
            artist: None,
            duration: None,
            source_url: None,
        }
    }
}

impl Default for TrackMetadata {
    /// Metadata with every field unknown, equal to what
    /// [`TrackMetadata::empty`] builds.
    fn default() -> (r: Self)
        ensures
            r.title is None,
            r.track is None,
            r.artist is None,
            r.duration is None,
            r.source_url is None,
    {
        TrackMetadata::empty()
    }
}

impl Clone for TrackMetadata {
    fn clone(&self) -> (r: Self)
        ensures
            r == *self,
    {
        TrackMetadata {
            title: clone_opt_string(&self.title),
            track: clone_opt_string(&self.track),
            artist: clone_opt_string(&self.artist),
            duration: self.duration,
            source_url: clone_opt_string(&self.source_url),
        }
    }
}

/// The control handle to one audio resource.
///
/// The playback subsystem is the true owner of the resource; the queue
/// holds handles only to control and query tracks. `alive` models
/// whether the underlying resource is still usable: a track whose
/// resource was invalidated cannot be (re)started when promoted to the
/// head of a queue.
#[derive(Debug)]
pub struct TrackHandle {
    /// The unique identity of this track, used to match completion
    /// events against the queue head.
    pub id: u64,
    /// The current play state.
    pub state: TrackState,
    /// Whether the underlying resource is still usable.
    pub alive: bool,
    /// The descriptive metadata the resource reported.
    pub metadata: TrackMetadata,
}

impl TrackHandle {
    /// A fresh handle for a just-created track: playing, with a usable
    /// resource, as the playback subsystem conventionally hands it out.
    pub fn new(id: u64, metadata: TrackMetadata) -> (r: Self)
        ensures
            r.id == id,
            r.state == TrackState::Playing,
            r.alive,
            r.metadata == metadata,
    {
        TrackHandle { id, state: TrackState::Playing, alive: true, metadata }
    }

    /// Whether a signalling call on this handle would succeed: the
    /// resource is usable and the track has not been stopped.
    pub open spec fn spec_startable(self) -> bool {
        self.alive && self.state != TrackState::Stopped
    }

    /// Marks the underlying resource as invalidated, as happens when the
    /// playback subsystem discards it; every later signal fails.
    pub fn invalidate(&mut self)
        ensures
            *final(self) == (TrackHandle { alive: false, ..*old(self) }),
    {
        self.alive = false;
    }

    /// Signals the track to play or resume.
    pub fn play(&mut self) -> (r: TrackResult)
        ensures
            old(self).spec_startable() ==> {
                &&& r is Ok
                &&& *final(self) == (TrackHandle { state: TrackState::Playing, ..*old(self) })
            },
            !old(self).spec_startable() ==> {
                &&& r == TrackResult::Err(TrackError::Finished)
                &&& *final(self) == *old(self)
            },
    {
        if self.alive && self.state != TrackState::Stopped {
            self.state = TrackState::Playing;
            Ok(())
        } else {
            Err(TrackError::Finished)
        }
    }

    /// Signals the track to pause.
    pub fn pause(&mut self) -> (r: TrackResult)
        ensures
            old(self).spec_startable() ==> {
                &&& r is Ok
                &&& *final(self) == (TrackHandle { state: TrackState::Paused, ..*old(self) })
            },
            !old(self).spec_startable() ==> {
                &&& r == TrackResult::Err(TrackError::Finished)
                &&& *final(self) == *old(self)
            },
    {
        if self.alive && self.state != TrackState::Stopped {
            self.state = TrackState::Paused;
            Ok(())
        } else {
            Err(TrackError::Finished)
        }
    }

    /// Signals the track to stop. A stopped track is gone for good: it
    /// cannot be restarted, and stopping it again fails.
    pub fn stop(&mut self) -> (r: TrackResult)
        ensures
            old(self).spec_startable() ==> {
                &&& r is Ok
                &&& *final(self) == (TrackHandle { state: TrackState::Stopped, ..*old(self) })
            },
            !old(self).spec_startable() ==> {
                &&& r == TrackResult::Err(TrackError::Finished)
                &&& *final(self) == *old(self)
            },
    {
        if self.alive && self.state != TrackState::Stopped {
            self.state = TrackState::Stopped;
            Ok(())
        } else {
            Err(TrackError::Finished)
        }
    }
}

impl Clone for TrackHandle {
    fn clone(&self) -> (r: Self)
        ensures
            r == *self,
    {
        TrackHandle {
            id: self.id,
            state: self.state,
            alive: self.alive,
            metadata: self.metadata.clone(),
        }
    }
}

/// A track known to be part of a queue: the pair of its control handle
/// and the metadata snapshot taken at enqueue time.
#[derive(Debug)]
pub struct Queued(pub TrackHandle, pub TrackMetadata);

impl Queued {
    /// Copies the inner handle.
    pub fn handle(&self) -> (r: TrackHandle)
        ensures
            r == self.0,
    {
        self.0.clone()
    }

    /// Copies the metadata snapshot taken at enqueue time.
    pub fn metadata(&self) -> (r: TrackMetadata)
        ensures
            r == self.1,
    {
        self.1.clone()
    }
}

} // verus!
