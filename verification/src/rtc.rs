//! The node-local call: which sessions are in it, which tracks it carries,
//! and how one session's events fan out to the others.
use vstd::prelude::*;

use crate::node::{MediaType, RemoteTrack};
use crate::peer::Propagated;
use crate::{first_where, lemma_filter_push, lemma_first_where};

verus! {

/// A produced track as the call registers it.
#[derive(Clone, Debug)]
pub struct Track {
    /// The producing session.
    pub producer: String,
    /// The track's application-level id.
    pub id: String,
    pub media_type: MediaType,
}

/// What the call tells its sessions.
#[derive(Clone, Debug)]
pub enum CallEvent {
    /// A new track exists and can be consumed.
    CreateTrack(RemoteTrack),
    /// Tracks went away with their producer.
    RemoveTrack { removed_tracks: Vec<String> },
    /// A session event fanned out to the others.
    Propagate(Propagated),
}

/// One call as the node sees it: its member sessions and its tracks.
#[derive(Debug)]
pub struct Call {
    pub id: String,
    pub tracks: Vec<Track>,
    /// The session ids of the members.
    pub clients: Vec<String>,
}

impl Call {
    pub fn new(id: String) -> (r: Call)
        ensures
            r.id@ == id@,
            r.tracks@.len() == 0,
            r.clients@.len() == 0,
    {
        Call { id, tracks: Vec::new(), clients: Vec::new() }
    }

    /// Register a session; a session id already present is not repeated.
    pub fn add_user(&mut self, session_id: &String)
        ensures
            final(self).id@ == old(self).id@,
            final(self).tracks@ == old(self).tracks@,
            if crate::spec_contains_id(old(self).clients@, session_id@) {
                final(self).clients@ == old(self).clients@
            } else {
                final(self).clients@.len() == old(self).clients@.len() + 1 && final(
                self).clients@.take(old(self).clients@.len() as int) == old(self).clients@ && final(
                self).clients@.last()@ == session_id@
            },
    {
        if crate::contains_id(&self.clients, session_id) {
            return ;
        }
        let ghost prev = self.clients@;
        self.clients.push(session_id.clone());
        assert(self.clients@.take(prev.len() as int) =~= prev);
    }

    /// Register a produced track.
    pub fn add_track(&mut self, track: Track)
        ensures
            final(self).id@ == old(self).id@,
            final(self).clients@ == old(self).clients@,
            final(self).tracks@ == old(self).tracks@.push(track),
    {
        self.tracks.push(track);
    }

    /// The session ids of the members.
    pub fn get_user_ids(&self) -> (r: Vec<String>)
        ensures
            r@.len() == self.clients@.len(),
            forall|i: int| 0 <= i < r@.len() ==> (#[trigger] r@[i])@ == self.clients@[i]@,
    {
        let mut out: Vec<String> = Vec::new();
        let mut i: usize = 0;
        while i < self.clients.len()
            invariant
                0 <= i <= self.clients@.len(),
                out@.len() == i,
                forall|j: int| 0 <= j < i ==> (#[trigger] out@[j])@ == self.clients@[j]@,
            decreases self.clients@.len() - i,
        {
            out.push(self.clients[i].clone());
            i += 1;
        }
        out
    }

    /// The tracks available to a joining consumer, as the client learns
    /// them.
    pub fn get_available_tracks(&self) -> (r: Vec<RemoteTrack>)
        ensures
            r@.len() == self.tracks@.len(),
            forall|i: int|
                0 <= i < r@.len() ==> (#[trigger] r@[i]).id@ == self.tracks@[i].id@
                    && r@[i].user_id@ == self.tracks@[i].producer@ && r@[i].media_type
                    == self.tracks@[i].media_type,
    {
        let mut out: Vec<RemoteTrack> = Vec::new();
        let mut i: usize = 0;
        while i < self.tracks.len()
            invariant
                0 <= i <= self.tracks@.len(),
                out@.len() == i,
                forall|j: int|
                    0 <= j < i ==> (#[trigger] out@[j]).id@ == self.tracks@[j].id@
                        && out@[j].user_id@ == self.tracks@[j].producer@ && out@[j].media_type
                        == self.tracks@[j].media_type,
            decreases self.tracks@.len() - i,
        {
            let t = &self.tracks[i];
            out.push(
                RemoteTrack {
                    id: t.id.clone(),
                    user_id: t.producer.clone(),
                    media_type: t.media_type,
                },
            );
            i += 1;
        }
        out
    }

    /// Remove a session and every track it produced. The call is done when
    /// its last member leaves; the returned flag says so.
    pub fn remove_user(&mut self, session_id: &String) -> (destroy: bool)
        ensures
            final(self).id@ == old(self).id@,
            final(self).clients@ == old(self).clients@.filter(|c: String| c@ != session_id@),
            final(self).tracks@ == old(self).tracks@.filter(
                |t: Track| t.producer@ != session_id@,
            ),
            destroy == (final(self).clients@.len() == 0),
    {
        let ghost cp = |c: String| c@ != session_id@;
        let ghost tp = |t: Track| t.producer@ != session_id@;
        let mut kept_clients: Vec<String> = Vec::new();
        let mut i: usize = 0;
        while i < self.clients.len()
            invariant
                0 <= i <= self.clients@.len(),
                kept_clients@ == self.clients@.take(i as int).filter(cp),
                cp == (|c: String| c@ != session_id@),
            decreases self.clients@.len() - i,
        {
            let ghost prefix = self.clients@.take(i as int);
            proof {
                lemma_filter_push(prefix, cp, self.clients@[i as int]);
                assert(self.clients@.take(i + 1) =~= prefix.push(self.clients@[i as int]));
            }
            if !self.clients[i].eq(session_id) {
                let copy = self.clients[i].clone();
                assert(copy == self.clients@[i as int]);
                kept_clients.push(copy);
                assert(kept_clients@ =~= prefix.filter(cp).push(self.clients@[i as int]));
            }
            i += 1;
        }
        assert(self.clients@.take(self.clients@.len() as int) =~= self.clients@);
        self.clients = kept_clients;
        let mut kept_tracks: Vec<Track> = Vec::new();
        let mut k: usize = 0;
        while k < self.tracks.len()
            invariant
                0 <= k <= self.tracks@.len(),
                kept_tracks@ == self.tracks@.take(k as int).filter(tp),
                tp == (|t: Track| t.producer@ != session_id@),
            decreases self.tracks@.len() - k,
        {
            let ghost prefix = self.tracks@.take(k as int);
            proof {
                lemma_filter_push(prefix, tp, self.tracks@[k as int]);
                assert(self.tracks@.take(k + 1) =~= prefix.push(self.tracks@[k as int]));
            }
            if !self.tracks[k].producer.eq(session_id) {
                let t = &self.tracks[k];
                let copy = Track {
                    producer: t.producer.clone(),
                    id: t.id.clone(),
                    media_type: t.media_type,
                };
                assert(copy == self.tracks@[k as int]);
                kept_tracks.push(copy);
                assert(kept_tracks@ =~= prefix.filter(tp).push(self.tracks@[k as int]));
            }
            k += 1;
        }
        assert(self.tracks@.take(self.tracks@.len() as int) =~= self.tracks@);
        self.tracks = kept_tracks;
        self.clients.len() == 0
    }

    /// Whether one session should act on a fanned-out event: media goes to
    /// everyone but its producer, and a keyframe request concerns only the
    /// session it is addressed to.
    pub fn should_handle(session_id: &String, event: &Propagated) -> (r: bool)
        ensures
            r == match *event {
                Propagated::MediaData { origin, .. } => origin@ != session_id@,
                Propagated::KeyframeRequest { dest, .. } => dest@ == session_id@,
                _ => false,
            },
    {
        match event {
            Propagated::MediaData { origin, .. } => !origin.eq(session_id),
            Propagated::KeyframeRequest { dest, .. } => dest.eq(session_id),
            _ => false,
        }
    }
}

} // verus!
