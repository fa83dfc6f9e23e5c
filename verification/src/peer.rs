//! One peer session on a media node: the bookkeeping of its inbound and
//! outbound tracks, re-negotiation, simulcast layer choice, and keyframe
//! throttling.
//!
//! The RTC engine, the UDP socket and the data channel live outside; they
//! hand events in as plain values and perform the actions decided here.
use vstd::prelude::*;

use crate::first_where;
use crate::lemma_filter_push;
use crate::lemma_first_where;

verus! {

/// What a media-node session can fail with.
#[derive(Clone, Copy, Debug, PartialEq, Eq, Structural)]
pub enum Error {
    InvalidCall,
    FailedToAuthenticate,
    AlreadyConnected,
    RtcError,
    SocketError,
    SerializeError,
}

#[derive(Clone, Copy, Debug, PartialEq, Eq, Structural)]
pub enum MediaKind {
    Audio,
    Video,
}

/// Which kind of fresh picture a keyframe request asks for.
#[derive(Clone, Copy, Debug, PartialEq, Eq, Structural)]
pub enum KeyframeRequestKind {
    Pli,
    Fir,
}

/// One inbound media line: a track this session produces.
#[derive(Clone, Debug)]
pub struct TrackIn {
    /// The producing session.
    pub origin: String,
    pub mid: String,
    pub kind: MediaKind,
}

/// A produced track with its node-local bookkeeping.
#[derive(Clone, Debug)]
pub struct TrackInEntry {
    pub id: TrackIn,
    /// When a keyframe was last asked of this track, for throttling.
    pub last_keyframe_request: Option<u64>,
    /// Set once the application layer accepts the track.
    pub active: bool,
}

/// Where an outbound media line stands: waiting for negotiation, offered
/// under a mid, or open under a mid.
#[derive(Clone, Debug)]
pub enum TrackOutState {
    ToOpen,
    Negotiating(String),
    Open(String),
}

/// One outbound media line: a consumer's view of another session's track,
/// referenced by the producer's identity rather than owned.
#[derive(Clone, Debug)]
pub struct TrackOut {
    /// The producing session.
    pub origin: String,
    /// The producer's mid for the track.
    pub source_mid: String,
    pub state: TrackOutState,
}

impl TrackOut {
    /// The local mid of the line, once negotiation has assigned one.
    pub open spec fn spec_mid(self) -> Option<Seq<char>> {
        match self.state {
            TrackOutState::ToOpen => None,
            TrackOutState::Negotiating(m) => Some(m@),
            TrackOutState::Open(m) => Some(m@),
        }
    }

    pub fn mid(&self) -> (r: Option<&String>)
        ensures
            match r {
                Some(m) => self.spec_mid() == Some(m@),
                None => self.spec_mid() is None,
            },
    {
        match &self.state {
            TrackOutState::ToOpen => None,
            TrackOutState::Negotiating(m) => Some(m),
            TrackOutState::Open(m) => Some(m),
        }
    }
}

/// Media arriving from the engine, reduced to what forwarding reads.
#[derive(Clone, Debug)]
pub struct MediaData {
    pub mid: String,
    /// The simulcast layer, when the producer sends several.
    pub rid: Option<String>,
    /// False when a gap precedes this data, so a keyframe is needed.
    pub contiguous: bool,
}

/// What one session hands to the call's fan-out.
#[derive(Clone, Debug)]
pub enum Propagated {
    /// Nothing to pass on.
    Noop,
    /// The engine asked to be polled again at this time.
    Timeout(u64),
    /// Media from `origin` to every other session.
    MediaData { origin: String, mid: String, rid: Option<String>, contiguous: bool },
    /// A keyframe request travelling to the producing session.
    KeyframeRequest {
        origin: String,
        kind: KeyframeRequestKind,
        rid: Option<String>,
        dest: String,
        dest_mid: String,
    },
}

impl Propagated {
    /// The session an event came from, when it came from one.
    pub fn client_id(&self) -> (r: Option<&String>)
        ensures
            match *self {
                Propagated::MediaData { .. } | Propagated::KeyframeRequest { .. } => r is Some,
                _ => r is None,
            },
            self matches Propagated::MediaData { origin, .. } ==> (r matches Some(c) && c@
                == origin@),
            self matches Propagated::KeyframeRequest { origin, .. } ==> (r matches Some(c) && c@
                == origin@),
    {
        match self {
            Propagated::MediaData { origin, .. } => Some(origin),
            Propagated::KeyframeRequest { origin, .. } => Some(origin),
            _ => None,
        }
    }
}

/// What the session asks its surroundings to do.
#[derive(Clone, Debug)]
pub enum SessionAction {
    /// Ask the engine's writer for this mid for a fresh keyframe.
    RequestKeyframe { mid: String, rid: Option<String>, kind: KeyframeRequestKind },
    /// Write forwarded media to this local mid.
    WriteMedia { mid: String },
}

/// The least time between two keyframe requests for one track.
pub const KEYFRAME_THROTTLE_MS: u64 = 1000;

/// One peer session's state, as the decisions here read and write it.
#[derive(Debug)]
pub struct Client {
    pub session_id: String,
    /// False once the engine reports the connection dead.
    pub alive: bool,
    /// True once the data channel to the client is open.
    pub channel_open: bool,
    /// True while an offer of ours awaits the client's answer.
    pub pending_offer: bool,
    pub tracks_in: Vec<TrackInEntry>,
    pub tracks_out: Vec<TrackOut>,
    /// The simulcast layer forwarded and asked for on keyframes.
    pub chosen_rid: Option<String>,
}

/// The position of the inbound track with this mid.
pub open spec fn spec_track_in(tracks: Seq<TrackInEntry>, mid: Seq<char>) -> int {
    first_where(tracks, |t: TrackInEntry| t.id.mid@ == mid)
}

/// The position of the outbound track fed by `(origin, source_mid)`.
pub open spec fn spec_track_out_for(
    tracks: Seq<TrackOut>,
    origin: Seq<char>,
    source_mid: Seq<char>,
) -> int {
    first_where(tracks, |t: TrackOut| t.origin@ == origin && t.source_mid@ == source_mid)
}

/// The position of the outbound track negotiated onto local mid `mid`.
pub open spec fn spec_track_out_by_mid(tracks: Seq<TrackOut>, mid: Seq<char>) -> int {
    first_where(tracks, |t: TrackOut| t.spec_mid() == Some(mid))
}

impl Client {
    /// A fresh session: alive, nothing negotiated, no tracks.
    pub fn new(session_id: String) -> (r: Client)
        ensures
            r.session_id@ == session_id@,
            r.alive,
            !r.channel_open,
            !r.pending_offer,
            r.tracks_in@.len() == 0,
            r.tracks_out@.len() == 0,
            r.chosen_rid is None,
    {
        Client {
            session_id,
            alive: true,
            channel_open: false,
            pending_offer: false,
            tracks_in: Vec::new(),
            tracks_out: Vec::new(),
            chosen_rid: None,
        }
    }

    /// The engine reported the connection gone.
    pub fn close(&mut self)
        ensures
            !final(self).alive,
            final(self).session_id@ == old(self).session_id@,
    {
        self.alive = false;
    }

    /// The data channel opened: re-negotiation can start.
    pub fn channel_opened(&mut self)
        ensures
            *final(self) == (Client { channel_open: true, ..*old(self) }),
    {
        self.channel_open = true;
    }

    /// The engine announced a new inbound media line: record the track and,
    /// when the data channel is open, hand back the framed mid notice to
    /// send to the client.
    pub fn handle_media_added(&mut self, mid: String, kind: MediaKind) -> (r: Option<Vec<u8>>)
        ensures
            final(self).tracks_in@ == old(self).tracks_in@.push(
                (TrackInEntry {
                    id: (TrackIn { origin: old(self).session_id, mid: mid, kind: kind }),
                    last_keyframe_request: None,
                    active: false,
                }),
            ),
            final(self).tracks_out@ == old(self).tracks_out@,
            final(self).session_id@ == old(self).session_id@,
            final(self).alive == old(self).alive,
            final(self).channel_open == old(self).channel_open,
            final(self).pending_offer == old(self).pending_offer,
            final(self).chosen_rid == old(self).chosen_rid,
            r is Some ==> old(self).channel_open && r.unwrap()@ == crate::node::msgpack_str_of(
                mid@,
            ),
            !old(self).channel_open ==> r is None,
    {
        let notify = self.channel_open;
        let action = if notify {
            crate::node::encode_track_notice(&mid)
        } else {
            None
        };
        let entry = TrackInEntry {
            id: TrackIn { origin: self.session_id.clone(), mid, kind },
            last_keyframe_request: None,
            active: false,
        };
        let ghost prev = self.tracks_in@;
        self.tracks_in.push(entry);
        proof {
            assert(self.tracks_in@ =~= prev.push(
                (TrackInEntry {
                    id: (TrackIn { origin: old(self).session_id, mid: entry.id.mid, kind }),
                    last_keyframe_request: None,
                    active: false,
                }),
            ));
        }
        action
    }

    /// Ask the producer of `mid` for a keyframe, unless one was asked less
    /// than a second ago: at most one request per track and second leaves
    /// this session.
    pub fn request_keyframe_throttled(
        &mut self,
        mid: &String,
        rid: Option<&String>,
        kind: KeyframeRequestKind,
        now: u64,
    ) -> (r: Option<SessionAction>)
        ensures
            final(self).session_id@ == old(self).session_id@,
            final(self).tracks_out@ == old(self).tracks_out@,
            final(self).alive == old(self).alive,
            ({
                let i = spec_track_in(old(self).tracks_in@, mid@);
                if i == -1 {
                    r is None && final(self).tracks_in@ == old(self).tracks_in@
                } else {
                    let due = match old(self).tracks_in@[i].last_keyframe_request {
                        Some(last) => now >= last + KEYFRAME_THROTTLE_MS,
                        None => true,
                    };
                    if due {
                        (r matches Some(a) && (a matches SessionAction::RequestKeyframe {
                            mid: m,
                            rid: rr,
                            kind: k,
                        } && m@ == mid@ && k == kind && (match (rr, rid) {
                            (Some(a1), Some(b1)) => a1@ == b1@,
                            (None, None) => true,
                            _ => false,
                        }))) && final(self).tracks_in@ == old(self).tracks_in@.update(
                            i,
                            (TrackInEntry {
                                last_keyframe_request: Some(now),
                                ..old(self).tracks_in@[i]
                            }),
                        )
                    } else {
                        r is None && final(self).tracks_in@ == old(self).tracks_in@
                    }
                }
            }),
    {
        let ghost p = |t: TrackInEntry| t.id.mid@ == mid@;
        let mut i: usize = 0;
        while i < self.tracks_in.len()
            invariant
                0 <= i <= self.tracks_in@.len(),
                forall|j: int| 0 <= j < i ==> !p(#[trigger] self.tracks_in@[j]),
                p == (|t: TrackInEntry| t.id.mid@ == mid@),
                self.session_id@ == old(self).session_id@,
                self.tracks_in@ == old(self).tracks_in@,
                self.tracks_out@ == old(self).tracks_out@,
                self.alive == old(self).alive,
                self.channel_open == old(self).channel_open,
                self.pending_offer == old(self).pending_offer,
                self.chosen_rid == old(self).chosen_rid,
            decreases self.tracks_in@.len() - i,
        {
            if self.tracks_in[i].id.mid.eq(mid) {
                proof {
                    assert(p(self.tracks_in@[i as int]));
                    lemma_first_where(self.tracks_in@, p);
                    let f = first_where(self.tracks_in@, p);
                    if f < i as int {
                        assert(!p(self.tracks_in@[f]));
                        assert(false);
                    }
                    if f > i as int {
                        assert(!p(self.tracks_in@[i as int]));
                        assert(false);
                    }
                }
                let due = match self.tracks_in[i].last_keyframe_request {
                    Some(last) => last <= u64::MAX - KEYFRAME_THROTTLE_MS && now >= last
                        + KEYFRAME_THROTTLE_MS,
                    None => true,
                };
                assert(due == (match old(self).tracks_in@[i as int].last_keyframe_request {
                    Some(last) => now >= last + KEYFRAME_THROTTLE_MS,
                    None => true,
                }));
                if !due {
                    return None;
                }
                let ghost prev = self.tracks_in@;
                let entry = &self.tracks_in[i];
                let updated = TrackInEntry {
                    id: TrackIn {
                        origin: entry.id.origin.clone(),
                        mid: entry.id.mid.clone(),
                        kind: entry.id.kind,
                    },
                    last_keyframe_request: Some(now),
                    active: entry.active,
                };
                assert(updated.id == prev[i as int].id && updated.active == prev[i as int].active);
                self.tracks_in.set(i, updated);
                proof {
                    assert(self.tracks_in@ =~= prev.update(
                        i as int,
                        (TrackInEntry { last_keyframe_request: Some(now), ..prev[i as int] }),
                    ));
                }
                return Some(
                    SessionAction::RequestKeyframe {
                        mid: mid.clone(),
                        rid: match rid {
                            Some(r) => Some(r.clone()),
                            None => None,
                        },
                        kind,
                    },
                );
            }
            i += 1;
        }
        proof {
            lemma_first_where(self.tracks_in@, p);
            let f = first_where(self.tracks_in@, p);
            if f != -1 {
                assert(!p(self.tracks_in@[f]));
                assert(false);
            }
        }
        None
    }

    /// Media arrived on one of this session's own tracks: forward it to the
    /// call, and chase a keyframe when the data is not contiguous.
    pub fn handle_media_data_in(&mut self, data: &MediaData, now: u64) -> (r: (
        Propagated,
        Option<SessionAction>,
    ))
        ensures
            final(self).session_id@ == old(self).session_id@,
            final(self).tracks_out@ == old(self).tracks_out@,
            r.0 matches Propagated::MediaData { origin, mid, rid, contiguous } && origin@ == old(
                self,
            ).session_id@ && mid@ == data.mid@ && contiguous == data.contiguous && (match (
                rid,
                data.rid,
            ) {
                (Some(a), Some(b)) => a@ == b@,
                (None, None) => true,
                _ => false,
            }),
            data.contiguous ==> r.1 is None && final(self).tracks_in@ == old(self).tracks_in@,
            !data.contiguous ==> ({
                let i = spec_track_in(old(self).tracks_in@, data.mid@);
                if i == -1 {
                    r.1 is None && final(self).tracks_in@ == old(self).tracks_in@
                } else {
                    let due = match old(self).tracks_in@[i].last_keyframe_request {
                        Some(last) => now >= last + KEYFRAME_THROTTLE_MS,
                        None => true,
                    };
                    if due {
                        r.1 is Some && final(self).tracks_in@ == old(self).tracks_in@.update(
                            i,
                            (TrackInEntry {
                                last_keyframe_request: Some(now),
                                ..old(self).tracks_in@[i]
                            }),
                        )
                    } else {
                        r.1 is None && final(self).tracks_in@ == old(self).tracks_in@
                    }
                }
            }),
    {
        let chase = if !data.contiguous {
            self.request_keyframe_throttled(
                &data.mid,
                data.rid.as_ref(),
                KeyframeRequestKind::Fir,
                now,
            )
        } else {
            None
        };
        let propagated = Propagated::MediaData {
            origin: self.session_id.clone(),
            mid: data.mid.clone(),
            rid: match &data.rid {
                Some(r) => Some(r.clone()),
                None => None,
            },
            contiguous: data.contiguous,
        };
        (propagated, chase)
    }

    /// The client asked for a keyframe on one of its receiving mids: route
    /// the request to the track's producer, tagged with the layer this
    /// session forwards.
    pub fn handle_incoming_keyframe_req(
        &self,
        req_mid: &String,
        req_kind: KeyframeRequestKind,
    ) -> (r: Propagated)
        ensures
            ({
                let i = spec_track_out_by_mid(self.tracks_out@, req_mid@);
                if i == -1 {
                    r matches Propagated::Noop
                } else {
                    r matches Propagated::KeyframeRequest { origin, kind, rid, dest, dest_mid }
                        && origin@ == self.session_id@ && kind == req_kind && dest@ == self.tracks_out@[i].origin@
                        && dest_mid@ == self.tracks_out@[i].source_mid@ && (match (
                        rid,
                        self.chosen_rid,
                    ) {
                        (Some(a), Some(b)) => a@ == b@,
                        (None, None) => true,
                        _ => false,
                    })
                }
            }),
    {
        let ghost p = |t: TrackOut| t.spec_mid() == Some(req_mid@);
        let mut i: usize = 0;
        while i < self.tracks_out.len()
            invariant
                0 <= i <= self.tracks_out@.len(),
                forall|j: int| 0 <= j < i ==> !p(#[trigger] self.tracks_out@[j]),
                p == (|t: TrackOut| t.spec_mid() == Some(req_mid@)),
            decreases self.tracks_out@.len() - i,
        {
            let track = &self.tracks_out[i];
            let matched = match track.mid() {
                Some(m) => m.eq(req_mid),
                None => false,
            };
            if matched {
                proof {
                    assert(p(self.tracks_out@[i as int]));
                    lemma_first_where(self.tracks_out@, p);
                    let f = first_where(self.tracks_out@, p);
                    if f < i as int {
                        assert(!p(self.tracks_out@[f]));
                        assert(false);
                    }
                    if f > i as int {
                        assert(!p(self.tracks_out@[i as int]));
                        assert(false);
                    }
                }
                return Propagated::KeyframeRequest {
                    origin: self.session_id.clone(),
                    kind: req_kind,
                    rid: match &self.chosen_rid {
                        Some(r) => Some(r.clone()),
                        None => None,
                    },
                    dest: track.origin.clone(),
                    dest_mid: track.source_mid.clone(),
                };
            }
            i += 1;
        }
        proof {
            lemma_first_where(self.tracks_out@, p);
            let f = first_where(self.tracks_out@, p);
            if f != -1 {
                assert(!p(self.tracks_out@[f]));
                assert(false);
            }
        }
        Propagated::Noop
    }

    /// Another session's keyframe request arrived: only the producing
    /// session acts on it, by asking its own engine for a keyframe on the
    /// producing mid.
    pub fn handle_keyframe_request(
        &self,
        dest_mid: &String,
        rid: Option<&String>,
        kind: KeyframeRequestKind,
    ) -> (r: Option<SessionAction>)
        ensures
            ({
                let has = spec_track_in(self.tracks_in@, dest_mid@) != -1;
                if has {
                    r matches Some(a) && (a matches SessionAction::RequestKeyframe {
                        mid,
                        rid: rr,
                        kind: k,
                    } && mid@ == dest_mid@ && k == kind && (match (rr, rid) {
                        (Some(a1), Some(b1)) => a1@ == b1@,
                        (None, None) => true,
                        _ => false,
                    }))
                } else {
                    r is None
                }
            }),
    {
        let ghost p = |t: TrackInEntry| t.id.mid@ == dest_mid@;
        let mut i: usize = 0;
        while i < self.tracks_in.len()
            invariant
                0 <= i <= self.tracks_in@.len(),
                forall|j: int| 0 <= j < i ==> !p(#[trigger] self.tracks_in@[j]),
                p == (|t: TrackInEntry| t.id.mid@ == dest_mid@),
            decreases self.tracks_in@.len() - i,
        {
            if self.tracks_in[i].id.mid.eq(dest_mid) {
                proof {
                    assert(p(self.tracks_in@[i as int]));
                    lemma_first_where(self.tracks_in@, p);
                    let f = first_where(self.tracks_in@, p);
                    if f == -1 {
                        assert(false);
                    }
                }
                return Some(
                    SessionAction::RequestKeyframe {
                        mid: dest_mid.clone(),
                        rid: match rid {
                            Some(r) => Some(r.clone()),
                            None => None,
                        },
                        kind,
                    },
                );
            }
            i += 1;
        }
        proof {
            lemma_first_where(self.tracks_in@, p);
            let f = first_where(self.tracks_in@, p);
            if f != -1 {
                assert(!p(self.tracks_in@[f]));
                assert(false);
            }
        }
        None
    }

    /// Another session's track became available: remember it as a line to
    /// open toward this client.
    pub fn handle_track_open(&mut self, origin: String, source_mid: String)
        ensures
            final(self).tracks_out@ == old(self).tracks_out@.push(
                (TrackOut { origin: origin, source_mid: source_mid, state: TrackOutState::ToOpen }),
            ),
            final(self).tracks_in@ == old(self).tracks_in@,
            final(self).session_id@ == old(self).session_id@,
            final(self).pending_offer == old(self).pending_offer,
            final(self).channel_open == old(self).channel_open,
    {
        let ghost prev = self.tracks_out@;
        let track = TrackOut { origin, source_mid, state: TrackOutState::ToOpen };
        self.tracks_out.push(track);
        assert(self.tracks_out@ =~= prev.push(track));
    }

    /// Whether a re-negotiation may start: the data channel must be open
    /// and no offer of ours may be outstanding.
    pub fn can_negotiate(&self) -> (r: bool)
        ensures
            r == (self.channel_open && !self.pending_offer),
    {
        self.channel_open && !self.pending_offer
    }

    /// Move one waiting line into negotiation under the mid the engine
    /// assigned, marking an offer in flight.
    pub fn mark_negotiating(&mut self, index: usize, mid: String)
        requires
            index < old(self).tracks_out@.len(),
            old(self).tracks_out@[index as int].state is ToOpen,
        ensures
            final(self).tracks_out@ == old(self).tracks_out@.update(
                index as int,
                (TrackOut {
                    state: TrackOutState::Negotiating(mid),
                    ..old(self).tracks_out@[index as int]
                }),
            ),
            final(self).pending_offer,
            final(self).tracks_in@ == old(self).tracks_in@,
            final(self).session_id@ == old(self).session_id@,
    {
        let ghost prev = self.tracks_out@;
        let entry = &self.tracks_out[index];
        let updated = TrackOut {
            origin: entry.origin.clone(),
            source_mid: entry.source_mid.clone(),
            state: TrackOutState::Negotiating(mid),
        };
        self.tracks_out.set(index, updated);
        self.pending_offer = true;
        proof {
            assert(updated == (TrackOut {
                state: TrackOutState::Negotiating(mid),
                ..prev[index as int]
            }));
        }
    }

    /// The client sent its own offer mid-stream: any line of ours still in
    /// negotiation rolls back to waiting, and our outstanding offer is
    /// abandoned, so the client's offer can be answered.
    pub fn handle_offer(&mut self)
        ensures
            !final(self).pending_offer,
            final(self).tracks_out@.len() == old(self).tracks_out@.len(),
            forall|i: int|
                0 <= i < old(self).tracks_out@.len() ==> #[trigger] final(self).tracks_out@[i]
                    == (TrackOut {
                    state: match old(self).tracks_out@[i].state {
                        TrackOutState::Negotiating(_) => TrackOutState::ToOpen,
                        other => other,
                    },
                    ..old(self).tracks_out@[i]
                }),
            final(self).tracks_in@ == old(self).tracks_in@,
            final(self).session_id@ == old(self).session_id@,
            final(self).chosen_rid == old(self).chosen_rid,
    {
        let mut i: usize = 0;
        while i < self.tracks_out.len()
            invariant
                0 <= i <= self.tracks_out@.len(),
                self.tracks_out@.len() == old(self).tracks_out@.len(),
                forall|j: int|
                    0 <= j < i ==> #[trigger] self.tracks_out@[j] == (TrackOut {
                        state: match old(self).tracks_out@[j].state {
                            TrackOutState::Negotiating(_) => TrackOutState::ToOpen,
                            other => other,
                        },
                        ..old(self).tracks_out@[j]
                    }),
                forall|j: int|
                    i <= j < self.tracks_out@.len() ==> #[trigger] self.tracks_out@[j] == old(
                        self,
                    ).tracks_out@[j],
                self.tracks_in@ == old(self).tracks_in@,
                self.session_id@ == old(self).session_id@,
                self.chosen_rid == old(self).chosen_rid,
                self.pending_offer == old(self).pending_offer,
            decreases self.tracks_out@.len() - i,
        {
            let rollback = match &self.tracks_out[i].state {
                TrackOutState::Negotiating(_) => true,
                _ => false,
            };
            if rollback {
                let entry = &self.tracks_out[i];
                let updated = TrackOut {
                    origin: entry.origin.clone(),
                    source_mid: entry.source_mid.clone(),
                    state: TrackOutState::ToOpen,
                };
                self.tracks_out.set(i, updated);
            }
            i += 1;
        }
        self.pending_offer = false;
    }

    /// The client answered our offer: every line in negotiation opens under
    /// its mid. Without an offer in flight the answer is stale and nothing
    /// changes.
    pub fn handle_answer(&mut self)
        ensures
            !final(self).pending_offer,
            final(self).tracks_out@.len() == old(self).tracks_out@.len(),
            old(self).pending_offer ==> forall|i: int|
                0 <= i < old(self).tracks_out@.len() ==> #[trigger] final(self).tracks_out@[i]
                    == (TrackOut {
                    state: match old(self).tracks_out@[i].state {
                        TrackOutState::Negotiating(m) => TrackOutState::Open(m),
                        other => other,
                    },
                    ..old(self).tracks_out@[i]
                }),
            !old(self).pending_offer ==> final(self).tracks_out@ == old(self).tracks_out@,
            final(self).tracks_in@ == old(self).tracks_in@,
            final(self).session_id@ == old(self).session_id@,
            final(self).chosen_rid == old(self).chosen_rid,
    {
        if !self.pending_offer {
            return ;
        }
        let mut i: usize = 0;
        while i < self.tracks_out.len()
            invariant
                0 <= i <= self.tracks_out@.len(),
                self.tracks_out@.len() == old(self).tracks_out@.len(),
                forall|j: int|
                    0 <= j < i ==> #[trigger] self.tracks_out@[j] == (TrackOut {
                        state: match old(self).tracks_out@[j].state {
                            TrackOutState::Negotiating(m) => TrackOutState::Open(m),
                            other => other,
                        },
                        ..old(self).tracks_out@[j]
                    }),
                forall|j: int|
                    i <= j < self.tracks_out@.len() ==> #[trigger] self.tracks_out@[j] == old(
                        self,
                    ).tracks_out@[j],
                self.tracks_in@ == old(self).tracks_in@,
                self.session_id@ == old(self).session_id@,
                self.chosen_rid == old(self).chosen_rid,
            decreases self.tracks_out@.len() - i,
        {
            let negotiated: Option<String> = match &self.tracks_out[i].state {
                TrackOutState::Negotiating(m) => Some(m.clone()),
                _ => None,
            };
            if let Some(m) = negotiated {
                let entry = &self.tracks_out[i];
                let updated = TrackOut {
                    origin: entry.origin.clone(),
                    source_mid: entry.source_mid.clone(),
                    state: TrackOutState::Open(m),
                };
                assert(updated.state == (match old(self).tracks_out@[i as int].state {
                    TrackOutState::Negotiating(mm) => TrackOutState::Open(mm),
                    other => other,
                }));
                self.tracks_out.set(i, updated);
            }
            i += 1;
        }
        self.pending_offer = false;
    }

    /// Forwarded media from another session: pick the outbound line fed by
    /// that producer track, keep only the chosen simulcast layer, remember
    /// the layer for keyframe requests, and write to the line's local mid.
    /// Only data with no layer or the high layer `h` is forwarded.
    pub fn handle_media_data_out(&mut self, origin: &String, data: &MediaData) -> (r: Option<
        SessionAction,
    >)
        ensures
            final(self).session_id@ == old(self).session_id@,
            final(self).tracks_in@ == old(self).tracks_in@,
            final(self).tracks_out@ == old(self).tracks_out@,
            ({
                let i = spec_track_out_for(old(self).tracks_out@, origin@, data.mid@);
                let layer_ok = match data.rid {
                    Some(r) => r@ == "h"@,
                    None => true,
                };
                if i == -1 || old(self).tracks_out@[i].spec_mid() is None || !layer_ok {
                    r is None && final(self).chosen_rid == old(self).chosen_rid
                } else {
                    (r matches Some(a) && (a matches SessionAction::WriteMedia { mid } && Some(
                        mid@,
                    ) == old(self).tracks_out@[i].spec_mid())) && (match (
                        final(self).chosen_rid,
                        data.rid,
                    ) {
                        (Some(a1), Some(b1)) => a1@ == b1@,
                        (None, None) => true,
                        _ => false,
                    })
                }
            }),
    {
        let ghost p = |t: TrackOut| t.origin@ == origin@ && t.source_mid@ == data.mid@;
        let mut i: usize = 0;
        while i < self.tracks_out.len()
            invariant
                0 <= i <= self.tracks_out@.len(),
                forall|j: int| 0 <= j < i ==> !p(#[trigger] self.tracks_out@[j]),
                p == (|t: TrackOut| t.origin@ == origin@ && t.source_mid@ == data.mid@),
                self.session_id@ == old(self).session_id@,
                self.tracks_in@ == old(self).tracks_in@,
                self.tracks_out@ == old(self).tracks_out@,
                self.chosen_rid == old(self).chosen_rid,
            decreases self.tracks_out@.len() - i,
        {
            if self.tracks_out[i].origin.eq(origin) && self.tracks_out[i].source_mid.eq(
                &data.mid,
            ) {
                proof {
                    assert(p(self.tracks_out@[i as int]));
                    lemma_first_where(self.tracks_out@, p);
                    let f = first_where(self.tracks_out@, p);
                    if f < i as int {
                        assert(!p(self.tracks_out@[f]));
                        assert(false);
                    }
                    if f > i as int {
                        assert(!p(self.tracks_out@[i as int]));
                        assert(false);
                    }
                }
                let out_mid: Option<String> = match self.tracks_out[i].mid() {
                    Some(m) => Some(m.clone()),
                    None => None,
                };
                let Some(out_mid) = out_mid else { return None };
                let layer_ok = match &data.rid {
                    Some(r) => crate::str_eq(r.as_str(), "h"),
                    None => true,
                };
                if !layer_ok {
                    return None;
                }
                self.chosen_rid = match &data.rid {
                    Some(r) => Some(r.clone()),
                    None => None,
                };
                return Some(SessionAction::WriteMedia { mid: out_mid });
            }
            i += 1;
        }
        proof {
            lemma_first_where(self.tracks_out@, p);
            let f = first_where(self.tracks_out@, p);
            if f != -1 {
                assert(!p(self.tracks_out@[f]));
                assert(false);
            }
        }
        None
    }

    /// Whether an outbound line's producer track is still alive among the
    /// given producer descriptors.
    pub open spec fn spec_out_alive(t: TrackOut, live: Seq<TrackIn>) -> bool {
        exists|k: int|
            0 <= k < live.len() && (#[trigger] live[k]).origin@ == t.origin@ && live[k].mid@
                == t.source_mid@
    }

    /// Drop every outbound line whose producer track is gone, so that each
    /// remaining line — whatever its negotiation state — refers to a live
    /// producer track.
    pub fn prune_tracks_out(&mut self, live: &Vec<TrackIn>)
        ensures
            final(self).tracks_out@ == old(self).tracks_out@.filter(
                |t: TrackOut| Client::spec_out_alive(t, live@),
            ),
            forall|i: int|
                0 <= i < final(self).tracks_out@.len() ==> Client::spec_out_alive(
                    #[trigger] final(self).tracks_out@[i],
                    live@,
                ),
            final(self).tracks_in@ == old(self).tracks_in@,
            final(self).session_id@ == old(self).session_id@,
    {
        let ghost lv = live@;
        let ghost p = |t: TrackOut| Client::spec_out_alive(t, lv);
        let mut kept: Vec<TrackOut> = Vec::new();
        let mut i: usize = 0;
        while i < self.tracks_out.len()
            invariant
                0 <= i <= self.tracks_out@.len(),
                kept@ == self.tracks_out@.take(i as int).filter(p),
                p == (|t: TrackOut| Client::spec_out_alive(t, lv)),
                lv == live@,
                self.tracks_in@ == old(self).tracks_in@,
                self.tracks_out@ == old(self).tracks_out@,
                self.session_id@ == old(self).session_id@,
            decreases self.tracks_out@.len() - i,
        {
            let ghost prefix = self.tracks_out@.take(i as int);
            proof {
                lemma_filter_push(prefix, p, self.tracks_out@[i as int]);
                assert(self.tracks_out@.take(i + 1) =~= prefix.push(self.tracks_out@[i as int]));
            }
            let track = &self.tracks_out[i];
            let mut found: bool = false;
            let mut k: usize = 0;
            while k < live.len()
                invariant
                    0 <= k <= live@.len(),
                    lv == live@,
                    lv.len() == live@.len(),
                    track == self.tracks_out@[i as int],
                    found ==> Client::spec_out_alive(*track, lv),
                    !found ==> forall|l: int|
                        0 <= l < k ==> !((#[trigger] lv[l]).origin@ == track.origin@ && lv[l].mid@
                            == track.source_mid@),
                decreases live@.len() - k,
            {
                if !found && live[k].origin.eq(&track.origin) && live[k].mid.eq(
                    &track.source_mid,
                ) {
                    assert(lv[k as int].origin@ == track.origin@ && lv[k as int].mid@
                        == track.source_mid@);
                    found = true;
                }
                k += 1;
            }
            proof {
                if !found {
                    assert(!Client::spec_out_alive(*track, lv));
                }
            }
            if found {
                let copy = TrackOut {
                    origin: track.origin.clone(),
                    source_mid: track.source_mid.clone(),
                    state: match &track.state {
                        TrackOutState::ToOpen => TrackOutState::ToOpen,
                        TrackOutState::Negotiating(m) => TrackOutState::Negotiating(m.clone()),
                        TrackOutState::Open(m) => TrackOutState::Open(m.clone()),
                    },
                };
                assert(copy == self.tracks_out@[i as int]);
                kept.push(copy);
                assert(kept@ =~= prefix.filter(p).push(self.tracks_out@[i as int]));
            }
            i += 1;
        }
        assert(self.tracks_out@.take(self.tracks_out@.len() as int) =~= self.tracks_out@);
        self.tracks_out = kept;
        proof {
            assert forall|i: int|
                0 <= i < self.tracks_out@.len() implies Client::spec_out_alive(
                self.tracks_out@[i],
                lv,
            ) by {
                old(self).tracks_out@.lemma_filter_pred(p, i);
            }
        }
    }
}

} // verus!
