//! The cluster-bus vocabulary: the events that nodes and the broker exchange
//! on the shared pub/sub topic, and the session descriptions they carry.
//!
//! Every event on the bus names its sender, so a subscriber can ignore its
//! own publications. Delivery is at-most-once and unordered; every handler
//! built on these types is idempotent.
use vstd::prelude::*;

verus! {

/// One of the regions a node can announce itself in.
#[derive(Clone, Copy, Debug, PartialEq, Eq, Structural)]
pub enum Region {
    Canada,
    UsCentral,
    UsEast,
    UsWest,
    Europe,
    Asia,
    SouthAmerica,
    Australia,
    Africa,
}

/// The configuration name of each region.
pub open spec fn region_name(r: Region) -> Seq<char> {
    match r {
        Region::Canada => "canada"@,
        Region::UsCentral => "us-central"@,
        Region::UsEast => "us-east"@,
        Region::UsWest => "us-west"@,
        Region::Europe => "europe"@,
        Region::Asia => "asia"@,
        Region::SouthAmerica => "south-america"@,
        Region::Australia => "australia"@,
        Region::Africa => "africa"@,
    }
}

impl Region {
    /// Parse a configuration name; exactly the nine region names are
    /// accepted.
    pub fn from_str(s: &str) -> (r: Result<Region, ()>)
        ensures
            match r {
                Ok(region) => region_name(region) == s@,
                Err(_) => forall|region: Region| region_name(region) != s@,
            },
    {
        let owned = s.to_owned();
        if owned.eq(&("canada".to_owned())) {
            Ok(Region::Canada)
        } else if owned.eq(&("us-central".to_owned())) {
            Ok(Region::UsCentral)
        } else if owned.eq(&("us-east".to_owned())) {
            Ok(Region::UsEast)
        } else if owned.eq(&("us-west".to_owned())) {
            Ok(Region::UsWest)
        } else if owned.eq(&("europe".to_owned())) {
            Ok(Region::Europe)
        } else if owned.eq(&("asia".to_owned())) {
            Ok(Region::Asia)
        } else if owned.eq(&("south-america".to_owned())) {
            Ok(Region::SouthAmerica)
        } else if owned.eq(&("australia".to_owned())) {
            Ok(Region::Australia)
        } else if owned.eq(&("africa".to_owned())) {
            Ok(Region::Africa)
        } else {
            Err(())
        }
    }

    /// The configuration name of this region.
    pub fn as_str(self) -> (r: &'static str)
        ensures
            r@ == region_name(self),
    {
        match self {
            Region::Canada => "canada",
            Region::UsCentral => "us-central",
            Region::UsEast => "us-east",
            Region::UsWest => "us-west",
            Region::Europe => "europe",
            Region::Asia => "asia",
            Region::SouthAmerica => "south-america",
            Region::Australia => "australia",
            Region::Africa => "africa",
        }
    }
}

/// A node announcing itself: where it runs.
#[derive(Clone, Debug)]
pub struct NodeDescription {
    pub region: Region,
}

/// An SDP offer or answer, carried as its text.
#[derive(Clone, Debug)]
pub enum SessionDescription {
    Offer(String),
    Answer(String),
}

/// One event on the `nodes` topic.
#[derive(Clone, Debug)]
pub struct NodeEvent {
    /// The sender: a node's instance id, or the broker's well-known id.
    pub id: String,
    pub event: NodeEventKind,
}

/// What a bus event says. The comments give producer and consumer.
#[derive(Clone, Debug)]
pub enum NodeEventKind {
    /// node -> all: announce presence and region, on start or on `Query`.
    Description(NodeDescription),
    /// node -> all: liveness, published every five seconds.
    Ping,
    /// node -> all: graceful shutdown.
    Disconnect,
    /// broker -> all: ask every node to announce itself again.
    Query,
    /// broker -> node: place a session on the node.
    UserConnect { session_id: String, call_id: String, sdp: SessionDescription },
    /// node -> broker: the answer to a placed session's offer.
    UserCreate { sdp: SessionDescription },
    /// broker -> node: the application accepts a produced track.
    StartProduce { track: String },
    /// broker -> node: the application mutes a produced track.
    StopProduce { track: String },
    /// broker -> node: a consumer subscribes to a track.
    StartConsume { track: String },
    /// broker -> node: a consumer unsubscribes from a track.
    StopConsume { track: String },
    /// broker -> node: tear a session down.
    UserDisconnect { id: String },
    /// node -> broker: a session has actually ended.
    UserDelete { id: String },
    /// node -> all: a track became available to consumers.
    TrackAvailable { id: String },
    /// node -> all: a track went away.
    TrackUnavailable { id: String },
}

} // verus!
