//! The call broker's shared state: the table of live media nodes and the
//! table of active calls, with the transitions the broker performs on them.
//!
//! The surrounding process feeds bus events and clock readings in and carries
//! the resulting bus publications out; every state change is decided here.
use vstd::prelude::*;

use crate::api::{NodeDescription, NodeEvent, NodeEventKind, Region};
use crate::errors::Error;
use crate::{contains_id, first_where, lemma_filter_push, lemma_first_where};

verus! {

/// A media node the broker currently knows about.
#[derive(Clone, Debug)]
pub struct Node {
    pub id: String,
    pub region: Region,
    /// When the node last announced or pinged, in broker clock milliseconds.
    pub last_ping: u64,
}

/// The ghost image of a [`Node`].
#[verifier::ext_equal]
pub struct NodeView {
    pub id: Seq<char>,
    pub region: Region,
    pub last_ping: u64,
}

impl View for Node {
    type V = NodeView;

    open spec fn view(&self) -> NodeView {
        NodeView { id: self.id@, region: self.region, last_ping: self.last_ping }
    }
}

impl Node {
    /// A node is live while its last ping is under ten seconds old.
    pub open spec fn spec_is_live(self, now: u64) -> bool {
        now - self.last_ping < 10000
    }

    /// Whether this node counts as live at time `now`.
    pub fn is_live(&self, now: u64) -> (r: bool)
        requires
            self.last_ping <= now,
        ensures
            r == self.spec_is_live(now),
    {
        now - self.last_ping < 10000
    }

    /// A node first seen in a `Description` event.
    pub fn from_description(id: String, description: &NodeDescription, now: u64) -> (r: Node)
        ensures
            r@ == (NodeView { id: id@, region: description.region, last_ping: now }),
    {
        Node { id, region: description.region, last_ping: now }
    }

    /// Mark the node as withdrawn before it is dropped from the table.
    /// Nothing is recorded beyond its removal.
    pub fn suppress(&self) {
    }
}

/// The broker's rolling table of media nodes, fed from the bus.
#[derive(Debug)]
pub struct NodeRegistry {
    pub nodes: Vec<Node>,
}

impl View for NodeRegistry {
    type V = Seq<NodeView>;

    open spec fn view(&self) -> Seq<NodeView> {
        self.nodes@.map_values(|n: Node| n@)
    }
}

impl NodeRegistry {
    /// Each node appears at most once.
    pub open spec fn wf(self) -> bool {
        forall|i: int, j: int|
            0 <= i < j < self@.len() ==> #[trigger] self@[i].id != #[trigger] self@[j].id
    }

    /// Whether a node with this id is in the table.
    pub open spec fn spec_has_node(self, id: Seq<char>) -> bool {
        exists|i: int| 0 <= i < self@.len() && self@[i].id == id
    }

    pub fn new() -> (r: NodeRegistry)
        ensures
            r@ == Seq::<NodeView>::empty(),
            r.wf(),
    {
        let r = NodeRegistry { nodes: Vec::new() };
        assert(r@ =~= Seq::<NodeView>::empty());
        r
    }

    /// The position of the node with the given id.
    pub fn find(&self, id: &String) -> (r: Option<usize>)
        ensures
            match r {
                Some(i) => i < self@.len() && self@[i as int].id == id@ && i as int == first_where(
                    self@,
                    |n: NodeView| n.id == id@,
                ),
                None => !self.spec_has_node(id@),
            },
    {
        let mut i: usize = 0;
        while i < self.nodes.len()
            invariant
                0 <= i <= self.nodes@.len(),
                self@.len() == self.nodes@.len(),
                forall|j: int| 0 <= j < i ==> #[trigger] self@[j].id != id@,
            decreases self.nodes@.len() - i,
        {
            assert(self@[i as int].id == self.nodes@[i as int].id@);
            if self.nodes[i].id.eq(id) {
                proof {
                    lemma_first_where(self@, |n: NodeView| n.id == id@);
                }
                return Some(i);
            }
            i += 1;
        }
        None
    }

    /// Apply one bus event to the table.
    ///
    /// A repeated `Description` for a known node changes nothing, a `Ping`
    /// from an unknown node changes nothing: handlers must tolerate
    /// duplicated and reordered delivery.
    pub fn handle_event(&mut self, event: &NodeEvent, now: u64)
        requires
            old(self).wf(),
        ensures
            final(self).wf(),
            event.event matches NodeEventKind::Description(d) ==> {
                if old(self).spec_has_node(event.id@) {
                    final(self)@ == old(self)@
                } else {
                    final(self)@ == old(self)@.push(
                        (NodeView { id: event.id@, region: d.region, last_ping: now }),
                    )
                }
            },
            event.event matches NodeEventKind::Ping ==> {
                if old(self).spec_has_node(event.id@) {
                    final(self)@ == old(self)@.update(
                        first_where(old(self)@, |n: NodeView| n.id == event.id@),
                        (NodeView {
                            id: event.id@,
                            region: old(self)@[first_where(
                                old(self)@,
                                |n: NodeView| n.id == event.id@,
                            )].region,
                            last_ping: now,
                        }),
                    )
                } else {
                    final(self)@ == old(self)@
                }
            },
            event.event matches NodeEventKind::Disconnect ==> final(self)@ == old(self)@.filter(
                |n: NodeView| n.id != event.id@,
            ),
            !(event.event matches NodeEventKind::Description(_)) && !(
            event.event matches NodeEventKind::Ping) && !(
            event.event matches NodeEventKind::Disconnect) ==> final(self)@ == old(self)@,
    {
        match &event.event {
            NodeEventKind::Description(d) => {
                let found = self.find(&event.id);
                if found.is_none() {
                    let node = Node::from_description(event.id.clone(), d, now);
                    self.nodes.push(node);
                    assert(self@ =~= old(self)@.push(node@));
                    assert forall|i: int, j: int| 0 <= i < j < self@.len() implies self@[i].id
                        != self@[j].id by {
                        if j == self@.len() - 1 {
                            assert(!old(self).spec_has_node(event.id@));
                            assert(self@[i] == old(self)@[i]);
                        }
                    }
                }
            },
            NodeEventKind::Ping => {
                let found = self.find(&event.id);
                if let Some(i) = found {
                    let refreshed = Node {
                        id: self.nodes[i].id.clone(),
                        region: self.nodes[i].region,
                        last_ping: now,
                    };
                    self.nodes.set(i, refreshed);
                    assert(self@ =~= old(self)@.update(i as int, refreshed@));
                }
            },
            NodeEventKind::Disconnect => {
                self.remove_node(&event.id);
            },
            _ => {},
        }
    }

    /// Drop the node with the given id, if present.
    pub fn remove_node(&mut self, id: &String)
        requires
            old(self).wf(),
        ensures
            final(self).wf(),
            final(self)@ == old(self)@.filter(|n: NodeView| n.id != id@),
    {
        let ghost p = |n: NodeView| n.id != id@;
        let mut kept: Vec<Node> = Vec::new();
        let mut i: usize = 0;
        while i < self.nodes.len()
            invariant
                0 <= i <= self.nodes@.len(),
                self@.len() == self.nodes@.len(),
                self.wf(),
                kept@.map_values(|n: Node| n@) == self@.take(i as int).filter(p),
                p == (|n: NodeView| n.id != id@),
            decreases self.nodes@.len() - i,
        {
            let ghost prefix = self@.take(i as int);
            let node = &self.nodes[i];
            assert(node@ == self@[i as int]);
            let keep = !node.id.eq(id);
            proof {
                lemma_filter_push(prefix, p, node@);
                assert(self@.take(i + 1) =~= prefix.push(node@));
            }
            if keep {
                let copy = Node {
                    id: node.id.clone(),
                    region: node.region,
                    last_ping: node.last_ping,
                };
                assert(copy@ == node@);
                kept.push(copy);
                assert(kept@.map_values(|n: Node| n@) =~= prefix.filter(p).push(node@));
            }
            i += 1;
        }
        assert(self@.take(self@.len() as int) =~= self@);
        proof {
            lemma_filter_keeps_distinct(old(self)@, p, |n: NodeView| n.id);
        }
        self.nodes = kept;
        assert forall|i: int, j: int| 0 <= i < j < self@.len() implies self@[i].id
            != self@[j].id by {
            assert(self@[i] == self.nodes@[i]@ && self@[j] == self.nodes@[j]@);
        }
    }

    /// Drop every node whose last ping is ten seconds old or older, keeping
    /// exactly the live ones.
    pub fn evict_stale(&mut self, now: u64)
        requires
            old(self).wf(),
            forall|i: int| 0 <= i < old(self)@.len() ==> #[trigger] old(self)@[i].last_ping <= now,
        ensures
            final(self).wf(),
            final(self)@ == old(self)@.filter(|n: NodeView| now - n.last_ping < 10000),
            forall|i: int|
                0 <= i < final(self)@.len() ==> now - #[trigger] final(self)@[i].last_ping < 10000,
    {
        let ghost p = |n: NodeView| now - n.last_ping < 10000;
        let mut kept: Vec<Node> = Vec::new();
        let mut i: usize = 0;
        while i < self.nodes.len()
            invariant
                0 <= i <= self.nodes@.len(),
                self@.len() == self.nodes@.len(),
                self.wf(),
                kept@.map_values(|n: Node| n@) == self@.take(i as int).filter(p),
                p == (|n: NodeView| now - n.last_ping < 10000),
                forall|j: int| 0 <= j < self@.len() ==> #[trigger] self@[j].last_ping <= now,
            decreases self.nodes@.len() - i,
        {
            let ghost prefix = self@.take(i as int);
            let node = &self.nodes[i];
            assert(node@ == self@[i as int]);
            assert(self@[i as int].last_ping <= now);
            let keep = node.is_live(now);
            proof {
                lemma_filter_push(prefix, p, node@);
                assert(self@.take(i + 1) =~= prefix.push(node@));
            }
            if keep {
                let copy = Node {
                    id: node.id.clone(),
                    region: node.region,
                    last_ping: node.last_ping,
                };
                assert(copy@ == node@);
                kept.push(copy);
                assert(kept@.map_values(|n: Node| n@) =~= prefix.filter(p).push(node@));
            } else {
                node.suppress();
            }
            i += 1;
        }
        assert(self@.take(self@.len() as int) =~= self@);
        proof {
            lemma_filter_keeps_distinct(old(self)@, p, |n: NodeView| n.id);
        }
        self.nodes = kept;
        assert forall|i: int, j: int| 0 <= i < j < self@.len() implies self@[i].id
            != self@[j].id by {
            assert(self@[i] == self.nodes@[i]@ && self@[j] == self.nodes@[j]@);
        }
        proof {
            assert forall|i: int|
                0 <= i < self@.len() implies now - self@[i].last_ping < 10000 by {
                old(self)@.lemma_filter_pred(p, i);
            }
        }
    }
}

/// If a key function tells all elements of a sequence apart, it still does
/// after filtering.
pub proof fn lemma_filter_keeps_distinct<A, K>(s: Seq<A>, p: spec_fn(A) -> bool, key: spec_fn(A) -> K)
    requires
        forall|i: int, j: int| 0 <= i < j < s.len() ==> key(#[trigger] s[i]) != key(#[trigger] s[j]),
    ensures
        forall|i: int, j: int|
            0 <= i < j < s.filter(p).len() ==> key(#[trigger] s.filter(p)[i]) != key(
                #[trigger] s.filter(p)[j],
            ),
    decreases s.len(),
{
    reveal(Seq::filter);
    if s.len() > 0 {
        let head = s.drop_last();
        let f = s.filter(p);
        assert(forall|i: int| 0 <= i < head.len() ==> head[i] == s[i]);
        lemma_filter_keeps_distinct(head, p, key);
        assert forall|i: int, j: int| 0 <= i < j < f.len() implies key(f[i]) != key(f[j]) by {
            if p(s.last()) {
                assert(f == head.filter(p).push(s.last()));
                if j == f.len() - 1 {
                    assert(f[j] == s.last());
                    assert(f[i] == head.filter(p)[i]);
                    assert(head.filter(p).contains(f[i]));
                    head.lemma_filter_contains_rev(p, f[i]);
                    let l = choose|l: int| 0 <= l < head.len() && head[l] == f[i];
                    assert(s[l] == f[i]);
                    assert(key(s[l]) != key(s[s.len() - 1]));
                } else {
                    assert(f[i] == head.filter(p)[i] && f[j] == head.filter(p)[j]);
                }
            } else {
                assert(f == head.filter(p));
                assert(f[i] == head.filter(p)[i] && f[j] == head.filter(p)[j]);
            }
        }
    }
}


/// One active call, as every broker replica sees it.
#[derive(Debug)]
pub struct ActiveCall {
    pub id: String,
    pub space_id: String,
    pub channel_id: String,
    /// The users currently in the call, in join order, each at most once.
    pub members: Vec<String>,
    /// The node the call was placed on.
    pub node_id: String,
    pub started_at: u64,
}

/// The ghost image of an [`ActiveCall`].
#[verifier::ext_equal]
pub struct ActiveCallView {
    pub id: Seq<char>,
    pub space_id: Seq<char>,
    pub channel_id: Seq<char>,
    pub members: Seq<Seq<char>>,
    pub node_id: Seq<char>,
    pub started_at: u64,
}

impl View for ActiveCall {
    type V = ActiveCallView;

    open spec fn view(&self) -> ActiveCallView {
        ActiveCallView {
            id: self.id@,
            space_id: self.space_id@,
            channel_id: self.channel_id@,
            members: self.members.deep_view(),
            node_id: self.node_id@,
            started_at: self.started_at,
        }
    }
}

/// The claims of a signed call credential: who may join which call, and
/// until when. The signing itself happens outside, over these plain fields.
#[derive(Debug)]
pub struct CallToken {
    pub user_id: String,
    pub call_id: String,
    pub expires_at: u64,
}

/// The claims a media node reads back out of a presented [`CallToken`].
#[derive(Clone, Debug)]
pub struct RtcAuthorization {
    pub call_id: String,
    pub user_id: String,
}

/// One user's media state inside a call, as mirrored to clients.
#[derive(Clone, Debug)]
pub struct CallUser {
    pub id: String,
    pub call_id: String,
    pub muted: bool,
    pub deafened: bool,
    pub speaking: bool,
    pub video: bool,
    pub screenshare: bool,
}

/// Token lifetime: clients exchange a token for a session promptly.
pub const CALL_TOKEN_LIFETIME_MS: u64 = 60000;

impl ActiveCall {
    /// Mint the claims of a call credential for `user_id`, expiring sixty
    /// seconds from `now`.
    pub fn get_token(&self, user_id: &String, now: u64) -> (r: CallToken)
        requires
            now + CALL_TOKEN_LIFETIME_MS <= u64::MAX,
        ensures
            r.user_id@ == user_id@,
            r.call_id@ == self.id@,
            r.expires_at == now + CALL_TOKEN_LIFETIME_MS,
    {
        CallToken {
            user_id: user_id.clone(),
            call_id: self.id.clone(),
            expires_at: now + CALL_TOKEN_LIFETIME_MS,
        }
    }
}

/// Where a call sits in the shared table, by its channel.
pub open spec fn spec_find_call(
    calls: Seq<ActiveCallView>,
    space: Seq<char>,
    channel: Seq<char>,
) -> int {
    first_where(calls, |c: ActiveCallView| c.space_id == space && c.channel_id == channel)
}

/// Whether a member list holds an id.
pub open spec fn spec_member(members: Seq<Seq<char>>, user: Seq<char>) -> bool {
    exists|i: int| 0 <= i < members.len() && members[i] == user
}

/// The broker's shared table of active calls.
#[derive(Debug)]
pub struct CallRegistry {
    pub calls: Vec<ActiveCall>,
}

impl View for CallRegistry {
    type V = Seq<ActiveCallView>;

    open spec fn view(&self) -> Seq<ActiveCallView> {
        self.calls@.map_values(|c: ActiveCall| c@)
    }
}

impl CallRegistry {
    /// At most one call per `(space, channel)`, distinct call ids, and no
    /// call without members.
    pub open spec fn wf(self) -> bool {
        wf_calls(self@)
    }

    pub fn new() -> (r: CallRegistry)
        ensures
            r@ == Seq::<ActiveCallView>::empty(),
            r.wf(),
    {
        let r = CallRegistry { calls: Vec::new() };
        assert(r@ =~= Seq::<ActiveCallView>::empty());
        r
    }

    /// The position of the call active in `(space, channel)`.
    pub fn find_in_channel(&self, space: &String, channel: &String) -> (r: Option<usize>)
        ensures
            match r {
                Some(i) => i as int == spec_find_call(self@, space@, channel@) && i < self@.len()
                    && self@[i as int].space_id == space@ && self@[i as int].channel_id
                    == channel@,
                None => spec_find_call(self@, space@, channel@) == -1,
            },
    {
        let ghost p = |c: ActiveCallView| c.space_id == space@ && c.channel_id == channel@;
        let mut i: usize = 0;
        while i < self.calls.len()
            invariant
                0 <= i <= self.calls@.len(),
                self@.len() == self.calls@.len(),
                forall|j: int| 0 <= j < i ==> !p(#[trigger] self@[j]),
                p == (|c: ActiveCallView| c.space_id == space@ && c.channel_id == channel@),
            decreases self.calls@.len() - i,
        {
            assert(self@[i as int] == self.calls@[i as int]@);
            if self.calls[i].space_id.eq(space) && self.calls[i].channel_id.eq(channel) {
                proof {
                    lemma_first_where(self@, p);
                }
                return Some(i);
            }
            i += 1;
        }
        proof {
            lemma_first_where(self@, p);
        }
        None
    }

    /// The position of the call with the given id.
    pub fn find_by_id(&self, id: &String) -> (r: Option<usize>)
        ensures
            match r {
                Some(i) => i < self@.len() && self@[i as int].id == id@,
                None => forall|j: int| 0 <= j < self@.len() ==> (#[trigger] self@[j]).id != id@,
            },
    {
        let mut i: usize = 0;
        while i < self.calls.len()
            invariant
                0 <= i <= self.calls@.len(),
                self@.len() == self.calls@.len(),
                forall|j: int| 0 <= j < i ==> (#[trigger] self@[j]).id != id@,
            decreases self.calls@.len() - i,
        {
            assert(self@[i as int] == self.calls@[i as int]@);
            if self.calls[i].id.eq(id) {
                return Some(i);
            }
            i += 1;
        }
        None
    }

    /// Start a call: insert the one call of `(space, channel)`, with the
    /// caller as its only member. Fails with `AlreadyExists`, changing
    /// nothing, exactly when the channel already has a call or the id is
    /// taken.
    pub fn create(
        &mut self,
        space: &String,
        channel: &String,
        initiator: &String,
        call_id: String,
        node_id: String,
        now: u64,
    ) -> (r: Result<usize, Error>)
        requires
            old(self).wf(),
        ensures
            final(self).wf(),
            match r {
                Ok(i) => spec_find_call(old(self)@, space@, channel@) == -1 && (forall|j: int|
                    0 <= j < old(self)@.len() ==> (#[trigger] old(self)@[j]).id != call_id@)
                    && i == old(self)@.len() && final(self)@ == old(self)@.push(
                    (ActiveCallView {
                        id: call_id@,
                        space_id: space@,
                        channel_id: channel@,
                        members: seq![initiator@],
                        node_id: node_id@,
                        started_at: now,
                    }),
                ),
                Err(e) => final(self)@ == old(self)@ && (e matches Error::AlreadyExists) && (
                spec_find_call(old(self)@, space@, channel@) != -1 || exists|j: int|
                    0 <= j < old(self)@.len() && (#[trigger] old(self)@[j]).id == call_id@),
            },
    {
        if self.find_in_channel(space, channel).is_some() {
            return Err(Error::AlreadyExists);
        }
        if self.find_by_id(&call_id).is_some() {
            return Err(Error::AlreadyExists);
        }
        let ghost p = |c: ActiveCallView| c.space_id == space@ && c.channel_id == channel@;
        proof {
            lemma_first_where(old(self)@, p);
        }
        let mut members: Vec<String> = Vec::new();
        members.push(initiator.clone());
        let call = ActiveCall {
            id: call_id,
            space_id: space.clone(),
            channel_id: channel.clone(),
            members,
            node_id,
            started_at: now,
        };
        assert(call@.members =~= seq![initiator@]);
        let i = self.calls.len();
        self.calls.push(call);
        assert(self@ =~= old(self)@.push(call@));
        proof {
            let n = self@.len() - 1;
            assert forall|a: int, b: int| 0 <= a < b < self@.len() implies !((self@[a]).space_id
                == (self@[b]).space_id && self@[a].channel_id == self@[b].channel_id) by {
                if b == n {
                    assert(!p(old(self)@[a]));
                }
            }
            assert forall|a: int, b: int| 0 <= a < b < self@.len() implies (self@[a]).id
                != (self@[b]).id by {
                if b == n {
                    assert(old(self)@[a].id != call_id@);
                }
            }
        }
        Ok(i)
    }
}


/// The member list with every occurrence of `user` removed.
fn members_without(members: &Vec<String>, user: &String) -> (r: Vec<String>)
    ensures
        r.deep_view() == members.deep_view().filter(|m: Seq<char>| m != user@),
{
    let ghost p = |m: Seq<char>| m != user@;
    let mut kept: Vec<String> = Vec::new();
    let mut i: usize = 0;
    while i < members.len()
        invariant
            0 <= i <= members@.len(),
            members.deep_view().len() == members@.len(),
            kept.deep_view() == members.deep_view().take(i as int).filter(p),
            p == (|m: Seq<char>| m != user@),
        decreases members@.len() - i,
    {
        let ghost prefix = members.deep_view().take(i as int);
        assert(members.deep_view()[i as int] == members@[i as int]@);
        proof {
            lemma_filter_push(prefix, p, members.deep_view()[i as int]);
            assert(members.deep_view().take(i + 1) =~= prefix.push(members.deep_view()[i as int]));
        }
        if !members[i].eq(user) {
            kept.push(members[i].clone());
            assert(kept.deep_view() =~= prefix.filter(p).push(members.deep_view()[i as int]));
        }
        i += 1;
    }
    assert(members.deep_view().take(members.deep_view().len() as int) =~= members.deep_view());
    kept
}

impl CallRegistry {
    /// Add a user to the call in `(space, channel)`. Joining is idempotent:
    /// a user already in the call changes nothing. Fails with `NotFound`,
    /// changing nothing, exactly when the channel has no call.
    pub fn join_user(&mut self, space: &String, channel: &String, user: &String) -> (r: Result<
        usize,
        Error,
    >)
        requires
            old(self).wf(),
        ensures
            final(self).wf(),
            match r {
                Ok(i) => i as int == spec_find_call(old(self)@, space@, channel@) && i < old(
                    self,
                )@.len() && (if spec_member(old(self)@[i as int].members, user@) {
                    final(self)@ == old(self)@
                } else {
                    final(self)@ == old(self)@.update(
                        i as int,
                        (ActiveCallView {
                            members: old(self)@[i as int].members.push(user@),
                            ..old(self)@[i as int]
                        }),
                    )
                }),
                Err(e) => final(self)@ == old(self)@ && (e matches Error::NotFound)
                    && spec_find_call(old(self)@, space@, channel@) == -1,
            },
    {
        let found = self.find_in_channel(space, channel);
        let Some(i) = found else { return Err(Error::NotFound) };
        if contains_id(&self.calls[i].members, user) {
            assert(self@[i as int] == self.calls@[i as int]@);
            assert(spec_member(self@[i as int].members, user@)) by {
                let k = choose|k: int|
                    0 <= k < self.calls@[i as int].members@.len()
                        && self.calls@[i as int].members@[k]@ == user@;
                assert(self@[i as int].members[k] == user@);
            }
            return Ok(i);
        }
        assert(!spec_member(self@[i as int].members, user@)) by {
            if spec_member(self@[i as int].members, user@) {
                let k = choose|k: int|
                    0 <= k < self@[i as int].members.len() && self@[i as int].members[k] == user@;
                assert(self.calls@[i as int].members@[k]@ == user@);
            }
        }
        let mut call = self.calls.remove(i);
        let ghost before = call@;
        call.members.push(user.clone());
        assert(call@.members =~= before.members.push(user@));
        self.calls.insert(i, call);
        assert(self@ =~= old(self)@.update(
            i as int,
            (ActiveCallView { members: old(self)@[i as int].members.push(user@), ..old(self)@[i as int] }),
        ));
        proof {
            lemma_wf_update_members(
                old(self)@,
                self@,
                i as int,
                old(self)@[i as int].members.push(user@),
            );
        }
        Ok(i)
    }

    /// Remove a user from the call in `(space, channel)`; the call ends when
    /// its last member leaves. Fails with `NotFound`, changing nothing,
    /// exactly when the channel has no call or the user is not in it.
    pub fn leave_user(&mut self, space: &String, channel: &String, user: &String) -> (r: Result<
        (),
        Error,
    >)
        requires
            old(self).wf(),
        ensures
            final(self).wf(),
            match r {
                Ok(_) => {
                    let i = spec_find_call(old(self)@, space@, channel@);
                    let remaining = old(self)@[i].members.filter(|m: Seq<char>| m != user@);
                    &&& i != -1
                    &&& spec_member(old(self)@[i].members, user@)
                    &&& if remaining.len() == 0 {
                        final(self)@ == old(self)@.remove(i)
                    } else {
                        final(self)@ == old(self)@.update(
                            i,
                            (ActiveCallView { members: remaining, ..old(self)@[i] }),
                        )
                    }
                },
                Err(e) => final(self)@ == old(self)@ && (e matches Error::NotFound) && (
                spec_find_call(old(self)@, space@, channel@) == -1 || !spec_member(
                    old(self)@[spec_find_call(old(self)@, space@, channel@)].members,
                    user@,
                )),
            },
    {
        let found = self.find_in_channel(space, channel);
        let Some(i) = found else { return Err(Error::NotFound) };
        assert(self@[i as int] == self.calls@[i as int]@);
        if !contains_id(&self.calls[i].members, user) {
            assert(!spec_member(self@[i as int].members, user@)) by {
                if spec_member(self@[i as int].members, user@) {
                    let k = choose|k: int|
                        0 <= k < self@[i as int].members.len() && self@[i as int].members[k]
                            == user@;
                    assert(self.calls@[i as int].members@[k]@ == user@);
                }
            }
            return Err(Error::NotFound);
        }
        assert(spec_member(self@[i as int].members, user@)) by {
            let k = choose|k: int|
                0 <= k < self.calls@[i as int].members@.len() && self.calls@[i as int].members@[k]@
                    == user@;
            assert(self@[i as int].members[k] == user@);
        }
        let mut call = self.calls.remove(i);
        assert(self.calls@ =~= old(self).calls@.remove(i as int));
        let remaining = members_without(&call.members, user);
        if remaining.len() == 0 {
            assert(self@ =~= old(self)@.remove(i as int));
            proof {
                lemma_wf_remove(old(self)@, self@, i as int);
            }
            Ok(())
        } else {
            call.members = remaining;
            self.calls.insert(i, call);
            assert(self@ =~= old(self)@.update(
                i as int,
                (ActiveCallView {
                    members: old(self)@[i as int].members.filter(|m: Seq<char>| m != user@),
                    ..old(self)@[i as int]
                }),
            ));
            proof {
                lemma_wf_update_members(
                    old(self)@,
                    self@,
                    i as int,
                    old(self)@[i as int].members.filter(|m: Seq<char>| m != user@),
                );
            }
            Ok(())
        }
    }

    /// End the call in `(space, channel)` outright, returning the members
    /// that must now be disconnected. Fails with `NotFound`, changing
    /// nothing, exactly when the channel has no call.
    pub fn end(&mut self, space: &String, channel: &String) -> (r: Result<Vec<String>, Error>)
        requires
            old(self).wf(),
        ensures
            final(self).wf(),
            match r {
                Ok(members) => {
                    let i = spec_find_call(old(self)@, space@, channel@);
                    &&& i != -1
                    &&& members.deep_view() == old(self)@[i].members
                    &&& final(self)@ == old(self)@.remove(i)
                },
                Err(e) => final(self)@ == old(self)@ && (e matches Error::NotFound)
                    && spec_find_call(old(self)@, space@, channel@) == -1,
            },
    {
        let found = self.find_in_channel(space, channel);
        let Some(i) = found else { return Err(Error::NotFound) };
        assert(self@[i as int] == self.calls@[i as int]@);
        let call = self.calls.remove(i);
        assert(self@ =~= old(self)@.remove(i as int));
        proof {
            lemma_wf_remove(old(self)@, self@, i as int);
        }
        Ok(call.members)
    }
}

/// Replacing one call's member list preserves the table's shape invariants,
/// as long as the new list is not empty.
proof fn lemma_wf_update_members(
    before: Seq<ActiveCallView>,
    after: Seq<ActiveCallView>,
    i: int,
    members: Seq<Seq<char>>,
)
    requires
        0 <= i < before.len(),
        wf_calls(before),
        members.len() > 0,
        after == before.update(i, (ActiveCallView { members, ..before[i] })),
    ensures
        wf_calls(after),
{
    assert(forall|a: int| 0 <= a < after.len() ==> (#[trigger] after[a]).space_id
        == before[a].space_id && after[a].channel_id == before[a].channel_id && after[a].id
        == before[a].id);
    assert(forall|a: int|
        0 <= a < after.len() && a != i ==> (#[trigger] after[a]).members == before[a].members);
}

/// Removing a call preserves the table's shape invariants.
proof fn lemma_wf_remove(before: Seq<ActiveCallView>, after: Seq<ActiveCallView>, i: int)
    requires
        0 <= i < before.len(),
        wf_calls(before),
        after == before.remove(i),
    ensures
        wf_calls(after),
{
    assert(forall|a: int|
        0 <= a < after.len() ==> #[trigger] after[a] == (if a < i {
            before[a]
        } else {
            before[a + 1]
        }));
}

/// The shape invariants of the call table, on its ghost image.
pub open spec fn wf_calls(calls: Seq<ActiveCallView>) -> bool {
    &&& forall|i: int, j: int|
        0 <= i < j < calls.len() ==> !((#[trigger] calls[i]).space_id == (
        #[trigger] calls[j]).space_id && calls[i].channel_id == calls[j].channel_id)
    &&& forall|i: int, j: int|
        0 <= i < j < calls.len() ==> (#[trigger] calls[i]).id != (#[trigger] calls[j]).id
    &&& forall|i: int| 0 <= i < calls.len() ==> (#[trigger] calls[i]).members.len() > 0
}


/// A field-for-field copy of a call record.
fn clone_call(c: &ActiveCall) -> (r: ActiveCall)
    ensures
        r@ == c@,
{
    let members = c.members.clone();
    assert(members@ =~= c.members@);
    assert(members.deep_view() =~= c.members.deep_view()) by {
        assert(forall|i: int|
            0 <= i < members@.len() ==> members@[i] == #[trigger] c.members@[i]);
    }
    let r = ActiveCall {
        id: c.id.clone(),
        space_id: c.space_id.clone(),
        channel_id: c.channel_id.clone(),
        members,
        node_id: c.node_id.clone(),
        started_at: c.started_at,
    };
    assert(r@ =~= c@);
    r
}

impl CallRegistry {
    /// Reap every call placed on a node this table no longer lists, and
    /// return the reaped calls, whose members must now be disconnected.
    pub fn reap_unplaced(&mut self, nodes: &NodeRegistry) -> (r: Vec<ActiveCall>)
        requires
            old(self).wf(),
        ensures
            final(self).wf(),
            final(self)@ == old(self)@.filter(|c: ActiveCallView| nodes.spec_has_node(c.node_id)),
            r@.map_values(|c: ActiveCall| c@) == old(self)@.filter(
                |c: ActiveCallView| !nodes.spec_has_node(c.node_id),
            ),
    {
        let ghost keep_p = |c: ActiveCallView| nodes.spec_has_node(c.node_id);
        let ghost drop_p = |c: ActiveCallView| !nodes.spec_has_node(c.node_id);
        let mut kept: Vec<ActiveCall> = Vec::new();
        let mut dropped: Vec<ActiveCall> = Vec::new();
        let mut i: usize = 0;
        while i < self.calls.len()
            invariant
                0 <= i <= self.calls@.len(),
                self@.len() == self.calls@.len(),
                self.wf(),
                kept@.map_values(|c: ActiveCall| c@) == self@.take(i as int).filter(keep_p),
                dropped@.map_values(|c: ActiveCall| c@) == self@.take(i as int).filter(drop_p),
                keep_p == (|c: ActiveCallView| nodes.spec_has_node(c.node_id)),
                drop_p == (|c: ActiveCallView| !nodes.spec_has_node(c.node_id)),
            decreases self.calls@.len() - i,
        {
            let ghost prefix = self@.take(i as int);
            assert(self@[i as int] == self.calls@[i as int]@);
            let copy = clone_call(&self.calls[i]);
            assert(copy@ == self@[i as int]);
            proof {
                lemma_filter_push(prefix, keep_p, copy@);
                lemma_filter_push(prefix, drop_p, copy@);
                assert(self@.take(i + 1) =~= prefix.push(copy@));
            }
            let placed = nodes.find(&copy.node_id).is_some();
            if placed {
                assert(keep_p(copy@) && !drop_p(copy@));
                kept.push(copy);
                assert(kept@.map_values(|c: ActiveCall| c@) =~= prefix.filter(keep_p).push(
                    self@[i as int],
                ));
            } else {
                assert(!keep_p(copy@) && drop_p(copy@));
                dropped.push(copy);
                assert(dropped@.map_values(|c: ActiveCall| c@) =~= prefix.filter(drop_p).push(
                    self@[i as int],
                ));
            }
            i += 1;
        }
        assert(self@.take(self@.len() as int) =~= self@);
        proof {
            lemma_filter_keeps_pairs_distinct(old(self)@, keep_p);
        }
        self.calls = kept;
        dropped
    }
}

/// Filtering the call table preserves its shape invariants.
proof fn lemma_filter_keeps_pairs_distinct(s: Seq<ActiveCallView>, p: spec_fn(ActiveCallView) -> bool)
    requires
        wf_calls(s),
    ensures
        wf_calls(s.filter(p)),
{
    let f = s.filter(p);
    lemma_filter_keeps_distinct(s, p, |c: ActiveCallView| (c.space_id, c.channel_id));
    lemma_filter_keeps_distinct(s, p, |c: ActiveCallView| c.id);
    assert forall|i: int| 0 <= i < f.len() implies (#[trigger] f[i]).members.len() > 0 by {
        s.lemma_filter_pred(p, i);
        s.lemma_filter_contains_rev(p, f[i]);
        let l = choose|l: int| 0 <= l < s.len() && s[l] == f[i];
    }
    assert forall|i: int, j: int| 0 <= i < j < f.len() implies !((#[trigger] f[i]).space_id == (
    #[trigger] f[j]).space_id && f[i].channel_id == f[j].channel_id) by {
        let key = |c: ActiveCallView| (c.space_id, c.channel_id);
        assert(key(f[i]) != key(f[j]));
    }
}

/// At any instant at most one active call exists per `(space, channel)`:
/// two well-formed table entries naming the same pair are the same entry.
pub proof fn lemma_one_call_per_channel(reg: CallRegistry, i: int, j: int)
    requires
        reg.wf(),
        0 <= i < reg@.len(),
        0 <= j < reg@.len(),
        reg@[i].space_id == reg@[j].space_id,
        reg@[i].channel_id == reg@[j].channel_id,
    ensures
        i == j,
{
}

/// Ending a call removes its pair from the table, so ending it a second
/// time finds nothing: by `end`'s contract the repeat returns `NotFound`
/// and leaves the table unchanged.
pub proof fn lemma_end_idempotent(before: Seq<ActiveCallView>, space: Seq<char>, channel: Seq<char>)
    requires
        wf_calls(before),
        spec_find_call(before, space, channel) != -1,
    ensures
        spec_find_call(
            before.remove(spec_find_call(before, space, channel)),
            space,
            channel,
        ) == -1,
{
    let p = |c: ActiveCallView| c.space_id == space && c.channel_id == channel;
    let i = spec_find_call(before, space, channel);
    lemma_first_where(before, p);
    let after = before.remove(i);
    assert forall|a: int| 0 <= a < after.len() implies !p(after[a]) by {
        assert(after[a] == (if a < i {
            before[a]
        } else {
            before[a + 1]
        }));
        if a < i {
            assert(!(before[a].space_id == before[i].space_id && before[a].channel_id
                == before[i].channel_id));
        } else {
            assert(!(before[i].space_id == before[a + 1].space_id && before[i].channel_id
                == before[a + 1].channel_id));
        }
    }
    lemma_first_where(after, p);
}

/// Joining a call and then leaving it with the same arguments restores the
/// table: the join appends the user, the leave removes exactly that entry,
/// and the resulting table equals the original.
pub proof fn lemma_join_leave_roundtrip(
    before: Seq<ActiveCallView>,
    space: Seq<char>,
    channel: Seq<char>,
    user: Seq<char>,
)
    requires
        wf_calls(before),
        spec_find_call(before, space, channel) != -1,
        !spec_member(before[spec_find_call(before, space, channel)].members, user),
    ensures
        ({
            let i = spec_find_call(before, space, channel);
            let joined = before.update(
                i,
                (ActiveCallView { members: before[i].members.push(user), ..before[i] }),
            );
            let remaining = joined[i].members.filter(|m: Seq<char>| m != user);
            &&& spec_find_call(joined, space, channel) == i
            &&& spec_member(joined[i].members, user)
            &&& remaining == before[i].members
            &&& remaining.len() > 0
            &&& joined.update(i, (ActiveCallView { members: remaining, ..joined[i] })) == before
        }),
{
    let p = |c: ActiveCallView| c.space_id == space && c.channel_id == channel;
    let i = spec_find_call(before, space, channel);
    lemma_first_where(before, p);
    let joined = before.update(
        i,
        (ActiveCallView { members: before[i].members.push(user), ..before[i] }),
    );
    assert(p(joined[i]));
    let r = spec_find_call(joined, space, channel);
    lemma_first_where(joined, p);
    if r == -1 {
        assert(false);
    } else if r < i {
        assert(joined[r] == before[r]);
        assert(false);
    } else if r > i {
        assert(false);
    }
    let m = before[i].members;
    assert(joined[i].members[m.len() as int] == user);
    let keep = |x: Seq<char>| x != user;
    crate::lemma_filter_push(m, keep, user);
    crate::lemma_filter_all(m, keep);
    assert(m.filter(keep) == m);
    assert(joined[i].members.filter(keep) == m);
    assert(joined.update(i, (ActiveCallView { members: m, ..joined[i] })) =~= before);
}


/// Strict lexicographic order on character sequences, by code point.
pub open spec fn spec_chars_lt(a: Seq<char>, b: Seq<char>) -> bool
    decreases a.len(),
{
    if b.len() == 0 {
        false
    } else if a.len() == 0 {
        true
    } else if (a[0] as u32) < (b[0] as u32) {
        true
    } else if (a[0] as u32) > (b[0] as u32) {
        false
    } else {
        spec_chars_lt(a.drop_first(), b.drop_first())
    }
}

/// The order ignores a common prefix.
proof fn lemma_chars_lt_skip(a: Seq<char>, b: Seq<char>, i: int)
    requires
        0 <= i <= a.len(),
        i <= b.len(),
        forall|j: int| 0 <= j < i ==> a[j] == b[j],
    ensures
        spec_chars_lt(a, b) == spec_chars_lt(a.skip(i), b.skip(i)),
    decreases i,
{
    if i > 0 {
        assert(a.len() > 0 && b.len() > 0);
        assert((a[0] as u32) == (b[0] as u32));
        lemma_chars_lt_skip(a.drop_first(), b.drop_first(), i - 1);
        assert(a.drop_first().skip(i - 1) =~= a.skip(i));
        assert(b.drop_first().skip(i - 1) =~= b.skip(i));
    } else {
        assert(a.skip(0) =~= a);
        assert(b.skip(0) =~= b);
    }
}

/// The order is transitive.
pub proof fn lemma_chars_lt_trans(a: Seq<char>, b: Seq<char>, c: Seq<char>)
    requires
        spec_chars_lt(a, b),
        spec_chars_lt(b, c),
    ensures
        spec_chars_lt(a, c),
    decreases a.len(),
{
    if a.len() > 0 && b.len() > 0 && c.len() > 0 {
        if (a[0] as u32) == (b[0] as u32) && (b[0] as u32) == (c[0] as u32) {
            lemma_chars_lt_trans(a.drop_first(), b.drop_first(), c.drop_first());
        }
    }
}

/// Whether `a` sorts strictly before `b`, comparing code points and, on a
/// common prefix, lengths.
pub fn chars_lt(a: &str, b: &str) -> (r: bool)
    ensures
        r == spec_chars_lt(a@, b@),
{
    let alen = a.unicode_len();
    let blen = b.unicode_len();
    let mut i: usize = 0;
    while i < alen && i < blen
        invariant
            alen == a@.len(),
            blen == b@.len(),
            0 <= i <= alen,
            i <= blen,
            forall|j: int| 0 <= j < i ==> a@[j] == b@[j],
        decreases alen - i,
    {
        let ca = a.get_char(i);
        let cb = b.get_char(i);
        if (ca as u32) < (cb as u32) {
            proof {
                lemma_chars_lt_skip(a@, b@, i as int);
                assert(a@.skip(i as int)[0] == ca && b@.skip(i as int)[0] == cb);
            }
            return true;
        }
        if (ca as u32) > (cb as u32) {
            proof {
                lemma_chars_lt_skip(a@, b@, i as int);
                assert(a@.skip(i as int)[0] == ca && b@.skip(i as int)[0] == cb);
            }
            return false;
        }
        i += 1;
    }
    proof {
        lemma_chars_lt_skip(a@, b@, i as int);
        assert(a@.skip(i as int).len() == alen - i);
        assert(b@.skip(i as int).len() == blen - i);
    }
    alen < blen
}

/// How many active calls sit on the node with the given id.
pub open spec fn spec_count_calls(calls: Seq<ActiveCallView>, id: Seq<char>) -> int
    decreases calls.len(),
{
    if calls.len() == 0 {
        0
    } else {
        spec_count_calls(calls.drop_last(), id) + if calls.last().node_id == id {
            1int
        } else {
            0int
        }
    }
}

impl CallRegistry {
    /// How many calls are placed on the node with the given id.
    pub fn count_calls(&self, id: &String) -> (r: usize)
        ensures
            r as int == spec_count_calls(self@, id@),
    {
        let mut count: usize = 0;
        let mut i: usize = 0;
        while i < self.calls.len()
            invariant
                0 <= i <= self.calls@.len(),
                self@.len() == self.calls@.len(),
                count as int == spec_count_calls(self@.take(i as int), id@),
                count <= i,
            decreases self.calls@.len() - i,
        {
            assert(self@[i as int] == self.calls@[i as int]@);
            assert(self@.take(i + 1).drop_last() =~= self@.take(i as int));
            assert(self@.take(i + 1).last() == self@[i as int]);
            if self.calls[i].node_id.eq(id) {
                count += 1;
            }
            i += 1;
        }
        assert(self@.take(self@.len() as int) =~= self@);
        count
    }
}

/// Whether node `a` is a strictly better home for a new call than node `b`:
/// the caller's region wins, then the lower call count, then the lower id.
pub open spec fn spec_better_node(
    a: NodeView,
    b: NodeView,
    prefer: Region,
    calls: Seq<ActiveCallView>,
) -> bool {
    if (a.region == prefer) != (b.region == prefer) {
        a.region == prefer
    } else if spec_count_calls(calls, a.id) != spec_count_calls(calls, b.id) {
        spec_count_calls(calls, a.id) < spec_count_calls(calls, b.id)
    } else {
        spec_chars_lt(a.id, b.id)
    }
}

/// Nothing sorts strictly before itself.
proof fn lemma_chars_lt_irrefl(a: Seq<char>)
    ensures
        !spec_chars_lt(a, a),
    decreases a.len(),
{
    if a.len() > 0 {
        lemma_chars_lt_irrefl(a.drop_first());
    }
}

/// No node is a strictly better home than itself.
pub proof fn lemma_better_node_irrefl(a: NodeView, prefer: Region, calls: Seq<ActiveCallView>)
    ensures
        !spec_better_node(a, a, prefer, calls),
{
    lemma_chars_lt_irrefl(a.id);
}

/// "Strictly better" is transitive.
pub proof fn lemma_better_node_trans(
    a: NodeView,
    b: NodeView,
    c: NodeView,
    prefer: Region,
    calls: Seq<ActiveCallView>,
)
    requires
        spec_better_node(a, b, prefer, calls),
        spec_better_node(b, c, prefer, calls),
    ensures
        spec_better_node(a, c, prefer, calls),
{
    if (a.region == prefer) == (b.region == prefer) && (b.region == prefer) == (c.region
        == prefer) && spec_count_calls(calls, a.id) == spec_count_calls(calls, b.id)
        && spec_count_calls(calls, b.id) == spec_count_calls(calls, c.id) {
        lemma_chars_lt_trans(a.id, b.id, c.id);
    }
}

impl NodeRegistry {
    /// Pick the node a new call should be placed on: a live node, preferring
    /// the caller's region, breaking ties by lowest call count and then by
    /// lowest id. `None` exactly when no node is live.
    pub fn select_node(&self, prefer: Region, now: u64, calls: &CallRegistry) -> (r: Option<
        usize,
    >)
        requires
            forall|i: int| 0 <= i < self@.len() ==> #[trigger] self@[i].last_ping <= now,
        ensures
            match r {
                Some(i) => i < self@.len() && now - self@[i as int].last_ping < 10000
                    && forall|j: int|
                    0 <= j < self@.len() && j != i && now - (#[trigger] self@[j]).last_ping
                        < 10000 ==> !spec_better_node(
                        self@[j],
                        self@[i as int],
                        prefer,
                        calls@,
                    ),
                None => forall|j: int|
                    0 <= j < self@.len() ==> !(now - (#[trigger] self@[j]).last_ping < 10000),
            },
    {
        let mut best: Option<usize> = None;
        let mut i: usize = 0;
        while i < self.nodes.len()
            invariant
                0 <= i <= self.nodes@.len(),
                self@.len() == self.nodes@.len(),
                forall|j: int| 0 <= j < self@.len() ==> #[trigger] self@[j].last_ping <= now,
                match best {
                    Some(b) => b < i && now - self@[b as int].last_ping < 10000 && forall|j: int|
                        0 <= j < i && j != b && now - (#[trigger] self@[j]).last_ping < 10000
                            ==> !spec_better_node(self@[j], self@[b as int], prefer, calls@),
                    None => forall|j: int|
                        0 <= j < i ==> !(now - (#[trigger] self@[j]).last_ping < 10000),
                },
            decreases self.nodes@.len() - i,
        {
            assert(self@[i as int] == self.nodes@[i as int]@);
            assert(self@[i as int].last_ping <= now);
            let node = &self.nodes[i];
            if node.is_live(now) {
                match best {
                    None => {
                        best = Some(i);
                    },
                    Some(b) => {
                        let cand = &self.nodes[i];
                        let cur = &self.nodes[b];
                        assert(self@[b as int] == self.nodes@[b as int]@);
                        let cand_pref = cand.region == prefer;
                        let cur_pref = cur.region == prefer;
                        let replace = if cand_pref != cur_pref {
                            cand_pref
                        } else {
                            let cand_count = calls.count_calls(&cand.id);
                            let cur_count = calls.count_calls(&cur.id);
                            if cand_count != cur_count {
                                cand_count < cur_count
                            } else {
                                chars_lt(cand.id.as_str(), cur.id.as_str())
                            }
                        };
                        assert(replace == spec_better_node(
                            self@[i as int],
                            self@[b as int],
                            prefer,
                            calls@,
                        ));
                        if replace {
                            proof {
                                assert forall|j: int|
                                    0 <= j < i + 1 && j != i as int && now - (
                                    #[trigger] self@[j]).last_ping < 10000 implies
                                    !spec_better_node(
                                        self@[j],
                                        self@[i as int],
                                        prefer,
                                        calls@,
                                    ) by {
                                    if spec_better_node(
                                        self@[j],
                                        self@[i as int],
                                        prefer,
                                        calls@,
                                    ) {
                                        if j == b {
                                            lemma_better_node_trans(
                                                self@[b as int],
                                                self@[i as int],
                                                self@[b as int],
                                                prefer,
                                                calls@,
                                            );
                                            lemma_better_node_irrefl(
                                                self@[b as int],
                                                prefer,
                                                calls@,
                                            );
                                        } else {
                                            lemma_better_node_trans(
                                                self@[j],
                                                self@[i as int],
                                                self@[b as int],
                                                prefer,
                                                calls@,
                                            );
                                        }
                                    }
                                }
                            }
                            best = Some(i);
                        }
                    },
                }
            }
            i += 1;
        }
        best
    }
}

} // verus!
