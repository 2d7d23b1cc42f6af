//! Messages that were sent and are not yet confirmed in full.

use crate::packet::{copy_nodes, NodeId, Packet, PacketView, SourceRoutingHeader};
use std::collections::{HashMap, HashSet};
use vstd::prelude::*;

verus! {

broadcast use vstd::std_specs::hash::group_hash_axioms;

/// The outgoing messages: their packets, which of their fragments were confirmed, and how often
/// a node reported the loss of a fragment.
pub struct Sessions {
    pending: HashMap<u64, Vec<Packet>>,
    acked: HashMap<u64, HashSet<u64>>,
    /// Counts by session, then by fragment, then by node.
    nacks: HashMap<u64, HashMap<u64, HashMap<NodeId, u64>>>,
}

/// The model of [`Sessions`].
#[verifier::ext_equal]
pub struct SessionsView {
    /// The packets of the sessions that are not confirmed in full.
    pub pending: Map<u64, Seq<PacketView>>,
    /// The confirmed fragments by session.
    pub acked: Map<u64, Set<u64>>,
    /// Loss reports by fragment, session and reporting node.
    pub nacks: Map<(u64, u64, NodeId), u64>,
}

/// Every fragment of a message with `n` packets is confirmed. A message has at least one packet.
pub open spec fn all_confirmed(confirmed: Set<u64>, n: nat) -> bool {
    n > 0 && forall|i: u64| i < n ==> #[trigger] confirmed.contains(i)
}

impl SessionsView {
    /// Nothing was sent.
    pub open spec fn idle() -> SessionsView {
        SessionsView { pending: Map::empty(), acked: Map::empty(), nacks: Map::empty() }
    }

    /// The confirmed fragments of a session.
    pub open spec fn acked_in(self, session: u64) -> Set<u64> {
        if self.acked.contains_key(session) {
            self.acked[session]
        } else {
            Set::empty()
        }
    }

    /// How often a node reported the loss of a fragment.
    pub open spec fn losses(self, key: (u64, u64, NodeId)) -> nat {
        if self.nacks.contains_key(key) {
            self.nacks[key] as nat
        } else {
            0
        }
    }

    /// A message was sent.
    pub open spec fn with_pending(self, session: u64, packets: Seq<PacketView>) -> SessionsView {
        SessionsView { pending: self.pending.insert(session, packets), ..self }
    }

    /// The loss reports without those on one fragment of one session.
    pub open spec fn without_losses(self, session: u64, fragment: u64) -> Map<
        (u64, u64, NodeId),
        u64,
    > {
        self.nacks.remove_keys(
            Set::new(|key: (u64, u64, NodeId)| key.0 == fragment && key.1 == session),
        )
    }

    /// A fragment was confirmed: its loss reports are gone, and so is the session once all of its
    /// fragments are confirmed.
    pub open spec fn acknowledged(self, session: u64, fragment: u64) -> SessionsView {
        let confirmed = self.acked_in(session).insert(fragment);
        let nacks = self.without_losses(session, fragment);
        if self.pending.contains_key(session) && all_confirmed(
            confirmed,
            self.pending[session].len(),
        ) {
            SessionsView {
                pending: self.pending.remove(session),
                acked: self.acked.remove(session),
                nacks,
            }
        } else {
            SessionsView {
                pending: self.pending,
                acked: self.acked.insert(session, confirmed),
                nacks,
            }
        }
    }

    /// Several fragments were confirmed, one after the other.
    pub open spec fn acknowledged_all(self, session: u64, fragments: Seq<u64>) -> SessionsView
        decreases fragments.len(),
    {
        if fragments.len() == 0 {
            self
        } else {
            self.acknowledged_all(session, fragments.drop_last()).acknowledged(
                session,
                fragments.last(),
            )
        }
    }

    /// One more loss was reported.
    pub open spec fn with_loss(self, key: (u64, u64, NodeId)) -> SessionsView {
        SessionsView { nacks: self.nacks.insert(key, (self.losses(key) + 1) as u64), ..self }
    }

    /// The loss reports under one key are forgotten.
    pub open spec fn without_loss(self, key: (u64, u64, NodeId)) -> SessionsView {
        SessionsView { nacks: self.nacks.remove(key), ..self }
    }

    /// The packet of a fragment that is not confirmed in full.
    pub open spec fn packet(self, session: u64, fragment: u64) -> Option<PacketView> {
        if self.pending.contains_key(session) && fragment < self.pending[session].len() {
            Some(self.pending[session][fragment as int])
        } else {
            None
        }
    }

    /// Every packet of a session takes another route.
    pub open spec fn rerouted(self, session: u64, hops: Seq<NodeId>) -> SessionsView {
        if self.pending.contains_key(session) {
            self.with_pending(
                session,
                self.pending[session].map_values(|packet: PacketView| packet.rerouted(hops)),
            )
        } else {
            self
        }
    }
}

proof fn lemma_partly_confirmed(s: SessionsView, session: u64, fragments: Seq<u64>)
    requires
        s.pending.contains_key(session),
        !all_confirmed(
            s.acked_in(session).union(fragments.to_set()),
            s.pending[session].len(),
        ),
    ensures
        s.acknowledged_all(session, fragments).pending == s.pending,
        s.acknowledged_all(session, fragments).acked_in(session) == s.acked_in(session).union(
            fragments.to_set(),
        ),
    decreases fragments.len(),
{
    let before = s.acked_in(session);
    if fragments.len() == 0 {
        assert(before.union(fragments.to_set()) =~= before);
    } else {
        let fewer = fragments.drop_last();
        lemma_one_more(before, fragments);
        lemma_partly_confirmed(s, session, fewer);
    }
}

/// The last fragment of a list is added to those before it.
proof fn lemma_one_more(before: Set<u64>, fragments: Seq<u64>)
    requires
        fragments.len() > 0,
    ensures
        before.union(fragments.to_set()) == before.union(fragments.drop_last().to_set()).insert(
            fragments.last(),
        ),
{
    let fewer = fragments.drop_last();
    fewer.lemma_push_to_set_commute(fragments.last());
    assert(fewer.push(fragments.last()) =~= fragments);
    assert(before.union(fragments.to_set()) =~= before.union(fewer.to_set()).insert(
        fragments.last(),
    ));
}

/// Once every fragment of a message is confirmed, in any order, some of them more than once and
/// whatever else is confirmed in between, the session is over; as long as one is missing, all its
/// packets stay pending.
pub proof fn law_confirmed_in_any_order(s: SessionsView, session: u64, fragments: Seq<u64>)
    requires
        s.pending.contains_key(session),
        fragments.len() > 0,
        all_confirmed(
            s.acked_in(session).union(fragments.to_set()),
            s.pending[session].len(),
        ),
        !all_confirmed(
            s.acked_in(session).union(fragments.drop_last().to_set()),
            s.pending[session].len(),
        ),
    ensures
        s.acknowledged_all(session, fragments).pending == s.pending.remove(session),
        !s.acknowledged_all(session, fragments).acked.contains_key(session),
        forall|k: int|
            0 <= k < fragments.len() ==> s.acknowledged_all(
                session,
                #[trigger] fragments.take(k),
            ).pending == s.pending,
{
    let before = s.acked_in(session);
    let fewer = fragments.drop_last();
    let missing = choose|i: u64|
        i < s.pending[session].len() && !before.union(fewer.to_set()).contains(i);
    assert forall|k: int| 0 <= k < fragments.len() implies s.acknowledged_all(
        session,
        #[trigger] fragments.take(k),
    ).pending == s.pending by {
        let early = fragments.take(k);
        assert(!early.contains(missing)) by {
            if early.contains(missing) {
                let j = early.index_of(missing);
                assert(fewer[j] == missing);
            }
        }
        law_unconfirmed_fragment_keeps_session(s, session, early, missing);
    }
    lemma_partly_confirmed(s, session, fewer);
    lemma_one_more(before, fragments);
}

/// As long as a fragment of a message is not confirmed, all its packets stay pending, whatever
/// else is confirmed.
pub proof fn law_unconfirmed_fragment_keeps_session(
    s: SessionsView,
    session: u64,
    fragments: Seq<u64>,
    missing: u64,
)
    requires
        s.pending.contains_key(session),
        missing < s.pending[session].len(),
        !s.acked_in(session).contains(missing),
        !fragments.contains(missing),
    ensures
        s.acknowledged_all(session, fragments).pending == s.pending,
{
    assert(!s.acked_in(session).union(fragments.to_set()).contains(missing));
    lemma_partly_confirmed(s, session, fragments);
}

/// A fragment that is confirmed again, while its session is not over, changes nothing.
pub proof fn law_confirming_again_changes_nothing(s: SessionsView, session: u64, fragment: u64)
    requires
        s.acknowledged(session, fragment).acked.contains_key(session),
    ensures
        s.acknowledged(session, fragment).acknowledged(session, fragment) == s.acknowledged(
            session,
            fragment,
        ),
{
    let once = s.acknowledged(session, fragment);
    let confirmed = s.acked_in(session).insert(fragment);
    assert(confirmed.insert(fragment) =~= confirmed);
    assert(once.acknowledged(session, fragment) =~= once);
}

/// Confirming a fragment of one session leaves every other session as it is.
pub proof fn law_sessions_are_independent(
    s: SessionsView,
    session: u64,
    fragment: u64,
    other: u64,
    index: u64,
    node: NodeId,
)
    requires
        other != session,
    ensures
        s.acknowledged(session, fragment).packet(other, index) == s.packet(other, index),
        s.acknowledged(session, fragment).acked_in(other) == s.acked_in(other),
        s.acknowledged(session, fragment).losses((index, other, node)) == s.losses(
            (index, other, node),
        ),
{
}

/// A confirmed fragment has no loss reports any more.
pub proof fn law_confirmation_clears_losses(
    s: SessionsView,
    session: u64,
    fragment: u64,
    node: NodeId,
)
    ensures
        s.acknowledged(session, fragment).losses((fragment, session, node)) == 0,
{
}

/// Whether every fragment of a message with `n` packets is confirmed.
fn confirms_all(confirmed: &HashSet<u64>, n: u64) -> (res: bool)
    ensures
        res == all_confirmed(confirmed@, n as nat),
{
    let mut i: u64 = 0;
    while i < n
        invariant
            i <= n,
            forall|j: u64| j < i ==> #[trigger] confirmed@.contains(j),
        decreases n - i,
    {
        if !confirmed.contains(&i) {
            return false;
        }
        i = i + 1;
    }
    n > 0
}

/// The model of a packet that may not be there.
pub open spec fn packet_view(packet: Option<Packet>) -> Option<PacketView> {
    match packet {
        Some(packet) => Some(packet@),
        None => None,
    }
}

impl View for Sessions {
    type V = SessionsView;

    closed spec fn view(&self) -> SessionsView {
        SessionsView {
            pending: self.pending@.map_values(
                |packets: Vec<Packet>| crate::packet::packet_views(packets@),
            ),
            acked: self.acked@.map_values(|fragments: HashSet<u64>| fragments@),
            nacks: Map::new(
                |key: (u64, u64, NodeId)|
                    self.nacks@.contains_key(key.1) && self.nacks@[key.1]@.contains_key(key.0)
                        && self.nacks@[key.1]@[key.0]@.contains_key(key.2),
                |key: (u64, u64, NodeId)| self.nacks@[key.1]@[key.0]@[key.2],
            ),
        }
    }
}

impl Clone for Sessions {
    fn clone(&self) -> (res: Self)
        ensures
            res@ == self@,
    {
        Sessions {
            pending: self.pending.clone(),
            acked: self.acked.clone(),
            nacks: self.nacks.clone(),
        }
    }
}

impl Sessions {
    pub fn new() -> (res: Sessions)
        ensures
            res@ == SessionsView::idle(),
    {
        let res = Sessions {
            pending: HashMap::new(),
            acked: HashMap::new(),
            nacks: HashMap::new(),
        };
        assert(res@ =~= SessionsView::idle());
        res
    }

    /// Remembers the packets of a message.
    pub fn add_pending(&mut self, session: u64, packets: Vec<Packet>)
        ensures
            final(self)@ == old(self)@.with_pending(
                session,
                crate::packet::packet_views(packets@),
            ),
    {
        self.pending.insert(session, packets);
        assert(self@ =~= old(self)@.with_pending(session, crate::packet::packet_views(packets@)));
    }

    fn forget_losses(&mut self, session: u64, fragment: u64)
        ensures
            final(self)@ == (SessionsView {
                nacks: old(self)@.without_losses(session, fragment),
                ..old(self)@
            }),
    {
        match self.nacks.remove(&session) {
            Some(by_fragment) => {
                let mut by_fragment = by_fragment;
                by_fragment.remove(&fragment);
                self.nacks.insert(session, by_fragment);
            },
            None => {},
        }
        assert(self@.nacks =~= old(self)@.without_losses(session, fragment));
    }

    /// Records that a fragment arrived.
    pub fn acknowledge(&mut self, session: u64, fragment: u64)
        ensures
            final(self)@ == old(self)@.acknowledged(session, fragment),
    {
        self.forget_losses(session, fragment);
        let mut confirmed: HashSet<u64> = match self.acked.remove(&session) {
            Some(confirmed) => confirmed,
            None => HashSet::new(),
        };
        confirmed.insert(fragment);
        let done = match self.pending.get(&session) {
            Some(packets) => confirms_all(&confirmed, packets.len() as u64),
            None => false,
        };
        if done {
            self.pending.remove(&session);
        } else {
            self.acked.insert(session, confirmed);
        }
        assert(self@ =~= old(self)@.acknowledged(session, fragment));
    }

    /// How often a node reported the loss of a fragment.
    pub fn losses(&self, fragment: u64, session: u64, node: NodeId) -> (res: u64)
        ensures
            res == self@.losses((fragment, session, node)),
    {
        match self.nacks.get(&session) {
            Some(by_fragment) => match by_fragment.get(&fragment) {
                Some(by_node) => match by_node.get(&node) {
                    Some(count) => *count,
                    None => 0,
                },
                None => 0,
            },
            None => 0,
        }
    }

    /// Counts one more report of the loss of a fragment.
    pub fn count_loss(&mut self, fragment: u64, session: u64, node: NodeId) -> (res: u64)
        requires
            old(self)@.losses((fragment, session, node)) < u64::MAX,
        ensures
            res == old(self)@.losses((fragment, session, node)) + 1,
            final(self)@ == old(self)@.with_loss((fragment, session, node)),
    {
        let count: u64 = self.losses(fragment, session, node) + 1;
        let mut by_fragment: HashMap<u64, HashMap<NodeId, u64>> = match self.nacks.remove(&session) {
            Some(by_fragment) => by_fragment,
            None => HashMap::new(),
        };
        let mut by_node: HashMap<NodeId, u64> = match by_fragment.remove(&fragment) {
            Some(by_node) => by_node,
            None => HashMap::new(),
        };
        by_node.insert(node, count);
        by_fragment.insert(fragment, by_node);
        self.nacks.insert(session, by_fragment);
        assert(self@.nacks =~= old(self)@.with_loss((fragment, session, node)).nacks);
        count
    }

    /// Forgets the reports of a node on the loss of a fragment.
    pub fn forget_loss(&mut self, fragment: u64, session: u64, node: NodeId)
        ensures
            final(self)@ == old(self)@.without_loss((fragment, session, node)),
    {
        match self.nacks.remove(&session) {
            Some(by_fragment) => {
                let mut by_fragment = by_fragment;
                match by_fragment.remove(&fragment) {
                    Some(by_node) => {
                        let mut by_node = by_node;
                        by_node.remove(&node);
                        by_fragment.insert(fragment, by_node);
                    },
                    None => {},
                }
                self.nacks.insert(session, by_fragment);
            },
            None => {},
        }
        assert(self@.nacks =~= old(self)@.without_loss((fragment, session, node)).nacks);
    }

    /// The packet of a fragment that is not confirmed in full.
    pub fn packet(&self, session: u64, fragment: u64) -> (res: Option<Packet>)
        ensures
            packet_view(res) == self@.packet(session, fragment),
    {
        match self.pending.get(&session) {
            Some(packets) => {
                if fragment < packets.len() as u64 {
                    Some(packets[fragment as usize].clone())
                } else {
                    None
                }
            },
            None => None,
        }
    }

    /// Sends every packet of a session along another route.
    pub fn reroute(&mut self, session: u64, hops: &Vec<NodeId>)
        ensures
            final(self)@ == old(self)@.rerouted(session, hops@),
    {
        match self.pending.remove(&session) {
            Some(packets) => {
                let mut moved: Vec<Packet> = Vec::new();
                let mut i: usize = 0;
                while i < packets.len()
                    invariant
                        i <= packets@.len(),
                        moved@.len() == i,
                        forall|j: int|
                            0 <= j < i ==> #[trigger] moved@[j]@ == packets@[j]@.rerouted(hops@),
                    decreases packets.len() - i,
                {
                    moved.push(
                        Packet {
                            pack_type: packets[i].pack_type.clone(),
                            routing_header: SourceRoutingHeader {
                                hop_index: 1,
                                hops: copy_nodes(hops),
                            },
                            session_id: packets[i].session_id,
                        },
                    );
                    i = i + 1;
                }
                proof {
                    assert(crate::packet::packet_views(moved@) =~= crate::packet::packet_views(
                        packets@,
                    ).map_values(|packet: PacketView| packet.rerouted(hops@)));
                }
                self.pending.insert(session, moved);
            },
            None => {},
        }
        assert(self@ =~= old(self)@.rerouted(session, hops@));
    }
}

} // verus!
