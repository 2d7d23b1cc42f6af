//! What becomes of the messages that were sent.

use crate::packet::{HeaderView, NodeId, PacketView};
use crate::session::SessionsView;
use vstd::prelude::*;

verus! {

/// A confirmation takes away the loss reports on its fragment, from whichever node, and no others.
pub proof fn law_confirmation_forgets_its_losses(
    s: SessionsView,
    session: u64,
    fragment: u64,
    key: (u64, u64, NodeId),
)
    ensures
        s.acknowledged(session, fragment).nacks.contains_key(key) <==> s.nacks.contains_key(key)
            && !(key.0 == fragment && key.1 == session),
        s.acknowledged(session, fragment).nacks.contains_key(key) ==> s.acknowledged(
            session,
            fragment,
        ).nacks[key] == s.nacks[key],
{
}

/// A confirmation ends its session exactly if every fragment of it was confirmed before or is
/// confirmed now; then the session is forgotten, and otherwise its packets stay and what is
/// confirmed is remembered.
pub proof fn law_confirmation_ends_the_session(s: SessionsView, session: u64, fragment: u64)
    ensures
        ({
            let after = s.acknowledged(session, fragment);
            let known = |i: u64|
                i == fragment || (s.acked.contains_key(session) && s.acked[session].contains(i));
            if s.pending.contains_key(session) && s.pending[session].len() > 0 && (forall|i: u64|
                i < s.pending[session].len() ==> #[trigger] known(i)) {
                &&& !after.pending.contains_key(session)
                &&& !after.acked.contains_key(session)
            } else {
                &&& after.pending.contains_key(session) == s.pending.contains_key(session)
                &&& s.pending.contains_key(session) ==> after.pending[session]
                    == s.pending[session]
                &&& after.acked.contains_key(session)
                &&& forall|i: u64| #[trigger] after.acked[session].contains(i) <==> known(i)
            }
        }),
{
    let after = s.acknowledged(session, fragment);
    let known = |i: u64|
        i == fragment || (s.acked.contains_key(session) && s.acked[session].contains(i));
    let confirmed = s.acked_in(session).insert(fragment);
    assert forall|i: u64| #[trigger] confirmed.contains(i) <==> known(i) by {}
    if s.pending.contains_key(session) && s.pending[session].len() > 0 {
        if forall|i: u64| i < s.pending[session].len() ==> #[trigger] known(i) {
            assert forall|i: u64| i < s.pending[session].len() implies #[trigger] confirmed.contains(
                i,
            ) by {
                assert(known(i));
            }
        } else {
            let i = choose|i: u64| i < s.pending[session].len() && !(#[trigger] known(i));
            assert(!confirmed.contains(i));
        }
    }
}

/// A confirmation leaves every other session as it is.
pub proof fn law_confirmation_leaves_others(
    s: SessionsView,
    session: u64,
    fragment: u64,
    other: u64,
)
    requires
        other != session,
    ensures
        ({
            let after = s.acknowledged(session, fragment);
            &&& after.pending.contains_key(other) == s.pending.contains_key(other)
            &&& s.pending.contains_key(other) ==> after.pending[other] == s.pending[other]
            &&& after.acked.contains_key(other) == s.acked.contains_key(other)
            &&& s.acked.contains_key(other) ==> after.acked[other] == s.acked[other]
        }),
{
}

/// Counting a loss raises that one count by one, from zero where there was none, and forgetting it
/// takes that one count away; everything else stays.
pub proof fn law_losses_are_counted_one_by_one(
    s: SessionsView,
    key: (u64, u64, NodeId),
    other: (u64, u64, NodeId),
)
    requires
        !s.nacks.contains_key(key) || s.nacks[key] < u64::MAX,
    ensures
        s.with_loss(key).nacks.contains_key(key),
        s.with_loss(key).nacks[key] == (if s.nacks.contains_key(key) {
            s.nacks[key] + 1
        } else {
            1
        }),
        s.with_loss(key).pending == s.pending,
        s.with_loss(key).acked == s.acked,
        !s.without_loss(key).nacks.contains_key(key),
        s.without_loss(key).pending == s.pending,
        s.without_loss(key).acked == s.acked,
        other != key ==> {
            &&& s.with_loss(key).nacks.contains_key(other) == s.nacks.contains_key(other)
            &&& s.without_loss(key).nacks.contains_key(other) == s.nacks.contains_key(other)
            &&& s.nacks.contains_key(other) ==> s.with_loss(key).nacks[other] == s.nacks[other]
                && s.without_loss(key).nacks[other] == s.nacks[other]
        },
{
}

/// The packet of a fragment is the one at its index among the packets that wait, and the count of
/// a loss is the one that is held, or zero.
pub proof fn law_lookups(s: SessionsView, session: u64, fragment: u64, key: (u64, u64, NodeId))
    ensures
        s.pending.contains_key(session) && fragment < s.pending[session].len() ==> s.packet(
            session,
            fragment,
        ) == Some(s.pending[session][fragment as int]),
        !s.pending.contains_key(session) || fragment >= s.pending[session].len() ==> s.packet(
            session,
            fragment,
        ) is None,
        s.nacks.contains_key(key) ==> s.losses(key) == s.nacks[key],
        !s.nacks.contains_key(key) ==> s.losses(key) == 0,
{
}

/// Rerouting gives every packet of the session the new route from its start, changes nothing else
/// of them, and leaves everything else alone.
pub proof fn law_rerouting_changes_routes_only(
    s: SessionsView,
    session: u64,
    hops: Seq<NodeId>,
    other: u64,
    i: int,
)
    ensures
        ({
            let after = s.rerouted(session, hops);
            &&& after.acked == s.acked
            &&& after.nacks == s.nacks
            &&& after.pending.dom() == s.pending.dom()
            &&& other != session && s.pending.contains_key(other) ==> after.pending[other]
                == s.pending[other]
            &&& s.pending.contains_key(session) ==> after.pending[session].len()
                == s.pending[session].len()
            &&& s.pending.contains_key(session) && 0 <= i < s.pending[session].len()
                ==> after.pending[session][i] == (PacketView {
                pack_type: s.pending[session][i].pack_type,
                routing_header: HeaderView { hop_index: 1, hops },
                session_id: s.pending[session][i].session_id,
            })
        }),
{
    assert(s.rerouted(session, hops).pending.dom() =~= s.pending.dom());
}

/// A message that is sent waits with all its packets under its session; everything else stays.
pub proof fn law_sent_message_waits(
    s: SessionsView,
    session: u64,
    packets: Seq<PacketView>,
    other: u64,
)
    ensures
        ({
            let after = s.with_pending(session, packets);
            &&& after.pending.contains_key(session)
            &&& after.pending[session] == packets
            &&& after.acked == s.acked
            &&& after.nacks == s.nacks
            &&& other != session ==> after.pending.contains_key(other) == s.pending.contains_key(
                other,
            )
            &&& other != session && s.pending.contains_key(other) ==> after.pending[other]
                == s.pending[other]
        }),
{
}

/// Before anything is sent, nothing waits and nothing is counted.
pub proof fn law_idle_sessions(session: u64, key: (u64, u64, NodeId))
    ensures
        !SessionsView::idle().pending.contains_key(session),
        !SessionsView::idle().acked.contains_key(session),
        !SessionsView::idle().nacks.contains_key(key),
{
}

} // verus!
