//! Messages that arrive in fragments.

use crate::packet::Fragment;
use crate::text::{decimal, numbered};
use std::collections::HashMap;
use vstd::prelude::*;
use vstd::string::StringExecFns;

verus! {

broadcast use vstd::std_specs::hash::group_hash_axioms;

/// Why the fragments of a session do not make up a message.
#[derive(Clone, Copy, Debug, PartialEq, Eq, Structural)]
pub enum ReconstructError {
    /// Nothing is stored for this session.
    UnknownKey(u64),
    /// The list of fragments is empty.
    NoFragments,
    /// The first fragment announces `total` fragments, and `held` are stored.
    CountMismatch { total: u64, held: u64 },
    /// No fragment has this index.
    MissingFragment(u64),
}

impl ReconstructError {
    /// The error in the words of a content server.
    pub open spec fn content_words(self) -> Seq<char> {
        match self {
            ReconstructError::UnknownKey(key) => "No fragment found using key: "@ + decimal(
                key as nat,
            ),
            ReconstructError::NoFragments => "No fragment found"@,
            ReconstructError::CountMismatch { total, held } => "Total number of fragments ("@
                + decimal(total as nat) + ") does not correspond with the Vec length ("@ + decimal(
                held as nat,
            ) + ")"@,
            ReconstructError::MissingFragment(index) => "Missing fragment of index: "@ + decimal(
                index as nat,
            ),
        }
    }

    /// The error in the words of a communication server.
    pub open spec fn communication_words(self) -> Seq<char> {
        match self {
            ReconstructError::UnknownKey(key) => "No fragments found for the key: "@ + decimal(
                key as nat,
            ),
            ReconstructError::NoFragments => "No fragments found in the list"@,
            ReconstructError::CountMismatch { total, held } => "Total number of fragments ("@
                + decimal(total as nat) + ") does not match the vector length ("@ + decimal(
                held as nat,
            ) + ")"@,
            ReconstructError::MissingFragment(index) => "Missing fragment with index: "@ + decimal(
                index as nat,
            ),
        }
    }

    /// Tells the error in the words of a content server.
    pub fn content_text(&self) -> (res: String)
        ensures
            res@ == self.content_words(),
    {
        let res = match self {
            ReconstructError::UnknownKey(key) => numbered("No fragment found using key: ", *key, ""),
            ReconstructError::NoFragments => String::from_str("No fragment found"),
            ReconstructError::CountMismatch { total, held } => {
                let mut text = numbered(
                    "Total number of fragments (",
                    *total,
                    ") does not correspond with the Vec length (",
                );
                text.append(numbered("", *held, ")").as_str());
                text
            },
            ReconstructError::MissingFragment(index) => numbered(
                "Missing fragment of index: ",
                *index,
                "",
            ),
        };
        proof {
            reveal_strlit("");
            assert(res@ =~= self.content_words());
        }
        res
    }

    /// Tells the error in the words of a communication server.
    pub fn communication_text(&self) -> (res: String)
        ensures
            res@ == self.communication_words(),
    {
        let res = match self {
            ReconstructError::UnknownKey(key) => numbered(
                "No fragments found for the key: ",
                *key,
                "",
            ),
            ReconstructError::NoFragments => String::from_str("No fragments found in the list"),
            ReconstructError::CountMismatch { total, held } => {
                let mut text = numbered(
                    "Total number of fragments (",
                    *total,
                    ") does not match the vector length (",
                );
                text.append(numbered("", *held, ")").as_str());
                text
            },
            ReconstructError::MissingFragment(index) => numbered(
                "Missing fragment with index: ",
                *index,
                "",
            ),
        };
        proof {
            reveal_strlit("");
            assert(res@ =~= self.communication_words());
        }
        res
    }
}

/// There are as many fragments as the first of them announces, repeats among them or not.
pub open spec fn counted(fragments: Seq<Fragment>) -> bool {
    fragments.len() > 0 && fragments.len() == fragments[0].total_n_fragments
}

/// Some fragment has this index.
pub open spec fn has_index(fragments: Seq<Fragment>, index: int) -> bool {
    exists|j: int| 0 <= j < fragments.len() && (#[trigger] fragments[j]).fragment_index == index
}

/// Every fragment that the first one announces has arrived. A message has at least one fragment.
pub open spec fn complete(fragments: Seq<Fragment>) -> bool {
    &&& fragments.len() > 0
    &&& fragments[0].total_n_fragments > 0
    &&& forall|i: int|
        0 <= i < fragments[0].total_n_fragments ==> #[trigger] has_index(fragments, i)
}

/// The fragment at `j` is the last one that has this index.
pub open spec fn is_last_with(fragments: Seq<Fragment>, index: int, j: int) -> bool {
    &&& 0 <= j < fragments.len()
    &&& fragments[j].fragment_index == index
    &&& forall|k: int| j < k < fragments.len() ==> (#[trigger] fragments[k]).fragment_index != index
}

/// The fragment that counts for an index is the last one that arrived with it.
pub open spec fn stands_for(fragments: Seq<Fragment>, index: int, part: Fragment) -> bool {
    exists|j: int| #[trigger] is_last_with(fragments, index, j) && fragments[j] == part
}

/// The parts are the fragments that count for the announced indices, in their order.
pub open spec fn gathers(fragments: Seq<Fragment>, parts: Seq<Fragment>) -> bool {
    &&& parts.len() == fragments[0].total_n_fragments
    &&& forall|i: int| 0 <= i < parts.len() ==> stands_for(fragments, i, #[trigger] parts[i])
}

/// What as many fragments as announced amount to: the fragments of the indices from zero on,
/// in their order, or the lowest index that is missing.
pub open spec fn reassembles(
    fragments: Seq<Fragment>,
    res: Result<Seq<Fragment>, ReconstructError>,
) -> bool {
    match res {
        Ok(parts) => {
            &&& parts.len() == fragments.len()
            &&& forall|i: int|
                0 <= i < parts.len() ==> stands_for(fragments, i, #[trigger] parts[i])
        },
        Err(ReconstructError::MissingFragment(index)) => {
            &&& index < fragments.len()
            &&& !has_index(fragments, index as int)
            &&& forall|k: int| 0 <= k < index ==> has_index(fragments, k)
        },
        Err(_) => false,
    }
}

/// What reconstructing the message of a session gives, and what it leaves in the storage.
pub open spec fn reconstructs(
    stored: Map<u64, Seq<Fragment>>,
    key: u64,
    left: Map<u64, Seq<Fragment>>,
    res: Result<Seq<Fragment>, ReconstructError>,
) -> bool {
    if !stored.contains_key(key) {
        left == stored && res == Err::<Seq<Fragment>, _>(ReconstructError::UnknownKey(key))
    } else if stored[key].len() == 0 {
        left == stored && res == Err::<Seq<Fragment>, _>(ReconstructError::NoFragments)
    } else if !counted(stored[key]) {
        left == stored && res == Err::<Seq<Fragment>, _>(
            ReconstructError::CountMismatch {
                total: stored[key][0].total_n_fragments,
                held: stored[key].len() as u64,
            },
        )
    } else {
        left == stored.remove(key) && reassembles(stored[key], res)
    }
}

/// The model of a reconstruction's result.
pub open spec fn parts_view(res: Result<Vec<Fragment>, ReconstructError>) -> Result<
    Seq<Fragment>,
    ReconstructError,
> {
    match res {
        Ok(parts) => Ok(parts@),
        Err(error) => Err(error),
    }
}

/// The parts are those of one message, in their order.
pub open spec fn is_message(parts: Seq<Fragment>) -> bool {
    &&& parts.len() > 0
    &&& forall|i: int|
        0 <= i < parts.len() ==> (#[trigger] parts[i]).fragment_index == i
            && parts[i].total_n_fragments == parts.len()
}

/// Every part is among the arrivals.
pub open spec fn all_there(parts: Seq<Fragment>, arrivals: Seq<Fragment>) -> bool {
    forall|i: int| 0 <= i < parts.len() ==> arrivals.contains(#[trigger] parts[i])
}

/// The fragments of a message may arrive in any order and more than once: they are complete
/// exactly when every one of them is there, and then they make up the message again.
pub proof fn law_any_arrival_order(
    parts: Seq<Fragment>,
    arrivals: Seq<Fragment>,
    found: Seq<Fragment>,
)
    requires
        is_message(parts),
        forall|j: int| 0 <= j < arrivals.len() ==> parts.contains(#[trigger] arrivals[j]),
    ensures
        complete(arrivals) <==> all_there(parts, arrivals),
        complete(arrivals) && gathers(arrivals, found) ==> found == parts,
{
    assert forall|j: int| 0 <= j < arrivals.len() implies {
        &&& (#[trigger] arrivals[j]).fragment_index < parts.len()
        &&& arrivals[j].total_n_fragments == parts.len()
        &&& arrivals[j] == parts[arrivals[j].fragment_index as int]
    } by {
        let m = parts.index_of(arrivals[j]);
        assert(parts[m].fragment_index == m);
    }
    if all_there(parts, arrivals) {
        assert(arrivals.contains(parts[0]));
        assert forall|i: int|
            0 <= i < arrivals[0].total_n_fragments implies #[trigger] has_index(arrivals, i) by {
            assert(arrivals.contains(parts[i]));
            let j = arrivals.index_of(parts[i]);
            assert(arrivals[j].fragment_index == i);
        }
    }
    if complete(arrivals) {
        assert forall|i: int| 0 <= i < parts.len() implies arrivals.contains(#[trigger] parts[i]) by {
            assert(has_index(arrivals, i));
            let j = choose|j: int|
                0 <= j < arrivals.len() && (#[trigger] arrivals[j]).fragment_index == i;
            assert(arrivals[j] == parts[i]);
        }
    }
    if complete(arrivals) && gathers(arrivals, found) {
        assert forall|i: int| 0 <= i < found.len() implies found[i] == parts[i] by {
            assert(stands_for(arrivals, i, found[i]));
            let j = choose|j: int| #[trigger] is_last_with(arrivals, i, j) && arrivals[j] == found[i];
            assert(arrivals[j] == parts[i]);
        }
        assert(found =~= parts);
    }
}

/// The fragments of a message, arriving each once and in any order, are reconstructed as the
/// message.
pub proof fn law_reconstructed_in_any_order(
    parts: Seq<Fragment>,
    arrivals: Seq<Fragment>,
    res: Result<Seq<Fragment>, ReconstructError>,
)
    requires
        is_message(parts),
        arrivals.to_multiset() == parts.to_multiset(),
        reassembles(arrivals, res),
    ensures
        counted(arrivals),
        res == Ok::<Seq<Fragment>, ReconstructError>(parts),
{
    broadcast use vstd::seq_lib::group_to_multiset_ensures;

    assert(arrivals.len() == arrivals.to_multiset().len());
    assert(parts.len() == parts.to_multiset().len());
    assert forall|j: int| 0 <= j < arrivals.len() implies parts.contains(#[trigger] arrivals[j]) by {
        assert(arrivals.contains(arrivals[j]));
        assert(arrivals.to_multiset().count(arrivals[j]) > 0);
    }
    assert forall|i: int| 0 <= i < parts.len() implies arrivals.contains(#[trigger] parts[i]) by {
        assert(parts.contains(parts[i]));
        assert(parts.to_multiset().count(parts[i]) > 0);
    }
    assert(parts.contains(arrivals[0]));
    let found = match res {
        Ok(found) => found,
        Err(_) => Seq::empty(),
    };
    law_any_arrival_order(parts, arrivals, found);
    assert(arrivals[0].total_n_fragments == parts.len());
    assert forall|i: int| 0 <= i < parts.len() implies has_index(arrivals, i) by {}
    assert(res is Ok);
    assert(gathers(arrivals, found));
}

/// The fragments of the messages that have not arrived in full, by session.
pub struct MessageStorage {
    stored: HashMap<u64, Vec<Fragment>>,
}

/// The fragments of a session after one more has arrived.
pub open spec fn stored_with(
    stored: Map<u64, Seq<Fragment>>,
    key: u64,
    fragment: Fragment,
) -> Map<u64, Seq<Fragment>> {
    let held = if stored.contains_key(key) {
        stored[key]
    } else {
        Seq::empty()
    };
    stored.insert(key, held.push(fragment))
}

impl View for MessageStorage {
    type V = Map<u64, Seq<Fragment>>;

    closed spec fn view(&self) -> Map<u64, Seq<Fragment>> {
        self.stored@.map_values(|fragments: Vec<Fragment>| fragments@)
    }
}

impl Clone for MessageStorage {
    fn clone(&self) -> (res: Self)
        ensures
            res@ == self@,
    {
        MessageStorage { stored: self.stored.clone() }
    }
}

/// Picks the fragments of the indices below `total`, in their order, or the lowest index that is
/// missing.
fn pick(fragments: &Vec<Fragment>, total: u64) -> (res: Result<Vec<Fragment>, u64>)
    ensures
        match res {
            Ok(parts) => {
                &&& parts@.len() == total
                &&& forall|i: int|
                    0 <= i < total ==> stands_for(fragments@, i, #[trigger] parts@[i])
                &&& forall|i: int| 0 <= i < total ==> #[trigger] has_index(fragments@, i)
            },
            Err(index) => {
                &&& index < total
                &&& !has_index(fragments@, index as int)
                &&& forall|k: int| 0 <= k < index ==> #[trigger] has_index(fragments@, k)
            },
        },
{
    let mut positions: HashMap<u64, usize> = HashMap::new();
    let mut i: usize = 0;
    while i < fragments.len()
        invariant
            i <= fragments@.len(),
            forall|index: u64| #[trigger]
                positions@.contains_key(index) ==> is_last_with(
                    fragments@.take(i as int),
                    index as int,
                    positions@[index] as int,
                ),
            forall|j: int|
                0 <= j < i ==> positions@.contains_key((#[trigger] fragments@[j]).fragment_index),
        decreases fragments.len() - i,
    {
        let ghost before = positions@;
        positions.insert(fragments[i].fragment_index, i);
        proof {
            assert forall|index: u64| #[trigger] positions@.contains_key(index) implies is_last_with(
                fragments@.take(i + 1),
                index as int,
                positions@[index] as int,
            ) by {
                let shorter = fragments@.take(i as int);
                let longer = fragments@.take(i + 1);
                if index != fragments@[i as int].fragment_index {
                    assert(before.contains_key(index));
                    assert(is_last_with(shorter, index as int, before[index] as int));
                    assert forall|k: int| before[index] < k < longer.len() implies (
                    #[trigger] longer[k]).fragment_index != index by {
                        if k < i {
                            assert(shorter[k] == longer[k]);
                        }
                    }
                }
            }
        }
        i = i + 1;
    }
    assert(fragments@.take(fragments@.len() as int) =~= fragments@);
    let mut parts: Vec<Fragment> = Vec::new();
    let mut index: u64 = 0;
    while index < total
        invariant
            index <= total,
            parts@.len() == index,
            forall|i: int| 0 <= i < index ==> stands_for(fragments@, i, #[trigger] parts@[i]),
            forall|i: int| 0 <= i < index ==> #[trigger] has_index(fragments@, i),
            forall|n: u64| #[trigger]
                positions@.contains_key(n) ==> is_last_with(
                    fragments@,
                    n as int,
                    positions@[n] as int,
                ),
            forall|j: int|
                0 <= j < fragments@.len() ==> positions@.contains_key(
                    (#[trigger] fragments@[j]).fragment_index,
                ),
        decreases total - index,
    {
        match positions.get(&index) {
            Some(position) => {
                parts.push(fragments[*position]);
                assert(is_last_with(fragments@, index as int, *position as int));
                assert(fragments@[*position as int].fragment_index == index);
            },
            None => {
                return Err(index);
            },
        }
        index = index + 1;
    }
    Ok(parts)
}

/// Puts as many fragments as announced into the order of their indices.
pub fn reassemble(fragments: &Vec<Fragment>) -> (res: Result<Vec<Fragment>, ReconstructError>)
    ensures
        reassembles(fragments@, parts_view(res)),
{
    match pick(fragments, fragments.len() as u64) {
        Ok(parts) => Ok(parts),
        Err(index) => Err(ReconstructError::MissingFragment(index)),
    }
}

/// Puts the announced fragments into the order of their indices, if all of them have arrived.
pub fn gather(fragments: &Vec<Fragment>) -> (res: Option<Vec<Fragment>>)
    ensures
        res is Some <==> complete(fragments@),
        res is Some ==> gathers(fragments@, res->0@),
{
    if fragments.len() == 0 || fragments[0].total_n_fragments == 0 {
        return None;
    }
    match pick(fragments, fragments[0].total_n_fragments) {
        Ok(parts) => Some(parts),
        Err(_) => None,
    }
}

impl MessageStorage {
    pub fn new() -> (res: MessageStorage)
        ensures
            res@ == Map::<u64, Seq<Fragment>>::empty(),
    {
        let res = MessageStorage { stored: HashMap::new() };
        assert(res@ =~= Map::empty());
        res
    }

    /// Adds a fragment to those of its session.
    pub fn store(&mut self, key: u64, fragment: Fragment)
        ensures
            final(self)@ == stored_with(old(self)@, key, fragment),
    {
        let mut held: Vec<Fragment> = match self.stored.remove(&key) {
            Some(held) => held,
            None => Vec::new(),
        };
        held.push(fragment);
        self.stored.insert(key, held);
        assert(self@ =~= stored_with(old(self)@, key, fragment));
    }

    /// Takes the fragments of a session out, in order, once all of them have arrived.
    pub fn take_complete(&mut self, key: u64) -> (res: Option<Vec<Fragment>>)
        ensures
            res is Some <==> old(self)@.contains_key(key) && complete(old(self)@[key]),
            match res {
                Some(parts) => {
                    &&& gathers(old(self)@[key], parts@)
                    &&& final(self)@ == old(self)@.remove(key)
                },
                None => final(self)@ == old(self)@,
            },
    {
        let parts: Vec<Fragment> = match self.stored.get(&key) {
            Some(fragments) => match gather(fragments) {
                Some(parts) => parts,
                None => {
                    return None;
                },
            },
            None => {
                return None;
            },
        };
        self.stored.remove(&key);
        assert(self@ =~= old(self)@.remove(key));
        Some(parts)
    }

    /// Takes the fragments of a session out and puts them in order, once as many are stored as
    /// the first of them announces.
    pub fn reconstruct(&mut self, key: u64) -> (res: Result<Vec<Fragment>, ReconstructError>)
        ensures
            reconstructs(old(self)@, key, final(self)@, parts_view(res)),
    {
        let (total, held): (u64, u64) = match self.stored.get(&key) {
            Some(fragments) => {
                if fragments.len() == 0 {
                    return Err(ReconstructError::NoFragments);
                }
                (fragments[0].total_n_fragments, fragments.len() as u64)
            },
            None => {
                return Err(ReconstructError::UnknownKey(key));
            },
        };
        if held != total {
            return Err(ReconstructError::CountMismatch { total, held });
        }
        match self.stored.remove(&key) {
            Some(fragments) => {
                assert(self@ =~= old(self)@.remove(key));
                reassemble(&fragments)
            },
            None => Err(ReconstructError::UnknownKey(key)),
        }
    }
}

} // verus!
