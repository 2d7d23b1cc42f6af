//! How messages are put together from their fragments.

use crate::packet::Fragment;
use crate::reassembly::{
    complete, gathers, has_index, is_last_with, reassembles, reconstructs, stands_for, stored_with,
    MessageStorage, ReconstructError,
};
use vstd::prelude::*;

verus! {

/// A fragment is added behind those of its session; other sessions stay as they are.
pub proof fn law_fragment_is_stored_behind(
    stored: Map<u64, Seq<Fragment>>,
    key: u64,
    fragment: Fragment,
    other: u64,
)
    ensures
        ({
            let after = stored_with(stored, key, fragment);
            let before = if stored.contains_key(key) {
                stored[key].len()
            } else {
                0
            };
            &&& after.contains_key(key)
            &&& after[key].len() == before + 1
            &&& after[key][before as int] == fragment
            &&& forall|i: int| 0 <= i < before ==> #[trigger] after[key][i] == stored[key][i]
            &&& other != key ==> after.contains_key(other) == stored.contains_key(other)
            &&& other != key && stored.contains_key(other) ==> after[other] == stored[other]
        }),
{
}

/// Where fragments are complete, each index that the first one announces is there; where they are
/// not, there are none, none is announced, or an announced index is missing.
pub proof fn law_complete_means_every_index(fragments: Seq<Fragment>, i: int)
    ensures
        complete(fragments) ==> {
            &&& fragments.len() > 0
            &&& fragments[0].total_n_fragments > 0
            &&& 0 <= i < fragments[0].total_n_fragments ==> exists|j: int|
                0 <= j < fragments.len() && (#[trigger] fragments[j]).fragment_index == i
        },
        !complete(fragments) ==> {
            ||| fragments.len() == 0
            ||| fragments[0].total_n_fragments == 0
            ||| exists|index: int|
                #![trigger has_index(fragments, index)]
                0 <= index < fragments[0].total_n_fragments && forall|j: int|
                    0 <= j < fragments.len() ==> (#[trigger] fragments[j]).fragment_index != index
        },
{
    assert(has_index(fragments, i) <==> exists|j: int|
        0 <= j < fragments.len() && (#[trigger] fragments[j]).fragment_index == i);
    if !complete(fragments) && fragments.len() > 0 && fragments[0].total_n_fragments > 0 {
        let index = choose|index: int|
            0 <= index < fragments[0].total_n_fragments && !(#[trigger] has_index(
                fragments,
                index,
            ));
        assert(!has_index(fragments, index));
    }
}

/// What is gathered holds, for each announced index, the fragment that arrived last with it.
pub proof fn law_gathered_parts(fragments: Seq<Fragment>, parts: Seq<Fragment>, i: int)
    requires
        gathers(fragments, parts),
    ensures
        parts.len() == fragments[0].total_n_fragments,
        0 <= i < parts.len() ==> parts[i].fragment_index == i && exists|j: int|
            0 <= j < fragments.len() && #[trigger] fragments[j] == parts[i] && forall|k: int|
                j < k < fragments.len() ==> (#[trigger] fragments[k]).fragment_index != i,
{
    if 0 <= i < parts.len() {
        assert(stands_for(fragments, i, parts[i]));
        let j = choose|j: int| #[trigger] is_last_with(fragments, i, j) && fragments[j] == parts[i];
        assert(fragments[j] == parts[i]);
    }
}

/// A session is reconstructed exactly if as many fragments are stored as the first one announces
/// and each index below that number is among them; then, and where an index is missing, it is
/// taken out, and every other failure leaves it in. Each failure is told as what it is.
pub proof fn law_reconstruction(
    stored: Map<u64, Seq<Fragment>>,
    key: u64,
    left: Map<u64, Seq<Fragment>>,
    res: Result<Seq<Fragment>, ReconstructError>,
    i: int,
)
    requires
        reconstructs(stored, key, left, res),
    ensures
        !stored.contains_key(key) ==> left == stored && res == Err::<Seq<Fragment>, _>(
            ReconstructError::UnknownKey(key),
        ),
        stored.contains_key(key) && stored[key].len() == 0 ==> left == stored && res == Err::<
            Seq<Fragment>,
            _,
        >(ReconstructError::NoFragments),
        stored.contains_key(key) && stored[key].len() > 0 && stored[key].len()
            != stored[key][0].total_n_fragments ==> left == stored && res == Err::<
            Seq<Fragment>,
            _,
        >(
            ReconstructError::CountMismatch {
                total: stored[key][0].total_n_fragments,
                held: stored[key].len() as u64,
            },
        ),
        stored.contains_key(key) && stored[key].len() > 0 && stored[key].len()
            == stored[key][0].total_n_fragments ==> left == stored.remove(key) && match res {
            Ok(parts) => {
                &&& parts.len() == stored[key].len()
                &&& 0 <= i < parts.len() ==> parts[i].fragment_index == i && exists|j: int|
                    0 <= j < stored[key].len() && #[trigger] stored[key][j] == parts[i] && forall|
                        k: int,
                    |
                        j < k < stored[key].len() ==> (#[trigger] stored[key][k]).fragment_index
                            != i
            },
            Err(ReconstructError::MissingFragment(index)) => {
                &&& index < stored[key].len()
                &&& forall|j: int|
                    0 <= j < stored[key].len() ==> (#[trigger] stored[key][j]).fragment_index
                        != index
                &&& 0 <= i < index ==> exists|j: int|
                    0 <= j < stored[key].len() && (#[trigger] stored[key][j]).fragment_index == i
            },
            Err(_) => false,
        },
{
    if stored.contains_key(key) && stored[key].len() > 0 && stored[key].len()
        == stored[key][0].total_n_fragments {
        let fragments = stored[key];
        assert(reassembles(fragments, res));
        match res {
            Ok(parts) => {
                if 0 <= i < parts.len() {
                    assert(stands_for(fragments, i, parts[i]));
                    let j = choose|j: int| #[trigger]
                        is_last_with(fragments, i, j) && fragments[j] == parts[i];
                    assert(fragments[j] == parts[i]);
                }
            },
            Err(ReconstructError::MissingFragment(index)) => {
                assert(!has_index(fragments, index as int));
                if 0 <= i < index {
                    assert(has_index(fragments, i));
                }
            },
            Err(_) => {},
        }
    }
}

/// A storage hands a session out once it is complete, and only then, and holds on to every other.
pub proof fn law_storage_hands_out_complete_sessions(
    storage: &mut MessageStorage,
    key: u64,
    res: Option<Vec<Fragment>>,
)
    requires
        call_ensures(MessageStorage::take_complete, (storage, key), res),
    ensures
        res is Some <==> old(storage)@.contains_key(key) && complete(old(storage)@[key]),
        res is Some ==> gathers(old(storage)@[key], res->0@) && final(storage)@ == old(
            storage,
        )@.remove(key),
        res is None ==> final(storage)@ == old(storage)@,
{
}

} // verus!
