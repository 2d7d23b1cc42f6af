use servers::reassembly::{gather, reassemble, MessageStorage};
use servers::{Fragment, ReconstructError};

fn part(index: u64, total: u64, byte: u8) -> Fragment {
    Fragment { fragment_index: index, total_n_fragments: total, length: 1, data: [byte; 128] }
}

#[test]
fn fragments_arrive_in_any_order() {
    let parts = vec![part(0, 3, 10), part(1, 3, 11), part(2, 3, 12)];
    for order in [[0, 1, 2], [0, 2, 1], [1, 0, 2], [1, 2, 0], [2, 0, 1], [2, 1, 0]] {
        let mut storage = MessageStorage::new();
        for (count, i) in order.iter().enumerate() {
            assert_eq!(storage.take_complete(7), None);
            storage.store(7, parts[*i]);
            assert_eq!(storage.clone().take_complete(7).is_some(), count == 2);
        }
        assert_eq!(storage.clone().take_complete(7), Some(parts.clone()));
        assert_eq!(storage.reconstruct(7), Ok(parts.clone()));
        assert_eq!(storage.reconstruct(7), Err(ReconstructError::UnknownKey(7)));
    }
}

#[test]
fn sessions_are_kept_apart() {
    let mut storage = MessageStorage::new();
    storage.store(1, part(0, 2, 1));
    storage.store(2, part(0, 1, 2));
    assert_eq!(storage.take_complete(1), None);
    assert_eq!(storage.clone().take_complete(2), Some(vec![part(0, 1, 2)]));
    assert_eq!(storage.reconstruct(2), Ok(vec![part(0, 1, 2)]));
    assert_eq!(
        storage.reconstruct(1),
        Err(ReconstructError::CountMismatch { total: 2, held: 1 })
    );
    storage.store(1, part(1, 2, 3));
    assert_eq!(storage.reconstruct(1), Ok(vec![part(0, 2, 1), part(1, 2, 3)]));
}

#[test]
fn missing_fragment_is_named_and_the_session_is_gone() {
    let mut storage = MessageStorage::new();
    storage.store(4, part(0, 3, 1));
    storage.store(4, part(2, 3, 2));
    storage.store(4, part(2, 3, 3));
    assert_eq!(storage.reconstruct(4), Err(ReconstructError::MissingFragment(1)));
    assert_eq!(storage.reconstruct(4), Err(ReconstructError::UnknownKey(4)));
}

#[test]
fn the_last_fragment_of_an_index_counts() {
    assert_eq!(
        reassemble(&vec![part(0, 2, 1), part(0, 2, 2)]),
        Err(ReconstructError::MissingFragment(1))
    );
    let parts = reassemble(&vec![part(1, 9, 1), part(0, 9, 2), part(1, 9, 3)]);
    assert_eq!(parts, Err(ReconstructError::MissingFragment(2)));
    let parts = reassemble(&vec![part(1, 9, 1), part(0, 9, 2), part(1, 9, 3), part(2, 9, 4), part(3, 9, 5)]);
    assert_eq!(parts, Err(ReconstructError::MissingFragment(4)));
    assert_eq!(reassemble(&vec![]), Ok(vec![]));
    let fixed = reassemble(&vec![part(5, 1, 1), part(0, 1, 7)]);
    assert_eq!(fixed, Err(ReconstructError::MissingFragment(1)));
}

#[test]
fn errors_are_told_in_words() {
    let unknown = ReconstructError::UnknownKey(12);
    assert_eq!(unknown.content_text(), "No fragment found using key: 12");
    assert_eq!(unknown.communication_text(), "No fragments found for the key: 12");
    let none = ReconstructError::NoFragments;
    assert_eq!(none.content_text(), "No fragment found");
    assert_eq!(none.communication_text(), "No fragments found in the list");
    let count = ReconstructError::CountMismatch { total: 30, held: 4 };
    assert_eq!(
        count.content_text(),
        "Total number of fragments (30) does not correspond with the Vec length (4)"
    );
    assert_eq!(
        count.communication_text(),
        "Total number of fragments (30) does not match the vector length (4)"
    );
    let missing = ReconstructError::MissingFragment(u64::MAX);
    assert_eq!(missing.content_text(), "Missing fragment of index: 18446744073709551615");
    assert_eq!(missing.communication_text(), "Missing fragment with index: 18446744073709551615");
}

#[test]
fn repeated_fragments_do_not_make_a_message() {
    let mut storage = MessageStorage::new();
    storage.store(7, part(0, 2, 1));
    storage.store(7, part(0, 2, 1));
    assert_eq!(storage.take_complete(7), None);
    storage.store(7, part(0, 2, 3));
    assert_eq!(storage.take_complete(7), None);
    storage.store(7, part(1, 2, 4));
    assert_eq!(storage.take_complete(7), Some(vec![part(0, 2, 3), part(1, 2, 4)]));
    assert_eq!(storage.take_complete(7), None);
    assert_eq!(storage.reconstruct(7), Err(ReconstructError::UnknownKey(7)));
}

#[test]
fn only_announced_fragments_are_gathered() {
    assert_eq!(gather(&vec![]), None);
    assert_eq!(gather(&vec![part(0, 0, 1)]), None);
    assert_eq!(gather(&vec![part(9, 2, 1), part(0, 2, 2)]), None);
    assert_eq!(
        gather(&vec![part(9, 2, 1), part(1, 2, 3), part(0, 2, 2)]),
        Some(vec![part(0, 2, 2), part(1, 2, 3)])
    );
    assert_eq!(gather(&vec![part(0, u64::MAX, 1)]), None);
}
