use coral::thread_index::{evidence_thread_url, thread_index_insert, thread_index_remove, EvidenceThreadIndex};

const TITLE: &str = "Some_Name | 01234567-89ab-cdef-0123-456789abcdef";
const UUID: &str = "0123456789abcdef0123456789abcdef";

#[test]
fn forum_threads_are_filed_by_uuid() {
    let mut index = EvidenceThreadIndex::new();
    thread_index_insert(&mut index, Some(7), TITLE, 42, 7);
    assert_eq!(index.thread_for(UUID), Some(42));
    assert_eq!(
        evidence_thread_url(&index, Some(100), UUID).as_deref(),
        Some("https://discord.com/channels/100/42")
    );
    assert_eq!(evidence_thread_url(&index, None, UUID), None);
    assert_eq!(evidence_thread_url(&index, Some(100), "ffffffffffffffffffffffffffffffff"), None);
}

#[test]
fn other_channels_and_titles_are_ignored() {
    let mut index = EvidenceThreadIndex::new();
    thread_index_insert(&mut index, Some(7), TITLE, 42, 8);
    thread_index_insert(&mut index, None, TITLE, 42, 7);
    thread_index_insert(&mut index, Some(7), "no uuid here", 43, 7);
    assert_eq!(index.thread_for(UUID), None);
}

#[test]
fn a_later_thread_replaces_an_earlier_one() {
    let mut index = EvidenceThreadIndex::new();
    thread_index_insert(&mut index, Some(7), TITLE, 42, 7);
    thread_index_insert(&mut index, Some(7), TITLE, 50, 7);
    assert_eq!(index.thread_for(UUID), Some(50));
}

#[test]
fn removed_threads_are_forgotten() {
    let mut index = EvidenceThreadIndex::new();
    thread_index_insert(&mut index, Some(7), TITLE, 42, 7);
    thread_index_insert(&mut index, Some(7), "X | ffffffff-ffff-ffff-ffff-ffffffffffff", 43, 7);
    thread_index_remove(&mut index, 42);
    assert_eq!(index.thread_for(UUID), None);
    assert_eq!(index.thread_for("ffffffffffffffffffffffffffffffff"), Some(43));
}
