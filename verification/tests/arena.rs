use lightshow::store::SimpleStore;
use lightshow::store::StoreError;

#[test]
fn stored_items_resolve_until_removed() {
    let mut store: SimpleStore<u32> = SimpleStore::new();
    let a = store.add(10);
    let b = store.add(20);
    assert_eq!(store.get(a), Some(&10));
    assert_eq!(store.get(b), Some(&20));
    assert_eq!(store.remove(a), Ok(()));
    assert_eq!(store.get(a), None);
    assert_eq!(store.get(b), Some(&20));
}

#[test]
fn removed_handles_stay_dead_after_slot_reuse() {
    let mut store: SimpleStore<u32> = SimpleStore::new();
    let first = store.add(1);
    assert_eq!(store.remove(first), Ok(()));
    // The freed slot is reused under a newer generation.
    let second = store.add(2);
    assert_eq!(store.get(second), Some(&2));
    assert_eq!(store.get(first), None);
    // Even further reuse never revives the original handle.
    assert_eq!(store.remove(second), Ok(()));
    let third = store.add(3);
    assert_eq!(store.get(first), None);
    assert_eq!(store.get(third), Some(&3));
}

#[test]
fn removing_twice_reports_the_right_errors() {
    let mut store: SimpleStore<u32> = SimpleStore::new();
    let h = store.add(5);
    assert_eq!(store.remove(h), Ok(()));
    // The slot is now empty: nothing is there to remove.
    assert_eq!(store.remove(h), Err(StoreError::NotFound));
    // After reuse the slot holds a payload again, but under a newer
    // generation: the old handle is stale.
    let fresh = store.add(6);
    assert_eq!(store.remove(h), Err(StoreError::StaleHandle));
    assert_eq!(store.remove(fresh), Ok(()));
}

#[test]
fn get_mut_edits_only_the_addressed_payload() {
    let mut store: SimpleStore<u32> = SimpleStore::new();
    let a = store.add(100);
    let b = store.add(200);
    if let Some(value) = store.get_mut(a) {
        *value += 1;
    }
    assert_eq!(store.get(a), Some(&101));
    assert_eq!(store.get(b), Some(&200));
    assert_eq!(store.remove(a), Ok(()));
    assert!(store.get_mut(a).is_none());
}
