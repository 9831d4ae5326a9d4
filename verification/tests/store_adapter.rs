use jobqueue::errors::QueueError;
use jobqueue::store::{bytes_eq, ListKind, MemStore};

#[test]
fn lists_push_pop_in_order() {
    let mut s = MemStore::new();
    s.append_right(ListKind::Waiting, b"one".to_vec()).unwrap();
    s.append_right(ListKind::Waiting, b"two".to_vec()).unwrap();
    s.append_left(ListKind::Waiting, b"zero".to_vec()).unwrap();
    assert_eq!(s.llen(ListKind::Waiting).unwrap(), 3);
    assert_eq!(s.pop_left(ListKind::Waiting).unwrap(), Some(b"zero".to_vec()));
    assert_eq!(s.pop_left(ListKind::Waiting).unwrap(), Some(b"one".to_vec()));
    assert_eq!(s.pop_left(ListKind::Waiting).unwrap(), Some(b"two".to_vec()));
    assert_eq!(s.pop_left(ListKind::Waiting).unwrap(), None);
}

#[test]
fn atomic_move_takes_head_to_other_list() {
    let mut s = MemStore::new();
    s.append_right(ListKind::Waiting, b"a".to_vec()).unwrap();
    s.append_right(ListKind::Waiting, b"b".to_vec()).unwrap();
    let moved = s.atomic_move(ListKind::Waiting, ListKind::Processing).unwrap();
    assert_eq!(moved, Some(b"a".to_vec()));
    assert_eq!(s.llen(ListKind::Waiting).unwrap(), 1);
    assert_eq!(s.llen(ListKind::Processing).unwrap(), 1);
    // Moving from an empty list yields nothing and changes nothing.
    assert_eq!(s.atomic_move(ListKind::Succeeded, ListKind::Failed).unwrap(), None);
    assert_eq!(s.llen(ListKind::Failed).unwrap(), 0);
}

#[test]
fn remove_one_drops_first_matching_entry_only() {
    let mut s = MemStore::new();
    s.append_right(ListKind::Processing, b"x".to_vec()).unwrap();
    s.append_right(ListKind::Processing, b"y".to_vec()).unwrap();
    s.append_right(ListKind::Processing, b"x".to_vec()).unwrap();
    assert!(s.remove_one(ListKind::Processing, &b"x".to_vec()).unwrap());
    assert_eq!(s.llen(ListKind::Processing).unwrap(), 2);
    assert_eq!(s.pop_left(ListKind::Processing).unwrap(), Some(b"y".to_vec()));
    assert!(!s.remove_one(ListKind::Processing, &b"z".to_vec()).unwrap());
}

#[test]
fn records_set_get_replace_delete() {
    let mut s = MemStore::new();
    let key = "q:job:1".to_string();
    assert_eq!(s.get(&key).unwrap(), None);
    s.set_with_expiry(&key, b"v1".to_vec(), 60).unwrap();
    assert_eq!(s.get(&key).unwrap(), Some(b"v1".to_vec()));
    s.set_with_expiry(&key, b"v2".to_vec(), 60).unwrap();
    assert_eq!(s.get(&key).unwrap(), Some(b"v2".to_vec()));
    s.delete(&key).unwrap();
    assert_eq!(s.get(&key).unwrap(), None);
    // Deleting an absent key is not an error.
    s.delete(&key).unwrap();
}

#[test]
fn unreachable_store_fails_every_operation() {
    let mut s = MemStore::new();
    s.append_right(ListKind::Waiting, b"kept".to_vec()).unwrap();
    s.set_available(false);
    assert!(!s.ping());
    assert_eq!(
        s.append_right(ListKind::Waiting, b"no".to_vec()),
        Err(QueueError::StoreUnavailable)
    );
    assert_eq!(s.pop_left(ListKind::Waiting).unwrap_err(), QueueError::StoreUnavailable);
    assert_eq!(s.llen(ListKind::Waiting).unwrap_err(), QueueError::StoreUnavailable);
    assert_eq!(
        s.get(&"k".to_string()).unwrap_err(),
        QueueError::StoreUnavailable
    );
    s.set_available(true);
    assert!(s.ping());
    assert_eq!(s.llen(ListKind::Waiting).unwrap(), 1);
    assert_eq!(s.pop_left(ListKind::Waiting).unwrap(), Some(b"kept".to_vec()));
}

#[test]
fn bytes_eq_compares_contents() {
    assert!(bytes_eq(&b"abc".to_vec(), &b"abc".to_vec()));
    assert!(!bytes_eq(&b"abc".to_vec(), &b"abd".to_vec()));
    assert!(!bytes_eq(&b"abc".to_vec(), &b"ab".to_vec()));
    assert!(bytes_eq(&Vec::new(), &Vec::new()));
}
