use std::sync::PoisonError;
use substrate_client::decimal::decimal_string;
use substrate_client::sync_service::{Poisoned, SyncService};

#[test]
fn decimal_of_numbers() {
    assert_eq!(decimal_string(0), "0");
    assert_eq!(decimal_string(9), "9");
    assert_eq!(decimal_string(10), "10");
    assert_eq!(decimal_string(30405), "30405");
    assert_eq!(decimal_string(usize::MAX), usize::MAX.to_string());
}

#[test]
fn decimal_texts_differ() {
    let texts: Vec<String> = (0..1200).map(decimal_string).collect();
    for i in 0..texts.len() {
        for j in 0..i {
            assert_ne!(texts[i], texts[j]);
        }
    }
}

#[test]
fn service_is_what_it_was_made_from() {
    let service = SyncService::from(41u32);
    let held = service.get().unwrap();
    assert_eq!(*held.guard, 41);
    assert!(std::ptr::eq(held.handle, &service));
}

#[test]
fn clones_share_the_service() {
    let service = SyncService::from(vec![1, 2]);
    let other = service.clone();
    service.get().unwrap().guard.push(3);
    assert_eq!(*other.get().unwrap().guard, vec![1, 2, 3]);
    other.get().unwrap().guard.clear();
    assert!(service.get().unwrap().guard.is_empty());
}

#[test]
fn service_is_free_once_released() {
    let service = SyncService::from(0u8);
    for i in 0..5u8 {
        let mut held = service.get().unwrap();
        assert_eq!(*held.guard, i);
        *held.guard += 1;
    }
}

#[test]
fn poisoned_lock_is_reported() {
    let service = SyncService::from(String::from("node"));
    let held = service.get().unwrap();
    let locked = Err(PoisonError::new(held.guard));
    assert!(matches!(service.held(locked), Err(Poisoned)));
}
