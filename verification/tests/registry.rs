use dashboard_core::error::Empty;
use dashboard_core::ordered::lower_bound;
use dashboard_core::registry::{Address, DeviceInfo, Registry};

fn device(address: Address, nickname: &str, handle: u32) -> DeviceInfo<u32> {
    DeviceInfo { address, nickname: nickname.to_string(), pending_update: None, handle }
}

const A: Address = Address::V4(0x0A00_0001);
const B: Address = Address::V4(0x0A00_0002);
const C: Address = Address::V6(1);

fn alpha_beta() -> Registry<u32> {
    let mut registry = Registry::new();
    assert!(registry.register(device(A, "alpha", 1)).is_none());
    assert!(registry.register(device(B, "beta", 2)).is_none());
    registry
}

#[test]
fn empty_registry_fails_with_empty() {
    let registry: Registry<u32> = Registry::new();
    assert!(registry.is_empty());
    assert_eq!(registry.len(), 0);
    assert!(matches!(registry.list(), Err(Empty)));
    assert!(matches!(registry.resolve(None), Err(Empty)));
    assert!(matches!(registry.resolve(Some(A)), Err(Empty)));
    assert!(registry.first().is_none());
    assert!(registry.get(A).is_none());
}

#[test]
fn empty_has_its_message() {
    assert_eq!(Empty.message(), "no connected backends");
}

#[test]
fn resolve_without_preference_returns_first() {
    let registry = alpha_beta();
    let info = registry.resolve(None).unwrap();
    assert_eq!(info.address, A);
    assert_eq!(info.nickname, "alpha");
    assert_eq!(info.handle, 1);
}

#[test]
fn resolve_returns_preferred_when_registered() {
    let registry = alpha_beta();
    let info = registry.resolve(Some(B)).unwrap();
    assert_eq!(info.address, B);
    assert_eq!(info.nickname, "beta");
    assert_eq!(info.handle, 2);
}

#[test]
fn resolve_falls_back_when_preferred_is_unknown() {
    let registry = alpha_beta();
    let info = registry.resolve(Some(C)).unwrap();
    assert_eq!(info.address, A);
}

#[test]
fn resolve_falls_back_after_preferred_deregisters() {
    let mut registry = alpha_beta();
    assert_eq!(registry.resolve(None).unwrap().address, A);
    let removed = registry.deregister(A).unwrap();
    assert_eq!(removed.nickname, "alpha");
    let info = registry.resolve(Some(A)).unwrap();
    assert_eq!(info.address, B);
    assert_eq!(info.nickname, "beta");
}

#[test]
fn list_is_in_address_order_whatever_the_order_of_arrival() {
    let mut one = Registry::new();
    one.register(device(C, "gamma", 3));
    one.register(device(B, "beta", 2));
    one.register(device(A, "alpha", 1));
    let mut other = Registry::new();
    other.register(device(A, "alpha", 1));
    other.register(device(C, "gamma", 3));
    other.register(device(B, "beta", 2));
    let expected = vec![
        (A, "alpha".to_string()),
        (B, "beta".to_string()),
        (C, "gamma".to_string()),
    ];
    assert_eq!(one.list().unwrap(), expected);
    assert_eq!(other.list().unwrap(), expected);
    assert_eq!(one.first().unwrap().address, A);
}

#[test]
fn every_v4_address_precedes_every_v6_address() {
    assert!(Address::V4(u32::MAX).precedes(&Address::V6(0)));
    assert!(!Address::V6(0).precedes(&Address::V4(u32::MAX)));
    assert!(Address::V4(1).precedes(&Address::V4(2)));
    assert!(!Address::V4(2).precedes(&Address::V4(2)));
    assert!(Address::V6(u128::MAX - 1).precedes(&Address::V6(u128::MAX)));
}

#[test]
fn register_replaces_and_returns_the_previous_entry() {
    let mut registry = alpha_beta();
    let mut renamed = device(A, "alpha-2", 7);
    renamed.pending_update = Some("9.1".to_string());
    let previous = registry.register(renamed).unwrap();
    assert_eq!(previous.nickname, "alpha");
    assert_eq!(previous.handle, 1);
    assert_eq!(registry.len(), 2);
    let info = registry.get(A).unwrap();
    assert_eq!(info.nickname, "alpha-2");
    assert_eq!(info.handle, 7);
    assert_eq!(info.pending_update.as_deref(), Some("9.1"));
}

#[test]
fn deregister_of_unknown_address_changes_nothing() {
    let mut registry = alpha_beta();
    assert!(registry.deregister(C).is_none());
    assert_eq!(registry.len(), 2);
    assert!(registry.deregister(B).is_some());
    assert!(registry.deregister(B).is_none());
    assert_eq!(registry.len(), 1);
    assert!(registry.deregister(A).is_some());
    assert!(registry.is_empty());
    assert!(matches!(registry.resolve(Some(A)), Err(Empty)));
}

#[test]
fn many_devices_stay_sorted() {
    let mut registry = Registry::new();
    for i in 0..200u32 {
        let key = (i * 7919) % 1000;
        registry.register(device(Address::V4(key), "n", key));
    }
    let list = registry.list().unwrap();
    for pair in list.windows(2) {
        assert!(pair[0].0.precedes(&pair[1].0));
    }
    for (address, _) in &list {
        assert_eq!(registry.get(*address).unwrap().address, *address);
    }
    assert!(registry.get(Address::V4(1001)).is_none());
}

#[test]
fn lower_bound_finds_where_an_address_belongs() {
    let entries: Vec<DeviceInfo<u32>> = [10u32, 20, 30, 40]
        .iter()
        .map(|k| device(Address::V4(*k), "n", *k))
        .collect();
    assert_eq!(lower_bound(&entries, &Address::V4(0)), 0);
    assert_eq!(lower_bound(&entries, &Address::V4(10)), 0);
    assert_eq!(lower_bound(&entries, &Address::V4(11)), 1);
    assert_eq!(lower_bound(&entries, &Address::V4(30)), 2);
    assert_eq!(lower_bound(&entries, &Address::V4(40)), 3);
    assert_eq!(lower_bound(&entries, &Address::V4(41)), 4);
    assert_eq!(lower_bound(&entries, &Address::V6(0)), 4);
    assert_eq!(lower_bound(&Vec::<DeviceInfo<u32>>::new(), &Address::V4(1)), 0);
}
