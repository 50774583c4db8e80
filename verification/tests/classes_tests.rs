use pending_sync::classes::download_plan;
use pending_sync::classes::record_all;
use pending_sync::classes::ClassStore;
use pending_sync::chain::StateUpdate;
use pending_sync::felt::Felt;

fn class(n: u64) -> Felt {
    Felt::from_limbs(0, 0, 0, n)
}

fn delta() -> StateUpdate {
    let mut u = StateUpdate::default();
    u.declared_classes = vec![class(1), class(2)];
    u.deployed_classes = vec![class(2), class(3)];
    u.replaced_classes = vec![class(4)];
    u
}

#[test]
fn plan_lists_each_missing_class_once() {
    let store = ClassStore::new();
    let plan = download_plan(&delta(), &store);
    assert_eq!(plan, vec![class(1), class(2), class(3), class(4)]);
}

#[test]
fn plan_skips_classes_already_present() {
    let mut store = ClassStore::new();
    store.record(class(2));
    store.record(class(4));
    let plan = download_plan(&delta(), &store);
    assert_eq!(plan, vec![class(1), class(3)]);
}

#[test]
fn resolution_is_idempotent() {
    let mut store = ClassStore::new();
    let first = download_plan(&delta(), &store);
    assert_eq!(first.len(), 4);
    record_all(&mut store, &first);
    // A second run over the same delta finds nothing left to fetch.
    let second = download_plan(&delta(), &store);
    assert!(second.is_empty());
}

#[test]
fn recording_twice_changes_nothing() {
    let mut store = ClassStore::new();
    store.record(class(7));
    store.record(class(7));
    assert!(store.contains(&class(7)));
    let mut u = StateUpdate::default();
    u.declared_classes = vec![class(7)];
    assert!(download_plan(&u, &store).is_empty());
}

#[test]
fn empty_delta_needs_nothing() {
    let store = ClassStore::new();
    let plan = download_plan(&StateUpdate::default(), &store);
    assert!(plan.is_empty());
}
