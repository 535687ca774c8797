use std::cell::RefCell;
use std::collections::HashMap;

use override_cache::input_loader::InputLoaderCache;
use override_cache::object_cache::{BackingStore, ObjectCache};
use override_cache::store::{multi_get_objects_with_more_accurate_error_return, ObjectCacheRead};
use override_cache::types::{
    EpochId, InputObjectKind, MarkerValue, Object, ObjectDigest, ObjectId, ObjectKey,
    ObjectOrTombstone, ObjectReadResult, ObjectReadResultKind, ObjectRef, ReceivingObjectReadResult,
    ReceivingObjectReadResultKind, SequenceNumber, SuiError, TransactionDigest, UserInputError,
};

fn id(n: u128) -> ObjectId {
    ObjectId { hi: 0, lo: n }
}

fn digest(n: u128) -> ObjectDigest {
    ObjectDigest { hi: 7, lo: n }
}

fn tx_digest(n: u128) -> TransactionDigest {
    TransactionDigest { hi: 9, lo: n }
}

fn object(version: u64, is_package: bool, byte: u8) -> Object {
    Object { version, digest: digest(version as u128 * 100 + byte as u128), is_package, contents: vec![byte; 3] }
}

fn reference(object_id: ObjectId, object: &Object) -> ObjectRef {
    ObjectRef(object_id, object.version, object.digest)
}

/// An in-memory store: every version of every object, and markers.
#[derive(Default)]
struct MemStore {
    versions: HashMap<ObjectId, Vec<Object>>,
    markers: HashMap<(ObjectId, SequenceNumber, EpochId), MarkerValue>,
    failing_live_refs: Vec<ObjectId>,
    reloads: RefCell<Vec<ObjectId>>,
}

impl MemStore {
    fn put(&mut self, object_id: ObjectId, object: Object) {
        self.versions.entry(object_id).or_default().push(object);
    }

    fn latest(&self, object_id: &ObjectId) -> Option<&Object> {
        self.versions.get(object_id).and_then(|v| v.iter().max_by_key(|o| o.version))
    }

    fn at(&self, object_id: &ObjectId, version: SequenceNumber) -> Option<&Object> {
        self.versions.get(object_id).and_then(|v| v.iter().find(|o| o.version == version))
    }
}

impl ObjectCacheRead for MemStore {
    fn get_package_object(&self, id: &ObjectId) -> Result<Option<Object>, SuiError> {
        Ok(self.latest(id).filter(|o| o.is_package).cloned())
    }

    fn get_object(&self, id: &ObjectId) -> Option<Object> {
        self.latest(id).cloned()
    }

    fn get_object_by_key(&self, object_id: &ObjectId, version: SequenceNumber) -> Option<Object> {
        self.at(object_id, version).cloned()
    }

    fn multi_get_objects_by_key(&self, object_keys: &[ObjectKey]) -> Vec<Option<Object>> {
        object_keys.iter().map(|k| self.at(&k.0, k.1).cloned()).collect()
    }

    fn object_exists_by_key(&self, object_id: &ObjectId, version: SequenceNumber) -> bool {
        self.at(object_id, version).is_some()
    }

    fn multi_object_exists_by_key(&self, object_keys: &[ObjectKey]) -> Vec<bool> {
        object_keys.iter().map(|k| self.at(&k.0, k.1).is_some()).collect()
    }

    fn _get_live_objref(&self, object_id: ObjectId) -> Result<ObjectRef, SuiError> {
        if self.failing_live_refs.contains(&object_id) {
            return Err(SuiError::StorageError { message: "store unavailable".to_string() });
        }
        match self.latest(&object_id) {
            Some(o) => Ok(ObjectRef(object_id, o.version, o.digest)),
            None => Err(SuiError::UserInputError {
                error: UserInputError::ObjectNotFound { object_id, version: None },
            }),
        }
    }

    fn get_latest_object_ref_or_tombstone(&self, object_id: ObjectId) -> Option<ObjectRef> {
        self.latest(&object_id).map(|o| ObjectRef(object_id, o.version, o.digest))
    }

    fn get_latest_object_or_tombstone(&self, object_id: ObjectId) -> Option<(ObjectKey, ObjectOrTombstone)> {
        self.latest(&object_id)
            .map(|o| (ObjectKey(object_id, o.version), ObjectOrTombstone::Object(o.clone())))
    }

    fn force_reload_system_packages(&self, system_package_ids: &[ObjectId]) {
        self.reloads.borrow_mut().extend_from_slice(system_package_ids);
    }

    fn find_object_lt_or_eq_version(&self, object_id: ObjectId, version: SequenceNumber) -> Option<Object> {
        self.versions
            .get(&object_id)
            .and_then(|v| v.iter().filter(|o| o.version <= version).max_by_key(|o| o.version))
            .cloned()
    }

    fn get_marker_value(&self, object_id: &ObjectId, version: SequenceNumber, epoch_id: EpochId) -> Option<MarkerValue> {
        self.markers.get(&(*object_id, version, epoch_id)).copied()
    }

    fn get_latest_marker(&self, object_id: &ObjectId, epoch_id: EpochId) -> Option<(SequenceNumber, MarkerValue)> {
        self.markers
            .iter()
            .filter(|((o, _, e), _)| o == object_id && *e == epoch_id)
            .max_by_key(|((_, v, _), _)| *v)
            .map(|((_, v, _), m)| (*v, *m))
    }

    fn check_owned_objects_are_live(&self, owned_object_refs: &[ObjectRef]) -> Result<(), SuiError> {
        for r in owned_object_refs {
            if self.latest(&r.0).map(|o| o.version) != Some(r.1) {
                return Err(SuiError::UserInputError {
                    error: UserInputError::ObjectVersionUnavailableForConsumption {
                        provided_obj_ref: *r,
                        current_version: self.latest(&r.0).map(|o| o.version).unwrap_or(0),
                    },
                });
            }
        }
        Ok(())
    }

    fn get_highest_pruned_checkpoint(&self) -> u64 {
        41
    }
}

impl BackingStore for MemStore {
    fn get_package_object(&self, package_id: &ObjectId) -> Result<Option<Object>, SuiError> {
        Ok(self.latest(package_id).filter(|o| o.is_package).cloned())
    }

    fn read_child_object(&self, _parent: &ObjectId, child: &ObjectId, child_version_upper_bound: SequenceNumber) -> Result<Option<Object>, SuiError> {
        Ok(self
            .versions
            .get(child)
            .and_then(|v| v.iter().filter(|o| o.version <= child_version_upper_bound).max_by_key(|o| o.version))
            .cloned())
    }

    fn get_object_received_at_version(&self, _owner: &ObjectId, receiving_object_id: &ObjectId, receive_object_at_version: SequenceNumber, _epoch_id: EpochId) -> Result<Option<Object>, SuiError> {
        Ok(self.at(receiving_object_id, receive_object_at_version).cloned())
    }

    fn get_object(&self, object_id: &ObjectId) -> Option<Object> {
        self.latest(object_id).cloned()
    }

    fn get_object_by_key(&self, object_id: &ObjectId, version: SequenceNumber) -> Option<Object> {
        self.at(object_id, version).cloned()
    }

    fn get_latest_parent_entry_ref_deprecated(&self, object_id: ObjectId) -> Option<ObjectRef> {
        self.latest(&object_id).map(|o| ObjectRef(object_id, o.version, o.digest))
    }
}

fn not_found(object_id: ObjectId, version: Option<u64>) -> SuiError {
    SuiError::UserInputError { error: UserInputError::ObjectNotFound { object_id, version } }
}

#[test]
fn cached_object_overrides_loader() {
    let mut store = MemStore::default();
    store.put(id(1), object(5, false, 1));
    let cached = object(9, false, 2);
    let cache = InputLoaderCache { loader: &store, cache: vec![(id(1), cached.clone()), (id(1), object(11, false, 3))] };
    assert_eq!(ObjectCacheRead::get_object(&cache, &id(1)), Some(cached.clone()));
    assert_eq!(ObjectCacheRead::get_object_by_key(&cache, &id(1), 9), Some(cached.clone()));
    assert_eq!(ObjectCacheRead::get_object_by_key(&cache, &id(1), 11), Some(object(11, false, 3)));
    assert_eq!(ObjectCacheRead::get_object_by_key(&cache, &id(1), 5), Some(object(5, false, 1)));
    assert!(cache.object_exists_by_key(&id(1), 9));
    assert!(cache.object_exists_by_key(&id(1), 5));
    assert!(!cache.object_exists_by_key(&id(1), 6));
    assert_eq!(cache._get_live_objref(id(1)), Ok(reference(id(1), &cached)));
}

#[test]
fn empty_cache_reads_through() {
    let mut store = MemStore::default();
    store.put(id(1), object(5, false, 1));
    store.put(id(2), object(3, true, 4));
    let cache = InputLoaderCache { loader: &store, cache: vec![] };
    assert_eq!(ObjectCacheRead::get_object(&cache, &id(1)), Some(object(5, false, 1)));
    assert_eq!(ObjectCacheRead::get_object(&cache, &id(3)), None);
    assert_eq!(ObjectCacheRead::get_package_object(&cache, &id(2)), Ok(Some(object(3, true, 4))));
    assert_eq!(cache._get_live_objref(id(1)), Ok(reference(id(1), &object(5, false, 1))));
    assert_eq!(cache.get_highest_pruned_checkpoint(), 41);
}

#[test]
fn cached_package_needs_package_flag() {
    let mut store = MemStore::default();
    store.put(id(2), object(3, true, 4));
    let cache = InputLoaderCache {
        loader: &store,
        cache: vec![(id(2), object(8, false, 5)), (id(2), object(9, true, 6))],
    };
    assert_eq!(ObjectCacheRead::get_package_object(&cache, &id(2)), Ok(Some(object(9, true, 6))));
    let only_plain = InputLoaderCache { loader: &store, cache: vec![(id(2), object(8, false, 5))] };
    assert_eq!(ObjectCacheRead::get_package_object(&only_plain, &id(2)), Ok(Some(object(3, true, 4))));
}

#[test]
fn multi_get_matches_single_reads() {
    let mut store = MemStore::default();
    store.put(id(1), object(5, false, 1));
    let cache = InputLoaderCache { loader: &store, cache: vec![(id(2), object(7, false, 2))] };
    let keys = [ObjectKey(id(1), 5), ObjectKey(id(2), 7), ObjectKey(id(2), 8), ObjectKey(id(1), 6)];
    let got = cache.multi_get_objects_by_key(&keys);
    assert_eq!(got, vec![Some(object(5, false, 1)), Some(object(7, false, 2)), None, None]);
    for (k, g) in keys.iter().zip(got.iter()) {
        assert_eq!(&ObjectCacheRead::get_object_by_key(&cache, &k.0, k.1), g);
    }
}

#[test]
fn multi_exists_asks_only_the_loader() {
    let store = MemStore::default();
    let cache = InputLoaderCache { loader: &store, cache: vec![(id(2), object(7, false, 2))] };
    assert!(cache.object_exists_by_key(&id(2), 7));
    assert_eq!(cache.multi_object_exists_by_key(&[ObjectKey(id(2), 7)]), vec![false]);
}

#[test]
fn forwarding_reads_go_to_loader() {
    let mut store = MemStore::default();
    store.put(id(1), object(5, false, 1));
    store.put(id(1), object(8, false, 2));
    store.markers.insert((id(1), 8, 3), MarkerValue::Received);
    let cache = InputLoaderCache { loader: &store, cache: vec![(id(1), object(20, false, 3))] };
    assert_eq!(cache.get_latest_object_ref_or_tombstone(id(1)), Some(reference(id(1), &object(8, false, 2))));
    assert_eq!(cache.find_object_lt_or_eq_version(id(1), 7), Some(object(5, false, 1)));
    assert_eq!(cache.get_marker_value(&id(1), 8, 3), Some(MarkerValue::Received));
    assert_eq!(cache.get_latest_marker(&id(1), 3), Some((8, MarkerValue::Received)));
    assert!(cache.have_received_object_at_version(&id(1), 8, 3));
    assert!(!cache.have_received_object_at_version(&id(1), 8, 4));
    assert!(cache.check_owned_objects_are_live(&[reference(id(1), &object(8, false, 2))]).is_ok());
    assert_eq!(
        cache.get_latest_object_or_tombstone(id(1)),
        Some((ObjectKey(id(1), 8), ObjectOrTombstone::Object(object(8, false, 2))))
    );
    cache.force_reload_system_packages(&[id(2), id(3)]);
    assert_eq!(*store.reloads.borrow(), vec![id(2), id(3)]);
}

#[test]
fn shared_deletion_info_comes_from_latest_marker() {
    let mut store = MemStore::default();
    store.markers.insert((id(4), 2, 1), MarkerValue::Received);
    store.markers.insert((id(4), 6, 1), MarkerValue::SharedDeleted(tx_digest(3)));
    store.markers.insert((id(5), 6, 1), MarkerValue::OwnedDeleted);
    assert_eq!(store.get_last_shared_object_deletion_info(&id(4), 1), Some((6, tx_digest(3))));
    assert_eq!(store.get_last_shared_object_deletion_info(&id(5), 1), None);
    assert_eq!(store.get_last_shared_object_deletion_info(&id(4), 2), None);
}

#[test]
fn batch_read_errors_say_why() {
    let mut store = MemStore::default();
    store.put(id(1), object(5, false, 1));
    store.put(id(1), object(8, false, 2));
    store.put(id(2), object(3, false, 3));
    store.failing_live_refs.push(id(3));
    let ok = multi_get_objects_with_more_accurate_error_return(
        &store,
        &[reference(id(1), &object(5, false, 1)), reference(id(2), &object(3, false, 3))],
    );
    assert_eq!(ok, Ok(vec![object(5, false, 1), object(3, false, 3)]));
    let stale = ObjectRef(id(1), 6, digest(0));
    assert_eq!(
        multi_get_objects_with_more_accurate_error_return(&store, &[stale]),
        Err(SuiError::UserInputError {
            error: UserInputError::ObjectVersionUnavailableForConsumption { provided_obj_ref: stale, current_version: 8 },
        })
    );
    let future = ObjectRef(id(2), 4, digest(0));
    assert_eq!(multi_get_objects_with_more_accurate_error_return(&store, &[future]), Err(not_found(id(2), Some(4))));
    assert_eq!(
        multi_get_objects_with_more_accurate_error_return(&store, &[ObjectRef(id(3), 1, digest(0))]),
        Err(SuiError::StorageError { message: "store unavailable".to_string() })
    );
    // the first missing reference decides
    assert_eq!(
        multi_get_objects_with_more_accurate_error_return(&store, &[future, stale]),
        Err(not_found(id(2), Some(4)))
    );
}

#[test]
fn read_for_signing_reads_every_kind_in_order() {
    let mut store = MemStore::default();
    store.put(id(10), object(1, true, 1));
    store.put(id(20), object(4, false, 2));
    store.put(id(30), object(7, false, 3));
    store.put(id(40), object(2, false, 4));
    store.markers.insert((id(21), 5, 9), MarkerValue::SharedDeleted(tx_digest(77)));
    store.markers.insert((id(50), 3, 9), MarkerValue::Received);
    let override_shared = object(6, false, 8);
    let cache = InputLoaderCache { loader: &store, cache: vec![(id(20), override_shared.clone())] };
    let owned = ObjectRef(id(30), 7, object(7, false, 3).digest);
    let kinds = [
        InputObjectKind::ImmOrOwnedMoveObject(owned),
        InputObjectKind::MovePackage(id(10)),
        InputObjectKind::SharedMoveObject { id: id(20), initial_shared_version: 1, mutable: true },
        InputObjectKind::SharedMoveObject { id: id(21), initial_shared_version: 1, mutable: false },
    ];
    let receiving = [ObjectRef(id(40), 2, digest(0)), ObjectRef(id(50), 3, digest(0))];
    let (inputs, received) = cache.read_objects_for_signing(None, &kinds, &receiving, 9).unwrap();
    assert_eq!(
        inputs,
        vec![
            ObjectReadResult { input_object_kind: kinds[0], object: ObjectReadResultKind::Object(object(7, false, 3)) },
            ObjectReadResult { input_object_kind: kinds[1], object: ObjectReadResultKind::Object(object(1, true, 1)) },
            ObjectReadResult { input_object_kind: kinds[2], object: ObjectReadResultKind::Object(override_shared) },
            ObjectReadResult { input_object_kind: kinds[3], object: ObjectReadResultKind::DeletedSharedObject(5, tx_digest(77)) },
        ]
    );
    assert_eq!(
        received,
        vec![
            ReceivingObjectReadResult { object_ref: receiving[0], object: ReceivingObjectReadResultKind::Object(object(2, false, 4)) },
            ReceivingObjectReadResult { object_ref: receiving[1], object: ReceivingObjectReadResultKind::PreviouslyReceivedObject },
        ]
    );
}

#[test]
fn read_for_signing_of_nothing_is_empty() {
    let store = MemStore::default();
    let cache = InputLoaderCache { loader: &store, cache: vec![] };
    assert_eq!(cache.read_objects_for_signing(Some(&tx_digest(1)), &[], &[], 0), Ok((vec![], vec![])));
}

#[test]
fn read_for_signing_missing_package() {
    let store = MemStore::default();
    let cache = InputLoaderCache { loader: &store, cache: vec![] };
    let r = cache.read_objects_for_signing(None, &[InputObjectKind::MovePackage(id(10))], &[], 0);
    assert_eq!(r, Err(SuiError::UserInputError { error: UserInputError::DependentPackageNotFound { package_id: id(10) } }));
}

#[test]
fn read_for_signing_missing_shared_object() {
    let store = MemStore::default();
    let cache = InputLoaderCache { loader: &store, cache: vec![] };
    let kind = InputObjectKind::SharedMoveObject { id: id(20), initial_shared_version: 3, mutable: true };
    assert_eq!(cache.read_objects_for_signing(None, &[kind], &[], 0), Err(not_found(id(20), None)));
}

#[test]
fn read_for_signing_checks_shared_before_owned() {
    let store = MemStore::default();
    let cache = InputLoaderCache { loader: &store, cache: vec![] };
    let kinds = [
        InputObjectKind::ImmOrOwnedMoveObject(ObjectRef(id(30), 2, digest(0))),
        InputObjectKind::SharedMoveObject { id: id(20), initial_shared_version: 3, mutable: true },
    ];
    assert_eq!(cache.read_objects_for_signing(None, &kinds, &[], 0), Err(not_found(id(20), None)));
}

#[test]
fn read_for_signing_stale_owned_object() {
    let mut store = MemStore::default();
    store.put(id(30), object(9, false, 1));
    let cache = InputLoaderCache { loader: &store, cache: vec![] };
    let stale = ObjectRef(id(30), 2, digest(0));
    let r = cache.read_objects_for_signing(None, &[InputObjectKind::ImmOrOwnedMoveObject(stale)], &[], 0);
    assert_eq!(
        r,
        Err(SuiError::UserInputError {
            error: UserInputError::ObjectVersionUnavailableForConsumption { provided_obj_ref: stale, current_version: 9 },
        })
    );
}

#[test]
fn read_for_signing_owned_object_from_cache() {
    let store = MemStore::default();
    let cached = object(2, false, 5);
    let cache = InputLoaderCache { loader: &store, cache: vec![(id(30), cached.clone())] };
    let owned = reference(id(30), &cached);
    let (inputs, _) = cache
        .read_objects_for_signing(None, &[InputObjectKind::ImmOrOwnedMoveObject(owned)], &[], 0)
        .unwrap();
    assert_eq!(inputs, vec![ObjectReadResult { input_object_kind: InputObjectKind::ImmOrOwnedMoveObject(owned), object: ObjectReadResultKind::Object(cached) }]);
}

#[test]
fn read_for_signing_missing_receiving_object() {
    let store = MemStore::default();
    let cache = InputLoaderCache { loader: &store, cache: vec![] };
    let r = cache.read_objects_for_signing(None, &[], &[ObjectRef(id(60), 4, digest(0))], 0);
    assert_eq!(r, Err(not_found(id(60), Some(4))));
}

#[test]
fn object_cache_overrides_inner_store() {
    let mut store = MemStore::default();
    store.put(id(1), object(5, true, 1));
    store.put(id(2), object(3, false, 2));
    let cached = object(6, false, 9);
    let cached_package = object(2, true, 8);
    let cache = ObjectCache::new(store, vec![(id(1), cached.clone()), (id(3), cached_package.clone())]);
    assert_eq!(BackingStore::get_object(&cache, &id(1)), Some(cached.clone()));
    assert_eq!(BackingStore::get_package_object(&cache, &id(3)), Ok(Some(cached_package)));
    assert_eq!(BackingStore::get_package_object(&cache, &id(2)), Ok(None));
    assert_eq!(BackingStore::get_object_by_key(&cache, &id(1), 6), Some(cached));
    assert_eq!(BackingStore::get_object_by_key(&cache, &id(1), 5), Some(object(5, true, 1)));
    assert_eq!(BackingStore::get_object(&cache, &id(2)), Some(object(3, false, 2)));
    assert_eq!(cache.read_child_object(&id(9), &id(2), 3), Ok(Some(object(3, false, 2))));
    assert_eq!(cache.get_object_received_at_version(&id(9), &id(2), 3, 0), Ok(Some(object(3, false, 2))));
    assert_eq!(cache.get_latest_parent_entry_ref_deprecated(id(2)), Some(reference(id(2), &object(3, false, 2))));
}

#[test]
fn empty_object_cache_reads_through() {
    let mut store = MemStore::default();
    store.put(id(1), object(5, true, 1));
    let cache = ObjectCache::new(store, vec![]);
    assert_eq!(BackingStore::get_object(&cache, &id(1)), Some(object(5, true, 1)));
    assert_eq!(BackingStore::get_package_object(&cache, &id(1)), Ok(Some(object(5, true, 1))));
    assert_eq!(BackingStore::get_object(&cache, &id(7)), None);
}

#[test]
fn object_helpers() {
    let o = object(3, true, 2);
    assert_eq!(o.version(), 3);
    assert_eq!(o.digest(), digest(302));
    assert!(o.is_package());
    assert_eq!(o.duplicate(), o);
    let kind = InputObjectKind::ImmOrOwnedMoveObject(ObjectRef(id(1), 4, digest(0)));
    assert_eq!(kind.object_not_found_error(), UserInputError::ObjectNotFound { object_id: id(1), version: Some(4) });
}

#[test]
fn package_reads_find_packages() {
    let mut store = MemStore::default();
    store.put(id(2), object(3, false, 4));
    store.put(id(5), object(1, true, 4));
    let cache = InputLoaderCache { loader: &store, cache: vec![(id(6), object(2, false, 1))] };
    assert_eq!(ObjectCacheRead::get_package_object(&cache, &id(2)), Ok(None));
    assert_eq!(ObjectCacheRead::get_package_object(&cache, &id(6)), Ok(None));
    let found = ObjectCacheRead::get_package_object(&cache, &id(5)).unwrap().unwrap();
    assert!(found.is_package());
}

#[test]
fn signing_ignores_reference_digests() {
    let mut store = MemStore::default();
    store.put(id(30), object(7, false, 3));
    store.put(id(40), object(2, false, 4));
    let cache = InputLoaderCache { loader: &store, cache: vec![] };
    let read = |owned_digest: ObjectDigest, received_digest: ObjectDigest| {
        let kinds = [InputObjectKind::ImmOrOwnedMoveObject(ObjectRef(id(30), 7, owned_digest))];
        let receiving = [ObjectRef(id(40), 2, received_digest)];
        cache.read_objects_for_signing(None, &kinds, &receiving, 0)
    };
    let (inputs_a, received_a) = read(object(7, false, 3).digest, object(2, false, 4).digest).unwrap();
    let (inputs_b, received_b) = read(digest(1), digest(2)).unwrap();
    assert_eq!(inputs_a[0].object, inputs_b[0].object);
    assert_eq!(received_a[0].object, received_b[0].object);
    assert_ne!(received_a[0].object_ref, received_b[0].object_ref);
}

#[test]
fn received_reference_with_other_digest_reads() {
    let mut store = MemStore::default();
    store.put(id(40), object(2, false, 4));
    let cache = InputLoaderCache { loader: &store, cache: vec![] };
    let r = ObjectRef(id(40), 2, digest(999));
    let (_, received) = cache.read_objects_for_signing(None, &[], &[r], 0).unwrap();
    assert_eq!(
        received,
        vec![ReceivingObjectReadResult { object_ref: r, object: ReceivingObjectReadResultKind::Object(object(2, false, 4)) }]
    );
}
