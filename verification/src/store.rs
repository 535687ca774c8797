//! The read interfaces of the object stores that the caches sit in front of.
//!
//! Each query of a store is a function of the store's state, named by a spec
//! function of the trait; an implementation's reads return exactly what those
//! functions give. The store is taken as a snapshot: its state behind `&self`
//! does not change while a read, or a call made of several reads, runs. A node
//! cache that is committed to concurrently does not meet this, and what is
//! proved of reads through it holds only between commits.
//!
//! The default of each spec function is one value, the same for all
//! arguments; it exists so that a store written in plain Rust, which cannot
//! define spec functions, can implement the trait at all. A proved
//! implementation defines every one of them, as both implementations in this
//! crate do; a plain one is trusted to read as functions it leaves undefined.

use vstd::prelude::*;

use crate::types::{
    fallible_view, EpochId, MarkerValue, Object, ObjectId, ObjectKey, ObjectOrTombstone, ObjectOrTombstoneView, ObjectRef, ObjectView,
    SequenceNumber, SuiError, TransactionDigest, UserInputError,
};

verus! {

/// The read interface of a node's object cache, as the transaction input
/// loader uses it.
pub trait ObjectCacheRead {
    /// The package `id`, or the store's error.
    closed spec fn spec_package_object(&self, id: ObjectId) -> Result<Option<ObjectView>, SuiError> {
        arbitrary()
    }

    /// The latest version of the object `id`.
    closed spec fn spec_object(&self, id: ObjectId) -> Option<ObjectView> {
        arbitrary()
    }

    /// Version `version` of the object `id`.
    closed spec fn spec_object_by_key(&self, id: ObjectId, version: SequenceNumber) -> Option<ObjectView> {
        arbitrary()
    }

    /// Whether version `version` of the object `id` exists.
    closed spec fn spec_object_exists_by_key(&self, id: ObjectId, version: SequenceNumber) -> bool {
        arbitrary()
    }

    /// For each key in turn, whether that version of that object exists, as
    /// one batch query answers it.
    closed spec fn spec_multi_object_exists_by_key(&self, keys: Seq<ObjectKey>) -> Seq<bool> {
        arbitrary()
    }

    /// The reference to the live version of the object `id`, or the store's error.
    closed spec fn spec_live_objref(&self, id: ObjectId) -> Result<ObjectRef, SuiError> {
        arbitrary()
    }

    /// The latest reference to the object `id`, live or deleted.
    closed spec fn spec_latest_object_ref_or_tombstone(&self, id: ObjectId) -> Option<ObjectRef> {
        arbitrary()
    }

    /// The key and newest state of the object `id`.
    closed spec fn spec_latest_object_or_tombstone(&self, id: ObjectId) -> Option<
        (ObjectKey, ObjectOrTombstoneView),
    > {
        arbitrary()
    }

    /// The newest version of the object `id` not above `version`.
    closed spec fn spec_object_lt_or_eq_version(&self, id: ObjectId, version: SequenceNumber) -> Option<
        ObjectView,
    > {
        arbitrary()
    }

    /// The marker for version `version` of the object `id` in epoch `epoch`.
    closed spec fn spec_marker_value(&self, id: ObjectId, version: SequenceNumber, epoch: EpochId) -> Option<
        MarkerValue,
    > {
        arbitrary()
    }

    /// The newest marker for the object `id` in epoch `epoch`, with its version.
    closed spec fn spec_latest_marker(&self, id: ObjectId, epoch: EpochId) -> Option<
        (SequenceNumber, MarkerValue),
    > {
        arbitrary()
    }

    /// Whether the owned references are all live, or the store's error.
    closed spec fn spec_owned_objects_are_live(&self, refs: Seq<ObjectRef>) -> Result<(), SuiError> {
        arbitrary()
    }

    /// The highest checkpoint whose objects have been pruned.
    closed spec fn spec_highest_pruned_checkpoint(&self) -> u64 {
        arbitrary()
    }

    /// The package `id`: a read that finds something finds a package.
    fn get_package_object(&self, id: &ObjectId) -> (r: Result<Option<Object>, SuiError>)
        ensures
            fallible_view(r) == self.spec_package_object(*id),
            r matches Ok(Some(p)) ==> p.is_package,
    ;

    fn get_object(&self, id: &ObjectId) -> (r: Option<Object>)
        ensures
            r.deep_view() == self.spec_object(*id),
    ;

    fn get_object_by_key(&self, object_id: &ObjectId, version: SequenceNumber) -> (r: Option<Object>)
        ensures
            r.deep_view() == self.spec_object_by_key(*object_id, version),
    ;

    fn multi_get_objects_by_key(&self, object_keys: &[ObjectKey]) -> (r: Vec<Option<Object>>)
        ensures
            r@.len() == object_keys@.len(),
            forall|i: int|
                0 <= i < object_keys@.len() ==> (#[trigger] r@[i]).deep_view()
                    == self.spec_object_by_key(object_keys@[i].0, object_keys@[i].1),
    ;

    fn object_exists_by_key(&self, object_id: &ObjectId, version: SequenceNumber) -> (r: bool)
        ensures
            r == self.spec_object_exists_by_key(*object_id, version),
    ;

    fn multi_object_exists_by_key(&self, object_keys: &[ObjectKey]) -> (r: Vec<bool>)
        ensures
            r@ == self.spec_multi_object_exists_by_key(object_keys@),
    ;

    fn _get_live_objref(&self, object_id: ObjectId) -> (r: Result<ObjectRef, SuiError>)
        ensures
            r == self.spec_live_objref(object_id),
    ;

    fn get_latest_object_ref_or_tombstone(&self, object_id: ObjectId) -> (r: Option<ObjectRef>)
        ensures
            r == self.spec_latest_object_ref_or_tombstone(object_id),
    ;

    fn get_latest_object_or_tombstone(&self, object_id: ObjectId) -> (r: Option<
        (ObjectKey, ObjectOrTombstone),
    >)
        ensures
            match r {
                Some((key, state)) => self.spec_latest_object_or_tombstone(object_id) == Some(
                    (key, state.deep_view()),
                ),
                None => self.spec_latest_object_or_tombstone(object_id) is None,
            },
    ;

    /// Makes the store reload the given system packages.
    fn force_reload_system_packages(&self, system_package_ids: &[ObjectId]);

    fn find_object_lt_or_eq_version(&self, object_id: ObjectId, version: SequenceNumber) -> (r:
        Option<Object>)
        ensures
            r.deep_view() == self.spec_object_lt_or_eq_version(object_id, version),
    ;

    fn get_marker_value(&self, object_id: &ObjectId, version: SequenceNumber, epoch_id: EpochId) -> (r:
        Option<MarkerValue>)
        ensures
            r == self.spec_marker_value(*object_id, version, epoch_id),
    ;

    fn get_latest_marker(&self, object_id: &ObjectId, epoch_id: EpochId) -> (r: Option<
        (SequenceNumber, MarkerValue),
    >)
        ensures
            r == self.spec_latest_marker(*object_id, epoch_id),
    ;

    fn check_owned_objects_are_live(&self, owned_object_refs: &[ObjectRef]) -> (r: Result<
        (),
        SuiError,
    >)
        ensures
            r == self.spec_owned_objects_are_live(owned_object_refs@),
    ;

    fn get_highest_pruned_checkpoint(&self) -> (r: u64)
        ensures
            r == self.spec_highest_pruned_checkpoint(),
    ;

    /// The version and deleting transaction of the shared object `id`, if the
    /// newest marker for it in epoch `epoch` says that it was deleted.
    fn get_last_shared_object_deletion_info(&self, object_id: &ObjectId, epoch_id: EpochId) -> (r:
        Option<(SequenceNumber, TransactionDigest)>)
        ensures
            r == shared_deletion(self.spec_latest_marker(*object_id, epoch_id)),
    {
        match self.get_latest_marker(object_id, epoch_id) {
            Some((version, MarkerValue::SharedDeleted(digest))) => Some((version, digest)),
            _ => None,
        }
    }

    /// Whether the marker for version `version` of the object `id` in epoch
    /// `epoch` says that it was received.
    fn have_received_object_at_version(
        &self,
        object_id: &ObjectId,
        version: SequenceNumber,
        epoch_id: EpochId,
    ) -> (r: bool)
        ensures
            r == (self.spec_marker_value(*object_id, version, epoch_id) == Some(
                MarkerValue::Received,
            )),
    {
        match self.get_marker_value(object_id, version, epoch_id) {
            Some(MarkerValue::Received) => true,
            _ => false,
        }
    }
}

/// The version and deleting transaction recorded by a marker that says a
/// shared object was deleted.
pub open spec fn shared_deletion(marker: Option<(SequenceNumber, MarkerValue)>) -> Option<
    (SequenceNumber, TransactionDigest),
> {
    match marker {
        Some((version, MarkerValue::SharedDeleted(digest))) => Some((version, digest)),
        _ => None,
    }
}

/// The error for a reference whose version is missing, given what the store
/// says of the live version.
pub open spec fn unavailable_error(r: ObjectRef, live: Result<ObjectRef, SuiError>) -> SuiError {
    match live {
        Err(e) => e,
        Ok(l) => SuiError::UserInputError {
            error: if l.1 >= r.1 {
                UserInputError::ObjectVersionUnavailableForConsumption {
                    provided_obj_ref: r,
                    current_version: l.1,
                }
            } else {
                UserInputError::ObjectNotFound { object_id: r.0, version: Some(r.1) }
            },
        },
    }
}

/// The objects at the references `refs`, or the error for the first missing
/// one.
pub open spec fn fetch_outcome<C: ObjectCacheRead + ?Sized>(c: &C, refs: Seq<ObjectRef>) -> Result<
    Seq<ObjectView>,
    SuiError,
>
    decreases refs.len(),
{
    if refs.len() == 0 {
        Ok(Seq::empty())
    } else {
        match fetch_outcome(c, refs.drop_last()) {
            Err(e) => Err(e),
            Ok(objects) => match c.spec_object_by_key(refs.last().0, refs.last().1) {
                Some(o) => Ok(objects.push(o)),
                None => Err(unavailable_error(refs.last(), c.spec_live_objref(refs.last().0))),
            },
        }
    }
}

/// Once a prefix of the references fails, so does every longer prefix, with
/// the same error.
pub proof fn lemma_fetch_outcome_prefix_error<C: ObjectCacheRead + ?Sized>(
    c: &C,
    refs: Seq<ObjectRef>,
    k: int,
)
    requires
        0 <= k < refs.len(),
        fetch_outcome(c, refs.take(k)) is Ok,
        c.spec_object_by_key(refs[k].0, refs[k].1) is None,
    ensures
        fetch_outcome(c, refs) == Err::<Seq<ObjectView>, SuiError>(
            unavailable_error(refs[k], c.spec_live_objref(refs[k].0)),
        ),
    decreases refs.len() - k,
{
    let e = unavailable_error(refs[k], c.spec_live_objref(refs[k].0));
    assert(refs.take(k + 1).drop_last() =~= refs.take(k));
    assert(fetch_outcome(c, refs.take(k + 1)) == Err::<Seq<ObjectView>, SuiError>(e));
    lemma_fetch_outcome_error_extends(c, refs, k + 1, e);
}

/// An error of a prefix of the references is the error of the whole.
pub proof fn lemma_fetch_outcome_error_extends<C: ObjectCacheRead + ?Sized>(
    c: &C,
    refs: Seq<ObjectRef>,
    k: int,
    e: SuiError,
)
    requires
        0 <= k <= refs.len(),
        fetch_outcome(c, refs.take(k)) == Err::<Seq<ObjectView>, SuiError>(e),
    ensures
        fetch_outcome(c, refs) == Err::<Seq<ObjectView>, SuiError>(e),
    decreases refs.len() - k,
{
    if k == refs.len() {
        assert(refs.take(k) =~= refs);
    } else {
        assert(refs.take(k + 1).drop_last() =~= refs.take(k));
        lemma_fetch_outcome_error_extends(c, refs, k + 1, e);
    }
}

/// The objects at the given references, in order; at the first reference
/// whose version is missing, an error that says whether a newer version is
/// live (the version can no longer be consumed) or not (not found).
pub fn multi_get_objects_with_more_accurate_error_return<C: ObjectCacheRead + ?Sized>(
    c: &C,
    object_refs: &[ObjectRef],
) -> (r: Result<Vec<Object>, SuiError>)
    ensures
        match r {
            Ok(objects) => fetch_outcome(c, object_refs@) == Ok::<Seq<ObjectView>, SuiError>(
                objects.deep_view(),
            ),
            Err(e) => fetch_outcome(c, object_refs@) == Err::<Seq<ObjectView>, SuiError>(e),
        },
{
    let n = object_refs.len();
    let mut keys: Vec<ObjectKey> = Vec::with_capacity(n);
    let mut i: usize = 0;
    while i < n
        invariant
            n == object_refs@.len(),
            i <= n,
            keys@.len() == i,
            forall|j: int|
                0 <= j < i ==> #[trigger] keys@[j] == ObjectKey(
                    object_refs@[j].0,
                    object_refs@[j].1,
                ),
        decreases n - i,
    {
        keys.push(ObjectKey(object_refs[i].0, object_refs[i].1));
        i = i + 1;
    }
    let mut objects = c.multi_get_objects_by_key(keys.as_slice());
    let mut result: Vec<Object> = Vec::new();
    let mut k: usize = 0;
    assert(object_refs@.take(0) =~= Seq::<ObjectRef>::empty());
    assert(result.deep_view() =~= Seq::<ObjectView>::empty());
    while k < n
        invariant
            n == object_refs@.len(),
            n == keys@.len(),
            objects@.len() == n,
            k <= n,
            forall|j: int|
                k <= j < n ==> (#[trigger] objects@[j]).deep_view() == c.spec_object_by_key(
                    keys@[j].0,
                    keys@[j].1,
                ),
            forall|j: int|
                0 <= j < n ==> #[trigger] keys@[j] == ObjectKey(
                    object_refs@[j].0,
                    object_refs@[j].1,
                ),
            fetch_outcome(c, object_refs@.take(k as int)) == Ok::<Seq<ObjectView>, SuiError>(
                result.deep_view(),
            ),
        decreases n - k,
    {
        let mut slot: Option<Object> = None;
        objects.set_and_swap(k, &mut slot);
        let object_ref = object_refs[k];
        assert(object_refs@.take(k + 1).drop_last() =~= object_refs@.take(k as int));
        match slot {
            None => {
                let live = c._get_live_objref(object_ref.0);
                match live {
                    Err(e) => {
                        proof {
                            lemma_fetch_outcome_prefix_error(c, object_refs@, k as int);
                        }
                        return Err(e);
                    },
                    Ok(live_objref) => {
                        let error = if live_objref.1 >= object_ref.1 {
                            UserInputError::ObjectVersionUnavailableForConsumption {
                                provided_obj_ref: object_ref,
                                current_version: live_objref.1,
                            }
                        } else {
                            UserInputError::ObjectNotFound {
                                object_id: object_ref.0,
                                version: Some(object_ref.1),
                            }
                        };
                        proof {
                            lemma_fetch_outcome_prefix_error(c, object_refs@, k as int);
                        }
                        return Err(SuiError::UserInputError { error });
                    },
                }
            },
            Some(object) => {
                let ghost before = result.deep_view();
                result.push(object);
                assert(result.deep_view() =~= before.push(object.deep_view()));
            },
        }
        k = k + 1;
    }
    assert(object_refs@.take(n as int) =~= object_refs@);
    Ok(result)
}

} // verus!
