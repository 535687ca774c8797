//! A store that answers from a list of overriding objects first and from an
//! inner backing store otherwise, so that a dry run executes against the
//! overridden objects.

use vstd::prelude::*;

use crate::lookup::{find_by_id, find_by_key, first_match, has_id, has_key};
use crate::types::{
    fallible_view, EpochId, Object, ObjectId, ObjectRef, ObjectView, SequenceNumber, SuiError,
};

verus! {

/// The read interface of the store that transaction execution reads from.
///
/// Each query is a function of the store's state, named by the spec
/// functions below; an implementation's reads return exactly what they give.
/// As with [`crate::store::ObjectCacheRead`], the store is a snapshot that
/// does not change during a call, and the spec functions' defaults (one value
/// for all arguments, except that every package is readable) only let a plain
/// Rust store implement the trait; a proved implementation defines them all.
pub trait BackingStore {
    /// The package `id`, or the store's error.
    closed spec fn spec_package_object(&self, id: ObjectId) -> Result<Option<ObjectView>, SuiError> {
        arbitrary()
    }

    /// Whether the package `id` can be read: not where the store would hand
    /// out an object that is not a package as the package.
    closed spec fn spec_package_readable(&self, id: ObjectId) -> bool {
        true
    }

    /// The child `child` of `parent`, at a version not above `bound`.
    closed spec fn spec_child_object(&self, parent: ObjectId, child: ObjectId, bound: SequenceNumber) -> Result<
        Option<ObjectView>,
        SuiError,
    > {
        arbitrary()
    }

    /// The object `id` as `owner` received it at `version` in `epoch`.
    closed spec fn spec_object_received_at_version(
        &self,
        owner: ObjectId,
        id: ObjectId,
        version: SequenceNumber,
        epoch: EpochId,
    ) -> Result<Option<ObjectView>, SuiError> {
        arbitrary()
    }

    /// The latest version of the object `id`.
    closed spec fn spec_object(&self, id: ObjectId) -> Option<ObjectView> {
        arbitrary()
    }

    /// Version `version` of the object `id`.
    closed spec fn spec_object_by_key(&self, id: ObjectId, version: SequenceNumber) -> Option<ObjectView> {
        arbitrary()
    }

    /// The latest reference to the parent entry of the object `id`.
    closed spec fn spec_latest_parent_entry_ref(&self, id: ObjectId) -> Option<ObjectRef> {
        arbitrary()
    }

    /// The package `package_id`: a read that finds something finds a package.
    fn get_package_object(&self, package_id: &ObjectId) -> (r: Result<Option<Object>, SuiError>)
        requires
            self.spec_package_readable(*package_id),
        ensures
            fallible_view(r) == self.spec_package_object(*package_id),
            r matches Ok(Some(p)) ==> p.is_package,
    ;

    fn read_child_object(
        &self,
        parent: &ObjectId,
        child: &ObjectId,
        child_version_upper_bound: SequenceNumber,
    ) -> (r: Result<Option<Object>, SuiError>)
        ensures
            fallible_view(r) == self.spec_child_object(*parent, *child, child_version_upper_bound),
    ;

    fn get_object_received_at_version(
        &self,
        owner: &ObjectId,
        receiving_object_id: &ObjectId,
        receive_object_at_version: SequenceNumber,
        epoch_id: EpochId,
    ) -> (r: Result<Option<Object>, SuiError>)
        ensures
            fallible_view(r) == self.spec_object_received_at_version(
                *owner,
                *receiving_object_id,
                receive_object_at_version,
                epoch_id,
            ),
    ;

    fn get_object(&self, object_id: &ObjectId) -> (r: Option<Object>)
        ensures
            r.deep_view() == self.spec_object(*object_id),
    ;

    fn get_object_by_key(&self, object_id: &ObjectId, version: SequenceNumber) -> (r: Option<Object>)
        ensures
            r.deep_view() == self.spec_object_by_key(*object_id, version),
    ;

    fn get_latest_parent_entry_ref_deprecated(&self, object_id: ObjectId) -> (r: Option<ObjectRef>)
        ensures
            r == self.spec_latest_parent_entry_ref(object_id),
    ;
}

/// A backing store with overriding objects in front of it: the first entry of
/// `cache` with an object's id answers for that object.
pub struct ObjectCache<S> {
    /// The store that answers what `cache` does not.
    pub inner: S,
    /// The overriding objects, each with the id it is found under.
    pub cache: Vec<(ObjectId, Object)>,
}

impl<S> ObjectCache<S> {
    /// A store that overrides `inner` with the objects in `cache`.
    pub fn new(inner: S, cache: Vec<(ObjectId, Object)>) -> (r: Self)
        ensures
            r.inner == inner,
            r.cache == cache,
    {
        Self { inner, cache }
    }
}

impl<S: BackingStore> BackingStore for ObjectCache<S> {
    open spec fn spec_package_object(&self, id: ObjectId) -> Result<Option<ObjectView>, SuiError> {
        match first_match(self.cache@, has_id(id)) {
            Some(i) => Ok(Some(self.cache@[i].1.deep_view())),
            None => self.inner.spec_package_object(id),
        }
    }

    open spec fn spec_package_readable(&self, id: ObjectId) -> bool {
        match first_match(self.cache@, has_id(id)) {
            Some(i) => self.cache@[i].1.is_package,
            None => self.inner.spec_package_readable(id),
        }
    }

    open spec fn spec_child_object(&self, parent: ObjectId, child: ObjectId, bound: SequenceNumber) -> Result<
        Option<ObjectView>,
        SuiError,
    > {
        self.inner.spec_child_object(parent, child, bound)
    }

    open spec fn spec_object_received_at_version(
        &self,
        owner: ObjectId,
        id: ObjectId,
        version: SequenceNumber,
        epoch: EpochId,
    ) -> Result<Option<ObjectView>, SuiError> {
        self.inner.spec_object_received_at_version(owner, id, version, epoch)
    }

    open spec fn spec_object(&self, id: ObjectId) -> Option<ObjectView> {
        match first_match(self.cache@, has_id(id)) {
            Some(i) => Some(self.cache@[i].1.deep_view()),
            None => self.inner.spec_object(id),
        }
    }

    open spec fn spec_object_by_key(&self, id: ObjectId, version: SequenceNumber) -> Option<ObjectView> {
        match first_match(self.cache@, has_key(id, version)) {
            Some(i) => Some(self.cache@[i].1.deep_view()),
            None => self.inner.spec_object_by_key(id, version),
        }
    }

    open spec fn spec_latest_parent_entry_ref(&self, id: ObjectId) -> Option<ObjectRef> {
        self.inner.spec_latest_parent_entry_ref(id)
    }

    fn get_package_object(&self, package_id: &ObjectId) -> (r: Result<Option<Object>, SuiError>) {
        match find_by_id(&self.cache, package_id) {
            Some(i) => Ok(Some(self.cache[i].1.duplicate())),
            None => self.inner.get_package_object(package_id),
        }
    }

    fn read_child_object(
        &self,
        parent: &ObjectId,
        child: &ObjectId,
        child_version_upper_bound: SequenceNumber,
    ) -> (r: Result<Option<Object>, SuiError>) {
        self.inner.read_child_object(parent, child, child_version_upper_bound)
    }

    fn get_object_received_at_version(
        &self,
        owner: &ObjectId,
        receiving_object_id: &ObjectId,
        receive_object_at_version: SequenceNumber,
        epoch_id: EpochId,
    ) -> (r: Result<Option<Object>, SuiError>) {
        self.inner.get_object_received_at_version(
            owner,
            receiving_object_id,
            receive_object_at_version,
            epoch_id,
        )
    }

    fn get_object(&self, object_id: &ObjectId) -> (r: Option<Object>) {
        // iterate through the cache to find the object
        match find_by_id(&self.cache, object_id) {
            Some(i) => Some(self.cache[i].1.duplicate()),
            None => self.inner.get_object(object_id),
        }
    }

    fn get_object_by_key(&self, object_id: &ObjectId, version: SequenceNumber) -> (r: Option<Object>) {
        match find_by_key(&self.cache, object_id, version) {
            Some(i) => Some(self.cache[i].1.duplicate()),
            None => self.inner.get_object_by_key(object_id, version),
        }
    }

    fn get_latest_parent_entry_ref_deprecated(&self, object_id: ObjectId) -> (r: Option<ObjectRef>) {
        // deprecated
        self.inner.get_latest_parent_entry_ref_deprecated(object_id)
    }
}

} // verus!
