//! A read-through cache of overriding objects in front of the node's object
//! cache, as the transaction input loader reads a transaction's inputs
//! through it.

use vstd::prelude::*;

use crate::lookup::{
    find_by_id, find_by_key, find_package_by_id, first_match, has_id, has_key, has_package_id,
    lemma_first_match,
};
use crate::store::{
    fetch_outcome, multi_get_objects_with_more_accurate_error_return, shared_deletion,
    ObjectCacheRead,
};
use crate::types::{
    spec_object_not_found_error, EpochId, InputObjectKind, InputObjects, MarkerValue, Object,
    ObjectId, ObjectKey, ObjectOrTombstone, ObjectOrTombstoneView, ObjectReadResult, ObjectReadResultKind, ObjectRef, ObjectView,
    ReadKindView, ReadResultView, ReceivingKindView, ReceivingObjectReadResult,
    ReceivingObjectReadResultKind, ReceivingObjects, ReceivingResultView, SequenceNumber,
    SuiError, TransactionDigest, UserInputError,
};

verus! {

/// Objects that override what the loader's cache holds: every read looks in
/// `cache` first, in order, and asks the loader only when no entry answers.
pub struct InputLoaderCache<'a, L> {
    /// The object cache that answers what `cache` does not.
    pub loader: &'a L,
    /// The overriding objects, each with the id it is found under.
    pub cache: Vec<(ObjectId, Object)>,
}

impl<'a, L: ObjectCacheRead> ObjectCacheRead for InputLoaderCache<'a, L> {
    open spec fn spec_package_object(&self, id: ObjectId) -> Result<Option<ObjectView>, SuiError> {
        match first_match(self.cache@, has_package_id(id)) {
            Some(i) => Ok(Some(self.cache@[i].1.deep_view())),
            None => self.loader.spec_package_object(id),
        }
    }

    open spec fn spec_object(&self, id: ObjectId) -> Option<ObjectView> {
        match first_match(self.cache@, has_id(id)) {
            Some(i) => Some(self.cache@[i].1.deep_view()),
            None => self.loader.spec_object(id),
        }
    }

    open spec fn spec_object_by_key(&self, id: ObjectId, version: SequenceNumber) -> Option<ObjectView> {
        match first_match(self.cache@, has_key(id, version)) {
            Some(i) => Some(self.cache@[i].1.deep_view()),
            None => self.loader.spec_object_by_key(id, version),
        }
    }

    open spec fn spec_object_exists_by_key(&self, id: ObjectId, version: SequenceNumber) -> bool {
        first_match(self.cache@, has_key(id, version)) is Some
            || self.loader.spec_object_exists_by_key(id, version)
    }

    open spec fn spec_multi_object_exists_by_key(&self, keys: Seq<ObjectKey>) -> Seq<bool> {
        self.loader.spec_multi_object_exists_by_key(keys)
    }

    open spec fn spec_live_objref(&self, id: ObjectId) -> Result<ObjectRef, SuiError> {
        match first_match(self.cache@, has_id(id)) {
            Some(i) => Ok(ObjectRef(id, self.cache@[i].1.version, self.cache@[i].1.digest)),
            None => self.loader.spec_live_objref(id),
        }
    }

    open spec fn spec_latest_object_ref_or_tombstone(&self, id: ObjectId) -> Option<ObjectRef> {
        self.loader.spec_latest_object_ref_or_tombstone(id)
    }

    open spec fn spec_latest_object_or_tombstone(&self, id: ObjectId) -> Option<
        (ObjectKey, ObjectOrTombstoneView),
    > {
        self.loader.spec_latest_object_or_tombstone(id)
    }

    open spec fn spec_object_lt_or_eq_version(&self, id: ObjectId, version: SequenceNumber) -> Option<
        ObjectView,
    > {
        self.loader.spec_object_lt_or_eq_version(id, version)
    }

    open spec fn spec_marker_value(&self, id: ObjectId, version: SequenceNumber, epoch: EpochId) -> Option<
        MarkerValue,
    > {
        self.loader.spec_marker_value(id, version, epoch)
    }

    open spec fn spec_latest_marker(&self, id: ObjectId, epoch: EpochId) -> Option<
        (SequenceNumber, MarkerValue),
    > {
        self.loader.spec_latest_marker(id, epoch)
    }

    open spec fn spec_owned_objects_are_live(&self, refs: Seq<ObjectRef>) -> Result<(), SuiError> {
        self.loader.spec_owned_objects_are_live(refs)
    }

    open spec fn spec_highest_pruned_checkpoint(&self) -> u64 {
        self.loader.spec_highest_pruned_checkpoint()
    }

    fn get_package_object(&self, id: &ObjectId) -> (r: Result<Option<Object>, SuiError>) {
        // first query the cache
        match find_package_by_id(&self.cache, id) {
            Some(i) => {
                proof {
                    lemma_first_match(self.cache@, has_package_id(*id));
                }
                Ok(Some(self.cache[i].1.duplicate()))
            },
            // if not found in cache, query the loader
            None => self.loader.get_package_object(id),
        }
    }

    fn get_object(&self, id: &ObjectId) -> (r: Option<Object>) {
        match find_by_id(&self.cache, id) {
            Some(i) => Some(self.cache[i].1.duplicate()),
            None => self.loader.get_object(id),
        }
    }

    fn get_object_by_key(&self, object_id: &ObjectId, version: SequenceNumber) -> (r: Option<Object>) {
        match find_by_key(&self.cache, object_id, version) {
            Some(i) => Some(self.cache[i].1.duplicate()),
            None => self.loader.get_object_by_key(object_id, version),
        }
    }

    fn multi_get_objects_by_key(&self, object_keys: &[ObjectKey]) -> (r: Vec<Option<Object>>) {
        // get one by one
        let n = object_keys.len();
        let mut results: Vec<Option<Object>> = Vec::with_capacity(n);
        let mut i: usize = 0;
        while i < n
            invariant
                n == object_keys@.len(),
                i <= n,
                results@.len() == i,
                forall|j: int|
                    0 <= j < i ==> (#[trigger] results@[j]).deep_view() == self.spec_object_by_key(
                        object_keys@[j].0,
                        object_keys@[j].1,
                    ),
            decreases n - i,
        {
            let object_id = &object_keys[i].0;
            let version = object_keys[i].1;
            let found = match find_by_key(&self.cache, object_id, version) {
                Some(k) => Some(self.cache[k].1.duplicate()),
                None => self.loader.get_object_by_key(object_id, version),
            };
            results.push(found);
            i = i + 1;
        }
        results
    }

    fn object_exists_by_key(&self, object_id: &ObjectId, version: SequenceNumber) -> (r: bool) {
        match find_by_key(&self.cache, object_id, version) {
            Some(_) => true,
            None => self.loader.object_exists_by_key(object_id, version),
        }
    }

    fn multi_object_exists_by_key(&self, object_keys: &[ObjectKey]) -> (r: Vec<bool>) {
        self.loader.multi_object_exists_by_key(object_keys)
    }

    fn _get_live_objref(&self, object_id: ObjectId) -> (r: Result<ObjectRef, SuiError>) {
        match find_by_id(&self.cache, &object_id) {
            Some(i) => Ok(ObjectRef(object_id, self.cache[i].1.version(), self.cache[i].1.digest())),
            None => self.loader._get_live_objref(object_id),
        }
    }

    fn get_latest_object_ref_or_tombstone(&self, object_id: ObjectId) -> (r: Option<ObjectRef>) {
        self.loader.get_latest_object_ref_or_tombstone(object_id)
    }

    fn get_latest_object_or_tombstone(&self, object_id: ObjectId) -> (r: Option<
        (ObjectKey, ObjectOrTombstone),
    >) {
        self.loader.get_latest_object_or_tombstone(object_id)
    }

    fn force_reload_system_packages(&self, system_package_ids: &[ObjectId]) {
        self.loader.force_reload_system_packages(system_package_ids);
    }

    fn find_object_lt_or_eq_version(&self, object_id: ObjectId, version: SequenceNumber) -> (r:
        Option<Object>) {
        self.loader.find_object_lt_or_eq_version(object_id, version)
    }

    fn get_marker_value(&self, object_id: &ObjectId, version: SequenceNumber, epoch_id: EpochId) -> (r:
        Option<MarkerValue>) {
        self.loader.get_marker_value(object_id, version, epoch_id)
    }

    fn get_latest_marker(&self, object_id: &ObjectId, epoch_id: EpochId) -> (r: Option<
        (SequenceNumber, MarkerValue),
    >) {
        self.loader.get_latest_marker(object_id, epoch_id)
    }

    fn check_owned_objects_are_live(&self, owned_object_refs: &[ObjectRef]) -> (r: Result<
        (),
        SuiError,
    >) {
        self.loader.check_owned_objects_are_live(owned_object_refs)
    }

    fn get_highest_pruned_checkpoint(&self) -> (r: u64) {
        self.loader.get_highest_pruned_checkpoint()
    }
}

/// Whether the input is an immutable or owned object, which is read by its
/// exact version in one batch after the other inputs.
pub open spec fn is_owned_input(kind: InputObjectKind) -> bool {
    kind is ImmOrOwnedMoveObject
}

/// What a package or shared input reads as: `Ok(None)` for an owned input,
/// which is read later, else the read or its error.
pub open spec fn resolve_input<C: ObjectCacheRead + ?Sized>(
    c: &C,
    kind: InputObjectKind,
    epoch: EpochId,
) -> Result<Option<ReadKindView>, SuiError> {
    match kind {
        InputObjectKind::MovePackage(id) => match c.spec_package_object(id) {
            Err(e) => Err(e),
            Ok(Some(p)) => Ok(Some(ReadKindView::Object(p))),
            Ok(None) => Err(SuiError::UserInputError { error: spec_object_not_found_error(kind) }),
        },
        InputObjectKind::SharedMoveObject { id, .. } => match c.spec_object(id) {
            Some(o) => Ok(Some(ReadKindView::Object(o))),
            None => match shared_deletion(c.spec_latest_marker(id, epoch)) {
                Some((version, digest)) => Ok(Some(ReadKindView::DeletedSharedObject(version, digest))),
                None => Err(SuiError::UserInputError { error: spec_object_not_found_error(kind) }),
            },
        },
        InputObjectKind::ImmOrOwnedMoveObject(_) => Ok(None),
    }
}

/// The first error among the package and shared inputs, in order.
pub open spec fn first_input_error<C: ObjectCacheRead + ?Sized>(
    c: &C,
    kinds: Seq<InputObjectKind>,
    epoch: EpochId,
) -> Option<SuiError>
    decreases kinds.len(),
{
    if kinds.len() == 0 {
        None
    } else {
        match first_input_error(c, kinds.drop_last(), epoch) {
            Some(e) => Some(e),
            None => match resolve_input(c, kinds.last(), epoch) {
                Err(e) => Some(e),
                Ok(_) => None,
            },
        }
    }
}

/// The references of the owned inputs, in order.
pub open spec fn owned_refs(kinds: Seq<InputObjectKind>) -> Seq<ObjectRef>
    decreases kinds.len(),
{
    if kinds.len() == 0 {
        Seq::empty()
    } else {
        match kinds.last() {
            InputObjectKind::ImmOrOwnedMoveObject(r) => owned_refs(kinds.drop_last()).push(r),
            _ => owned_refs(kinds.drop_last()),
        }
    }
}

/// What one input reads as, once every read has succeeded.
pub open spec fn input_read<C: ObjectCacheRead + ?Sized>(
    c: &C,
    kind: InputObjectKind,
    epoch: EpochId,
) -> ReadResultView {
    ReadResultView {
        input_object_kind: kind,
        object: match kind {
            InputObjectKind::ImmOrOwnedMoveObject(r) => ReadKindView::Object(
                c.spec_object_by_key(r.0, r.1)->Some_0,
            ),
            _ => resolve_input(c, kind, epoch)->Ok_0->Some_0,
        },
    }
}

/// What the received objects read as, or the error of the first one that is
/// neither already received at its version nor present.
pub open spec fn receiving_outcome<C: ObjectCacheRead + ?Sized>(
    c: &C,
    refs: Seq<ObjectRef>,
    epoch: EpochId,
) -> Result<Seq<ReceivingResultView>, SuiError>
    decreases refs.len(),
{
    if refs.len() == 0 {
        Ok(Seq::empty())
    } else {
        match receiving_outcome(c, refs.drop_last(), epoch) {
            Err(e) => Err(e),
            Ok(results) => {
                let r = refs.last();
                if c.spec_marker_value(r.0, r.1, epoch) == Some(MarkerValue::Received) {
                    Ok(
                        results.push(
                            ReceivingResultView {
                                object_ref: r,
                                object: ReceivingKindView::PreviouslyReceivedObject,
                            },
                        ),
                    )
                } else {
                    match c.spec_object(r.0) {
                        Some(o) => Ok(
                            results.push(
                                ReceivingResultView { object_ref: r, object: ReceivingKindView::Object(o) },
                            ),
                        ),
                        None => Err(
                            SuiError::UserInputError {
                                error: UserInputError::ObjectNotFound {
                                    object_id: r.0,
                                    version: Some(r.1),
                                },
                            },
                        ),
                    }
                }
            },
        }
    }
}

/// What reading a transaction's inputs and received objects for signing
/// gives: the first error among the package and shared inputs; else the first
/// error of the owned inputs' batch read; else the first error among the
/// received objects; else every input and received object as read, in order.
pub open spec fn signing_outcome<C: ObjectCacheRead + ?Sized>(
    c: &C,
    kinds: Seq<InputObjectKind>,
    receiving: Seq<ObjectRef>,
    epoch: EpochId,
) -> Result<(Seq<ReadResultView>, Seq<ReceivingResultView>), SuiError> {
    match first_input_error(c, kinds, epoch) {
        Some(e) => Err(e),
        None => match fetch_outcome(c, owned_refs(kinds)) {
            Err(e) => Err(e),
            Ok(_) => match receiving_outcome(c, receiving, epoch) {
                Err(e) => Err(e),
                Ok(received) => Ok(
                    (Seq::new(kinds.len(), |i: int| input_read(c, kinds[i], epoch)), received),
                ),
            },
        },
    }
}

/// An error of a prefix of the inputs is the error of all of them.
pub proof fn lemma_first_input_error_extends<C: ObjectCacheRead + ?Sized>(
    c: &C,
    kinds: Seq<InputObjectKind>,
    epoch: EpochId,
    k: int,
    e: SuiError,
)
    requires
        0 <= k <= kinds.len(),
        first_input_error(c, kinds.take(k), epoch) == Some(e),
    ensures
        first_input_error(c, kinds, epoch) == Some(e),
    decreases kinds.len() - k,
{
    if k == kinds.len() {
        assert(kinds.take(k) =~= kinds);
    } else {
        assert(kinds.take(k + 1).drop_last() =~= kinds.take(k));
        lemma_first_input_error_extends(c, kinds, epoch, k + 1, e);
    }
}

/// An error of a prefix of the received objects is the error of all of them.
pub proof fn lemma_receiving_error_extends<C: ObjectCacheRead + ?Sized>(
    c: &C,
    refs: Seq<ObjectRef>,
    epoch: EpochId,
    k: int,
    e: SuiError,
)
    requires
        0 <= k <= refs.len(),
        receiving_outcome(c, refs.take(k), epoch) == Err::<Seq<ReceivingResultView>, SuiError>(e),
    ensures
        receiving_outcome(c, refs, epoch) == Err::<Seq<ReceivingResultView>, SuiError>(e),
    decreases refs.len() - k,
{
    if k == refs.len() {
        assert(refs.take(k) =~= refs);
    } else {
        assert(refs.take(k + 1).drop_last() =~= refs.take(k));
        lemma_receiving_error_extends(c, refs, epoch, k + 1, e);
    }
}

/// The owned references of a prefix of the inputs are a prefix of the owned
/// references of all of them.
pub proof fn lemma_owned_refs_prefix(kinds: Seq<InputObjectKind>, k: int)
    requires
        0 <= k <= kinds.len(),
    ensures
        owned_refs(kinds.take(k)).len() <= owned_refs(kinds).len(),
        owned_refs(kinds).take(owned_refs(kinds.take(k)).len() as int) =~= owned_refs(kinds.take(k)),
    decreases kinds.len() - k,
{
    if k == kinds.len() {
        assert(kinds.take(k) =~= kinds);
    } else {
        lemma_owned_refs_prefix(kinds, k + 1);
        assert(kinds.take(k + 1).drop_last() =~= kinds.take(k));
        let a = owned_refs(kinds.take(k));
        let b = owned_refs(kinds.take(k + 1));
        assert(b.take(a.len() as int) =~= a);
        assert(owned_refs(kinds).take(a.len() as int) =~= owned_refs(kinds).take(b.len() as int).take(a.len() as int));
    }
}

/// There are no more owned references than inputs.
pub proof fn lemma_owned_refs_len(kinds: Seq<InputObjectKind>)
    ensures
        owned_refs(kinds).len() <= kinds.len(),
    decreases kinds.len(),
{
    if kinds.len() > 0 {
        lemma_owned_refs_len(kinds.drop_last());
    }
}

/// A successful batch read holds, at each position, the object at that
/// reference.
pub proof fn lemma_fetch_outcome_ok<C: ObjectCacheRead + ?Sized>(c: &C, refs: Seq<ObjectRef>)
    requires
        fetch_outcome(c, refs) is Ok,
    ensures
        fetch_outcome(c, refs)->Ok_0.len() == refs.len(),
        forall|j: int|
            0 <= j < refs.len() ==> c.spec_object_by_key(#[trigger] refs[j].0, refs[j].1) is Some
                && fetch_outcome(c, refs)->Ok_0[j] == c.spec_object_by_key(refs[j].0, refs[j].1)->Some_0,
    decreases refs.len(),
{
    if refs.len() > 0 {
        lemma_fetch_outcome_ok(c, refs.drop_last());
        assert forall|j: int| 0 <= j < refs.len() - 1 implies refs.drop_last()[j] == refs[j] by {}
    }
}

impl<'a, L: ObjectCacheRead> InputLoaderCache<'a, L> {
    /// Reads the inputs and received objects of a transaction for signing,
    /// overriding what the loader holds with the cached objects.
    ///
    /// Packages and shared objects are read one at a time, in order; a shared
    /// object that is missing reads as deleted where the newest marker for it
    /// in `epoch_id` says so. Owned objects are then read in one batch by their
    /// exact versions, and received objects last. The digests of owned and
    /// received references are not compared here.
    ///
    /// The loader is read as a snapshot: what is stated assumes that its state
    /// does not change while the call runs.
    pub fn read_objects_for_signing(
        &self,
        _tx_digest_for_caching: Option<&TransactionDigest>,
        input_object_kinds: &[InputObjectKind],
        receiving_objects: &[ObjectRef],
        epoch_id: EpochId,
    ) -> (r: Result<(InputObjects, ReceivingObjects), SuiError>)
        ensures
            match r {
                Ok((inputs, received)) => signing_outcome(
                    self,
                    input_object_kinds@,
                    receiving_objects@,
                    epoch_id,
                ) == Ok::<(Seq<ReadResultView>, Seq<ReceivingResultView>), SuiError>(
                    (inputs.deep_view(), received.deep_view()),
                ),
                Err(e) => signing_outcome(self, input_object_kinds@, receiving_objects@, epoch_id)
                    == Err::<(Seq<ReadResultView>, Seq<ReceivingResultView>), SuiError>(e),
            },
    {
        let n = input_object_kinds.len();
        let mut slots: Vec<Option<ObjectReadResultKind>> = Vec::with_capacity(n);
        let mut object_refs: Vec<ObjectRef> = Vec::with_capacity(n);
        let mut i: usize = 0;
        assert(input_object_kinds@.take(0) =~= Seq::<InputObjectKind>::empty());
        while i < n
            invariant
                n == input_object_kinds@.len(),
                i <= n,
                slots@.len() == i,
                first_input_error(self, input_object_kinds@.take(i as int), epoch_id) is None,
                object_refs@ == owned_refs(input_object_kinds@.take(i as int)),
                forall|j: int|
                    0 <= j < i ==> (is_owned_input(input_object_kinds@[j]) <==> (#[trigger] slots@[j]) is None),
                forall|j: int|
                    0 <= j < i && !is_owned_input(input_object_kinds@[j]) ==> resolve_input(
                        self,
                        input_object_kinds@[j],
                        epoch_id,
                    ) == Ok::<Option<ReadKindView>, SuiError>(
                        Some((#[trigger] slots@[j])->Some_0.deep_view()),
                    ),
            decreases n - i,
        {
            let kind = input_object_kinds[i];
            assert(input_object_kinds@.take(i + 1).drop_last() =~= input_object_kinds@.take(i as int));
            assert(input_object_kinds@.take(i + 1).last() == kind);
            match kind {
                // Packages are loaded one at a time via the cache
                InputObjectKind::MovePackage(id) => {
                    let package = match self.get_package_object(&id) {
                        Err(e) => {
                            proof {
                                lemma_first_input_error_extends(self, input_object_kinds@, epoch_id, i + 1, e);
                            }
                            return Err(e);
                        },
                        Ok(p) => p,
                    };
                    match package {
                        Some(package) => {
                            slots.push(Some(ObjectReadResultKind::Object(package)));
                        },
                        None => {
                            let e = SuiError::UserInputError { error: kind.object_not_found_error() };
                            proof {
                                lemma_first_input_error_extends(self, input_object_kinds@, epoch_id, i + 1, e);
                            }
                            return Err(e);
                        },
                    }
                },
                InputObjectKind::SharedMoveObject { id, .. } => match self.get_object(&id) {
                    Some(object) => {
                        slots.push(Some(ObjectReadResultKind::Object(object)));
                    },
                    None => {
                        if let Some((version, digest)) = self.get_last_shared_object_deletion_info(
                            &id,
                            epoch_id,
                        ) {
                            slots.push(Some(ObjectReadResultKind::DeletedSharedObject(version, digest)));
                        } else {
                            let e = SuiError::UserInputError { error: kind.object_not_found_error() };
                            proof {
                                lemma_first_input_error_extends(self, input_object_kinds@, epoch_id, i + 1, e);
                            }
                            return Err(e);
                        }
                    },
                },
                InputObjectKind::ImmOrOwnedMoveObject(objref) => {
                    object_refs.push(objref);
                    slots.push(None);
                },
            }
            i = i + 1;
        }
        assert(input_object_kinds@.take(n as int) =~= input_object_kinds@);
        let objects = match multi_get_objects_with_more_accurate_error_return(self, object_refs.as_slice()) {
            Err(e) => return Err(e),
            Ok(objects) => objects,
        };
        proof {
            lemma_fetch_outcome_ok(self, object_refs@);
        }
        let receiving_results = match self.read_receiving_objects_for_signing(receiving_objects, epoch_id) {
            Err(e) => return Err(e),
            Ok(results) => results,
        };
        // Put the inputs back together in the transaction's order.
        let ghost owned = owned_refs(input_object_kinds@);
        let mut objects = objects;
        let mut results: Vec<ObjectReadResult> = Vec::with_capacity(n);
        let mut k: usize = 0;
        let mut next: usize = 0;
        i = 0;
        while i < n
            invariant
                n == input_object_kinds@.len(),
                n == slots@.len(),
                i <= n,
                owned == owned_refs(input_object_kinds@),
                objects@.len() == owned.len(),
                next == owned_refs(input_object_kinds@.take(i as int)).len(),
                next <= owned.len(),
                forall|j: int|
                    next <= j < owned.len() ==> (#[trigger] objects@[j]).deep_view()
                        == self.spec_object_by_key(owned[j].0, owned[j].1)->Some_0,
                forall|j: int| 0 <= j < owned.len() ==> self.spec_object_by_key(#[trigger] owned[j].0, owned[j].1) is Some,
                forall|j: int|
                    i <= j < n ==> (is_owned_input(input_object_kinds@[j]) <==> (#[trigger] slots@[j]) is None),
                forall|j: int|
                    i <= j < n && !is_owned_input(input_object_kinds@[j]) ==> resolve_input(
                        self,
                        input_object_kinds@[j],
                        epoch_id,
                    ) == Ok::<Option<ReadKindView>, SuiError>(
                        Some((#[trigger] slots@[j])->Some_0.deep_view()),
                    ),
                results@.len() == i,
                forall|j: int|
                    0 <= j < i ==> (#[trigger] results@[j]).deep_view() == input_read(
                        self,
                        input_object_kinds@[j],
                        epoch_id,
                    ),
            decreases n - i,
        {
            proof {
                lemma_owned_refs_prefix(input_object_kinds@, i + 1);
                assert(input_object_kinds@.take(i + 1).drop_last() =~= input_object_kinds@.take(i as int));
                assert(input_object_kinds@.take(i + 1).last() == input_object_kinds@[i as int]);
            }
            let mut slot: Option<ObjectReadResultKind> = None;
            slots.set_and_swap(i, &mut slot);
            match slot {
                Some(read) => {
                    results.push(ObjectReadResult { input_object_kind: input_object_kinds[i], object: read });
                },
                None => {
                    let mut fetched: Object = Object {
                        version: 0,
                        digest: crate::types::ObjectDigest { hi: 0, lo: 0 },
                        is_package: false,
                        contents: Vec::new(),
                    };
                    proof {
                        assert(is_owned_input(input_object_kinds@[i as int]));
                        lemma_owned_refs_len(input_object_kinds@.take(i + 1));
                        assert(owned_refs(input_object_kinds@.take(i + 1)).len() == next + 1);
                        assert(owned[next as int] == owned_refs(input_object_kinds@.take(i + 1)).last());
                    }
                    objects.set_and_swap(next, &mut fetched);
                    results.push(
                        ObjectReadResult {
                            input_object_kind: input_object_kinds[i],
                            object: ObjectReadResultKind::Object(fetched),
                        },
                    );
                    next = next + 1;
                },
            }
            i = i + 1;
        }
        proof {
            assert(results.deep_view() =~= Seq::new(
                input_object_kinds@.len(),
                |j: int| input_read(self, input_object_kinds@[j], epoch_id),
            ));
        }
        Ok((results, receiving_results))
    }

    /// Reads the objects a transaction receives: a reference already received
    /// at its version reads as such; any other reads as the cached or stored
    /// latest object with its id, and a missing one is an error.
    fn read_receiving_objects_for_signing(
        &self,
        receiving_objects: &[ObjectRef],
        epoch_id: EpochId,
    ) -> (r: Result<ReceivingObjects, SuiError>)
        ensures
            match r {
                Ok(results) => receiving_outcome(self, receiving_objects@, epoch_id) == Ok::<
                    Seq<ReceivingResultView>,
                    SuiError,
                >(results.deep_view()),
                Err(e) => receiving_outcome(self, receiving_objects@, epoch_id) == Err::<
                    Seq<ReceivingResultView>,
                    SuiError,
                >(e),
            },
    {
        let n = receiving_objects.len();
        let mut receiving_results: Vec<ReceivingObjectReadResult> = Vec::with_capacity(n);
        let mut i: usize = 0;
        assert(receiving_objects@.take(0) =~= Seq::<ObjectRef>::empty());
        assert(receiving_results.deep_view() =~= Seq::<ReceivingResultView>::empty());
        while i < n
            invariant
                n == receiving_objects@.len(),
                i <= n,
                receiving_results@.len() == i,
                receiving_outcome(self, receiving_objects@.take(i as int), epoch_id) == Ok::<
                    Seq<ReceivingResultView>,
                    SuiError,
                >(receiving_results.deep_view()),
            decreases n - i,
        {
            let objref = receiving_objects[i];
            assert(receiving_objects@.take(i + 1).drop_last() =~= receiving_objects@.take(i as int));
            let ghost before = receiving_results.deep_view();
            // Note: the digest is checked later in check_transaction_input
            if self.have_received_object_at_version(&objref.0, objref.1, epoch_id) {
                receiving_results.push(
                    ReceivingObjectReadResult {
                        object_ref: objref,
                        object: ReceivingObjectReadResultKind::PreviouslyReceivedObject,
                    },
                );
            } else {
                match self.get_object(&objref.0) {
                    None => {
                        let e = SuiError::UserInputError {
                            error: UserInputError::ObjectNotFound {
                                object_id: objref.0,
                                version: Some(objref.1),
                            },
                        };
                        proof {
                            lemma_receiving_error_extends(self, receiving_objects@, epoch_id, i + 1, e);
                        }
                        return Err(e);
                    },
                    Some(object) => {
                        receiving_results.push(
                            ReceivingObjectReadResult {
                                object_ref: objref,
                                object: ReceivingObjectReadResultKind::Object(object),
                            },
                        );
                    },
                }
            }
            assert(receiving_results.deep_view() =~= before.push(
                receiving_results@[i as int].deep_view(),
            ));
            i = i + 1;
        }
        assert(receiving_objects@.take(n as int) =~= receiving_objects@);
        Ok(receiving_results)
    }
}

} // verus!

