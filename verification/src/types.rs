//! Plain-value model of the ledger objects that the caches hold and hand out.

use vstd::prelude::*;

verus! {

/// A 32-byte object identifier, held as its high and low 128-bit halves.
#[derive(Clone, Copy, Debug, PartialEq, Eq, Hash, Structural)]
pub struct ObjectId {
    pub hi: u128,
    pub lo: u128,
}

/// The 32-byte digest of an object's contents.
#[derive(Clone, Copy, Debug, PartialEq, Eq, Hash, Structural)]
pub struct ObjectDigest {
    pub hi: u128,
    pub lo: u128,
}

/// The 32-byte digest of a transaction.
#[derive(Clone, Copy, Debug, PartialEq, Eq, Hash, Structural)]
pub struct TransactionDigest {
    pub hi: u128,
    pub lo: u128,
}

/// The version (sequence number) of an object.
pub type SequenceNumber = u64;

/// An epoch number.
pub type EpochId = u64;

/// A reference to one version of an object: its id, version and digest.
#[derive(Clone, Copy, Debug, PartialEq, Eq, Hash, Structural)]
pub struct ObjectRef(pub ObjectId, pub SequenceNumber, pub ObjectDigest);

/// The key of one version of an object.
#[derive(Clone, Copy, Debug, PartialEq, Eq, Hash, Structural)]
pub struct ObjectKey(pub ObjectId, pub SequenceNumber);

/// A ledger object: its version, digest, whether it is a Move package, and
/// its serialized contents.
#[derive(Clone, Debug, PartialEq, Eq)]
pub struct Object {
    pub version: SequenceNumber,
    pub digest: ObjectDigest,
    pub is_package: bool,
    pub contents: Vec<u8>,
}

/// The mathematical value of an [`Object`].
pub struct ObjectView {
    pub version: SequenceNumber,
    pub digest: ObjectDigest,
    pub is_package: bool,
    pub contents: Seq<u8>,
}

impl DeepView for Object {
    type V = ObjectView;

    open spec fn deep_view(&self) -> ObjectView {
        ObjectView {
            version: self.version,
            digest: self.digest,
            is_package: self.is_package,
            contents: self.contents@,
        }
    }
}

impl Object {
    /// The object's version.
    pub fn version(&self) -> (v: SequenceNumber)
        ensures
            v == self.version,
    {
        self.version
    }

    /// The digest of the object's contents.
    pub fn digest(&self) -> (d: ObjectDigest)
        ensures
            d == self.digest,
    {
        self.digest
    }

    /// Whether the object is a Move package.
    pub fn is_package(&self) -> (b: bool)
        ensures
            b == self.is_package,
    {
        self.is_package
    }

    /// A copy of the object with the same value.
    pub fn duplicate(&self) -> (copy: Object)
        ensures
            copy.deep_view() == self.deep_view(),
    {
        let contents = self.contents.clone();
        assert(contents@ =~= self.contents@);
        Object {
            version: self.version,
            digest: self.digest,
            is_package: self.is_package,
            contents,
        }
    }
}


/// A marker left in the store for one version of an object.
#[derive(Clone, Copy, Debug, PartialEq, Eq, Structural)]
pub enum MarkerValue {
    /// The object was received at this version.
    Received,
    /// The owned object was deleted at this version.
    OwnedDeleted,
    /// The shared object was deleted at this version, by the given transaction.
    SharedDeleted(TransactionDigest),
}

/// How a transaction names one of its input objects.
#[derive(Clone, Copy, Debug, PartialEq, Eq)]
pub enum InputObjectKind {
    /// A Move package, by id.
    MovePackage(ObjectId),
    /// An immutable or owned object, by reference.
    ImmOrOwnedMoveObject(ObjectRef),
    /// A shared object, by id.
    SharedMoveObject { id: ObjectId, initial_shared_version: SequenceNumber, mutable: bool },
}

/// An error in what a user submitted.
#[derive(Clone, Copy, Debug, PartialEq, Eq)]
pub enum UserInputError {
    /// A package the transaction depends on does not exist.
    DependentPackageNotFound { package_id: ObjectId },
    /// The object (at the version, where one is given) does not exist.
    ObjectNotFound { object_id: ObjectId, version: Option<SequenceNumber> },
    /// The referenced version is not the live one and cannot be consumed.
    ObjectVersionUnavailableForConsumption {
        provided_obj_ref: ObjectRef,
        current_version: SequenceNumber,
    },
}

/// An error of a read.
#[derive(Clone, Debug, PartialEq, Eq)]
pub enum SuiError {
    /// The request names something that is not there.
    UserInputError { error: UserInputError },
    /// The store failed.
    StorageError { message: String },
}

/// The error that a missing input of this kind is reported with.
pub open spec fn spec_object_not_found_error(kind: InputObjectKind) -> UserInputError {
    match kind {
        InputObjectKind::MovePackage(package_id) => UserInputError::DependentPackageNotFound {
            package_id,
        },
        InputObjectKind::ImmOrOwnedMoveObject(r) => UserInputError::ObjectNotFound {
            object_id: r.0,
            version: Some(r.1),
        },
        InputObjectKind::SharedMoveObject { id, .. } => UserInputError::ObjectNotFound {
            object_id: id,
            version: None,
        },
    }
}

impl InputObjectKind {
    /// The error that reports this input as missing.
    pub fn object_not_found_error(&self) -> (e: UserInputError)
        ensures
            e == spec_object_not_found_error(*self),
    {
        match *self {
            InputObjectKind::MovePackage(package_id) => UserInputError::DependentPackageNotFound {
                package_id,
            },
            InputObjectKind::ImmOrOwnedMoveObject(r) => UserInputError::ObjectNotFound {
                object_id: r.0,
                version: Some(r.1),
            },
            InputObjectKind::SharedMoveObject { id, .. } => UserInputError::ObjectNotFound {
                object_id: id,
                version: None,
            },
        }
    }
}

/// What was read for one transaction input.
#[derive(Clone, Debug, PartialEq, Eq)]
pub enum ObjectReadResultKind {
    /// The object itself.
    Object(Object),
    /// The shared object was deleted at this version by this transaction.
    DeletedSharedObject(SequenceNumber, TransactionDigest),
}

/// One transaction input together with what was read for it.
#[derive(Clone, Debug, PartialEq, Eq)]
pub struct ObjectReadResult {
    pub input_object_kind: InputObjectKind,
    pub object: ObjectReadResultKind,
}

/// What was read for one object that a transaction receives.
#[derive(Clone, Debug, PartialEq, Eq)]
pub enum ReceivingObjectReadResultKind {
    /// The object itself.
    Object(Object),
    /// The object was already received at this version.
    PreviouslyReceivedObject,
}

/// One received object reference together with what was read for it.
#[derive(Clone, Debug, PartialEq, Eq)]
pub struct ReceivingObjectReadResult {
    pub object_ref: ObjectRef,
    pub object: ReceivingObjectReadResultKind,
}

/// The newest state of an object: the object, or the reference that records
/// its deletion or wrapping.
#[derive(Clone, Debug, PartialEq, Eq)]
pub enum ObjectOrTombstone {
    Object(Object),
    Tombstone(ObjectRef),
}

/// The mathematical value of an [`ObjectOrTombstone`].
pub enum ObjectOrTombstoneView {
    Object(ObjectView),
    Tombstone(ObjectRef),
}

impl DeepView for ObjectOrTombstone {
    type V = ObjectOrTombstoneView;

    open spec fn deep_view(&self) -> ObjectOrTombstoneView {
        match self {
            ObjectOrTombstone::Object(o) => ObjectOrTombstoneView::Object(o.deep_view()),
            ObjectOrTombstone::Tombstone(r) => ObjectOrTombstoneView::Tombstone(*r),
        }
    }
}

/// The inputs of a transaction as read, in the transaction's order.
pub type InputObjects = Vec<ObjectReadResult>;

/// The received objects of a transaction as read, in the transaction's order.
pub type ReceivingObjects = Vec<ReceivingObjectReadResult>;

/// The mathematical value of an [`ObjectReadResultKind`].
pub enum ReadKindView {
    Object(ObjectView),
    DeletedSharedObject(SequenceNumber, TransactionDigest),
}

/// The mathematical value of an [`ObjectReadResult`].
pub struct ReadResultView {
    pub input_object_kind: InputObjectKind,
    pub object: ReadKindView,
}

/// The mathematical value of a [`ReceivingObjectReadResultKind`].
pub enum ReceivingKindView {
    Object(ObjectView),
    PreviouslyReceivedObject,
}

/// The mathematical value of a [`ReceivingObjectReadResult`].
pub struct ReceivingResultView {
    pub object_ref: ObjectRef,
    pub object: ReceivingKindView,
}

impl DeepView for ObjectReadResultKind {
    type V = ReadKindView;

    open spec fn deep_view(&self) -> ReadKindView {
        match self {
            ObjectReadResultKind::Object(o) => ReadKindView::Object(o.deep_view()),
            ObjectReadResultKind::DeletedSharedObject(v, d) => ReadKindView::DeletedSharedObject(
                *v,
                *d,
            ),
        }
    }
}

impl DeepView for ObjectReadResult {
    type V = ReadResultView;

    open spec fn deep_view(&self) -> ReadResultView {
        ReadResultView {
            input_object_kind: self.input_object_kind,
            object: self.object.deep_view(),
        }
    }
}

impl DeepView for ReceivingObjectReadResultKind {
    type V = ReceivingKindView;

    open spec fn deep_view(&self) -> ReceivingKindView {
        match self {
            ReceivingObjectReadResultKind::Object(o) => ReceivingKindView::Object(o.deep_view()),
            ReceivingObjectReadResultKind::PreviouslyReceivedObject => ReceivingKindView::PreviouslyReceivedObject,
        }
    }
}

impl DeepView for ReceivingObjectReadResult {
    type V = ReceivingResultView;

    open spec fn deep_view(&self) -> ReceivingResultView {
        ReceivingResultView { object_ref: self.object_ref, object: self.object.deep_view() }
    }
}

/// The value of a read that may fail, with the object taken by its value.
pub open spec fn fallible_view(r: Result<Option<Object>, SuiError>) -> Result<Option<ObjectView>, SuiError> {
    match r {
        Ok(o) => Ok(o.deep_view()),
        Err(e) => Err(e),
    }
}

} // verus!
