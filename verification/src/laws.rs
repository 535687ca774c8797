//! Properties that hold across the caches' reads and of the request format.

use vstd::prelude::*;

use crate::input_loader::{
    first_input_error, input_read, owned_refs, receiving_outcome, resolve_input, signing_outcome,
    InputLoaderCache,
};
use crate::lookup::{has_id, has_key, has_package_id, lemma_first_match_at, lemma_first_match_none};
use crate::object_cache::{BackingStore, ObjectCache};
use crate::request::{
    base64_accepts, is_separator, is_white_space, spec_parse_request, trim, trim_end, trim_start,
};
use crate::store::{fetch_outcome, shared_deletion, ObjectCacheRead};
use crate::connection::response_line;
use crate::types::{
    EpochId, MarkerValue, ObjectView, ReadKindView, ReceivingKindView, InputObjectKind, ObjectId, ObjectRef, ReceivingResultView,
    SequenceNumber, SuiError,
};

verus! {

/// With nothing cached, the input loader's cache answers every read exactly
/// as the loader does.
pub proof fn law_empty_input_cache_reads_through<'a, L: ObjectCacheRead>(c: InputLoaderCache<'a, L>)
    requires
        c.cache@.len() == 0,
    ensures
        forall|id: ObjectId| #[trigger] c.spec_object(id) == c.loader.spec_object(id),
        forall|id: ObjectId| #[trigger] c.spec_package_object(id) == c.loader.spec_package_object(id),
        forall|id: ObjectId| #[trigger] c.spec_live_objref(id) == c.loader.spec_live_objref(id),
        forall|id: ObjectId, v: SequenceNumber|
            #[trigger] c.spec_object_by_key(id, v) == c.loader.spec_object_by_key(id, v),
        forall|id: ObjectId, v: SequenceNumber|
            #[trigger] c.spec_object_exists_by_key(id, v) == c.loader.spec_object_exists_by_key(id, v),
{
}

/// With nothing cached, the overriding store answers every read exactly as
/// its inner store does.
pub proof fn law_empty_object_cache_reads_through<S: BackingStore>(c: ObjectCache<S>)
    requires
        c.cache@.len() == 0,
    ensures
        forall|id: ObjectId| #[trigger] c.spec_object(id) == c.inner.spec_object(id),
        forall|id: ObjectId| #[trigger] c.spec_package_object(id) == c.inner.spec_package_object(id),
        forall|id: ObjectId, v: SequenceNumber|
            #[trigger] c.spec_object_by_key(id, v) == c.inner.spec_object_by_key(id, v),
{
}

/// The first cached entry for an object overrides the loader: it is the
/// object's latest version, it is found by its own version, that version
/// exists, and the live reference is its id, version and digest.
pub proof fn law_cached_object_overrides_loader<'a, L: ObjectCacheRead>(
    c: InputLoaderCache<'a, L>,
    i: int,
)
    requires
        0 <= i < c.cache@.len(),
        forall|j: int| 0 <= j < i ==> (#[trigger] c.cache@[j]).0 != c.cache@[i].0,
    ensures
        ({
            let (id, object) = c.cache@[i];
            &&& c.spec_object(id) == Some(object.deep_view())
            &&& c.spec_object_by_key(id, object.version) == Some(object.deep_view())
            &&& c.spec_object_exists_by_key(id, object.version)
            &&& c.spec_live_objref(id) == Ok::<ObjectRef, SuiError>(
                ObjectRef(id, object.version, object.digest),
            )
        }),
{
    let (id, object) = c.cache@[i];
    assert forall|j: int| 0 <= j < i implies !has_id(id)(#[trigger] c.cache@[j]) by {}
    assert forall|j: int| 0 <= j < i implies !has_key(id, object.version)(#[trigger] c.cache@[j]) by {}
    lemma_first_match_at(c.cache@, has_id(id), i);
    lemma_first_match_at(c.cache@, has_key(id, object.version), i);
}

/// A cached package overrides the loader's answer for it.
pub proof fn law_cached_package_overrides_loader<'a, L: ObjectCacheRead>(
    c: InputLoaderCache<'a, L>,
    i: int,
)
    requires
        0 <= i < c.cache@.len(),
        c.cache@[i].1.is_package,
        forall|j: int|
            0 <= j < i ==> !((#[trigger] c.cache@[j]).1.is_package && c.cache@[j].0 == c.cache@[i].0),
    ensures
        c.spec_package_object(c.cache@[i].0) == Ok::<_, SuiError>(Some(c.cache@[i].1.deep_view())),
{
    let id = c.cache@[i].0;
    assert forall|j: int| 0 <= j < i implies !has_package_id(id)(#[trigger] c.cache@[j]) by {}
    lemma_first_match_at(c.cache@, has_package_id(id), i);
}

/// The first cached entry for an object overrides the inner store, for its
/// latest version and for its own version.
pub proof fn law_cached_object_overrides_inner<S: BackingStore>(c: ObjectCache<S>, i: int)
    requires
        0 <= i < c.cache@.len(),
        forall|j: int| 0 <= j < i ==> (#[trigger] c.cache@[j]).0 != c.cache@[i].0,
    ensures
        ({
            let (id, object) = c.cache@[i];
            &&& c.spec_object(id) == Some(object.deep_view())
            &&& c.spec_package_object(id) == Ok::<_, SuiError>(Some(object.deep_view()))
            &&& c.spec_object_by_key(id, object.version) == Some(object.deep_view())
        }),
{
    let (id, object) = c.cache@[i];
    assert forall|j: int| 0 <= j < i implies !has_id(id)(#[trigger] c.cache@[j]) by {}
    assert forall|j: int| 0 <= j < i implies !has_key(id, object.version)(#[trigger] c.cache@[j]) by {}
    lemma_first_match_at(c.cache@, has_id(id), i);
    lemma_first_match_at(c.cache@, has_key(id, object.version), i);
}

/// A successful read of received objects has one result per reference, in
/// order, each carrying its reference.
pub proof fn law_receiving_results_follow_refs<C: ObjectCacheRead + ?Sized>(
    c: &C,
    refs: Seq<ObjectRef>,
    epoch: EpochId,
)
    requires
        receiving_outcome(c, refs, epoch) is Ok,
    ensures
        receiving_outcome(c, refs, epoch)->Ok_0.len() == refs.len(),
        forall|i: int|
            0 <= i < refs.len() ==> (#[trigger] receiving_outcome(c, refs, epoch)->Ok_0[i]).object_ref
                == refs[i],
    decreases refs.len(),
{
    if refs.len() > 0 {
        law_receiving_results_follow_refs(c, refs.drop_last(), epoch);
        let prev: Seq<ReceivingResultView> = receiving_outcome(c, refs.drop_last(), epoch)->Ok_0;
        assert forall|i: int| 0 <= i < refs.len() - 1 implies refs.drop_last()[i] == refs[i] by {}
        assert forall|i: int| 0 <= i < refs.len() - 1 implies (#[trigger] receiving_outcome(c, refs, epoch)->Ok_0[i]) == prev[i] by {}
    }
}

/// A successful read for signing has one result per input and one per
/// received reference, in the transaction's order, each carrying the input or
/// reference it was read for.
pub proof fn law_signing_results_follow_inputs<C: ObjectCacheRead + ?Sized>(
    c: &C,
    kinds: Seq<InputObjectKind>,
    receiving: Seq<ObjectRef>,
    epoch: EpochId,
)
    requires
        signing_outcome(c, kinds, receiving, epoch) is Ok,
    ensures
        ({
            let (inputs, received) = signing_outcome(c, kinds, receiving, epoch)->Ok_0;
            &&& inputs.len() == kinds.len()
            &&& forall|i: int|
                0 <= i < kinds.len() ==> (#[trigger] inputs[i]).input_object_kind == kinds[i]
            &&& received.len() == receiving.len()
            &&& forall|i: int| 0 <= i < receiving.len() ==> (#[trigger] received[i]).object_ref == receiving[i]
        }),
{
    law_receiving_results_follow_refs(c, receiving, epoch);
}

/// A request line written as `{tx};{override_objects}` and a newline parses
/// back to its two parts, when both are Base64, the transaction has no `;`,
/// and neither part has white space at the line's ends.
pub proof fn law_request_line_round_trips(tx: Seq<char>, override_objects: Seq<char>)
    requires
        base64_accepts(tx),
        base64_accepts(override_objects),
        !tx.contains(';'),
        tx.len() > 0 ==> !is_white_space(tx[0]),
        override_objects.len() > 0 ==> !is_white_space(override_objects.last()),
    ensures
        spec_parse_request(tx + seq![';'] + override_objects + seq!['\n']) == Ok::<
            (Seq<char>, Seq<char>),
            crate::request::RequestError,
        >((tx, override_objects)),
{
    let body = tx + seq![';'] + override_objects;
    let line = body + seq!['\n'];
    assert(!is_white_space(';'));
    assert(is_white_space('\n'));
    assert(line[0] == if tx.len() > 0 { tx[0] } else { ';' });
    assert(trim_start(line) == line);
    assert(line.drop_last() =~= body);
    assert(body.last() == if override_objects.len() > 0 { override_objects.last() } else { ';' });
    assert(trim_end(body) == body);
    assert(trim(line) == body);
    assert forall|j: int| 0 <= j < tx.len() implies !is_separator()(#[trigger] body[j]) by {
        assert(body[j] == tx[j]);
        if body[j] == ';' {
            assert(tx.contains(';'));
        }
    }
    lemma_first_match_at(body, is_separator(), tx.len() as int);
    assert(body.take(tx.len() as int) =~= tx);
    assert(body.skip(tx.len() + 1int) =~= override_objects);
}

/// Two references to the same version of the same object, whatever their
/// digests.
pub open spec fn same_object_version(a: ObjectRef, b: ObjectRef) -> bool {
    a.0 == b.0 && a.1 == b.1
}

/// Two inputs that are the same but for the digest of an owned object's
/// reference.
pub open spec fn same_input_but_digest(a: InputObjectKind, b: InputObjectKind) -> bool {
    ||| a == b
    ||| {
        &&& a matches InputObjectKind::ImmOrOwnedMoveObject(ra)
        &&& b matches InputObjectKind::ImmOrOwnedMoveObject(rb)
        &&& same_object_version(ra, rb)
    }
}

/// Two lists of references that are the same but for digests.
pub open spec fn same_refs_but_digests(a: Seq<ObjectRef>, b: Seq<ObjectRef>) -> bool {
    &&& a.len() == b.len()
    &&& forall|i: int| 0 <= i < a.len() ==> same_object_version(#[trigger] a[i], b[i])
}

/// Two lists of inputs that are the same but for the digests of owned
/// objects' references.
pub open spec fn same_inputs_but_digests(a: Seq<InputObjectKind>, b: Seq<InputObjectKind>) -> bool {
    &&& a.len() == b.len()
    &&& forall|i: int| 0 <= i < a.len() ==> same_input_but_digest(#[trigger] a[i], b[i])
}

proof fn lemma_first_input_error_ignores_digests<C: ObjectCacheRead + ?Sized>(
    c: &C,
    a: Seq<InputObjectKind>,
    b: Seq<InputObjectKind>,
    epoch: EpochId,
)
    requires
        same_inputs_but_digests(a, b),
    ensures
        first_input_error(c, a, epoch) == first_input_error(c, b, epoch),
        same_refs_but_digests(owned_refs(a), owned_refs(b)),
    decreases a.len(),
{
    if a.len() > 0 {
        assert(same_inputs_but_digests(a.drop_last(), b.drop_last())) by {
            assert forall|i: int| 0 <= i < a.len() - 1 implies same_input_but_digest(
                #[trigger] a.drop_last()[i],
                b.drop_last()[i],
            ) by {
                assert(same_input_but_digest(a[i], b[i]));
            }
        }
        lemma_first_input_error_ignores_digests(c, a.drop_last(), b.drop_last(), epoch);
        assert(same_input_but_digest(a[a.len() - 1], b[b.len() - 1]));
        assert(resolve_input(c, a.last(), epoch) == resolve_input(c, b.last(), epoch));
        let oa = owned_refs(a.drop_last());
        let ob = owned_refs(b.drop_last());
        if let InputObjectKind::ImmOrOwnedMoveObject(ra) = a.last() {
            let rb = b.last()->ImmOrOwnedMoveObject_0;
            assert(owned_refs(a) == oa.push(ra));
            assert(owned_refs(b) == ob.push(rb));
            assert forall|i: int| 0 <= i < oa.len() + 1 implies same_object_version(
                #[trigger] oa.push(ra)[i],
                ob.push(rb)[i],
            ) by {
                if i < oa.len() {
                    assert(same_object_version(oa[i], ob[i]));
                }
            }
        } else {
            assert(a.last() == b.last());
        }
    }
}

proof fn lemma_fetch_ignores_digests<C: ObjectCacheRead + ?Sized>(
    c: &C,
    a: Seq<ObjectRef>,
    b: Seq<ObjectRef>,
)
    requires
        same_refs_but_digests(a, b),
    ensures
        fetch_outcome(c, a) is Ok <==> fetch_outcome(c, b) is Ok,
        fetch_outcome(c, a) is Ok ==> fetch_outcome(c, a) == fetch_outcome(c, b),
    decreases a.len(),
{
    if a.len() > 0 {
        assert(same_refs_but_digests(a.drop_last(), b.drop_last())) by {
            assert forall|i: int| 0 <= i < a.len() - 1 implies same_object_version(
                #[trigger] a.drop_last()[i],
                b.drop_last()[i],
            ) by {
                assert(same_object_version(a[i], b[i]));
            }
        }
        lemma_fetch_ignores_digests(c, a.drop_last(), b.drop_last());
        assert(same_object_version(a[a.len() - 1], b[b.len() - 1]));
    }
}

/// Reading received objects does not look at the references' digests: two
/// lists of references that differ only in digests both read or both fail,
/// and where they read, each reference reads as the same object.
pub proof fn law_receiving_ignores_reference_digests<C: ObjectCacheRead + ?Sized>(
    c: &C,
    a: Seq<ObjectRef>,
    b: Seq<ObjectRef>,
    epoch: EpochId,
)
    requires
        same_refs_but_digests(a, b),
    ensures
        receiving_outcome(c, a, epoch) is Ok <==> receiving_outcome(c, b, epoch) is Ok,
        receiving_outcome(c, a, epoch) is Ok ==> {
            let ra = receiving_outcome(c, a, epoch)->Ok_0;
            let rb = receiving_outcome(c, b, epoch)->Ok_0;
            &&& ra.len() == rb.len()
            &&& forall|i: int| 0 <= i < ra.len() ==> (#[trigger] ra[i]).object == rb[i].object
        },
    decreases a.len(),
{
    if a.len() > 0 {
        assert(same_refs_but_digests(a.drop_last(), b.drop_last())) by {
            assert forall|i: int| 0 <= i < a.len() - 1 implies same_object_version(
                #[trigger] a.drop_last()[i],
                b.drop_last()[i],
            ) by {
                assert(same_object_version(a[i], b[i]));
            }
        }
        law_receiving_ignores_reference_digests(c, a.drop_last(), b.drop_last(), epoch);
        assert(same_object_version(a[a.len() - 1], b[b.len() - 1]));
        if receiving_outcome(c, a, epoch) is Ok {
            let pa = receiving_outcome(c, a.drop_last(), epoch)->Ok_0;
            let pb = receiving_outcome(c, b.drop_last(), epoch)->Ok_0;
            let ra = receiving_outcome(c, a, epoch)->Ok_0;
            let rb = receiving_outcome(c, b, epoch)->Ok_0;
            assert(ra.len() == pa.len() + 1);
            assert forall|i: int| 0 <= i < ra.len() implies (#[trigger] ra[i]).object == rb[i].object by {
                if i < pa.len() {
                    assert(ra[i] == pa[i]);
                    assert(rb[i] == pb[i]);
                }
            }
        }
    }
}

/// Reading a transaction for signing does not look at the digests of owned
/// inputs' or received objects' references: inputs and received references
/// that differ only in those digests both read or both fail, and where they
/// read, every input and every received reference reads as the same object.
pub proof fn law_signing_ignores_reference_digests<C: ObjectCacheRead + ?Sized>(
    c: &C,
    kinds_a: Seq<InputObjectKind>,
    receiving_a: Seq<ObjectRef>,
    kinds_b: Seq<InputObjectKind>,
    receiving_b: Seq<ObjectRef>,
    epoch: EpochId,
)
    requires
        same_inputs_but_digests(kinds_a, kinds_b),
        same_refs_but_digests(receiving_a, receiving_b),
    ensures
        signing_outcome(c, kinds_a, receiving_a, epoch) is Ok <==> signing_outcome(
            c,
            kinds_b,
            receiving_b,
            epoch,
        ) is Ok,
        signing_outcome(c, kinds_a, receiving_a, epoch) is Ok ==> {
            let (inputs_a, received_a) = signing_outcome(c, kinds_a, receiving_a, epoch)->Ok_0;
            let (inputs_b, received_b) = signing_outcome(c, kinds_b, receiving_b, epoch)->Ok_0;
            &&& inputs_a.len() == inputs_b.len()
            &&& forall|i: int|
                0 <= i < inputs_a.len() ==> (#[trigger] inputs_a[i]).object == inputs_b[i].object
            &&& received_a.len() == received_b.len()
            &&& forall|i: int|
                0 <= i < received_a.len() ==> (#[trigger] received_a[i]).object == received_b[i].object
        },
{
    lemma_first_input_error_ignores_digests(c, kinds_a, kinds_b, epoch);
    lemma_fetch_ignores_digests(c, owned_refs(kinds_a), owned_refs(kinds_b));
    law_receiving_ignores_reference_digests(c, receiving_a, receiving_b, epoch);
    if signing_outcome(c, kinds_a, receiving_a, epoch) is Ok {
        let (inputs_a, received_a) = signing_outcome(c, kinds_a, receiving_a, epoch)->Ok_0;
        let (inputs_b, received_b) = signing_outcome(c, kinds_b, receiving_b, epoch)->Ok_0;
        assert forall|i: int| 0 <= i < inputs_a.len() implies (#[trigger] inputs_a[i]).object
            == inputs_b[i].object by {
            assert(same_input_but_digest(kinds_a[i], kinds_b[i]));
            assert(inputs_a[i] == input_read(c, kinds_a[i], epoch));
            assert(inputs_b[i] == input_read(c, kinds_b[i], epoch));
        }
    }
}

/// An object with no cache entry is read from the loader, whatever else the
/// cache holds: its latest version, any of its versions, whether a version
/// exists, its package and its live reference are the loader's.
pub proof fn law_uncached_object_reads_from_loader<'a, L: ObjectCacheRead>(
    c: InputLoaderCache<'a, L>,
    id: ObjectId,
    version: SequenceNumber,
)
    requires
        forall|j: int| 0 <= j < c.cache@.len() ==> (#[trigger] c.cache@[j]).0 != id,
    ensures
        c.spec_object(id) == c.loader.spec_object(id),
        c.spec_object_by_key(id, version) == c.loader.spec_object_by_key(id, version),
        c.spec_object_exists_by_key(id, version) == c.loader.spec_object_exists_by_key(id, version),
        c.spec_package_object(id) == c.loader.spec_package_object(id),
        c.spec_live_objref(id) == c.loader.spec_live_objref(id),
{
    assert forall|j: int| 0 <= j < c.cache@.len() implies !has_id(id)(#[trigger] c.cache@[j]) by {}
    assert forall|j: int| 0 <= j < c.cache@.len() implies !has_key(id, version)(#[trigger] c.cache@[j]) by {}
    assert forall|j: int| 0 <= j < c.cache@.len() implies !has_package_id(id)(#[trigger] c.cache@[j]) by {}
    lemma_first_match_none(c.cache@, has_id(id));
    lemma_first_match_none(c.cache@, has_key(id, version));
    lemma_first_match_none(c.cache@, has_package_id(id));
}

/// An object with no entry in the override list is read from the inner
/// store, whatever else the list holds: its latest version, any of its
/// versions, its package and whether that package can be read are the inner
/// store's.
pub proof fn law_uncached_object_reads_from_inner<S: BackingStore>(
    c: ObjectCache<S>,
    id: ObjectId,
    version: SequenceNumber,
)
    requires
        forall|j: int| 0 <= j < c.cache@.len() ==> (#[trigger] c.cache@[j]).0 != id,
    ensures
        c.spec_object(id) == c.inner.spec_object(id),
        c.spec_object_by_key(id, version) == c.inner.spec_object_by_key(id, version),
        c.spec_package_object(id) == c.inner.spec_package_object(id),
        c.spec_package_readable(id) == c.inner.spec_package_readable(id),
{
    assert forall|j: int| 0 <= j < c.cache@.len() implies !has_id(id)(#[trigger] c.cache@[j]) by {}
    assert forall|j: int| 0 <= j < c.cache@.len() implies !has_key(id, version)(#[trigger] c.cache@[j]) by {}
    lemma_first_match_none(c.cache@, has_id(id));
    lemma_first_match_none(c.cache@, has_key(id, version));
}

/// A shared input whose object exists reads as the object's latest version,
/// whether it is mutable or read-only and whatever its initial shared version.
pub proof fn law_shared_input_reads_latest_object<C: ObjectCacheRead + ?Sized>(
    c: &C,
    id: ObjectId,
    initial_shared_version: SequenceNumber,
    mutable: bool,
    epoch: EpochId,
)
    requires
        c.spec_object(id) is Some,
    ensures
        resolve_input(
            c,
            InputObjectKind::SharedMoveObject { id, initial_shared_version, mutable },
            epoch,
        ) == Ok::<Option<ReadKindView>, SuiError>(
            Some(ReadKindView::Object(c.spec_object(id)->Some_0)),
        ),
{
}

/// In a successful read for signing, every shared input whose object exists
/// holds that object's latest version.
pub proof fn law_signing_reads_shared_inputs_at_latest<C: ObjectCacheRead + ?Sized>(
    c: &C,
    kinds: Seq<InputObjectKind>,
    receiving: Seq<ObjectRef>,
    epoch: EpochId,
    i: int,
)
    requires
        0 <= i < kinds.len(),
        kinds[i] is SharedMoveObject,
        c.spec_object(kinds[i]->SharedMoveObject_id) is Some,
        signing_outcome(c, kinds, receiving, epoch) is Ok,
    ensures
        signing_outcome(c, kinds, receiving, epoch)->Ok_0.0[i].object == ReadKindView::Object(
            c.spec_object(kinds[i]->SharedMoveObject_id)->Some_0,
        ),
        signing_outcome(c, kinds, receiving, epoch)->Ok_0.0[i].input_object_kind == kinds[i],
{
    let k = kinds[i];
    law_shared_input_reads_latest_object(
        c,
        k->SharedMoveObject_id,
        k->SharedMoveObject_initial_shared_version,
        k->SharedMoveObject_mutable,
        epoch,
    );
    assert(k == InputObjectKind::SharedMoveObject {
        id: k->SharedMoveObject_id,
        initial_shared_version: k->SharedMoveObject_initial_shared_version,
        mutable: k->SharedMoveObject_mutable,
    });
}

/// Whether `c` is in the standard Base64 alphabet, padding included:
/// `A`-`Z`, `a`-`z`, `0`-`9`, `+`, `/` and `=`.
pub open spec fn is_base64_char(c: char) -> bool {
    let v = c as u32;
    ||| 0x41 <= v <= 0x5a
    ||| 0x61 <= v <= 0x7a
    ||| 0x30 <= v <= 0x39
    ||| v == 0x2b
    ||| v == 0x2f
    ||| v == 0x3d
}

/// No character of the Base64 alphabet is white space.
pub proof fn law_base64_chars_are_not_white_space(c: char)
    requires
        is_base64_char(c),
    ensures
        !is_white_space(c),
        c != ';',
{
}

/// A request line `{tx};{override_objects}` and a newline, with both parts
/// Base64 text that fastcrypto accepts, parses to exactly those two parts.
pub proof fn law_base64_request_line_parses_to_its_parts(tx: Seq<char>, override_objects: Seq<char>)
    requires
        base64_accepts(tx),
        base64_accepts(override_objects),
        forall|i: int| 0 <= i < tx.len() ==> is_base64_char(#[trigger] tx[i]),
        forall|i: int| 0 <= i < override_objects.len() ==> is_base64_char(#[trigger] override_objects[i]),
    ensures
        spec_parse_request(tx + seq![';'] + override_objects + seq!['\n']) == Ok::<
            (Seq<char>, Seq<char>),
            crate::request::RequestError,
        >((tx, override_objects)),
{
    if tx.len() > 0 {
        law_base64_chars_are_not_white_space(tx[0]);
    }
    if override_objects.len() > 0 {
        law_base64_chars_are_not_white_space(override_objects.last());
    }
    assert(!tx.contains(';')) by {
        if tx.contains(';') {
            let k = choose|k: int| 0 <= k < tx.len() && tx[k] == ';';
            law_base64_chars_are_not_white_space(tx[k]);
        }
    }
    law_request_line_round_trips(tx, override_objects);
}

/// The response line is the whole JSON's UTF-8 bytes, whatever its length,
/// followed by one newline.
pub proof fn law_response_line_is_whole_json(json: Seq<char>)
    ensures
        response_line(json).len() == vstd::utf8::encode_utf8(json).len() + 1,
        response_line(json).take(vstd::utf8::encode_utf8(json).len() as int)
            == vstd::utf8::encode_utf8(json),
        response_line(json).last() == 10u8,
{
    assert(response_line(json).take(vstd::utf8::encode_utf8(json).len() as int)
        =~= vstd::utf8::encode_utf8(json));
}

/// In a successful read for signing, each input reads by its kind: a package
/// as the store's package, an owned object at exactly its referenced version,
/// and a shared object as its latest version or, where it is gone, as deleted
/// at the version and by the transaction that the newest marker records.
pub proof fn law_signing_reads_each_input_by_kind<C: ObjectCacheRead + ?Sized>(
    c: &C,
    kinds: Seq<InputObjectKind>,
    receiving: Seq<ObjectRef>,
    epoch: EpochId,
    i: int,
)
    requires
        0 <= i < kinds.len(),
        signing_outcome(c, kinds, receiving, epoch) is Ok,
    ensures
        ({
            let read = signing_outcome(c, kinds, receiving, epoch)->Ok_0.0[i].object;
            match kinds[i] {
                InputObjectKind::MovePackage(id) => c.spec_package_object(id) == Ok::<
                    Option<ObjectView>,
                    SuiError,
                >(Some(read->Object_0)) && read is Object,
                InputObjectKind::ImmOrOwnedMoveObject(r) => c.spec_object_by_key(r.0, r.1) == Some(
                    read->Object_0,
                ) && read is Object,
                InputObjectKind::SharedMoveObject { id, .. } => match c.spec_object(id) {
                    Some(o) => read == ReadKindView::Object(o),
                    None => shared_deletion(c.spec_latest_marker(id, epoch)) matches Some((v, d))
                        && read == ReadKindView::DeletedSharedObject(v, d),
                },
            }
        }),
{
    lemma_first_input_error_at(c, kinds, epoch, i);
    if kinds[i] is ImmOrOwnedMoveObject {
        lemma_owned_ref_fetched(c, kinds, i);
    }
}

/// Where no input before or at `i` fails, input `i` resolves.
proof fn lemma_first_input_error_at<C: ObjectCacheRead + ?Sized>(
    c: &C,
    kinds: Seq<InputObjectKind>,
    epoch: EpochId,
    i: int,
)
    requires
        0 <= i < kinds.len(),
        first_input_error(c, kinds, epoch) is None,
    ensures
        resolve_input(c, kinds[i], epoch) is Ok,
    decreases kinds.len(),
{
    if i < kinds.len() - 1 {
        assert(kinds.drop_last()[i] == kinds[i]);
        lemma_first_input_error_at(c, kinds.drop_last(), epoch, i);
    }
}

/// An owned input of a successful batch read exists at its version.
proof fn lemma_owned_ref_fetched<C: ObjectCacheRead + ?Sized>(
    c: &C,
    kinds: Seq<InputObjectKind>,
    i: int,
)
    requires
        0 <= i < kinds.len(),
        kinds[i] is ImmOrOwnedMoveObject,
        fetch_outcome(c, owned_refs(kinds)) is Ok,
    ensures
        c.spec_object_by_key(
            kinds[i]->ImmOrOwnedMoveObject_0.0,
            kinds[i]->ImmOrOwnedMoveObject_0.1,
        ) is Some,
{
    crate::input_loader::lemma_owned_refs_prefix(kinds, i + 1);
    crate::input_loader::lemma_fetch_outcome_ok(c, owned_refs(kinds));
    assert(kinds.take(i + 1).drop_last() =~= kinds.take(i));
    assert(kinds.take(i + 1).last() == kinds[i]);
    let prefix = owned_refs(kinds.take(i + 1));
    assert(prefix.last() == kinds[i]->ImmOrOwnedMoveObject_0);
    let k = prefix.len() - 1;
    assert(owned_refs(kinds)[k] == prefix[k]);
}

/// In a successful read of received objects, each reference reads as already
/// received where the marker for its version says so, and otherwise as the
/// latest version of its object.
pub proof fn law_receiving_reads_latest_object<C: ObjectCacheRead + ?Sized>(
    c: &C,
    refs: Seq<ObjectRef>,
    epoch: EpochId,
    i: int,
)
    requires
        0 <= i < refs.len(),
        receiving_outcome(c, refs, epoch) is Ok,
    ensures
        ({
            let read = receiving_outcome(c, refs, epoch)->Ok_0[i].object;
            if c.spec_marker_value(refs[i].0, refs[i].1, epoch) == Some(MarkerValue::Received) {
                read == ReceivingKindView::PreviouslyReceivedObject
            } else {
                c.spec_object(refs[i].0) is Some && read == ReceivingKindView::Object(
                    c.spec_object(refs[i].0)->Some_0,
                )
            }
        }),
    decreases refs.len(),
{
    law_receiving_results_follow_refs(c, refs, epoch);
    if i < refs.len() - 1 {
        assert(refs.drop_last()[i] == refs[i]);
        law_receiving_reads_latest_object(c, refs.drop_last(), epoch, i);
        law_receiving_results_follow_refs(c, refs.drop_last(), epoch);
    }
}

} // verus!




