//! Properties that hold across the operations of a fetch.
use vstd::prelude::*;

use crate::attrs::StoreAttrs;
use crate::errors::KeyFetchError;
use crate::fetch::{actionable_attrs, all_incomplete, found_sends, found_step, FetchResult};
use crate::mode::FetchMode;
use crate::results::{consume_spec, missing_spec, single_spec};
use crate::value::StoreValue;
use crate::Key;

verus! {

/// Finding a value never makes a key pending: the pending keys after `found`
/// are among those before it.
pub proof fn lemma_found_adds_no_key<T: StoreValue>(
    pending: Map<Key, T>,
    request: T::Attrs,
    key: Key,
    value: T,
)
    ensures
        found_step(pending, request, key, value).0.dom().subset_of(pending.dom()),
{
}

/// `found` returns `true` exactly when the key was pending and leaves the pending
/// keys: a completed key is gone, a key still incomplete stays.
pub proof fn lemma_found_completes_exactly<T: StoreValue>(
    pending: Map<Key, T>,
    request: T::Attrs,
    key: Key,
    value: T,
)
    ensures
        found_step(pending, request, key, value).1 <==> (pending.contains_key(key)
            && !found_step(pending, request, key, value).0.contains_key(key)),
        forall|k: Key|
            k != key ==> (#[trigger] found_step(pending, request, key, value).0.contains_key(k)
                <==> pending.contains_key(k)),
{
}

/// The number of pending keys drops by one when `found` completes a key, and
/// stays the same otherwise.
pub proof fn lemma_found_pending_len<T: StoreValue>(
    pending: Map<Key, T>,
    request: T::Attrs,
    key: Key,
    value: T,
)
    requires
        pending.dom().finite(),
    ensures
        found_step(pending, request, key, value).0.len() == pending.len() - (if found_step(
            pending,
            request,
            key,
            value,
        ).1 {
            1int
        } else {
            0int
        }),
{
    if pending.contains_key(key) {
        let merged = value.combine_spec(pending[key]);
        if !merged.attrs_spec().has_spec(request) {
            assert(pending.insert(key, merged).dom() =~= pending.dom());
        }
    }
}

/// A fetch that requests some attribute starts with every key incomplete.
pub proof fn lemma_new_pending_incomplete<T: StoreValue>(pending: Map<Key, T>, request: T::Attrs)
    requires
        !request.is_none_spec(),
        forall|k: Key| #[trigger] pending.contains_key(k) ==> pending[k] == T::empty_spec(),
    ensures
        all_incomplete(pending, request),
{
    T::lemma_empty_has_no_attrs();
    if !all_incomplete(pending, request) {
        let k = choose|k: Key| #[trigger] pending.contains_key(k) && pending[k].attrs_spec().has_spec(request);
        T::Attrs::lemma_none_holds_only_none(request);
    }
}

/// A pending key never holds every requested attribute: `found` keeps this true.
pub proof fn lemma_found_keeps_pending_incomplete<T: StoreValue>(
    pending: Map<Key, T>,
    request: T::Attrs,
    key: Key,
    value: T,
)
    requires
        all_incomplete(pending, request),
    ensures
        all_incomplete(found_step(pending, request, key, value).0, request),
{
}

/// What was found for a key is never lost: while the key stays pending, its
/// value has every attribute found before and every attribute just found.
pub proof fn lemma_found_keeps_found_attrs<T: StoreValue>(
    pending: Map<Key, T>,
    request: T::Attrs,
    key: Key,
    value: T,
)
    requires
        pending.contains_key(key),
        found_step(pending, request, key, value).0.contains_key(key),
    ensures
        found_step(pending, request, key, value).0[key].attrs_spec().has_spec(pending[key].attrs_spec()),
        found_step(pending, request, key, value).0[key].attrs_spec().has_spec(value.attrs_spec()),
{
    T::lemma_combine_keeps_attrs(value, pending[key]);
}

/// The actionable attributes of a key are requested ones, among those the
/// store can provide, and none of them is already available.
pub proof fn lemma_actionable_is_needed_and_fetchable<T: StoreValue>(
    pending: Map<Key, T>,
    request: T::Attrs,
    key: Key,
    fetchable: T::Attrs,
    with_computable: bool,
)
    ensures
        ({
            let r = actionable_attrs(pending, request, key, fetchable, with_computable);
            let available = if pending.contains_key(key) {
                pending[key].attrs_spec()
            } else {
                <T::Attrs as StoreAttrs>::none_spec()
            };
            let available = if with_computable {
                available.with_computable_spec()
            } else {
                available
            };
            let fetchable = if with_computable {
                fetchable.with_computable_spec()
            } else {
                fetchable
            };
            &&& request.has_spec(r)
            &&& fetchable.has_spec(r)
            &&& r.intersect_spec(available).is_none_spec()
        }),
{
    let available = if pending.contains_key(key) {
        pending[key].attrs_spec()
    } else {
        <T::Attrs as StoreAttrs>::none_spec()
    };
    let available = if with_computable {
        available.with_computable_spec()
    } else {
        available
    };
    let fetchable_c = if with_computable {
        fetchable.with_computable_spec()
    } else {
        fetchable
    };
    let r = actionable_attrs(pending, request, key, fetchable, with_computable);
    if fetchable.is_none_spec() {
        T::Attrs::lemma_none_within(request);
        T::Attrs::lemma_none_within(fetchable_c);
        T::Attrs::lemma_none_intersect(available);
    } else {
        let missing = request.minus_spec(available);
        T::Attrs::lemma_intersect_within(missing, fetchable_c);
        T::Attrs::lemma_minus_within(request, available);
        T::Attrs::lemma_has_transitive(request, missing, r);
        T::Attrs::lemma_intersect_minus_disjoint(request, available, fetchable_c);
    }
}


/// `item` reports a value found for `k`.
pub open spec fn is_found_of<T>(item: FetchResult<T>, k: Key) -> bool {
    item matches Ok((key, _)) && key == k
}

/// `item` reports that fetching `k` failed.
pub open spec fn is_missing_of<T>(item: FetchResult<T>, k: Key) -> bool {
    item matches Err(KeyFetchError::KeyedError { key, .. }) && key == k
}

/// `item` reports an error of no single key.
pub open spec fn is_other_error<T>(item: FetchResult<T>) -> bool {
    item matches Err(KeyFetchError::Other(_))
}

/// Consuming the results finds exactly the keys that some result found, each
/// with the value of the last result that found it.
pub proof fn lemma_consume_keeps_last_found<T>(items: Seq<FetchResult<T>>, k: Key)
    ensures
        consume_spec(items).found.contains_key(k) <==> exists|i: int|
            0 <= i < items.len() && #[trigger] is_found_of(items[i], k),
        consume_spec(items).found.contains_key(k) ==> exists|i: int|
            0 <= i < items.len() && #[trigger] items[i] == Ok::<(Key, T), KeyFetchError>(
                (k, consume_spec(items).found[k]),
            ) && forall|j: int| i < j < items.len() ==> !is_found_of(#[trigger] items[j], k),
    decreases items.len(),
{
    if items.len() > 0 {
        let prev = items.drop_last();
        let last = items.len() - 1;
        lemma_consume_keeps_last_found(prev, k);
        assert forall|i: int| 0 <= i < prev.len() implies #[trigger] prev[i] == items[i] by {}
        if is_found_of(items[last], k) {
            assert(items[last] == Ok::<(Key, T), KeyFetchError>((k, consume_spec(items).found[k])));
        } else {
            if consume_spec(items).found.contains_key(k) {
                let i = choose|i: int|
                    0 <= i < prev.len() && #[trigger] prev[i] == Ok::<(Key, T), KeyFetchError>(
                        (k, consume_spec(prev).found[k]),
                    ) && forall|j: int| i < j < prev.len() ==> !is_found_of(#[trigger] prev[j], k);
                assert(items[i] == prev[i]);
                assert forall|j: int| i < j < items.len() implies !is_found_of(#[trigger] items[j], k) by {
                    if j < last {
                        assert(items[j] == prev[j]);
                    }
                }
            }
            if exists|i: int| 0 <= i < items.len() && #[trigger] is_found_of(items[i], k) {
                let i = choose|i: int| 0 <= i < items.len() && #[trigger] is_found_of(items[i], k);
                assert(is_found_of(prev[i], k));
            }
        }
    }
}

/// Without errors, the single value is the value of the first result.
pub proof fn lemma_single_is_first<T>(items: Seq<FetchResult<T>>)
    requires
        forall|i: int| 0 <= i < items.len() ==> #[trigger] items[i] is Ok,
    ensures
        single_spec(items) == (if items.len() == 0 {
            Ok::<Option<T>, KeyFetchError>(None)
        } else {
            Ok::<Option<T>, KeyFetchError>(Some(items[0]->Ok_0.1))
        }),
    decreases items.len(),
{
    if items.len() > 0 {
        let rest = items.drop_first();
        assert forall|i: int| 0 <= i < rest.len() implies #[trigger] rest[i] is Ok by {
            assert(rest[i] == items[i + 1]);
        }
        lemma_single_is_first(rest);
    }
}

/// The first error, when it comes before any value, is what `single` reports.
pub proof fn lemma_single_reports_leading_error<T>(items: Seq<FetchResult<T>>)
    requires
        items.len() > 0,
        items[0] is Err,
    ensures
        single_spec(items) == Err::<Option<T>, KeyFetchError>(items[0]->Err_0),
{
}

/// Without errors of no single key, the missing keys are exactly the keys of
/// the failed-key reports, in order.
pub proof fn lemma_missing_without_other_errors<T>(items: Seq<FetchResult<T>>)
    requires
        forall|i: int| 0 <= i < items.len() ==> !is_other_error(#[trigger] items[i]),
    ensures
        missing_spec(items) is Ok,
        forall|k: Key|
            #[trigger] missing_spec(items)->Ok_0.contains(k) <==> exists|i: int|
                0 <= i < items.len() && #[trigger] is_missing_of(items[i], k),
    decreases items.len(),
{
    if items.len() > 0 {
        let rest = items.drop_first();
        assert forall|i: int| 0 <= i < rest.len() implies !is_other_error(#[trigger] rest[i]) by {
            assert(rest[i] == items[i + 1]);
        }
        lemma_missing_without_other_errors(rest);
        assert forall|k: Key|
            #[trigger] missing_spec(items)->Ok_0.contains(k) <==> exists|i: int|
                0 <= i < items.len() && #[trigger] is_missing_of(items[i], k) by {
            let ks = missing_spec(rest)->Ok_0;
            let ms = missing_spec(items)->Ok_0;
            if exists|i: int| 0 <= i < items.len() && #[trigger] is_missing_of(items[i], k) {
                let i = choose|i: int| 0 <= i < items.len() && #[trigger] is_missing_of(items[i], k);
                if i > 0 {
                    assert(is_missing_of(rest[i - 1], k));
                    assert(ks.contains(k));
                    let m = choose|m: int| 0 <= m < ks.len() && ks[m] == k;
                    if items[0] is Ok {
                        assert(ms[m] == k);
                    } else {
                        assert(ms[m + 1] == k);
                    }
                } else {
                    assert(ms[0] == k);
                }
            }
            if ms.contains(k) {
                let m = choose|m: int| 0 <= m < ms.len() && ms[m] == k;
                if items[0] is Ok {
                    assert(ks.contains(k));
                    let i = choose|i: int| 0 <= i < rest.len() && #[trigger] is_missing_of(rest[i], k);
                    assert(is_missing_of(items[i + 1], k));
                } else if m == 0 {
                    assert(is_missing_of(items[0], k));
                } else {
                    assert(ks[m - 1] == k);
                    assert(ks.contains(k));
                    let i = choose|i: int| 0 <= i < rest.len() && #[trigger] is_missing_of(rest[i], k);
                    assert(is_missing_of(items[i + 1], k));
                }
            }
        }
    }
}

/// The first error of no single key ends `missing`, whatever came before it.
pub proof fn lemma_missing_reports_first_other_error<T>(items: Seq<FetchResult<T>>, i: int)
    requires
        0 <= i < items.len(),
        is_other_error(items[i]),
        forall|j: int| 0 <= j < i ==> !is_other_error(#[trigger] items[j]),
    ensures
        missing_spec(items) == Err::<Seq<Key>, anyhow::Error>(items[i]->Err_0->Other_0),
    decreases i,
{
    if i > 0 {
        let rest = items.drop_first();
        assert forall|j: int| 0 <= j < i - 1 implies !is_other_error(#[trigger] rest[j]) by {
            assert(rest[j] == items[j + 1]);
        }
        assert(rest[i - 1] == items[i]);
        lemma_missing_reports_first_other_error(rest, i - 1);
        assert(!is_other_error(items[0]));
    }
}

/// What `found` sends depends only on whether the key completes and whether the
/// mode ignores results (not on where the fetch may go): a completing key sends
/// exactly its merged value, reduced to the requested attributes, unless results
/// are ignored; a key that stays incomplete, or is not pending, sends nothing.
pub proof fn lemma_found_sends_completed_value<T: StoreValue>(
    pending: Map<Key, T>,
    request: T::Attrs,
    mode: FetchMode,
    key: Key,
    value: T,
)
    ensures
        !pending.contains_key(key) ==> found_sends(pending, request, mode, key, value)
            == Seq::<FetchResult<T>>::empty(),
        pending.contains_key(key) ==> ({
            let merged = value.combine_spec(pending[key]);
            &&& merged.attrs_spec().has_spec(request) && !mode.ignore_result ==> found_sends(
                pending,
                request,
                mode,
                key,
                value,
            ) == seq![Ok::<(Key, T), KeyFetchError>((key, merged.mask_spec(request)))]
            &&& (!merged.attrs_spec().has_spec(request) || mode.ignore_result) ==> found_sends(
                pending,
                request,
                mode,
                key,
                value,
            ) == Seq::<FetchResult<T>>::empty()
        }),
        found_sends(pending, request, mode, key, value).len() > 0 <==> (found_step(
            pending,
            request,
            key,
            value,
        ).1 && !mode.ignore_result),
{
}

/// Consuming the results records exactly the keys that some result reports as
/// failed, each with the errors of the last such report, whatever values were
/// found for them.
pub proof fn lemma_consume_keeps_last_missing<T>(items: Seq<FetchResult<T>>, k: Key)
    ensures
        consume_spec(items).missing.contains_key(k) <==> exists|i: int|
            0 <= i < items.len() && #[trigger] is_missing_of(items[i], k),
        consume_spec(items).missing.contains_key(k) ==> exists|i: int|
            0 <= i < items.len() && #[trigger] items[i] == Err::<(Key, T), KeyFetchError>(
                KeyFetchError::KeyedError { key: k, errors: consume_spec(items).missing[k] },
            ) && forall|j: int| i < j < items.len() ==> !is_missing_of(#[trigger] items[j], k),
    decreases items.len(),
{
    if items.len() > 0 {
        let prev = items.drop_last();
        let last = items.len() - 1;
        lemma_consume_keeps_last_missing(prev, k);
        assert forall|i: int| 0 <= i < prev.len() implies #[trigger] prev[i] == items[i] by {}
        if is_missing_of(items[last], k) {
            assert(items[last] == Err::<(Key, T), KeyFetchError>(
                KeyFetchError::KeyedError { key: k, errors: consume_spec(items).missing[k] },
            ));
        } else {
            if consume_spec(items).missing.contains_key(k) {
                let i = choose|i: int|
                    0 <= i < prev.len() && #[trigger] prev[i] == Err::<(Key, T), KeyFetchError>(
                        KeyFetchError::KeyedError { key: k, errors: consume_spec(prev).missing[k] },
                    ) && forall|j: int| i < j < prev.len() ==> !is_missing_of(#[trigger] prev[j], k);
                assert(items[i] == prev[i]);
                assert forall|j: int| i < j < items.len() implies !is_missing_of(#[trigger] items[j], k) by {
                    if j < last {
                        assert(items[j] == prev[j]);
                    }
                }
            }
            if exists|i: int| 0 <= i < items.len() && #[trigger] is_missing_of(items[i], k) {
                let i = choose|i: int| 0 <= i < items.len() && #[trigger] is_missing_of(items[i], k);
                assert(is_missing_of(prev[i], k));
            }
        }
    }
}

/// `single` reports the first error of the stream, wherever it comes, even
/// after a value was found.
pub proof fn lemma_single_reports_first_error<T>(items: Seq<FetchResult<T>>, i: int)
    requires
        0 <= i < items.len(),
        items[i] is Err,
        forall|j: int| 0 <= j < i ==> #[trigger] items[j] is Ok,
    ensures
        single_spec(items) == Err::<Option<T>, KeyFetchError>(items[i]->Err_0),
    decreases i,
{
    if i > 0 {
        let rest = items.drop_first();
        assert forall|j: int| 0 <= j < i - 1 implies #[trigger] rest[j] is Ok by {
            assert(rest[j] == items[j + 1]);
        }
        assert(rest[i - 1] == items[i]);
        lemma_single_reports_first_error(rest, i - 1);
        assert(items[0] is Ok);
    }
}

/// The attributes of `key` that are available, counting computable ones when asked.
pub open spec fn available_attrs<T: StoreValue>(pending: Map<Key, T>, key: Key, with_computable: bool) -> T::Attrs {
    let found = if pending.contains_key(key) {
        pending[key].attrs_spec()
    } else {
        <T::Attrs as StoreAttrs>::none_spec()
    };
    if with_computable {
        found.with_computable_spec()
    } else {
        found
    }
}

/// The attributes a store can provide, counting computable ones when asked.
pub open spec fn fetchable_attrs<A: StoreAttrs>(fetchable: A, with_computable: bool) -> A {
    if with_computable {
        fetchable.with_computable_spec()
    } else {
        fetchable
    }
}

/// Actionable attributes are complete: when the store can provide something,
/// every set of attributes that is requested, fetchable and not available lies
/// within the actionable ones.
pub proof fn lemma_actionable_is_complete<T: StoreValue>(
    pending: Map<Key, T>,
    request: T::Attrs,
    key: Key,
    fetchable: T::Attrs,
    with_computable: bool,
    x: T::Attrs,
)
    requires
        !fetchable.is_none_spec(),
        request.has_spec(x),
        fetchable_attrs(fetchable, with_computable).has_spec(x),
        x.intersect_spec(available_attrs(pending, key, with_computable)).is_none_spec(),
    ensures
        actionable_attrs(pending, request, key, fetchable, with_computable).has_spec(x),
{
    T::Attrs::lemma_minus_intersect_greatest(
        request,
        available_attrs(pending, key, with_computable),
        fetchable_attrs(fetchable, with_computable),
        x,
    );
}

/// A key of which nothing has been found has every requested attribute that
/// the store can provide actionable, with or without computable ones.
pub proof fn lemma_actionable_when_nothing_found<T: StoreValue>(
    pending: Map<Key, T>,
    request: T::Attrs,
    key: Key,
    fetchable: T::Attrs,
    with_computable: bool,
    x: T::Attrs,
)
    requires
        !fetchable.is_none_spec(),
        pending.contains_key(key) ==> pending[key].attrs_spec().is_none_spec(),
        request.has_spec(x),
        fetchable.has_spec(x),
    ensures
        actionable_attrs(pending, request, key, fetchable, with_computable).has_spec(x),
{
    let found = if pending.contains_key(key) {
        pending[key].attrs_spec()
    } else {
        <T::Attrs as StoreAttrs>::none_spec()
    };
    T::Attrs::lemma_none_is_none();
    // Nothing was found, and nothing is computable from nothing.
    if with_computable {
        T::Attrs::lemma_with_computable_of_none(found);
    }
    T::Attrs::lemma_intersect_none(x, available_attrs(pending, key, with_computable));
    if with_computable {
        T::Attrs::lemma_with_computable_extends(fetchable);
        T::Attrs::lemma_has_transitive(fetchable.with_computable_spec(), fetchable, x);
    }
    lemma_actionable_is_complete(pending, request, key, fetchable, with_computable, x);
}

/// The error of no single key that `item` reports, if it reports one.
pub open spec fn other_error_of<T>(item: FetchResult<T>) -> Option<anyhow::Error> {
    match item {
        Err(KeyFetchError::Other(e)) => Some(e),
        _ => None,
    }
}

/// Consuming the results keeps every error of no single key, in the order of
/// the stream, and nothing else among them.
pub proof fn lemma_consume_keeps_other_errors<T>(items: Seq<FetchResult<T>>)
    ensures
        consume_spec(items).errors == items.filter_map(|item: FetchResult<T>| other_error_of(item)),
    decreases items.len(),
{
    if items.len() > 0 {
        lemma_consume_keeps_other_errors(items.drop_last());
        if let Err(KeyFetchError::Other(e)) = items.last() {
            assert(consume_spec(items).errors =~= consume_spec(items.drop_last()).errors + seq![e]);
        }
    }
}

/// Newly found parts replace those found before: when the value just found
/// holds every requested attribute by itself, a pending key completes and what
/// is sent (unless results are ignored) is that value, reduced to the request.
pub proof fn lemma_found_new_parts_win<T: StoreValue>(
    pending: Map<Key, T>,
    request: T::Attrs,
    mode: FetchMode,
    key: Key,
    value: T,
)
    requires
        pending.contains_key(key),
        value.attrs_spec().has_spec(request),
    ensures
        found_step(pending, request, key, value).1,
        !mode.ignore_result ==> found_sends(pending, request, mode, key, value) == seq![
            Ok::<(Key, T), KeyFetchError>((key, value.mask_spec(request))),
        ],
{
    let merged = value.combine_spec(pending[key]);
    T::lemma_combine_keeps_attrs(value, pending[key]);
    T::Attrs::lemma_has_transitive(merged.attrs_spec(), value.attrs_spec(), request);
    T::lemma_combine_prefers_left(value, pending[key], request);
}
} // verus!
