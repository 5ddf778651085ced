use std::collections::HashMap;
use vstd::prelude::*;

use crate::attrs::StoreAttrs;
use crate::errors::{FetchErrors, KeyFetchError};
use crate::keys::keys_of;
use crate::mode::FetchMode;
use crate::outside::{error_from_message, ReportChannel};
use crate::value::StoreValue;
use crate::Key;

verus! {

broadcast use vstd::std_specs::hash::group_hash_axioms;

/// What a fetch reports for one key: the key and its value, or an error.
pub type FetchResult<T> = Result<(Key, T), KeyFetchError>;

/// The state shared by the stores that take part in one fetch.
#[verifier::reject_recursive_types(T)]
pub struct CommonFetchState<T: StoreValue> {
    /// Requested keys for which at least some attributes haven't been found,
    /// with what has been found of them so far.
    pub pending: HashMap<Key, T>,
    /// Which attributes were requested.
    pub request_attrs: T::Attrs,
    /// Where completed values and errors are reported.
    pub found_tx: ReportChannel<FetchResult<T>>,
    pub mode: FetchMode,
}

/// The pending map after `value` is found for `key`, and whether that completed the key:
/// the new value's parts win over the ones found before; once every requested
/// attribute is present the key leaves the map.
pub open spec fn found_step<T: StoreValue>(
    pending: Map<Key, T>,
    request: T::Attrs,
    key: Key,
    value: T,
) -> (Map<Key, T>, bool) {
    if pending.contains_key(key) {
        let merged = value.combine_spec(pending[key]);
        if merged.attrs_spec().has_spec(request) {
            (pending.remove(key), true)
        } else {
            (pending.insert(key, merged), false)
        }
    } else {
        (pending, false)
    }
}

/// What `found` sends: when it completes `key` and the mode wants results, the
/// key with its value reduced to the requested attributes; nothing otherwise.
pub open spec fn found_sends<T: StoreValue>(
    pending: Map<Key, T>,
    request: T::Attrs,
    mode: FetchMode,
    key: Key,
    value: T,
) -> Seq<FetchResult<T>> {
    if pending.contains_key(key) && !mode.ignore_result {
        let merged = value.combine_spec(pending[key]);
        if merged.attrs_spec().has_spec(request) {
            seq![Ok((key, merged.mask_spec(request)))]
        } else {
            Seq::empty()
        }
    } else {
        Seq::empty()
    }
}

/// The attributes of `key` that are requested, not yet available and among
/// `fetchable`; with `with_computable`, what can be computed counts on both sides.
pub open spec fn actionable_attrs<T: StoreValue>(
    pending: Map<Key, T>,
    request: T::Attrs,
    key: Key,
    fetchable: T::Attrs,
    with_computable: bool,
) -> T::Attrs {
    if fetchable.is_none_spec() {
        <T::Attrs as StoreAttrs>::none_spec()
    } else {
        let available = if pending.contains_key(key) {
            pending[key].attrs_spec()
        } else {
            <T::Attrs as StoreAttrs>::none_spec()
        };
        let available = if with_computable {
            available.with_computable_spec()
        } else {
            available
        };
        let fetchable = if with_computable {
            fetchable.with_computable_spec()
        } else {
            fetchable
        };
        request.minus_spec(available).intersect_spec(fetchable)
    }
}

/// Every pending value still lacks some requested attribute.
pub open spec fn all_incomplete<T: StoreValue>(pending: Map<Key, T>, request: T::Attrs) -> bool {
    forall|k: Key| #[trigger] pending.contains_key(k) ==> !pending[k].attrs_spec().has_spec(request)
}

/// The message recorded for a key that is still pending when the fetch ends.
pub open spec fn missing_message_spec(mode: FetchMode) -> Seq<char> {
    if mode.is_local_spec() {
        "not found locally and not contacting server"@
    } else {
        "server did not provide content"@
    }
}

/// The message recorded for a key that is still pending when the fetch ends.
pub fn missing_message(mode: FetchMode) -> (r: &'static str)
    ensures
        r@ == missing_message_spec(mode),
{
    if mode.is_local() {
        "not found locally and not contacting server"
    } else if mode.is_remote() {
        // A key that fails to fetch should already have a keyed error.
        "server did not provide content"
    } else {
        "server did not provide content"
    }
}

/// `e` reports the errors of one key of `fetch_errors` or `pending`: the recorded
/// errors where there are some, one error otherwise.
pub open spec fn reports_key<T>(
    e: KeyFetchError,
    fetch_errors: Map<Key, Vec<anyhow::Error>>,
    pending: Map<Key, T>,
) -> bool {
    &&& e matches KeyFetchError::KeyedError { key, errors }
    &&& fetch_errors.contains_key(key) || pending.contains_key(key)
    &&& fetch_errors.contains_key(key) ==> errors == fetch_errors[key]
    &&& !fetch_errors.contains_key(key) ==> errors@.len() == 1
}

/// `e` is the error of key `k`.
pub open spec fn is_error_of(e: KeyFetchError, k: Key) -> bool {
    e matches KeyFetchError::KeyedError { key, .. } && key == k
}

/// The key of a keyed error.
pub open spec fn error_key(e: KeyFetchError) -> Key {
    match e {
        KeyFetchError::KeyedError { key, .. } => key,
        KeyFetchError::Other(_) => 0,
    }
}

/// `report` is the report that ends a fetch with `pending` keys left and errors
/// `fetch_errors` and `other_errors` recorded: one `KeyedError` for each key
/// with recorded errors or still pending (each key once, in any order, carrying
/// the recorded errors where there are some and one error otherwise), then
/// `Other` for each of `other_errors`, in order.
pub open spec fn is_error_report<T>(
    report: Seq<KeyFetchError>,
    pending: Map<Key, T>,
    fetch_errors: Map<Key, Vec<anyhow::Error>>,
    other_errors: Seq<anyhow::Error>,
) -> bool {
    let n = report.len() - other_errors.len();
    &&& report.len() >= other_errors.len()
    &&& forall|i: int| 0 <= i < n ==> reports_key(#[trigger] report[i], fetch_errors, pending)
    &&& forall|k: Key|
        fetch_errors.contains_key(k) || pending.contains_key(k) ==> exists|i: int|
            0 <= i < n && #[trigger] is_error_of(report[i], k)
    &&& forall|i: int, j: int| 0 <= i < j < n ==> error_key(report[i]) != error_key(report[j])
    &&& forall|j: int|
        0 <= j < other_errors.len() ==> report[n + j] == KeyFetchError::Other(#[trigger] other_errors[j])
}

/// The errors that end a fetch, in the order in which they are reported: one
/// `KeyedError` for each key with recorded errors or still pending (each key
/// once, in no fixed order), then the errors of no single key, in order.
/// A pending key without recorded errors gets one error whose message
/// is `missing_message(mode)`.
pub fn error_report<T>(pending: &HashMap<Key, T>, mode: FetchMode, errors: FetchErrors) -> (r: Vec<KeyFetchError>)
    ensures
        is_error_report(r@, pending@, errors.fetch_errors@, errors.other_errors@),
{
    let ghost fe = errors.fetch_errors@;
    let ghost oe = errors.other_errors@;
    let FetchErrors { fetch_errors, other_errors } = errors;
    let mut incomplete = fetch_errors;
    let msg = missing_message(mode);
    let pending_keys = keys_of(pending);
    for i in 0..pending_keys.len()
        invariant
            pending_keys@.to_set() == pending@.dom(),
            incomplete@.dom() == fe.dom() + pending_keys@.take(i as int).to_set(),
            forall|k: Key| #[trigger] fe.contains_key(k) ==> incomplete@[k] == fe[k],
            forall|k: Key|
                #[trigger] incomplete@.contains_key(k) && !fe.contains_key(k) ==> incomplete@[k]@.len() == 1,
    {
        let key = pending_keys[i];
        if !incomplete.contains_key(&key) {
            let mut errs: Vec<anyhow::Error> = Vec::new();
            errs.push(error_from_message(msg));
            incomplete.insert(key, errs);
        }
        proof {
            broadcast use vstd::seq_lib::group_seq_properties;
            assert(pending_keys@.take(i + 1) =~= pending_keys@.take(i as int).push(key));
            assert(incomplete@.dom() =~= fe.dom() + pending_keys@.take(i + 1).to_set());
        }
    }
    proof {
        assert(pending_keys@.take(pending_keys@.len() as int) =~= pending_keys@);
    }
    let ghost m0 = incomplete@;
    let keys = keys_of(&incomplete);
    let mut r: Vec<KeyFetchError> = Vec::new();
    for i in 0..keys.len()
        invariant
            keys@.to_set() == m0.dom(),
            keys@.no_duplicates(),
            m0.dom() == fe.dom() + pending@.dom(),
            forall|k: Key| #[trigger] fe.contains_key(k) ==> m0[k] == fe[k],
            forall|k: Key| #[trigger] m0.contains_key(k) && !fe.contains_key(k) ==> m0[k]@.len() == 1,
            r@.len() == i,
            forall|j: int|
                0 <= j < i ==> #[trigger] r@[j] == (KeyFetchError::KeyedError {
                    key: keys@[j],
                    errors: m0[keys@[j]],
                }),
            forall|k: Key|
                #[trigger] incomplete@.contains_key(k) <==> (m0.contains_key(k) && !keys@.take(
                    i as int,
                ).contains(k)),
            forall|k: Key| #[trigger] incomplete@.contains_key(k) ==> incomplete@[k] == m0[k],
    {
        let key = keys[i];
        proof {
            assert(keys@.to_set().contains(key));
            assert(!keys@.take(i as int).contains(key));
        }
        let errs = match incomplete.remove(&key) {
            Some(e) => e,
            None => Vec::new(),
        };
        r.push(KeyFetchError::KeyedError { key, errors: errs });
        proof {
            assert(keys@.take(i + 1) =~= keys@.take(i as int).push(key));
            assert forall|k: Key|
                #[trigger] incomplete@.contains_key(k) <==> (m0.contains_key(k) && !keys@.take(
                    i + 1,
                ).contains(k)) by {
                broadcast use vstd::seq_lib::group_seq_properties;
                assert(keys@.take(i + 1).contains(k) <==> (keys@.take(i as int).contains(k) || k == key));
            }
        }
    }
    let ghost n = r@.len();
    for err in it: other_errors.into_iter()
        invariant
            it.seq() == oe,
            n == keys@.len(),
            r@.len() == n + it.index(),
            forall|j: int| 0 <= j < it.index() ==> #[trigger] r@[n + j] == KeyFetchError::Other(oe[j]),
            forall|j: int|
                0 <= j < n ==> #[trigger] r@[j] == (KeyFetchError::KeyedError {
                    key: keys@[j],
                    errors: m0[keys@[j]],
                }),
    {
        r.push(KeyFetchError::Other(err));
    }
    proof {
        assert(r@.len() - oe.len() == n);
        assert forall|i: int| 0 <= i < n implies reports_key(#[trigger] r@[i], fe, pending@) by {
            assert(keys@.to_set().contains(keys@[i]));
        }
        assert forall|k: Key|
            fe.contains_key(k) || pending@.contains_key(k) implies exists|i: int|
                0 <= i < r@.len() - oe.len() && #[trigger] is_error_of(r@[i], k) by {
            assert(keys@.to_set().contains(k));
            let i = choose|i: int| 0 <= i < keys@.len() && keys@[i] == k;
            assert(is_error_of(r@[i], k));
        }
        assert forall|i: int, j: int| 0 <= i < j < n implies error_key(r@[i]) != error_key(r@[j]) by {
            assert(error_key(r@[i]) == keys@[i]);
            assert(error_key(r@[j]) == keys@[j]);
        }
        assert forall|j: int| 0 <= j < oe.len() implies r@[n + j] == KeyFetchError::Other(
            #[trigger] oe[j],
        ) by {
            assert(r@[n + j] == KeyFetchError::Other(oe[j]));
        }
    }
    r
}

impl<T: StoreValue> CommonFetchState<T> {
    /// Starts a fetch of `attrs` for each of `keys`, with nothing found yet.
    pub fn new(
        keys: Vec<Key>,
        attrs: T::Attrs,
        found_tx: crossbeam::channel::Sender<FetchResult<T>>,
        mode: FetchMode,
    ) -> (r: Self)
        ensures
            r.pending@.dom() == keys@.to_set(),
            forall|k: Key| #[trigger] r.pending@.contains_key(k) ==> r.pending@[k] == T::empty_spec(),
            r.request_attrs == attrs,
            r.found_tx.sender() == found_tx,
            r.found_tx.sent() == Seq::<FetchResult<T>>::empty(),
            r.mode == mode,
    {
        let mut pending: HashMap<Key, T> = HashMap::new();
        for i in 0..keys.len()
            invariant
                pending@.dom() == keys@.take(i as int).to_set(),
                forall|k: Key| #[trigger] pending@.contains_key(k) ==> pending@[k] == T::empty_spec(),
        {
            pending.insert(keys[i], T::empty());
            proof {
                assert(keys@.take(i + 1) =~= keys@.take(i as int).push(keys@[i as int]));
                broadcast use vstd::seq_lib::group_seq_properties;
                assert(pending@.dom() =~= keys@.take(i + 1).to_set());
            }
        }
        proof {
            assert(keys@.take(keys@.len() as int) =~= keys@);
        }
        CommonFetchState {
            pending,
            request_attrs: attrs,
            found_tx: ReportChannel::new(found_tx),
            mode,
        }
    }

    /// The number of keys still pending.
    pub fn pending_len(&self) -> (r: usize)
        ensures
            r == self.pending@.len(),
    {
        self.pending.len()
    }

    /// The attributes of `key` that are worth asking a store for: requested, not
    /// yet available, and among what the store can provide (`fetchable`).
    /// With `with_computable`, attributes that can be computed from the available
    /// ones count as available, and those computable from `fetchable` as fetchable.
    pub fn actionable(&self, key: Key, fetchable: T::Attrs, with_computable: bool) -> (r: T::Attrs)
        ensures
            r == actionable_attrs(self.pending@, self.request_attrs, key, fetchable, with_computable),
    {
        if fetchable.none() {
            return <T::Attrs as StoreAttrs>::none_attrs();
        }
        let available = match self.pending.get(&key) {
            Some(f) => f.attrs(),
            None => <T::Attrs as StoreAttrs>::none_attrs(),
        };
        let (available, fetchable) = if with_computable {
            (available.with_computable(), fetchable.with_computable())
        } else {
            (available, fetchable)
        };
        let missing = self.request_attrs.minus(available);
        missing.intersect(fetchable)
    }

    /// The pending keys that have some actionable attribute, each once, with those attributes.
    pub fn pending(&self, fetchable: T::Attrs, with_computable: bool) -> (r: Vec<(Key, T::Attrs)>)
        ensures
            forall|i: int|
                0 <= i < r@.len() ==> {
                    let (k, a) = #[trigger] r@[i];
                    &&& self.pending@.contains_key(k)
                    &&& a == actionable_attrs(self.pending@, self.request_attrs, k, fetchable, with_computable)
                    &&& !a.is_none_spec()
                },
            forall|k: Key|
                #[trigger] self.pending@.contains_key(k) && !actionable_attrs(
                    self.pending@,
                    self.request_attrs,
                    k,
                    fetchable,
                    with_computable,
                ).is_none_spec() ==> exists|i: int| 0 <= i < r@.len() && #[trigger] r@[i].0 == k,
            forall|i: int, j: int| 0 <= i < j < r@.len() ==> r@[i].0 != r@[j].0,
    {
        let keys = keys_of(&self.pending);
        let mut r: Vec<(Key, T::Attrs)> = Vec::new();
        for i in 0..keys.len()
            invariant
                keys@.to_set() == self.pending@.dom(),
                keys@.no_duplicates(),
                forall|m: int|
                    0 <= m < r@.len() ==> {
                        let (k, a) = #[trigger] r@[m];
                        &&& self.pending@.contains_key(k)
                        &&& a == actionable_attrs(self.pending@, self.request_attrs, k, fetchable, with_computable)
                        &&& !a.is_none_spec()
                        &&& exists|n: int| 0 <= n < i && keys@[n] == k
                    },
                forall|n: int|
                    0 <= n < i && !actionable_attrs(
                        self.pending@,
                        self.request_attrs,
                        #[trigger] keys@[n],
                        fetchable,
                        with_computable,
                    ).is_none_spec() ==> exists|m: int| 0 <= m < r@.len() && r@[m].0 == keys@[n],
                forall|m1: int, m2: int| 0 <= m1 < m2 < r@.len() ==> r@[m1].0 != r@[m2].0,
        {
            let key = keys[i];
            proof {
                assert(keys@.to_set().contains(key));
            }
            let ghost old_r = r@;
            let actionable = self.actionable(key, fetchable, with_computable);
            if actionable.any() {
                r.push((key, actionable));
            }
            proof {
                assert forall|n: int|
                    0 <= n < i + 1 && !actionable_attrs(
                        self.pending@,
                        self.request_attrs,
                        #[trigger] keys@[n],
                        fetchable,
                        with_computable,
                    ).is_none_spec() implies exists|m: int| 0 <= m < r@.len() && r@[m].0 == keys@[n] by {
                    if n < i {
                        let m = choose|m: int| 0 <= m < old_r.len() && old_r[m].0 == keys@[n];
                        assert(r@[m] == old_r[m]);
                    } else {
                        assert(r@[r@.len() - 1].0 == keys@[n]);
                    }
                }
            }
        }
        proof {
            assert forall|k: Key|
                #[trigger] self.pending@.contains_key(k) && !actionable_attrs(
                    self.pending@,
                    self.request_attrs,
                    k,
                    fetchable,
                    with_computable,
                ).is_none_spec() implies exists|i: int| 0 <= i < r@.len() && #[trigger] r@[i].0 == k by {
                assert(keys@.to_set().contains(k));
                let n = choose|n: int| 0 <= n < keys@.len() && keys@[n] == k;
                assert(!actionable_attrs(self.pending@, self.request_attrs, keys@[n], fetchable, with_computable).is_none_spec());
            }
        }
        r
    }

    /// Records that `value` was found for `key`. The found parts take the place
    /// of those found before; once every requested attribute is there the key
    /// stops being pending, its value (with only the requested attributes) is
    /// sent on `found_tx` unless the mode ignores results, and `true` is returned.
    /// A key that is not pending is left alone.
    pub fn found(&mut self, key: Key, value: T) -> (r: bool)
        ensures
            (final(self).pending@, r) == found_step(old(self).pending@, old(self).request_attrs, key, value),
            final(self).request_attrs == old(self).request_attrs,
            final(self).found_tx.sender() == old(self).found_tx.sender(),
            final(self).mode == old(self).mode,
            final(self).found_tx.sent() == old(self).found_tx.sent() + found_sends(
                old(self).pending@,
                old(self).request_attrs,
                old(self).mode,
                key,
                value,
            ),
    {
        proof {
            assert(self.found_tx.sent() + Seq::<FetchResult<T>>::empty() =~= self.found_tx.sent());
        }
        match self.pending.remove(&key) {
            Some(available) => {
                let new = value.combine(available);
                if new.attrs().has(self.request_attrs) {
                    if !self.mode.ignore_result() {
                        let new = new.mask(self.request_attrs);
                        let ghost before = self.found_tx.sent();
                        self.found_tx.send(Ok((key, new)));
                        proof {
                            assert(self.found_tx.sent() =~= before + seq![Ok((key, new))]);
                        }
                    }
                    true
                } else {
                    self.pending.insert(key, new);
                    false
                }
            },
            None => false,
        }
    }

    /// Ends the fetch: sends on `found_tx`, as `Err`, the report of
    /// `error_report`: the keys still pending and those with recorded errors,
    /// then the other errors. Returns the record of everything sent on
    /// `found_tx`, this report last.
    pub fn results(self, errors: FetchErrors) -> (sent: Ghost<Seq<FetchResult<T>>>)
        ensures
            exists|report: Seq<KeyFetchError>|
                is_error_report(report, self.pending@, errors.fetch_errors@, errors.other_errors@)
                    && sent@ == self.found_tx.sent() + report.map_values(
                    |e: KeyFetchError| Err::<(Key, T), KeyFetchError>(e),
                ),
    {
        let CommonFetchState { pending, request_attrs: _, found_tx, mode } = self;
        let mut found_tx = found_tx;
        let report = error_report(&pending, mode, errors);
        let ghost rep = report@;
        let ghost start = found_tx.sent();
        for e in it: report.into_iter()
            invariant
                it.seq() == rep,
                found_tx.sent() == start + rep.take(it.index()).map_values(
                    |e: KeyFetchError| Err::<(Key, T), KeyFetchError>(e),
                ),
        {
            let ghost sent_e = e;
            found_tx.send(Err(e));
            proof {
                assert(rep.take(it.index() + 1) =~= rep.take(it.index()).push(sent_e));
                assert(start + rep.take(it.index() + 1).map_values(
                    |x: KeyFetchError| Err::<(Key, T), KeyFetchError>(x),
                ) =~= (start + rep.take(it.index()).map_values(
                    |x: KeyFetchError| Err::<(Key, T), KeyFetchError>(x),
                )).push(Err(sent_e)));
            }
        }
        proof {
            assert(rep.take(rep.len() as int) =~= rep);
        }
        Ghost(found_tx.sent())
    }
}

} // verus!
