//! How the stream of per-key fetch results is folded: into maps of found
//! values and failed keys, into the list of failed keys, or into a single value.
use std::collections::HashMap;
use vstd::prelude::*;

use crate::errors::KeyFetchError;
use crate::fetch::FetchResult;
use crate::Key;

verus! {

broadcast use vstd::std_specs::hash::group_hash_axioms;

/// Everything a fetch reported: the values found, the errors of each failed
/// key, and the errors of no single key.
#[verifier::reject_recursive_types(T)]
pub struct ConsumedResults<T> {
    pub found: HashMap<Key, T>,
    pub missing: HashMap<Key, Vec<anyhow::Error>>,
    pub errors: Vec<anyhow::Error>,
}

/// The abstract contents of `ConsumedResults`.
pub struct ConsumedView<T> {
    pub found: Map<Key, T>,
    pub missing: Map<Key, Vec<anyhow::Error>>,
    pub errors: Seq<anyhow::Error>,
}

impl<T> ConsumedResults<T> {
    pub open spec fn view_of(&self) -> ConsumedView<T> {
        ConsumedView { found: self.found@, missing: self.missing@, errors: self.errors@ }
    }
}

/// The effect of one reported result: a found value is recorded under its key,
/// a key's errors under that key (a later report for a key replaces an
/// earlier one), and any other error is appended.
pub open spec fn consume_step<T>(acc: ConsumedView<T>, item: FetchResult<T>) -> ConsumedView<T> {
    match item {
        Ok((key, value)) => ConsumedView { found: acc.found.insert(key, value), ..acc },
        Err(KeyFetchError::KeyedError { key, errors }) => ConsumedView {
            missing: acc.missing.insert(key, errors),
            ..acc
        },
        Err(KeyFetchError::Other(err)) => ConsumedView { errors: acc.errors.push(err), ..acc },
    }
}

/// Everything reported by `items`, taken in order.
pub open spec fn consume_spec<T>(items: Seq<FetchResult<T>>) -> ConsumedView<T>
    decreases items.len(),
{
    if items.len() == 0 {
        ConsumedView { found: Map::empty(), missing: Map::empty(), errors: Seq::empty() }
    } else {
        consume_step(consume_spec(items.drop_last()), items.last())
    }
}

/// The keys whose fetch failed, in order, unless an error of no single key
/// came first, in which case that error.
pub open spec fn missing_spec<T>(items: Seq<FetchResult<T>>) -> Result<Seq<Key>, anyhow::Error>
    decreases items.len(),
{
    if items.len() == 0 {
        Ok(Seq::empty())
    } else {
        match items[0] {
            Ok(_) => missing_spec(items.drop_first()),
            Err(KeyFetchError::KeyedError { key, .. }) => match missing_spec(items.drop_first()) {
                Ok(keys) => Ok(seq![key].add(keys)),
                Err(e) => Err(e),
            },
            Err(KeyFetchError::Other(err)) => Err(err),
        }
    }
}

/// The first value found, unless an error came first, in which case that error.
pub open spec fn single_spec<T>(items: Seq<FetchResult<T>>) -> Result<Option<T>, KeyFetchError>
    decreases items.len(),
{
    if items.len() == 0 {
        Ok(None)
    } else {
        match items[0] {
            Ok((_, value)) => match single_spec(items.drop_first()) {
                Ok(_) => Ok(Some(value)),
                Err(e) => Err(e),
            },
            Err(e) => Err(e),
        }
    }
}

impl<T> ConsumedResults<T> {
    /// Nothing reported yet.
    pub fn new() -> (r: Self)
        ensures
            r.view_of() == consume_spec(Seq::<FetchResult<T>>::empty()),
    {
        ConsumedResults { found: HashMap::new(), missing: HashMap::new(), errors: Vec::new() }
    }

    /// Takes in one reported result.
    pub fn add(&mut self, item: FetchResult<T>)
        ensures
            final(self).view_of() == consume_step(old(self).view_of(), item),
    {
        match item {
            Ok((key, value)) => {
                self.found.insert(key, value);
            },
            Err(err) => match err {
                KeyFetchError::KeyedError { key, errors } => {
                    self.missing.insert(key, errors);
                },
                KeyFetchError::Other(err) => {
                    self.errors.push(err);
                },
            },
        }
    }

    /// The found values, the errors of failed keys, and the other errors.
    pub fn into_parts(self) -> (r: (HashMap<Key, T>, HashMap<Key, Vec<anyhow::Error>>, Vec<anyhow::Error>))
        ensures
            r.0@ == self.found@,
            r.1@ == self.missing@,
            r.2@ == self.errors@,
    {
        (self.found, self.missing, self.errors)
    }
}

/// Folds all of `items` into the values found, the errors of failed keys,
/// and the other errors.
pub fn consume_results<T>(items: Vec<FetchResult<T>>) -> (r: ConsumedResults<T>)
    ensures
        r.view_of() == consume_spec(items@),
{
    let ghost s = items@;
    let mut acc = ConsumedResults::new();
    for item in it: items.into_iter()
        invariant
            it.seq() == s,
            acc.view_of() == consume_spec(s.take(it.index())),
    {
        proof {
            assert(s.take(it.index() + 1).drop_last() =~= s.take(it.index()));
        }
        acc.add(item);
    }
    proof {
        assert(s.take(s.len() as int) =~= s);
    }
    acc
}

/// One step of `missing_keys`: records the key of a failed key, returns an
/// error of no single key, and passes over a found value.
pub fn missing_step<T>(keys: &mut Vec<Key>, item: FetchResult<T>) -> (r: Option<anyhow::Error>)
    ensures
        match item {
            Ok(_) => r is None && final(keys)@ == old(keys)@,
            Err(KeyFetchError::KeyedError { key, .. }) => r is None && final(keys)@ == old(keys)@.push(key),
            Err(KeyFetchError::Other(err)) => r == Some(err) && final(keys)@ == old(keys)@,
        },
{
    match item {
        Ok(_) => None,
        Err(err) => match err {
            KeyFetchError::KeyedError { key, .. } => {
                keys.push(key);
                None
            },
            KeyFetchError::Other(err) => Some(err),
        },
    }
}

/// `found` followed by what `rest` reports.
pub open spec fn prepend_keys(found: Seq<Key>, rest: Result<Seq<Key>, anyhow::Error>) -> Result<
    Seq<Key>,
    anyhow::Error,
> {
    match rest {
        Ok(keys) => Ok(found + keys),
        Err(e) => Err(e),
    }
}

/// The keys of all failed keys in `items`, in order; the first error of no
/// single key instead, if there is one.
pub fn missing_keys<T>(items: Vec<FetchResult<T>>) -> (r: Result<Vec<Key>, anyhow::Error>)
    ensures
        match r {
            Ok(keys) => missing_spec(items@) == Ok::<Seq<Key>, anyhow::Error>(keys@),
            Err(e) => missing_spec(items@) == Err::<Seq<Key>, anyhow::Error>(e),
        },
{
    let ghost s = items@;
    let mut keys: Vec<Key> = Vec::new();
    proof {
        assert(s.skip(0) =~= s);
        if let Ok(ks) = missing_spec(s) {
            assert(Seq::<Key>::empty() + ks =~= ks);
        }
    }
    for item in it: items.into_iter()
        invariant
            it.seq() == s,
            missing_spec(s) == prepend_keys(keys@, missing_spec(s.skip(it.index()))),
    {
        let ghost i = it.index();
        let ghost old_keys = keys@;
        let ghost it0 = item;
        proof {
            assert(s.skip(i).drop_first() =~= s.skip(i + 1));
            assert(s.skip(i)[0] == item);
        }
        match missing_step(&mut keys, item) {
            Some(err) => {
                return Err(err);
            },
            None => {
                proof {
                    if let Err(KeyFetchError::KeyedError { key, .. }) = it0 {
                        if let Ok(ks) = missing_spec(s.skip(i + 1)) {
                            assert(old_keys + (seq![key] + ks) =~= old_keys.push(key) + ks);
                        }
                    }
                }
            },
        }
    }
    proof {
        assert(s.skip(s.len() as int) =~= Seq::<FetchResult<T>>::empty());
        assert(keys@ + Seq::<Key>::empty() =~= keys@);
    }
    Ok(keys)
}

/// One step of `single_value`: keeps the first value found and returns the
/// error of an error report.
pub fn single_step<T>(first: &mut Option<T>, item: FetchResult<T>) -> (r: Option<KeyFetchError>)
    ensures
        match item {
            Ok((_, value)) => r is None && *final(first) == (if *old(first) is None {
                Some(value)
            } else {
                *old(first)
            }),
            Err(e) => r == Some(e) && *final(first) == *old(first),
        },
{
    match item {
        Ok((_, value)) => {
            if first.is_none() {
                *first = Some(value);
            }
            None
        },
        Err(e) => Some(e),
    }
}

/// What `single_spec` gives when `first` was found before `rest`.
pub open spec fn after_first<T>(first: Option<T>, rest: Result<Option<T>, KeyFetchError>) -> Result<
    Option<T>,
    KeyFetchError,
> {
    match first {
        None => rest,
        Some(v) => match rest {
            Ok(_) => Ok(Some(v)),
            Err(e) => Err(e),
        },
    }
}

/// The first value found in `items`; the first error instead, if one comes
/// before the end.
pub fn single_value<T>(items: Vec<FetchResult<T>>) -> (r: Result<Option<T>, KeyFetchError>)
    ensures
        r == single_spec(items@),
{
    let ghost s = items@;
    let mut first: Option<T> = None;
    proof {
        assert(s.skip(0) =~= s);
    }
    for item in it: items.into_iter()
        invariant
            it.seq() == s,
            single_spec(s) == after_first(first, single_spec(s.skip(it.index()))),
    {
        let ghost i = it.index();
        proof {
            assert(s.skip(i).drop_first() =~= s.skip(i + 1));
            assert(s.skip(i)[0] == item);
        }
        match single_step(&mut first, item) {
            Some(e) => {
                return Err(e);
            },
            None => {},
        }
    }
    proof {
        assert(s.skip(s.len() as int) =~= Seq::<FetchResult<T>>::empty());
    }
    Ok(first)
}
} // verus!
