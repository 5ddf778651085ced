use std::collections::HashMap;
use vstd::prelude::*;

use crate::Key;

verus! {

broadcast use vstd::std_specs::hash::group_hash_axioms;

/// The error reported for a key that could not be fetched, or for a failure
/// that concerns no single key.
#[derive(Debug)]
pub enum KeyFetchError {
    KeyedError { key: Key, errors: Vec<anyhow::Error> },
    Other(anyhow::Error),
}

impl KeyFetchError {
    /// The error that this one reports first: the error itself for `Other`,
    /// the first of the key's errors for `KeyedError`, if it has any.
    pub fn source(&self) -> (r: Option<&anyhow::Error>)
        ensures
            match self {
                KeyFetchError::Other(err) => r == Some(err),
                KeyFetchError::KeyedError { errors, .. } => if errors@.len() > 0 {
                    r == Some(&errors@[0])
                } else {
                    r is None
                },
            },
    {
        match self {
            KeyFetchError::Other(err) => Some(err),
            KeyFetchError::KeyedError { errors, .. } => {
                if errors.len() > 0 {
                    Some(&errors[0])
                } else {
                    None
                }
            },
        }
    }
}

/// The errors met during a fetch: those of given keys, and the others.
pub struct FetchErrors {
    /// Errors encountered for specific keys.
    pub fetch_errors: HashMap<Key, Vec<anyhow::Error>>,
    /// Errors encountered that don't apply to a single key.
    pub other_errors: Vec<anyhow::Error>,
}

/// The errors recorded for `key` in `m`, none where it has no entry.
pub open spec fn errors_of(m: Map<Key, Vec<anyhow::Error>>, key: Key) -> Seq<anyhow::Error> {
    if m.contains_key(key) {
        m[key]@
    } else {
        Seq::empty()
    }
}

impl FetchErrors {
    pub fn new() -> (r: Self)
        ensures
            r.fetch_errors@ == Map::<Key, Vec<anyhow::Error>>::empty(),
            r.other_errors@ == Seq::<anyhow::Error>::empty(),
    {
        FetchErrors { fetch_errors: HashMap::new(), other_errors: Vec::new() }
    }

    /// Records `err` after the errors already recorded for `key`.
    pub fn keyed_error(&mut self, key: Key, err: anyhow::Error)
        ensures
            final(self).fetch_errors@.dom() == old(self).fetch_errors@.dom().insert(key),
            final(self).fetch_errors@[key]@ == errors_of(old(self).fetch_errors@, key).push(err),
            forall|k: Key|
                k != key && #[trigger] old(self).fetch_errors@.contains_key(k)
                    ==> final(self).fetch_errors@[k] == old(self).fetch_errors@[k],
            final(self).other_errors@ == old(self).other_errors@,
    {
        let mut errors = match self.fetch_errors.remove(&key) {
            Some(v) => v,
            None => Vec::new(),
        };
        errors.push(err);
        self.fetch_errors.insert(key, errors);
    }

    /// Records `err` after the other errors already recorded.
    pub fn other_error(&mut self, err: anyhow::Error)
        ensures
            final(self).other_errors@ == old(self).other_errors@.push(err),
            final(self).fetch_errors@ == old(self).fetch_errors@,
    {
        self.other_errors.push(err);
    }
}

} // verus!
