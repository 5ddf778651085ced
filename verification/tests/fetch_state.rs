use std::collections::HashMap;

use revisionstore::{
    error_report, keys_of, missing_message, CommonFetchState, FetchErrors, FetchMode, FetchResult,
    FileAttributes, FileValue, KeyFetchError, StoreAttrs, StoreValue,
};

const NONE: FileAttributes = FileAttributes { content: false, aux_data: false };
const CONTENT: FileAttributes = FileAttributes { content: true, aux_data: false };
const AUX: FileAttributes = FileAttributes { content: false, aux_data: true };
const ALL: FileAttributes = FileAttributes { content: true, aux_data: true };

fn mode(local: bool, remote: bool, ignore_result: bool) -> FetchMode {
    FetchMode { local, remote, ignore_result }
}

fn state(
    keys: Vec<u64>,
    attrs: FileAttributes,
    m: FetchMode,
) -> (
    CommonFetchState<FileValue>,
    crossbeam::channel::Receiver<FetchResult<FileValue>>,
) {
    let (tx, rx) = crossbeam::channel::unbounded();
    (CommonFetchState::new(keys, attrs, tx, m), rx)
}

fn content(bytes: &[u8]) -> FileValue {
    FileValue { content: Some(bytes.to_vec()), aux_data: None }
}

fn aux(size: u64) -> FileValue {
    FileValue { content: None, aux_data: Some(size) }
}

#[test]
fn attribute_set_operations() {
    assert!(NONE.none());
    assert!(!NONE.any());
    assert!(ALL.any());
    assert_eq!(ALL.minus(CONTENT), AUX);
    assert_eq!(ALL.intersect(CONTENT), CONTENT);
    assert_eq!(AUX.intersect(CONTENT), NONE);
    assert!(ALL.has(AUX));
    assert!(!AUX.has(ALL));
    assert!(AUX.has(NONE));
    assert_eq!(CONTENT.with_computable(), ALL);
    assert_eq!(AUX.with_computable(), AUX);
    assert_eq!(FileAttributes::none_attrs(), NONE);
}

#[test]
fn value_operations() {
    let both = content(b"new").combine(FileValue { content: Some(b"old".to_vec()), aux_data: Some(3) });
    assert_eq!(both.content.as_deref(), Some(&b"new"[..]));
    assert_eq!(both.aux_data, Some(3));
    assert_eq!(both.attrs(), ALL);
    let masked = both.mask(AUX);
    assert_eq!(masked.content, None);
    assert_eq!(masked.aux_data, Some(3));
    assert_eq!(FileValue::empty().attrs(), NONE);
}

#[test]
fn new_state_holds_each_key_once_with_nothing_found() {
    let (s, _rx) = state(vec![1, 2, 2, 3], ALL, mode(true, true, false));
    assert_eq!(s.pending_len(), 3);
    for k in [1u64, 2, 3] {
        assert_eq!(s.pending[&k].attrs(), NONE);
    }
    assert_eq!(s.request_attrs, ALL);
}

#[test]
fn actionable_attributes() {
    let (mut s, _rx) = state(vec![1, 2], ALL, mode(true, true, false));
    // Nothing the store can fetch.
    assert_eq!(s.actionable(1, NONE, false), NONE);
    // Nothing found yet: everything requested and fetchable.
    assert_eq!(s.actionable(1, ALL, false), ALL);
    assert_eq!(s.actionable(1, AUX, false), AUX);
    // A key that is not pending has nothing available.
    assert_eq!(s.actionable(99, CONTENT, false), CONTENT);
    assert!(!s.found(1, content(b"x")));
    assert_eq!(s.actionable(1, ALL, false), AUX);
    // Aux data can be computed from content already found.
    assert_eq!(s.actionable(1, ALL, true), NONE);
    // A store that holds content can provide aux data.
    assert!(!s.found(2, aux(1)));
    assert_eq!(s.actionable(2, CONTENT, false), CONTENT);
    assert_eq!(s.actionable(2, AUX, false), NONE);
}

#[test]
fn pending_lists_the_keys_with_something_to_fetch() {
    let (mut s, _rx) = state(vec![1, 2, 3], ALL, mode(true, true, false));
    assert!(!s.found(2, aux(5)));
    let mut aux_only = s.pending(AUX, false);
    aux_only.sort_by_key(|(k, _)| *k);
    assert_eq!(aux_only, vec![(1, AUX), (3, AUX)]);
    let mut all = s.pending(ALL, false);
    all.sort_by_key(|(k, _)| *k);
    assert_eq!(all, vec![(1, ALL), (2, CONTENT), (3, ALL)]);
    assert!(s.pending(NONE, true).is_empty());
}

#[test]
fn found_completes_a_key_and_reports_its_value() {
    let (mut s, rx) = state(vec![1, 2], ALL, mode(true, true, false));
    assert!(!s.found(1, aux(10)));
    assert_eq!(s.pending_len(), 2);
    assert!(rx.try_recv().is_err());
    assert!(s.found(1, content(b"data")));
    assert_eq!(s.pending_len(), 1);
    assert!(!s.pending.contains_key(&1));
    match rx.try_recv() {
        Ok(Ok((key, value))) => {
            assert_eq!(key, 1);
            assert_eq!(value.content.as_deref(), Some(&b"data"[..]));
            assert_eq!(value.aux_data, Some(10));
        }
        _ => panic!("expected the completed value"),
    }
    // Once done, the key is no longer tracked.
    assert!(!s.found(1, content(b"again")));
    assert!(rx.try_recv().is_err());
}

#[test]
fn found_value_is_masked_to_the_request() {
    let (mut s, rx) = state(vec![4], CONTENT, mode(true, false, false));
    assert!(s.found(4, FileValue { content: Some(b"c".to_vec()), aux_data: Some(1) }));
    match rx.try_recv() {
        Ok(Ok((4, value))) => {
            assert_eq!(value.content.as_deref(), Some(&b"c"[..]));
            assert_eq!(value.aux_data, None);
        }
        _ => panic!("expected the masked value"),
    }
}

#[test]
fn newer_parts_replace_older_ones() {
    let (mut s, rx) = state(vec![1], ALL, mode(true, true, false));
    assert!(!s.found(1, content(b"old")));
    assert!(!s.found(1, content(b"new")));
    assert_eq!(s.pending[&1].content.as_deref(), Some(&b"new"[..]));
    assert!(s.found(1, aux(2)));
    match rx.try_recv() {
        Ok(Ok((1, value))) => assert_eq!(value.content.as_deref(), Some(&b"new"[..])),
        _ => panic!("expected the completed value"),
    }
}

#[test]
fn ignored_results_are_not_sent() {
    let (mut s, rx) = state(vec![1], CONTENT, mode(true, true, true));
    assert!(s.found(1, content(b"x")));
    assert_eq!(s.pending_len(), 0);
    assert!(rx.try_recv().is_err());
}

#[test]
fn found_for_unknown_key_changes_nothing() {
    let (mut s, rx) = state(vec![1], CONTENT, mode(true, true, false));
    assert!(!s.found(5, content(b"x")));
    assert_eq!(s.pending_len(), 1);
    assert!(rx.try_recv().is_err());
}

#[test]
fn missing_messages_follow_the_mode() {
    assert_eq!(missing_message(mode(true, false, false)), "not found locally and not contacting server");
    assert_eq!(missing_message(mode(false, true, false)), "server did not provide content");
    assert_eq!(missing_message(mode(true, true, false)), "server did not provide content");
}

fn drain(rx: &crossbeam::channel::Receiver<FetchResult<FileValue>>) -> Vec<FetchResult<FileValue>> {
    rx.try_iter().collect()
}

#[test]
fn results_report_pending_keys_recorded_errors_then_others() {
    let (mut s, rx) = state(vec![1, 2, 3], CONTENT, mode(true, false, false));
    assert!(s.found(2, content(b"ok")));
    let _ = drain(&rx);
    let mut errors = FetchErrors::new();
    errors.keyed_error(3, anyhow::Error::msg("broken"));
    errors.keyed_error(8, anyhow::Error::msg("unrequested"));
    errors.other_error(anyhow::Error::msg("general"));
    s.results(errors);
    let sent = drain(&rx);
    assert_eq!(sent.len(), 4);
    let mut keyed: HashMap<u64, Vec<String>> = HashMap::new();
    for item in &sent[..3] {
        match item {
            Err(KeyFetchError::KeyedError { key, errors }) => {
                keyed.insert(*key, errors.iter().map(|e| e.to_string()).collect());
            }
            _ => panic!("expected keyed errors first"),
        }
    }
    assert_eq!(keyed[&1], vec!["not found locally and not contacting server".to_string()]);
    assert_eq!(keyed[&3], vec!["broken".to_string()]);
    assert_eq!(keyed[&8], vec!["unrequested".to_string()]);
    match &sent[3] {
        Err(KeyFetchError::Other(e)) => assert_eq!(e.to_string(), "general"),
        _ => panic!("expected the other error last"),
    }
}

#[test]
fn results_with_remote_mode_blame_the_server() {
    let (s, rx) = state(vec![6], CONTENT, mode(false, true, false));
    s.results(FetchErrors::new());
    let sent = drain(&rx);
    assert_eq!(sent.len(), 1);
    match &sent[0] {
        Err(KeyFetchError::KeyedError { key: 6, errors }) => {
            assert_eq!(errors.len(), 1);
            assert_eq!(errors[0].to_string(), "server did not provide content");
        }
        _ => panic!("expected a keyed error"),
    }
}

#[test]
fn results_with_nothing_left_send_nothing() {
    let (mut s, rx) = state(vec![1], CONTENT, mode(true, true, false));
    assert!(s.found(1, content(b"x")));
    let _ = drain(&rx);
    s.results(FetchErrors::new());
    assert!(drain(&rx).is_empty());
}

#[test]
fn error_report_orders_keyed_before_other() {
    let mut pending: HashMap<u64, FileValue> = HashMap::new();
    pending.insert(1, FileValue::empty());
    let mut errors = FetchErrors::new();
    errors.keyed_error(1, anyhow::Error::msg("recorded"));
    errors.other_error(anyhow::Error::msg("x"));
    errors.other_error(anyhow::Error::msg("y"));
    let report = error_report(&pending, mode(true, false, false), errors);
    assert_eq!(report.len(), 3);
    match &report[0] {
        KeyFetchError::KeyedError { key: 1, errors } => {
            assert_eq!(errors.len(), 1);
            assert_eq!(errors[0].to_string(), "recorded");
        }
        _ => panic!("expected the keyed error"),
    }
    let others: Vec<String> = report[1..]
        .iter()
        .map(|e| match e {
            KeyFetchError::Other(e) => e.to_string(),
            _ => panic!("expected other errors"),
        })
        .collect();
    assert_eq!(others, vec!["x".to_string(), "y".to_string()]);
}

#[test]
fn keys_of_lists_each_key_once() {
    let mut m: HashMap<u64, u8> = HashMap::new();
    m.insert(3, 0);
    m.insert(1, 0);
    m.insert(2, 0);
    let mut keys = keys_of(&m);
    keys.sort();
    assert_eq!(keys, vec![1, 2, 3]);
}

#[test]
fn pending_keys_stay_incomplete_and_keep_what_was_found() {
    let (mut s, _rx) = state(vec![1, 2], ALL, mode(true, true, false));
    for (k, v) in &s.pending {
        assert!(!v.attrs().has(ALL), "key {} starts complete", k);
    }
    assert!(!s.found(1, aux(4)));
    assert!(!s.found(1, aux(5)));
    let v = &s.pending[&1];
    assert!(!v.attrs().has(ALL));
    assert!(v.attrs().has(AUX));
    assert_eq!(v.aux_data, Some(5));
    // The actionable attributes are requested, fetchable, and not yet there.
    let a = s.actionable(1, ALL, false);
    assert!(ALL.has(a));
    assert_eq!(a.intersect(v.attrs()), NONE);
    // Completing one key takes it, and only it, out of the pending set.
    assert!(s.found(1, content(b"z")));
    assert!(!s.pending.contains_key(&1));
    assert!(s.pending.contains_key(&2));
    assert_eq!(s.pending_len(), 1);
}
