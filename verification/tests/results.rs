use revisionstore::{
    consume_results, missing_keys, missing_step, single_step, single_value, ConsumedResults,
    FetchResult, FileValue, KeyFetchError,
};

fn ok(key: u64, size: u64) -> FetchResult<FileValue> {
    Ok((key, FileValue { content: None, aux_data: Some(size) }))
}

fn keyed(key: u64, msg: &'static str) -> FetchResult<FileValue> {
    Err(KeyFetchError::KeyedError { key, errors: vec![anyhow::Error::msg(msg)] })
}

fn other(msg: &'static str) -> FetchResult<FileValue> {
    Err(KeyFetchError::Other(anyhow::Error::msg(msg)))
}

#[test]
fn consume_sorts_results_into_found_missing_and_errors() {
    let items = vec![ok(1, 10), keyed(2, "gone"), other("boom"), ok(1, 11), ok(3, 30), other("bang")];
    let (found, missing, errors) = consume_results(items).into_parts();
    assert_eq!(found.len(), 2);
    assert_eq!(found[&1].aux_data, Some(11));
    assert_eq!(found[&3].aux_data, Some(30));
    assert_eq!(missing.len(), 1);
    assert_eq!(missing[&2][0].to_string(), "gone");
    let texts: Vec<String> = errors.iter().map(|e| e.to_string()).collect();
    assert_eq!(texts, vec!["boom".to_string(), "bang".to_string()]);
}

#[test]
fn consume_of_nothing_is_empty() {
    let (found, missing, errors) = consume_results(Vec::<FetchResult<FileValue>>::new()).into_parts();
    assert!(found.is_empty() && missing.is_empty() && errors.is_empty());
}

#[test]
fn consume_step_by_step() {
    let mut acc = ConsumedResults::new();
    acc.add(keyed(5, "first"));
    acc.add(keyed(5, "second"));
    let (found, missing, errors) = acc.into_parts();
    assert!(found.is_empty());
    assert!(errors.is_empty());
    assert_eq!(missing[&5][0].to_string(), "second");
}

#[test]
fn missing_lists_failed_keys_in_order() {
    let items = vec![keyed(4, "a"), ok(1, 1), keyed(2, "b"), keyed(4, "c")];
    assert_eq!(missing_keys(items).unwrap(), vec![4, 2, 4]);
}

#[test]
fn missing_stops_at_the_first_other_error() {
    let items = vec![keyed(4, "a"), other("first"), keyed(2, "b"), other("second")];
    assert_eq!(missing_keys(items).unwrap_err().to_string(), "first");
}

#[test]
fn missing_step_by_step() {
    let mut keys = Vec::new();
    assert!(missing_step(&mut keys, ok(1, 1)).is_none());
    assert!(missing_step(&mut keys, keyed(9, "x")).is_none());
    assert_eq!(missing_step(&mut keys, other("stop")).unwrap().to_string(), "stop");
    assert_eq!(keys, vec![9]);
}

#[test]
fn single_returns_the_first_value() {
    let value = single_value(vec![ok(1, 7), ok(2, 8)]).unwrap().unwrap();
    assert_eq!(value.aux_data, Some(7));
    assert!(single_value(Vec::<FetchResult<FileValue>>::new()).unwrap().is_none());
}

#[test]
fn single_reports_an_error_even_after_a_value() {
    match single_value(vec![ok(1, 7), keyed(2, "bad")]) {
        Err(KeyFetchError::KeyedError { key: 2, .. }) => {}
        _ => panic!("expected the keyed error"),
    }
    match single_value(vec![other("early"), ok(1, 7)]) {
        Err(KeyFetchError::Other(e)) => assert_eq!(e.to_string(), "early"),
        _ => panic!("expected the other error"),
    }
}

#[test]
fn single_step_keeps_the_first() {
    let mut first = None;
    assert!(single_step(&mut first, ok(1, 1)).is_none());
    assert!(single_step(&mut first, ok(2, 2)).is_none());
    assert_eq!(first.unwrap().aux_data, Some(1));
}
