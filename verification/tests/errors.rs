use std::error::Error as _;

use revisionstore::{FetchErrors, KeyFetchError};

#[test]
fn test_error_chain() {
    {
        let inner_err = anyhow::Error::msg("inner");
        let outer_err = inner_err.context("context");

        let err = KeyFetchError::Other(outer_err);
        assert_eq!(format!("{}", err.source().unwrap()), "context");
        assert_eq!(
            format!("{}", err.source().unwrap().source().unwrap()),
            "inner"
        );
    }

    {
        let err = KeyFetchError::KeyedError {
            key: Default::default(),
            errors: vec![],
        };
        assert!(err.source().is_none());
    }

    {
        let err = KeyFetchError::KeyedError {
            key: Default::default(),
            errors: vec![anyhow::Error::msg("one"), anyhow::Error::msg("two")],
        };
        assert_eq!(format!("{}", err.source().unwrap()), "one");
    }
}

#[test]
fn fetch_errors_start_empty() {
    let errors = FetchErrors::new();
    assert!(errors.fetch_errors.is_empty());
    assert!(errors.other_errors.is_empty());
}

#[test]
fn keyed_errors_accumulate_per_key_in_order() {
    let mut errors = FetchErrors::new();
    errors.keyed_error(7, anyhow::Error::msg("first"));
    errors.keyed_error(9, anyhow::Error::msg("elsewhere"));
    errors.keyed_error(7, anyhow::Error::msg("second"));
    assert_eq!(errors.fetch_errors.len(), 2);
    let seven: Vec<String> = errors.fetch_errors[&7].iter().map(|e| e.to_string()).collect();
    assert_eq!(seven, vec!["first".to_string(), "second".to_string()]);
    assert_eq!(errors.fetch_errors[&9].len(), 1);
    assert!(errors.other_errors.is_empty());
}

#[test]
fn other_errors_keep_their_order() {
    let mut errors = FetchErrors::new();
    errors.other_error(anyhow::Error::msg("a"));
    errors.other_error(anyhow::Error::msg("b"));
    let texts: Vec<String> = errors.other_errors.iter().map(|e| e.to_string()).collect();
    assert_eq!(texts, vec!["a".to_string(), "b".to_string()]);
    assert!(errors.fetch_errors.is_empty());
}
