use time_cargo::batch::expand_work;
use time_cargo::krate::{KrateName, SpecError};

#[test]
fn name_alone_round_trips() {
    let k = KrateName::parse("serde").unwrap();
    assert_eq!(k.name, "serde");
    assert_eq!(k.version, None);
    assert_eq!(k.to_string(), "serde");
}

#[test]
fn name_and_version_round_trip() {
    let k = KrateName::parse("foo=0.1").unwrap();
    assert_eq!(k.name, "foo");
    assert_eq!(k.version, Some("0.1".to_string()));
    assert_eq!(k.to_string(), "foo=0.1");
}

#[test]
fn formatting_then_parsing_gives_the_specifier() {
    let k = KrateName { name: "parasail-sys".to_string(), version: Some("1.2.3-beta".to_string()) };
    let back = KrateName::parse(&k.to_string()).unwrap();
    assert_eq!(back.name, k.name);
    assert_eq!(back.version, k.version);
}

#[test]
fn empty_token_is_refused() {
    assert_eq!(KrateName::parse("").unwrap_err(), SpecError::Empty);
}

#[test]
fn bare_separator_is_refused() {
    assert_eq!(KrateName::parse("=").unwrap_err(), SpecError::MissingName);
    assert_eq!(KrateName::parse("=1.0").unwrap_err(), SpecError::MissingName);
}

#[test]
fn empty_version_is_refused() {
    assert_eq!(KrateName::parse("foo=").unwrap_err(), SpecError::MissingVersion);
}

#[test]
fn second_separator_is_refused() {
    assert_eq!(KrateName::parse("a=b=c").unwrap_err(), SpecError::ExtraSeparator);
}

#[test]
fn work_list_stops_at_first_bad_token() {
    let tokens = vec!["a".to_string(), "=2".to_string(), "".to_string()];
    assert_eq!(expand_work(&tokens, &vec![]).unwrap_err(), (1, SpecError::MissingName));
}

#[test]
fn work_list_parses_each_token() {
    let tokens = vec!["a".to_string(), "b=2.0".to_string()];
    let v = expand_work(&tokens, &vec!["ignored".to_string()]).unwrap();
    assert_eq!(v.len(), 2);
    assert_eq!(v[0].to_string(), "a");
    assert_eq!(v[1].name, "b");
    assert_eq!(v[1].version, Some("2.0".to_string()));
}

#[test]
fn wildcard_takes_the_index_names() {
    let tokens = vec!["x".to_string(), "*".to_string()];
    let names = vec!["serde".to_string(), "rand".to_string()];
    let v = expand_work(&tokens, &names).unwrap();
    assert_eq!(v.len(), 2);
    assert_eq!(v[0].name, "serde");
    assert_eq!(v[1].name, "rand");
    assert!(v.iter().all(|k| k.version.is_none()));
}

#[test]
fn empty_work_list_is_no_error() {
    assert_eq!(expand_work(&vec![], &vec![]).unwrap().len(), 0);
}

#[test]
fn whitespace_is_refused() {
    assert_eq!(KrateName::parse("a b").unwrap_err(), SpecError::Whitespace);
    assert_eq!(KrateName::parse(" foo").unwrap_err(), SpecError::Whitespace);
    assert_eq!(KrateName::parse("foo= 1.0").unwrap_err(), SpecError::Whitespace);
    assert_eq!(KrateName::parse("foo\u{a0}").unwrap_err(), SpecError::Whitespace);
}
