use std::path::PathBuf;
use rocket_config::{Configuration, ErrorKind, Extension, Format, Number, Object, Outcome, Value};

fn parameters(database_url: &str) -> Value {
    let mut parameters = Object::new();
    parameters.insert("env(DATABASE_URL)".to_owned(), Value::String(database_url.to_owned()));
    parameters.insert("inital_id".to_owned(), Value::Number(Number::from(0u64)));
    parameters.insert("limit_id".to_owned(), Value::Number(Number::from(-1i64)));
    let mut document = Object::new();
    document.insert("parameters".to_owned(), Value::Object(parameters));
    Value::Object(document)
}

fn text(ext: &str) -> Extension {
    Extension::Text(ext.to_owned())
}

#[test]
fn configuration() {
    let configuration = Configuration::new(PathBuf::from("/random-path"), Extension::Missing);

    assert_eq!(configuration.is_loaded(), false);
    assert!(configuration.get("invalid_index").is_none());
}

#[test]
fn missing_extension() {
    let configuration = Configuration::new(PathBuf::from("/tmp/config"), Extension::Missing);
    let err = configuration.pending_format().expect_err("expected an Err, got a result");

    assert_eq!(err.kind(), ErrorKind::MissingValue);
    assert_eq!(err.description(), "no extension available");
}

#[test]
fn invalid_extension() {
    let configuration = Configuration::new(PathBuf::from("/tmp/config.te?st"), Extension::Invalid);
    let err = configuration.pending_format().expect_err("expected an Err, got a result");

    assert_eq!(err.kind(), ErrorKind::FormatError);
    assert_eq!(err.description(), "extension's format is invalid");
}

#[test]
fn unimplemented_extension() {
    let configuration = Configuration::new(PathBuf::from("/tmp/config.unimp"), text("unimp"));
    let err = configuration.pending_format().expect_err("expected an Err, got a result");

    assert_eq!(err.kind(), ErrorKind::UnimplementedFormat);
    assert_eq!(err.description(), "unimplemented format: unimp");
}

#[test]
fn valid_json() {
    let mut configuration = Configuration::new(PathBuf::from("/tmp/test.json"), text("json"));
    assert_eq!(configuration.pending_format().unwrap(), Some(Format::Json));
    configuration.complete_load(Outcome::Parsed(parameters(""))).expect("expected to load config");

    let parameters = configuration.get("parameters");
    assert!(parameters.is_some());
    let parameters = parameters.unwrap();
    assert!(parameters.is_object());

    assert!(parameters.get("env(DATABASE_URL)").is_some());
    assert_eq!(parameters.get("env(DATABASE_URL)").unwrap().as_str().unwrap(), "");
}

#[test]
fn valid_yaml() {
    let mut configuration = Configuration::new(PathBuf::from("/tmp/test.yaml"), text("yaml"));
    assert_eq!(configuration.pending_format().unwrap(), Some(Format::Yaml));
    let mut inner = Object::new();
    inner.insert("env(DATABASE_URL)".to_owned(), Value::String("test".to_owned()));
    let mut document = Object::new();
    document.insert("parameters".to_owned(), Value::Object(inner));
    configuration.complete_load(Outcome::Parsed(Value::Object(document))).expect("expected to load config");

    let parameters = configuration.get("parameters");
    assert!(parameters.is_some());
    let parameters = parameters.unwrap();
    assert!(parameters.is_object());

    assert!(parameters.get("env(DATABASE_URL)").is_some());
    assert_eq!(parameters.get("env(DATABASE_URL)").unwrap().as_str().unwrap(), "test");
}

#[test]
fn loaded_configuration_needs_no_read() {
    let mut configuration = Configuration::new(PathBuf::from("/tmp/a.yml"), text("yml"));
    assert!(!configuration.is_loaded());
    assert_eq!(configuration.pending_format().unwrap(), Some(Format::Yaml));
    configuration.complete_load(Outcome::Parsed(parameters("x"))).unwrap();
    assert!(configuration.is_loaded());
    assert_eq!(configuration.pending_format().unwrap(), None);
    let copy = configuration.clone();
    assert!(copy.is_loaded());
    assert_eq!(copy.pending_format().unwrap(), None);
    assert_eq!(copy.get("parameters").unwrap().get("limit_id").unwrap().as_i64(), Some(-1));
    assert!(copy.get("nothing").is_none());
    assert_eq!(copy.path(), &PathBuf::from("/tmp/a.yml"));
}

#[test]
fn failed_read_and_parse() {
    let mut configuration = Configuration::new(PathBuf::from("/nonexistent.json"), text("json"));
    let err = configuration.complete_load(Outcome::ReadFailed("no such file".to_owned())).unwrap_err();
    assert_eq!(err.kind(), ErrorKind::Other);
    assert_eq!(err.description(), "no such file");
    let err = configuration.complete_load(Outcome::ParseFailed("expected value".to_owned())).unwrap_err();
    assert_eq!(err.kind(), ErrorKind::Other);
    assert_eq!(err.description(), "expected value");
    assert!(!configuration.is_loaded());
    assert!(configuration.get("parameters").is_none());
}

#[test]
fn bad_extension_is_never_loaded() {
    let mut configuration = Configuration::new(PathBuf::from("/tmp/a.toml"), text("toml"));
    let err = configuration.complete_load(Outcome::Parsed(parameters(""))).unwrap_err();
    assert_eq!(err.kind(), ErrorKind::UnimplementedFormat);
    assert_eq!(err.description(), "unimplemented format: toml");
    assert!(!configuration.is_loaded());
    assert!(configuration.get("parameters").is_none());
}

#[test]
fn extension_match_is_exact() {
    assert!(rocket_config::configuration::format_for(&text("JSON")).is_err());
    assert_eq!(rocket_config::configuration::format_for(&text("json")).unwrap(), Format::Json);
    assert!(rocket_config::configuration::plan_load(true, &Extension::Missing).unwrap().is_none());
    assert_eq!(Configuration::new(PathBuf::from("/x.json"), text("json")).path(), &PathBuf::from("/x.json"));
}
