use rocket_config::{Error, ErrorKind};

#[test]
fn errors_carry_kind_and_description() {
    let e = Error::new(ErrorKind::Other, "a configuration already exists for 'a'".to_owned());
    assert_eq!(e.kind(), ErrorKind::Other);
    assert_eq!(e.description(), "a configuration already exists for 'a'");
    let m = Error::from_kind(ErrorKind::MissingValue);
    assert_eq!(m.kind(), ErrorKind::MissingValue);
    assert_eq!(m.description(), "missing value");
    assert_eq!(Error::from_kind(ErrorKind::FormatError).description(), "format error");
    assert_eq!(Error::from_kind(ErrorKind::UnimplementedFormat).description(), "unimplemented format");
    assert_eq!(Error::from_kind(ErrorKind::Other).description(), "other error");
}

#[test]
fn default_factory_is_empty_production() {
    let factory = rocket_config::Factory::default();
    assert!(!factory.is_development_mode());
    assert_eq!(factory.get("anything").err().unwrap().kind(), ErrorKind::MissingValue);
}
