use std::path::PathBuf;
use rocket_config::{ErrorKind, Extension, Factory, Listing, Number, Object, Outcome, ScannedFile, Value};

fn document(marker: u64) -> Value {
    let mut document = Object::new();
    document.insert("marker".to_owned(), Value::Number(Number::from(marker)));
    Value::Object(document)
}

fn file(dir: &str, stem: &str, ext: Option<&str>, marker: u64) -> ScannedFile {
    let name = match ext {
        Some(e) => format!("{}/{}.{}", dir, stem, e),
        None => format!("{}/{}", dir, stem),
    };
    let extension = match ext {
        Some(e) => Extension::Text(e.to_owned()),
        None => Extension::Missing,
    };
    let handled = matches!(ext, Some("json") | Some("yml") | Some("yaml"));
    ScannedFile {
        path: PathBuf::from(name),
        is_file: true,
        stem: Some(stem.to_owned()),
        extension,
        outcome: if handled { Some(Outcome::Parsed(document(marker))) } else { None },
    }
}

fn marker_of(factory: &Factory, name: &str) -> Option<u64> {
    let configuration = factory.get(name).ok()?;
    configuration.get("marker")?.as_u64()
}

fn listings() -> (Listing, Listing) {
    let production = Ok(vec![
        Ok(file("config", "no_extension", None, 0)),
        Ok(file("config", "diesel", Some("json"), 1)),
    ]);
    let development = Ok(vec![
        Ok(file("config/dev", "invalid_extension_dev", Some("toto"), 0)),
        Ok(file("config/dev", "diesel", Some("json"), 2)),
    ]);
    (production, development)
}

#[test]
fn is_file_handled() {
    let mut f = file("/tmp", "unknown-file", None, 0);
    f.is_file = false;
    assert_eq!(rocket_config::factory::is_file_handled(&f), false);
    assert_eq!(rocket_config::factory::is_file_handled(&file("/tmp", "x", None, 0)), false);
    assert_eq!(rocket_config::factory::is_file_handled(&file("/tmp", "x", Some("json"), 0)), true);
    assert_eq!(rocket_config::factory::is_file_handled(&file("/tmp", "x", Some("yml"), 0)), true);
    assert_eq!(rocket_config::factory::is_file_handled(&file("/tmp", "x", Some("yaml"), 0)), true);
    assert_eq!(rocket_config::factory::is_file_handled(&file("/tmp", "x", Some("toml"), 0)), false);
    let mut dir = file("/tmp", "d", Some("json"), 0);
    dir.is_file = false;
    assert_eq!(rocket_config::factory::is_file_handled(&dir), false);
}

#[test]
fn load() {
    let (production, development) = listings();
    let mut factory = Factory::new_development();
    factory.load(production, development).expect("failed to load factory");
    let _config = factory.get("diesel").expect("failed to get diesel configuration");
}

#[test]
fn development_shadows_production() {
    let (production, development) = listings();
    let mut factory = Factory::new_development();
    factory.load(production, development).unwrap();
    assert_eq!(marker_of(&factory, "diesel"), Some(2));
    assert_eq!(
        factory.get("diesel").unwrap().path(),
        &PathBuf::from("config/dev/diesel.json")
    );
    assert_eq!(factory.get_development("diesel").unwrap().path(), &PathBuf::from("config/dev/diesel.json"));

    let (production, development) = listings();
    let mut factory = Factory::new();
    assert!(!factory.is_development_mode());
    factory.load(production, development).unwrap();
    assert_eq!(marker_of(&factory, "diesel"), Some(1));
    assert_eq!(factory.get("diesel").unwrap().path(), &PathBuf::from("config/diesel.json"));
}

#[test]
fn production_used_when_development_lacks_name() {
    let production: Listing = Ok(vec![Ok(file("config", "app", Some("yaml"), 7))]);
    let development: Listing = Ok(vec![]);
    let mut factory = Factory::new_development();
    factory.load(production, development).unwrap();
    assert_eq!(marker_of(&factory, "app"), Some(7));
    assert_eq!(factory.get_development("app").err().unwrap().kind(), ErrorKind::MissingValue);
}

#[test]
fn same_stem_twice_is_a_duplicate() {
    let production: Listing = Ok(vec![
        Ok(file("config", "a", Some("json"), 1)),
        Ok(file("config", "a", Some("yml"), 2)),
    ]);
    let mut factory = Factory::new();
    let err = factory.load_production_directory(production).unwrap_err();
    assert_eq!(err.kind(), ErrorKind::Other);
    assert_eq!(err.description(), "a configuration already exists for 'a'");
}

#[test]
fn loading_twice_collides() {
    let mut factory = Factory::new();
    factory.load_production_directory(Ok(vec![Ok(file("config", "a", Some("json"), 1))])).unwrap();
    let err = factory.load_production_directory(Ok(vec![Ok(file("config", "a", Some("json"), 1))])).unwrap_err();
    assert_eq!(err.description(), "a configuration already exists for 'a'");
}

#[test]
fn missing_name() {
    let factory = Factory::new();
    let err = factory.get("diesel").err().unwrap();
    assert_eq!(err.kind(), ErrorKind::MissingValue);
}

#[test]
fn scan_failures() {
    let mut factory = Factory::new();
    let err = factory.load_production_directory(Err("permission denied".to_owned())).unwrap_err();
    assert_eq!(err.kind(), ErrorKind::Other);
    assert_eq!(err.description(), "permission denied");

    let err = factory
        .load_production_directory(Ok(vec![Ok(file("c", "a", Some("json"), 1)), Err("bad entry".to_owned())]))
        .unwrap_err();
    assert_eq!(err.kind(), ErrorKind::Other);
    assert_eq!(err.description(), "bad entry");
    assert_eq!(marker_of(&factory, "a"), Some(1));

    let mut unnamed = file("c", "b", Some("json"), 1);
    unnamed.stem = None;
    let err = Factory::new().load_production_directory(Ok(vec![Ok(unnamed)])).unwrap_err();
    assert_eq!(err.kind(), ErrorKind::Other);
    assert_eq!(err.description(), "invalid file name");

    let mut unreadable = file("c", "b", Some("json"), 1);
    unreadable.outcome = Some(Outcome::ReadFailed("no such file".to_owned()));
    let err = Factory::new().load_production_directory(Ok(vec![Ok(unreadable)])).unwrap_err();
    assert_eq!(err.kind(), ErrorKind::Other);
    assert_eq!(err.description(), "no such file");

    let mut malformed = file("c", "b", Some("yaml"), 1);
    malformed.outcome = Some(Outcome::ParseFailed("bad yaml".to_owned()));
    let err = Factory::new().load_production_directory(Ok(vec![Ok(malformed)])).unwrap_err();
    assert_eq!(err.kind(), ErrorKind::Other);

    let mut unread = file("c", "b", Some("json"), 1);
    unread.outcome = None;
    let err = Factory::new().load_production_directory(Ok(vec![Ok(unread)])).unwrap_err();
    assert_eq!(err.kind(), ErrorKind::Other);
    assert_eq!(err.description(), "file was not read");
}

#[test]
fn production_failure_stops_load() {
    let mut factory = Factory::new_development();
    let err = factory.load(Err("gone".to_owned()), Ok(vec![Ok(file("d", "x", Some("json"), 3))])).unwrap_err();
    assert_eq!(err.description(), "gone");
    assert!(factory.get("x").is_err());
}
