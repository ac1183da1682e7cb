use cyfile::asset::Asset;
use cyfile::codec::Reader;
use cyfile::error::Error as CodecError;
use cyfile::file::advance;
use cyfile::file::after_move;
use cyfile::file::archive_failure;
use cyfile::file::check_from_stream;
use cyfile::file::open_failure;
use cyfile::file::plan;
use cyfile::file::probe_path;
use cyfile::file::same_bytes;
use cyfile::file::Action;
use cyfile::file::ArchiveFault;
use cyfile::file::Entry;
use cyfile::file::Error;
use cyfile::file::Event;
use cyfile::file::Manifest;
use cyfile::file::OpenFault;
use cyfile::file::Persist;
use cyfile::file::Stage;
use cyfile::file::Step;
use cyfile::file::IDENTIFIER;
use cyfile::value::Value;
use cyfile::Codec;
use cyfile::Page;
use cyfile::Project;

fn string(text: &str) -> Value {
    Value::String(text.to_string())
}

fn document() -> Value {
    Value::Object(vec![
        ("cover".to_string(), string("cover.webp")),
        ("title".to_string(), string("Title")),
        ("overview".to_string(), string("")),
        (
            "pages".to_string(),
            Value::Array(vec![
                Value::Object(vec![
                    ("image".to_string(), string("pages/page_1.webp")),
                    ("notes".to_string(), Value::Array(Vec::new())),
                ]),
                Value::Object(vec![
                    ("image".to_string(), string("pages/page_2.webp")),
                    ("notes".to_string(), Value::Array(Vec::new())),
                ]),
            ]),
        ),
    ])
}

fn opened() -> Project {
    let manifest = Manifest::new();
    let value = document();

    Project::decode(&Reader::new(&manifest, &value)).unwrap()
}

#[test]
fn sniffing_never_fails() {
    assert!(!check_from_stream(&Err(ArchiveFault::Invalid)));
    assert!(!check_from_stream(&Err(ArchiveFault::Other)));
    assert!(!check_from_stream(&Ok(Vec::new())));
    assert!(!check_from_stream(&Ok(b"Cangyan Project Packag".to_vec())));
    assert!(!check_from_stream(&Ok(b"cangyan project package".to_vec())));
    assert!(check_from_stream(&Ok(b"Cangyan Project Package".to_vec())));
    assert!(check_from_stream(&Ok(IDENTIFIER.as_bytes().to_vec())));
    assert!(same_bytes(&[1, 2], &[1, 2]));
    assert!(!same_bytes(&[1, 2], &[1, 3]));
    assert!(!same_bytes(&[1, 2], &[1]));
}

#[test]
fn path_is_probed_before_it_is_opened() {
    assert!(matches!(
        probe_path("a.cy", false, false),
        Err(Error::PathNotExist { path }) if path == "a.cy"
    ));
    assert!(matches!(
        probe_path("dir", true, false),
        Err(Error::PathNotFile { path }) if path == "dir"
    ));
    assert!(probe_path("a.cy", true, true).is_ok());
    assert!(matches!(
        open_failure("a.cy", OpenFault::PermissionDenied),
        Error::PermissionDenied { path } if path == "a.cy"
    ));
    assert!(matches!(open_failure("a.cy", OpenFault::Other), Error::Undefined));
}

#[test]
fn archive_failures_are_classified() {
    assert!(matches!(archive_failure(ArchiveFault::Invalid), Error::InvalidFormat));
    assert!(matches!(archive_failure(ArchiveFault::Unsupported), Error::UnsupportedFormat));
    assert!(matches!(archive_failure(ArchiveFault::Password), Error::PasswordNotCorrect));
    assert!(matches!(archive_failure(ArchiveFault::Other), Error::Undefined));

    let (stage, action) = advance(Stage::Archive, Event::Archive(Some(ArchiveFault::Password)));

    assert!(matches!(stage, Stage::Closed));
    assert!(matches!(action, Action::Done(Err(Error::PasswordNotCorrect))));
}

#[test]
fn open_reads_the_manifest_then_the_project() {
    let (stage, action) = advance(Stage::Archive, Event::Archive(None));

    assert!(matches!(&action, Action::Read(name) if name == "cangyan.json"));

    let (stage, action) = advance(stage, Event::Manifest(Entry::Parsed(Manifest::new())));

    assert!(matches!(&stage, Stage::Document(manifest) if manifest.version() == 0));
    assert!(matches!(&action, Action::Read(name) if name == "project.json"));

    let (stage, action) = advance(stage, Event::Document(Entry::Parsed(document())));

    assert!(matches!(stage, Stage::Closed));

    match action {
        Action::Done(Ok(project)) => {
            assert_eq!(project.title(), "Title");
            assert_eq!(project.cover().unwrap().path(), "cover.webp");
            assert_eq!(project.pages().len(), 2);
            assert!(!project.cover().unwrap().is_loaded());
        }

        other => panic!("Expected a project, found {:?}", other),
    }
}

#[test]
fn unsupported_version_ends_the_protocol_before_the_project_is_read() {
    let manifest = Manifest::new().with_version(7);

    let (stage, action) = advance(Stage::Manifest, Event::Manifest(Entry::Parsed(manifest)));

    assert!(matches!(stage, Stage::Closed));
    assert!(matches!(
        action,
        Action::Done(Err(Error::Codec(CodecError::UnsupportedVersion { version: 7 })))
    ));

    let (stage, action) = advance(stage, Event::Document(Entry::Parsed(document())));

    assert!(matches!(stage, Stage::Closed));
    assert!(matches!(action, Action::Done(Err(Error::Undefined))));
}

#[test]
fn missing_project_entry_is_named() {
    let (stage, action) =
        advance(Stage::Document(Manifest::new()), Event::Document(Entry::Missing));

    assert!(matches!(stage, Stage::Closed));
    assert!(matches!(
        action,
        Action::Done(Err(Error::FileNotFound { file })) if file == "project.json"
    ));

    let (_, action) = advance(Stage::Manifest, Event::Manifest(Entry::Missing));

    assert!(matches!(
        action,
        Action::Done(Err(Error::FileNotFound { file })) if file == "cangyan.json"
    ));
}

#[test]
fn malformed_entry_carries_its_place() {
    let (_, action) =
        advance(Stage::Manifest, Event::Manifest(Entry::Malformed { line: 3, column: 9 }));

    assert!(matches!(
        action,
        Action::Done(Err(Error::ParseFailure { file, line: 3, column: 9 })) if file == "cangyan.json"
    ));

    let (_, action) = advance(
        Stage::Document(Manifest::new()),
        Event::Document(Entry::Malformed { line: 1, column: 2 }),
    );

    assert!(matches!(
        action,
        Action::Done(Err(Error::ParseFailure { file, line: 1, column: 2 })) if file == "project.json"
    ));
}

#[test]
fn malformed_field_fails_the_open() {
    let value = Value::Object(vec![
        ("cover".to_string(), Value::Null),
        ("title".to_string(), Value::Number(3)),
        ("overview".to_string(), string("")),
        ("pages".to_string(), Value::Array(Vec::new())),
    ]);

    let (_, action) =
        advance(Stage::Document(Manifest::new()), Event::Document(Entry::Parsed(value)));

    match action {
        Action::Done(Err(Error::Codec(CodecError::MismatchType { expected, found }))) => {
            assert_eq!(expected, "string");
            assert_eq!(found, Value::Number(3));
        }

        other => panic!("Expected a mismatch, found {:?}", other),
    }
}

#[test]
fn report_out_of_turn_ends_the_protocol() {
    let (stage, action) = advance(Stage::Archive, Event::Document(Entry::Missing));

    assert!(matches!(stage, Stage::Closed));
    assert!(matches!(action, Action::Done(Err(Error::Undefined))));

    let (_, action) = advance(Stage::Closed, Event::Archive(None));

    assert!(matches!(action, Action::Done(Err(Error::Undefined))));
}

#[test]
fn fresh_project_is_written_from_its_bytes() {
    let project = Project::new()
        .with_cover(Asset::new("cover.webp", vec![1, 2]))
        .with_title("T")
        .with_page(Page::new().with_image(Asset::new("pages/page_1.webp", vec![3])));

    let steps = plan(&project, &Manifest::new()).unwrap();

    assert_eq!(steps.len(), 6);
    assert_eq!(steps[0], Step::Comment(b"Cangyan Project Package".to_vec()));
    assert_eq!(steps[1], Step::Manifest { name: "cangyan.json".to_string(), version: 0 });
    assert!(matches!(&steps[2], Step::Document { name, .. } if name == "project.json"));
    assert_eq!(steps[3], Step::Write { path: "cover.webp".to_string(), data: vec![1, 2] });
    assert_eq!(steps[4], Step::Write { path: "pages/page_1.webp".to_string(), data: vec![3] });
    assert_eq!(steps[5], Step::Finish);
}

#[test]
fn unchanged_assets_are_copied_through() {
    let steps = plan(&opened(), &Manifest::new()).unwrap();

    assert_eq!(steps.len(), 7);
    assert_eq!(steps[2], Step::Document { name: "project.json".to_string(), value: document() });
    assert_eq!(steps[3], Step::Copy { path: "cover.webp".to_string() });
    assert_eq!(steps[4], Step::Copy { path: "pages/page_1.webp".to_string() });
    assert_eq!(steps[5], Step::Copy { path: "pages/page_2.webp".to_string() });
    assert_eq!(steps[6], Step::Finish);
}

#[test]
fn only_the_replaced_asset_is_written() {
    let mut project = opened();

    project.pages_mut()[1].set_image(Some(Asset::new("pages/page_2.webp", vec![9, 9])));

    let steps = plan(&project, &Manifest::new()).unwrap();

    assert_eq!(steps.len(), 7);
    assert_eq!(steps[3], Step::Copy { path: "cover.webp".to_string() });
    assert_eq!(steps[4], Step::Copy { path: "pages/page_1.webp".to_string() });
    assert_eq!(steps[5], Step::Write { path: "pages/page_2.webp".to_string(), data: vec![9, 9] });
}

#[test]
fn nothing_is_planned_for_an_unsupported_version() {
    let result = plan(&opened(), &Manifest::new().with_version(1));

    assert!(matches!(
        result,
        Err(Error::Codec(CodecError::UnsupportedVersion { version: 1 }))
    ));
}

#[test]
fn move_is_retried_once() {
    assert_eq!(after_move(true, false), Persist::Done);
    assert_eq!(after_move(true, true), Persist::Done);
    assert_eq!(after_move(false, false), Persist::Retry);
    assert_eq!(after_move(false, true), Persist::Fail);
}

#[test]
fn manifest_keeps_its_version() {
    let mut manifest = Manifest::new();

    assert_eq!(manifest.version(), 0);
    assert!(manifest.is_supported());

    manifest.set_version(2);

    assert_eq!(manifest.version(), 2);
    assert!(!manifest.is_supported());
    assert_eq!(manifest.clone().with_version(9).version(), 9);
    assert_eq!(Manifest::default().version(), 0);
}
