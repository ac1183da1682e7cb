use cyfile::asset::AssetSnap;
use cyfile::asset::AssetSource;
use cyfile::asset::EmptySource;
use cyfile::asset::Track;
use cyfile::codec::Reader;
use cyfile::codec::Writer;
use cyfile::error::Error;
use cyfile::file::Manifest;
use cyfile::value::Value;
use cyfile::Asset;
use cyfile::Codec;
use cyfile::Note;
use cyfile::Page;
use cyfile::Project;
use cyfile::Text;

fn string(text: &str) -> Value {
    Value::String(text.to_string())
}

fn number(value: f32) -> Value {
    Value::Number(value.to_bits())
}

fn object(members: Vec<(&str, Value)>) -> Value {
    Value::Object(members.into_iter().map(|(key, value)| (key.to_string(), value)).collect())
}

fn text_value(content: &str, comment: &str) -> Value {
    object(vec![("content", string(content)), ("comment", string(comment))])
}

struct Shelf;

impl AssetSource for Shelf {
    fn load(&self, path: &str) -> Result<Vec<u8>, Error> {
        if path == "pages/page_1.webp" {
            Ok(vec![4, 5, 6])
        } else {
            Err(Error::AssetLoadFailed { path: path.to_string() })
        }
    }
}

#[test]
fn path() {
    let asset = Asset::new("asset.png", Vec::new());

    assert_eq!(asset.path(), "asset.png");
}

#[test]
fn load() {
    let data = vec![0, 1, 2, 3];

    let mut asset = Asset::new("asset.png", data.clone());

    match asset.load(&EmptySource) {
        Ok(loaded) => assert_eq!(loaded, data),

        Err(err) => panic!("Failed to load asset: {:?}", err),
    }
}

#[test]
fn asset_encode() {
    let asset = Asset::new("asset.png", vec![0, 1, 2, 3]);

    let manifest = Manifest::default();

    let mut writer = Writer::new(&manifest);

    assert!(Codec::encode(&asset, &mut writer).is_ok());

    let value = writer.into_value();

    assert_eq!(value, string("asset.png"));
}

#[test]
fn asset_is_registered_with_its_bytes() {
    let asset = Asset::new("asset.png", vec![0, 1, 2, 3]);

    let manifest = Manifest::new();

    let mut writer = Writer::new(&manifest);

    asset.encode(&mut writer).unwrap();

    let (assets, value) = writer.end();

    assert_eq!(value, string("asset.png"));
    assert_eq!(assets, vec![("asset.png".to_string(), AssetSnap::Dirty(vec![0, 1, 2, 3]))]);
}

#[test]
fn asset_read_back_is_clean_and_pulls_its_bytes_once() {
    let manifest = Manifest::new();
    let value = string("pages/page_1.webp");

    let mut asset = Asset::decode(&Reader::new(&manifest, &value)).unwrap();

    assert_eq!(asset.path(), "pages/page_1.webp");
    assert_eq!(asset.track(), Track::Clean);
    assert!(!asset.is_loaded());

    assert_eq!(
        asset.load(&EmptySource),
        Err(Error::AssetNotFound { path: "pages/page_1.webp".to_string() })
    );
    assert!(!asset.is_loaded());

    assert_eq!(asset.load(&Shelf), Ok(vec![4, 5, 6]));
    assert!(asset.is_loaded());
    assert_eq!(asset.track(), Track::Clean);

    assert_eq!(asset.load(&EmptySource), Ok(vec![4, 5, 6]));

    let mut writer = Writer::new(&manifest);

    asset.encode(&mut writer).unwrap();

    let (assets, _) = writer.end();

    assert_eq!(assets, vec![("pages/page_1.webp".to_string(), AssetSnap::Clean)]);
}

#[test]
fn failed_pull_is_handed_on() {
    let manifest = Manifest::new();
    let value = string("cover.webp");

    let mut asset = Asset::decode(&Reader::new(&manifest, &value)).unwrap();

    assert_eq!(
        asset.load(&Shelf),
        Err(Error::AssetLoadFailed { path: "cover.webp".to_string() })
    );
    assert_eq!(asset.retain(Err(Error::ArchiveAcquireFailed)), Err(Error::ArchiveAcquireFailed));
    assert_eq!(asset.retain(Ok(vec![1])), Ok(vec![1]));
    assert_eq!(asset.retain(Ok(vec![2])), Ok(vec![1]));
}

#[test]
fn replaced_asset_is_dirty() {
    let manifest = Manifest::new();
    let value = string("cover.webp");

    let mut asset = Asset::decode(&Reader::new(&manifest, &value)).unwrap();

    asset.replace(vec![7, 7]);

    assert_eq!(asset.track(), Track::Dirty);
    assert_eq!(asset.load(&EmptySource), Ok(vec![7, 7]));
}

#[test]
fn asset_of_another_shape_is_a_mismatch() {
    let manifest = Manifest::new();
    let value = Value::Bool(true);

    let result = Asset::decode(&Reader::new(&manifest, &value));

    assert_eq!(
        result.unwrap_err(),
        Error::MismatchType { expected: "string".to_string(), found: Value::Bool(true) }
    );
}

#[test]
fn text_encode() {
    let text = Text::new()
        .with_content("This is a content.")
        .with_comment("This is a comment.");

    let manifest = Manifest::default();

    let mut writer = Writer::new(&manifest);

    assert!(Codec::encode(&text, &mut writer).is_ok());

    let value = writer.into_value();

    assert_eq!(value, text_value("This is a content.", "This is a comment."));
}

#[test]
fn note_new() {
    let note = Note::new();

    assert_eq!(f32::from_bits(note.x()), 0.0);
    assert_eq!(f32::from_bits(note.y()), 0.0);

    assert!(note.texts().is_empty());
}

#[test]
fn note_with_position() {
    let note = Note::new().with_position(1.0f32.to_bits(), 2.0f32.to_bits());

    assert_eq!(f32::from_bits(note.x()), 1.0);
    assert_eq!(f32::from_bits(note.y()), 2.0);
}

#[test]
fn with_x() {
    let note = Note::new().with_x(1.0f32.to_bits());

    assert_eq!(f32::from_bits(note.x()), 1.0);
    assert_eq!(f32::from_bits(note.y()), 0.0);
}

#[test]
fn with_y() {
    let note = Note::new().with_y(2.0f32.to_bits());

    assert_eq!(f32::from_bits(note.x()), 0.0);
    assert_eq!(f32::from_bits(note.y()), 2.0);
}

#[test]
fn note_with_texts() {
    let text1 = Text::new().with_content("This is a content 1.");
    let text2 = Text::new().with_content("This is a content 2.");
    let text3 = Text::new().with_content("This is a content 3.");

    let note = Note::new()
        .with_text(text1.clone())
        .with_text(text2.clone())
        .with_text(text3.clone());

    assert_eq!(note.texts().len(), 3);

    assert_eq!(note.texts()[0].content(), "This is a content 1.");
    assert_eq!(note.texts()[1].content(), "This is a content 2.");
    assert_eq!(note.texts()[2].content(), "This is a content 3.");
}

#[test]
fn set_position() {
    let mut note = Note::new();

    note.set_position(1.0f32.to_bits(), 2.0f32.to_bits());

    assert_eq!(f32::from_bits(note.x()), 1.0);
    assert_eq!(f32::from_bits(note.y()), 2.0);
}

#[test]
fn note_set_x() {
    let mut note = Note::new();

    note.set_x(1.0f32.to_bits());

    assert_eq!(f32::from_bits(note.x()), 1.0);
    assert_eq!(f32::from_bits(note.y()), 0.0);
}

#[test]
fn note_set_y() {
    let mut note = Note::new();

    note.set_y(2.0f32.to_bits());

    assert_eq!(f32::from_bits(note.x()), 0.0);
    assert_eq!(f32::from_bits(note.y()), 2.0);
}

#[test]
fn set_x_and_y() {
    let mut note = Note::new();

    note.set_x(1.0f32.to_bits());
    note.set_y(2.0f32.to_bits());

    assert_eq!(f32::from_bits(note.x()), 1.0);
    assert_eq!(f32::from_bits(note.y()), 2.0);
}

#[test]
fn texts_can_be_changed_in_place() {
    let mut note = Note::new().with_text(Text::new().with_content("first"));

    note.texts_mut().push(Text::new().with_content("second"));
    note.texts_mut()[0].set_comment("seen");

    assert_eq!(note.texts().len(), 2);
    assert_eq!(note.texts()[0].comment(), "seen");
    assert_eq!(note.texts()[1].content(), "second");
}

#[test]
fn texts_are_merged_without_the_empty_ones() {
    let note = Note::new()
        .with_text(Text::new().with_content("one").with_comment("first"))
        .with_text(Text::new().with_comment("second"))
        .with_text(Text::new())
        .with_text(Text::new().with_content("two"));

    assert_eq!(note.merge_texts(), ("one\n\ntwo".to_string(), "first\n\nsecond".to_string()));
    assert_eq!(Note::new().merge_texts(), (String::new(), String::new()));
    assert_eq!(
        Note::new().with_text(Text::new().with_content("only")).merge_texts(),
        ("only".to_string(), String::new())
    );
}

#[test]
fn note_encode() {
    let text1 = Text::new().with_content("This is a content 1.");
    let text2 = Text::new().with_content("This is a content 2.");
    let text3 = Text::new().with_content("This is a content 3.");

    let note = Note::new()
        .with_position(1.0f32.to_bits(), 2.0f32.to_bits())
        .with_text(text1.clone())
        .with_text(text2.clone())
        .with_text(text3.clone());

    let manifest = Manifest::default();

    let mut writer = Writer::new(&manifest);

    assert!(Codec::encode(&note, &mut writer).is_ok());

    let value = writer.into_value();

    assert_eq!(
        value,
        object(vec![
            ("x", number(1.0)),
            ("y", number(2.0)),
            (
                "texts",
                Value::Array(vec![
                    text_value("This is a content 1.", ""),
                    text_value("This is a content 2.", ""),
                    text_value("This is a content 3.", ""),
                ])
            ),
        ])
    );
}

#[test]
fn page_new() {
    let asset = Asset::new("path/to/image.png", Vec::new());

    let page = Page::new().with_image(asset);

    match page.image() {
        Some(image) => assert_eq!(image.path(), "path/to/image.png"),
        None => panic!("Expected image, found None"),
    }

    assert!(page.notes().is_empty());
}

#[test]
fn page_with_notes() {
    let asset = Asset::new("path/to/image.png", Vec::new());

    let note1 = Note::new().with_text(Text::new().with_content("This is a note1."));
    let note2 = Note::new().with_text(Text::new().with_content("This is a note2."));
    let note3 = Note::new().with_text(Text::new().with_content("This is a note3."));

    let page = Page::new()
        .with_image(asset)
        .with_note(note1.clone())
        .with_note(note2.clone())
        .with_note(note3.clone());

    assert_eq!(page.notes().len(), 3);

    assert_eq!(page.notes()[0].texts()[0].content(), "This is a note1.");
    assert_eq!(page.notes()[1].texts()[0].content(), "This is a note2.");
    assert_eq!(page.notes()[2].texts()[0].content(), "This is a note3.");
}

#[test]
fn set_image() {
    let asset1 = Asset::new("path/to/image1.png", Vec::new());
    let asset2 = Asset::new("path/to/image2.png", Vec::new());

    let mut page = Page::new().with_image(asset1);

    match page.image() {
        Some(image) => assert_eq!(image.path(), "path/to/image1.png"),
        None => panic!("Expected image, found None"),
    }

    page.set_image(Some(asset2));

    match page.image() {
        Some(image) => assert_eq!(image.path(), "path/to/image2.png"),
        None => panic!("Expected image, found None"),
    }
}

fn note_value(content: &str) -> Value {
    object(vec![
        ("x", number(0.0)),
        ("y", number(0.0)),
        ("texts", Value::Array(vec![text_value(content, "")])),
    ])
}

#[test]
fn page_encode() {
    let asset = Asset::new("path/to/image.png", Vec::new());

    let note1 = Note::new().with_text(Text::new().with_content("This is a note1."));
    let note2 = Note::new().with_text(Text::new().with_content("This is a note2."));
    let note3 = Note::new().with_text(Text::new().with_content("This is a note3."));

    let page = Page::new()
        .with_image(asset)
        .with_note(note1.clone())
        .with_note(note2.clone())
        .with_note(note3.clone());

    let manifest = Manifest::default();

    let mut writer = Writer::new(&manifest);

    assert!(Codec::encode(&page, &mut writer).is_ok());

    let (_, value) = writer.end();

    assert_eq!(
        value,
        object(vec![
            ("image", string("path/to/image.png")),
            (
                "notes",
                Value::Array(vec![
                    note_value("This is a note1."),
                    note_value("This is a note2."),
                    note_value("This is a note3."),
                ])
            ),
        ])
    );
}

#[test]
fn project_new() {
    let project = Project::new();

    assert!(project.cover().is_none());

    assert!(project.title().is_empty());

    assert!(project.overview().is_empty());

    assert!(project.pages().is_empty());
}

#[test]
fn project_with_cover() {
    let data = vec![0, 1, 2, 3];

    let asset = Asset::new("cover.png", data);

    let project = Project::new().with_cover(asset);

    match project.cover() {
        Some(cover) => assert_eq!(cover.path(), "cover.png"),

        None => panic!("Cover should be set."),
    }
}

#[test]
fn project_with_title() {
    let project = Project::new().with_title("Project Title");

    assert_eq!(project.title(), "Project Title");
}

#[test]
fn with_overview() {
    let project = Project::new().with_overview("This is an overview.");

    assert_eq!(project.overview(), "This is an overview.");
}

#[test]
fn project_with_pages() {
    let page1 = Page::new().with_image(Asset::new("image1.png", Vec::new()));
    let page2 = Page::new().with_image(Asset::new("image2.png", Vec::new()));
    let page3 = Page::new().with_image(Asset::new("image3.png", Vec::new()));

    let project = Project::new()
        .with_page(page1)
        .with_page(page2)
        .with_page(page3);

    assert_eq!(project.pages().len(), 3);

    match project.pages()[0].image() {
        Some(image) => assert_eq!(image.path(), "image1.png"),
        None => panic!("Expected image, found None"),
    }

    match project.pages()[1].image() {
        Some(image) => assert_eq!(image.path(), "image2.png"),
        None => panic!("Expected image, found None"),
    }

    match project.pages()[2].image() {
        Some(image) => assert_eq!(image.path(), "image3.png"),
        None => panic!("Expected image, found None"),
    }
}

fn page_value(image: &str) -> Value {
    object(vec![("image", string(image)), ("notes", Value::Array(Vec::new()))])
}

#[test]
fn project_encode() {
    let page1 = Page::new().with_image(Asset::new("image1.png", Vec::new()));
    let page2 = Page::new().with_image(Asset::new("image2.png", Vec::new()));
    let page3 = Page::new().with_image(Asset::new("image3.png", Vec::new()));

    let project = Project::new()
        .with_title("Project Title")
        .with_overview("This is an overview.")
        .with_page(page1)
        .with_page(page2)
        .with_page(page3);

    let manifest = Manifest::default();

    let mut writer = Writer::new(&manifest);

    assert!(Codec::encode(&project, &mut writer).is_ok());

    let (_, value) = writer.end();

    assert_eq!(
        value,
        object(vec![
            ("cover", Value::Null),
            ("title", string("Project Title")),
            ("overview", string("This is an overview.")),
            (
                "pages",
                Value::Array(vec![
                    page_value("image1.png"),
                    page_value("image2.png"),
                    page_value("image3.png"),
                ])
            ),
        ])
    );
}

fn sample() -> Project {
    let note = Note::new()
        .with_position(0.5f32.to_bits(), (-0.25f32).to_bits())
        .with_text(Text::new().with_content("Hello").with_comment("greeting"))
        .with_text(Text::new().with_content("World"));

    Project::new()
        .with_cover(Asset::new("cover.webp", vec![1, 2, 3]))
        .with_title("Title")
        .with_overview("Overview")
        .with_page(Page::new().with_image(Asset::new("pages/page_1.webp", vec![4, 5])).with_note(note))
        .with_page(Page::new())
}

#[test]
fn project_round_trip() {
    let project = sample();
    let manifest = Manifest::new();

    let mut writer = Writer::new(&manifest);

    project.encode(&mut writer).unwrap();

    let (assets, value) = writer.end();

    assert_eq!(
        assets,
        vec![
            ("cover.webp".to_string(), AssetSnap::Dirty(vec![1, 2, 3])),
            ("pages/page_1.webp".to_string(), AssetSnap::Dirty(vec![4, 5])),
        ]
    );

    let decoded = Project::decode(&Reader::new(&manifest, &value)).unwrap();

    assert_eq!(decoded.title(), "Title");
    assert_eq!(decoded.overview(), "Overview");
    assert_eq!(decoded.cover().unwrap().path(), "cover.webp");
    assert_eq!(decoded.cover().unwrap().track(), Track::Clean);
    assert!(!decoded.cover().unwrap().is_loaded());
    assert_eq!(decoded.pages().len(), 2);
    assert_eq!(decoded.pages()[0].image().unwrap().path(), "pages/page_1.webp");
    assert!(decoded.pages()[1].image().is_none());
    assert!(decoded.pages()[1].notes().is_empty());

    let note = &decoded.pages()[0].notes()[0];

    assert_eq!(f32::from_bits(note.x()), 0.5);
    assert_eq!(f32::from_bits(note.y()), -0.25);
    assert_eq!(note.texts().len(), 2);
    assert_eq!(note.texts()[0], Text::new().with_content("Hello").with_comment("greeting"));
    assert_eq!(note.texts()[1], Text::new().with_content("World"));
}

#[test]
fn round_trip_does_not_depend_on_the_order_of_members() {
    let manifest = Manifest::new();
    let value = object(vec![
        ("pages", Value::Array(vec![object(vec![("notes", Value::Array(Vec::new())), ("image", Value::Null)])])),
        ("extra", Value::Bool(false)),
        ("overview", string("O")),
        ("title", string("T")),
        ("cover", Value::Null),
    ]);

    let decoded = Project::decode(&Reader::new(&manifest, &value)).unwrap();

    assert_eq!(decoded.title(), "T");
    assert_eq!(decoded.overview(), "O");
    assert!(decoded.cover().is_none());
    assert_eq!(decoded.pages().len(), 1);
}

#[test]
fn unsupported_version_is_refused_by_every_codec() {
    let manifest = Manifest::new().with_version(3);
    let unsupported = Error::UnsupportedVersion { version: 3 };

    let mut writer = Writer::new(&manifest);

    assert_eq!(sample().encode(&mut writer), Err(Error::UnsupportedVersion { version: 3 }));
    assert_eq!(Page::new().encode(&mut writer), Err(Error::UnsupportedVersion { version: 3 }));
    assert_eq!(Note::new().encode(&mut writer), Err(Error::UnsupportedVersion { version: 3 }));
    assert_eq!(Text::new().encode(&mut writer), Err(Error::UnsupportedVersion { version: 3 }));
    assert_eq!(
        Asset::new("a", Vec::new()).encode(&mut writer),
        Err(Error::UnsupportedVersion { version: 3 })
    );
    assert_eq!(writer.into_value(), Value::Null);

    let value = text_value("a", "b");
    let reader = Reader::new(&manifest, &value);

    assert_eq!(Text::decode(&reader).unwrap_err(), unsupported);
    assert_eq!(Project::decode(&reader).unwrap_err(), unsupported);
    assert_eq!(Page::decode(&reader).unwrap_err(), unsupported);
    assert_eq!(Note::decode(&reader).unwrap_err(), unsupported);
    assert_eq!(Asset::decode(&reader).unwrap_err(), unsupported);
    assert_eq!(String::decode(&reader).unwrap_err(), unsupported);
}

#[test]
fn missing_field_names_the_field() {
    let manifest = Manifest::new();
    let value = object(vec![("content", string("only"))]);

    let result = Text::decode(&Reader::new(&manifest, &value));

    assert_eq!(result.unwrap_err(), Error::MissingField { field: "comment".to_string() });

    let value = object(vec![
        ("cover", Value::Null),
        ("title", string("T")),
        ("overview", string("O")),
        (
            "pages",
            Value::Array(vec![object(vec![
                ("image", Value::Null),
                ("notes", Value::Array(vec![object(vec![("x", number(0.0)), ("texts", Value::Array(Vec::new()))])])),
            ])]),
        ),
    ]);

    let result = Project::decode(&Reader::new(&manifest, &value));

    assert_eq!(result.unwrap_err(), Error::MissingField { field: "y".to_string() });
}

#[test]
fn title_that_is_a_number_is_a_mismatch() {
    let manifest = Manifest::new();
    let value = object(vec![
        ("cover", Value::Null),
        ("title", number(12.0)),
        ("overview", string("O")),
        ("pages", Value::Array(Vec::new())),
    ]);

    let reader = Reader::new(&manifest, &value);

    assert_eq!(
        Project::decode(&reader).unwrap_err(),
        Error::MismatchType { expected: "string".to_string(), found: number(12.0) }
    );
    assert_eq!(
        reader.read::<String>("title").unwrap_err(),
        Error::MismatchType { expected: "string".to_string(), found: number(12.0) }
    );
    assert_eq!(reader.field("title").unwrap().value(), &number(12.0));
}

#[test]
fn other_mismatches() {
    let manifest = Manifest::new();
    let value = object(vec![("x", string("left")), ("pages", string("none"))]);
    let reader = Reader::new(&manifest, &value);

    assert_eq!(
        reader.read::<u32>("x").unwrap_err(),
        Error::MismatchType { expected: "number".to_string(), found: string("left") }
    );
    assert_eq!(
        reader.read::<Vec<Page>>("pages").unwrap_err(),
        Error::MismatchType { expected: "array".to_string(), found: string("none") }
    );
    assert_eq!(
        reader.read::<Option<Asset>>("cover").unwrap_err(),
        Error::MissingField { field: "cover".to_string() }
    );
}

#[test]
fn writer_overwrites_a_field_and_an_asset() {
    let manifest = Manifest::new();

    let mut writer = Writer::new(&manifest);

    writer.value(Value::Bool(true));
    writer.field("title", &"first".to_string()).unwrap();
    writer.field("cover", &Some(Asset::new("cover.webp", vec![1]))).unwrap();
    writer.field("title", &"second".to_string()).unwrap();
    writer.asset("cover.webp".to_string(), AssetSnap::Clean);
    writer.asset("other.webp".to_string(), AssetSnap::Dirty(vec![2]));

    assert_eq!(writer.manifest().version(), 0);

    let (assets, value) = writer.end();

    assert_eq!(value, object(vec![("title", string("second")), ("cover", string("cover.webp"))]));
    assert_eq!(
        assets,
        vec![
            ("cover.webp".to_string(), AssetSnap::Clean),
            ("other.webp".to_string(), AssetSnap::Dirty(vec![2])),
        ]
    );
}

#[test]
fn value_tree_lookup_and_copy() {
    let mut value = Value::null();

    assert!(value.is_null());

    value.insert("a", Value::number(1));
    value.insert("b", Value::string("two"));
    value.insert("a", Value::Array(vec![Value::Null]));

    assert_eq!(value.get("a"), Some(&Value::Array(vec![Value::Null])));
    assert_eq!(value.get("b").and_then(|member| member.as_str()), Some("two"));
    assert_eq!(value.get("c"), None);
    assert_eq!(Value::number(7).as_number(), Some(7));
    assert_eq!(Value::string("x").as_number(), None);
    assert_eq!(Value::string("x").as_array(), None);
    assert_eq!(Value::Bool(true).get("a"), None);
    assert_eq!(value.duplicate(), value);
}
