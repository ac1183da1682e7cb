use cyfile::credit::Credits;
use cyfile::image::Image;
use cyfile::positional::header;
use cyfile::positional::FileError;
use cyfile::tags::Tags;
use cyfile::texts::Texts;
use cyfile::Credit;
use cyfile::Date;
use cyfile::ExportArguments;
use cyfile::File;
use cyfile::Text;
use cyfile::Version;

#[test]
fn date_keeps_its_parts() {
    let date = Date::new(2024, 2, 29, 23, 59, 58);

    assert_eq!(date.year(), 2024);
    assert_eq!(date.month(), 2);
    assert_eq!(date.day(), 29);
    assert_eq!(date.hour(), 23);
    assert_eq!(date.minute(), 59);
    assert_eq!(date.second(), 58);
    assert!(date.same(&Date::new(2024, 2, 29, 23, 59, 58)));
    assert_eq!(date, Date::new(2024, 2, 29, 23, 59, 58));
    assert!(!date.same(&Date::new(2024, 2, 29, 23, 59, 59)));
}

#[test]
fn date_from_a_clock_reading() {
    let date = Date::from_clock(2025, 12, 31, 0, 1, 2);

    assert!(date.same(&Date::new(2025, 12, 31, 0, 1, 2)));
    assert_eq!(Date::from_clock(65536 + 7, 1, 1, 0, 0, 0).year(), 7);
    assert_eq!(Date::from_clock(-1, 1, 1, 0, 0, 0).year(), 65535);
    assert_eq!(Date::from_clock(-65536, 1, 1, 0, 0, 0).year(), 0);
}

#[test]
fn now_is_a_time_of_day() {
    let date = Date::now();

    assert!(date.year() >= 2024);
    assert!((1..=12).contains(&date.month()));
    assert!((1..=31).contains(&date.day()));
    assert!(date.hour() <= 23);
    assert!(date.minute() <= 59);
    assert!(date.second() <= 59);
}

#[test]
fn credit_and_its_number() {
    assert_eq!(Credit::from(0), Credit::Artists);
    assert_eq!(Credit::from(1), Credit::Translators);
    assert_eq!(Credit::from(2), Credit::Proofreaders);
    assert_eq!(Credit::from(3), Credit::Retouchers);
    assert_eq!(Credit::from(4), Credit::Typesetters);
    assert_eq!(Credit::from(5), Credit::Supervisors);
    assert_eq!(Credit::from(200), Credit::Supervisors);
    assert_eq!(Credit::Typesetters.code(), 4);
    assert_eq!(Credit::from(Credit::Supervisors.code()), Credit::Supervisors);
}

#[test]
fn credits_list_names_by_role() {
    let mut credits = Credits::new();

    assert!(credits.get(Credit::Translators).is_none());

    credits.insert(Credit::Translators, "Ann");
    credits.insert(Credit::Translators, "Bob");
    credits.insert(Credit::Translators, "Ann");
    credits.insert(Credit::Artists, "Cy");

    assert_eq!(credits.get(Credit::Translators).unwrap().len(), 2);
    assert!(credits.get(Credit::Translators).unwrap().contains(&"Bob".to_string()));
    assert_eq!(credits.get(Credit::Artists).unwrap().len(), 1);
    assert!(credits.get(Credit::Supervisors).is_none());

    credits.remove(Credit::Translators, "Zed");
    credits.remove(Credit::Artists, "Cy");
    credits.remove(Credit::Supervisors, "Cy");

    assert_eq!(credits.get(Credit::Translators).unwrap().len(), 2);
    assert!(credits.get(Credit::Artists).is_none());
}

#[test]
fn tags_hold_each_tag_once() {
    let mut tags = Tags::new();

    assert!(tags.is_empty());

    tags.insert("one".to_string());
    tags.insert("two".to_string());
    tags.insert("one".to_string());

    assert_eq!(tags.len(), 2);
    assert!(tags.contains(&"one".to_string()));
    assert!(!tags.contains(&"three".to_string()));
    assert_eq!(tags.inner(), &vec!["one".to_string(), "two".to_string()]);

    tags.remove(&"one".to_string());
    tags.remove(&"three".to_string());

    assert_eq!(tags.len(), 1);
    assert!(!tags.contains(&"one".to_string()));
    assert!(!tags.is_empty());
}

#[test]
fn texts_grow_at_both_ends() {
    let mut texts = Texts::new();

    assert!(texts.is_empty());
    assert!(texts.get(0).is_none());

    texts.push_back(Text::new().with_content("b"));
    texts.push_front(Text::new().with_content("a"));
    texts.push_back(Text::new().with_content("d"));
    texts.insert(2, Text::new().with_content("c"));

    assert_eq!(texts.len(), 4);
    assert_eq!(texts.get(0).unwrap().content(), "a");
    assert_eq!(texts.get(1).unwrap().content(), "b");
    assert_eq!(texts.get(2).unwrap().content(), "c");
    assert_eq!(texts.get(3).unwrap().content(), "d");
    assert!(texts.get(4).is_none());

    texts.remove(1);
    texts.remove(9);

    assert_eq!(texts.len(), 3);
    assert_eq!(texts.get(1).unwrap().content(), "c");

    texts.inner_mut().clear();

    assert!(texts.inner().is_empty());
    assert!(Texts::default().is_empty());
}

#[test]
fn image_keeps_bytes_and_size() {
    let mut image = Image::with_size(vec![1, 2, 3], 640, 480);

    assert_eq!(image.data(), &[1, 2, 3]);
    assert_eq!(image.size(), (640, 480));

    image.inner_mut().push(4);

    assert_eq!(image.inner(), &vec![1, 2, 3, 4]);
    assert_eq!(image.size(), (640, 480));
    assert!(Image::new().data().is_empty());
    assert_eq!(Image::default().size(), (0, 0));
}

#[test]
fn head_of_a_file_gives_its_version() {
    let mut head = header().to_vec();

    assert_eq!(head.len(), 15);
    assert_eq!(File::version_of(&head), Err(FileError::InvalidHeader));

    head.extend_from_slice(&[0, 1, 42]);

    assert_eq!(File::version_of(&head), Ok(Version::new(0, 1)));

    head[16] = 3;

    assert_eq!(File::version_of(&head), Err(FileError::UnsupportedVersion { major: 0, minor: 3 }));

    head[16] = 2;
    head[0] = 0;

    assert_eq!(File::version_of(&head), Err(FileError::InvalidHeader));
}

#[test]
fn export_arguments_default_to_the_latest_version() {
    let arguments = ExportArguments::new("out.cy");

    assert_eq!(arguments.filepath, "out.cy");
    assert_eq!(arguments.version, Version::new(0, 2));

    let arguments = arguments.with_version(Version::new(0, 0));

    assert_eq!(arguments.filepath, "out.cy");
    assert_eq!(arguments.version, Version::new(0, 0));
}
