use cyfile::binary::Decode;
use cyfile::binary::Encode;
use cyfile::binary::Error;
use cyfile::binary::Reader;
use cyfile::binary::Writer;
use cyfile::Credit;
use cyfile::Date;
use cyfile::Text;

#[test]
fn mod_codec() {
    let artists = Credit::Artists;
    let translators = Credit::Translators;
    let proofreaders = Credit::Proofreaders;
    let retouchers = Credit::Retouchers;
    let typesetters = Credit::Typesetters;
    let supervisors = Credit::Supervisors;

    let mut writer = Writer::new(Vec::new());

    writer.write_object(&artists).unwrap();
    writer.write_object(&translators).unwrap();
    writer.write_object(&proofreaders).unwrap();
    writer.write_object(&retouchers).unwrap();
    writer.write_object(&typesetters).unwrap();
    writer.write_object(&supervisors).unwrap();

    let buffer = writer.into_inner();

    assert_eq!(buffer, vec![0, 1, 2, 3, 4, 5]);

    let mut reader = Reader::new(buffer);

    assert_eq!(reader.read_object::<Credit>().unwrap(), artists);
    assert_eq!(reader.read_object::<Credit>().unwrap(), translators);
    assert_eq!(reader.read_object::<Credit>().unwrap(), proofreaders);
    assert_eq!(reader.read_object::<Credit>().unwrap(), retouchers);
    assert_eq!(reader.read_object::<Credit>().unwrap(), typesetters);
    assert_eq!(reader.read_object::<Credit>().unwrap(), supervisors);
    assert_eq!(reader.read_object::<Credit>(), Err(Error::UnexpectedEnd));
}

#[test]
fn date_codec() {
    let date = Date::now();

    let mut writer = Writer::new(Vec::new());

    writer.write_object(&date).unwrap();

    let mut reader = Reader::new(writer.into_inner());

    assert_eq!(reader.read_object::<Date>().unwrap(), date);
}

#[test]
fn date_in_seven_bytes() {
    let date = Date::new(2024, 2, 29, 23, 59, 58);

    let mut writer = Writer::new(Vec::new());

    date.encode(&mut writer).unwrap();

    let buffer = writer.into_inner();

    assert_eq!(buffer, vec![0xE8, 0x07, 2, 29, 23, 59, 58]);

    let mut reader = Reader::new(buffer[..6].to_vec());

    assert_eq!(Date::decode(&mut reader), Err(Error::UnexpectedEnd));
    assert_eq!(reader.remaining(), 6);
}

#[test]
fn text_codec() {
    let text = Text::new().with_content("Content").with_comment("Comment");

    let mut writer = Writer::new(Vec::new());

    writer.write_object(&text).unwrap();

    let mut reader = Reader::new(writer.into_inner());

    assert_eq!(reader.read_object::<Text>().unwrap(), text);
}

#[test]
fn text_in_bytes() {
    let text = Text::new().with_content("ab").with_comment("c");

    let mut writer = Writer::new(vec![9]);

    writer.write_object(&text).unwrap();

    let buffer = writer.into_inner();

    assert_eq!(buffer, vec![9, 2, 0, 0, 0, b'a', b'b', 1, 0, 0, 0, b'c']);

    let mut reader = Reader::new(buffer[..11].to_vec());

    reader.seek(1);

    assert_eq!(reader.position(), 1);
    assert_eq!(reader.read_object::<Text>(), Err(Error::UnexpectedEnd));
    assert_eq!(reader.position(), 1);

    let mut reader = Reader::new(vec![1, 0, 0, 0, b'a', 1, 0, 0, 0, 0xFF]);

    assert_eq!(reader.read_object::<Text>(), Err(Error::InvalidUtf8));
    assert_eq!(reader.remaining(), 10);
}

#[test]
fn optional_value_follows_its_flag() {
    let mut writer = Writer::new(Vec::new());

    writer.write_object(&Some(Credit::Retouchers)).unwrap();
    writer.write_object(&None::<Credit>).unwrap();

    let buffer = writer.into_inner();

    assert_eq!(buffer, vec![1, 3, 0]);

    let mut reader = Reader::new(buffer);

    assert_eq!(reader.read_object::<Option<Credit>>(), Ok(Some(Credit::Retouchers)));
    assert_eq!(reader.read_object::<Option<Credit>>(), Ok(None));
    assert_eq!(reader.read_object::<Option<Credit>>(), Err(Error::UnexpectedEnd));

    let mut reader = Reader::new(vec![1]);

    assert_eq!(reader.read_object::<Option<Credit>>(), Err(Error::UnexpectedEnd));
    assert_eq!(reader.remaining(), 1);
}

#[test]
fn objects_follow_their_count() {
    let texts = vec![Text::new().with_content("a"), Text::new().with_comment("b")];

    let mut writer = Writer::new(Vec::new());

    writer.write_objects::<u8, Text>(&texts).unwrap();

    let buffer = writer.into_inner();

    assert_eq!(buffer, vec![2, 1, 0, 0, 0, b'a', 0, 0, 0, 0, 0, 0, 0, 0, 1, 0, 0, 0, b'b']);

    let mut reader = Reader::new(buffer.clone());

    assert_eq!(reader.read_objects::<u8, Text>().unwrap(), texts);
    assert_eq!(reader.remaining(), 0);

    let mut reader = Reader::new(buffer[..18].to_vec());

    assert_eq!(reader.read_objects::<u8, Text>(), Err(Error::UnexpectedEnd));
    assert_eq!(reader.remaining(), 18);
}

#[test]
fn too_many_objects_are_refused_and_nothing_is_written() {
    let credits = vec![Credit::Artists; 256];

    let mut writer = Writer::new(vec![5]);

    assert_eq!(writer.write_objects::<u8, Credit>(&credits), Err(Error::InvalidLength));
    assert_eq!(writer.len(), 1);

    writer.write_objects::<u16, Credit>(&credits).unwrap();

    assert_eq!(writer.len(), 1 + 2 + 256);

    writer.truncate(1);

    assert_eq!(writer.into_inner(), vec![5]);
}
