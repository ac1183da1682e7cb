//! The document model: a project of pages, each with notes, each with
//! texts, and the form of each in the value tree.

use crate::asset::Asset;
use crate::asset::AssetModel;
use crate::asset::Snap;
use crate::binary::fits;
use crate::binary::le_bytes;
use crate::binary::lemma_string_with_len_round_trip;
use crate::binary::parse_bytes_with_len;
use crate::binary::Decode;
use crate::binary::Encode;
use crate::binary::Error as BytesError;
use crate::binary::Reader as BytesReader;
use crate::binary::Writer as BytesWriter;
use crate::codec::read_field;
use crate::codec::unsupported;
use crate::codec::Codec;
use crate::codec::Reader;
use crate::codec::Writer;
use crate::error::Error;
use crate::error::Fault;
use crate::value::Json;
use vstd::prelude::*;
use vstd::string::StringExecFns;
use vstd::string::StringSliceAdditionalSpecFns;
use vstd::utf8::decode_utf8;
use vstd::utf8::encode_utf8;
use vstd::utf8::valid_utf8;

verus! {

/// The first of two failures, in order.
pub open spec fn or_else(first: Option<Fault>, second: Option<Fault>) -> Option<Fault> {
    if first is Some {
        first
    } else {
        second
    }
}

/// Model of a [`Text`].
pub ghost struct TextModel {
    pub content: Seq<char>,
    pub comment: Seq<char>,
}

impl TextModel {
    /// The text as it is shown: the content and the comment, each under
    /// its heading, the empty ones left out, with an empty line between.
    pub open spec fn shown(self) -> Seq<char> {
        let content = "Content:\n  "@ + self.content;
        let comment = "Comment:\n  "@ + self.comment;
        if self.content.len() == 0 && self.comment.len() == 0 {
            Seq::empty()
        } else if self.comment.len() == 0 {
            content
        } else if self.content.len() == 0 {
            comment
        } else {
            content + "\n\n"@ + comment
        }
    }
}

/// A translated text with a comment on it.
#[derive(Clone, Debug, PartialEq, Eq)]
pub struct Text {
    content: String,
    comment: String,
}

impl DeepView for Text {
    type V = TextModel;

    closed spec fn deep_view(&self) -> TextModel {
        TextModel { content: self.content@, comment: self.comment@ }
    }
}

impl Text {
    /// A text with empty content and comment.
    pub fn new() -> (text: Text)
        ensures
            text.deep_view() == (TextModel { content: Seq::empty(), comment: Seq::empty() }),
    {
        Text { content: String::new(), comment: String::new() }
    }

    /// The content.
    pub fn content(&self) -> (content: &str)
        ensures
            content@ == self.deep_view().content,
    {
        self.content.as_str()
    }

    /// Replaces the content.
    pub fn set_content(&mut self, content: &str)
        ensures
            final(self).deep_view() == (TextModel {
                content: content@,
                comment: old(self).deep_view().comment,
            }),
    {
        self.content = content.to_owned();
    }

    /// The text with its content replaced.
    pub fn with_content(self, content: &str) -> (text: Text)
        ensures
            text.deep_view() == (TextModel {
                content: content@,
                comment: self.deep_view().comment,
            }),
    {
        Text { content: content.to_owned(), comment: self.comment }
    }

    /// The comment.
    pub fn comment(&self) -> (comment: &str)
        ensures
            comment@ == self.deep_view().comment,
    {
        self.comment.as_str()
    }

    /// Replaces the comment.
    pub fn set_comment(&mut self, comment: &str)
        ensures
            final(self).deep_view() == (TextModel {
                content: old(self).deep_view().content,
                comment: comment@,
            }),
    {
        self.comment = comment.to_owned();
    }

    /// The text with its comment replaced.
    pub fn with_comment(self, comment: &str) -> (text: Text)
        ensures
            text.deep_view() == (TextModel {
                content: self.deep_view().content,
                comment: comment@,
            }),
    {
        Text { content: self.content, comment: comment.to_owned() }
    }

    /// A text with this content and this comment.
    pub fn with_content_and_comment(content: &str, comment: &str) -> (text: Text)
        ensures
            text.deep_view() == (TextModel { content: content@, comment: comment@ }),
    {
        Text { content: content.to_owned(), comment: comment.to_owned() }
    }

    /// The text as it is shown: the content and the comment, each under
    /// its heading, the empty ones left out, with an empty line between.
    pub fn describe(&self) -> (shown: String)
        ensures
            shown@ == self.deep_view().shown(),
    {
        let mut shown = String::new();
        let content = self.content.as_str();
        let comment = self.comment.as_str();
        if !content.is_empty() {
            shown.append("Content:\n  ");
            shown.append(content);
        }
        if !comment.is_empty() {
            if !content.is_empty() {
                shown.append("\n\n");
            }
            shown.append("Comment:\n  ");
            shown.append(comment);
        }
        assert(shown@ =~= self.deep_view().shown());
        shown
    }

    /// A copy of the text.
    pub fn duplicate(&self) -> (text: Text)
        ensures
            text.deep_view() == self.deep_view(),
    {
        Text { content: self.content.clone(), comment: self.comment.clone() }
    }

    /// Whether two texts have the same content and the same comment.
    pub fn same(&self, other: &Text) -> (same: bool)
        ensures
            same == (self.deep_view() == other.deep_view()),
    {
        self.content == other.content && self.comment == other.comment
    }
}

impl Default for Text {
    fn default() -> (text: Text)
        ensures
            text.deep_view() == (TextModel { content: Seq::empty(), comment: Seq::empty() }),
    {
        Text::new()
    }
}

impl Codec for Text {
    open spec fn fault(model: TextModel, version: u8) -> Option<Fault> {
        if version != 0 {
            Some(unsupported(version))
        } else {
            or_else(
                <String as Codec>::fault(model.content, version),
                <String as Codec>::fault(model.comment, version),
            )
        }
    }

    open spec fn tree(model: TextModel, before: Json) -> Json {
        before.with_field("content"@, <String as Codec>::tree(model.content, Json::Null)).with_field(
            "comment"@,
            <String as Codec>::tree(model.comment, Json::Null),
        )
    }

    open spec fn channel(model: TextModel, before: Seq<(Seq<char>, Snap)>) -> Seq<
        (Seq<char>, Snap),
    > {
        <String as Codec>::channel(
            model.comment,
            <String as Codec>::channel(model.content, before),
        )
    }

    open spec fn parse(json: Json, version: u8) -> Result<TextModel, Fault> {
        if version != 0 {
            Err(unsupported(version))
        } else {
            match read_field::<String>(json, "content"@, version) {
                Err(fault) => Err(fault),
                Ok(content) => match read_field::<String>(json, "comment"@, version) {
                    Err(fault) => Err(fault),
                    Ok(comment) => Ok(TextModel { content, comment }),
                },
            }
        }
    }

    fn encode(&self, writer: &mut Writer) -> (result: Result<(), Error>) {
        let version = writer.manifest().version();
        if version != 0 {
            return Err(Error::UnsupportedVersion { version });
        }
        writer.field("content", &self.content)?;
        writer.field("comment", &self.comment)?;
        Ok(())
    }

    fn decode(reader: &Reader) -> (result: Result<Text, Error>) {
        let version = reader.manifest().version();
        if version != 0 {
            return Err(Error::UnsupportedVersion { version });
        }
        let content: String = reader.read("content")?;
        let comment: String = reader.read("comment")?;
        Ok(Text { content, comment })
    }
}

/// The bytes that stand for a text: the content, then the comment, each in
/// UTF-8 behind its length in four bytes.
pub open spec fn text_layout(text: TextModel) -> Option<Seq<u8>> {
    let content = encode_utf8(text.content);
    let comment = encode_utf8(text.comment);
    if fits(content.len(), 4) && fits(comment.len(), 4) {
        Some(le_bytes(content.len(), 4) + content + le_bytes(comment.len(), 4) + comment)
    } else {
        None
    }
}

impl Encode for Text {
    open spec fn layout(&self) -> Option<Seq<u8>> {
        text_layout(self.deep_view())
    }

    fn encode(&self, writer: &mut BytesWriter) -> (result: Result<(), BytesError>) {
        let mark = writer.len();
        writer.write_string_with_len::<u32>(self.content.as_str())?;
        match writer.write_string_with_len::<u32>(self.comment.as_str()) {
            Ok(()) => {
                assert(writer.written() =~= old(writer).written() + text_layout(
                    self.deep_view(),
                )->0);
                Ok(())
            },
            Err(e) => {
                writer.truncate(mark);
                assert(writer.written() =~= old(writer).written());
                Err(e)
            },
        }
    }
}

impl Decode for Text {
    open spec fn parsed(rest: Seq<u8>) -> Result<(TextModel, Seq<u8>), BytesError> {
        match parse_bytes_with_len(rest, 4) {
            Err(e) => Err(e),
            Ok((content, left)) => if !valid_utf8(content) {
                Err(BytesError::InvalidUtf8)
            } else {
                match parse_bytes_with_len(left, 4) {
                    Err(e) => Err(e),
                    Ok((comment, behind)) => if !valid_utf8(comment) {
                        Err(BytesError::InvalidUtf8)
                    } else {
                        Ok(
                            (
                                TextModel {
                                    content: decode_utf8(content),
                                    comment: decode_utf8(comment),
                                },
                                behind,
                            ),
                        )
                    },
                }
            },
        }
    }

    fn decode(reader: &mut BytesReader) -> (result: Result<Text, BytesError>) {
        let start = reader.position();
        let content = reader.read_string_with_len::<u32>()?;
        match reader.read_string_with_len::<u32>() {
            Ok(comment) => Ok(Text { content, comment }),
            Err(e) => {
                reader.seek(start);
                Err(e)
            },
        }
    }
}

/// A text that was written in bytes is read back, and what follows it is
/// left.
pub proof fn lemma_text_bytes_round_trip(text: TextModel, tail: Seq<u8>)
    requires
        text_layout(text) is Some,
        encode_utf8(text.content).len() <= usize::MAX,
        encode_utf8(text.comment).len() <= usize::MAX,
    ensures
        Text::parsed(text_layout(text)->0 + tail) == Ok::<(TextModel, Seq<u8>), BytesError>(
            (text, tail),
        ),
{
    let content = encode_utf8(text.content);
    let comment = encode_utf8(text.comment);
    let second = le_bytes(comment.len(), 4) + comment + tail;
    lemma_string_with_len_round_trip(text.content, 4, second);
    lemma_string_with_len_round_trip(text.comment, 4, tail);
    assert(text_layout(text)->0 + tail =~= le_bytes(content.len(), 4) + content + second);
}

/// Model of a [`Note`].
pub ghost struct NoteModel {
    pub x: u32,
    pub y: u32,
    pub texts: Seq<TextModel>,
}

/// The first `count` of `parts`, the empty ones left out, joined by an
/// empty line.
pub open spec fn joined(parts: Seq<Seq<char>>, count: int) -> Seq<char>
    decreases count,
{
    if count <= 0 || count > parts.len() {
        Seq::empty()
    } else {
        let head = joined(parts, count - 1);
        let part = parts[count - 1];
        if part.len() == 0 {
            head
        } else if head.len() == 0 {
            part
        } else {
            head + "\n\n"@ + part
        }
    }
}

impl NoteModel {
    /// The contents of the texts, in order.
    pub open spec fn contents(self) -> Seq<Seq<char>> {
        Seq::new(self.texts.len(), |i: int| self.texts[i].content)
    }

    /// The comments of the texts, in order.
    pub open spec fn comments(self) -> Seq<Seq<char>> {
        Seq::new(self.texts.len(), |i: int| self.texts[i].comment)
    }
}

/// A mark on a page. Its position is normalized, each axis conventionally
/// within -1 to 1 with `y` growing upward, and each coordinate is held as
/// the bit pattern of an IEEE-754 single-precision value.
#[derive(Clone, Debug)]
pub struct Note {
    x: u32,
    y: u32,
    texts: Vec<Text>,
}

impl DeepView for Note {
    type V = NoteModel;

    closed spec fn deep_view(&self) -> NoteModel {
        NoteModel { x: self.x, y: self.y, texts: self.texts.deep_view() }
    }
}

impl Note {
    /// A note at the origin, without texts.
    pub fn new() -> (note: Note)
        ensures
            note.deep_view() == (NoteModel { x: 0, y: 0, texts: Seq::empty() }),
    {
        let note = Note { x: 0, y: 0, texts: Vec::new() };
        assert(note.texts.deep_view() =~= Seq::<TextModel>::empty());
        note
    }

    /// Moves the note.
    pub fn set_position(&mut self, x: u32, y: u32)
        ensures
            final(self).deep_view() == (NoteModel { x, y, texts: old(self).deep_view().texts }),
    {
        self.x = x;
        self.y = y;
    }

    /// The note moved to another position.
    pub fn with_position(self, x: u32, y: u32) -> (note: Note)
        ensures
            note.deep_view() == (NoteModel { x, y, texts: self.deep_view().texts }),
    {
        Note { x, y, texts: self.texts }
    }

    /// The horizontal coordinate.
    pub fn x(&self) -> (x: u32)
        ensures
            x == self.deep_view().x,
    {
        self.x
    }

    /// Replaces the horizontal coordinate.
    pub fn set_x(&mut self, x: u32)
        ensures
            final(self).deep_view() == (NoteModel { x, ..old(self).deep_view() }),
    {
        self.x = x;
    }

    /// The note with its horizontal coordinate replaced.
    pub fn with_x(self, x: u32) -> (note: Note)
        ensures
            note.deep_view() == (NoteModel { x, ..self.deep_view() }),
    {
        Note { x, y: self.y, texts: self.texts }
    }

    /// The vertical coordinate.
    pub fn y(&self) -> (y: u32)
        ensures
            y == self.deep_view().y,
    {
        self.y
    }

    /// Replaces the vertical coordinate.
    pub fn set_y(&mut self, y: u32)
        ensures
            final(self).deep_view() == (NoteModel { y, ..old(self).deep_view() }),
    {
        self.y = y;
    }

    /// The note with its vertical coordinate replaced.
    pub fn with_y(self, y: u32) -> (note: Note)
        ensures
            note.deep_view() == (NoteModel { y, ..self.deep_view() }),
    {
        Note { x: self.x, y, texts: self.texts }
    }

    /// The texts, in order.
    pub fn texts(&self) -> (texts: &Vec<Text>)
        ensures
            texts.deep_view() == self.deep_view().texts,
    {
        &self.texts
    }

    /// The texts, to be changed in place.
    pub fn texts_mut(&mut self) -> (texts: &mut Vec<Text>)
        ensures
            texts.deep_view() == old(self).deep_view().texts,
            final(self).deep_view() == (NoteModel {
                texts: final(texts).deep_view(),
                ..old(self).deep_view()
            }),
    {
        &mut self.texts
    }

    /// All contents as one text and all comments as another: in each, the
    /// parts that are not empty, in order, with an empty line between two.
    pub fn merge_texts(&self) -> (merged: (String, String))
        ensures
            merged.0@ == joined(self.deep_view().contents(), self.deep_view().texts.len() as int),
            merged.1@ == joined(self.deep_view().comments(), self.deep_view().texts.len() as int),
    {
        let ghost model = self.deep_view();
        let mut content = String::new();
        let mut comment = String::new();
        let mut i: usize = 0;
        while i < self.texts.len()
            invariant
                i <= self.texts.len(),
                model == self.deep_view(),
                model.texts.len() == self.texts.len(),
                content@ == joined(model.contents(), i as int),
                comment@ == joined(model.comments(), i as int),
            decreases self.texts.len() - i,
        {
            let text = &self.texts[i];
            assert(model.texts[i as int] == text.deep_view());
            if !text.content().is_empty() {
                if !content.as_str().is_empty() {
                    content.append("\n\n");
                }
                content.append(text.content());
            }
            if !text.comment().is_empty() {
                if !comment.as_str().is_empty() {
                    comment.append("\n\n");
                }
                comment.append(text.comment());
            }
            assert(content@ =~= joined(model.contents(), i + 1));
            assert(comment@ =~= joined(model.comments(), i + 1));
            i += 1;
        }
        (content, comment)
    }

    /// The note with one more text at the end.
    pub fn with_text(self, text: Text) -> (note: Note)
        ensures
            note.deep_view() == (NoteModel {
                texts: self.deep_view().texts.push(text.deep_view()),
                ..self.deep_view()
            }),
    {
        let mut texts = self.texts;
        texts.push(text);
        assert(texts.deep_view() =~= self.texts.deep_view().push(text.deep_view()));
        Note { x: self.x, y: self.y, texts }
    }
}

impl Default for Note {
    fn default() -> (note: Note)
        ensures
            note.deep_view() == (NoteModel { x: 0, y: 0, texts: Seq::empty() }),
    {
        Note::new()
    }
}

impl Codec for Note {
    open spec fn fault(model: NoteModel, version: u8) -> Option<Fault> {
        if version != 0 {
            Some(unsupported(version))
        } else {
            or_else(
                <u32 as Codec>::fault(model.x, version),
                or_else(
                    <u32 as Codec>::fault(model.y, version),
                    <Vec<Text> as Codec>::fault(model.texts, version),
                ),
            )
        }
    }

    open spec fn tree(model: NoteModel, before: Json) -> Json {
        before.with_field("x"@, <u32 as Codec>::tree(model.x, Json::Null)).with_field(
            "y"@,
            <u32 as Codec>::tree(model.y, Json::Null),
        ).with_field("texts"@, <Vec<Text> as Codec>::tree(model.texts, Json::Null))
    }

    open spec fn channel(model: NoteModel, before: Seq<(Seq<char>, Snap)>) -> Seq<
        (Seq<char>, Snap),
    > {
        <Vec<Text> as Codec>::channel(
            model.texts,
            <u32 as Codec>::channel(model.y, <u32 as Codec>::channel(model.x, before)),
        )
    }

    open spec fn parse(json: Json, version: u8) -> Result<NoteModel, Fault> {
        if version != 0 {
            Err(unsupported(version))
        } else {
            match read_field::<u32>(json, "x"@, version) {
                Err(fault) => Err(fault),
                Ok(x) => match read_field::<u32>(json, "y"@, version) {
                    Err(fault) => Err(fault),
                    Ok(y) => match read_field::<Vec<Text>>(json, "texts"@, version) {
                        Err(fault) => Err(fault),
                        Ok(texts) => Ok(NoteModel { x, y, texts }),
                    },
                },
            }
        }
    }

    fn encode(&self, writer: &mut Writer) -> (result: Result<(), Error>) {
        let version = writer.manifest().version();
        if version != 0 {
            return Err(Error::UnsupportedVersion { version });
        }
        writer.field("x", &self.x)?;
        writer.field("y", &self.y)?;
        writer.field("texts", &self.texts)?;
        Ok(())
    }

    fn decode(reader: &Reader) -> (result: Result<Note, Error>) {
        let version = reader.manifest().version();
        if version != 0 {
            return Err(Error::UnsupportedVersion { version });
        }
        let x: u32 = reader.read("x")?;
        let y: u32 = reader.read("y")?;
        let texts: Vec<Text> = reader.read("texts")?;
        Ok(Note { x, y, texts })
    }
}

/// Model of a [`Page`].
pub ghost struct PageModel {
    pub image: Option<AssetModel>,
    pub notes: Seq<NoteModel>,
}

impl PageModel {
    /// The page as it is read back from a container.
    pub open spec fn stored(self) -> PageModel {
        PageModel {
            image: match self.image {
                Some(asset) => Some(asset.stored()),
                None => None,
            },
            notes: self.notes,
        }
    }
}

/// One page: an image and the notes on it.
#[derive(Debug)]
pub struct Page {
    image: Option<Asset>,
    notes: Vec<Note>,
}

impl DeepView for Page {
    type V = PageModel;

    closed spec fn deep_view(&self) -> PageModel {
        PageModel { image: self.image.deep_view(), notes: self.notes.deep_view() }
    }
}

impl Page {
    /// A page without image or notes.
    pub fn new() -> (page: Page)
        ensures
            page.deep_view() == (PageModel { image: None, notes: Seq::empty() }),
    {
        let page = Page { image: None, notes: Vec::new() };
        assert(page.notes.deep_view() =~= Seq::<NoteModel>::empty());
        page
    }

    /// The image, if the page has one.
    pub fn image(&self) -> (image: Option<&Asset>)
        ensures
            image.deep_view() == self.deep_view().image,
    {
        self.image.as_ref()
    }

    /// Replaces the image.
    pub fn set_image(&mut self, image: Option<Asset>)
        ensures
            final(self).deep_view() == (PageModel {
                image: image.deep_view(),
                notes: old(self).deep_view().notes,
            }),
    {
        self.image = image;
    }

    /// The page with its image replaced.
    pub fn with_image(self, image: Asset) -> (page: Page)
        ensures
            page.deep_view() == (PageModel {
                image: Some(image.deep_view()),
                notes: self.deep_view().notes,
            }),
    {
        Page { image: Some(image), notes: self.notes }
    }

    /// The notes, in order.
    pub fn notes(&self) -> (notes: &Vec<Note>)
        ensures
            notes.deep_view() == self.deep_view().notes,
    {
        &self.notes
    }

    /// The notes, to be changed in place.
    pub fn notes_mut(&mut self) -> (notes: &mut Vec<Note>)
        ensures
            notes.deep_view() == old(self).deep_view().notes,
            final(self).deep_view() == (PageModel {
                notes: final(notes).deep_view(),
                ..old(self).deep_view()
            }),
    {
        &mut self.notes
    }

    /// The page with one more note at the end.
    pub fn with_note(self, note: Note) -> (page: Page)
        ensures
            page.deep_view() == (PageModel {
                notes: self.deep_view().notes.push(note.deep_view()),
                ..self.deep_view()
            }),
    {
        let mut notes = self.notes;
        notes.push(note);
        assert(notes.deep_view() =~= self.notes.deep_view().push(note.deep_view()));
        Page { image: self.image, notes }
    }
}

impl Default for Page {
    fn default() -> (page: Page)
        ensures
            page.deep_view() == (PageModel { image: None, notes: Seq::empty() }),
    {
        Page::new()
    }
}

impl Codec for Page {
    open spec fn fault(model: PageModel, version: u8) -> Option<Fault> {
        if version != 0 {
            Some(unsupported(version))
        } else {
            or_else(
                <Option<Asset> as Codec>::fault(model.image, version),
                <Vec<Note> as Codec>::fault(model.notes, version),
            )
        }
    }

    open spec fn tree(model: PageModel, before: Json) -> Json {
        before.with_field(
            "image"@,
            <Option<Asset> as Codec>::tree(model.image, Json::Null),
        ).with_field("notes"@, <Vec<Note> as Codec>::tree(model.notes, Json::Null))
    }

    open spec fn channel(model: PageModel, before: Seq<(Seq<char>, Snap)>) -> Seq<
        (Seq<char>, Snap),
    > {
        <Vec<Note> as Codec>::channel(
            model.notes,
            <Option<Asset> as Codec>::channel(model.image, before),
        )
    }

    open spec fn parse(json: Json, version: u8) -> Result<PageModel, Fault> {
        if version != 0 {
            Err(unsupported(version))
        } else {
            match read_field::<Option<Asset>>(json, "image"@, version) {
                Err(fault) => Err(fault),
                Ok(image) => match read_field::<Vec<Note>>(json, "notes"@, version) {
                    Err(fault) => Err(fault),
                    Ok(notes) => Ok(PageModel { image, notes }),
                },
            }
        }
    }

    fn encode(&self, writer: &mut Writer) -> (result: Result<(), Error>) {
        let version = writer.manifest().version();
        if version != 0 {
            return Err(Error::UnsupportedVersion { version });
        }
        writer.field("image", &self.image)?;
        writer.field("notes", &self.notes)?;
        Ok(())
    }

    fn decode(reader: &Reader) -> (result: Result<Page, Error>) {
        let version = reader.manifest().version();
        if version != 0 {
            return Err(Error::UnsupportedVersion { version });
        }
        let image: Option<Asset> = reader.read("image")?;
        let notes: Vec<Note> = reader.read("notes")?;
        Ok(Page { image, notes })
    }
}

/// Model of a [`Project`].
pub ghost struct ProjectModel {
    pub cover: Option<AssetModel>,
    pub title: Seq<char>,
    pub overview: Seq<char>,
    pub pages: Seq<PageModel>,
}

impl ProjectModel {
    /// The project as it is read back from a container: every asset clean,
    /// with its path and without bytes in memory; all else unchanged.
    pub open spec fn stored(self) -> ProjectModel {
        ProjectModel {
            cover: match self.cover {
                Some(asset) => Some(asset.stored()),
                None => None,
            },
            title: self.title,
            overview: self.overview,
            pages: self.pages.map_values(|page: PageModel| page.stored()),
        }
    }
}

/// A document: a cover, a title, an overview and the pages in order.
#[derive(Debug)]
pub struct Project {
    cover: Option<Asset>,
    title: String,
    overview: String,
    pages: Vec<Page>,
}

impl DeepView for Project {
    type V = ProjectModel;

    closed spec fn deep_view(&self) -> ProjectModel {
        ProjectModel {
            cover: self.cover.deep_view(),
            title: self.title@,
            overview: self.overview@,
            pages: self.pages.deep_view(),
        }
    }
}

impl Project {
    /// An empty project.
    pub fn new() -> (project: Project)
        ensures
            project.deep_view() == (ProjectModel {
                cover: None,
                title: Seq::empty(),
                overview: Seq::empty(),
                pages: Seq::empty(),
            }),
    {
        let project = Project {
            cover: None,
            title: String::new(),
            overview: String::new(),
            pages: Vec::new(),
        };
        assert(project.pages.deep_view() =~= Seq::<PageModel>::empty());
        project
    }

    /// The cover, if the project has one.
    pub fn cover(&self) -> (cover: Option<&Asset>)
        ensures
            cover.deep_view() == self.deep_view().cover,
    {
        self.cover.as_ref()
    }

    /// Replaces the cover.
    pub fn set_cover(&mut self, cover: Option<Asset>)
        ensures
            final(self).deep_view() == (ProjectModel {
                cover: cover.deep_view(),
                ..old(self).deep_view()
            }),
    {
        self.cover = cover;
    }

    /// The project with its cover replaced.
    pub fn with_cover(self, cover: Asset) -> (project: Project)
        ensures
            project.deep_view() == (ProjectModel {
                cover: Some(cover.deep_view()),
                ..self.deep_view()
            }),
    {
        Project {
            cover: Some(cover),
            title: self.title,
            overview: self.overview,
            pages: self.pages,
        }
    }

    /// The title.
    pub fn title(&self) -> (title: &str)
        ensures
            title@ == self.deep_view().title,
    {
        self.title.as_str()
    }

    /// Replaces the title.
    pub fn set_title(&mut self, title: &str)
        ensures
            final(self).deep_view() == (ProjectModel { title: title@, ..old(self).deep_view() }),
    {
        self.title = title.to_owned();
    }

    /// The project with its title replaced.
    pub fn with_title(self, title: &str) -> (project: Project)
        ensures
            project.deep_view() == (ProjectModel { title: title@, ..self.deep_view() }),
    {
        Project {
            cover: self.cover,
            title: title.to_owned(),
            overview: self.overview,
            pages: self.pages,
        }
    }

    /// The overview.
    pub fn overview(&self) -> (overview: &str)
        ensures
            overview@ == self.deep_view().overview,
    {
        self.overview.as_str()
    }

    /// Replaces the overview.
    pub fn set_overview(&mut self, overview: &str)
        ensures
            final(self).deep_view() == (ProjectModel {
                overview: overview@,
                ..old(self).deep_view()
            }),
    {
        self.overview = overview.to_owned();
    }

    /// The project with its overview replaced.
    pub fn with_overview(self, overview: &str) -> (project: Project)
        ensures
            project.deep_view() == (ProjectModel { overview: overview@, ..self.deep_view() }),
    {
        Project {
            cover: self.cover,
            title: self.title,
            overview: overview.to_owned(),
            pages: self.pages,
        }
    }

    /// The pages, in order.
    pub fn pages(&self) -> (pages: &Vec<Page>)
        ensures
            pages.deep_view() == self.deep_view().pages,
    {
        &self.pages
    }

    /// The pages, to be changed in place.
    pub fn pages_mut(&mut self) -> (pages: &mut Vec<Page>)
        ensures
            pages.deep_view() == old(self).deep_view().pages,
            final(self).deep_view() == (ProjectModel {
                pages: final(pages).deep_view(),
                ..old(self).deep_view()
            }),
    {
        &mut self.pages
    }

    /// The project with one more page at the end.
    pub fn with_page(self, page: Page) -> (project: Project)
        ensures
            project.deep_view() == (ProjectModel {
                pages: self.deep_view().pages.push(page.deep_view()),
                ..self.deep_view()
            }),
    {
        let mut pages = self.pages;
        pages.push(page);
        assert(pages.deep_view() =~= self.pages.deep_view().push(page.deep_view()));
        Project { cover: self.cover, title: self.title, overview: self.overview, pages }
    }
}

impl Default for Project {
    fn default() -> (project: Project)
        ensures
            project.deep_view() == (ProjectModel {
                cover: None,
                title: Seq::empty(),
                overview: Seq::empty(),
                pages: Seq::empty(),
            }),
    {
        Project::new()
    }
}

impl Codec for Project {
    open spec fn fault(model: ProjectModel, version: u8) -> Option<Fault> {
        if version != 0 {
            Some(unsupported(version))
        } else {
            or_else(
                <Option<Asset> as Codec>::fault(model.cover, version),
                or_else(
                    <String as Codec>::fault(model.title, version),
                    or_else(
                        <String as Codec>::fault(model.overview, version),
                        <Vec<Page> as Codec>::fault(model.pages, version),
                    ),
                ),
            )
        }
    }

    open spec fn tree(model: ProjectModel, before: Json) -> Json {
        before.with_field(
            "cover"@,
            <Option<Asset> as Codec>::tree(model.cover, Json::Null),
        ).with_field("title"@, <String as Codec>::tree(model.title, Json::Null)).with_field(
            "overview"@,
            <String as Codec>::tree(model.overview, Json::Null),
        ).with_field("pages"@, <Vec<Page> as Codec>::tree(model.pages, Json::Null))
    }

    open spec fn channel(model: ProjectModel, before: Seq<(Seq<char>, Snap)>) -> Seq<
        (Seq<char>, Snap),
    > {
        <Vec<Page> as Codec>::channel(
            model.pages,
            <Option<Asset> as Codec>::channel(model.cover, before),
        )
    }

    open spec fn parse(json: Json, version: u8) -> Result<ProjectModel, Fault> {
        if version != 0 {
            Err(unsupported(version))
        } else {
            match read_field::<Option<Asset>>(json, "cover"@, version) {
                Err(fault) => Err(fault),
                Ok(cover) => match read_field::<String>(json, "title"@, version) {
                    Err(fault) => Err(fault),
                    Ok(title) => match read_field::<String>(json, "overview"@, version) {
                        Err(fault) => Err(fault),
                        Ok(overview) => match read_field::<Vec<Page>>(json, "pages"@, version) {
                            Err(fault) => Err(fault),
                            Ok(pages) => Ok(ProjectModel { cover, title, overview, pages }),
                        },
                    },
                },
            }
        }
    }

    fn encode(&self, writer: &mut Writer) -> (result: Result<(), Error>) {
        let version = writer.manifest().version();
        if version != 0 {
            return Err(Error::UnsupportedVersion { version });
        }
        writer.field("cover", &self.cover)?;
        writer.field("title", &self.title)?;
        writer.field("overview", &self.overview)?;
        writer.field("pages", &self.pages)?;
        Ok(())
    }

    fn decode(reader: &Reader) -> (result: Result<Project, Error>) {
        let version = reader.manifest().version();
        if version != 0 {
            return Err(Error::UnsupportedVersion { version });
        }
        let cover: Option<Asset> = reader.read("cover")?;
        let title: String = reader.read("title")?;
        let overview: String = reader.read("overview")?;
        let pages: Vec<Page> = reader.read("pages")?;
        Ok(Project { cover, title, overview, pages })
    }
}

} // verus!
