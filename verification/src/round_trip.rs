//! What is written can be read back: decoding the node that encoding leaves
//! behind gives the document again, and that node is well-formed.

use crate::asset::Asset;
use crate::asset::AssetModel;
use crate::codec::item_trees;
use crate::codec::parse_upto;
use crate::codec::unsupported;
use crate::codec::Codec;
use crate::error::Fault;
use crate::project::Note;
use crate::project::NoteModel;
use crate::project::Page;
use crate::project::PageModel;
use crate::project::Project;
use crate::project::ProjectModel;
use crate::project::Text;
use crate::project::TextModel;
use crate::value::lemma_find_put_other;
use crate::value::lemma_find_put_same;
use crate::value::lemma_with_field_well_formed;
use crate::value::put;
use crate::value::Json;
use vstd::prelude::*;

verus! {

/// The member names of one object differ from each other.
pub proof fn lemma_member_names()
    ensures
        "content"@ != "comment"@,
        "x"@ != "y"@,
        "x"@ != "texts"@,
        "y"@ != "texts"@,
        "image"@ != "notes"@,
        "cover"@ != "title"@,
        "cover"@ != "overview"@,
        "cover"@ != "pages"@,
        "title"@ != "overview"@,
        "title"@ != "pages"@,
        "overview"@ != "pages"@,
{
    reveal_strlit("content");
    reveal_strlit("comment");
    reveal_strlit("x");
    reveal_strlit("y");
    reveal_strlit("texts");
    reveal_strlit("image");
    reveal_strlit("notes");
    reveal_strlit("cover");
    reveal_strlit("title");
    reveal_strlit("overview");
    reveal_strlit("pages");
    assert("content"@[2] != "comment"@[2]);
    assert("x"@[0] != "y"@[0]);
    assert("image"@[0] != "notes"@[0]);
    assert("cover"@[0] != "title"@[0]);
    assert("cover"@[0] != "pages"@[0]);
    assert("title"@[0] != "pages"@[0]);
}

/// When each item reads back as `back` of itself, so does the whole run.
pub proof fn lemma_items_round_trip<T: Codec>(
    items: Seq<T::V>,
    back: spec_fn(T::V) -> T::V,
    count: int,
)
    requires
        0 <= count <= items.len(),
        forall|i: int|
            0 <= i < items.len() ==> T::parse(#[trigger] T::tree(items[i], Json::Null), 0)
                == Ok::<T::V, Fault>(back(items[i])),
    ensures
        parse_upto::<T>(item_trees::<T>(items), 0, count) == Ok::<Seq<T::V>, Fault>(
            items.take(count).map_values(back),
        ),
    decreases count,
{
    if count > 0 {
        lemma_items_round_trip::<T>(items, back, count - 1);
        assert(item_trees::<T>(items)[count - 1] == T::tree(items[count - 1], Json::Null));
        assert(items.take(count).map_values(back) =~= items.take(count - 1).map_values(back).push(
            back(items[count - 1]),
        ));
    } else {
        assert(items.take(count).map_values(back) =~= Seq::<T::V>::empty());
    }
}

/// A text that was encoded decodes to itself, whatever the node held before.
pub proof fn lemma_text_round_trip(text: TextModel, before: Json)
    ensures
        Text::parse(Text::tree(text, before), 0) == Ok::<TextModel, Fault>(text),
{
    lemma_member_names();
    let first = put(before.members(), "content"@, Json::String(text.content));
    lemma_find_put_same(before.members(), "content"@, Json::String(text.content));
    lemma_find_put_same(first, "comment"@, Json::String(text.comment));
    lemma_find_put_other(first, "comment"@, Json::String(text.comment), "content"@);
}

/// A note that was encoded decodes to itself.
pub proof fn lemma_note_round_trip(note: NoteModel, before: Json)
    ensures
        Note::parse(Note::tree(note, before), 0) == Ok::<NoteModel, Fault>(note),
{
    lemma_member_names();
    let texts = <Vec<Text> as Codec>::tree(note.texts, Json::Null);
    let first = put(before.members(), "x"@, Json::Number(note.x));
    let second = put(first, "y"@, Json::Number(note.y));
    lemma_find_put_same(before.members(), "x"@, Json::Number(note.x));
    lemma_find_put_same(first, "y"@, Json::Number(note.y));
    lemma_find_put_other(first, "y"@, Json::Number(note.y), "x"@);
    lemma_find_put_same(second, "texts"@, texts);
    lemma_find_put_other(second, "texts"@, texts, "x"@);
    lemma_find_put_other(second, "texts"@, texts, "y"@);
    assert forall|i: int| 0 <= i < note.texts.len() implies Text::parse(
        #[trigger] Text::tree(note.texts[i], Json::Null),
        0,
    ) == Ok::<TextModel, Fault>(note.texts[i]) by {
        lemma_text_round_trip(note.texts[i], Json::Null);
    }
    let same = |text: TextModel| text;
    lemma_items_round_trip::<Text>(note.texts, same, note.texts.len() as int);
    assert(note.texts.take(note.texts.len() as int).map_values(same) =~= note.texts);
}

/// An asset that was encoded decodes to a clean asset of the same path.
pub proof fn lemma_asset_round_trip(asset: Option<AssetModel>, before: Json)
    ensures
        <Option<Asset> as Codec>::parse(<Option<Asset> as Codec>::tree(asset, before), 0) == Ok::<
            Option<AssetModel>,
            Fault,
        >(
            match asset {
                Some(inner) => Some(inner.stored()),
                None => None,
            },
        ),
{
}

/// A page that was encoded decodes to the page as stored.
pub proof fn lemma_page_round_trip(page: PageModel, before: Json)
    ensures
        Page::parse(Page::tree(page, before), 0) == Ok::<PageModel, Fault>(page.stored()),
{
    lemma_member_names();
    let image = <Option<Asset> as Codec>::tree(page.image, Json::Null);
    let notes = <Vec<Note> as Codec>::tree(page.notes, Json::Null);
    let first = put(before.members(), "image"@, image);
    lemma_find_put_same(before.members(), "image"@, image);
    lemma_find_put_same(first, "notes"@, notes);
    lemma_find_put_other(first, "notes"@, notes, "image"@);
    lemma_asset_round_trip(page.image, Json::Null);
    assert forall|i: int| 0 <= i < page.notes.len() implies Note::parse(
        #[trigger] Note::tree(page.notes[i], Json::Null),
        0,
    ) == Ok::<NoteModel, Fault>(page.notes[i]) by {
        lemma_note_round_trip(page.notes[i], Json::Null);
    }
    let same = |note: NoteModel| note;
    lemma_items_round_trip::<Note>(page.notes, same, page.notes.len() as int);
    assert(page.notes.take(page.notes.len() as int).map_values(same) =~= page.notes);
}

/// Round trip: a project that was encoded decodes to the same title,
/// overview, pages, notes and texts, and to assets of the same paths, which
/// are clean and whose bytes wait in the container. This holds whatever the
/// writer's node held before.
pub proof fn lemma_project_round_trip(project: ProjectModel, before: Json)
    ensures
        Project::parse(Project::tree(project, before), 0) == Ok::<ProjectModel, Fault>(
            project.stored(),
        ),
{
    lemma_member_names();
    let cover = <Option<Asset> as Codec>::tree(project.cover, Json::Null);
    let pages = <Vec<Page> as Codec>::tree(project.pages, Json::Null);
    let first = put(before.members(), "cover"@, cover);
    let second = put(first, "title"@, Json::String(project.title));
    let third = put(second, "overview"@, Json::String(project.overview));
    lemma_find_put_same(before.members(), "cover"@, cover);
    lemma_find_put_same(first, "title"@, Json::String(project.title));
    lemma_find_put_other(first, "title"@, Json::String(project.title), "cover"@);
    lemma_find_put_same(second, "overview"@, Json::String(project.overview));
    lemma_find_put_other(second, "overview"@, Json::String(project.overview), "cover"@);
    lemma_find_put_other(second, "overview"@, Json::String(project.overview), "title"@);
    lemma_find_put_same(third, "pages"@, pages);
    lemma_find_put_other(third, "pages"@, pages, "cover"@);
    lemma_find_put_other(third, "pages"@, pages, "title"@);
    lemma_find_put_other(third, "pages"@, pages, "overview"@);
    lemma_asset_round_trip(project.cover, Json::Null);
    assert forall|i: int| 0 <= i < project.pages.len() implies Page::parse(
        #[trigger] Page::tree(project.pages[i], Json::Null),
        0,
    ) == Ok::<PageModel, Fault>(project.pages[i].stored()) by {
        lemma_page_round_trip(project.pages[i], Json::Null);
    }
    let stored = |page: PageModel| page.stored();
    lemma_items_round_trip::<Page>(project.pages, stored, project.pages.len() as int);
    assert(project.pages.take(project.pages.len() as int) =~= project.pages);
}

/// Version gating: under a schema version other than 0 nothing of a project
/// is decoded; the failure names the version.
pub proof fn lemma_version_gate(json: Json, version: u8)
    requires
        version != 0,
    ensures
        Project::parse(json, version) == Err::<ProjectModel, Fault>(unsupported(version)),
        Page::parse(json, version) == Err::<PageModel, Fault>(unsupported(version)),
        Note::parse(json, version) == Err::<NoteModel, Fault>(unsupported(version)),
        Text::parse(json, version) == Err::<TextModel, Fault>(unsupported(version)),
{
}

/// The node that an encoded project leaves in a well-formed node is
/// well-formed: no object in it has two members of one key.
pub proof fn lemma_project_tree_well_formed(project: ProjectModel, before: Json)
    requires
        before.well_formed(),
    ensures
        Project::tree(project, before).well_formed(),
{
    let pages = <Vec<Page> as Codec>::tree(project.pages, Json::Null);
    assert(pages.well_formed()) by {
        assert forall|i: int| 0 <= i < project.pages.len() implies (#[trigger] item_trees::<Page>(
            project.pages,
        )[i]).well_formed() by {
            lemma_page_tree_well_formed(project.pages[i], Json::Null);
        }
    }
    let cover = <Option<Asset> as Codec>::tree(project.cover, Json::Null);
    let first = before.with_field("cover"@, cover);
    let second = first.with_field("title"@, Json::String(project.title));
    let third = second.with_field("overview"@, Json::String(project.overview));
    lemma_with_field_well_formed(before, "cover"@, cover);
    lemma_with_field_well_formed(first, "title"@, Json::String(project.title));
    lemma_with_field_well_formed(second, "overview"@, Json::String(project.overview));
    lemma_with_field_well_formed(third, "pages"@, pages);
}

/// The node that an encoded page leaves in a well-formed node is
/// well-formed.
pub proof fn lemma_page_tree_well_formed(page: PageModel, before: Json)
    requires
        before.well_formed(),
    ensures
        Page::tree(page, before).well_formed(),
{
    let notes = <Vec<Note> as Codec>::tree(page.notes, Json::Null);
    assert(notes.well_formed()) by {
        assert forall|i: int| 0 <= i < page.notes.len() implies (#[trigger] item_trees::<Note>(
            page.notes,
        )[i]).well_formed() by {
            lemma_note_tree_well_formed(page.notes[i], Json::Null);
        }
    }
    let image = <Option<Asset> as Codec>::tree(page.image, Json::Null);
    lemma_with_field_well_formed(before, "image"@, image);
    lemma_with_field_well_formed(before.with_field("image"@, image), "notes"@, notes);
}

/// The node that an encoded note leaves in a well-formed node is
/// well-formed.
pub proof fn lemma_note_tree_well_formed(note: NoteModel, before: Json)
    requires
        before.well_formed(),
    ensures
        Note::tree(note, before).well_formed(),
{
    let texts = <Vec<Text> as Codec>::tree(note.texts, Json::Null);
    assert(texts.well_formed()) by {
        assert forall|i: int| 0 <= i < note.texts.len() implies (#[trigger] item_trees::<Text>(
            note.texts,
        )[i]).well_formed() by {
            let text = note.texts[i];
            let first = Json::Null.with_field("content"@, Json::String(text.content));
            lemma_with_field_well_formed(Json::Null, "content"@, Json::String(text.content));
            lemma_with_field_well_formed(first, "comment"@, Json::String(text.comment));
        }
    }
    let first = before.with_field("x"@, Json::Number(note.x));
    let second = first.with_field("y"@, Json::Number(note.y));
    lemma_with_field_well_formed(before, "x"@, Json::Number(note.x));
    lemma_with_field_well_formed(first, "y"@, Json::Number(note.y));
    lemma_with_field_well_formed(second, "texts"@, texts);
}

} // verus!
