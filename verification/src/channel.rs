//! What the asset channel holds after a project was encoded, and what that
//! means for saving: an asset that was not touched since it was read is
//! copied through, and only an asset with new bytes is written.

use crate::asset::Asset;
use crate::asset::AssetModel;
use crate::asset::Snap;
use crate::asset::Track;
use crate::codec::channel_upto;
use crate::codec::Codec;
use crate::file::asset_step;
use crate::file::StepModel;
use crate::project::Note;
use crate::project::NoteModel;
use crate::project::Page;
use crate::project::PageModel;
use crate::project::Project;
use crate::project::ProjectModel;
use crate::project::Text;
use crate::project::TextModel;
use crate::value::distinct_keys;
use crate::value::find;
use crate::value::lemma_find_put_other;
use crate::value::lemma_find_put_same;
use crate::value::lemma_index_of;
use crate::value::lemma_put_distinct;
use crate::value::put;
use vstd::prelude::*;

verus! {

/// The asset that may stand in a place, as a run of none or one.
pub open spec fn held(asset: Option<AssetModel>) -> Seq<AssetModel> {
    match asset {
        Some(inner) => seq![inner],
        None => Seq::empty(),
    }
}

/// The images of the first `count` pages, in order.
pub open spec fn images(pages: Seq<PageModel>, count: int) -> Seq<AssetModel>
    decreases count,
{
    if count <= 0 || count > pages.len() {
        Seq::empty()
    } else {
        images(pages, count - 1) + held(pages[count - 1].image)
    }
}

/// The assets of a project in the order in which encoding registers them:
/// the cover, then the image of each page.
pub open spec fn assets_of(project: ProjectModel) -> Seq<AssetModel> {
    held(project.cover) + images(project.pages, project.pages.len() as int)
}

/// The channel after the first `count` of `assets` were registered, one
/// after the other.
pub open spec fn registered(
    assets: Seq<AssetModel>,
    before: Seq<(Seq<char>, Snap)>,
    count: int,
) -> Seq<(Seq<char>, Snap)>
    decreases count,
{
    if count <= 0 || count > assets.len() {
        before
    } else {
        put(registered(assets, before, count - 1), assets[count - 1].path, assets[count - 1].snapshot())
    }
}

/// Registering a run and then none or one more is registering both.
proof fn lemma_registered_more(
    assets: Seq<AssetModel>,
    more: Option<AssetModel>,
    before: Seq<(Seq<char>, Snap)>,
)
    ensures
        registered(assets + held(more), before, (assets + held(more)).len() as int) == match more {
            Some(inner) => put(
                registered(assets, before, assets.len() as int),
                inner.path,
                inner.snapshot(),
            ),
            None => registered(assets, before, assets.len() as int),
        },
{
    let all = assets + held(more);
    lemma_registered_prefix(assets, all, before, assets.len() as int);
    if more is None {
        assert(all =~= assets);
    }
}

/// Registering depends on the assets that are registered only.
proof fn lemma_registered_prefix(
    assets: Seq<AssetModel>,
    longer: Seq<AssetModel>,
    before: Seq<(Seq<char>, Snap)>,
    count: int,
)
    requires
        0 <= count <= assets.len() <= longer.len(),
        forall|i: int| 0 <= i < assets.len() ==> assets[i] == longer[i],
    ensures
        registered(longer, before, count) == registered(assets, before, count),
    decreases count,
{
    if count > 0 {
        lemma_registered_prefix(assets, longer, before, count - 1);
    }
}

/// Texts own no assets.
proof fn lemma_texts_register_nothing(
    texts: Seq<TextModel>,
    before: Seq<(Seq<char>, Snap)>,
    count: int,
)
    ensures
        channel_upto::<Text>(texts, before, count) == before,
    decreases count,
{
    if 0 < count <= texts.len() {
        lemma_texts_register_nothing(texts, before, count - 1);
    }
}

/// Notes own no assets.
proof fn lemma_notes_register_nothing(
    notes: Seq<NoteModel>,
    before: Seq<(Seq<char>, Snap)>,
    count: int,
)
    ensures
        channel_upto::<Note>(notes, before, count) == before,
    decreases count,
{
    if 0 < count <= notes.len() {
        lemma_notes_register_nothing(notes, before, count - 1);
        let texts = notes[count - 1].texts;
        lemma_texts_register_nothing(texts, before, texts.len() as int);
    }
}

/// Pages register their images, in order.
proof fn lemma_pages_register_images(
    pages: Seq<PageModel>,
    before: Seq<(Seq<char>, Snap)>,
    count: int,
)
    requires
        0 <= count <= pages.len(),
    ensures
        channel_upto::<Page>(pages, before, count) == registered(
            images(pages, count),
            before,
            images(pages, count).len() as int,
        ),
    decreases count,
{
    if count > 0 {
        lemma_pages_register_images(pages, before, count - 1);
        let page = pages[count - 1];
        let earlier = channel_upto::<Page>(pages, before, count - 1);
        let with_image = <Option<Asset> as Codec>::channel(page.image, earlier);
        lemma_notes_register_nothing(page.notes, with_image, page.notes.len() as int);
        lemma_registered_more(images(pages, count - 1), page.image, before);
    }
}

/// Encoding a project registers its assets one after the other: the cover,
/// then the image of each page.
pub proof fn lemma_project_registers_assets(project: ProjectModel, before: Seq<(Seq<char>, Snap)>)
    ensures
        Project::channel(project, before) == registered(
            assets_of(project),
            before,
            assets_of(project).len() as int,
        ),
{
    let cover = held(project.cover);
    let first = <Option<Asset> as Codec>::channel(project.cover, before);
    assert(first == registered(cover, before, cover.len() as int)) by {
        if project.cover is Some {
            assert(registered(cover, before, 0) == before);
        }
    }
    lemma_pages_register_images(project.pages, first, project.pages.len() as int);
    lemma_registered_join(
        cover,
        images(project.pages, project.pages.len() as int),
        before,
        images(project.pages, project.pages.len() as int).len() as int,
    );
}

/// Registering one run after another is registering both.
proof fn lemma_registered_join(
    first: Seq<AssetModel>,
    second: Seq<AssetModel>,
    before: Seq<(Seq<char>, Snap)>,
    count: int,
)
    requires
        0 <= count <= second.len(),
    ensures
        registered(first + second, before, first.len() + count) == registered(
            second,
            registered(first, before, first.len() as int),
            count,
        ),
    decreases count,
{
    if count > 0 {
        lemma_registered_join(first, second, before, count - 1);
        assert((first + second)[first.len() + count - 1] == second[count - 1]);
    } else {
        lemma_registered_prefix(first, first + second, before, first.len() as int);
    }
}

/// Every entry of the channel is the path and the snapshot of one of the
/// assets that were registered, and no path has two entries.
pub proof fn lemma_registered_entries(assets: Seq<AssetModel>, count: int)
    requires
        0 <= count <= assets.len(),
    ensures
        distinct_keys(registered(assets, Seq::empty(), count)),
        forall|i: int|
            0 <= i < registered(assets, Seq::empty(), count).len() ==> exists|j: int|
                0 <= j < count && #[trigger] registered(assets, Seq::empty(), count)[i] == (
                    assets[j].path,
                    assets[j].snapshot(),
                ),
    decreases count,
{
    if count > 0 {
        lemma_registered_entries(assets, count - 1);
        let earlier = registered(assets, Seq::empty(), count - 1);
        let last = assets[count - 1];
        let now = registered(assets, Seq::empty(), count);
        lemma_put_distinct(earlier, last.path, last.snapshot());
        lemma_index_of(earlier, last.path);
        assert forall|i: int| 0 <= i < now.len() implies exists|j: int|
            0 <= j < count && #[trigger] now[i] == (assets[j].path, assets[j].snapshot()) by {
            if now[i] == (last.path, last.snapshot()) {
                assert(now[i] == (assets[count - 1].path, assets[count - 1].snapshot()));
            } else {
                assert(now[i] == earlier[i]);
                let j = choose|j: int|
                    0 <= j < count - 1 && earlier[i] == (assets[j].path, assets[j].snapshot());
                assert(now[i] == (assets[j].path, assets[j].snapshot()));
            }
        }
    }
}

/// An asset whose path no other asset has is found in the channel with its
/// own snapshot.
pub proof fn lemma_registered_finds(assets: Seq<AssetModel>, at: int, count: int)
    requires
        0 <= at < count <= assets.len(),
        forall|j: int| 0 <= j < assets.len() && j != at ==> assets[j].path != assets[at].path,
    ensures
        find(registered(assets, Seq::empty(), count), assets[at].path) == Some(
            assets[at].snapshot(),
        ),
    decreases count,
{
    let earlier = registered(assets, Seq::empty(), count - 1);
    let last = assets[count - 1];
    if at == count - 1 {
        lemma_find_put_same(earlier, last.path, last.snapshot());
    } else {
        lemma_registered_finds(assets, at, count - 1);
        lemma_find_put_other(earlier, last.path, last.snapshot(), assets[at].path);
    }
}

/// Copy-through: when no asset of a project was touched since it was read,
/// saving copies the stored entry of every asset, and writes none anew.
pub proof fn lemma_clean_project_is_copied(project: ProjectModel)
    requires
        forall|j: int|
            0 <= j < assets_of(project).len() ==> (#[trigger] assets_of(project)[j]).track
                == Track::Clean,
    ensures
        forall|i: int|
            0 <= i < Project::channel(project, Seq::empty()).len() ==> asset_step(
                #[trigger] Project::channel(project, Seq::empty())[i],
            ) is Copy,
{
    let assets = assets_of(project);
    let channel = Project::channel(project, Seq::empty());
    lemma_project_registers_assets(project, Seq::empty());
    lemma_registered_entries(assets, assets.len() as int);
    assert forall|i: int| 0 <= i < channel.len() implies asset_step(#[trigger] channel[i]) is Copy by {
        let j = choose|j: int|
            0 <= j < assets.len() && channel[i] == (assets[j].path, assets[j].snapshot());
        assert(assets[j].track == Track::Clean);
    }
}

/// Selective write: when one asset of a project has new bytes, under a path
/// that no other asset has, and no other asset was touched, saving writes
/// that asset from its new bytes and copies every other entry.
pub proof fn lemma_only_dirty_asset_is_written(project: ProjectModel, at: int, bytes: Seq<u8>)
    requires
        0 <= at < assets_of(project).len(),
        assets_of(project)[at].track == Track::Dirty,
        assets_of(project)[at].data == Some(bytes),
        forall|j: int|
            0 <= j < assets_of(project).len() && j != at ==> (#[trigger] assets_of(project)[j]).track
                == Track::Clean && assets_of(project)[j].path != assets_of(project)[at].path,
    ensures
        find(Project::channel(project, Seq::empty()), assets_of(project)[at].path) == Some(
            Snap::Dirty(bytes),
        ),
        distinct_keys(Project::channel(project, Seq::empty())),
        forall|i: int|
            0 <= i < Project::channel(project, Seq::empty()).len() ==> asset_step(
                #[trigger] Project::channel(project, Seq::empty())[i],
            ) == if Project::channel(project, Seq::empty())[i].0 == assets_of(project)[at].path {
                StepModel::Write { path: assets_of(project)[at].path, data: bytes }
            } else {
                StepModel::Copy { path: Project::channel(project, Seq::empty())[i].0 }
            },
{
    let assets = assets_of(project);
    let channel = Project::channel(project, Seq::empty());
    lemma_project_registers_assets(project, Seq::empty());
    lemma_registered_entries(assets, assets.len() as int);
    lemma_registered_finds(assets, at, assets.len() as int);
    assert forall|i: int| 0 <= i < channel.len() implies asset_step(#[trigger] channel[i]) == if channel[i].0
        == assets[at].path {
        StepModel::Write { path: assets[at].path, data: bytes }
    } else {
        StepModel::Copy { path: channel[i].0 }
    } by {
        let j = choose|j: int|
            0 <= j < assets.len() && channel[i] == (assets[j].path, assets[j].snapshot());
        if j != at {
            assert(assets[j].track == Track::Clean);
        }
    }
}

/// In-memory assets: when every asset of a project was made in memory,
/// under a path of its own, encoding does not fail on them and the channel
/// holds the bytes of each under its path.
pub proof fn lemma_fresh_assets_are_recorded(project: ProjectModel, at: int)
    requires
        0 <= at < assets_of(project).len(),
        assets_of(project)[at].track == Track::Dirty,
        assets_of(project)[at].data is Some,
        forall|j: int|
            0 <= j < assets_of(project).len() && j != at ==> (#[trigger] assets_of(project)[j]).path
                != assets_of(project)[at].path,
    ensures
        find(Project::channel(project, Seq::empty()), assets_of(project)[at].path) == Some(
            Snap::Dirty(assets_of(project)[at].data->0),
        ),
{
    let assets = assets_of(project);
    lemma_project_registers_assets(project, Seq::empty());
    lemma_registered_finds(assets, at, assets.len() as int);
}

} // verus!
