//! The container protocol: what is read from and written to the archive
//! that holds a project, in which order, and how each failure is reported.
//! The archive itself is worked by the caller; the decisions are made here.

use crate::asset::AssetSnap;
use crate::asset::Snap;
use crate::codec::channel_model;
use crate::codec::Codec;
use crate::codec::Reader;
use crate::codec::Writer;
use crate::error::Fault;
use crate::project::Project;
use crate::project::ProjectModel;
use crate::value::Json;
use crate::value::Value;
use vstd::prelude::*;
use vstd::string::StrSliceExecFns;
use vstd::string::StringSliceAdditionalSpecFns;

pub use crate::manifest::Manifest;

verus! {

/// The archive comment that marks a container.
pub const IDENTIFIER: &'static str = "Cangyan Project Package";

/// The entry that holds the manifest.
pub const MANIFEST_ENTRY: &'static str = "cangyan.json";

/// The entry that holds the value tree of the project.
pub const PROJECT_ENTRY: &'static str = "project.json";

/// How the archive library refused an archive.
#[derive(Clone, Copy, Debug, PartialEq, Eq, Structural)]
pub enum ArchiveFault {
    /// The archive is corrupt.
    Invalid,
    /// The archive uses something that is not supported.
    Unsupported,
    /// The archive is encrypted and the password is missing or wrong.
    Password,
    /// Any other failure.
    Other,
}

/// How the operating system refused to open a file.
#[derive(Clone, Copy, Debug, PartialEq, Eq, Structural)]
pub enum OpenFault {
    PermissionDenied,
    Other,
}

/// Why a container could not be opened or saved.
#[derive(Debug)]
pub enum Error {
    PathNotExist { path: String },
    PathNotFile { path: String },
    PermissionDenied { path: String },
    InvalidFormat,
    UnsupportedFormat,
    PasswordNotCorrect,
    /// A required entry is missing from the archive.
    FileNotFound { file: String },
    /// An entry does not hold well-formed text.
    ParseFailure { file: String, line: usize, column: usize },
    /// The project could not be encoded or decoded.
    Codec(crate::error::Error),
    Undefined,
}

/// Whether the path can be opened as a container at all.
pub fn probe_path(path: &str, exists: bool, is_file: bool) -> (result: Result<(), Error>)
    ensures
        !exists ==> (result matches Err(Error::PathNotExist { path: p }) && p@ == path@),
        exists && !is_file ==> (result matches Err(Error::PathNotFile { path: p }) && p@
            == path@),
        exists && is_file ==> result is Ok,
{
    if !exists {
        Err(Error::PathNotExist { path: path.to_owned() })
    } else if !is_file {
        Err(Error::PathNotFile { path: path.to_owned() })
    } else {
        Ok(())
    }
}

/// The error for a file that the operating system did not open.
pub fn open_failure(path: &str, fault: OpenFault) -> (error: Error)
    ensures
        fault == OpenFault::PermissionDenied ==> (error matches Error::PermissionDenied {
            path: p,
        } && p@ == path@),
        fault == OpenFault::Other ==> error is Undefined,
{
    match fault {
        OpenFault::PermissionDenied => Error::PermissionDenied { path: path.to_owned() },
        OpenFault::Other => Error::Undefined,
    }
}

/// The error for an archive that the archive library refused.
pub fn archive_failure(fault: ArchiveFault) -> (error: Error)
    ensures
        fault == ArchiveFault::Invalid ==> error is InvalidFormat,
        fault == ArchiveFault::Unsupported ==> error is UnsupportedFormat,
        fault == ArchiveFault::Password ==> error is PasswordNotCorrect,
        fault == ArchiveFault::Other ==> error is Undefined,
{
    match fault {
        ArchiveFault::Invalid => Error::InvalidFormat,
        ArchiveFault::Unsupported => Error::UnsupportedFormat,
        ArchiveFault::Password => Error::PasswordNotCorrect,
        ArchiveFault::Other => Error::Undefined,
    }
}

/// Whether two runs of bytes are the same.
pub fn same_bytes(left: &[u8], right: &[u8]) -> (same: bool)
    ensures
        same == (left@ == right@),
{
    if left.len() != right.len() {
        return false;
    }
    let mut i: usize = 0;
    while i < left.len()
        invariant
            i <= left.len(),
            left.len() == right.len(),
            forall|j: int| 0 <= j < i ==> left@[j] == right@[j],
        decreases left.len() - i,
    {
        if left[i] != right[i] {
            return false;
        }
        i += 1;
    }
    assert(left@ =~= right@);
    true
}

/// The cheap test for a container: `archive` is the comment of the archive
/// that was opened, or how opening it failed. No entry is read, and no
/// failure is raised.
pub fn check_from_stream(archive: &Result<Vec<u8>, ArchiveFault>) -> (container: bool)
    ensures
        container == match archive {
            Ok(comment) => comment@ == IDENTIFIER.spec_bytes(),
            Err(_) => false,
        },
{
    match archive {
        Ok(comment) => same_bytes(comment.as_slice(), IDENTIFIER.as_bytes()),
        Err(_) => false,
    }
}

/// What became of one entry of the archive.
#[derive(Debug)]
pub enum Entry<T> {
    /// The archive has no such entry.
    Missing,
    /// The entry does not hold well-formed text; the place is the parser's.
    Malformed { line: usize, column: usize },
    /// The entry, parsed.
    Parsed(T),
}

/// What the open protocol waits for.
#[derive(Debug)]
pub enum Stage {
    /// The archive has not been opened yet.
    Archive,
    /// The manifest entry was asked for.
    Manifest,
    /// The project entry was asked for, under the manifest held here.
    Document(Manifest),
    /// The protocol has ended.
    Closed,
}

/// What the caller reports to the open protocol.
#[derive(Debug)]
pub enum Event {
    /// The archive was opened, or refused with a fault.
    Archive(Option<ArchiveFault>),
    /// What became of the manifest entry.
    Manifest(Entry<Manifest>),
    /// What became of the project entry.
    Document(Entry<Value>),
}

/// What the open protocol asks of the caller.
#[derive(Debug)]
pub enum Action {
    /// Read and parse the entry of this name, and report what became of it.
    Read(String),
    /// The protocol has ended with this result.
    Done(Result<Project, Error>),
}

/// One step of the open protocol: from what is waited for and what the
/// caller reports, to what is waited for next and what the caller is to do.
///
/// The archive is opened first, then the manifest is read, then the project.
/// The protocol ends at the first failure, so the project entry is never
/// asked for under a manifest whose version is not implemented. A report
/// that is not the one waited for ends the protocol as undefined.
pub fn advance(stage: Stage, event: Event) -> (next: (Stage, Action))
    ensures
        match (stage, event) {
            (Stage::Archive, Event::Archive(None)) => {
                &&& next.0 is Manifest
                &&& next.1 matches Action::Read(name) && name@ == MANIFEST_ENTRY@
            },
            (Stage::Archive, Event::Archive(Some(fault))) => {
                &&& next.0 is Closed
                &&& next.1 matches Action::Done(Err(e)) && match fault {
                    ArchiveFault::Invalid => e is InvalidFormat,
                    ArchiveFault::Unsupported => e is UnsupportedFormat,
                    ArchiveFault::Password => e is PasswordNotCorrect,
                    ArchiveFault::Other => e is Undefined,
                }
            },
            (Stage::Manifest, Event::Manifest(Entry::Missing)) => {
                &&& next.0 is Closed
                &&& next.1 matches Action::Done(Err(Error::FileNotFound { file }))
                    && file@ == MANIFEST_ENTRY@
            },
            (Stage::Manifest, Event::Manifest(Entry::Malformed { line, column })) => {
                &&& next.0 is Closed
                &&& next.1 matches Action::Done(
                    Err(Error::ParseFailure { file, line: l, column: c }),
                ) && file@ == MANIFEST_ENTRY@ && l == line && c == column
            },
            (Stage::Manifest, Event::Manifest(Entry::Parsed(manifest))) => {
                if manifest.spec_version() == 0 {
                    &&& next.0 matches Stage::Document(held) && held.spec_version() == 0
                    &&& next.1 matches Action::Read(name) && name@ == PROJECT_ENTRY@
                } else {
                    &&& next.0 is Closed
                    &&& next.1 matches Action::Done(
                        Err(Error::Codec(crate::error::Error::UnsupportedVersion { version })),
                    ) && version == manifest.spec_version()
                }
            },
            (Stage::Document(_), Event::Document(Entry::Missing)) => {
                &&& next.0 is Closed
                &&& next.1 matches Action::Done(Err(Error::FileNotFound { file }))
                    && file@ == PROJECT_ENTRY@
            },
            (Stage::Document(_), Event::Document(Entry::Malformed { line, column })) => {
                &&& next.0 is Closed
                &&& next.1 matches Action::Done(
                    Err(Error::ParseFailure { file, line: l, column: c }),
                ) && file@ == PROJECT_ENTRY@ && l == line && c == column
            },
            (Stage::Document(manifest), Event::Document(Entry::Parsed(value))) => {
                &&& next.0 is Closed
                &&& match next.1 {
                    Action::Done(Ok(project)) => Project::parse(
                        value.json(),
                        manifest.spec_version(),
                    ) == Ok::<ProjectModel, Fault>(project.deep_view()),
                    Action::Done(Err(Error::Codec(e))) => Project::parse(
                        value.json(),
                        manifest.spec_version(),
                    ) == Err::<ProjectModel, Fault>(e.fault()),
                    _ => false,
                }
            },
            _ => {
                &&& next.0 is Closed
                &&& next.1 matches Action::Done(Err(Error::Undefined))
            },
        },
{
    match (stage, event) {
        (Stage::Archive, Event::Archive(None)) => (
            Stage::Manifest,
            Action::Read(MANIFEST_ENTRY.to_owned()),
        ),
        (Stage::Archive, Event::Archive(Some(fault))) => (
            Stage::Closed,
            Action::Done(Err(archive_failure(fault))),
        ),
        (Stage::Manifest, Event::Manifest(entry)) => match entry {
            Entry::Missing => (
                Stage::Closed,
                Action::Done(Err(Error::FileNotFound { file: MANIFEST_ENTRY.to_owned() })),
            ),
            Entry::Malformed { line, column } => (
                Stage::Closed,
                Action::Done(
                    Err(Error::ParseFailure { file: MANIFEST_ENTRY.to_owned(), line, column }),
                ),
            ),
            Entry::Parsed(manifest) => {
                if manifest.is_supported() {
                    (Stage::Document(manifest), Action::Read(PROJECT_ENTRY.to_owned()))
                } else {
                    let version = manifest.version();
                    (
                        Stage::Closed,
                        Action::Done(
                            Err(Error::Codec(crate::error::Error::UnsupportedVersion { version })),
                        ),
                    )
                }
            },
        },
        (Stage::Document(manifest), Event::Document(entry)) => match entry {
            Entry::Missing => (
                Stage::Closed,
                Action::Done(Err(Error::FileNotFound { file: PROJECT_ENTRY.to_owned() })),
            ),
            Entry::Malformed { line, column } => (
                Stage::Closed,
                Action::Done(
                    Err(Error::ParseFailure { file: PROJECT_ENTRY.to_owned(), line, column }),
                ),
            ),
            Entry::Parsed(value) => {
                let reader = Reader::new(&manifest, &value);
                match Project::decode(&reader) {
                    Ok(project) => (Stage::Closed, Action::Done(Ok(project))),
                    Err(e) => (Stage::Closed, Action::Done(Err(Error::Codec(e)))),
                }
            },
        },
        _ => (Stage::Closed, Action::Done(Err(Error::Undefined))),
    }
}

/// Model of a [`Step`].
pub ghost enum StepModel {
    Comment(Seq<u8>),
    Manifest { name: Seq<char>, version: u8 },
    Document { name: Seq<char>, tree: Json },
    Copy { path: Seq<char> },
    Write { path: Seq<char>, data: Seq<u8> },
    Finish,
}

/// One thing to do to the archive that is written.
#[derive(Debug, PartialEq)]
pub enum Step {
    /// Set the archive comment.
    Comment(Vec<u8>),
    /// Write the manifest as a compressed entry of this name.
    Manifest { name: String, version: u8 },
    /// Write the value tree as a compressed entry of this name.
    Document { name: String, value: Value },
    /// Copy the stored entry of this path through, still compressed.
    Copy { path: String },
    /// Write these bytes as a new compressed entry of this path.
    Write { path: String, data: Vec<u8> },
    /// Finish the archive.
    Finish,
}

impl Step {
    /// The step that this value stands for.
    pub open spec fn model(self) -> StepModel {
        match self {
            Step::Comment(bytes) => StepModel::Comment(bytes@),
            Step::Manifest { name, version } => StepModel::Manifest { name: name@, version },
            Step::Document { name, value } => StepModel::Document { name: name@, tree: value.json() },
            Step::Copy { path } => StepModel::Copy { path: path@ },
            Step::Write { path, data } => StepModel::Write { path: path@, data: data@ },
            Step::Finish => StepModel::Finish,
        }
    }
}

/// The step for one entry of the asset channel: a clean asset is copied
/// through, a dirty one is written from its bytes.
pub open spec fn asset_step(entry: (Seq<char>, Snap)) -> StepModel {
    match entry.1 {
        Snap::Clean => StepModel::Copy { path: entry.0 },
        Snap::Dirty(data) => StepModel::Write { path: entry.0, data },
    }
}

/// The steps that save a project: the comment, the manifest, the value
/// tree, one step for each entry of the asset channel, and the end.
pub open spec fn plan_model(version: u8, tree: Json, channel: Seq<(Seq<char>, Snap)>) -> Seq<
    StepModel,
> {
    seq![
        StepModel::Comment(IDENTIFIER.spec_bytes()),
        StepModel::Manifest { name: MANIFEST_ENTRY@, version },
        StepModel::Document { name: PROJECT_ENTRY@, tree },
    ] + Seq::new(channel.len(), |i: int| asset_step(channel[i])) + seq![StepModel::Finish]
}

/// The steps that stand in a plan.
pub open spec fn steps_model(steps: Seq<Step>) -> Seq<StepModel> {
    Seq::new(steps.len(), |i: int| steps[i].model())
}

/// Plans the saving of `project` under `manifest`: encodes the project and
/// lists what is to be done to the archive, in order. Nothing is planned
/// when encoding fails.
pub fn plan(project: &Project, manifest: &Manifest) -> (result: Result<Vec<Step>, Error>)
    ensures
        match result {
            Ok(steps) => {
                &&& Project::fault(project.deep_view(), manifest.spec_version()) is None
                &&& steps_model(steps@) == plan_model(
                    manifest.spec_version(),
                    Project::tree(project.deep_view(), Json::Null),
                    Project::channel(project.deep_view(), Seq::empty()),
                )
            },
            Err(e) => e matches Error::Codec(inner) && Project::fault(
                project.deep_view(),
                manifest.spec_version(),
            ) == Some(inner.fault()),
        },
{
    let mut writer = Writer::new(manifest);
    match project.encode(&mut writer) {
        Err(e) => Err(Error::Codec(e)),
        Ok(()) => {
            let ghost channel = writer.channel();
            let ghost tree = writer.tree();
            let (assets, value) = writer.end();
            let mut assets = assets;
            let mut steps: Vec<Step> = Vec::new();
            steps.push(Step::Comment(IDENTIFIER.as_bytes_vec()));
            steps.push(
                Step::Manifest { name: MANIFEST_ENTRY.to_owned(), version: manifest.version() },
            );
            steps.push(Step::Document { name: PROJECT_ENTRY.to_owned(), value });
            let ghost head = steps_model(steps@);
            assert(head =~= plan_model(manifest.spec_version(), tree, channel).take(3));
            let ghost all = assets@;
            let ghost mut done: int = 0;
            while assets.len() > 0
                invariant
                    channel == channel_model(all),
                    done + assets@.len() == all.len(),
                    0 <= done,
                    assets@ == all.skip(done),
                    steps@.len() == 3 + done,
                    steps_model(steps@).take(3) == head,
                    forall|j: int|
                        0 <= j < done ==> (#[trigger] steps@[3 + j]).model() == asset_step(
                            channel[j],
                        ),
                decreases assets@.len(),
            {
                let ghost before = steps_model(steps@);
                let (path, snap) = assets.remove(0);
                assert(assets@ =~= all.skip(done + 1));
                assert(all[done] == (path, snap));
                match snap {
                    AssetSnap::Clean => steps.push(Step::Copy { path }),
                    AssetSnap::Dirty(data) => steps.push(Step::Write { path, data }),
                }
                assert(steps_model(steps@).take(3) =~= before.take(3));
                proof {
                    done = done + 1;
                }
            }
            let ghost before = steps_model(steps@);
            steps.push(Step::Finish);
            proof {
                let wanted = plan_model(manifest.spec_version(), tree, channel);
                let got = steps_model(steps@);
                assert(got.take(3) =~= before.take(3));
                assert forall|k: int| 0 <= k < wanted.len() implies got[k] == wanted[k] by {
                    if k < 3 {
                        assert(got.take(3)[k] == wanted.take(3)[k]);
                    } else if k < 3 + done {
                        assert(steps@[3 + (k - 3)].model() == asset_step(channel[k - 3]));
                    }
                }
                assert(got =~= wanted);
            }
            Ok(steps)
        },
    }
}

/// What to do after an attempt to move the finished temporary file onto
/// the destination.
#[derive(Clone, Copy, Debug, PartialEq, Eq, Structural)]
pub enum Persist {
    /// The container is in place.
    Done,
    /// Remove the destination and try the move once more.
    Retry,
    /// Give up and report the failure; the temporary file is all that was
    /// touched.
    Fail,
}

/// Decides what follows an attempt to move the temporary file onto the
/// destination: a move that worked ends the saving, a first failure is
/// answered by removing the destination and trying again, a second one is
/// reported.
pub fn after_move(moved: bool, retried: bool) -> (next: Persist)
    ensures
        next == if moved {
            Persist::Done
        } else if retried {
            Persist::Fail
        } else {
            Persist::Retry
        },
{
    if moved {
        Persist::Done
    } else if retried {
        Persist::Fail
    } else {
        Persist::Retry
    }
}

} // verus!
