//! The head of a file of the positional byte format, and what is asked for
//! when one is written.

use crate::version::Version;
use vstd::prelude::*;

verus! {

/// The number of bytes in the mark that begins a file.
pub const HEADER_LEN: usize = 15;

/// The mark that begins a file.
pub open spec fn header_data() -> Seq<u8> {
    seq![
        0xE8u8, 0x8Bu8, 0x8Du8, 0xE7u8, 0x9Cu8, 0xBCu8, 0xE6u8, 0xB1u8, 0x89u8, 0xE5u8, 0x8Cu8,
        0x96u8, 0xE7u8, 0xBBu8, 0x84u8,
    ]
}

/// The mark that begins a file.
pub fn header() -> (mark: [u8; 15])
    ensures
        mark@ == header_data(),
{
    let mark: [u8; 15] = [
        0xE8, 0x8B, 0x8D, 0xE7, 0x9C, 0xBC, 0xE6, 0xB1, 0x89, 0xE5, 0x8C, 0x96, 0xE7, 0xBB, 0x84,
    ];
    assert(mark@ =~= header_data());
    mark
}

/// Why a file of the positional byte format was refused.
#[derive(Debug, PartialEq, Eq)]
pub enum FileError {
    /// The file does not begin with the mark.
    InvalidHeader,
    /// The file has a version that the format does not have.
    UnsupportedVersion { major: u8, minor: u8 },
    /// The path names a directory.
    PathIsDirectory { path: String },
    /// The path does not name a file.
    PathNotFile { path: String },
}

/// The positional byte format.
#[derive(Clone, Copy, Debug)]
pub struct File;

impl File {
    /// The version of a file, from its first 17 bytes: the mark, then the
    /// two numbers of the version. A file that is shorter, or begins
    /// otherwise, has no valid header.
    pub fn version_of(head: &[u8]) -> (result: Result<Version, FileError>)
        ensures
            match result {
                Ok(version) => {
                    &&& head@.len() >= 17
                    &&& head@.take(15) == header_data()
                    &&& version == (Version { major: head@[15], minor: head@[16] })
                    &&& version.spec_is_known()
                },
                Err(FileError::InvalidHeader) => head@.len() < 17 || head@.take(15)
                    != header_data(),
                Err(FileError::UnsupportedVersion { major, minor }) => {
                    &&& head@.len() >= 17
                    &&& head@.take(15) == header_data()
                    &&& major == head@[15]
                    &&& minor == head@[16]
                    &&& !(Version { major, minor }).spec_is_known()
                },
                Err(_) => false,
            },
    {
        if head.len() < 17 {
            return Err(FileError::InvalidHeader);
        }
        let mark = header();
        let mut i: usize = 0;
        while i < 15
            invariant
                i <= 15,
                head@.len() >= 17,
                mark@ == header_data(),
                forall|j: int| 0 <= j < i ==> head@[j] == header_data()[j],
            decreases 15 - i,
        {
            if head[i] != mark[i] {
                assert(head@.take(15)[i as int] != header_data()[i as int]);
                return Err(FileError::InvalidHeader);
            }
            i += 1;
        }
        assert(head@.take(15) =~= header_data());
        let version = Version::new(head[15], head[16]);
        if version.is_known() {
            Ok(version)
        } else {
            Err(FileError::UnsupportedVersion { major: version.major, minor: version.minor })
        }
    }
}

/// What is asked for when a project is written in the positional byte
/// format: where to, and in which version.
#[derive(Debug)]
pub struct ExportArguments {
    pub filepath: String,
    pub version: Version,
}

impl ExportArguments {
    /// Writing to `filepath`, in the latest version.
    pub fn new(filepath: &str) -> (arguments: ExportArguments)
        ensures
            arguments.filepath@ == filepath@,
            arguments.version == Version::spec_latest(),
    {
        ExportArguments { filepath: filepath.to_owned(), version: Version::latest() }
    }

    /// The same, in another version.
    pub fn with_version(self, version: Version) -> (arguments: ExportArguments)
        ensures
            arguments.filepath == self.filepath,
            arguments.version == version,
    {
        ExportArguments { filepath: self.filepath, version }
    }
}

} // verus!
