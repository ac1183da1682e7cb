//! Named binary payloads with copy-on-write tracking.

use crate::codec::unsupported;
use crate::codec::Codec;
use crate::codec::Reader;
use crate::codec::Writer;
use crate::error::mismatch;
use crate::error::Error;
use crate::error::Fault;
use crate::value::put;
use crate::value::Json;
use crate::value::Value;
use vstd::prelude::*;

verus! {

/// Model of an [`AssetSnap`].
pub ghost enum Snap {
    Clean,
    Dirty(Seq<u8>),
}

/// What the channel records for one encoded asset: an instruction to copy
/// the stored entry through unchanged, or the bytes to write.
#[derive(Clone, Debug, PartialEq, Eq)]
pub enum AssetSnap {
    Clean,
    Dirty(Vec<u8>),
}

impl AssetSnap {
    /// The snapshot that this value stands for.
    pub open spec fn snap(self) -> Snap {
        match self {
            AssetSnap::Clean => Snap::Clean,
            AssetSnap::Dirty(bytes) => Snap::Dirty(bytes@),
        }
    }

    /// Whether the snapshot asks for a copy of the stored entry.
    pub fn is_clean(&self) -> (clean: bool)
        ensures
            clean == (self.snap() == Snap::Clean),
    {
        match self {
            AssetSnap::Clean => true,
            AssetSnap::Dirty(_) => false,
        }
    }
}

/// A store from which the bytes of an asset can be pulled by path.
pub trait AssetSource {
    /// The bytes stored under `path`.
    fn load(&self, path: &str) -> (result: Result<Vec<u8>, Error>);
}

/// The source of assets that were made in memory: it holds nothing.
#[derive(Clone, Copy, Debug)]
pub struct EmptySource;

impl AssetSource for EmptySource {
    fn load(&self, path: &str) -> (result: Result<Vec<u8>, Error>)
        ensures
            result matches Err(e) && e.fault() == (Fault::AssetNotFound { path: path@ }),
    {
        Err(Error::AssetNotFound { path: path.to_owned() })
    }
}

/// Whether an asset still equals its stored entry.
#[derive(Clone, Copy, Debug, PartialEq, Eq, Structural)]
pub enum Track {
    /// Unchanged since it was read: its stored entry can be copied through.
    Clean,
    /// New or edited: its bytes must be written.
    Dirty,
}

/// Model of an [`Asset`].
pub ghost struct AssetModel {
    pub path: Seq<char>,
    pub data: Option<Seq<u8>>,
    pub track: Track,
}

impl AssetModel {
    /// What the channel records for the asset.
    pub open spec fn snapshot(self) -> Snap {
        match (self.track, self.data) {
            (Track::Dirty, Some(bytes)) => Snap::Dirty(bytes),
            _ => Snap::Clean,
        }
    }

    /// The asset as it is read back from a container: same path, no bytes
    /// in memory, clean.
    pub open spec fn stored(self) -> AssetModel {
        AssetModel { path: self.path, data: None, track: Track::Clean }
    }
}

/// A named binary payload. Its path identifies it within a container and is
/// its form in the value tree; its bytes live in an entry of their own.
#[derive(Debug)]
pub struct Asset {
    path: String,
    data: Option<Vec<u8>>,
    track: Track,
}

impl DeepView for Asset {
    type V = AssetModel;

    closed spec fn deep_view(&self) -> AssetModel {
        AssetModel {
            path: self.path@,
            data: match self.data {
                Some(bytes) => Some(bytes@),
                None => None,
            },
            track: self.track,
        }
    }
}

/// A copy of a byte buffer.
pub fn copy_bytes(bytes: &Vec<u8>) -> (copy: Vec<u8>)
    ensures
        copy@ == bytes@,
{
    let mut copy: Vec<u8> = Vec::new();
    let mut i: usize = 0;
    while i < bytes.len()
        invariant
            i <= bytes.len(),
            copy@ == bytes@.take(i as int),
        decreases bytes.len() - i,
    {
        copy.push(bytes[i]);
        assert(bytes@.take(i + 1) =~= bytes@.take(i as int).push(bytes@[i as int]));
        i += 1;
    }
    assert(bytes@.take(bytes.len() as int) =~= bytes@);
    copy
}

impl Asset {
    /// A fresh asset made in memory: dirty, with its bytes at hand.
    pub fn new(path: &str, data: Vec<u8>) -> (asset: Asset)
        ensures
            asset.deep_view() == (AssetModel {
                path: path@,
                data: Some(data@),
                track: Track::Dirty,
            }),
    {
        Asset { path: path.to_owned(), data: Some(data), track: Track::Dirty }
    }

    /// The path of the asset within its container.
    pub fn path(&self) -> (path: &str)
        ensures
            path@ == self.deep_view().path,
    {
        self.path.as_str()
    }

    /// Whether the asset still equals its stored entry.
    pub fn track(&self) -> (track: Track)
        ensures
            track == self.deep_view().track,
    {
        self.track
    }

    /// Whether the bytes are in memory.
    pub fn is_loaded(&self) -> (loaded: bool)
        ensures
            loaded == self.deep_view().data is Some,
    {
        self.data.is_some()
    }

    /// The last step of loading: keeps the bytes that were pulled, unless
    /// bytes are in memory already, and hands a copy out. A failed pull is
    /// handed on and leaves the asset as it was.
    pub fn retain(&mut self, pulled: Result<Vec<u8>, Error>) -> (result: Result<Vec<u8>, Error>)
        ensures
            final(self).deep_view().path == old(self).deep_view().path,
            final(self).deep_view().track == old(self).deep_view().track,
            match old(self).deep_view().data {
                Some(bytes) => {
                    &&& result matches Ok(out) && out@ == bytes
                    &&& final(self).deep_view() == old(self).deep_view()
                },
                None => match pulled {
                    Ok(bytes) => {
                        &&& result matches Ok(out) && out@ == bytes@
                        &&& final(self).deep_view().data == Some(bytes@)
                    },
                    Err(e) => {
                        &&& result matches Err(f) && f.fault() == e.fault()
                        &&& final(self).deep_view() == old(self).deep_view()
                    },
                },
            },
    {
        if self.data.is_none() {
            match pulled {
                Ok(bytes) => {
                    self.data = Some(bytes);
                },
                Err(e) => {
                    return Err(e);
                },
            }
        }
        match &self.data {
            Some(bytes) => Ok(copy_bytes(bytes)),
            None => Err(Error::AssetNotFound { path: self.path.clone() }),
        }
    }

    /// The bytes of the asset. Bytes in memory are handed out as they are,
    /// and `source` is not asked; otherwise they are pulled from `source` by
    /// the asset's path and kept, so that a second load asks nothing.
    pub fn load<S: AssetSource>(&mut self, source: &S) -> (result: Result<Vec<u8>, Error>)
        ensures
            final(self).deep_view().path == old(self).deep_view().path,
            final(self).deep_view().track == old(self).deep_view().track,
            match old(self).deep_view().data {
                Some(bytes) => {
                    &&& result matches Ok(out) && out@ == bytes
                    &&& final(self).deep_view() == old(self).deep_view()
                },
                None => match result {
                    Ok(out) => final(self).deep_view().data == Some(out@),
                    Err(_) => final(self).deep_view() == old(self).deep_view(),
                },
            },
    {
        match &self.data {
            Some(bytes) => Ok(copy_bytes(bytes)),
            None => {
                let pulled = source.load(self.path.as_str());
                self.retain(pulled)
            },
        }
    }

    /// Replaces the bytes: the asset is dirty from then on.
    pub fn replace(&mut self, data: Vec<u8>)
        ensures
            final(self).deep_view() == (AssetModel {
                path: old(self).deep_view().path,
                data: Some(data@),
                track: Track::Dirty,
            }),
    {
        self.data = Some(data);
        self.track = Track::Dirty;
    }
}

impl Codec for Asset {
    open spec fn fault(model: AssetModel, version: u8) -> Option<Fault> {
        if version != 0 {
            Some(unsupported(version))
        } else if model.track == Track::Dirty && model.data is None {
            Some(Fault::AssetNotFound { path: model.path })
        } else {
            None
        }
    }

    open spec fn tree(model: AssetModel, before: Json) -> Json {
        Json::String(model.path)
    }

    open spec fn channel(model: AssetModel, before: Seq<(Seq<char>, Snap)>) -> Seq<
        (Seq<char>, Snap),
    > {
        put(before, model.path, model.snapshot())
    }

    open spec fn parse(json: Json, version: u8) -> Result<AssetModel, Fault> {
        if version != 0 {
            Err(unsupported(version))
        } else {
            match json {
                Json::String(path) => Ok(AssetModel { path, data: None, track: Track::Clean }),
                _ => Err(Fault::MismatchType { expected: "string"@, found: json }),
            }
        }
    }

    fn encode(&self, writer: &mut Writer) -> (result: Result<(), Error>) {
        let version = writer.manifest().version();
        if version != 0 {
            return Err(Error::UnsupportedVersion { version });
        }
        let snap = match self.track {
            Track::Clean => AssetSnap::Clean,
            Track::Dirty => match &self.data {
                Some(bytes) => AssetSnap::Dirty(copy_bytes(bytes)),
                None => {
                    return Err(Error::AssetNotFound { path: self.path.clone() });
                },
            },
        };
        writer.value(Value::String(self.path.clone()));
        writer.asset(self.path.clone(), snap);
        Ok(())
    }

    fn decode(reader: &Reader) -> (result: Result<Asset, Error>) {
        let version = reader.manifest().version();
        if version != 0 {
            return Err(Error::UnsupportedVersion { version });
        }
        match reader.value().as_str() {
            Some(path) => Ok(Asset { path: path.to_owned(), data: None, track: Track::Clean }),
            None => Err(mismatch("string", reader.value())),
        }
    }
}

} // verus!
