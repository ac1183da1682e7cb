//! The codec contract and the writer and reader that carry it: a two-way
//! mapping between a type and a subtree of the value tree, with the binary
//! assets it owns registered in a side channel.

use crate::asset::AssetSnap;
use crate::asset::Snap;
use crate::error::mismatch;
use crate::error::Error;
use crate::error::Fault;
use crate::manifest::Manifest;
use crate::value::distinct_keys;
use crate::value::first_match;
use crate::value::items_json;
use crate::value::lemma_index_of;
use crate::value::lemma_put_distinct;
use crate::value::locate;
use crate::value::put;
use crate::value::Json;
use crate::value::Value;
use vstd::prelude::*;

verus! {

/// Model of the asset channel: one snapshot per path.
pub open spec fn channel_model(entries: Seq<(String, AssetSnap)>) -> Seq<(Seq<char>, Snap)> {
    Seq::new(entries.len(), |i: int| (entries[i].0@, entries[i].1.snap()))
}

/// The failure reported for a schema version that is not implemented.
pub open spec fn unsupported(version: u8) -> Fault {
    Fault::UnsupportedVersion { version }
}

/// A two-way mapping between a type and the value tree.
///
/// The four specification functions say what the two operations do, over
/// the model of the type: whether encoding fails, the node and the channel
/// it leaves behind, and what a node decodes to.
pub trait Codec: Sized + DeepView {
    /// The failure with which encoding `model` ends, if it fails.
    spec fn fault(model: Self::V, version: u8) -> Option<Fault>;

    /// The node that encoding `model` leaves in a writer whose node was
    /// `before`.
    spec fn tree(model: Self::V, before: Json) -> Json;

    /// The channel that encoding `model` leaves in a writer whose channel
    /// was `before`.
    spec fn channel(model: Self::V, before: Seq<(Seq<char>, Snap)>) -> Seq<(Seq<char>, Snap)>;

    /// What `json` decodes to.
    spec fn parse(json: Json, version: u8) -> Result<Self::V, Fault>;

    /// Writes the current-version form of `self` into `writer` and registers
    /// every asset that `self` owns.
    fn encode(&self, writer: &mut Writer) -> (result: Result<(), Error>)
        ensures
            final(writer).schema() == old(writer).schema(),
            match result {
                Ok(()) => {
                    &&& Self::fault(self.deep_view(), old(writer).schema()) is None
                    &&& final(writer).tree() == Self::tree(self.deep_view(), old(writer).tree())
                    &&& final(writer).channel() == Self::channel(
                        self.deep_view(),
                        old(writer).channel(),
                    )
                },
                Err(e) => Self::fault(self.deep_view(), old(writer).schema()) == Some(e.fault()),
            },
    ;

    /// Reads a value back from the node that `reader` stands on.
    fn decode(reader: &Reader) -> (result: Result<Self, Error>)
        ensures
            match result {
                Ok(value) => Self::parse(reader.tree(), reader.schema()) == Ok::<Self::V, Fault>(
                    value.deep_view(),
                ),
                Err(e) => Self::parse(reader.tree(), reader.schema()) == Err::<Self::V, Fault>(
                    e.fault(),
                ),
            },
    ;
}

/// Accumulates one node of the value tree and the asset channel while a
/// value is encoded.
#[derive(Debug)]
pub struct Writer {
    manifest: Manifest,
    value: Value,
    assets: Vec<(String, AssetSnap)>,
}

impl Writer {
    /// The schema version that is written.
    pub closed spec fn schema(&self) -> u8 {
        self.manifest.spec_version()
    }

    /// The node written so far.
    pub closed spec fn tree(&self) -> Json {
        self.value.json()
    }

    /// The assets registered so far.
    pub closed spec fn channel(&self) -> Seq<(Seq<char>, Snap)> {
        channel_model(self.assets@)
    }

    /// A writer for the schema of `manifest`, with an empty node and an
    /// empty channel.
    pub fn new(manifest: &Manifest) -> (writer: Writer)
        ensures
            writer.schema() == manifest.spec_version(),
            writer.tree() == Json::Null,
            writer.channel() == Seq::<(Seq<char>, Snap)>::empty(),
    {
        let writer = Writer { manifest: manifest.clone(), value: Value::Null, assets: Vec::new() };
        assert(writer.channel() =~= Seq::<(Seq<char>, Snap)>::empty());
        writer
    }

    /// The manifest that is written for.
    pub fn manifest(&self) -> (manifest: &Manifest)
        ensures
            manifest.spec_version() == self.schema(),
    {
        &self.manifest
    }

    /// Encodes `value` in a child writer that starts with an empty node and
    /// shares the channel, and stores the child's node under `key`. A node
    /// that is not yet an object first becomes an empty one.
    pub fn field<T: Codec>(&mut self, key: &str, value: &T) -> (result: Result<(), Error>)
        ensures
            final(self).schema() == old(self).schema(),
            match result {
                Ok(()) => {
                    &&& T::fault(value.deep_view(), old(self).schema()) is None
                    &&& final(self).tree() == old(self).tree().with_field(
                        key@,
                        T::tree(value.deep_view(), Json::Null),
                    )
                    &&& final(self).channel() == T::channel(
                        value.deep_view(),
                        old(self).channel(),
                    )
                },
                Err(e) => T::fault(value.deep_view(), old(self).schema()) == Some(e.fault()),
            },
    {
        let mut child = self.open();
        match value.encode(&mut child) {
            Ok(()) => {
                let node = self.close(child);
                self.value.insert(key, node);
                Ok(())
            },
            Err(e) => {
                let _ = self.close(child);
                Err(e)
            },
        }
    }

    /// Sets the node itself, as leaf types do.
    pub fn value(&mut self, raw: Value)
        ensures
            final(self).tree() == raw.json(),
            final(self).schema() == old(self).schema(),
            final(self).channel() == old(self).channel(),
    {
        self.value = raw;
    }

    /// Registers one asset in the channel; an earlier entry for the same
    /// path is overwritten.
    pub fn asset(&mut self, path: String, snap: AssetSnap)
        ensures
            final(self).channel() == put(old(self).channel(), path@, snap.snap()),
            distinct_keys(old(self).channel()) ==> distinct_keys(final(self).channel()),
            final(self).schema() == old(self).schema(),
            final(self).tree() == old(self).tree(),
    {
        proof {
            if distinct_keys(self.channel()) {
                lemma_put_distinct(self.channel(), path@, snap.snap());
            }
        }
        let at = locate(&self.assets, &path);
        let ghost prior = self.assets@;
        proof {
            lemma_index_of(channel_model(prior), path@);
            assert(first_match(channel_model(prior), path@, at as int));
        }
        if at < self.assets.len() {
            self.assets.set(at, (path, snap));
        } else {
            self.assets.push((path, snap));
        }
        assert(channel_model(self.assets@) =~= put(channel_model(prior), path@, snap.snap()));
    }

    /// Ends writing: the channel and the finished node.
    pub fn end(self) -> (parts: (Vec<(String, AssetSnap)>, Value))
        ensures
            channel_model(parts.0@) == self.channel(),
            parts.1.json() == self.tree(),
    {
        (self.assets, self.value)
    }

    /// Ends writing and keeps the finished node only.
    pub fn into_value(self) -> (value: Value)
        ensures
            value.json() == self.tree(),
    {
        self.value
    }

    /// A child writer with an empty node that takes over the channel.
    fn open(&mut self) -> (child: Writer)
        ensures
            child.schema() == old(self).schema(),
            child.tree() == Json::Null,
            child.channel() == old(self).channel(),
            final(self).schema() == old(self).schema(),
            final(self).tree() == old(self).tree(),
    {
        let mut assets: Vec<(String, AssetSnap)> = Vec::new();
        core::mem::swap(&mut self.assets, &mut assets);
        Writer { manifest: self.manifest.clone(), value: Value::Null, assets }
    }

    /// Takes the channel back from a child and hands out the child's node.
    fn close(&mut self, child: Writer) -> (node: Value)
        ensures
            node.json() == child.tree(),
            final(self).channel() == child.channel(),
            final(self).schema() == old(self).schema(),
            final(self).tree() == old(self).tree(),
    {
        self.assets = child.assets;
        child.value
    }
}

/// Stands on one borrowed node of a value tree while a value is decoded.
#[derive(Debug)]
pub struct Reader<'a> {
    manifest: &'a Manifest,
    value: &'a Value,
}

/// What reading the member `key` of `json` as a `T` gives.
pub open spec fn read_field<T: Codec>(json: Json, key: Seq<char>, version: u8) -> Result<
    T::V,
    Fault,
> {
    match json.field(key) {
        None => Err(Fault::MissingField { field: key }),
        Some(member) => T::parse(member, version),
    }
}

impl<'a> Reader<'a> {
    /// The schema version that is read.
    pub closed spec fn schema(&self) -> u8 {
        self.manifest.spec_version()
    }

    /// The node that the reader stands on.
    pub closed spec fn tree(&self) -> Json {
        self.value.json()
    }

    /// A reader on `value`, for the schema of `manifest`.
    pub fn new(manifest: &'a Manifest, value: &'a Value) -> (reader: Reader<'a>)
        ensures
            reader.schema() == manifest.spec_version(),
            reader.tree() == value.json(),
    {
        Reader { manifest, value }
    }

    /// The manifest that is read for.
    pub fn manifest(&self) -> (manifest: &'a Manifest)
        ensures
            manifest.spec_version() == self.schema(),
    {
        self.manifest
    }

    /// The node that the reader stands on.
    pub fn value(&self) -> (value: &'a Value)
        ensures
            value.json() == self.tree(),
    {
        self.value
    }

    /// A reader on the member stored under `key`; a missing field if the
    /// node has none.
    pub fn field(&self, key: &str) -> (result: Result<Reader<'a>, Error>)
        ensures
            match result {
                Ok(child) => {
                    &&& self.tree().field(key@) == Some(child.tree())
                    &&& child.schema() == self.schema()
                },
                Err(e) => {
                    &&& self.tree().field(key@) is None
                    &&& e.fault() == Fault::MissingField { field: key@ }
                },
            },
    {
        match self.value.get(key) {
            Some(member) => Ok(Reader { manifest: self.manifest, value: member }),
            None => Err(Error::MissingField { field: key.to_owned() }),
        }
    }

    /// Decodes the member stored under `key`.
    pub fn read<T: Codec>(&self, key: &str) -> (result: Result<T, Error>)
        ensures
            match result {
                Ok(value) => read_field::<T>(self.tree(), key@, self.schema()) == Ok::<T::V, Fault>(
                    value.deep_view(),
                ),
                Err(e) => read_field::<T>(self.tree(), key@, self.schema()) == Err::<T::V, Fault>(
                    e.fault(),
                ),
            },
    {
        match self.field(key) {
            Ok(child) => T::decode(&child),
            Err(e) => Err(e),
        }
    }
}

impl Codec for String {
    open spec fn fault(model: Seq<char>, version: u8) -> Option<Fault> {
        if version != 0 {
            Some(unsupported(version))
        } else {
            None
        }
    }

    open spec fn tree(model: Seq<char>, before: Json) -> Json {
        Json::String(model)
    }

    open spec fn channel(model: Seq<char>, before: Seq<(Seq<char>, Snap)>) -> Seq<
        (Seq<char>, Snap),
    > {
        before
    }

    open spec fn parse(json: Json, version: u8) -> Result<Seq<char>, Fault> {
        if version != 0 {
            Err(unsupported(version))
        } else {
            match json {
                Json::String(text) => Ok(text),
                _ => Err(Fault::MismatchType { expected: "string"@, found: json }),
            }
        }
    }

    fn encode(&self, writer: &mut Writer) -> (result: Result<(), Error>) {
        let version = writer.manifest().version();
        if version != 0 {
            return Err(Error::UnsupportedVersion { version });
        }
        writer.value(Value::String(self.clone()));
        Ok(())
    }

    fn decode(reader: &Reader) -> (result: Result<String, Error>) {
        let version = reader.manifest().version();
        if version != 0 {
            return Err(Error::UnsupportedVersion { version });
        }
        match reader.value().as_str() {
            Some(text) => Ok(text.to_owned()),
            None => Err(mismatch("string", reader.value())),
        }
    }
}

impl Codec for u32 {
    open spec fn fault(model: u32, version: u8) -> Option<Fault> {
        if version != 0 {
            Some(unsupported(version))
        } else {
            None
        }
    }

    open spec fn tree(model: u32, before: Json) -> Json {
        Json::Number(model)
    }

    open spec fn channel(model: u32, before: Seq<(Seq<char>, Snap)>) -> Seq<(Seq<char>, Snap)> {
        before
    }

    open spec fn parse(json: Json, version: u8) -> Result<u32, Fault> {
        if version != 0 {
            Err(unsupported(version))
        } else {
            match json {
                Json::Number(bits) => Ok(bits),
                _ => Err(Fault::MismatchType { expected: "number"@, found: json }),
            }
        }
    }

    fn encode(&self, writer: &mut Writer) -> (result: Result<(), Error>) {
        let version = writer.manifest().version();
        if version != 0 {
            return Err(Error::UnsupportedVersion { version });
        }
        writer.value(Value::Number(*self));
        Ok(())
    }

    fn decode(reader: &Reader) -> (result: Result<u32, Error>) {
        let version = reader.manifest().version();
        if version != 0 {
            return Err(Error::UnsupportedVersion { version });
        }
        match reader.value().as_number() {
            Some(bits) => Ok(bits),
            None => Err(mismatch("number", reader.value())),
        }
    }
}

impl<T: Codec> Codec for Option<T> {
    open spec fn fault(model: Option<T::V>, version: u8) -> Option<Fault> {
        if version != 0 {
            Some(unsupported(version))
        } else {
            match model {
                None => None,
                Some(inner) => T::fault(inner, version),
            }
        }
    }

    open spec fn tree(model: Option<T::V>, before: Json) -> Json {
        match model {
            None => Json::Null,
            Some(inner) => T::tree(inner, before),
        }
    }

    open spec fn channel(model: Option<T::V>, before: Seq<(Seq<char>, Snap)>) -> Seq<
        (Seq<char>, Snap),
    > {
        match model {
            None => before,
            Some(inner) => T::channel(inner, before),
        }
    }

    open spec fn parse(json: Json, version: u8) -> Result<Option<T::V>, Fault> {
        if version != 0 {
            Err(unsupported(version))
        } else if json == Json::Null {
            Ok(None)
        } else {
            match T::parse(json, version) {
                Ok(inner) => Ok(Some(inner)),
                Err(fault) => Err(fault),
            }
        }
    }

    fn encode(&self, writer: &mut Writer) -> (result: Result<(), Error>) {
        let version = writer.manifest().version();
        if version != 0 {
            return Err(Error::UnsupportedVersion { version });
        }
        match self {
            None => {
                writer.value(Value::Null);
                Ok(())
            },
            Some(inner) => inner.encode(writer),
        }
    }

    fn decode(reader: &Reader) -> (result: Result<Option<T>, Error>) {
        let version = reader.manifest().version();
        if version != 0 {
            return Err(Error::UnsupportedVersion { version });
        }
        if reader.value().is_null() {
            return Ok(None);
        }
        match T::decode(reader) {
            Ok(inner) => Ok(Some(inner)),
            Err(e) => Err(e),
        }
    }
}

/// The first failure among the items from index `from` on.
pub open spec fn first_fault<T: Codec>(items: Seq<T::V>, version: u8, from: int) -> Option<Fault>
    decreases items.len() - from,
{
    if from < 0 || from >= items.len() {
        None
    } else {
        match T::fault(items[from], version) {
            Some(fault) => Some(fault),
            None => first_fault::<T>(items, version, from + 1),
        }
    }
}

/// The channel after the first `count` items have registered their assets.
pub open spec fn channel_upto<T: Codec>(
    items: Seq<T::V>,
    before: Seq<(Seq<char>, Snap)>,
    count: int,
) -> Seq<(Seq<char>, Snap)>
    decreases count,
{
    if count <= 0 || count > items.len() {
        before
    } else {
        T::channel(items[count - 1], channel_upto::<T>(items, before, count - 1))
    }
}

/// What the first `count` nodes decode to, or the first failure among them.
pub open spec fn parse_upto<T: Codec>(nodes: Seq<Json>, version: u8, count: int) -> Result<
    Seq<T::V>,
    Fault,
>
    decreases count,
{
    if count <= 0 || count > nodes.len() {
        Ok(Seq::empty())
    } else {
        match parse_upto::<T>(nodes, version, count - 1) {
            Err(fault) => Err(fault),
            Ok(head) => match T::parse(nodes[count - 1], version) {
                Err(fault) => Err(fault),
                Ok(item) => Ok(head.push(item)),
            },
        }
    }
}

/// A failure among the first nodes is the failure of the whole run.
pub proof fn lemma_parse_upto_fails<T: Codec>(nodes: Seq<Json>, version: u8, at: int, upto: int)
    requires
        0 <= at <= upto <= nodes.len(),
        parse_upto::<T>(nodes, version, at) is Err,
    ensures
        parse_upto::<T>(nodes, version, upto) == parse_upto::<T>(nodes, version, at),
    decreases upto - at,
{
    if at < upto {
        lemma_parse_upto_fails::<T>(nodes, version, at, upto - 1);
    }
}

/// The nodes of the items, each encoded into an empty node.
pub open spec fn item_trees<T: Codec>(items: Seq<T::V>) -> Seq<Json> {
    Seq::new(items.len(), |i: int| T::tree(items[i], Json::Null))
}

impl<T: Codec> Codec for Vec<T> {
    open spec fn fault(model: Seq<T::V>, version: u8) -> Option<Fault> {
        if version != 0 {
            Some(unsupported(version))
        } else {
            first_fault::<T>(model, version, 0)
        }
    }

    open spec fn tree(model: Seq<T::V>, before: Json) -> Json {
        Json::Array(item_trees::<T>(model))
    }

    open spec fn channel(model: Seq<T::V>, before: Seq<(Seq<char>, Snap)>) -> Seq<
        (Seq<char>, Snap),
    > {
        channel_upto::<T>(model, before, model.len() as int)
    }

    open spec fn parse(json: Json, version: u8) -> Result<Seq<T::V>, Fault> {
        if version != 0 {
            Err(unsupported(version))
        } else {
            match json {
                Json::Array(nodes) => parse_upto::<T>(nodes, version, nodes.len() as int),
                _ => Err(Fault::MismatchType { expected: "array"@, found: json }),
            }
        }
    }

    fn encode(&self, writer: &mut Writer) -> (result: Result<(), Error>) {
        let version = writer.manifest().version();
        if version != 0 {
            return Err(Error::UnsupportedVersion { version });
        }
        let ghost model = self.deep_view();
        let ghost before = writer.channel();
        let mut nodes: Vec<Value> = Vec::new();
        let mut i: usize = 0;
        while i < self.len()
            invariant
                i <= self.len(),
                model == self.deep_view(),
                model.len() == self.len(),
                version == 0,
                writer.schema() == version,
                old(writer).schema() == version,
                before == old(writer).channel(),
                writer.tree() == old(writer).tree(),
                writer.channel() == channel_upto::<T>(model, before, i as int),
                first_fault::<T>(model, version, 0) == first_fault::<T>(model, version, i as int),
                nodes@.len() == i,
                forall|j: int|
                    0 <= j < i ==> (#[trigger] nodes@[j]).json() == T::tree(model[j], Json::Null),
            decreases self.len() - i,
        {
            let mut child = writer.open();
            match self[i].encode(&mut child) {
                Ok(()) => {
                    let node = writer.close(child);
                    nodes.push(node);
                },
                Err(e) => {
                    let _ = writer.close(child);
                    return Err(e);
                },
            }
            i += 1;
        }
        assert(items_json(nodes@) =~= item_trees::<T>(model));
        writer.value(Value::Array(nodes));
        Ok(())
    }

    fn decode(reader: &Reader) -> (result: Result<Vec<T>, Error>) {
        let version = reader.manifest().version();
        if version != 0 {
            return Err(Error::UnsupportedVersion { version });
        }
        match reader.value().as_array() {
            None => Err(mismatch("array", reader.value())),
            Some(items) => {
                let ghost nodes = items_json(items@);
                let mut out: Vec<T> = Vec::new();
                let mut i: usize = 0;
                assert(out.deep_view() =~= Seq::<T::V>::empty());
                while i < items.len()
                    invariant
                        i <= items.len(),
                        nodes == items_json(items@),
                        nodes.len() == items.len(),
                        reader.tree() == Json::Array(nodes),
                        version == 0,
                        reader.schema() == version,
                        parse_upto::<T>(nodes, version, i as int) == Ok::<Seq<T::V>, Fault>(
                            out.deep_view(),
                        ),
                    decreases items.len() - i,
                {
                    let child = Reader { manifest: reader.manifest, value: &items[i] };
                    let ghost head = out.deep_view();
                    match T::decode(&child) {
                        Ok(item) => {
                            out.push(item);
                            assert(out.deep_view() =~= head.push(item.deep_view()));
                        },
                        Err(e) => {
                            proof {
                                lemma_parse_upto_fails::<T>(
                                    nodes,
                                    version,
                                    i + 1,
                                    nodes.len() as int,
                                );
                            }
                            return Err(e);
                        },
                    }
                    i += 1;
                }
                Ok(out)
            },
        }
    }
}

} // verus!
