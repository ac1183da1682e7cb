//! The positional byte layer: lengths, runs of bytes, strings and values
//! with a form in bytes, written to and read from a buffer one after the
//! other. Lengths are stored least significant byte first. A write or a
//! read that fails leaves the buffer, or the place in it, as it was.

use crate::version::Version;
use vstd::prelude::*;
use vstd::slice::slice_subrange;
use vstd::slice::slice_to_vec;
use vstd::string::StringSliceAdditionalSpecFns;
use vstd::utf8::decode_utf8;
use vstd::utf8::encode_utf8;
use vstd::utf8::valid_utf8;

verus! {

/// Why bytes could not be written or read.
#[derive(Clone, Copy, Debug, PartialEq, Eq, Structural)]
pub enum Error {
    /// A length does not fit the width chosen for it, or the machine.
    InvalidLength,
    /// The buffer ends before what is read.
    UnexpectedEnd,
    /// The bytes of a string are not UTF-8.
    InvalidUtf8,
}

/// The fixed-size scalars.
pub trait Primitive {

}

/// The unsigned integers in which a length can be stored.
pub trait Length: Primitive {
    /// The number of bytes that a length occupies.
    spec fn width() -> nat;

    /// The number of bytes that a length occupies.
    fn bytes() -> (count: usize)
        ensures
            count == Self::width(),
            1 <= count <= 16,
    ;
}

impl Primitive for u8 {

}

impl Primitive for u16 {

}

impl Primitive for u32 {

}

impl Primitive for u64 {

}

impl Primitive for u128 {

}

impl Primitive for i8 {

}

impl Primitive for i16 {

}

impl Primitive for i32 {

}

impl Primitive for i64 {

}

impl Primitive for i128 {

}

impl Primitive for bool {

}

impl Length for u8 {
    open spec fn width() -> nat {
        1
    }

    fn bytes() -> (count: usize) {
        1
    }
}

impl Length for u16 {
    open spec fn width() -> nat {
        2
    }

    fn bytes() -> (count: usize) {
        2
    }
}

impl Length for u32 {
    open spec fn width() -> nat {
        4
    }

    fn bytes() -> (count: usize) {
        4
    }
}

impl Length for u64 {
    open spec fn width() -> nat {
        8
    }

    fn bytes() -> (count: usize) {
        8
    }
}

impl Length for u128 {
    open spec fn width() -> nat {
        16
    }

    fn bytes() -> (count: usize) {
        16
    }
}

/// The `width` bytes of `value`, least significant first.
pub open spec fn le_bytes(value: nat, width: nat) -> Seq<u8>
    decreases width,
{
    if width == 0 {
        Seq::empty()
    } else {
        seq![(value % 256) as u8] + le_bytes(value / 256, (width - 1) as nat)
    }
}

/// Whether `value` can be written in `width` bytes.
pub open spec fn fits(value: nat, width: nat) -> bool
    decreases width,
{
    if width == 0 {
        value == 0
    } else {
        fits(value / 256, (width - 1) as nat)
    }
}

/// The number whose bytes, least significant first, are `bytes`.
pub open spec fn le_value(bytes: Seq<u8>) -> nat
    decreases bytes.len(),
{
    if bytes.len() == 0 {
        0
    } else {
        bytes[0] as nat + 256 * le_value(bytes.drop_first())
    }
}

/// A length is written in as many bytes as its width says.
pub proof fn lemma_le_bytes_len(value: nat, width: nat)
    ensures
        le_bytes(value, width).len() == width,
    decreases width,
{
    if width > 0 {
        lemma_le_bytes_len(value / 256, (width - 1) as nat);
    }
}

/// A length that fits its width is read back as it was written.
pub proof fn lemma_length_round_trip(value: nat, width: nat)
    requires
        fits(value, width),
    ensures
        le_value(le_bytes(value, width)) == value,
        le_bytes(value, width).len() == width,
    decreases width,
{
    lemma_le_bytes_len(value, width);
    if width > 0 {
        let rest = le_bytes(value / 256, (width - 1) as nat);
        lemma_length_round_trip(value / 256, (width - 1) as nat);
        assert(le_bytes(value, width).drop_first() =~= rest);
        assert(value == (value % 256) + 256 * (value / 256)) by (nonlinear_arith);
    }
}

/// The value of the higher bytes never exceeds the value of all.
pub proof fn lemma_le_value_skip(bytes: Seq<u8>, from: int)
    requires
        0 <= from <= bytes.len(),
    ensures
        le_value(bytes.skip(from)) <= le_value(bytes),
    decreases from,
{
    if from == 0 {
        assert(bytes.skip(0) =~= bytes);
    } else {
        lemma_le_value_skip(bytes.drop_first(), from - 1);
        assert(bytes.drop_first().skip(from - 1) =~= bytes.skip(from));
    }
}

/// A run of bytes that was written behind its length is read back, and
/// what follows it is left.
pub proof fn lemma_bytes_with_len_round_trip(data: Seq<u8>, width: nat, tail: Seq<u8>)
    requires
        fits(data.len(), width),
        data.len() <= usize::MAX,
    ensures
        parse_bytes_with_len(le_bytes(data.len(), width) + data + tail, width) == Ok::<
            (Seq<u8>, Seq<u8>),
            Error,
        >((data, tail)),
{
    lemma_length_round_trip(data.len(), width);
    let head = le_bytes(data.len(), width);
    let all = head + data + tail;
    assert(all.take(width as int) =~= head);
    assert(all.subrange(width as int, (width + data.len()) as int) =~= data);
    assert(all.skip((width + data.len()) as int) =~= tail);
}

/// The UTF-8 form of a string is well-formed and stands for that string,
/// so a string that was written behind its length is read back.
pub proof fn lemma_string_with_len_round_trip(text: Seq<char>, width: nat, tail: Seq<u8>)
    requires
        fits(encode_utf8(text).len(), width),
        encode_utf8(text).len() <= usize::MAX,
    ensures
        parse_bytes_with_len(
            le_bytes(encode_utf8(text).len(), width) + encode_utf8(text) + tail,
            width,
        ) == Ok::<(Seq<u8>, Seq<u8>), Error>((encode_utf8(text), tail)),
        valid_utf8(encode_utf8(text)),
        decode_utf8(encode_utf8(text)) == text,
{
    lemma_bytes_with_len_round_trip(encode_utf8(text), width, tail);
    vstd::utf8::encode_utf8_valid_utf8(text);
    vstd::utf8::encode_utf8_decode_utf8(text);
}

/// What reading a length of `width` bytes from `rest` gives.
pub open spec fn parse_len(rest: Seq<u8>, width: nat) -> Result<nat, Error> {
    if rest.len() < width {
        Err(Error::UnexpectedEnd)
    } else if le_value(rest.take(width as int)) > usize::MAX {
        Err(Error::InvalidLength)
    } else {
        Ok(le_value(rest.take(width as int)))
    }
}

/// What reading a run of bytes behind its length gives: the run and what
/// is left of `rest`.
pub open spec fn parse_bytes_with_len(rest: Seq<u8>, width: nat) -> Result<
    (Seq<u8>, Seq<u8>),
    Error,
> {
    match parse_len(rest, width) {
        Err(e) => Err(e),
        Ok(len) => if rest.len() - width < len {
            Err(Error::UnexpectedEnd)
        } else {
            Ok((rest.subrange(width as int, (width + len) as int), rest.skip((width + len) as int)))
        },
    }
}

/// Index of the first zero byte at or after `from`; the length if none is.
pub open spec fn first_zero(rest: Seq<u8>, from: int) -> int
    decreases rest.len() - from,
{
    if from < 0 || from >= rest.len() {
        rest.len() as int
    } else if rest[from] == 0 {
        from
    } else {
        first_zero(rest, from + 1)
    }
}

/// The string that well-formed bytes stand for.
pub fn text_of(bytes: Vec<u8>) -> (result: Result<String, Error>)
    ensures
        match result {
            Ok(text) => valid_utf8(bytes@) && text@ == decode_utf8(bytes@),
            Err(e) => !valid_utf8(bytes@) && e == Error::InvalidUtf8,
        },
{
    match string_from_utf8(bytes) {
        Some(text) => {
            proof {
                vstd::utf8::encode_utf8_decode_utf8(text@);
            }
            Ok(text)
        },
        None => Err(Error::InvalidUtf8),
    }
}

/// `String::from_utf8` of the standard library: the string whose UTF-8
/// form is `bytes`, or nothing when `bytes` is not well-formed UTF-8.
#[verifier::external_body]
fn string_from_utf8(bytes: Vec<u8>) -> (result: Option<String>)
    ensures
        result is Some <==> valid_utf8(bytes@),
        result matches Some(text) ==> encode_utf8(text@) == bytes@,
{
    String::from_utf8(bytes).ok()
}

/// A value that has a form in bytes.
pub trait Encode {
    /// The bytes that stand for the value; none when a length in it does
    /// not fit the width of its place.
    spec fn layout(&self) -> Option<Seq<u8>>;

    /// Appends the bytes that stand for the value. When a length does not
    /// fit, nothing is appended.
    fn encode(&self, writer: &mut Writer) -> (result: Result<(), Error>)
        ensures
            final(writer).spec_version() == old(writer).spec_version(),
            match result {
                Ok(()) => self.layout() matches Some(bytes) && final(writer).written() == old(
                    writer,
                ).written() + bytes,
                Err(e) => {
                    &&& e == Error::InvalidLength
                    &&& self.layout() is None
                    &&& final(writer).written() == old(writer).written()
                },
            },
    ;
}

/// A value that can be read from its form in bytes.
pub trait Decode: Sized + DeepView {
    /// What the front of `rest` stands for, and what is left behind it.
    spec fn parsed(rest: Seq<u8>) -> Result<(Self::V, Seq<u8>), Error>;

    /// Reads a value from the front of what is left. A read that fails
    /// consumes nothing.
    fn decode(reader: &mut Reader) -> (result: Result<Self, Error>)
        ensures
            final(reader).spec_version() == old(reader).spec_version(),
            final(reader).stream() == old(reader).stream(),
            match result {
                Ok(value) => Self::parsed(old(reader).rest()) == Ok::<(Self::V, Seq<u8>), Error>(
                    (value.deep_view(), final(reader).rest()),
                ),
                Err(e) => {
                    &&& Self::parsed(old(reader).rest()) == Err::<(Self::V, Seq<u8>), Error>(e)
                    &&& final(reader).rest() == old(reader).rest()
                },
            },
    ;
}

/// The bytes that stand for the first `count` objects, one after the other;
/// none when one of them has none.
pub open spec fn layout_run<T: Encode>(objects: Seq<T>, count: int) -> Option<Seq<u8>>
    decreases count,
{
    if count <= 0 || count > objects.len() {
        Some(Seq::empty())
    } else {
        match (layout_run(objects, count - 1), objects[count - 1].layout()) {
            (Some(head), Some(last)) => Some(head + last),
            _ => None,
        }
    }
}

/// When some of the first objects have no bytes, the whole run has none.
pub proof fn lemma_layout_run_fails<T: Encode>(objects: Seq<T>, at: int, upto: int)
    requires
        0 <= at <= upto <= objects.len(),
        layout_run(objects, at) is None,
    ensures
        layout_run(objects, upto) is None,
    decreases upto - at,
{
    if at < upto {
        lemma_layout_run_fails(objects, at, upto - 1);
    }
}

/// What `count` values read from the front of `rest` one after the other
/// give, and what is left behind them.
pub open spec fn parsed_run<T: Decode>(rest: Seq<u8>, count: nat) -> Result<
    (Seq<T::V>, Seq<u8>),
    Error,
>
    decreases count,
{
    if count == 0 {
        Ok((Seq::empty(), rest))
    } else {
        match T::parsed(rest) {
            Err(e) => Err(e),
            Ok((first, left)) => match parsed_run::<T>(left, (count - 1) as nat) {
                Err(e) => Err(e),
                Ok((others, behind)) => Ok((seq![first] + others, behind)),
            },
        }
    }
}

/// What a run of values behind its count gives.
pub open spec fn parsed_objects<T: Decode>(rest: Seq<u8>, width: nat) -> Result<
    (Seq<T::V>, Seq<u8>),
    Error,
> {
    match parse_len(rest, width) {
        Err(e) => Err(e),
        Ok(count) => parsed_run::<T>(rest.skip(width as int), count),
    }
}

/// What is still to be read joins what was read already.
pub open spec fn joined_run<V>(head: Seq<V>, tail: Result<(Seq<V>, Seq<u8>), Error>) -> Result<
    (Seq<V>, Seq<u8>),
    Error,
> {
    match tail {
        Err(e) => Err(e),
        Ok((others, behind)) => Ok((head + others, behind)),
    }
}

/// Reads lengths, runs of bytes and strings from a buffer, front to back.
/// A read that fails consumes nothing.
#[derive(Debug)]
pub struct Reader {
    stream: Vec<u8>,
    position: usize,
    version: Version,
}

impl Reader {
    /// The bytes that have not been read yet.
    pub closed spec fn rest(&self) -> Seq<u8> {
        if self.position <= self.stream@.len() {
            self.stream@.skip(self.position as int)
        } else {
            Seq::empty()
        }
    }

    /// The whole buffer.
    pub closed spec fn stream(&self) -> Seq<u8> {
        self.stream@
    }

    /// The format version that is read.
    pub closed spec fn spec_version(&self) -> Version {
        self.version
    }

    /// A reader at the front of `stream`, for the latest format version.
    pub fn new(stream: Vec<u8>) -> (reader: Reader)
        ensures
            reader.rest() == stream@,
            reader.stream() == stream@,
            reader.spec_version() == Version::spec_latest(),
    {
        assert(stream@.skip(0) =~= stream@);
        Reader { stream, position: 0, version: Version::latest() }
    }

    /// The reader, for another format version.
    pub fn with_version(self, version: Version) -> (reader: Reader)
        ensures
            reader.rest() == self.rest(),
            reader.stream() == self.stream(),
            reader.spec_version() == version,
    {
        Reader { stream: self.stream, position: self.position, version }
    }

    /// The format version that is read.
    pub fn version(&self) -> (version: Version)
        ensures
            version == self.spec_version(),
    {
        self.version
    }

    /// Where reading goes on in the buffer.
    fn offset(&self) -> (from: usize)
        ensures
            from <= self.stream@.len(),
            self.rest() == self.stream@.skip(from as int),
    {
        if self.position <= self.stream.len() {
            self.position
        } else {
            assert(self.stream@.skip(self.stream@.len() as int) =~= Seq::<u8>::empty());
            self.stream.len()
        }
    }

    /// Where reading goes on, counted from the front of the buffer.
    pub fn position(&self) -> (position: usize)
        ensures
            position <= self.stream().len(),
            self.rest() == self.stream().skip(position as int),
    {
        self.offset()
    }

    /// Goes on reading at `position`, or at the end of the buffer if
    /// `position` lies behind it.
    pub fn seek(&mut self, position: usize)
        ensures
            final(self).spec_version() == old(self).spec_version(),
            final(self).stream() == old(self).stream(),
            final(self).rest() == if position <= old(self).stream().len() {
                old(self).stream().skip(position as int)
            } else {
                Seq::empty()
            },
    {
        self.position = position;
    }

    /// A value of a type that has a form in bytes.
    pub fn read_object<T: Decode>(&mut self) -> (result: Result<T, Error>)
        ensures
            final(self).spec_version() == old(self).spec_version(),
            final(self).stream() == old(self).stream(),
            match result {
                Ok(value) => T::parsed(old(self).rest()) == Ok::<(T::V, Seq<u8>), Error>(
                    (value.deep_view(), final(self).rest()),
                ),
                Err(e) => {
                    &&& T::parsed(old(self).rest()) == Err::<(T::V, Seq<u8>), Error>(e)
                    &&& final(self).rest() == old(self).rest()
                },
            },
    {
        T::decode(self)
    }

    /// A run of values behind their count, which is stored in the bytes of
    /// an `L`.
    pub fn read_objects<L: Length, T: Decode>(&mut self) -> (result: Result<Vec<T>, Error>)
        ensures
            final(self).spec_version() == old(self).spec_version(),
            final(self).stream() == old(self).stream(),
            match result {
                Ok(objects) => parsed_objects::<T>(old(self).rest(), L::width()) == Ok::<
                    (Seq<T::V>, Seq<u8>),
                    Error,
                >((objects.deep_view(), final(self).rest())),
                Err(e) => {
                    &&& parsed_objects::<T>(old(self).rest(), L::width()) == Err::<
                        (Seq<T::V>, Seq<u8>),
                        Error,
                    >(e)
                    &&& final(self).rest() == old(self).rest()
                },
            },
    {
        let start = self.offset();
        let count = self.read_len::<L>()?;
        let ghost first = self.rest();
        let ghost wanted = parsed_run::<T>(first, count as nat);
        let mut objects: Vec<T> = Vec::new();
        let mut i: usize = 0;
        assert(objects.deep_view() =~= Seq::<T::V>::empty());
        assert(joined_run(objects.deep_view(), wanted) == wanted) by {
            if wanted is Ok {
                assert(Seq::<T::V>::empty() + wanted->Ok_0.0 =~= wanted->Ok_0.0);
            }
        }
        while i < count
            invariant
                i <= count,
                self.spec_version() == old(self).spec_version(),
                self.stream() == old(self).stream(),
                start <= self.stream().len(),
                old(self).rest() == self.stream().skip(start as int),
                wanted == parsed_objects::<T>(old(self).rest(), L::width()),
                wanted == joined_run(
                    objects.deep_view(),
                    parsed_run::<T>(self.rest(), (count - i) as nat),
                ),
            decreases count - i,
        {
            let ghost head = objects.deep_view();
            let ghost rest = self.rest();
            match T::decode(self) {
                Ok(object) => {
                    objects.push(object);
                    proof {
                        let next = parsed_run::<T>(self.rest(), (count - i - 1) as nat);
                        assert(objects.deep_view() =~= head.push(object.deep_view()));
                        if next is Ok {
                            assert(head + (seq![object.deep_view()] + next->Ok_0.0)
                                =~= objects.deep_view() + next->Ok_0.0);
                        }
                    }
                },
                Err(e) => {
                    self.position = start;
                    return Err(e);
                },
            }
            i += 1;
        }
        assert(objects.deep_view() + Seq::<T::V>::empty() =~= objects.deep_view());
        Ok(objects)
    }

    /// The number of bytes that have not been read yet.
    pub fn remaining(&self) -> (count: usize)
        ensures
            count == self.rest().len(),
    {
        self.stream.len() - self.offset()
    }

    /// The next `len` bytes.
    pub fn read_bytes(&mut self, len: usize) -> (result: Result<Vec<u8>, Error>)
        ensures
            final(self).spec_version() == old(self).spec_version(),
            final(self).stream() == old(self).stream(),
            match result {
                Ok(bytes) => {
                    &&& len <= old(self).rest().len()
                    &&& bytes@ == old(self).rest().take(len as int)
                    &&& final(self).rest() == old(self).rest().skip(len as int)
                },
                Err(e) => {
                    &&& e == Error::UnexpectedEnd
                    &&& len > old(self).rest().len()
                    &&& final(self).rest() == old(self).rest()
                },
            },
    {
        let from = self.offset();
        if len > self.stream.len() - from {
            return Err(Error::UnexpectedEnd);
        }
        let bytes = slice_to_vec(slice_subrange(self.stream.as_slice(), from, from + len));
        self.position = from + len;
        assert(bytes@ =~= old(self).rest().take(len as int));
        assert(self.rest() =~= old(self).rest().skip(len as int));
        Ok(bytes)
    }

    /// A length stored in the bytes of a `T`.
    pub fn read_len<T: Length>(&mut self) -> (result: Result<usize, Error>)
        ensures
            final(self).spec_version() == old(self).spec_version(),
            final(self).stream() == old(self).stream(),
            match result {
                Ok(len) => {
                    &&& parse_len(old(self).rest(), T::width()) == Ok::<nat, Error>(len as nat)
                    &&& final(self).rest() == old(self).rest().skip(T::width() as int)
                },
                Err(e) => {
                    &&& parse_len(old(self).rest(), T::width()) == Err::<nat, Error>(e)
                    &&& final(self).rest() == old(self).rest()
                },
            },
    {
        let width = T::bytes();
        let start = self.offset();
        let bytes = match self.read_bytes(width) {
            Ok(bytes) => bytes,
            Err(e) => {
                return Err(e);
            },
        };
        let mut value: usize = 0;
        let mut i: usize = width;
        let mut fitting = true;
        proof {
            assert(bytes@.skip(width as int) =~= Seq::<u8>::empty());
        }
        while i > 0 && fitting
            invariant
                i <= width,
                bytes@.len() == width,
                fitting ==> value == le_value(bytes@.skip(i as int)),
                !fitting ==> le_value(bytes@) > usize::MAX,
            decreases i,
        {
            let byte = bytes[i - 1];
            proof {
                let tail = bytes@.skip(i - 1);
                assert(tail.drop_first() =~= bytes@.skip(i as int));
                assert(le_value(tail) == byte as nat + 256 * le_value(bytes@.skip(i as int)));
                lemma_le_value_skip(bytes@, i - 1);
            }
            if value > (usize::MAX - byte as usize) / 256 {
                fitting = false;
            } else {
                value = value * 256 + byte as usize;
            }
            i -= 1;
        }
        if !fitting {
            self.position = start;
            return Err(Error::InvalidLength);
        }
        assert(bytes@.skip(0) =~= bytes@);
        Ok(value)
    }

    /// A run of bytes stored behind its length, which is a `T`.
    pub fn read_bytes_with_len<T: Length>(&mut self) -> (result: Result<Vec<u8>, Error>)
        ensures
            final(self).spec_version() == old(self).spec_version(),
            final(self).stream() == old(self).stream(),
            match result {
                Ok(bytes) => parse_bytes_with_len(old(self).rest(), T::width()) == Ok::<
                    (Seq<u8>, Seq<u8>),
                    Error,
                >((bytes@, final(self).rest())),
                Err(e) => {
                    &&& parse_bytes_with_len(old(self).rest(), T::width()) == Err::<
                        (Seq<u8>, Seq<u8>),
                        Error,
                    >(e)
                    &&& final(self).rest() == old(self).rest()
                },
            },
    {
        let start = self.offset();
        let len = self.read_len::<T>()?;
        match self.read_bytes(len) {
            Ok(bytes) => {
                proof {
                    let rest = old(self).rest();
                    let width = T::width() as int;
                    assert(bytes@ =~= rest.subrange(width, width + len));
                    assert(self.rest() =~= rest.skip(width + len));
                }
                Ok(bytes)
            },
            Err(e) => {
                self.position = start;
                Err(e)
            },
        }
    }

    /// A string stored behind the length of its UTF-8 form, which is a `T`.
    pub fn read_string_with_len<T: Length>(&mut self) -> (result: Result<String, Error>)
        ensures
            final(self).spec_version() == old(self).spec_version(),
            final(self).stream() == old(self).stream(),
            match parse_bytes_with_len(old(self).rest(), T::width()) {
                Err(e) => result == Err::<String, Error>(e) && final(self).rest() == old(
                    self,
                ).rest(),
                Ok((bytes, left)) => if valid_utf8(bytes) {
                    &&& result matches Ok(text) && text@ == decode_utf8(bytes)
                    &&& final(self).rest() == left
                } else {
                    &&& result == Err::<String, Error>(Error::InvalidUtf8)
                    &&& final(self).rest() == old(self).rest()
                },
            },
    {
        let start = self.offset();
        let bytes = self.read_bytes_with_len::<T>()?;
        match text_of(bytes) {
            Ok(text) => Ok(text),
            Err(e) => {
                self.position = start;
                Err(e)
            },
        }
    }

    /// A string stored in UTF-8 and ended by a zero byte, which is consumed
    /// with it.
    pub fn read_string_with_nil(&mut self) -> (result: Result<String, Error>)
        ensures
            final(self).spec_version() == old(self).spec_version(),
            final(self).stream() == old(self).stream(),
            ({
                let rest = old(self).rest();
                let end = first_zero(rest, 0);
                if end >= rest.len() {
                    &&& result == Err::<String, Error>(Error::UnexpectedEnd)
                    &&& final(self).rest() == rest
                } else if valid_utf8(rest.take(end)) {
                    &&& result matches Ok(text) && text@ == decode_utf8(rest.take(end))
                    &&& final(self).rest() == rest.skip(end + 1)
                } else {
                    &&& result == Err::<String, Error>(Error::InvalidUtf8)
                    &&& final(self).rest() == rest
                }
            }),
    {
        let ghost rest = self.rest();
        let start = self.offset();
        let available = self.stream.len() - start;
        let mut count: usize = 0;
        let mut found = false;
        while count < available && !found
            invariant
                count <= available,
                start + available == self.stream@.len(),
                self.stream@.len() <= usize::MAX,
                rest == self.stream@.skip(start as int),
                first_zero(rest, 0) == first_zero(rest, count as int),
                found ==> count < available && rest[count as int] == 0,
            decreases 2 * (available - count) + (if found { 0int } else { 1int }),
        {
            if self.stream[start + count] == 0 {
                found = true;
            } else {
                count += 1;
            }
        }
        if !found {
            return Err(Error::UnexpectedEnd);
        }
        let bytes = match self.read_bytes(count) {
            Ok(bytes) => bytes,
            Err(e) => {
                return Err(e);
            },
        };
        match text_of(bytes) {
            Ok(text) => {
                self.position = start + count + 1;
                assert(self.rest() =~= rest.skip(count + 1));
                Ok(text)
            },
            Err(e) => {
                self.position = start;
                Err(e)
            },
        }
    }

    /// Ends reading and hands the buffer back.
    pub fn into_inner(self) -> (stream: Vec<u8>)
        ensures
            stream@ == self.stream(),
    {
        self.stream
    }
}

/// Writes lengths, runs of bytes and strings to the end of a buffer.
#[derive(Debug)]
pub struct Writer {
    stream: Vec<u8>,
    version: Version,
}

impl Writer {
    /// The bytes in the buffer.
    pub closed spec fn written(&self) -> Seq<u8> {
        self.stream@
    }

    /// The format version that is written.
    pub closed spec fn spec_version(&self) -> Version {
        self.version
    }

    /// A writer that appends to `stream`, for the latest format version.
    pub fn new(stream: Vec<u8>) -> (writer: Writer)
        ensures
            writer.written() == stream@,
            writer.spec_version() == Version::spec_latest(),
    {
        Writer { stream, version: Version::latest() }
    }

    /// The writer, for another format version.
    pub fn with_version(self, version: Version) -> (writer: Writer)
        ensures
            writer.written() == self.written(),
            writer.spec_version() == version,
    {
        Writer { stream: self.stream, version }
    }

    /// The format version that is written.
    pub fn version(&self) -> (version: Version)
        ensures
            version == self.spec_version(),
    {
        self.version
    }

    /// The number of bytes in the buffer.
    pub fn len(&self) -> (count: usize)
        ensures
            count == self.written().len(),
    {
        self.stream.len()
    }

    /// Drops what was written behind the first `len` bytes.
    pub fn truncate(&mut self, len: usize)
        ensures
            final(self).spec_version() == old(self).spec_version(),
            final(self).written() == if len <= old(self).written().len() {
                old(self).written().take(len as int)
            } else {
                old(self).written()
            },
    {
        if len <= self.stream.len() {
            self.stream.truncate(len);
            assert(self.stream@ =~= old(self).written().take(len as int));
        }
    }

    /// Appends the bytes that stand for `object`, or nothing when a length
    /// in it does not fit.
    pub fn write_object<T: Encode>(&mut self, object: &T) -> (result: Result<(), Error>)
        ensures
            final(self).spec_version() == old(self).spec_version(),
            match result {
                Ok(()) => object.layout() matches Some(bytes) && final(self).written() == old(
                    self,
                ).written() + bytes,
                Err(e) => {
                    &&& e == Error::InvalidLength
                    &&& object.layout() is None
                    &&& final(self).written() == old(self).written()
                },
            },
    {
        object.encode(self)
    }

    /// Appends the number of `objects` in the bytes of an `L`, then the
    /// bytes that stand for each, or nothing when a length does not fit.
    pub fn write_objects<L: Length, T: Encode>(&mut self, objects: &Vec<T>) -> (result: Result<
        (),
        Error,
    >)
        ensures
            final(self).spec_version() == old(self).spec_version(),
            match result {
                Ok(()) => {
                    &&& fits(objects@.len(), L::width())
                    &&& layout_run(objects@, objects@.len() as int) matches Some(bytes)
                        && final(self).written() == old(self).written() + le_bytes(
                        objects@.len(),
                        L::width(),
                    ) + bytes
                },
                Err(e) => {
                    &&& e == Error::InvalidLength
                    &&& !fits(objects@.len(), L::width()) || layout_run(
                        objects@,
                        objects@.len() as int,
                    ) is None
                    &&& final(self).written() == old(self).written()
                },
            },
    {
        let mark = self.stream.len();
        self.write_len::<L>(objects.len())?;
        let ghost head = self.written();
        let mut i: usize = 0;
        assert(head + Seq::<u8>::empty() =~= head);
        while i < objects.len()
            invariant
                i <= objects@.len(),
                mark == old(self).written().len(),
                self.spec_version() == old(self).spec_version(),
                head == old(self).written() + le_bytes(objects@.len(), L::width()),
                fits(objects@.len(), L::width()),
                layout_run(objects@, i as int) matches Some(bytes) && self.written() == head
                    + bytes,
            decreases objects@.len() - i,
        {
            let ghost before = layout_run(objects@, i as int)->0;
            match objects[i].encode(self) {
                Ok(()) => {
                    assert(self.written() =~= head + (before + objects@[i as int].layout()->0));
                },
                Err(e) => {
                    proof {
                        lemma_layout_run_fails(objects@, i + 1, objects@.len() as int);
                    }
                    self.truncate(mark);
                    assert(self.written() =~= old(self).written());
                    return Err(e);
                },
            }
            i += 1;
        }
        Ok(())
    }

    /// Appends `data`.
    pub fn write_bytes(&mut self, data: &[u8]) -> (result: Result<(), Error>)
        ensures
            result is Ok,
            final(self).written() == old(self).written() + data@,
            final(self).spec_version() == old(self).spec_version(),
    {
        self.stream.extend_from_slice(data);
        Ok(())
    }

    /// Appends `len` in the bytes of a `T`, if it fits them.
    pub fn write_len<T: Length>(&mut self, len: usize) -> (result: Result<(), Error>)
        ensures
            final(self).spec_version() == old(self).spec_version(),
            match result {
                Ok(()) => {
                    &&& fits(len as nat, T::width())
                    &&& final(self).written() == old(self).written() + le_bytes(
                        len as nat,
                        T::width(),
                    )
                },
                Err(e) => {
                    &&& e == Error::InvalidLength
                    &&& !fits(len as nat, T::width())
                    &&& final(self).written() == old(self).written()
                },
            },
    {
        let width = T::bytes();
        let mut bytes: Vec<u8> = Vec::new();
        let mut rest = len;
        let mut i: usize = 0;
        assert(bytes@ + le_bytes(rest as nat, width as nat) =~= le_bytes(len as nat, width as nat));
        while i < width
            invariant
                i <= width,
                bytes@ + le_bytes(rest as nat, (width - i) as nat) == le_bytes(
                    len as nat,
                    width as nat,
                ),
                fits(rest as nat, (width - i) as nat) == fits(len as nat, width as nat),
            decreases width - i,
        {
            let ghost before = bytes@;
            bytes.push((rest % 256) as u8);
            proof {
                let tail = le_bytes((rest / 256) as nat, (width - i - 1) as nat);
                assert(le_bytes(rest as nat, (width - i) as nat) == seq![(rest % 256) as u8]
                    + tail);
                assert(bytes@ + tail =~= before + (seq![(rest % 256) as u8] + tail));
            }
            rest = rest / 256;
            i += 1;
        }
        if rest != 0 {
            return Err(Error::InvalidLength);
        }
        assert(bytes@ + Seq::<u8>::empty() =~= bytes@);
        self.stream.extend_from_slice(bytes.as_slice());
        Ok(())
    }

    /// Appends the length of `data` in the bytes of a `T`, then `data`.
    pub fn write_bytes_with_len<T: Length>(&mut self, data: &[u8]) -> (result: Result<(), Error>)
        ensures
            final(self).spec_version() == old(self).spec_version(),
            match result {
                Ok(()) => {
                    &&& fits(data@.len(), T::width())
                    &&& final(self).written() == old(self).written() + le_bytes(
                        data@.len(),
                        T::width(),
                    ) + data@
                },
                Err(e) => {
                    &&& e == Error::InvalidLength
                    &&& !fits(data@.len(), T::width())
                    &&& final(self).written() == old(self).written()
                },
            },
    {
        self.write_len::<T>(data.len())?;
        self.write_bytes(data)
    }

    /// Appends the length of the UTF-8 form of `data` in the bytes of a
    /// `T`, then that form.
    pub fn write_string_with_len<T: Length>(&mut self, data: &str) -> (result: Result<(), Error>)
        ensures
            final(self).spec_version() == old(self).spec_version(),
            match result {
                Ok(()) => {
                    &&& fits(data.spec_bytes().len(), T::width())
                    &&& final(self).written() == old(self).written() + le_bytes(
                        data.spec_bytes().len(),
                        T::width(),
                    ) + data.spec_bytes()
                },
                Err(e) => {
                    &&& e == Error::InvalidLength
                    &&& !fits(data.spec_bytes().len(), T::width())
                    &&& final(self).written() == old(self).written()
                },
            },
    {
        self.write_bytes_with_len::<T>(data.as_bytes())
    }

    /// Appends the UTF-8 form of `data`, then a zero byte.
    pub fn write_string_with_nil(&mut self, data: &str) -> (result: Result<(), Error>)
        ensures
            result is Ok,
            final(self).written() == old(self).written() + data.spec_bytes() + seq![0u8],
            final(self).spec_version() == old(self).spec_version(),
    {
        self.stream.extend_from_slice(data.as_bytes());
        self.stream.push(0);
        assert(self.stream@ =~= old(self).written() + data.spec_bytes() + seq![0u8]);
        Ok(())
    }

    /// Ends writing and hands the buffer out.
    pub fn into_inner(self) -> (stream: Vec<u8>)
        ensures
            stream@ == self.written(),
    {
        self.stream
    }
}

impl<T: Encode> Encode for Option<T> {
    /// One byte that says whether a value follows, then the value.
    open spec fn layout(&self) -> Option<Seq<u8>> {
        match self {
            None => Some(seq![0u8]),
            Some(value) => match value.layout() {
                Some(bytes) => Some(seq![1u8] + bytes),
                None => None,
            },
        }
    }

    fn encode(&self, writer: &mut Writer) -> (result: Result<(), Error>) {
        let mark = writer.len();
        match self {
            None => {
                writer.stream.push(0);
                assert(writer.written() =~= old(writer).written() + seq![0u8]);
                Ok(())
            },
            Some(value) => {
                writer.stream.push(1);
                match value.encode(writer) {
                    Ok(()) => {
                        assert(writer.written() =~= old(writer).written() + (seq![1u8]
                            + value.layout()->0));
                        Ok(())
                    },
                    Err(e) => {
                        writer.truncate(mark);
                        assert(writer.written() =~= old(writer).written());
                        Err(e)
                    },
                }
            },
        }
    }
}

impl<T: Decode> Decode for Option<T> {
    open spec fn parsed(rest: Seq<u8>) -> Result<(Option<T::V>, Seq<u8>), Error> {
        if rest.len() < 1 {
            Err(Error::UnexpectedEnd)
        } else if rest[0] == 0 {
            Ok((None, rest.skip(1)))
        } else {
            match T::parsed(rest.skip(1)) {
                Err(e) => Err(e),
                Ok((value, behind)) => Ok((Some(value), behind)),
            }
        }
    }

    fn decode(reader: &mut Reader) -> (result: Result<Option<T>, Error>) {
        let start = reader.position();
        let flag = reader.read_bytes(1)?;
        if flag[0] == 0 {
            return Ok(None);
        }
        match T::decode(reader) {
            Ok(value) => Ok(Some(value)),
            Err(e) => {
                reader.seek(start);
                Err(e)
            },
        }
    }
}

} // verus!
