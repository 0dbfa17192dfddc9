//! Reading record buffers.
//!
//! A `Deserializer` is a cursor over one buffer. Its methods read one
//! element each; `from_slice` reads a whole buffer against a `Target`.

use crate::error::ErrorKind;
use crate::json::{json_entries, json_map_from_slice, json_map_of, nested, JsonMap};
use crate::text::{str_eq, str_from_bytes, string_from_bytes, text_of};
use crate::wire::{
    be_i64, be_u64, lemma_record_end, lemma_record_end_is, read_be_u64, record_at, record_end,
    to_signed, SEP,
};
use vstd::prelude::*;
use vstd::string::*;

verus! {

/// Directive to ignore a record: inside a sequence it skips one record, at
/// the top level everything.
#[derive(Clone, Copy, Debug, PartialEq, Eq, Structural)]
pub struct Ignore;

/// Directive to ignore all remaining records.
#[derive(Clone, Copy, Debug, PartialEq, Eq, Structural)]
pub struct IgnoreAll;

/// The name under which the JSON reader asks for a raw value.
pub const RAW_VALUE_TOKEN: &'static str = "$serde_json::private::RawValue";

/// The byte with which a JSON object begins.
pub const OPEN_BRACE: u8 = 0x7B;

/// What one element of a buffer is read as.
#[derive(Clone, Copy, Debug, PartialEq, Eq, Structural)]
pub enum Kind {
    /// Eight bytes, big-endian, unsigned.
    U64,
    /// Eight bytes, big-endian, two's complement.
    I64,
    /// A record of UTF-8, borrowed from the buffer.
    Str,
    /// A record of UTF-8, copied.
    OwnedStr,
    /// All remaining bytes, separators included.
    Bytes,
    /// A record that holds a JSON object.
    Json,
    /// A JSON object where the record begins with a brace, else a string.
    Any,
    /// A record taken as raw JSON text.
    RawValue,
    /// One record skipped; at the top level, everything.
    Ignore,
    /// Everything that remains, skipped.
    IgnoreAll,
    /// The kinds below are refused.
    Bool,
    U8,
    U16,
    U32,
    I8,
    I16,
    I32,
    Float32,
    Float64,
    Char,
    Optional,
    Enum,
    Unit,
    ByteBuf,
    IgnoredAny,
}

impl Kind {
    /// True for the kinds that the codec reads.
    pub open spec fn supported(self) -> bool {
        self is U64 || self is I64 || self is Str || self is OwnedStr || self is Bytes
            || self is Json || self is Any || self is RawValue || self is Ignore
            || self is IgnoreAll
    }
}

/// What was read for one element.
#[derive(Debug)]
pub enum Decoded<'de> {
    U64(u64),
    I64(i64),
    Str(&'de str),
    OwnedStr(String),
    Bytes(&'de [u8]),
    Json(JsonMap),
    Raw(&'de str),
    Skipped,
}

/// What a `Decoded` holds, as mathematics.
pub enum Item {
    U64(u64),
    I64(i64),
    Str(Seq<char>),
    OwnedStr(Seq<char>),
    Bytes(Seq<u8>),
    Json(Map<Seq<char>, Seq<char>>),
    Raw(Seq<char>),
    Skipped,
}

impl<'de> View for Decoded<'de> {
    type V = Item;

    open spec fn view(&self) -> Item {
        match *self {
            Decoded::U64(v) => Item::U64(v),
            Decoded::I64(v) => Item::I64(v),
            Decoded::Str(s) => Item::Str(s@),
            Decoded::OwnedStr(s) => Item::OwnedStr(s@),
            Decoded::Bytes(b) => Item::Bytes(b@),
            Decoded::Json(m) => Item::Json(json_entries(m)),
            Decoded::Raw(s) => Item::Raw(s@),
            Decoded::Skipped => Item::Skipped,
        }
    }
}

/// The items that a list of values holds.
pub open spec fn items_of(values: Seq<Decoded<'_>>) -> Seq<Item> {
    Seq::new(values.len(), |i: int| values[i]@)
}

/// The state of a decoder: the buffer, the position in it, whether a
/// sequence is being read, and whether an element of it was read already.
pub struct Cursor {
    pub buf: Seq<u8>,
    pub pos: int,
    pub seq: bool,
    pub started: bool,
}

impl Cursor {
    /// The state in which decoding of `buf` begins.
    pub open spec fn start(buf: Seq<u8>) -> Cursor {
        Cursor { buf, pos: 0, seq: false, started: false }
    }

    /// The state moved to `pos`.
    pub open spec fn at(self, pos: int) -> Cursor {
        Cursor { pos, ..self }
    }

    /// The position lies inside the buffer or at its end.
    pub open spec fn wf(self) -> bool {
        0 <= self.pos <= self.buf.len()
    }

    /// Bytes not yet consumed.
    pub open spec fn remain(self) -> int {
        self.buf.len() - self.pos
    }

    /// True when the buffer is consumed, but for one trailing separator.
    pub open spec fn finished(self) -> bool {
        self.remain() == 0 || (self.remain() == 1 && self.buf[self.pos] == SEP)
    }

    /// Where the current record ends.
    pub open spec fn record_end(self) -> int {
        record_end(self.buf, self.pos)
    }

    /// The bytes of the current record.
    pub open spec fn record(self) -> Seq<u8> {
        record_at(self.buf, self.pos)
    }

    /// The bytes from the position to the end of the buffer.
    pub open spec fn trail(self) -> Seq<u8> {
        self.buf.subrange(self.pos, self.buf.len() as int)
    }

    /// The state after a record was read as text, and the text.
    pub open spec fn text(self) -> (Cursor, Result<Seq<char>, ErrorKind>) {
        (self.at(self.record_end()), text_of(self.record()))
    }

    /// The state after a record was read as a JSON object, and the
    /// object where the JSON reader took the record.
    pub open spec fn json(self) -> (Cursor, Result<Item, ErrorKind>) {
        (
            self.at(self.record_end()),
            match json_map_of(self.record()) {
                Some(entries) => Ok(Item::Json(entries)),
                None => Err(ErrorKind::DecodeNestedJson),
            },
        )
    }

    /// The state after an eight-byte number was asked for, and its bytes
    /// where that many remained.
    pub open spec fn number(self) -> (Cursor, Result<Seq<u8>, ErrorKind>) {
        if self.remain() < 8 {
            (self, Err(ErrorKind::DecodeEof))
        } else {
            (self.at(self.pos + 8), Ok(self.buf.subrange(self.pos, self.pos + 8)))
        }
    }

    /// The state after one skipped record: inside a sequence the position
    /// stands at the record's end, at the top level at the buffer's end.
    pub open spec fn ignore(self) -> Cursor {
        if self.seq {
            self.at(self.record_end())
        } else {
            self.at(self.buf.len() as int)
        }
    }

    /// The first byte of the record that comes next, for a cursor at the
    /// start of the buffer or on the separator before that record: the byte
    /// at the start, or else the byte behind the separator.
    pub open spec fn peek(self) -> Option<u8> {
        let at = if self.pos == 0 {
            0
        } else {
            self.pos + 1
        };
        if 0 <= at < self.buf.len() {
            Some(self.buf[at])
        } else {
            None
        }
    }

    /// True when the current record begins with an opening brace.
    pub open spec fn at_brace(self) -> bool {
        self.pos < self.buf.len() && self.buf[self.pos] == OPEN_BRACE
    }

    /// Reading one element of `kind`: the state afterwards, and what was
    /// read or why not. A refused kind consumes nothing.
    pub open spec fn decode(self, kind: Kind) -> (Cursor, Result<Item, ErrorKind>) {
        match kind {
            Kind::U64 => (
                self.number().0,
                match self.number().1 {
                    Ok(b) => Ok(Item::U64(be_u64(b))),
                    Err(e) => Err(e),
                },
            ),
            Kind::I64 => (
                self.number().0,
                match self.number().1 {
                    Ok(b) => Ok(Item::I64(be_i64(b))),
                    Err(e) => Err(e),
                },
            ),
            Kind::Str => (
                self.text().0,
                match self.text().1 {
                    Ok(s) => Ok(Item::Str(s)),
                    Err(e) => Err(e),
                },
            ),
            Kind::OwnedStr => (
                self.text().0,
                match self.text().1 {
                    Ok(s) => Ok(Item::OwnedStr(s)),
                    Err(e) => Err(e),
                },
            ),
            Kind::RawValue => (
                self.text().0,
                match self.text().1 {
                    Ok(s) => Ok(Item::Raw(s)),
                    Err(e) => Err(e),
                },
            ),
            Kind::Bytes => (self.at(self.buf.len() as int), Ok(Item::Bytes(self.trail()))),
            Kind::Json => self.json(),
            Kind::Any => if self.at_brace() {
                self.json()
            } else {
                (
                    self.text().0,
                    match self.text().1 {
                        Ok(s) => Ok(Item::Str(s)),
                        Err(e) => Err(e),
                    },
                )
            },
            Kind::Ignore => (self.ignore(), Ok(Item::Skipped)),
            Kind::IgnoreAll => (self.at(self.buf.len() as int), Ok(Item::Skipped)),
            _ => (self, Err(ErrorKind::DecodeUnsupported)),
        }
    }

    /// The state with the separator before the next element consumed: no
    /// byte before the first element of a sequence, one before every other.
    pub open spec fn begin_record(self) -> Cursor {
        Cursor { pos: self.pos + if self.started { 1int } else { 0int }, started: true, ..self }
    }

    /// True when a separator is due at the position and another byte
    /// stands there.
    pub open spec fn separator_missing(self) -> bool {
        self.started && self.pos < self.buf.len() && self.buf[self.pos] != SEP
    }

    /// Moving on to the next element of a sequence: whether there is one,
    /// and the state, which then stands at the element's start. The sequence
    /// ends where the buffer does. An element after the first must be
    /// preceded by the separator.
    pub open spec fn advance(self) -> (Cursor, Result<bool, ErrorKind>) {
        if self.pos >= self.buf.len() {
            (self, Ok(false))
        } else if self.separator_missing() {
            (self, Err(ErrorKind::DecodeSeparator))
        } else {
            (self.begin_record(), Ok(true))
        }
    }

    /// Reading the next element of a sequence as `kind`, where there is one.
    pub open spec fn next(self, kind: Kind) -> (Cursor, Result<Option<Item>, ErrorKind>) {
        match self.advance().1 {
            Ok(true) => (
                self.advance().0.decode(kind).0,
                match self.advance().0.decode(kind).1 {
                    Ok(item) => Ok(Some(item)),
                    Err(e) => Err(e),
                },
            ),
            Ok(false) => (self.advance().0, Ok(None)),
            Err(e) => (self.advance().0, Err(e)),
        }
    }
}

/// Decoding state over one buffer.
pub struct Deserializer<'de> {
    buf: &'de [u8],
    pos: usize,
    seq: bool,
    started: bool,
}

impl<'de> View for Deserializer<'de> {
    type V = Cursor;

    closed spec fn view(&self) -> Cursor {
        Cursor { buf: self.buf@, pos: self.pos as int, seq: self.seq, started: self.started }
    }
}

impl<'de> Deserializer<'de> {
    #[verifier::type_invariant]
    spec fn inv(self) -> bool {
        self.pos <= self.buf@.len()
    }

    /// A decoder at the start of `buf`.
    pub fn new(buf: &'de [u8]) -> (r: Self)
        ensures
            r@ == Cursor::start(buf@),
    {
        Deserializer { buf, pos: 0, seq: false, started: false }
    }

    /// The position: the number of bytes consumed so far.
    pub fn position(&self) -> (r: usize)
        ensures
            r == self@.pos,
            self@.wf(),
    {
        proof {
            use_type_invariant(self);
        }
        self.pos
    }

    /// True once a sequence was begun.
    pub fn in_sequence(&self) -> (r: bool)
        ensures
            r == self@.seq,
    {
        self.seq
    }

    /// True once an element of a sequence was begun, so that a separator
    /// stands before the next.
    pub fn started(&self) -> (r: bool)
        ensures
            r == self@.started,
    {
        self.started
    }

    /// The buffer that is being read.
    pub fn buffer(&self) -> (r: &'de [u8])
        ensures
            r@ == self@.buf,
    {
        self.buf
    }

    /// Determines whether the input was consumed: all of it, or all but one
    /// trailing separator.
    pub fn finished(&self) -> (r: Result<(), ErrorKind>)
        ensures
            self@.finished() ==> r == Ok::<(), ErrorKind>(()),
            !self@.finished() ==> r == Err::<(), ErrorKind>(ErrorKind::DecodeTrailing),
    {
        proof {
            use_type_invariant(self);
        }
        let remain: usize = self.buf.len() - self.pos;
        let trailing_sep: bool = remain == 1 && self.buf[self.pos] == SEP;
        if remain == 0 || trailing_sep {
            Ok(())
        } else {
            Err(ErrorKind::DecodeTrailing)
        }
    }

    /// Called at the start of arrays and tuples. Sequences do not nest.
    pub fn sequence_start(&mut self)
        requires
            !old(self)@.seq,
        ensures
            final(self)@ == (Cursor { seq: true, ..old(self)@ }),
    {
        proof {
            use_type_invariant(&*self);
        }
        self.seq = true;
    }

    /// Consumes the current record to ignore it. Inside a sequence one
    /// record is skipped, at the top level all of them.
    pub fn record_ignore(&mut self)
        ensures
            final(self)@ == old(self)@.ignore(),
    {
        if self.seq {
            let _ = self.record_next();
        } else {
            self.record_ignore_all();
        }
    }

    /// Consumes the current and all remaining records to ignore them.
    pub fn record_ignore_all(&mut self)
        ensures
            final(self)@ == old(self)@.at(old(self)@.buf.len() as int),
    {
        let _ = self.record_trail();
    }

    /// Consumes the current record and returns it. The position then stands
    /// at the record's end: on the separator that follows it, or at the end
    /// of the buffer.
    pub fn record_next(&mut self) -> (r: &'de [u8])
        ensures
            r@ == old(self)@.record(),
            final(self)@ == old(self)@.at(old(self)@.record_end()),
    {
        proof {
            use_type_invariant(&*self);
        }
        let buf: &'de [u8] = self.buf;
        let start: usize = self.pos;
        let mut end: usize = start;
        while end < buf.len() && buf[end] != SEP
            invariant
                start <= end <= buf@.len(),
                forall|i: int| start <= i < end ==> buf@[i] != SEP,
            decreases buf@.len() - end,
        {
            end += 1;
        }
        proof {
            lemma_record_end_is(buf@, start as int, end as int);
        }
        let record = &buf[start..end];
        self.inc_pos(end - start);
        record
    }

    /// Peeks at the first byte of the record that comes next. At the start
    /// of the buffer that is the byte at the position. At any later position
    /// the cursor stands on the separator before that record, and the byte
    /// behind the separator is looked at. Where no byte stands there, there
    /// is none.
    pub fn record_peek_byte(&self) -> (r: Option<u8>)
        requires
            self@.pos == 0 || (self@.pos < self@.buf.len() && self@.buf[self@.pos] == SEP),
        ensures
            r == self@.peek(),
    {
        proof {
            use_type_invariant(self);
        }
        let len: usize = self.buf.len();
        let at: usize = if self.pos == 0 {
            0
        } else {
            assert(self.pos < len);
            self.pos + 1
        };
        if at < len {
            Some(self.buf[at])
        } else {
            None
        }
    }

    /// Consumes the separator before the next record of a sequence, so that
    /// the position stands at the record's start. Before the first record
    /// of a sequence there is no separator and nothing is consumed.
    pub fn record_start(&mut self)
        requires
            old(self)@.started ==> old(self)@.pos < old(self)@.buf.len() && old(self)@.buf[old(
                self,
            )@.pos] == SEP,
        ensures
            final(self)@ == old(self)@.begin_record(),
    {
        if self.started {
            self.inc_pos(1);
        }
        proof {
            use_type_invariant(&*self);
        }
        self.started = true;
    }

    /// Consumes all remaining bytes, separators included, and returns them.
    pub fn record_trail(&mut self) -> (r: &'de [u8])
        ensures
            r@ == old(self)@.trail(),
            final(self)@ == old(self)@.at(old(self)@.buf.len() as int),
    {
        proof {
            use_type_invariant(&*self);
        }
        let buf: &'de [u8] = self.buf;
        let record = &buf[self.pos..buf.len()];
        self.inc_pos(record.len());
        record
    }

    /// Moves the position forward by `n` bytes.
    pub fn inc_pos(&mut self, n: usize)
        requires
            old(self)@.pos + n <= old(self)@.buf.len(),
        ensures
            final(self)@ == old(self)@.at(old(self)@.pos + n),
    {
        proof {
            use_type_invariant(&*self);
        }
        let len: usize = self.buf.len();
        assert(self.pos + n <= len);
        self.pos = self.pos + n;
    }
}

/// True when `name` is the raw-value token of the JSON reader.
pub fn is_raw_value(name: &str) -> (r: bool)
    ensures
        r == (name@ == RAW_VALUE_TOKEN@),
{
    str_eq(name, RAW_VALUE_TOKEN)
}

/// What a decoding call answers, with the value taken as mathematics.
pub open spec fn outcome(r: Result<Decoded<'_>, ErrorKind>) -> Result<Item, ErrorKind> {
    match r {
        Ok(v) => Ok(v@),
        Err(e) => Err(e),
    }
}

/// What a call for the next element answers, with the value taken as
/// mathematics.
pub open spec fn outcome_opt(r: Result<Option<Decoded<'_>>, ErrorKind>) -> Result<
    Option<Item>,
    ErrorKind,
> {
    match r {
        Ok(Some(v)) => Ok(Some(v@)),
        Ok(None) => Ok(None),
        Err(e) => Err(e),
    }
}

/// What a call for a whole buffer answers, with the values taken as
/// mathematics.
pub open spec fn outcome_all(r: Result<Vec<Decoded<'_>>, ErrorKind>) -> Result<
    Seq<Item>,
    ErrorKind,
> {
    match r {
        Ok(v) => Ok(items_of(v@)),
        Err(e) => Err(e),
    }
}

/// The kinds outside the supported set, and no others, are refused, and a
/// refusal consumes nothing.
pub proof fn lemma_refused_kinds(c: Cursor, kind: Kind)
    ensures
        !kind.supported() <==> c.decode(kind).1 == Err::<Item, ErrorKind>(
            ErrorKind::DecodeUnsupported,
        ),
        !kind.supported() ==> c.decode(kind).0 == c,
{
}

/// Reading an element never moves the position backwards or out of the
/// buffer, and changes nothing else.
pub proof fn lemma_decode_bounds(c: Cursor, kind: Kind)
    requires
        c.wf(),
    ensures
        c.decode(kind).0 == c.at(c.decode(kind).0.pos),
        c.pos <= c.decode(kind).0.pos <= c.buf.len(),
{
    lemma_record_end(c.buf, c.pos);
}

/// Asking for the next element of a sequence never moves the position
/// backwards or out of the buffer. Where an element was read, the sequence
/// has started, and every element but the first took at least one byte.
pub proof fn lemma_next_bounds(c: Cursor, kind: Kind)
    requires
        c.wf(),
    ensures
        c.next(kind).0.wf(),
        c.next(kind).0.buf == c.buf,
        c.next(kind).0.seq == c.seq,
        c.pos <= c.next(kind).0.pos,
        c.next(kind).1 matches Ok(Some(_)) ==> c.next(kind).0.started && (c.started ==> c.pos
            < c.next(kind).0.pos),
{
    if c.pos < c.buf.len() && !c.separator_missing() {
        lemma_decode_bounds(c.begin_record(), kind);
    }
}

impl<'de> Deserializer<'de> {
    /// Reads an unsigned number: the eight bytes at the position, in
    /// big-endian order.
    pub fn deserialize_u64(&mut self) -> (r: Result<u64, ErrorKind>)
        ensures
            final(self)@ == old(self)@.number().0,
            match old(self)@.number().1 {
                Ok(b) => r == Ok::<u64, ErrorKind>(be_u64(b)),
                Err(e) => r == Err::<u64, ErrorKind>(e),
            },
    {
        proof {
            use_type_invariant(&*self);
        }
        let buf: &'de [u8] = self.buf;
        if buf.len() - self.pos < 8 {
            return Err(ErrorKind::DecodeEof);
        }
        let v: u64 = read_be_u64(buf, self.pos);
        self.inc_pos(8);
        Ok(v)
    }

    /// Reads a signed number: the eight bytes at the position, in
    /// big-endian two's complement.
    pub fn deserialize_i64(&mut self) -> (r: Result<i64, ErrorKind>)
        ensures
            final(self)@ == old(self)@.number().0,
            match old(self)@.number().1 {
                Ok(b) => r == Ok::<i64, ErrorKind>(be_i64(b)),
                Err(e) => r == Err::<i64, ErrorKind>(e),
            },
    {
        match self.deserialize_u64() {
            Ok(v) => Ok(to_signed(v)),
            Err(e) => Err(e),
        }
    }

    /// Reads the current record as a string that borrows from the buffer.
    /// The record is consumed whether or not it is valid UTF-8.
    pub fn deserialize_str(&mut self) -> (r: Result<&'de str, ErrorKind>)
        ensures
            final(self)@ == old(self)@.text().0,
            match old(self)@.text().1 {
                Ok(s) => r matches Ok(t) && t@ == s && t.spec_bytes() == old(self)@.record(),
                Err(e) => r matches Err(f) && f == e,
            },
    {
        let input: &'de [u8] = self.record_next();
        str_from_bytes(input)
    }

    /// Reads the current record as a string of its own.
    pub fn deserialize_string(&mut self) -> (r: Result<String, ErrorKind>)
        ensures
            final(self)@ == old(self)@.text().0,
            match old(self)@.text().1 {
                Ok(s) => r matches Ok(t) && t@ == s,
                Err(e) => r matches Err(f) && f == e,
            },
    {
        let input: &'de [u8] = self.record_next();
        string_from_bytes(input)
    }

    /// Reads all remaining bytes, separators included.
    pub fn deserialize_bytes(&mut self) -> (r: Result<&'de [u8], ErrorKind>)
        ensures
            final(self)@ == old(self)@.at(old(self)@.buf.len() as int),
            r matches Ok(b) && b@ == old(self)@.trail(),
    {
        Ok(self.record_trail())
    }

    /// Reads the current record as a JSON object. The record is consumed
    /// whether or not the JSON reader takes it.
    pub fn deserialize_map(&mut self) -> (r: Result<JsonMap, ErrorKind>)
        ensures
            final(self)@ == old(self)@.json().0,
            match old(self)@.json().1 {
                Ok(item) => r matches Ok(m) && Item::Json(json_entries(m)) == item,
                Err(e) => r matches Err(f) && f == e,
            },
    {
        let input: &'de [u8] = self.record_next();
        nested(json_map_from_slice(input))
    }

    /// Carries out a directive named by a unit struct: `Ignore` or
    /// `IgnoreAll`. Any other name is refused and consumes nothing.
    pub fn deserialize_unit_struct(&mut self, name: &str) -> (r: Result<(), ErrorKind>)
        ensures
            (final(self)@, r) == if name@ == "Ignore"@ {
                (old(self)@.ignore(), Ok::<(), ErrorKind>(()))
            } else if name@ == "IgnoreAll"@ {
                (old(self)@.at(old(self)@.buf.len() as int), Ok::<(), ErrorKind>(()))
            } else {
                (old(self)@, Err::<(), ErrorKind>(ErrorKind::DecodeUnsupported))
            },
    {
        if str_eq(name, "Ignore") {
            self.record_ignore();
            Ok(())
        } else if str_eq(name, "IgnoreAll") {
            self.record_ignore_all();
            Ok(())
        } else {
            Err(ErrorKind::DecodeUnsupported)
        }
    }

    /// Reads through a wrapper: where `name` is the raw-value token of the
    /// JSON reader the record is taken as raw JSON text, else the element is
    /// read as `inner`.
    pub fn deserialize_newtype_struct(&mut self, name: &str, inner: Kind) -> (r: Result<
        Decoded<'de>,
        ErrorKind,
    >)
        ensures
            (final(self)@, outcome(r)) == old(self)@.decode(
                if name@ == RAW_VALUE_TOKEN@ {
                    Kind::RawValue
                } else {
                    inner
                },
            ),
    {
        if is_raw_value(name) {
            match self.next_key_seed() {
                Ok(_) => self.next_value_seed(Kind::RawValue),
                Err(e) => Err(e),
            }
        } else {
            self.deserialize(inner)
        }
    }

    /// The identifier that the decoder offers as a map key: the raw-value
    /// token of the JSON reader.
    pub fn deserialize_identifier(&self) -> (r: &'static str)
        ensures
            r@ == RAW_VALUE_TOKEN@,
    {
        RAW_VALUE_TOKEN
    }

    /// True when the current record begins with an opening brace, which is
    /// how a JSON object is told from a string.
    pub fn record_is_map(&self) -> (r: bool)
        ensures
            r == self@.at_brace(),
    {
        proof {
            use_type_invariant(self);
        }
        self.pos < self.buf.len() && self.buf[self.pos] == OPEN_BRACE
    }

    /// Reads the current record as a JSON object where it begins with an
    /// opening brace, else as a string.
    pub fn deserialize_any(&mut self) -> (r: Result<Decoded<'de>, ErrorKind>)
        ensures
            (final(self)@, outcome(r)) == old(self)@.decode(Kind::Any),
    {
        if self.record_is_map() {
            match self.deserialize_map() {
                Ok(m) => Ok(Decoded::Json(m)),
                Err(e) => Err(e),
            }
        } else {
            match self.deserialize_str() {
                Ok(s) => Ok(Decoded::Str(s)),
                Err(e) => Err(e),
            }
        }
    }

    /// Reads one element as `kind`.
    pub fn deserialize(&mut self, kind: Kind) -> (r: Result<Decoded<'de>, ErrorKind>)
        ensures
            (final(self)@, outcome(r)) == old(self)@.decode(kind),
    {
        match kind {
            Kind::U64 => match self.deserialize_u64() {
                Ok(v) => Ok(Decoded::U64(v)),
                Err(e) => Err(e),
            },
            Kind::I64 => match self.deserialize_i64() {
                Ok(v) => Ok(Decoded::I64(v)),
                Err(e) => Err(e),
            },
            Kind::Str => match self.deserialize_str() {
                Ok(s) => Ok(Decoded::Str(s)),
                Err(e) => Err(e),
            },
            Kind::OwnedStr => match self.deserialize_string() {
                Ok(s) => Ok(Decoded::OwnedStr(s)),
                Err(e) => Err(e),
            },
            Kind::RawValue => match self.deserialize_str() {
                Ok(s) => Ok(Decoded::Raw(s)),
                Err(e) => Err(e),
            },
            Kind::Bytes => match self.deserialize_bytes() {
                Ok(b) => Ok(Decoded::Bytes(b)),
                Err(e) => Err(e),
            },
            Kind::Json => match self.deserialize_map() {
                Ok(m) => Ok(Decoded::Json(m)),
                Err(e) => Err(e),
            },
            Kind::Any => self.deserialize_any(),
            Kind::Ignore => {
                self.record_ignore();
                Ok(Decoded::Skipped)
            },
            Kind::IgnoreAll => {
                self.record_ignore_all();
                Ok(Decoded::Skipped)
            },
            _ => Err(ErrorKind::DecodeUnsupported),
        }
    }

    /// Reads the next element of a sequence as `seed`, or finds that the
    /// sequence has ended.
    pub fn next_element_seed(&mut self, seed: Kind) -> (r: Result<Option<Decoded<'de>>, ErrorKind>)
        ensures
            (final(self)@, outcome_opt(r)) == old(self)@.next(seed),
    {
        match self.element_start() {
            Ok(true) => match self.deserialize(seed) {
                Ok(v) => Ok(Some(v)),
                Err(e) => Err(e),
            },
            Ok(false) => Ok(None),
            Err(e) => Err(e),
        }
    }

    /// Moves on to the next element of a sequence. Answers whether there is
    /// one; where there is, the separator before it is consumed and the
    /// position stands at its start.
    pub fn element_start(&mut self) -> (r: Result<bool, ErrorKind>)
        ensures
            (final(self)@, r) == old(self)@.advance(),
    {
        proof {
            use_type_invariant(&*self);
        }
        if self.pos >= self.buf.len() {
            return Ok(false);
        }
        if self.started && self.buf[self.pos] != SEP {
            return Err(ErrorKind::DecodeSeparator);
        }
        self.record_start();
        Ok(true)
    }

    /// Reads the current record as a struct: a JSON object keyed by the
    /// struct's field names. Neither `name` nor `fields` decides what the
    /// JSON reader takes.
    pub fn deserialize_struct(&mut self, name: &str, fields: &[&str]) -> (r: Result<
        JsonMap,
        ErrorKind,
    >)
        ensures
            final(self)@ == old(self)@.json().0,
            match old(self)@.json().1 {
                Ok(item) => r matches Ok(m) && Item::Json(json_entries(m)) == item,
                Err(e) => r matches Err(f) && f == e,
            },
    {
        self.deserialize_map()
    }

    /// The next key of the map that stands for a raw value: always the
    /// raw-value token. Nothing is consumed.
    pub fn next_key_seed(&mut self) -> (r: Result<Option<&'static str>, ErrorKind>)
        ensures
            final(self)@ == old(self)@,
            r matches Ok(Some(k)) && k@ == RAW_VALUE_TOKEN@,
    {
        Ok(Some(self.deserialize_identifier()))
    }

    /// The value that belongs to the key of `next_key_seed`: the element
    /// read as `seed`.
    pub fn next_value_seed(&mut self, seed: Kind) -> (r: Result<Decoded<'de>, ErrorKind>)
        ensures
            (final(self)@, outcome(r)) == old(self)@.decode(seed),
    {
        self.deserialize(seed)
    }
}

impl Ignore {
    /// Carries out the directive on `d`.
    pub fn deserialize(d: &mut Deserializer<'_>) -> (r: Result<Ignore, ErrorKind>)
        ensures
            final(d)@ == old(d)@.ignore(),
            r == Ok::<Ignore, ErrorKind>(Ignore),
    {
        d.record_ignore();
        Ok(Ignore)
    }
}

impl IgnoreAll {
    /// Carries out the directive on `d`.
    pub fn deserialize(d: &mut Deserializer<'_>) -> (r: Result<IgnoreAll, ErrorKind>)
        ensures
            final(d)@ == old(d)@.at(old(d)@.buf.len() as int),
            r == Ok::<IgnoreAll, ErrorKind>(IgnoreAll),
    {
        d.record_ignore_all();
        Ok(IgnoreAll)
    }
}

/// What a whole buffer is read as.
#[derive(Debug)]
pub enum Target {
    /// One element at the top level.
    Single(Kind),
    /// A tuple: one element of each kind, in order.
    Tuple(Vec<Kind>),
    /// A sequence of elements of one kind, as many as the buffer holds.
    Sequence(Kind),
}

/// A `Target` as mathematics.
pub enum Schema {
    Single(Kind),
    Tuple(Seq<Kind>),
    Sequence(Kind),
}

impl View for Target {
    type V = Schema;

    open spec fn view(&self) -> Schema {
        match *self {
            Target::Single(kind) => Schema::Single(kind),
            Target::Tuple(kinds) => Schema::Tuple(kinds@),
            Target::Sequence(kind) => Schema::Sequence(kind),
        }
    }
}

/// Reading the elements of a tuple from index `i` on, after `acc` was read.
/// A tuple whose buffer ends before its last element is short of bytes.
pub open spec fn read_tuple(c: Cursor, kinds: Seq<Kind>, i: int, acc: Seq<Item>) -> (
    Cursor,
    Result<Seq<Item>, ErrorKind>,
)
    decreases kinds.len() - i,
{
    if 0 <= i < kinds.len() {
        match c.next(kinds[i]).1 {
            Ok(Some(item)) => read_tuple(c.next(kinds[i]).0, kinds, i + 1, acc.push(item)),
            Ok(None) => (c.next(kinds[i]).0, Err(ErrorKind::DecodeEof)),
            Err(e) => (c.next(kinds[i]).0, Err(e)),
        }
    } else {
        (c, Ok(acc))
    }
}

/// Reading elements of one kind until the buffer ends, after `acc` was read.
pub open spec fn read_sequence(c: Cursor, kind: Kind, acc: Seq<Item>) -> (
    Cursor,
    Result<Seq<Item>, ErrorKind>,
)
    decreases c.remain(), (if c.started { 0int } else { 1int }),
    when c.wf()
{
    match c.next(kind).1 {
        Ok(Some(item)) => {
            proof {
                lemma_next_bounds(c, kind);
            }
            read_sequence(c.next(kind).0, kind, acc.push(item))
        },
        Ok(None) => (c.next(kind).0, Ok(acc)),
        Err(e) => (c.next(kind).0, Err(e)),
    }
}

/// The state in which the decoder of `schema` leaves the buffer, and what
/// it read.
pub open spec fn run(buf: Seq<u8>, schema: Schema) -> (Cursor, Result<Seq<Item>, ErrorKind>) {
    let top = Cursor::start(buf);
    let inside = Cursor { seq: true, ..top };
    match schema {
        Schema::Single(kind) => (
            top.decode(kind).0,
            match top.decode(kind).1 {
                Ok(item) => Ok(seq![item]),
                Err(e) => Err(e),
            },
        ),
        Schema::Tuple(kinds) => read_tuple(inside, kinds, 0, Seq::empty()),
        Schema::Sequence(kind) => read_sequence(inside, kind, Seq::empty()),
    }
}

/// What reading a whole buffer as `schema` gives: what its decoder read,
/// provided that the buffer was consumed but for one trailing separator.
pub open spec fn decode_all(buf: Seq<u8>, schema: Schema) -> Result<Seq<Item>, ErrorKind> {
    match run(buf, schema).1 {
        Ok(items) => if run(buf, schema).0.finished() {
            Ok(items)
        } else {
            Err(ErrorKind::DecodeTrailing)
        },
        Err(e) => Err(e),
    }
}

/// The number of bytes that the decoder of `schema` consumes of `buf`.
pub open spec fn consumed(buf: Seq<u8>, schema: Schema) -> int {
    run(buf, schema).0.pos
}

/// Reading a tuple leaves the position inside the buffer, and the buffer
/// as it was.
pub proof fn lemma_read_tuple_bounds(c: Cursor, kinds: Seq<Kind>, i: int, acc: Seq<Item>)
    requires
        c.wf(),
    ensures
        read_tuple(c, kinds, i, acc).0.wf(),
        read_tuple(c, kinds, i, acc).0.buf == c.buf,
    decreases kinds.len() - i,
{
    if 0 <= i < kinds.len() {
        lemma_next_bounds(c, kinds[i]);
        if let Ok(Some(item)) = c.next(kinds[i]).1 {
            lemma_read_tuple_bounds(c.next(kinds[i]).0, kinds, i + 1, acc.push(item));
        }
    }
}

/// Reading a sequence leaves the position inside the buffer, and the
/// buffer as it was.
pub proof fn lemma_read_sequence_bounds(c: Cursor, kind: Kind, acc: Seq<Item>)
    requires
        c.wf(),
    ensures
        read_sequence(c, kind, acc).0.wf(),
        read_sequence(c, kind, acc).0.buf == c.buf,
    decreases c.remain(), (if c.started { 0int } else { 1int }),
{
    lemma_next_bounds(c, kind);
    if let Ok(Some(item)) = c.next(kind).1 {
        lemma_read_sequence_bounds(c.next(kind).0, kind, acc.push(item));
    }
}

/// A decoder leaves the position inside the buffer, and the buffer as it
/// was.
pub proof fn lemma_run_bounds(buf: Seq<u8>, schema: Schema)
    ensures
        run(buf, schema).0.wf(),
        run(buf, schema).0.buf == buf,
{
    let top = Cursor::start(buf);
    let inside = Cursor { seq: true, ..top };
    match schema {
        Schema::Single(kind) => {
            lemma_decode_bounds(top, kind);
        },
        Schema::Tuple(kinds) => {
            lemma_read_tuple_bounds(inside, kinds, 0, Seq::empty());
        },
        Schema::Sequence(kind) => {
            lemma_read_sequence_bounds(inside, kind, Seq::empty());
        },
    }
}

proof fn lemma_items_push(values: Seq<Decoded<'_>>, v: Decoded<'_>)
    ensures
        items_of(values.push(v)) == items_of(values).push(v@),
{
    assert(items_of(values.push(v)) =~= items_of(values).push(v@));
}

/// Reads `buf` as `target`. What was read comes back element by element;
/// a single element comes back as a list of one.
pub fn from_slice<'de>(buf: &'de [u8], target: &Target) -> (r: Result<
    Vec<Decoded<'de>>,
    ErrorKind,
>)
    ensures
        outcome_all(r) == decode_all(buf@, target@),
{
    let mut d = Deserializer::new(buf);
    let mut out: Vec<Decoded<'de>> = Vec::new();
    assert(items_of(out@) =~= Seq::<Item>::empty());
    match target {
        Target::Single(kind) => {
            match d.deserialize(*kind) {
                Ok(v) => {
                    proof {
                        lemma_items_push(out@, v);
                        assert(items_of(out@).push(v@) =~= seq![v@]);
                    }
                    out.push(v);
                },
                Err(e) => {
                    return Err(e);
                },
            }
        },
        Target::Tuple(kinds) => {
            d.sequence_start();
            let ghost inside = d@;
            let mut i: usize = 0;
            while i < kinds.len()
                invariant
                    i <= kinds@.len(),
                    target@ == Schema::Tuple(kinds@),
                    inside == (Cursor { seq: true, ..Cursor::start(buf@) }),
                    read_tuple(inside, kinds@, 0, Seq::empty()) == read_tuple(
                        d@,
                        kinds@,
                        i as int,
                        items_of(out@),
                    ),
                decreases kinds@.len() - i,
            {
                match d.next_element_seed(kinds[i]) {
                    Ok(Some(v)) => {
                        proof {
                            lemma_items_push(out@, v);
                        }
                        out.push(v);
                    },
                    Ok(None) => {
                        return Err(ErrorKind::DecodeEof);
                    },
                    Err(e) => {
                        return Err(e);
                    },
                }
                i += 1;
            }
        },
        Target::Sequence(kind) => {
            d.sequence_start();
            let ghost inside = d@;
            loop
                invariant
                    d@.wf(),
                    inside.wf(),
                    target@ == Schema::Sequence(*kind),
                    inside == (Cursor { seq: true, ..Cursor::start(buf@) }),
                    read_sequence(inside, *kind, Seq::empty()) == read_sequence(
                        d@,
                        *kind,
                        items_of(out@),
                    ),
                ensures
                    d@.pos >= d@.buf.len(),
                decreases d@.remain(), (if d@.started { 0int } else { 1int }),
            {
                proof {
                    lemma_next_bounds(d@, *kind);
                }
                match d.next_element_seed(*kind) {
                    Ok(Some(v)) => {
                        proof {
                            lemma_items_push(out@, v);
                        }
                        out.push(v);
                    },
                    Ok(None) => {
                        break ;
                    },
                    Err(e) => {
                        return Err(e);
                    },
                }
            }
        },
    }
    match d.finished() {
        Ok(()) => Ok(out),
        Err(e) => Err(e),
    }
}

/// After a whole buffer was read with success, all of it is consumed, or
/// all but its last byte, and that byte is then the separator.
pub proof fn lemma_full_consumption(buf: Seq<u8>, schema: Schema)
    requires
        decode_all(buf, schema) is Ok,
    ensures
        consumed(buf, schema) == buf.len() || (consumed(buf, schema) == buf.len() - 1
            && buf[buf.len() - 1] == SEP),
{
    lemma_run_bounds(buf, schema);
}

/// Reading any buffer as a single `Ignore` succeeds, and consumes it all.
pub proof fn lemma_ignore_any_buffer(buf: Seq<u8>)
    ensures
        decode_all(buf, Schema::Single(Kind::Ignore)) == Ok::<Seq<Item>, ErrorKind>(
            seq![Item::Skipped],
        ),
        consumed(buf, Schema::Single(Kind::Ignore)) == buf.len(),
{
}

/// A tuple of two elements and `IgnoreAll` reads any buffer that begins
/// with a first element, a separator and a second element, and goes on with
/// a separator: the rest, whatever it holds, is skipped.
pub proof fn lemma_ignore_all_tail(buf: Seq<u8>, a: Kind, b: Kind, x: Item, y: Item)
    requires
        ({
            let c0 = Cursor { seq: true, ..Cursor::start(buf) };
            let c1 = c0.next(a).0;
            let c2 = c1.next(b).0;
            &&& c0.next(a).1 == Ok::<Option<Item>, ErrorKind>(Some(x))
            &&& c1.next(b).1 == Ok::<Option<Item>, ErrorKind>(Some(y))
            &&& c2.pos < buf.len() && buf[c2.pos] == SEP
        }),
    ensures
        decode_all(buf, Schema::Tuple(seq![a, b, Kind::IgnoreAll])) == Ok::<
            Seq<Item>,
            ErrorKind,
        >(seq![x, y, Item::Skipped]),
{
    let kinds = seq![a, b, Kind::IgnoreAll];
    let c0 = Cursor { seq: true, ..Cursor::start(buf) };
    let c1 = c0.next(a).0;
    let c2 = c1.next(b).0;
    let c3 = c2.next(Kind::IgnoreAll).0;
    lemma_next_bounds(c0, a);
    lemma_next_bounds(c1, b);
    reveal_with_fuel(read_tuple, 4);
    let e = Seq::<Item>::empty();
    assert(read_tuple(c0, kinds, 0, e) == read_tuple(c1, kinds, 1, e.push(x)));
    assert(read_tuple(c1, kinds, 1, e.push(x)) == read_tuple(c2, kinds, 2, e.push(x).push(y)));
    assert(c2.next(Kind::IgnoreAll).1 == Ok::<Option<Item>, ErrorKind>(Some(Item::Skipped)));
    assert(read_tuple(c2, kinds, 2, e.push(x).push(y)) == read_tuple(
        c3,
        kinds,
        3,
        e.push(x).push(y).push(Item::Skipped),
    ));
    assert(e.push(x).push(y).push(Item::Skipped) =~= seq![x, y, Item::Skipped]);
    assert(c3.pos == buf.len());
}

} // verus!
