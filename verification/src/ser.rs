//! Writing record buffers.
//!
//! A buffer is the records of its fields in order, with one separator
//! between each two. Nothing is escaped, and there is no header, length or
//! trailer.

use crate::de::{Item, Kind};
use crate::json::json_map_of;
use crate::wire::{as_unsigned, be_bytes, to_unsigned, write_be_u64, SEP};
use vstd::prelude::*;
use vstd::utf8::*;

verus! {

/// One field of a composite value, as it is handed to the encoder.
#[derive(Clone, Copy, Debug)]
pub enum Field<'a> {
    /// An unsigned number: eight bytes, big-endian.
    U64(u64),
    /// A signed number: eight bytes, big-endian two's complement.
    I64(i64),
    /// A string: its UTF-8 bytes.
    Str(&'a str),
    /// Raw bytes, written as they are.
    Bytes(&'a [u8]),
    /// A nested map or struct, already serialised as JSON text.
    Json(&'a [u8]),
}

/// A `Field` as mathematics.
pub enum FieldView {
    U64(u64),
    I64(i64),
    Str(Seq<char>),
    Bytes(Seq<u8>),
    Json(Seq<u8>),
}

impl<'a> View for Field<'a> {
    type V = FieldView;

    open spec fn view(&self) -> FieldView {
        match *self {
            Field::U64(v) => FieldView::U64(v),
            Field::I64(v) => FieldView::I64(v),
            Field::Str(s) => FieldView::Str(s@),
            Field::Bytes(b) => FieldView::Bytes(b@),
            Field::Json(t) => FieldView::Json(t@),
        }
    }
}

impl FieldView {
    /// The bytes of the field's record.
    pub open spec fn record(self) -> Seq<u8> {
        match self {
            FieldView::U64(v) => be_bytes(v),
            FieldView::I64(v) => be_bytes(as_unsigned(v)),
            FieldView::Str(s) => encode_utf8(s),
            FieldView::Bytes(b) => b,
            FieldView::Json(t) => t,
        }
    }

    /// The kind as which the field is read back.
    pub open spec fn kind(self) -> Kind {
        match self {
            FieldView::U64(_) => Kind::U64,
            FieldView::I64(_) => Kind::I64,
            FieldView::Str(_) => Kind::Str,
            FieldView::Bytes(_) => Kind::Bytes,
            FieldView::Json(_) => Kind::Json,
        }
    }

    /// What reading the field back gives; for JSON text, the object that
    /// the JSON reader finds in it.
    pub open spec fn item(self) -> Item {
        match self {
            FieldView::U64(v) => Item::U64(v),
            FieldView::I64(v) => Item::I64(v),
            FieldView::Str(s) => Item::Str(s),
            FieldView::Bytes(b) => Item::Bytes(b),
            FieldView::Json(t) => Item::Json(json_map_of(t).unwrap()),
        }
    }
}

/// The fields of a list, as mathematics.
pub open spec fn views_of(fields: Seq<Field<'_>>) -> Seq<FieldView> {
    Seq::new(fields.len(), |i: int| fields[i]@)
}

/// The records of `fields`, each preceded by a separator.
pub open spec fn tail_encoding(fields: Seq<FieldView>) -> Seq<u8>
    decreases fields.len(),
{
    if fields.len() == 0 {
        Seq::empty()
    } else {
        seq![SEP] + fields[0].record() + tail_encoding(fields.drop_first())
    }
}

/// The buffer that stands for `fields`: their records in order, with one
/// separator between each two.
pub open spec fn encoding(fields: Seq<FieldView>) -> Seq<u8> {
    if fields.len() == 0 {
        Seq::empty()
    } else {
        fields[0].record() + tail_encoding(fields.drop_first())
    }
}

/// One more field at the end adds a separator and the field's record.
pub proof fn lemma_tail_encoding_push(fields: Seq<FieldView>, f: FieldView)
    ensures
        tail_encoding(fields.push(f)) == tail_encoding(fields) + seq![SEP] + f.record(),
    decreases fields.len(),
{
    let more = fields.push(f);
    if fields.len() == 0 {
        assert(more.drop_first() =~= Seq::<FieldView>::empty());
        assert(more[0] == f);
        assert(tail_encoding(more.drop_first()) =~= Seq::<u8>::empty());
        assert(tail_encoding(fields) =~= Seq::<u8>::empty());
        assert(tail_encoding(more) =~= tail_encoding(fields) + seq![SEP] + f.record());
    } else {
        assert(more.drop_first() =~= fields.drop_first().push(f));
        lemma_tail_encoding_push(fields.drop_first(), f);
        assert(tail_encoding(more) =~= tail_encoding(fields) + seq![SEP] + f.record());
    }
}

/// One more field at the end of a buffer that holds some already adds a
/// separator and the field's record; the first field adds its record alone.
pub proof fn lemma_encoding_push(fields: Seq<FieldView>, f: FieldView)
    ensures
        encoding(fields.push(f)) == if fields.len() == 0 {
            f.record()
        } else {
            encoding(fields) + seq![SEP] + f.record()
        },
{
    let more = fields.push(f);
    if fields.len() == 0 {
        assert(more.drop_first() =~= Seq::<FieldView>::empty());
        assert(more[0] == f);
        assert(tail_encoding(more.drop_first()) =~= Seq::<u8>::empty());
        assert(encoding(more) =~= f.record());
    } else {
        assert(more.drop_first() =~= fields.drop_first().push(f));
        lemma_tail_encoding_push(fields.drop_first(), f);
        assert(encoding(more) =~= encoding(fields) + seq![SEP] + f.record());
    }
}

/// Appends `bytes` to `out`.
pub fn append(out: &mut Vec<u8>, bytes: &[u8])
    ensures
        final(out)@ == old(out)@ + bytes@,
{
    let mut i: usize = 0;
    while i < bytes.len()
        invariant
            i <= bytes@.len(),
            out@ == old(out)@ + bytes@.take(i as int),
        decreases bytes@.len() - i,
    {
        out.push(bytes[i]);
        i += 1;
        assert(out@ =~= old(out)@ + bytes@.take(i as int));
    }
    assert(bytes@.take(i as int) =~= bytes@);
}

/// Appends the record of `field` to `out`.
pub fn encode_field(out: &mut Vec<u8>, field: &Field<'_>)
    ensures
        final(out)@ == old(out)@ + field@.record(),
{
    match field {
        Field::U64(v) => write_be_u64(out, *v),
        Field::I64(v) => write_be_u64(out, to_unsigned(*v)),
        Field::Str(s) => append(out, s.as_bytes()),
        Field::Bytes(b) => append(out, b),
        Field::Json(t) => append(out, t),
    }
}

/// The buffer that stands for `fields`.
pub fn encode(fields: &[Field<'_>]) -> (out: Vec<u8>)
    ensures
        out@ == encoding(views_of(fields@)),
{
    let mut out: Vec<u8> = Vec::new();
    let mut i: usize = 0;
    assert(views_of(fields@).take(0) =~= Seq::<FieldView>::empty());
    while i < fields.len()
        invariant
            i <= fields@.len(),
            out@ == encoding(views_of(fields@).take(i as int)),
        decreases fields@.len() - i,
    {
        if i > 0 {
            out.push(SEP);
        }
        encode_field(&mut out, &fields[i]);
        proof {
            let all = views_of(fields@);
            assert(all.take(i + 1) =~= all.take(i as int).push(fields@[i as int]@));
            lemma_encoding_push(all.take(i as int), fields@[i as int]@);
        }
        i += 1;
    }
    assert(views_of(fields@).take(i as int) =~= views_of(fields@));
    out
}

} // verus!
