//! What is written is read back: the laws that tie the encoder to the
//! decoder.

use crate::de::{
    decode_all, lemma_next_bounds, read_sequence, read_tuple, run, Cursor, Item, Kind, Schema,
};
use crate::error::ErrorKind;
use crate::json::json_map_of;
use crate::ser::{encoding, tail_encoding, FieldView};
use crate::wire::{
    as_unsigned, lemma_be_round_trip, lemma_record_end_is, lemma_signed_round_trip,
    lemma_utf8_sep_free, sep_free, SEP,
};
use vstd::prelude::*;
use vstd::utf8::*;

verus! {

/// True when a field can be read back as `kind`: as the kind of the field
/// itself, and a string also as a string of its own.
pub open spec fn reads(kind: Kind, f: FieldView) -> bool {
    kind == f.kind() || (f is Str && kind is OwnedStr)
}

/// What reading a field back as `kind` gives.
pub open spec fn item_as(f: FieldView, kind: Kind) -> Item {
    match f {
        FieldView::Str(s) => if kind is OwnedStr {
            Item::OwnedStr(s)
        } else {
            Item::Str(s)
        },
        _ => f.item(),
    }
}

/// True when each of `fields` can be read back as the kind in its place.
pub open spec fn read_as(fields: Seq<FieldView>, kinds: Seq<Kind>) -> bool {
    &&& kinds.len() == fields.len()
    &&& forall|i: int| 0 <= i < fields.len() ==> reads(#[trigger] kinds[i], fields[i])
}

/// What reading a list of fields back as `kinds` gives.
pub open spec fn items_as(fields: Seq<FieldView>, kinds: Seq<Kind>) -> Seq<Item> {
    Seq::new(fields.len(), |i: int| item_as(fields[i], kinds[i]))
}

/// True when the field's record can be told from what follows it: JSON
/// text must hold no separator and be a map to the JSON reader. The other
/// fields qualify as they are.
pub open spec fn readable(f: FieldView) -> bool {
    f matches FieldView::Json(t) ==> sep_free(t) && json_map_of(t) is Some
}

/// True for the lists of fields that a tuple can carry: raw bytes come
/// last, for they take all that remains; JSON text is readable; and a
/// tuple of one field is not empty on the wire, for a sequence ends where the
/// buffer does.
pub open spec fn carried(fields: Seq<FieldView>) -> bool {
    &&& forall|i: int| 0 <= i < fields.len() - 1 ==> !(#[trigger] fields[i] is Bytes)
    &&& forall|i: int| 0 <= i < fields.len() ==> readable(#[trigger] fields[i])
    &&& fields.len() == 1 ==> fields[0].record().len() > 0
}

/// A field's record, followed by nothing or by a separator, is read back as
/// the field, and the position then stands at the record's end.
pub proof fn lemma_decode_field(c: Cursor, f: FieldView, kind: Kind, rest: Seq<u8>)
    requires
        c.wf(),
        reads(kind, f),
        c.trail() == f.record() + rest,
        rest.len() == 0 || rest[0] == SEP,
        f is Bytes ==> rest.len() == 0,
        readable(f),
    ensures
        c.decode(kind) == (
            c.at(c.pos + f.record().len()),
            Ok::<Item, ErrorKind>(item_as(f, kind)),
        ),
{
    let rec = f.record();
    let end = c.pos + rec.len();
    assert(c.trail().len() == rec.len() + rest.len());
    assert(c.buf.subrange(c.pos, end) =~= rec) by {
        assert forall|i: int| 0 <= i < rec.len() implies c.buf[c.pos + i] == rec[i] by {
            assert(c.trail()[i] == rec[i]);
        }
    }
    if end < c.buf.len() {
        assert(c.trail()[rec.len() as int] == rest[0]);
        assert(c.buf[end] == SEP);
    }
    match f {
        FieldView::U64(v) => {
            lemma_be_round_trip(v);
        },
        FieldView::I64(v) => {
            lemma_be_round_trip(as_unsigned(v));
            lemma_signed_round_trip(v, 0);
        },
        FieldView::Str(s) => {
            encode_utf8_valid_utf8(s);
            encode_utf8_decode_utf8(s);
            lemma_utf8_sep_free(rec);
            assert forall|i: int| c.pos <= i < end implies c.buf[i] != SEP by {
                assert(c.buf[i] == rec[i - c.pos]);
            }
            lemma_record_end_is(c.buf, c.pos, end);
        },
        FieldView::Bytes(b) => {
            assert(c.trail() =~= b);
        },
        FieldView::Json(t) => {
            assert forall|i: int| c.pos <= i < end implies c.buf[i] != SEP by {
                assert(c.buf[i] == rec[i - c.pos]);
            }
            lemma_record_end_is(c.buf, c.pos, end);
        },
    }
}

/// With the position on the separator before field `i`, the rest of a
/// tuple is read back field by field.
proof fn lemma_read_rest(
    buf: Seq<u8>,
    fields: Seq<FieldView>,
    kinds: Seq<Kind>,
    i: int,
    p: int,
    acc: Seq<Item>,
)
    requires
        1 <= i <= fields.len(),
        read_as(fields, kinds),
        0 <= p <= buf.len(),
        buf.subrange(p, buf.len() as int) == tail_encoding(fields.skip(i)),
        carried(fields),
    ensures
        read_tuple(Cursor { buf, pos: p, seq: true, started: true }, kinds, i, acc) == (
            Cursor { buf, pos: buf.len() as int, seq: true, started: true },
            Ok::<Seq<Item>, ErrorKind>(acc + items_as(fields, kinds).skip(i)),
        ),
    decreases fields.len() - i,
{
    let c = Cursor { buf, pos: p, seq: true, started: true };
    let left = fields.skip(i);
    let items = items_as(fields, kinds);
    if i == fields.len() {
        assert(left.len() == 0);
        assert(tail_encoding(left) =~= Seq::<u8>::empty());
        assert(buf.subrange(p, buf.len() as int).len() == 0);
        assert(acc + items.skip(i) =~= acc);
    } else {
        let f = fields[i];
        let rec = f.record();
        let later = fields.skip(i + 1);
        assert(left[0] == f);
        assert(left.drop_first() =~= later);
        let rest = tail_encoding(later);
        assert(tail_encoding(left) == seq![SEP] + rec + rest);
        let tail = buf.subrange(p, buf.len() as int);
        assert(tail.len() == 1 + rec.len() + rest.len());
        assert(tail[0] == SEP);
        assert(buf[p] == SEP);
        let c1 = c.begin_record();
        assert(c1.trail() =~= rec + rest) by {
            assert forall|k: int| 0 <= k < rec.len() + rest.len() implies c1.trail()[k] == (rec
                + rest)[k] by {
                assert(c1.trail()[k] == tail[k + 1]);
            }
        }
        if later.len() > 0 {
            assert(rest == seq![SEP] + later[0].record() + tail_encoding(later.drop_first()));
            assert(rest[0] == SEP);
        } else {
            assert(rest =~= Seq::<u8>::empty());
        }
        if f is Bytes {
            assert(i == fields.len() - 1);
        }
        assert(reads(kinds[i], f));
        lemma_decode_field(c1, f, kinds[i], rest);
        let c2 = c1.at(c1.pos + rec.len());
        let item = item_as(f, kinds[i]);
        assert(c.next(kinds[i]) == (c2, Ok::<Option<Item>, ErrorKind>(Some(item))));
        assert(buf.subrange(c2.pos, buf.len() as int) =~= rest) by {
            assert forall|k: int| 0 <= k < rest.len() implies buf[c2.pos + k] == rest[k] by {
                assert(tail[1 + rec.len() + k] == rest[k]);
            }
        }
        lemma_read_rest(buf, fields, kinds, i + 1, c2.pos, acc.push(item));
        assert(acc.push(item) + items.skip(i + 1) =~= acc + items.skip(i));
    }
}

/// Round trip of a tuple: the buffer that stands for a list of fields,
/// read as a tuple of kinds as which the fields can be read, gives the fields
/// back, and all of the buffer is consumed.
pub proof fn lemma_round_trip(fields: Seq<FieldView>, kinds: Seq<Kind>)
    requires
        carried(fields),
        read_as(fields, kinds),
    ensures
        decode_all(encoding(fields), Schema::Tuple(kinds)) == Ok::<Seq<Item>, ErrorKind>(
            items_as(fields, kinds),
        ),
        run(encoding(fields), Schema::Tuple(kinds)).0.pos == encoding(fields).len(),
{
    let buf = encoding(fields);
    let c0 = Cursor { seq: true, ..Cursor::start(buf) };
    let e = Seq::<Item>::empty();
    let items = items_as(fields, kinds);
    if fields.len() == 0 {
        assert(items =~= e);
    } else {
        let f = fields[0];
        let rec = f.record();
        let later = fields.skip(1);
        assert(fields.drop_first() =~= later);
        let rest = tail_encoding(later);
        assert(buf == rec + rest);
        if later.len() > 0 {
            assert(rest == seq![SEP] + later[0].record() + tail_encoding(later.drop_first()));
            assert(rest[0] == SEP);
        } else {
            assert(rest =~= Seq::<u8>::empty());
            assert(fields.len() == 1);
        }
        assert(buf.len() > 0);
        let c1 = c0.begin_record();
        assert(c1.trail() =~= rec + rest);
        if f is Bytes {
            assert(fields.len() == 1);
        }
        assert(reads(kinds[0], f));
        lemma_decode_field(c1, f, kinds[0], rest);
        let c2 = c1.at(c1.pos + rec.len());
        let item = item_as(f, kinds[0]);
        assert(c0.next(kinds[0]) == (c2, Ok::<Option<Item>, ErrorKind>(Some(item))));
        assert(buf.subrange(c2.pos, buf.len() as int) =~= rest);
        lemma_read_rest(buf, fields, kinds, 1, c2.pos, e.push(item));
        assert(e.push(item) + items.skip(1) =~= items);
        assert(read_tuple(c0, kinds, 0, e) == read_tuple(c2, kinds, 1, e.push(item)));
    }
}

/// Round trip of a single value: the record of a field, read at the top
/// level as a kind as which the field can be read, gives the field back.
pub proof fn lemma_round_trip_single(f: FieldView, kind: Kind)
    requires
        readable(f),
        reads(kind, f),
    ensures
        decode_all(f.record(), Schema::Single(kind)) == Ok::<Seq<Item>, ErrorKind>(
            seq![item_as(f, kind)],
        ),
{
    let c = Cursor::start(f.record());
    assert(c.trail() =~= f.record() + Seq::<u8>::empty());
    lemma_decode_field(c, f, kind, Seq::empty());
}

/// Where a tuple of elements of one kind is read with success up to the
/// end of the buffer, a sequence of that kind reads the same.
proof fn lemma_sequence_as_tuple(c: Cursor, kinds: Seq<Kind>, kind: Kind, i: int, acc: Seq<Item>)
    requires
        c.wf(),
        0 <= i <= kinds.len(),
        forall|j: int| i <= j < kinds.len() ==> kinds[j] == kind,
        read_tuple(c, kinds, i, acc).1 is Ok,
        read_tuple(c, kinds, i, acc).0.pos == c.buf.len(),
    ensures
        read_sequence(c, kind, acc) == read_tuple(c, kinds, i, acc),
    decreases kinds.len() - i,
{
    if i < kinds.len() {
        lemma_next_bounds(c, kind);
        assert(kinds[i] == kind);
        match c.next(kind).1 {
            Ok(Some(item)) => {
                lemma_sequence_as_tuple(c.next(kind).0, kinds, kind, i + 1, acc.push(item));
            },
            _ => {},
        }
    }
}

/// Round trip of a sequence: the buffer that stands for a list of fields,
/// read as a sequence of one kind as which each of them can be read, gives
/// the fields back.
pub proof fn lemma_round_trip_sequence(fields: Seq<FieldView>, kind: Kind)
    requires
        carried(fields),
        forall|i: int| 0 <= i < fields.len() ==> reads(kind, #[trigger] fields[i]),
    ensures
        decode_all(encoding(fields), Schema::Sequence(kind)) == Ok::<Seq<Item>, ErrorKind>(
            items_as(fields, Seq::new(fields.len(), |i: int| kind)),
        ),
{
    let buf = encoding(fields);
    let kinds = Seq::new(fields.len(), |i: int| kind);
    let c0 = Cursor { seq: true, ..Cursor::start(buf) };
    lemma_round_trip(fields, kinds);
    lemma_sequence_as_tuple(c0, kinds, kind, 0, Seq::empty());
}

} // verus!
