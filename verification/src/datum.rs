//! The serialization data model: primitives, options, sequences, mappings and
//! records of named fields.

use vstd::prelude::*;

verus! {

/// One value of the serialization data model.
///
/// A floating-point number is held as the 64 bits of its IEEE 754 encoding,
/// so that two data are equal exactly when they hold the same bits.
#[derive(Debug, PartialEq, Eq)]
pub enum Datum {
    /// The unit primitive, an empty marker.
    Unit,
    Boolean(bool),
    I8(i8),
    I16(i16),
    I32(i32),
    I64(i64),
    U8(u8),
    U16(u16),
    U32(u32),
    U64(u64),
    /// A 64-bit float, as its bits.
    F64(u64),
    Str(String),
    Bytes(Vec<u8>),
    /// An optional with no value present.
    Absent,
    /// An optional with a value present.
    Present(Box<Datum>),
    Sequence(Vec<Datum>),
    /// Key and value pairs, in the order in which they were given.
    Mapping(Vec<(Datum, Datum)>),
    /// A record: its type's name and its named fields, in order.
    Record { name: &'static str, fields: Vec<(&'static str, Datum)> },
}

/// The tag of a [`Datum`]: which shape it has, without its content.
#[derive(Clone, Copy, Debug, PartialEq, Eq, Structural)]
pub enum Kind {
    Unit,
    Boolean,
    I8,
    I16,
    I32,
    I64,
    U8,
    U16,
    U32,
    U64,
    F64,
    Str,
    Bytes,
    Absent,
    Present,
    Sequence,
    Mapping,
    Record,
}

/// What a [`Datum`] is, as a mathematical value.
pub enum DatumModel {
    Unit,
    Boolean(bool),
    I8(i8),
    I16(i16),
    I32(i32),
    I64(i64),
    U8(u8),
    U16(u16),
    U32(u32),
    U64(u64),
    F64(u64),
    Str(Seq<char>),
    Bytes(Seq<u8>),
    Absent,
    Present(Box<DatumModel>),
    Sequence(Seq<DatumModel>),
    Mapping(Seq<(DatumModel, DatumModel)>),
    Record { name: Seq<char>, fields: Seq<(Seq<char>, DatumModel)> },
}

impl DatumModel {
    /// The tag of this datum.
    pub open spec fn kind(self) -> Kind {
        match self {
            DatumModel::Unit => Kind::Unit,
            DatumModel::Boolean(_) => Kind::Boolean,
            DatumModel::I8(_) => Kind::I8,
            DatumModel::I16(_) => Kind::I16,
            DatumModel::I32(_) => Kind::I32,
            DatumModel::I64(_) => Kind::I64,
            DatumModel::U8(_) => Kind::U8,
            DatumModel::U16(_) => Kind::U16,
            DatumModel::U32(_) => Kind::U32,
            DatumModel::U64(_) => Kind::U64,
            DatumModel::F64(_) => Kind::F64,
            DatumModel::Str(_) => Kind::Str,
            DatumModel::Bytes(_) => Kind::Bytes,
            DatumModel::Absent => Kind::Absent,
            DatumModel::Present(_) => Kind::Present,
            DatumModel::Sequence(_) => Kind::Sequence,
            DatumModel::Mapping(_) => Kind::Mapping,
            DatumModel::Record { .. } => Kind::Record,
        }
    }
}

impl Datum {
    /// The mathematical value of this datum; `d@` is short for it.
    pub open spec fn model(&self) -> DatumModel
        decreases self,
    {
        match self {
            Datum::Unit => DatumModel::Unit,
            Datum::Boolean(b) => DatumModel::Boolean(*b),
            Datum::I8(i) => DatumModel::I8(*i),
            Datum::I16(i) => DatumModel::I16(*i),
            Datum::I32(i) => DatumModel::I32(*i),
            Datum::I64(i) => DatumModel::I64(*i),
            Datum::U8(u) => DatumModel::U8(*u),
            Datum::U16(u) => DatumModel::U16(*u),
            Datum::U32(u) => DatumModel::U32(*u),
            Datum::U64(u) => DatumModel::U64(*u),
            Datum::F64(bits) => DatumModel::F64(*bits),
            Datum::Str(s) => DatumModel::Str(s@),
            Datum::Bytes(b) => DatumModel::Bytes(b@),
            Datum::Absent => DatumModel::Absent,
            Datum::Present(inner) => DatumModel::Present(Box::new(inner.model())),
            Datum::Sequence(items) => DatumModel::Sequence(
                Seq::new(
                    items.len() as nat,
                    |i: int|
                        if 0 <= i < items.len() {
                            items[i].model()
                        } else {
                            DatumModel::Unit
                        },
                ),
            ),
            Datum::Mapping(pairs) => DatumModel::Mapping(
                Seq::new(
                    pairs.len() as nat,
                    |i: int|
                        if 0 <= i < pairs.len() {
                            (pairs[i].0.model(), pairs[i].1.model())
                        } else {
                            (DatumModel::Unit, DatumModel::Unit)
                        },
                ),
            ),
            Datum::Record { name, fields } => DatumModel::Record {
                name: name@,
                fields: Seq::new(
                    fields.len() as nat,
                    |i: int|
                        if 0 <= i < fields.len() {
                            (fields[i].0@, fields[i].1.model())
                        } else {
                            (Seq::empty(), DatumModel::Unit)
                        },
                ),
            },
        }
    }
}

/// The data of a list, one by one.
pub open spec fn data_model(items: Seq<Datum>) -> Seq<DatumModel> {
    Seq::new(items.len(), |i: int| items[i].model())
}

/// The pairs of a list, one by one.
pub open spec fn pairs_model(pairs: Seq<(Datum, Datum)>) -> Seq<(DatumModel, DatumModel)> {
    Seq::new(pairs.len(), |i: int| (pairs[i].0.model(), pairs[i].1.model()))
}

impl Datum {
    /// The items of a sequence's model are the models of its items.
    pub proof fn sequence_model(items: Vec<Datum>)
        ensures
            Datum::Sequence(items).model() == DatumModel::Sequence(data_model(items@)),
    {
        assert(Datum::Sequence(items).model()->Sequence_0 =~= data_model(items@));
    }

    /// The pairs of a mapping's model are the models of its pairs.
    pub proof fn mapping_model(pairs: Vec<(Datum, Datum)>)
        ensures
            Datum::Mapping(pairs).model() == DatumModel::Mapping(pairs_model(pairs@)),
    {
        assert(Datum::Mapping(pairs).model()->Mapping_0 =~= pairs_model(pairs@));
    }
}

impl View for Datum {
    type V = DatumModel;

    open spec fn view(&self) -> DatumModel {
        self.model()
    }
}

impl Datum {
    /// The tag of this datum.
    pub fn kind(&self) -> (k: Kind)
        ensures
            k == self@.kind(),
    {
        match self {
            Datum::Unit => Kind::Unit,
            Datum::Boolean(_) => Kind::Boolean,
            Datum::I8(_) => Kind::I8,
            Datum::I16(_) => Kind::I16,
            Datum::I32(_) => Kind::I32,
            Datum::I64(_) => Kind::I64,
            Datum::U8(_) => Kind::U8,
            Datum::U16(_) => Kind::U16,
            Datum::U32(_) => Kind::U32,
            Datum::U64(_) => Kind::U64,
            Datum::F64(_) => Kind::F64,
            Datum::Str(_) => Kind::Str,
            Datum::Bytes(_) => Kind::Bytes,
            Datum::Absent => Kind::Absent,
            Datum::Present(_) => Kind::Present,
            Datum::Sequence(_) => Kind::Sequence,
            Datum::Mapping(_) => Kind::Mapping,
            Datum::Record { .. } => Kind::Record,
        }
    }
}

} // verus!
