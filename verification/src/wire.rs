//! The two shapes in which a format presents a record: a positional
//! sequence, for a format that writes no field names, and a mapping keyed by
//! field name, for a format that describes itself.

use vstd::prelude::*;
use crate::datum::{Datum, DatumModel};

verus! {

impl DatumModel {
    /// This datum as a format without field names presents it: every record
    /// in it is the sequence of its fields' values, in order.
    pub open spec fn positional(self) -> DatumModel
        decreases self,
    {
        match self {
            DatumModel::Present(inner) => DatumModel::Present(Box::new(inner.positional())),
            DatumModel::Sequence(items) => DatumModel::Sequence(
                Seq::new(
                    items.len(),
                    |i: int|
                        if 0 <= i < items.len() {
                            items[i].positional()
                        } else {
                            DatumModel::Unit
                        },
                ),
            ),
            DatumModel::Mapping(pairs) => DatumModel::Mapping(
                Seq::new(
                    pairs.len(),
                    |i: int|
                        if 0 <= i < pairs.len() {
                            (pairs[i].0.positional(), pairs[i].1.positional())
                        } else {
                            (DatumModel::Unit, DatumModel::Unit)
                        },
                ),
            ),
            DatumModel::Record { name, fields } => DatumModel::Sequence(
                Seq::new(
                    fields.len(),
                    |i: int|
                        if 0 <= i < fields.len() {
                            fields[i].1.positional()
                        } else {
                            DatumModel::Unit
                        },
                ),
            ),
            _ => self,
        }
    }

    /// This datum as a format that describes itself presents it: every
    /// record in it is a mapping from the names of its fields, as strings,
    /// to their values, in order.
    pub open spec fn keyed(self) -> DatumModel
        decreases self,
    {
        match self {
            DatumModel::Present(inner) => DatumModel::Present(Box::new(inner.keyed())),
            DatumModel::Sequence(items) => DatumModel::Sequence(
                Seq::new(
                    items.len(),
                    |i: int|
                        if 0 <= i < items.len() {
                            items[i].keyed()
                        } else {
                            DatumModel::Unit
                        },
                ),
            ),
            DatumModel::Mapping(pairs) => DatumModel::Mapping(
                Seq::new(
                    pairs.len(),
                    |i: int|
                        if 0 <= i < pairs.len() {
                            (pairs[i].0.keyed(), pairs[i].1.keyed())
                        } else {
                            (DatumModel::Unit, DatumModel::Unit)
                        },
                ),
            ),
            DatumModel::Record { name, fields } => DatumModel::Mapping(
                Seq::new(
                    fields.len(),
                    |i: int|
                        if 0 <= i < fields.len() {
                            (DatumModel::Str(fields[i].0), fields[i].1.keyed())
                        } else {
                            (DatumModel::Unit, DatumModel::Unit)
                        },
                ),
            ),
            _ => self,
        }
    }
}

impl Datum {
    /// Presents this datum as a format without field names does: every
    /// record in it becomes the sequence of its fields' values.
    pub fn positional(&self) -> (d: Datum)
        ensures
            d@ == self@.positional(),
        decreases self,
    {
        match self {
            Datum::Unit => Datum::Unit,
            Datum::Boolean(b) => Datum::Boolean(*b),
            Datum::I8(i) => Datum::I8(*i),
            Datum::I16(i) => Datum::I16(*i),
            Datum::I32(i) => Datum::I32(*i),
            Datum::I64(i) => Datum::I64(*i),
            Datum::U8(u) => Datum::U8(*u),
            Datum::U16(u) => Datum::U16(*u),
            Datum::U32(u) => Datum::U32(*u),
            Datum::U64(u) => Datum::U64(*u),
            Datum::F64(bits) => Datum::F64(*bits),
            Datum::Str(s) => Datum::Str(s.clone()),
            Datum::Bytes(b) => {
                let copy = b.clone();
                assert(copy@ =~= b@);
                Datum::Bytes(copy)
            },
            Datum::Absent => Datum::Absent,
            Datum::Present(inner) => Datum::Present(Box::new(inner.positional())),
            Datum::Sequence(items) => {
                let mut out: Vec<Datum> = Vec::new();
                let mut i: usize = 0;
                while i < items.len()
                    invariant
                        i <= items.len(),
                        out.len() == i,
                        decreases_to!(self => items),
                        forall|k: int| 0 <= k < i ==> (#[trigger] out[k])@ == items[k]@.positional(),
                    decreases items.len() - i,
                {
                    out.push(items[i].positional());
                    i += 1;
                }
                let d = Datum::Sequence(out);
                assert(d@->Sequence_0 =~= self@.positional()->Sequence_0);
                d
            },
            Datum::Mapping(pairs) => {
                let mut out: Vec<(Datum, Datum)> = Vec::new();
                let mut i: usize = 0;
                while i < pairs.len()
                    invariant
                        i <= pairs.len(),
                        out.len() == i,
                        decreases_to!(self => pairs),
                        forall|k: int|
                            0 <= k < i ==> (#[trigger] out[k]).0@ == pairs[k].0@.positional()
                                && out[k].1@ == pairs[k].1@.positional(),
                    decreases pairs.len() - i,
                {
                    let key = pairs[i].0.positional();
                    let value = pairs[i].1.positional();
                    out.push((key, value));
                    i += 1;
                }
                let d = Datum::Mapping(out);
                assert(d@->Mapping_0 =~= self@.positional()->Mapping_0);
                d
            },
            Datum::Record { name, fields } => {
                let mut out: Vec<Datum> = Vec::new();
                let mut i: usize = 0;
                while i < fields.len()
                    invariant
                        i <= fields.len(),
                        out.len() == i,
                        decreases_to!(self => fields),
                        forall|k: int|
                            0 <= k < i ==> (#[trigger] out[k])@ == fields[k].1@.positional(),
                    decreases fields.len() - i,
                {
                    out.push(fields[i].1.positional());
                    i += 1;
                }
                let d = Datum::Sequence(out);
                assert(d@->Sequence_0 =~= self@.positional()->Sequence_0);
                d
            },
        }
    }

    /// Presents this datum as a format that describes itself does: every
    /// record in it becomes a mapping from field names to values.
    pub fn keyed(&self) -> (d: Datum)
        ensures
            d@ == self@.keyed(),
        decreases self,
    {
        match self {
            Datum::Unit => Datum::Unit,
            Datum::Boolean(b) => Datum::Boolean(*b),
            Datum::I8(i) => Datum::I8(*i),
            Datum::I16(i) => Datum::I16(*i),
            Datum::I32(i) => Datum::I32(*i),
            Datum::I64(i) => Datum::I64(*i),
            Datum::U8(u) => Datum::U8(*u),
            Datum::U16(u) => Datum::U16(*u),
            Datum::U32(u) => Datum::U32(*u),
            Datum::U64(u) => Datum::U64(*u),
            Datum::F64(bits) => Datum::F64(*bits),
            Datum::Str(s) => Datum::Str(s.clone()),
            Datum::Bytes(b) => {
                let copy = b.clone();
                assert(copy@ =~= b@);
                Datum::Bytes(copy)
            },
            Datum::Absent => Datum::Absent,
            Datum::Present(inner) => Datum::Present(Box::new(inner.keyed())),
            Datum::Sequence(items) => {
                let mut out: Vec<Datum> = Vec::new();
                let mut i: usize = 0;
                while i < items.len()
                    invariant
                        i <= items.len(),
                        out.len() == i,
                        decreases_to!(self => items),
                        forall|k: int| 0 <= k < i ==> (#[trigger] out[k])@ == items[k]@.keyed(),
                    decreases items.len() - i,
                {
                    out.push(items[i].keyed());
                    i += 1;
                }
                let d = Datum::Sequence(out);
                assert(d@->Sequence_0 =~= self@.keyed()->Sequence_0);
                d
            },
            Datum::Mapping(pairs) => {
                let mut out: Vec<(Datum, Datum)> = Vec::new();
                let mut i: usize = 0;
                while i < pairs.len()
                    invariant
                        i <= pairs.len(),
                        out.len() == i,
                        decreases_to!(self => pairs),
                        forall|k: int|
                            0 <= k < i ==> (#[trigger] out[k]).0@ == pairs[k].0@.keyed()
                                && out[k].1@ == pairs[k].1@.keyed(),
                    decreases pairs.len() - i,
                {
                    let key = pairs[i].0.keyed();
                    let value = pairs[i].1.keyed();
                    out.push((key, value));
                    i += 1;
                }
                let d = Datum::Mapping(out);
                assert(d@->Mapping_0 =~= self@.keyed()->Mapping_0);
                d
            },
            Datum::Record { name, fields } => {
                let mut out: Vec<(Datum, Datum)> = Vec::new();
                let mut i: usize = 0;
                while i < fields.len()
                    invariant
                        i <= fields.len(),
                        out.len() == i,
                        decreases_to!(self => fields),
                        forall|k: int|
                            0 <= k < i ==> (#[trigger] out[k]).0@ == DatumModel::Str(fields[k].0@)
                                && out[k].1@ == fields[k].1@.keyed(),
                    decreases fields.len() - i,
                {
                    let key = Datum::Str(fields[i].0.to_owned());
                    let value = fields[i].1.keyed();
                    out.push((key, value));
                    i += 1;
                }
                let d = Datum::Mapping(out);
                assert(d@->Mapping_0 =~= self@.keyed()->Mapping_0);
                d
            },
        }
    }
}

} // verus!
