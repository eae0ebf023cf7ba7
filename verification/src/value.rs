//! Scalar values and their mapping to and from the primitives of the
//! serialization data model.

use vstd::prelude::*;
use crate::datum::{Datum, DatumModel};
use crate::error::{DecodeError, DecodeErrorModel, Expected};

verus! {

/// A scalar of a document: one of five variants.
///
/// `Float` holds the 64 bits of an IEEE 754 double, so that every float,
/// the two zeros, the infinities and each NaN included, is kept bit for bit.
#[derive(Debug, Eq)]
pub enum Value {
    Null,
    Boolean(bool),
    Int(i64),
    /// A 64-bit float, as its bits.
    Float(u64),
    String(String),
}

/// What a [`Value`] is, as a mathematical value.
pub enum ValueModel {
    Null,
    Boolean(bool),
    Int(i64),
    Float(u64),
    String(Seq<char>),
}

impl View for Value {
    type V = ValueModel;

    open spec fn view(&self) -> ValueModel {
        match self {
            Value::Null => ValueModel::Null,
            Value::Boolean(b) => ValueModel::Boolean(*b),
            Value::Int(i) => ValueModel::Int(*i),
            Value::Float(bits) => ValueModel::Float(*bits),
            Value::String(s) => ValueModel::String(s@),
        }
    }
}

impl PartialEq for Value {
    /// Two values are equal when they are the same.
    fn eq(&self, other: &Value) -> (same: bool) {
        self.same_as(other)
    }
}

impl vstd::std_specs::cmp::PartialEqSpecImpl for Value {
    open spec fn obeys_eq_spec() -> bool {
        true
    }

    open spec fn eq_spec(&self, other: &Value) -> bool {
        self@ == other@
    }
}

impl Clone for Value {
    /// A copy that holds the same content.
    fn clone(&self) -> (copy: Value)
        ensures
            copy@ == self@,
    {
        match self {
            Value::Null => Value::Null,
            Value::Boolean(b) => Value::Boolean(*b),
            Value::Int(i) => Value::Int(*i),
            Value::Float(bits) => Value::Float(*bits),
            Value::String(s) => Value::String(s.clone()),
        }
    }
}

/// The primitive that stands for a value.
pub open spec fn encoded_value(v: ValueModel) -> DatumModel {
    match v {
        ValueModel::Null => DatumModel::Unit,
        ValueModel::Boolean(b) => DatumModel::Boolean(b),
        ValueModel::Int(i) => DatumModel::I64(i),
        ValueModel::Float(bits) => DatumModel::F64(bits),
        ValueModel::String(s) => DatumModel::Str(s),
    }
}

/// The value that a datum stands for, or the reason why it stands for none.
///
/// An unsigned 32-bit integer widens to a signed 64-bit one. The unit and an
/// absent optional are both `Null`. A present optional is read as what it
/// holds. Every other kind is a type mismatch.
pub open spec fn decoded_value(d: DatumModel) -> Result<ValueModel, DecodeErrorModel>
    decreases d,
{
    match d {
        DatumModel::Boolean(b) => Ok(ValueModel::Boolean(b)),
        DatumModel::I64(i) => Ok(ValueModel::Int(i)),
        DatumModel::U32(u) => Ok(ValueModel::Int(u as i64)),
        DatumModel::F64(bits) => Ok(ValueModel::Float(bits)),
        DatumModel::Str(s) => Ok(ValueModel::String(s)),
        DatumModel::Absent => Ok(ValueModel::Null),
        DatumModel::Present(inner) => decoded_value(*inner),
        DatumModel::Unit => Ok(ValueModel::Null),
        _ => Err(DecodeErrorModel::TypeMismatch { found: d.kind(), expected: Expected::Value }),
    }
}

/// Whether a decoding result, as computed, is the one that the model gives.
pub open spec fn value_result_matches(
    r: Result<Value, DecodeError>,
    m: Result<ValueModel, DecodeErrorModel>,
) -> bool {
    match r {
        Ok(v) => m == Ok::<ValueModel, DecodeErrorModel>(v@),
        Err(e) => m == Err::<ValueModel, DecodeErrorModel>(e@),
    }
}

impl Value {
    /// Whether two values are the same: of one variant and with one
    /// content, a float bit for bit.
    pub fn same_as(&self, other: &Value) -> (same: bool)
        ensures
            same == (self@ == other@),
    {
        match (self, other) {
            (Value::Null, Value::Null) => true,
            (Value::Boolean(a), Value::Boolean(b)) => *a == *b,
            (Value::Int(a), Value::Int(b)) => *a == *b,
            (Value::Float(a), Value::Float(b)) => *a == *b,
            (Value::String(a), Value::String(b)) => *a == *b,
            _ => false,
        }
    }

    /// Emits the primitive that stands for this value. This cannot fail.
    pub fn encode(&self) -> (d: Datum)
        ensures
            d@ == encoded_value(self@),
    {
        match self {
            Value::Null => Datum::Unit,
            Value::Boolean(b) => Datum::Boolean(*b),
            Value::Int(i) => Datum::I64(*i),
            Value::Float(bits) => Datum::F64(*bits),
            Value::String(s) => Datum::Str(s.clone()),
        }
    }

    /// Reads a value from an incoming datum.
    pub fn decode(d: &Datum) -> (r: Result<Value, DecodeError>)
        ensures
            value_result_matches(r, decoded_value(d@)),
        decreases d,
    {
        match d {
            Datum::Boolean(b) => Ok(Value::Boolean(*b)),
            Datum::I64(i) => Ok(Value::Int(*i)),
            Datum::U32(u) => Ok(Value::Int(*u as i64)),
            Datum::F64(bits) => Ok(Value::Float(*bits)),
            Datum::Str(s) => Ok(Value::String(s.clone())),
            Datum::Absent => Ok(Value::Null),
            Datum::Present(inner) => Value::decode(inner),
            Datum::Unit => Ok(Value::Null),
            _ => Err(DecodeError::TypeMismatch { found: d.kind(), expected: Expected::Value }),
        }
    }
}

/// Decoding what a value was encoded to gives the value back, for each of
/// the five variants and for every content.
pub proof fn value_round_trip(v: ValueModel)
    ensures
        decoded_value(encoded_value(v)) == Ok::<ValueModel, DecodeErrorModel>(v),
{
}

/// An unsigned 32-bit integer decodes to the same number as a signed 64-bit
/// integer: nothing is lost and nothing wraps.
pub proof fn unsigned_widens(u: u32)
    ensures
        decoded_value(DatumModel::U32(u)) == Ok::<ValueModel, DecodeErrorModel>(
            ValueModel::Int(u as i64),
        ),
        (u as i64) as int == u as int,
{
}

} // verus!
