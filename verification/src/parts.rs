//! Reading the parts of a node from incoming data: its name, its values and
//! its properties.

use vstd::prelude::*;
use crate::datum::{data_model, pairs_model, Datum, DatumModel};
use crate::error::{DecodeError, DecodeErrorModel, Expected};
use crate::laws::decoded_properties_have_distinct_keys;
use crate::node::values_model;
use crate::properties::{
    keys_distinct,
    properties_model,
    put_property,
    with_property,
};
use crate::value::{decoded_value, Value, ValueModel};

verus! {

/// The error for a datum that stands where `expected` is needed.
pub open spec fn mismatch(d: DatumModel, expected: Expected) -> DecodeErrorModel {
    DecodeErrorModel::TypeMismatch { found: d.kind(), expected }
}

/// The text that a datum stands for: a string is itself, nothing else is
/// text.
pub open spec fn decoded_text(d: DatumModel) -> Result<Seq<char>, DecodeErrorModel> {
    match d {
        DatumModel::Str(s) => Ok(s),
        _ => Err(mismatch(d, Expected::Text)),
    }
}

/// The values that the first `upto` items stand for, in order, or the error
/// of the first item that stands for none.
pub open spec fn decoded_values_upto(items: Seq<DatumModel>, upto: nat) -> Result<
    Seq<ValueModel>,
    DecodeErrorModel,
>
    decreases upto,
{
    if upto == 0 {
        Ok(Seq::empty())
    } else {
        match decoded_values_upto(items, (upto - 1) as nat) {
            Err(e) => Err(e),
            Ok(front) => match decoded_value(items[upto - 1]) {
                Err(e) => Err(e),
                Ok(v) => Ok(front.push(v)),
            },
        }
    }
}

/// The list of values that a datum stands for: a sequence, item by item.
pub open spec fn decoded_values(d: DatumModel) -> Result<Seq<ValueModel>, DecodeErrorModel> {
    match d {
        DatumModel::Sequence(items) => decoded_values_upto(items, items.len()),
        _ => Err(mismatch(d, Expected::Sequence)),
    }
}

/// The property list that the first `upto` pairs stand for, or the error of
/// the first pair that fails. Of a pair the key is read before the value.
pub open spec fn decoded_properties_upto(
    pairs: Seq<(DatumModel, DatumModel)>,
    upto: nat,
) -> Result<Seq<(Seq<char>, ValueModel)>, DecodeErrorModel>
    decreases upto,
{
    if upto == 0 {
        Ok(Seq::empty())
    } else {
        match decoded_properties_upto(pairs, (upto - 1) as nat) {
            Err(e) => Err(e),
            Ok(front) => match decoded_text(pairs[upto - 1].0) {
                Err(e) => Err(e),
                Ok(key) => match decoded_value(pairs[upto - 1].1) {
                    Err(e) => Err(e),
                    Ok(value) => Ok(with_property(front, key, value)),
                },
            },
        }
    }
}

/// The property list that a datum stands for: a mapping from strings to
/// values, pair by pair.
pub open spec fn decoded_properties(d: DatumModel) -> Result<
    Seq<(Seq<char>, ValueModel)>,
    DecodeErrorModel,
> {
    match d {
        DatumModel::Mapping(pairs) => decoded_properties_upto(pairs, pairs.len()),
        _ => Err(mismatch(d, Expected::Mapping)),
    }
}

/// Once a prefix of the items has failed, every longer prefix fails with the
/// same error.
pub proof fn values_failure_persists(items: Seq<DatumModel>, failed: nat, upto: nat)
    requires
        failed <= upto,
        decoded_values_upto(items, failed) is Err,
    ensures
        decoded_values_upto(items, upto) == decoded_values_upto(items, failed),
    decreases upto,
{
    if failed < upto {
        values_failure_persists(items, failed, (upto - 1) as nat);
    }
}

/// Once a prefix of the pairs has failed, every longer prefix fails with the
/// same error.
pub proof fn properties_failure_persists(
    pairs: Seq<(DatumModel, DatumModel)>,
    failed: nat,
    upto: nat,
)
    requires
        failed <= upto,
        decoded_properties_upto(pairs, failed) is Err,
    ensures
        decoded_properties_upto(pairs, upto) == decoded_properties_upto(pairs, failed),
    decreases upto,
{
    if failed < upto {
        properties_failure_persists(pairs, failed, (upto - 1) as nat);
    }
}

/// Reads a string.
pub fn decode_text(d: &Datum) -> (r: Result<String, DecodeError>)
    ensures
        match r {
            Ok(s) => decoded_text(d@) == Ok::<Seq<char>, DecodeErrorModel>(s@),
            Err(e) => decoded_text(d@) == Err::<Seq<char>, DecodeErrorModel>(e@),
        },
{
    match d {
        Datum::Str(s) => Ok(s.clone()),
        _ => Err(DecodeError::TypeMismatch { found: d.kind(), expected: Expected::Text }),
    }
}

/// Reads a list of values from a sequence, in order. The first item that is
/// no value ends the reading with its error.
pub fn decode_values(d: &Datum) -> (r: Result<Vec<Value>, DecodeError>)
    ensures
        match r {
            Ok(values) => decoded_values(d@) == Ok::<Seq<ValueModel>, DecodeErrorModel>(
                values_model(values@),
            ),
            Err(e) => decoded_values(d@) == Err::<Seq<ValueModel>, DecodeErrorModel>(e@),
        },
{
    match d {
        Datum::Sequence(items) => {
            let ghost all = data_model(items@);
            proof {
                Datum::sequence_model(*items);
            }
            let mut values: Vec<Value> = Vec::new();
            let mut i: usize = 0;
            assert(values_model(values@) =~= Seq::empty());
            while i < items.len()
                invariant
                    i <= items.len(),
                    d@ == DatumModel::Sequence(all),
                    all == data_model(items@),
                    decoded_values_upto(all, i as nat) == Ok::<Seq<ValueModel>, DecodeErrorModel>(
                        values_model(values@),
                    ),
                decreases items.len() - i,
            {
                match Value::decode(&items[i]) {
                    Ok(value) => {
                        let ghost before = values@;
                        values.push(value);
                        assert(values_model(values@) =~= values_model(before).push(value@));
                    },
                    Err(e) => {
                        proof {
                            assert(decoded_values_upto(all, (i + 1) as nat) is Err);
                            values_failure_persists(all, (i + 1) as nat, all.len());
                        }
                        return Err(e);
                    },
                }
                i += 1;
            }
            Ok(values)
        },
        _ => Err(DecodeError::TypeMismatch { found: d.kind(), expected: Expected::Sequence }),
    }
}

/// Reads a property list from a mapping, pair by pair. A key has to be a
/// string and its value a value; the first pair that fails ends the reading
/// with its error. A key that comes again replaces the value it had, so the
/// list that comes out holds no key twice.
pub fn decode_properties(d: &Datum) -> (r: Result<Vec<(String, Value)>, DecodeError>)
    ensures
        r matches Ok(entries) ==> keys_distinct(properties_model(entries@)),
        match r {
            Ok(entries) => decoded_properties(d@) == Ok::<
                Seq<(Seq<char>, ValueModel)>,
                DecodeErrorModel,
            >(properties_model(entries@)),
            Err(e) => decoded_properties(d@) == Err::<
                Seq<(Seq<char>, ValueModel)>,
                DecodeErrorModel,
            >(e@),
        },
{
    proof {
        decoded_properties_have_distinct_keys(d@);
    }
    match d {
        Datum::Mapping(pairs) => {
            let ghost all = pairs_model(pairs@);
            proof {
                Datum::mapping_model(*pairs);
            }
            let mut entries: Vec<(String, Value)> = Vec::new();
            let mut i: usize = 0;
            assert(properties_model(entries@) =~= Seq::empty());
            while i < pairs.len()
                invariant
                    i <= pairs.len(),
                    d@ == DatumModel::Mapping(all),
                    all == pairs_model(pairs@),
                    decoded_properties_upto(all, i as nat) == Ok::<
                        Seq<(Seq<char>, ValueModel)>,
                        DecodeErrorModel,
                    >(properties_model(entries@)),
                decreases pairs.len() - i,
            {
                let key = match decode_text(&pairs[i].0) {
                    Ok(key) => key,
                    Err(e) => {
                        proof {
                            assert(decoded_properties_upto(all, (i + 1) as nat) is Err);
                            properties_failure_persists(all, (i + 1) as nat, all.len());
                        }
                        return Err(e);
                    },
                };
                let value = match Value::decode(&pairs[i].1) {
                    Ok(value) => value,
                    Err(e) => {
                        proof {
                            assert(decoded_properties_upto(all, (i + 1) as nat) is Err);
                            properties_failure_persists(all, (i + 1) as nat, all.len());
                        }
                        return Err(e);
                    },
                };
                put_property(&mut entries, key, value);
                i += 1;
            }
            Ok(entries)
        },
        _ => Err(DecodeError::TypeMismatch { found: d.kind(), expected: Expected::Mapping }),
    }
}

} // verus!
