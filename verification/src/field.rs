//! The four fields of a node record and their names.

use vstd::prelude::*;
use crate::datum::{Datum, DatumModel};
use crate::error::{DecodeError, DecodeErrorModel, Expected};

verus! {

/// One of the four fields of a node, in their fixed order.
#[derive(Clone, Copy, Debug, PartialEq, Eq, Structural)]
pub enum Field {
    Name,
    Values,
    Properties,
    Children,
}

impl Field {
    /// The name by which a record or a mapping refers to this field.
    pub open spec fn name_spec(self) -> Seq<char> {
        match self {
            Field::Name => "name"@,
            Field::Values => "values"@,
            Field::Properties => "properties"@,
            Field::Children => "children"@,
        }
    }

    /// The place of this field in a positional sequence, counted from 0.
    pub open spec fn position_spec(self) -> nat {
        match self {
            Field::Name => 0,
            Field::Values => 1,
            Field::Properties => 2,
            Field::Children => 3,
        }
    }

    /// The field that `key` names, if it names one.
    pub open spec fn named(key: Seq<char>) -> Option<Field> {
        if key == Field::Name.name_spec() {
            Some(Field::Name)
        } else if key == Field::Values.name_spec() {
            Some(Field::Values)
        } else if key == Field::Properties.name_spec() {
            Some(Field::Properties)
        } else if key == Field::Children.name_spec() {
            Some(Field::Children)
        } else {
            None
        }
    }

    /// The four names have four different lengths, so no two fields share a
    /// name, and each name leads back to its field.
    pub proof fn names_are_distinct()
        ensures
            Field::Name.name_spec().len() == 4,
            Field::Values.name_spec().len() == 6,
            Field::Properties.name_spec().len() == 10,
            Field::Children.name_spec().len() == 8,
            forall|f: Field| #[trigger] Field::named(f.name_spec()) == Some(f),
    {
        reveal_strlit("name");
        reveal_strlit("values");
        reveal_strlit("properties");
        reveal_strlit("children");
        assert("name"@.len() == 4);
        assert("values"@.len() == 6);
        assert("properties"@.len() == 10);
        assert("children"@.len() == 8);
    }

    /// The name by which a record or a mapping refers to this field.
    pub fn name(self) -> (s: &'static str)
        ensures
            s@ == self.name_spec(),
    {
        match self {
            Field::Name => "name",
            Field::Values => "values",
            Field::Properties => "properties",
            Field::Children => "children",
        }
    }

    /// The place of this field in a positional sequence, counted from 0.
    pub fn position(self) -> (p: usize)
        ensures
            p == self.position_spec(),
    {
        match self {
            Field::Name => 0,
            Field::Values => 1,
            Field::Properties => 2,
            Field::Children => 3,
        }
    }

    /// The four fields in their fixed order.
    pub open spec fn all_spec() -> Seq<Field> {
        seq![Field::Name, Field::Values, Field::Properties, Field::Children]
    }

    /// The four fields in their fixed order.
    pub fn all() -> (fields: [Field; 4])
        ensures
            fields@ == Field::all_spec(),
    {
        [Field::Name, Field::Values, Field::Properties, Field::Children]
    }

    /// The field that `key` names, or the unknown-field error that holds
    /// the key and lists the four fields that a key may name.
    pub open spec fn parsed(key: Seq<char>) -> Result<Field, DecodeErrorModel> {
        match Field::named(key) {
            Some(field) => Ok(field),
            None => Err(DecodeErrorModel::UnknownField { key, valid: Field::all_spec() }),
        }
    }

    /// The field that a key of a mapping names. The key has to be a string.
    pub open spec fn of_datum(key: DatumModel) -> Result<Field, DecodeErrorModel> {
        match key {
            DatumModel::Str(s) => Field::parsed(s),
            _ => Err(
                DecodeErrorModel::TypeMismatch { found: key.kind(), expected: Expected::FieldName },
            ),
        }
    }

    /// Finds the field that `key` names. A key that names none of the four
    /// is an unknown field; the error holds the key and lists the four.
    pub fn from_key(key: &str) -> (r: Result<Field, DecodeError>)
        ensures
            match r {
                Ok(field) => Field::parsed(key@) == Ok::<Field, DecodeErrorModel>(field),
                Err(e) => Field::parsed(key@) == Err::<Field, DecodeErrorModel>(e@),
            },
    {
        let key: String = key.to_owned();
        if key == Field::Name.name().to_owned() {
            Ok(Field::Name)
        } else if key == Field::Values.name().to_owned() {
            Ok(Field::Values)
        } else if key == Field::Properties.name().to_owned() {
            Ok(Field::Properties)
        } else if key == Field::Children.name().to_owned() {
            Ok(Field::Children)
        } else {
            Err(DecodeError::UnknownField { key, valid: Field::all() })
        }
    }

    /// Finds the field that a key of a mapping names.
    pub fn from_datum(key: &Datum) -> (r: Result<Field, DecodeError>)
        ensures
            match r {
                Ok(field) => Field::of_datum(key@) == Ok::<Field, DecodeErrorModel>(field),
                Err(e) => Field::of_datum(key@) == Err::<Field, DecodeErrorModel>(e@),
            },
    {
        match key {
            Datum::Str(s) => Field::from_key(s.as_str()),
            _ => Err(DecodeError::TypeMismatch { found: key.kind(), expected: Expected::FieldName }),
        }
    }
}

} // verus!
