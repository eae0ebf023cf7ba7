//! Why a datum could not be read as a value or as a node.

use vstd::prelude::*;
use crate::datum::Kind;
use crate::field::Field;

verus! {

/// What a decoder was prepared to accept at the place where it failed.
#[derive(Clone, Copy, Debug, PartialEq, Eq, Structural)]
pub enum Expected {
    /// A scalar value: a boolean, a signed 64-bit or an unsigned 32-bit
    /// integer, a 64-bit float, a string, an optional or the unit.
    Value,
    /// A string.
    Text,
    /// A sequence.
    Sequence,
    /// A mapping.
    Mapping,
    /// A node, as a positional sequence or as a mapping keyed by field name.
    Node,
    /// A string that names a field.
    FieldName,
}

/// The ways in which decoding fails.
#[derive(Debug, PartialEq, Eq)]
pub enum DecodeError {
    /// A positional sequence ended before `position`, counted from 0.
    Arity { position: usize },
    /// A mapping held a key that names none of the four fields; `valid`
    /// lists those that a key may name.
    UnknownField { key: String, valid: [Field; 4] },
    /// A mapping supplied `field` a second time.
    DuplicateField { field: Field },
    /// A mapping ended without having supplied `field`.
    MissingField { field: Field },
    /// A datum of kind `found` stood where `expected` was needed.
    TypeMismatch { found: Kind, expected: Expected },
}

/// What a [`DecodeError`] is, as a mathematical value.
pub enum DecodeErrorModel {
    Arity { position: nat },
    UnknownField { key: Seq<char>, valid: Seq<Field> },
    DuplicateField { field: Field },
    MissingField { field: Field },
    TypeMismatch { found: Kind, expected: Expected },
}

impl View for DecodeError {
    type V = DecodeErrorModel;

    open spec fn view(&self) -> DecodeErrorModel {
        match self {
            DecodeError::Arity { position } => DecodeErrorModel::Arity { position: *position as nat },
            DecodeError::UnknownField { key, valid } => DecodeErrorModel::UnknownField {
                key: key@,
                valid: valid@,
            },
            DecodeError::DuplicateField { field } => DecodeErrorModel::DuplicateField {
                field: *field,
            },
            DecodeError::MissingField { field } => DecodeErrorModel::MissingField { field: *field },
            DecodeError::TypeMismatch { found, expected } => DecodeErrorModel::TypeMismatch {
                found: *found,
                expected: *expected,
            },
        }
    }
}

impl Clone for DecodeError {
    /// A copy that holds the same content.
    fn clone(&self) -> (copy: DecodeError)
        ensures
            copy@ == self@,
    {
        match self {
            DecodeError::Arity { position } => DecodeError::Arity { position: *position },
            DecodeError::UnknownField { key, valid } => DecodeError::UnknownField {
                key: key.clone(),
                valid: *valid,
            },
            DecodeError::DuplicateField { field } => DecodeError::DuplicateField { field: *field },
            DecodeError::MissingField { field } => DecodeError::MissingField { field: *field },
            DecodeError::TypeMismatch { found, expected } => DecodeError::TypeMismatch {
                found: *found,
                expected: *expected,
            },
        }
    }
}

} // verus!
