//! The collecting state of a mapping: at which pair each field was found.

use vstd::prelude::*;
use crate::error::{DecodeError, DecodeErrorModel};
use crate::field::Field;

verus! {

/// For each of the four fields, the index of the pair of a mapping that
/// supplied it, if one did.
///
/// Reading a mapping has two steps. While collecting, each key is noted
/// here, and a field that comes a second time is refused at once. Finalizing
/// then asks which field is missing first, before any value is read.
#[derive(Clone, Copy, Debug, PartialEq, Eq)]
pub struct Places {
    pub name: Option<usize>,
    pub values: Option<usize>,
    pub properties: Option<usize>,
    pub children: Option<usize>,
}

/// What [`Places`] is, as a mathematical value.
pub struct PlacesModel {
    pub name: Option<int>,
    pub values: Option<int>,
    pub properties: Option<int>,
    pub children: Option<int>,
}

/// An index as a mathematical integer, where there is one.
pub open spec fn place_model(place: Option<usize>) -> Option<int> {
    match place {
        Some(at) => Some(at as int),
        None => None,
    }
}

impl View for Places {
    type V = PlacesModel;

    open spec fn view(&self) -> PlacesModel {
        PlacesModel {
            name: place_model(self.name),
            values: place_model(self.values),
            properties: place_model(self.properties),
            children: place_model(self.children),
        }
    }
}

impl PlacesModel {
    /// The state in which no field was found yet.
    pub open spec fn empty() -> PlacesModel {
        PlacesModel { name: None, values: None, properties: None, children: None }
    }

    /// Where `field` was found, if it was.
    pub open spec fn of(self, field: Field) -> Option<int> {
        match field {
            Field::Name => self.name,
            Field::Values => self.values,
            Field::Properties => self.properties,
            Field::Children => self.children,
        }
    }

    /// Whether `field` was found.
    pub open spec fn holds(self, field: Field) -> bool {
        self.of(field) is Some
    }

    /// This state with `field` found at `at`.
    pub open spec fn with(self, field: Field, at: int) -> PlacesModel {
        match field {
            Field::Name => PlacesModel { name: Some(at), ..self },
            Field::Values => PlacesModel { values: Some(at), ..self },
            Field::Properties => PlacesModel { properties: Some(at), ..self },
            Field::Children => PlacesModel { children: Some(at), ..self },
        }
    }

    /// The state after `field` came at `at`: a field that was found before
    /// is a duplicate.
    pub open spec fn noted(self, field: Field, at: int) -> Result<PlacesModel, DecodeErrorModel> {
        if self.holds(field) {
            Err(DecodeErrorModel::DuplicateField { field })
        } else {
            Ok(self.with(field, at))
        }
    }

    /// Whether `field` has a pair among the first `len`.
    pub open spec fn supplied(self, field: Field, len: nat) -> bool {
        self.of(field) matches Some(at) && 0 <= at < len
    }

    /// The first field, in the fixed order of the four, that has no pair
    /// among the `len` pairs of the mapping.
    pub open spec fn first_missing(self, len: nat) -> Option<Field> {
        if !self.supplied(Field::Name, len) {
            Some(Field::Name)
        } else if !self.supplied(Field::Values, len) {
            Some(Field::Values)
        } else if !self.supplied(Field::Properties, len) {
            Some(Field::Properties)
        } else if !self.supplied(Field::Children, len) {
            Some(Field::Children)
        } else {
            None
        }
    }
}

impl Places {
    /// The state in which no field was found yet.
    pub fn new() -> (places: Places)
        ensures
            places@ == PlacesModel::empty(),
    {
        Places { name: None, values: None, properties: None, children: None }
    }

    /// Where `field` was found, if it was.
    pub fn of(&self, field: Field) -> (place: Option<usize>)
        ensures
            place_model(place) == self@.of(field),
    {
        match field {
            Field::Name => self.name,
            Field::Values => self.values,
            Field::Properties => self.properties,
            Field::Children => self.children,
        }
    }

    /// Whether `field` was found.
    pub fn holds(&self, field: Field) -> (held: bool)
        ensures
            held == self@.holds(field),
    {
        self.of(field).is_some()
    }

    /// Notes that `field` came at `at`. A field that was found before is a
    /// duplicate, wherever it comes again.
    pub fn note(self, field: Field, at: usize) -> (r: Result<Places, DecodeError>)
        ensures
            match r {
                Ok(places) => self@.noted(field, at as int) == Ok::<PlacesModel, DecodeErrorModel>(
                    places@,
                ),
                Err(e) => self@.noted(field, at as int) == Err::<PlacesModel, DecodeErrorModel>(
                    e@,
                ),
            },
    {
        if self.holds(field) {
            return Err(DecodeError::DuplicateField { field });
        }
        let Places { name, values, properties, children } = self;
        Ok(
            match field {
                Field::Name => Places { name: Some(at), values, properties, children },
                Field::Values => Places { name, values: Some(at), properties, children },
                Field::Properties => Places { name, values, properties: Some(at), children },
                Field::Children => Places { name, values, properties, children: Some(at) },
            },
        )
    }

    /// The first field, in the fixed order of the four, that has no pair
    /// among the `len` pairs of the mapping.
    pub fn first_missing(&self, len: usize) -> (missing: Option<Field>)
        ensures
            missing == self@.first_missing(len as nat),
    {
        let fields = Field::all();
        let mut i: usize = 0;
        while i < 4
            invariant
                i <= 4,
                fields@ == Field::all_spec(),
                forall|k: int| 0 <= k < i ==> self@.supplied(#[trigger] fields@[k], len as nat),
            decreases 4 - i,
        {
            let supplied = match self.of(fields[i]) {
                Some(at) => at < len,
                None => false,
            };
            if !supplied {
                return Some(fields[i]);
            }
            i += 1;
        }
        assert(self@.supplied(fields@[0], len as nat));
        assert(self@.supplied(fields@[1], len as nat));
        assert(self@.supplied(fields@[2], len as nat));
        assert(self@.supplied(fields@[3], len as nat));
        None
    }
}

} // verus!
