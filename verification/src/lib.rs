//! Two-way adapter between a tree of document nodes and a generic
//! serialization data model.
//!
//! A document is a tree of named nodes. Each node carries an ordered list of
//! scalar values, a set of named properties and an ordered list of child
//! nodes. The serialization data model describes any value as a primitive, an
//! option, a sequence, a mapping or a record of named fields.
//!
//! [`Value`] maps a scalar to and from the model's primitives. [`Node`] maps a
//! node to a record of four fields and reads it back from either of the two
//! shapes in which a format may present a record: a positional sequence or a
//! mapping keyed by field name. Every conversion is a total function, and the
//! contracts state its result exactly.
//!
//! A float is held as the 64 bits of its encoding wherever it occurs, and
//! the properties of a node as a list with one entry per key.
//!
//! The module [`laws`] proves what holds of the conversions together: that
//! decoding gives back what was encoded, through either shape and with the
//! fields of a mapping in any order, and when and how decoding fails.

pub mod datum;
pub mod decode;
pub mod error;
pub mod field;
pub mod laws;
pub mod node;
pub mod parts;
pub mod places;
pub mod properties;
pub mod value;
pub mod wire;

pub use datum::{Datum, DatumModel, Kind};
pub use error::{DecodeError, DecodeErrorModel, Expected};
pub use field::Field;
pub use node::{Node, NodeModel};
pub use places::{Places, PlacesModel};
pub use value::{Value, ValueModel};
