//! Reading a node from either of the two shapes in which a record arrives:
//! a positional sequence or a mapping keyed by field name.
//!
//! Either shape is read in two steps. Collecting takes the four raw fields
//! out of the sequence or the mapping and checks only the shape: how many
//! items there are, which keys come and how often. Finalizing, the same for
//! both shapes, then reads the four raw fields in their fixed order. So a
//! fault of the shape is always found before a fault of a value.

use vstd::prelude::*;
use crate::datum::{data_model, pairs_model, Datum, DatumModel};
use crate::error::{DecodeError, DecodeErrorModel, Expected};
use crate::field::Field;
use crate::laws::decoded_node_is_well_formed;
use crate::node::{nodes_model, Node, NodeModel};
use crate::parts::{
    decode_properties,
    decode_text,
    decode_values,
    decoded_properties,
    decoded_text,
    decoded_values,
    mismatch,
};
use crate::places::{Places, PlacesModel};

verus! {

/// The node that a datum stands for, or the reason why it stands for none.
///
/// A sequence is read by position, a mapping by field name. Nothing else is
/// a node.
pub open spec fn decoded_node(d: DatumModel) -> Result<NodeModel, DecodeErrorModel>
    decreases d, 0nat,
{
    match d {
        DatumModel::Sequence(items) => decoded_positional(items),
        DatumModel::Mapping(pairs) => decoded_keyed(pairs),
        _ => Err(mismatch(d, Expected::Node)),
    }
}

/// The node that four raw fields make up.
///
/// The fields are read in their fixed order: the name as text, the values as
/// a list of values, the properties as a property list, the children as a
/// list of nodes. The first one that cannot be read fails with its error.
pub open spec fn decoded_parts(
    name: DatumModel,
    values: DatumModel,
    properties: DatumModel,
    children: DatumModel,
) -> Result<NodeModel, DecodeErrorModel>
    decreases children, 1nat,
{
    match decoded_text(name) {
        Err(e) => Err(e),
        Ok(name) => match decoded_values(values) {
            Err(e) => Err(e),
            Ok(values) => match decoded_properties(properties) {
                Err(e) => Err(e),
                Ok(properties) => match decoded_children(children) {
                    Err(e) => Err(e),
                    Ok(children) => Ok(NodeModel { name, values, properties, children }),
                },
            },
        },
    }
}

/// The node that a positional sequence stands for: name, values, properties
/// and children at the places 0 to 3.
///
/// A sequence of fewer than four items fails with the arity error for the
/// first place at which nothing stands, whatever the items are. What follows
/// the fourth item is ignored.
pub open spec fn decoded_positional(items: Seq<DatumModel>) -> Result<NodeModel, DecodeErrorModel>
    decreases items, 0nat,
{
    if items.len() < 4 {
        Err(DecodeErrorModel::Arity { position: items.len() })
    } else {
        decoded_parts(items[0], items[1], items[2], items[3])
    }
}

/// The list of nodes that a datum stands for: a sequence, item by item.
pub open spec fn decoded_children(d: DatumModel) -> Result<Seq<NodeModel>, DecodeErrorModel>
    decreases d, 0nat,
{
    match d {
        DatumModel::Sequence(items) => decoded_nodes_upto(items, items.len()),
        _ => Err(mismatch(d, Expected::Sequence)),
    }
}

/// The nodes that the first `upto` items stand for, in order, or the error
/// of the first item that stands for none.
pub open spec fn decoded_nodes_upto(items: Seq<DatumModel>, upto: nat) -> Result<
    Seq<NodeModel>,
    DecodeErrorModel,
>
    decreases items, upto,
{
    if upto == 0 || upto > items.len() {
        Ok(Seq::empty())
    } else {
        match decoded_nodes_upto(items, (upto - 1) as nat) {
            Err(e) => Err(e),
            Ok(front) => match decoded_node(items[upto - 1]) {
                Err(e) => Err(e),
                Ok(node) => Ok(front.push(node)),
            },
        }
    }
}

/// Where the fields stand among the first `upto` pairs of a mapping, or the
/// error of the first pair that is refused: one whose key is no string or
/// names no field, or one that names a field a second time. No value is
/// read.
pub open spec fn collected(pairs: Seq<(DatumModel, DatumModel)>, upto: nat) -> Result<
    PlacesModel,
    DecodeErrorModel,
>
    decreases upto,
{
    if upto == 0 {
        Ok(PlacesModel::empty())
    } else {
        match collected(pairs, (upto - 1) as nat) {
            Err(e) => Err(e),
            Ok(places) => match Field::of_datum(pairs[upto - 1].0) {
                Err(e) => Err(e),
                Ok(field) => places.noted(field, upto - 1),
            },
        }
    }
}

/// The node that a mapping keyed by field name stands for.
///
/// The keys are taken in the order in which they come. A key that names no
/// field and a field that comes a second time each fail at once. When all
/// keys are taken, the first field that never came is missing. Only then
/// are the four values read, in the fixed order of the fields.
pub open spec fn decoded_keyed(pairs: Seq<(DatumModel, DatumModel)>) -> Result<
    NodeModel,
    DecodeErrorModel,
>
    decreases pairs, 0nat,
{
    match collected(pairs, pairs.len()) {
        Err(e) => Err(e),
        Ok(places) => match places.first_missing(pairs.len()) {
            Some(field) => Err(DecodeErrorModel::MissingField { field }),
            None => decoded_parts(
                pairs[places.name->Some_0].1,
                pairs[places.values->Some_0].1,
                pairs[places.properties->Some_0].1,
                pairs[places.children->Some_0].1,
            ),
        },
    }
}

/// Once a prefix of the items has failed, every longer prefix fails with the
/// same error.
pub proof fn nodes_failure_persists(items: Seq<DatumModel>, failed: nat, upto: nat)
    requires
        failed <= upto <= items.len(),
        decoded_nodes_upto(items, failed) is Err,
    ensures
        decoded_nodes_upto(items, upto) == decoded_nodes_upto(items, failed),
    decreases upto,
{
    if failed < upto {
        nodes_failure_persists(items, failed, (upto - 1) as nat);
    }
}

/// Once a prefix of the pairs was refused, every longer prefix is refused
/// with the same error.
pub proof fn collecting_failure_persists(
    pairs: Seq<(DatumModel, DatumModel)>,
    failed: nat,
    upto: nat,
)
    requires
        failed <= upto,
        collected(pairs, failed) is Err,
    ensures
        collected(pairs, upto) == collected(pairs, failed),
    decreases upto,
{
    if failed < upto {
        collecting_failure_persists(pairs, failed, (upto - 1) as nat);
    }
}

/// Every place that was noted among the first `upto` pairs is one of them,
/// and the key that stands there names the field.
pub proof fn collected_places_are_pairs(pairs: Seq<(DatumModel, DatumModel)>, upto: nat)
    ensures
        collected(pairs, upto) matches Ok(places) ==> forall|field: Field|
            #![trigger places.of(field)]
            places.of(field) matches Some(at) ==> 0 <= at < upto && Field::of_datum(pairs[at].0)
                == Ok::<Field, DecodeErrorModel>(field),
    decreases upto,
{
    if upto > 0 {
        collected_places_are_pairs(pairs, (upto - 1) as nat);
        if let Ok(places) = collected(pairs, upto) {
            let before = collected(pairs, (upto - 1) as nat)->Ok_0;
            let came = Field::of_datum(pairs[upto - 1].0)->Ok_0;
            assert(places == before.with(came, upto - 1));
            assert forall|field: Field| #![trigger places.of(field)]
                places.of(field) is Some implies 0 <= places.of(field)->Some_0 < upto
                && Field::of_datum(pairs[places.of(field)->Some_0].0) == Ok::<
                Field,
                DecodeErrorModel,
            >(field) by {
                if field != came {
                    assert(places.of(field) == before.of(field));
                }
            }
        }
    }
}

/// Reads a list of nodes from a sequence, in order. The first item that is
/// no node ends the reading with its error.
pub fn decode_children(d: &Datum) -> (r: Result<Vec<Node>, DecodeError>)
    ensures
        match r {
            Ok(nodes) => decoded_children(d@) == Ok::<Seq<NodeModel>, DecodeErrorModel>(
                nodes_model(nodes@),
            ),
            Err(e) => decoded_children(d@) == Err::<Seq<NodeModel>, DecodeErrorModel>(e@),
        },
    decreases d, 0nat,
{
    match d {
        Datum::Sequence(items) => {
            let ghost all = data_model(items@);
            proof {
                Datum::sequence_model(*items);
            }
            let mut nodes: Vec<Node> = Vec::new();
            let mut i: usize = 0;
            assert(nodes_model(nodes@) =~= Seq::empty());
            while i < items.len()
                invariant
                    i <= items.len(),
                    d@ == DatumModel::Sequence(all),
                    all == data_model(items@),
                    decreases_to!(d => items),
                    decoded_nodes_upto(all, i as nat) == Ok::<Seq<NodeModel>, DecodeErrorModel>(
                        nodes_model(nodes@),
                    ),
                decreases items.len() - i,
            {
                match Node::decode(&items[i]) {
                    Ok(node) => {
                        let ghost before = nodes@;
                        nodes.push(node);
                        assert(nodes_model(nodes@) =~= nodes_model(before).push(node@));
                    },
                    Err(e) => {
                        proof {
                            assert(decoded_nodes_upto(all, (i + 1) as nat) is Err);
                            nodes_failure_persists(all, (i + 1) as nat, all.len());
                        }
                        return Err(e);
                    },
                }
                i += 1;
            }
            Ok(nodes)
        },
        _ => Err(DecodeError::TypeMismatch { found: d.kind(), expected: Expected::Sequence }),
    }
}

/// Collects the fields of a mapping: notes for each key, in the order in
/// which the keys come, which field it names. The first key that is no
/// string or names no field, or that names a field a second time, ends the
/// collecting with its error. No value is read.
pub fn collect(pairs: &Vec<(Datum, Datum)>) -> (r: Result<Places, DecodeError>)
    ensures
        match r {
            Ok(places) => collected(pairs_model(pairs@), pairs.len() as nat) == Ok::<
                PlacesModel,
                DecodeErrorModel,
            >(places@),
            Err(e) => collected(pairs_model(pairs@), pairs.len() as nat) == Err::<
                PlacesModel,
                DecodeErrorModel,
            >(e@),
        },
{
    let ghost all = pairs_model(pairs@);
    let mut places = Places::new();
    let mut i: usize = 0;
    while i < pairs.len()
        invariant
            i <= pairs.len(),
            all == pairs_model(pairs@),
            collected(all, i as nat) == Ok::<PlacesModel, DecodeErrorModel>(places@),
        decreases pairs.len() - i,
    {
        assert(all[i as int].0 == pairs[i as int].0@);
        let field = match Field::from_datum(&pairs[i].0) {
            Ok(field) => field,
            Err(e) => {
                proof {
                    assert(collected(all, (i + 1) as nat) is Err);
                    collecting_failure_persists(all, (i + 1) as nat, all.len());
                }
                return Err(e);
            },
        };
        places = match places.note(field, i) {
            Ok(next) => next,
            Err(e) => {
                proof {
                    assert(collected(all, (i + 1) as nat) is Err);
                    collecting_failure_persists(all, (i + 1) as nat, all.len());
                }
                return Err(e);
            },
        };
        i += 1;
    }
    Ok(places)
}

impl Node {
    /// Reads a node from an incoming datum, whichever of the two shapes it
    /// has. The node that comes out is well formed.
    pub fn decode(d: &Datum) -> (r: Result<Node, DecodeError>)
        ensures
            match r {
                Ok(node) => decoded_node(d@) == Ok::<NodeModel, DecodeErrorModel>(node@),
                Err(e) => decoded_node(d@) == Err::<NodeModel, DecodeErrorModel>(e@),
            },
            r matches Ok(node) ==> node@.well_formed(),
        decreases d, 0nat,
    {
        proof {
            decoded_node_is_well_formed(d@);
        }
        match d {
            Datum::Sequence(items) => {
                proof {
                    Datum::sequence_model(*items);
                }
                Node::decode_positional(items)
            },
            Datum::Mapping(pairs) => {
                proof {
                    Datum::mapping_model(*pairs);
                }
                Node::decode_keyed(pairs)
            },
            _ => Err(DecodeError::TypeMismatch { found: d.kind(), expected: Expected::Node }),
        }
    }

    /// Finalizes a node: reads its four raw fields in their fixed order.
    /// The first one that cannot be read ends the reading with its error.
    pub fn from_parts(name: &Datum, values: &Datum, properties: &Datum, children: &Datum) -> (r:
        Result<Node, DecodeError>)
        ensures
            match r {
                Ok(node) => decoded_parts(name@, values@, properties@, children@) == Ok::<
                    NodeModel,
                    DecodeErrorModel,
                >(node@),
                Err(e) => decoded_parts(name@, values@, properties@, children@) == Err::<
                    NodeModel,
                    DecodeErrorModel,
                >(e@),
            },
        decreases children, 1nat,
    {
        let name = match decode_text(name) {
            Err(e) => { return Err(e); },
            Ok(name) => name,
        };
        let values = match decode_values(values) {
            Err(e) => { return Err(e); },
            Ok(values) => values,
        };
        let properties = match decode_properties(properties) {
            Err(e) => { return Err(e); },
            Ok(properties) => properties,
        };
        let children = match decode_children(children) {
            Err(e) => { return Err(e); },
            Ok(children) => children,
        };
        let node = Node { name, values, properties, children };
        proof {
            node.model_children();
        }
        Ok(node)
    }

    /// Reads a node from a positional sequence: name, values, properties and
    /// children at the places 0 to 3. A sequence of fewer than four items is
    /// refused before any item is read.
    pub fn decode_positional(items: &Vec<Datum>) -> (r: Result<Node, DecodeError>)
        ensures
            match r {
                Ok(node) => decoded_positional(data_model(items@)) == Ok::<
                    NodeModel,
                    DecodeErrorModel,
                >(node@),
                Err(e) => decoded_positional(data_model(items@)) == Err::<
                    NodeModel,
                    DecodeErrorModel,
                >(e@),
            },
            r matches Ok(node) ==> node@.well_formed(),
        decreases items, 0nat,
    {
        let ghost all = data_model(items@);
        proof {
            decoded_node_is_well_formed(DatumModel::Sequence(all));
        }
        if items.len() < 4 {
            return Err(DecodeError::Arity { position: items.len() });
        }
        assert(all[0] == items[0]@ && all[1] == items[1]@ && all[2] == items[2]@ && all[3]
            == items[3]@);
        Node::from_parts(&items[0], &items[1], &items[2], &items[3])
    }

    /// Reads a node from a mapping keyed by field name. The keys are
    /// collected first, then the first missing field is looked for, and only
    /// then are the four values read.
    pub fn decode_keyed(pairs: &Vec<(Datum, Datum)>) -> (r: Result<Node, DecodeError>)
        ensures
            match r {
                Ok(node) => decoded_keyed(pairs_model(pairs@)) == Ok::<NodeModel, DecodeErrorModel>(
                    node@,
                ),
                Err(e) => decoded_keyed(pairs_model(pairs@)) == Err::<NodeModel, DecodeErrorModel>(
                    e@,
                ),
            },
            r matches Ok(node) ==> node@.well_formed(),
        decreases pairs, 0nat,
    {
        let ghost all = pairs_model(pairs@);
        proof {
            decoded_node_is_well_formed(DatumModel::Mapping(all));
        }
        let places = match collect(pairs) {
            Err(e) => { return Err(e); },
            Ok(places) => places,
        };
        match places.first_missing(pairs.len()) {
            Some(field) => Err(DecodeError::MissingField { field }),
            None => {
                let name = places.name.unwrap();
                let values = places.values.unwrap();
                let properties = places.properties.unwrap();
                let children = places.children.unwrap();
                assert(all[name as int].1 == pairs[name as int].1@);
                assert(all[values as int].1 == pairs[values as int].1@);
                assert(all[properties as int].1 == pairs[properties as int].1@);
                assert(all[children as int].1 == pairs[children as int].1@);
                Node::from_parts(
                    &pairs[name].1,
                    &pairs[values].1,
                    &pairs[properties].1,
                    &pairs[children].1,
                )
            },
        }
    }
}

} // verus!
