//! What holds of encoding followed by decoding, and of the ways in which
//! decoding fails.

use vstd::prelude::*;
use crate::datum::DatumModel;
use crate::decode::{
    collected,
    collected_places_are_pairs,
    collecting_failure_persists,
    decoded_children,
    decoded_keyed,
    decoded_node,
    decoded_nodes_upto,
    decoded_parts,
    decoded_positional,
};
use crate::error::DecodeErrorModel;
use crate::field::Field;
use crate::node::{encoded_node, encoded_properties, encoded_values, NodeModel};
use crate::parts::{
    decoded_properties,
    decoded_properties_upto,
    decoded_text,
    decoded_values,
    decoded_values_upto,
};
use crate::properties::{
    first_with_key,
    keys_distinct,
    with_property,
    with_property_keeps_keys_distinct,
};
use crate::places::PlacesModel;
use crate::value::{decoded_value, encoded_value, value_round_trip, ValueModel};

verus! {

/// Decoding the sequence that a list of values was encoded to gives the
/// list back.
pub proof fn values_round_trip(values: Seq<ValueModel>)
    ensures
        decoded_values(encoded_values(values)) == Ok::<Seq<ValueModel>, DecodeErrorModel>(values),
{
    values_prefix_round_trip(values, values.len());
    assert(values.take(values.len() as int) =~= values);
}

proof fn values_prefix_round_trip(values: Seq<ValueModel>, upto: nat)
    requires
        upto <= values.len(),
    ensures
        decoded_values_upto(encoded_values(values)->Sequence_0, upto) == Ok::<
            Seq<ValueModel>,
            DecodeErrorModel,
        >(values.take(upto as int)),
    decreases upto,
{
    if upto == 0 {
        assert(values.take(0) =~= Seq::empty());
    } else {
        values_prefix_round_trip(values, (upto - 1) as nat);
        value_round_trip(values[upto - 1]);
        assert(values.take(upto as int) =~= values.take(upto - 1).push(values[upto - 1]));
    }
}

/// Decoding the mapping that a property list was encoded to gives the list
/// back, entry for entry, where no key occurs twice in it.
pub proof fn properties_round_trip(entries: Seq<(Seq<char>, ValueModel)>)
    requires
        keys_distinct(entries),
    ensures
        decoded_properties(encoded_properties(entries)) == Ok::<
            Seq<(Seq<char>, ValueModel)>,
            DecodeErrorModel,
        >(entries),
{
    properties_prefix_round_trip(entries, entries.len());
    assert(entries.take(entries.len() as int) =~= entries);
}

proof fn properties_prefix_round_trip(entries: Seq<(Seq<char>, ValueModel)>, upto: nat)
    requires
        keys_distinct(entries),
        upto <= entries.len(),
    ensures
        decoded_properties_upto(encoded_properties(entries)->Mapping_0, upto) == Ok::<
            Seq<(Seq<char>, ValueModel)>,
            DecodeErrorModel,
        >(entries.take(upto as int)),
    decreases upto,
{
    if upto == 0 {
        assert(entries.take(0) =~= Seq::empty());
    } else {
        properties_prefix_round_trip(entries, (upto - 1) as nat);
        let front = entries.take(upto - 1);
        let entry = entries[upto - 1];
        value_round_trip(entry.1);
        assert forall|i: int| !first_with_key(front, entry.0, i) by {
            if 0 <= i < front.len() {
                assert(front[i] == entries[i]);
                assert(entries[i].0 != entries[upto - 1].0);
            }
        }
        assert(with_property(front, entry.0, entry.1) == front.push(entry));
        assert(entries.take(upto as int) =~= front.push(entry));
    }
}

/// Whether `d` presents the node `n`, as a positional sequence or as a
/// mapping keyed by field name.
///
/// A positional sequence holds the name, the values, the properties and the
/// children at its first four places. A mapping holds exactly four pairs,
/// one for each field, in any order. Either way each child is presented in
/// turn, in one shape or the other.
pub open spec fn presents(d: DatumModel, n: NodeModel) -> bool
    decreases n,
{
    match d {
        DatumModel::Sequence(items) => {
            &&& items.len() >= 4
            &&& items[0] == DatumModel::Str(n.name)
            &&& items[1] == encoded_values(n.values)
            &&& items[2] == encoded_properties(n.properties)
            &&& items[3] matches DatumModel::Sequence(kids)
            &&& kids.len() == n.children.len()
            &&& forall|j: int|
                0 <= j < n.children.len() ==> presents(#[trigger] kids[j], n.children[j])
        },
        DatumModel::Mapping(pairs) => {
            &&& pairs.len() == 4
            &&& pairs.contains((DatumModel::Str(Field::Name.name_spec()), DatumModel::Str(n.name)))
            &&& pairs.contains(
                (DatumModel::Str(Field::Values.name_spec()), encoded_values(n.values)),
            )
            &&& pairs.contains(
                (DatumModel::Str(Field::Properties.name_spec()), encoded_properties(n.properties)),
            )
            &&& exists|kids: Seq<DatumModel>|
                {
                    &&& #[trigger] pairs.contains(
                        (DatumModel::Str(Field::Children.name_spec()), DatumModel::Sequence(kids)),
                    )
                    &&& kids.len() == n.children.len()
                    &&& forall|j: int|
                        0 <= j < n.children.len() ==> presents(#[trigger] kids[j], n.children[j])
                }
        },
        _ => false,
    }
}

/// Whether four places are the places 0 to 3 in some order.
pub open spec fn arrangement(name: int, values: int, properties: int, children: int) -> bool {
    &&& 0 <= name < 4
    &&& 0 <= values < 4
    &&& 0 <= properties < 4
    &&& 0 <= children < 4
    &&& name != values
    &&& name != properties
    &&& name != children
    &&& values != properties
    &&& values != children
    &&& properties != children
}

/// Whether a mapping of four pairs names the four fields at the given
/// places, each once.
pub open spec fn keys_stand_at(
    pairs: Seq<(DatumModel, DatumModel)>,
    name: int,
    values: int,
    properties: int,
    children: int,
) -> bool {
    &&& pairs.len() == 4
    &&& arrangement(name, values, properties, children)
    &&& pairs[name].0 == DatumModel::Str(Field::Name.name_spec())
    &&& pairs[values].0 == DatumModel::Str(Field::Values.name_spec())
    &&& pairs[properties].0 == DatumModel::Str(Field::Properties.name_spec())
    &&& pairs[children].0 == DatumModel::Str(Field::Children.name_spec())
}

proof fn collected_in_any_order(
    pairs: Seq<(DatumModel, DatumModel)>,
    upto: nat,
    name: int,
    values: int,
    properties: int,
    children: int,
)
    requires
        keys_stand_at(pairs, name, values, properties, children),
        upto <= 4,
    ensures
        collected(pairs, upto) == Ok::<PlacesModel, DecodeErrorModel>(
            PlacesModel {
                name: if name < upto {
                    Some(name)
                } else {
                    None
                },
                values: if values < upto {
                    Some(values)
                } else {
                    None
                },
                properties: if properties < upto {
                    Some(properties)
                } else {
                    None
                },
                children: if children < upto {
                    Some(children)
                } else {
                    None
                },
            },
        ),
    decreases upto,
{
    if upto > 0 {
        collected_in_any_order(pairs, (upto - 1) as nat, name, values, properties, children);
        Field::names_are_distinct();
        let at = upto - 1;
        if at == name {
            assert(Field::of_datum(pairs[at].0) == Ok::<Field, DecodeErrorModel>(Field::Name));
        } else if at == values {
            assert(Field::of_datum(pairs[at].0) == Ok::<Field, DecodeErrorModel>(Field::Values));
        } else if at == properties {
            assert(Field::of_datum(pairs[at].0) == Ok::<Field, DecodeErrorModel>(
                Field::Properties,
            ));
        } else {
            assert(at == children);
            assert(Field::of_datum(pairs[at].0) == Ok::<Field, DecodeErrorModel>(Field::Children));
        }
    }
}

/// The order of the pairs in a mapping does not matter: a mapping that
/// names the four fields, each once, decodes to what its four values give
/// when they are read in the fixed order of the fields, wherever each pair
/// stands. This holds of the error as well as of the node.
pub proof fn keyed_order_is_free(
    pairs: Seq<(DatumModel, DatumModel)>,
    name: int,
    values: int,
    properties: int,
    children: int,
)
    requires
        keys_stand_at(pairs, name, values, properties, children),
    ensures
        decoded_keyed(pairs) == decoded_parts(
            pairs[name].1,
            pairs[values].1,
            pairs[properties].1,
            pairs[children].1,
        ),
{
    collected_in_any_order(pairs, 4, name, values, properties, children);
}

proof fn presented_children_decode(kids: Seq<DatumModel>, n: NodeModel, upto: nat)
    requires
        n.well_formed(),
        kids.len() == n.children.len(),
        forall|j: int| 0 <= j < n.children.len() ==> presents(#[trigger] kids[j], n.children[j]),
        upto <= kids.len(),
    ensures
        decoded_nodes_upto(kids, upto) == Ok::<Seq<NodeModel>, DecodeErrorModel>(
            n.children.take(upto as int),
        ),
    decreases n, upto,
{
    if upto == 0 {
        assert(n.children.take(0) =~= Seq::empty());
    } else {
        presented_children_decode(kids, n, (upto - 1) as nat);
        assert(presents(kids[upto - 1], n.children[upto - 1]));
        presented_node_decodes(kids[upto - 1], n.children[upto - 1]);
        assert(n.children.take(upto as int) =~= n.children.take(upto - 1).push(
            n.children[upto - 1],
        ));
    }
}

/// Every presentation of a node decodes to that node: whichever shape was
/// chosen for the node and for each of its descendants, and in whichever
/// order a mapping gives the four fields. The values and the children come
/// back in their order, and the properties entry for entry.
pub proof fn presented_node_decodes(d: DatumModel, n: NodeModel)
    requires
        n.well_formed(),
        presents(d, n),
    ensures
        decoded_node(d) == Ok::<NodeModel, DecodeErrorModel>(n),
    decreases n, n.children.len() + 1,
{
    values_round_trip(n.values);
    properties_round_trip(n.properties);
    match d {
        DatumModel::Sequence(items) => {
            let kids = items[3]->Sequence_0;
            presented_children_decode(kids, n, kids.len());
            assert(n.children.take(kids.len() as int) =~= n.children);
        },
        DatumModel::Mapping(pairs) => {
            let kids = choose|kids: Seq<DatumModel>|
                {
                    &&& #[trigger] pairs.contains(
                        (DatumModel::Str(Field::Children.name_spec()), DatumModel::Sequence(kids)),
                    )
                    &&& kids.len() == n.children.len()
                    &&& forall|j: int|
                        0 <= j < n.children.len() ==> presents(#[trigger] kids[j], n.children[j])
                };
            presented_children_decode(kids, n, kids.len());
            assert(n.children.take(kids.len() as int) =~= n.children);
            let name_pair = (DatumModel::Str(Field::Name.name_spec()), DatumModel::Str(n.name));
            let values_pair = (
                DatumModel::Str(Field::Values.name_spec()),
                encoded_values(n.values),
            );
            let properties_pair = (
                DatumModel::Str(Field::Properties.name_spec()),
                encoded_properties(n.properties),
            );
            let children_pair = (
                DatumModel::Str(Field::Children.name_spec()),
                DatumModel::Sequence(kids),
            );
            let name = choose|i: int| 0 <= i < pairs.len() && pairs[i] == name_pair;
            let values = choose|i: int| 0 <= i < pairs.len() && pairs[i] == values_pair;
            let properties = choose|i: int| 0 <= i < pairs.len() && pairs[i] == properties_pair;
            let children = choose|i: int| 0 <= i < pairs.len() && pairs[i] == children_pair;
            Field::names_are_distinct();
            keyed_order_is_free(pairs, name, values, properties, children);
        },
        _ => {},
    }
}

/// A primitive is presented as it is, in both shapes.
pub proof fn value_presentation(v: ValueModel)
    ensures
        encoded_value(v).positional() == encoded_value(v),
        encoded_value(v).keyed() == encoded_value(v),
{
}

/// A list of values is presented as it is, in both shapes.
pub proof fn values_presentation(values: Seq<ValueModel>)
    ensures
        encoded_values(values).positional() == encoded_values(values),
        encoded_values(values).keyed() == encoded_values(values),
{
    let d = encoded_values(values);
    let items = d->Sequence_0;
    assert forall|i: int| 0 <= i < values.len() implies {
        &&& (#[trigger] items[i]).positional() == items[i]
        &&& items[i].keyed() == items[i]
    } by {
        value_presentation(values[i]);
    }
    assert(d.positional()->Sequence_0 =~= d->Sequence_0);
    assert(d.keyed()->Sequence_0 =~= d->Sequence_0);
}

/// A property list is presented as it is, in both shapes.
pub proof fn properties_presentation(entries: Seq<(Seq<char>, ValueModel)>)
    ensures
        encoded_properties(entries).positional() == encoded_properties(entries),
        encoded_properties(entries).keyed() == encoded_properties(entries),
{
    let d = encoded_properties(entries);
    assert forall|i: int| 0 <= i < entries.len() implies {
        &&& (#[trigger] d->Mapping_0[i]).0.positional() == d->Mapping_0[i].0
        &&& d->Mapping_0[i].1.positional() == d->Mapping_0[i].1
        &&& d->Mapping_0[i].0.keyed() == d->Mapping_0[i].0
        &&& d->Mapping_0[i].1.keyed() == d->Mapping_0[i].1
    } by {
        value_presentation(entries[i].1);
    }
    assert(d.positional()->Mapping_0 =~= d->Mapping_0);
    assert(d.keyed()->Mapping_0 =~= d->Mapping_0);
}

/// The positional shape of a node's record presents the node.
pub proof fn positional_shape_presents(n: NodeModel)
    ensures
        presents(encoded_node(n).positional(), n),
    decreases n,
{
    let record = encoded_node(n);
    let items = record.positional()->Sequence_0;
    assert(items.len() == 4);
    assert(DatumModel::Str(n.name).positional() == DatumModel::Str(n.name));
    values_presentation(n.values);
    properties_presentation(n.properties);
    let kids = record->Record_fields[3].1.positional()->Sequence_0;
    assert(items[3] == DatumModel::Sequence(kids));
    assert forall|j: int| 0 <= j < n.children.len() implies presents(
        #[trigger] kids[j],
        n.children[j],
    ) by {
        positional_shape_presents(n.children[j]);
    }
}

/// The keyed shape of a node's record presents the node.
pub proof fn keyed_shape_presents(n: NodeModel)
    ensures
        presents(encoded_node(n).keyed(), n),
    decreases n,
{
    let record = encoded_node(n);
    let pairs = record.keyed()->Mapping_0;
    assert(pairs.len() == 4);
    assert(DatumModel::Str(n.name).keyed() == DatumModel::Str(n.name));
    values_presentation(n.values);
    properties_presentation(n.properties);
    let kids = record->Record_fields[3].1.keyed()->Sequence_0;
    assert(pairs[0] == (DatumModel::Str(Field::Name.name_spec()), DatumModel::Str(n.name)));
    assert(pairs[1] == (DatumModel::Str(Field::Values.name_spec()), encoded_values(n.values)));
    assert(pairs[2] == (
        DatumModel::Str(Field::Properties.name_spec()),
        encoded_properties(n.properties),
    ));
    assert(pairs[3] == (
        DatumModel::Str(Field::Children.name_spec()),
        DatumModel::Sequence(kids),
    ));
    assert forall|j: int| 0 <= j < n.children.len() implies presents(
        #[trigger] kids[j],
        n.children[j],
    ) by {
        keyed_shape_presents(n.children[j]);
    }
    assert(pairs.contains(
        (DatumModel::Str(Field::Children.name_spec()), DatumModel::Sequence(kids)),
    ));
}

/// Encoding a node and decoding the positional shape of the record gives
/// the node back: the values and the children in their order, the
/// properties entry for entry.
pub proof fn node_round_trip_positional(n: NodeModel)
    requires
        n.well_formed(),
    ensures
        decoded_node(encoded_node(n).positional()) == Ok::<NodeModel, DecodeErrorModel>(n),
{
    positional_shape_presents(n);
    presented_node_decodes(encoded_node(n).positional(), n);
}

/// Encoding a node and decoding the keyed shape of the record gives the
/// node back.
pub proof fn node_round_trip_keyed(n: NodeModel)
    requires
        n.well_formed(),
    ensures
        decoded_node(encoded_node(n).keyed()) == Ok::<NodeModel, DecodeErrorModel>(n),
{
    keyed_shape_presents(n);
    presented_node_decodes(encoded_node(n).keyed(), n);
}

/// Encoding a node and decoding a mapping that holds the four pairs of the
/// record's keyed shape in any order gives the node back.
pub proof fn node_round_trip_keyed_in_any_order(n: NodeModel, pairs: Seq<(DatumModel, DatumModel)>)
    requires
        n.well_formed(),
        pairs.to_multiset() == encoded_node(n).keyed()->Mapping_0.to_multiset(),
    ensures
        decoded_node(DatumModel::Mapping(pairs)) == Ok::<NodeModel, DecodeErrorModel>(n),
{
    let canonical = encoded_node(n).keyed()->Mapping_0;
    keyed_shape_presents(n);
    pairs.to_multiset_ensures();
    canonical.to_multiset_ensures();
    assert forall|p: (DatumModel, DatumModel)| canonical.contains(p) implies pairs.contains(p) by {
        assert(canonical.to_multiset().count(p) > 0);
    }
    assert(presents(DatumModel::Mapping(canonical), n));
    let kids = choose|kids: Seq<DatumModel>|
        {
            &&& #[trigger] canonical.contains(
                (DatumModel::Str(Field::Children.name_spec()), DatumModel::Sequence(kids)),
            )
            &&& kids.len() == n.children.len()
            &&& forall|j: int|
                0 <= j < n.children.len() ==> presents(#[trigger] kids[j], n.children[j])
        };
    assert(pairs.contains(
        (DatumModel::Str(Field::Children.name_spec()), DatumModel::Sequence(kids)),
    ));
    presented_node_decodes(DatumModel::Mapping(pairs), n);
}

proof fn decoded_properties_prefix_has_distinct_keys(
    pairs: Seq<(DatumModel, DatumModel)>,
    upto: nat,
)
    ensures
        decoded_properties_upto(pairs, upto) matches Ok(entries) ==> keys_distinct(entries),
    decreases upto,
{
    if upto > 0 {
        decoded_properties_prefix_has_distinct_keys(pairs, (upto - 1) as nat);
        if let Ok(front) = decoded_properties_upto(pairs, (upto - 1) as nat) {
            if let Ok(key) = decoded_text(pairs[upto - 1].0) {
                if let Ok(value) = decoded_value(pairs[upto - 1].1) {
                    with_property_keeps_keys_distinct(front, key, value);
                }
            }
        }
    }
}

/// A property list that was decoded holds no key twice.
pub proof fn decoded_properties_have_distinct_keys(d: DatumModel)
    ensures
        decoded_properties(d) matches Ok(entries) ==> keys_distinct(entries),
{
    if let DatumModel::Mapping(pairs) = d {
        decoded_properties_prefix_has_distinct_keys(pairs, pairs.len());
    }
}

/// Whether every node of a list is well formed.
pub open spec fn all_well_formed(nodes: Seq<NodeModel>) -> bool {
    forall|i: int| 0 <= i < nodes.len() ==> (#[trigger] nodes[i]).well_formed()
}

proof fn decoded_nodes_prefix_is_well_formed(items: Seq<DatumModel>, upto: nat)
    ensures
        decoded_nodes_upto(items, upto) matches Ok(nodes) ==> all_well_formed(nodes),
    decreases items, upto,
{
    if upto == 0 || upto > items.len() {
    } else {
        decoded_nodes_prefix_is_well_formed(items, (upto - 1) as nat);
        decoded_node_is_well_formed(items[upto - 1]);
    }
}

proof fn decoded_children_are_well_formed(d: DatumModel)
    ensures
        decoded_children(d) matches Ok(nodes) ==> all_well_formed(nodes),
    decreases d, 0nat,
{
    if let DatumModel::Sequence(items) = d {
        decoded_nodes_prefix_is_well_formed(items, items.len());
    }
}

proof fn decoded_parts_are_well_formed(
    name: DatumModel,
    values: DatumModel,
    properties: DatumModel,
    children: DatumModel,
)
    ensures
        decoded_parts(name, values, properties, children) matches Ok(node) ==> node.well_formed(),
    decreases children, 1nat,
{
    decoded_properties_have_distinct_keys(properties);
    decoded_children_are_well_formed(children);
}

/// A node that was decoded is well formed: neither it nor any of its
/// descendants holds a property key twice.
pub proof fn decoded_node_is_well_formed(d: DatumModel)
    ensures
        decoded_node(d) matches Ok(node) ==> node.well_formed(),
    decreases d, 0nat,
{
    match d {
        DatumModel::Sequence(items) => {
            if items.len() >= 4 {
                decoded_parts_are_well_formed(items[0], items[1], items[2], items[3]);
            }
        },
        DatumModel::Mapping(pairs) => {
            if let Ok(places) = collected(pairs, pairs.len()) {
                if places.first_missing(pairs.len()) is None {
                    decoded_parts_are_well_formed(
                        pairs[places.name->Some_0].1,
                        pairs[places.values->Some_0].1,
                        pairs[places.properties->Some_0].1,
                        pairs[places.children->Some_0].1,
                    );
                }
            }
        },
        _ => {},
    }
}

/// A positional sequence of fewer than four items always fails with the
/// arity error for the first place at which nothing stands, whatever its
/// items are.
pub proof fn short_sequence_fails(items: Seq<DatumModel>)
    requires
        items.len() < 4,
    ensures
        decoded_positional(items) == Err::<NodeModel, DecodeErrorModel>(
            DecodeErrorModel::Arity { position: items.len() },
        ),
        decoded_node(DatumModel::Sequence(items)) == Err::<NodeModel, DecodeErrorModel>(
            DecodeErrorModel::Arity { position: items.len() },
        ),
{
}

/// A mapping with a key that names none of the four fields never decodes,
/// whatever its values are. Where the keys before it are accepted, the error
/// is the unknown-field error that holds the key and lists the four fields.
pub proof fn unknown_key_fails(pairs: Seq<(DatumModel, DatumModel)>, at: int, key: Seq<char>)
    requires
        0 <= at < pairs.len(),
        pairs[at].0 == DatumModel::Str(key),
        Field::named(key) is None,
    ensures
        decoded_keyed(pairs) is Err,
        collected(pairs, at as nat) is Ok ==> decoded_keyed(pairs) == Err::<
            NodeModel,
            DecodeErrorModel,
        >(DecodeErrorModel::UnknownField { key, valid: Field::all_spec() }),
{
    assert(collected(pairs, (at + 1) as nat) is Err);
    collecting_failure_persists(pairs, (at + 1) as nat, pairs.len());
}

proof fn found_fields_stay(pairs: Seq<(DatumModel, DatumModel)>, from: nat, upto: nat, field: Field)
    requires
        from <= upto,
        collected(pairs, from) matches Ok(places) && places.holds(field),
    ensures
        collected(pairs, upto) matches Ok(places) ==> places.holds(field),
    decreases upto,
{
    if from < upto {
        found_fields_stay(pairs, from, (upto - 1) as nat, field);
    }
}

proof fn collecting_stays_ok(pairs: Seq<(DatumModel, DatumModel)>, from: nat, upto: nat)
    requires
        from <= upto,
        collected(pairs, upto) is Ok,
    ensures
        collected(pairs, from) is Ok,
    decreases upto,
{
    if from < upto {
        collecting_stays_ok(pairs, from, (upto - 1) as nat);
    }
}

/// A mapping that names one field twice never decodes, whatever the values
/// are. Where the keys before the second one are accepted, the error is the
/// duplicate-field error for that field.
pub proof fn repeated_field_fails(
    pairs: Seq<(DatumModel, DatumModel)>,
    first: int,
    second: int,
    field: Field,
)
    requires
        0 <= first < second < pairs.len(),
        Field::of_datum(pairs[first].0) == Ok::<Field, DecodeErrorModel>(field),
        Field::of_datum(pairs[second].0) == Ok::<Field, DecodeErrorModel>(field),
    ensures
        decoded_keyed(pairs) is Err,
        collected(pairs, second as nat) is Ok ==> decoded_keyed(pairs) == Err::<
            NodeModel,
            DecodeErrorModel,
        >(DecodeErrorModel::DuplicateField { field }),
{
    if collected(pairs, second as nat) is Ok {
        collecting_stays_ok(pairs, (first + 1) as nat, second as nat);
        collecting_stays_ok(pairs, first as nat, (first + 1) as nat);
        assert(collected(pairs, (first + 1) as nat)->Ok_0.holds(field));
        found_fields_stay(pairs, (first + 1) as nat, second as nat, field);
        assert(collected(pairs, (second + 1) as nat) == Err::<PlacesModel, DecodeErrorModel>(
            DecodeErrorModel::DuplicateField { field },
        ));
    }
    assert(collected(pairs, (second + 1) as nat) is Err);
    collecting_failure_persists(pairs, (second + 1) as nat, pairs.len());
}

/// A mapping in which no key names `field` never decodes, whatever its
/// values are. Where all its keys are accepted, the error is the
/// missing-field error for the first field, in the fixed order, that no key
/// names: for `field` itself where every field before it was named.
pub proof fn absent_field_is_missing(pairs: Seq<(DatumModel, DatumModel)>, field: Field)
    requires
        forall|i: int|
            0 <= i < pairs.len() ==> Field::of_datum((#[trigger] pairs[i]).0) != Ok::<
                Field,
                DecodeErrorModel,
            >(field),
    ensures
        decoded_keyed(pairs) is Err,
        collected(pairs, pairs.len()) matches Ok(places) ==> {
            &&& places.first_missing(pairs.len()) matches Some(missing)
            &&& missing.position_spec() <= field.position_spec()
            &&& decoded_keyed(pairs) == Err::<NodeModel, DecodeErrorModel>(
                DecodeErrorModel::MissingField { field: missing },
            )
            &&& (forall|f: Field|
                f.position_spec() < field.position_spec() ==> places.supplied(f, pairs.len()))
                ==> missing == field
        },
{
    collected_places_are_pairs(pairs, pairs.len());
    if let Ok(places) = collected(pairs, pairs.len()) {
        assert(places.of(field) is None);
        assert(!places.supplied(field, pairs.len()));
        if forall|f: Field|
            f.position_spec() < field.position_spec() ==> places.supplied(f, pairs.len()) {
            if field != Field::Name {
                assert(places.supplied(Field::Name, pairs.len()));
            }
            if field == Field::Properties || field == Field::Children {
                assert(places.supplied(Field::Values, pairs.len()));
            }
            if field == Field::Children {
                assert(places.supplied(Field::Properties, pairs.len()));
            }
        }
    }
}

/// A fault of the shape comes before a fault of a value: a mapping whose
/// keys are refused, or in which a field is missing, fails with that error
/// whatever its values are.
pub proof fn shape_is_checked_first(
    pairs: Seq<(DatumModel, DatumModel)>,
    others: Seq<(DatumModel, DatumModel)>,
)
    requires
        pairs.len() == others.len(),
        forall|i: int| 0 <= i < pairs.len() ==> (#[trigger] pairs[i]).0 == others[i].0,
    ensures
        collected(pairs, pairs.len()) == collected(others, others.len()),
        collected(pairs, pairs.len()) is Err ==> decoded_keyed(pairs) == decoded_keyed(others),
        collected(pairs, pairs.len()) matches Ok(places) && places.first_missing(pairs.len())
            is Some ==> decoded_keyed(pairs) == decoded_keyed(others),
{
    same_keys_collect_alike(pairs, others, pairs.len());
}

proof fn same_keys_collect_alike(
    pairs: Seq<(DatumModel, DatumModel)>,
    others: Seq<(DatumModel, DatumModel)>,
    upto: nat,
)
    requires
        upto <= pairs.len() == others.len(),
        forall|i: int| 0 <= i < pairs.len() ==> (#[trigger] pairs[i]).0 == others[i].0,
    ensures
        collected(pairs, upto) == collected(others, upto),
    decreases upto,
{
    if upto > 0 {
        same_keys_collect_alike(pairs, others, (upto - 1) as nat);
        assert(pairs[upto - 1].0 == others[upto - 1].0);
    }
}

/// Every node is the same as itself.
pub proof fn sameness_is_reflexive(n: NodeModel)
    ensures
        n.same_as(n),
    decreases n,
{
    assert forall|i: int| 0 <= i < n.children.len() implies (#[trigger] n.children[i]).same_as(
        n.children[i],
    ) by {
        sameness_is_reflexive(n.children[i]);
    }
}

/// If one node is the same as another, the other is the same as the one.
pub proof fn sameness_is_symmetric(a: NodeModel, b: NodeModel)
    requires
        a.same_as(b),
    ensures
        b.same_as(a),
    decreases a,
{
    assert forall|i: int| 0 <= i < b.children.len() implies (#[trigger] b.children[i]).same_as(
        a.children[i],
    ) by {
        assert(a.children[i].same_as(b.children[i]));
        sameness_is_symmetric(a.children[i], b.children[i]);
    }
}

/// Two nodes that are the same as a third are the same as each other.
pub proof fn sameness_is_transitive(a: NodeModel, b: NodeModel, c: NodeModel)
    requires
        a.same_as(b),
        b.same_as(c),
    ensures
        a.same_as(c),
    decreases a,
{
    assert forall|i: int| 0 <= i < a.children.len() implies (#[trigger] a.children[i]).same_as(
        c.children[i],
    ) by {
        assert(a.children[i].same_as(b.children[i]));
        assert(b.children[i].same_as(c.children[i]));
        sameness_is_transitive(a.children[i], b.children[i], c.children[i]);
    }
}

} // verus!
