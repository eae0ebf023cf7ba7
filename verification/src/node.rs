//! Nodes and their mapping to and from a record of four fields.

use vstd::prelude::*;
use crate::datum::{Datum, DatumModel};
use crate::field::Field;
use crate::properties::{keys_distinct, properties_agree, properties_model, same_properties};
use crate::value::{encoded_value, Value, ValueModel};

verus! {

/// A node of a document: its name, its positional values in order, its named
/// properties and its child nodes in order.
///
/// `properties` holds one entry per key. The entries of a node that was
/// decoded have pairwise different keys. Two nodes are equal when they have
/// the same name, the same values and children in the same order, and
/// properties that are the same mapping, in whatever order the entries stand.
#[derive(Debug, Eq)]
pub struct Node {
    pub name: String,
    pub values: Vec<Value>,
    pub properties: Vec<(String, Value)>,
    pub children: Vec<Node>,
}

/// What a [`Node`] is, as a mathematical value.
pub struct NodeModel {
    pub name: Seq<char>,
    pub values: Seq<ValueModel>,
    pub properties: Seq<(Seq<char>, ValueModel)>,
    pub children: Seq<NodeModel>,
}

/// The values of a list, one by one.
pub open spec fn values_model(values: Seq<Value>) -> Seq<ValueModel> {
    Seq::new(values.len(), |i: int| values[i]@)
}

/// The nodes of a list, one by one.
pub open spec fn nodes_model(nodes: Seq<Node>) -> Seq<NodeModel> {
    Seq::new(nodes.len(), |i: int| nodes[i].model())
}

impl Node {
    /// The mathematical value of this node; `n@` is short for it.
    pub open spec fn model(&self) -> NodeModel
        decreases self,
    {
        NodeModel {
            name: self.name@,
            values: values_model(self.values@),
            properties: properties_model(self.properties@),
            children: Seq::new(
                self.children.len() as nat,
                |i: int|
                    if 0 <= i < self.children.len() {
                        self.children[i].model()
                    } else {
                        NodeModel::empty()
                    },
            ),
        }
    }

    /// The children of a node's model are the models of its children.
    pub proof fn model_children(&self)
        ensures
            self.model().children == nodes_model(self.children@),
    {
        assert(self.model().children =~= nodes_model(self.children@));
    }
}

impl Node {
    /// Whether two nodes are the same: the names, the values and the
    /// children one by one, and the properties as mappings.
    pub fn same_as(&self, other: &Node) -> (same: bool)
        ensures
            same == self@.same_as(other@),
        decreases self,
    {
        if self.name != other.name {
            return false;
        }
        if self.values.len() != other.values.len() {
            assert(self@.values.len() != other@.values.len());
            return false;
        }
        let mut i: usize = 0;
        while i < self.values.len()
            invariant
                i <= self.values.len() == other.values.len(),
                forall|k: int| 0 <= k < i ==> (#[trigger] self.values[k])@ == other.values[k]@,
            decreases self.values.len() - i,
        {
            if !self.values[i].same_as(&other.values[i]) {
                assert(self@.values[i as int] != other@.values[i as int]);
                return false;
            }
            i += 1;
        }
        assert(self@.values =~= other@.values);
        if !properties_agree(&self.properties, &other.properties) {
            return false;
        }
        if self.children.len() != other.children.len() {
            return false;
        }
        let mut i: usize = 0;
        while i < self.children.len()
            invariant
                i <= self.children.len() == other.children.len(),
                forall|k: int|
                    0 <= k < i ==> (#[trigger] self.children[k])@.same_as(other.children[k]@),
            decreases self.children.len() - i,
        {
            if !self.children[i].same_as(&other.children[i]) {
                assert(!self@.children[i as int].same_as(other@.children[i as int]));
                return false;
            }
            i += 1;
        }
        assert forall|k: int| 0 <= k < self@.children.len() implies (
        #[trigger] self@.children[k]).same_as(other@.children[k]) by {
            assert(self.children[k]@.same_as(other.children[k]@));
        }
        true
    }
}

impl PartialEq for Node {
    /// Two nodes are equal when they are the same.
    fn eq(&self, other: &Node) -> (same: bool) {
        self.same_as(other)
    }
}

impl vstd::std_specs::cmp::PartialEqSpecImpl for Node {
    open spec fn obeys_eq_spec() -> bool {
        true
    }

    open spec fn eq_spec(&self, other: &Node) -> bool {
        self@.same_as(other@)
    }
}

impl Clone for Node {
    /// A copy that holds the same content, all descendants included.
    fn clone(&self) -> (copy: Node)
        ensures
            copy@ == self@,
        decreases self,
    {
        let mut values: Vec<Value> = Vec::new();
        let mut i: usize = 0;
        while i < self.values.len()
            invariant
                i <= self.values.len(),
                values.len() == i,
                forall|k: int| 0 <= k < i ==> (#[trigger] values[k])@ == self.values[k]@,
            decreases self.values.len() - i,
        {
            values.push(self.values[i].clone());
            i += 1;
        }
        let mut properties: Vec<(String, Value)> = Vec::new();
        let mut i: usize = 0;
        while i < self.properties.len()
            invariant
                i <= self.properties.len(),
                properties.len() == i,
                forall|k: int|
                    0 <= k < i ==> (#[trigger] properties[k]).0@ == self.properties[k].0@
                        && properties[k].1@ == self.properties[k].1@,
            decreases self.properties.len() - i,
        {
            let key = self.properties[i].0.clone();
            let value = self.properties[i].1.clone();
            properties.push((key, value));
            i += 1;
        }
        let mut children: Vec<Node> = Vec::new();
        let mut i: usize = 0;
        while i < self.children.len()
            invariant
                i <= self.children.len(),
                children.len() == i,
                forall|k: int| 0 <= k < i ==> (#[trigger] children[k])@ == self.children[k]@,
            decreases self.children.len() - i,
        {
            children.push(self.children[i].clone());
            i += 1;
        }
        let copy = Node { name: self.name.clone(), values, properties, children };
        proof {
            assert(copy@.values =~= self@.values);
            assert(copy@.properties =~= self@.properties);
            assert(copy@.children =~= self@.children);
        }
        copy
    }
}

impl Default for Node {
    /// The node without a name, values, properties or children.
    fn default() -> (node: Node)
        ensures
            node@ == NodeModel::empty(),
    {
        let node = Node {
            name: String::new(),
            values: Vec::new(),
            properties: Vec::new(),
            children: Vec::new(),
        };
        proof {
            assert(node@.values =~= Seq::empty());
            assert(node@.properties =~= Seq::empty());
            assert(node@.children =~= Seq::empty());
        }
        node
    }
}

impl View for Node {
    type V = NodeModel;

    open spec fn view(&self) -> NodeModel {
        self.model()
    }
}

impl NodeModel {
    /// The node without a name, values, properties or children.
    pub open spec fn empty() -> NodeModel {
        NodeModel {
            name: Seq::empty(),
            values: Seq::empty(),
            properties: Seq::empty(),
            children: Seq::empty(),
        }
    }

    /// Whether two nodes are the same: they have the same name, the same
    /// values and children in the same order, and properties that are the
    /// same mapping.
    pub open spec fn same_as(self, other: NodeModel) -> bool
        decreases self,
    {
        &&& self.name == other.name
        &&& self.values == other.values
        &&& same_properties(self.properties, other.properties)
        &&& self.children.len() == other.children.len()
        &&& forall|i: int|
            0 <= i < self.children.len() ==> (#[trigger] self.children[i]).same_as(
                other.children[i],
            )
    }

    /// Whether the properties are a mapping, here and in every descendant:
    /// no key occurs twice among the properties of one node.
    pub open spec fn well_formed(self) -> bool
        decreases self,
    {
        &&& keys_distinct(self.properties)
        &&& forall|i: int|
            0 <= i < self.children.len() ==> (#[trigger] self.children[i]).well_formed()
    }
}

/// The sequence that stands for a list of values.
pub open spec fn encoded_values(values: Seq<ValueModel>) -> DatumModel {
    DatumModel::Sequence(Seq::new(values.len(), |i: int| encoded_value(values[i])))
}

/// The mapping that stands for a property list: one pair per entry, in the
/// order of the entries, the key as a string.
pub open spec fn encoded_properties(entries: Seq<(Seq<char>, ValueModel)>) -> DatumModel {
    DatumModel::Mapping(
        Seq::new(
            entries.len(),
            |i: int| (DatumModel::Str(entries[i].0), encoded_value(entries[i].1)),
        ),
    )
}

/// The name of the record that stands for a node.
pub open spec fn record_name() -> Seq<char> {
    "Node"@
}

/// The record that stands for a node: four fields in their fixed order,
/// each child a record in turn.
pub open spec fn encoded_node(n: NodeModel) -> DatumModel
    decreases n,
{
    DatumModel::Record {
        name: record_name(),
        fields: seq![
            (Field::Name.name_spec(), DatumModel::Str(n.name)),
            (Field::Values.name_spec(), encoded_values(n.values)),
            (Field::Properties.name_spec(), encoded_properties(n.properties)),
            (
                Field::Children.name_spec(),
                DatumModel::Sequence(
                    Seq::new(
                        n.children.len(),
                        |i: int|
                            if 0 <= i < n.children.len() {
                                encoded_node(n.children[i])
                            } else {
                                DatumModel::Unit
                            },
                    ),
                ),
            ),
        ],
    }
}

/// Emits the sequence that stands for a list of values.
pub fn encode_values(values: &Vec<Value>) -> (d: Datum)
    ensures
        d@ == encoded_values(values_model(values@)),
{
    let mut items: Vec<Datum> = Vec::new();
    let mut i: usize = 0;
    while i < values.len()
        invariant
            i <= values.len(),
            items.len() == i,
            forall|k: int| 0 <= k < i ==> (#[trigger] items[k])@ == encoded_value(values[k]@),
        decreases values.len() - i,
    {
        items.push(values[i].encode());
        i += 1;
    }
    let d = Datum::Sequence(items);
    assert(d@ =~= encoded_values(values_model(values@))) by {
        assert(d@->Sequence_0 =~= encoded_values(values_model(values@))->Sequence_0);
    }
    d
}

/// Emits the mapping that stands for a property list.
pub fn encode_properties(entries: &Vec<(String, Value)>) -> (d: Datum)
    ensures
        d@ == encoded_properties(properties_model(entries@)),
{
    let mut pairs: Vec<(Datum, Datum)> = Vec::new();
    let mut i: usize = 0;
    while i < entries.len()
        invariant
            i <= entries.len(),
            pairs.len() == i,
            forall|k: int|
                0 <= k < i ==> (#[trigger] pairs[k]).0@ == DatumModel::Str(entries[k].0@)
                    && pairs[k].1@ == encoded_value(entries[k].1@),
        decreases entries.len() - i,
    {
        let key = Datum::Str(entries[i].0.clone());
        let value = entries[i].1.encode();
        pairs.push((key, value));
        i += 1;
    }
    let d = Datum::Mapping(pairs);
    assert(d@ =~= encoded_properties(properties_model(entries@))) by {
        assert(d@->Mapping_0 =~= encoded_properties(properties_model(entries@))->Mapping_0);
    }
    d
}

impl Node {
    /// Emits the record that stands for this node. This cannot fail.
    pub fn encode(&self) -> (d: Datum)
        ensures
            d@ == encoded_node(self@),
        decreases self,
    {
        let mut children: Vec<Datum> = Vec::new();
        let mut i: usize = 0;
        while i < self.children.len()
            invariant
                i <= self.children.len(),
                children.len() == i,
                forall|k: int|
                    0 <= k < i ==> (#[trigger] children[k])@ == encoded_node(self.children[k]@),
            decreases self.children.len() - i,
        {
            children.push(self.children[i].encode());
            i += 1;
        }
        let children = Datum::Sequence(children);
        proof {
            let want = encoded_node(self@)->Record_fields[3].1;
            assert(children@->Sequence_0 =~= want->Sequence_0);
        }
        let mut fields: Vec<(&'static str, Datum)> = Vec::new();
        let name = Datum::Str(self.name.clone());
        assert(name@ == DatumModel::Str(self.name@));
        fields.push((Field::Name.name(), name));
        fields.push((Field::Values.name(), encode_values(&self.values)));
        fields.push((Field::Properties.name(), encode_properties(&self.properties)));
        fields.push((Field::Children.name(), children));
        let d = Datum::Record { name: "Node", fields };
        proof {
            let got = d@->Record_fields;
            let want = encoded_node(self@)->Record_fields;
            assert(got =~= want);
        }
        d
    }
}

} // verus!
