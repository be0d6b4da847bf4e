//! Closed graph schemas: the node types that a durable graph accepts, and the rules of their
//! properties.
use vstd::prelude::*;
use vstd::string::*;

verus! {

/// What a property holds.
#[derive(Debug, Clone, Copy, PartialEq, Eq, Structural)]
pub enum PropertyKind {
    Text,
    Uint,
}

/// A property of a node type.
#[derive(Debug, Clone, Copy)]
pub struct PropertyType {
    pub name: &'static str,
    pub kind: PropertyKind,
    pub required: bool,
    /// Never changes once written.
    pub immutable: bool,
    /// No two nodes of the type share a value.
    pub unique: bool,
}

/// The view of a `PropertyType`.
pub struct PropertyTypeView {
    pub name: Seq<char>,
    pub kind: PropertyKind,
    pub required: bool,
    pub immutable: bool,
    pub unique: bool,
}

impl View for PropertyType {
    type V = PropertyTypeView;

    open spec fn view(&self) -> PropertyTypeView {
        PropertyTypeView {
            name: self.name@,
            kind: self.kind,
            required: self.required,
            immutable: self.immutable,
            unique: self.unique,
        }
    }
}

/// A node type: strict, so that a node has these properties and no others.
#[derive(Debug)]
pub struct NodeType {
    pub name: &'static str,
    pub label: &'static str,
    pub properties: Vec<PropertyType>,
}

/// The view of a `NodeType`.
pub struct NodeTypeView {
    pub name: Seq<char>,
    pub label: Seq<char>,
    pub properties: Seq<PropertyTypeView>,
}

impl View for NodeType {
    type V = NodeTypeView;

    open spec fn view(&self) -> NodeTypeView {
        NodeTypeView {
            name: self.name@,
            label: self.label@,
            properties: self.properties@.map_values(|p: PropertyType| p@),
        }
    }
}

/// A graph type: its node types. There are no edge types.
#[derive(Debug)]
pub struct GraphType {
    pub name: &'static str,
    pub node_types: Vec<NodeType>,
}

/// The view of a `GraphType`.
pub struct GraphTypeView {
    pub name: Seq<char>,
    pub node_types: Seq<NodeTypeView>,
}

impl View for GraphType {
    type V = GraphTypeView;

    open spec fn view(&self) -> GraphTypeView {
        GraphTypeView {
            name: self.name@,
            node_types: self.node_types@.map_values(|n: NodeType| n@),
        }
    }
}

/// A property: required, immutable, unique.
pub open spec fn property(
    name: Seq<char>,
    kind: PropertyKind,
    required: bool,
    immutable: bool,
    unique: bool,
) -> PropertyTypeView {
    PropertyTypeView { name, kind, required, immutable, unique }
}

/// A property: required, immutable, unique.
pub fn prop_def(
    name: &'static str,
    kind: PropertyKind,
    required: bool,
    immutable: bool,
    unique: bool,
) -> (r: PropertyType)
    ensures
        r@ == property(name@, kind, required, immutable, unique),
{
    PropertyType { name, kind, required, immutable, unique }
}

/// Whether nothing of a node of a type ever changes.
pub open spec fn is_frozen(n: NodeTypeView) -> bool {
    forall|i: int| 0 <= i < n.properties.len() ==> (#[trigger] n.properties[i]).immutable
}

/// Whether a node type has a key: its first property is required, unique and immutable.
pub open spec fn has_key(n: NodeTypeView) -> bool {
    n.properties.len() > 0 && n.properties[0].required && n.properties[0].unique
        && n.properties[0].immutable
}

/// Whether what is unique is also required and immutable, so that no value is freed for another
/// node.
pub open spec fn keys_are_fixed(n: NodeTypeView) -> bool {
    forall|i: int|
        0 <= i < n.properties.len() && (#[trigger] n.properties[i]).unique
            ==> n.properties[i].required && n.properties[i].immutable
}

} // verus!
