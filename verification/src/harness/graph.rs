//! The closed schema of a harness graph.
use crate::graph::{
    has_key, is_frozen, keys_are_fixed, prop_def, property, GraphType, GraphTypeView, NodeType,
    NodeTypeView, PropertyKind,
};
use vstd::prelude::*;
use vstd::string::*;

verus! {

/// The node type `Unit`.
pub open spec fn unit_type() -> NodeTypeView {
    NodeTypeView {
        name: "exp001.unit"@,
        label: "Unit"@,
        properties: seq![
            property("unit_id"@, PropertyKind::Uint, true, true, true),
            property("phase"@, PropertyKind::Text, true, false, false),
            property("version"@, PropertyKind::Uint, true, false, false),
            property("attempt_epoch"@, PropertyKind::Uint, true, false, false),
            property("holder_id"@, PropertyKind::Uint, true, false, false),
            property("artifact_ref"@, PropertyKind::Text, false, false, false),
        ],
    }
}

fn unit_node() -> (r: NodeType)
    ensures
        r@ == unit_type(),
{
    let mut properties: Vec<crate::graph::PropertyType> = Vec::new();
    properties.push(prop_def("unit_id", PropertyKind::Uint, true, true, true));
    properties.push(prop_def("phase", PropertyKind::Text, true, false, false));
    properties.push(prop_def("version", PropertyKind::Uint, true, false, false));
    properties.push(prop_def("attempt_epoch", PropertyKind::Uint, true, false, false));
    properties.push(prop_def("holder_id", PropertyKind::Uint, true, false, false));
    properties.push(prop_def("artifact_ref", PropertyKind::Text, false, false, false));
    let r = NodeType { name: "exp001.unit", label: "Unit", properties };
    proof {
        assert(r@.properties =~= unit_type().properties);
    }
    r
}

/// The node type `Attempt`.
pub open spec fn attempt_type() -> NodeTypeView {
    NodeTypeView {
        name: "exp001.attempt"@,
        label: "Attempt"@,
        properties: seq![
            property("attempt_key"@, PropertyKind::Text, true, true, true),
            property("unit_id"@, PropertyKind::Uint, true, true, false),
            property("attempt_epoch"@, PropertyKind::Uint, true, true, false),
            property("holder_id"@, PropertyKind::Uint, true, true, false),
            property("state"@, PropertyKind::Text, true, false, false),
        ],
    }
}

fn attempt_node() -> (r: NodeType)
    ensures
        r@ == attempt_type(),
{
    let mut properties: Vec<crate::graph::PropertyType> = Vec::new();
    properties.push(prop_def("attempt_key", PropertyKind::Text, true, true, true));
    properties.push(prop_def("unit_id", PropertyKind::Uint, true, true, false));
    properties.push(prop_def("attempt_epoch", PropertyKind::Uint, true, true, false));
    properties.push(prop_def("holder_id", PropertyKind::Uint, true, true, false));
    properties.push(prop_def("state", PropertyKind::Text, true, false, false));
    let r = NodeType { name: "exp001.attempt", label: "Attempt", properties };
    proof {
        assert(r@.properties =~= attempt_type().properties);
    }
    r
}

/// The node type `Lease`.
pub open spec fn lease_type() -> NodeTypeView {
    NodeTypeView {
        name: "exp001.lease"@,
        label: "Lease"@,
        properties: seq![
            property("lease_key"@, PropertyKind::Text, true, true, true),
            property("holder_id"@, PropertyKind::Uint, true, true, false),
            property("expiry"@, PropertyKind::Uint, true, false, false),
            property("last_renewal"@, PropertyKind::Uint, true, false, false),
        ],
    }
}

fn lease_node() -> (r: NodeType)
    ensures
        r@ == lease_type(),
{
    let mut properties: Vec<crate::graph::PropertyType> = Vec::new();
    properties.push(prop_def("lease_key", PropertyKind::Text, true, true, true));
    properties.push(prop_def("holder_id", PropertyKind::Uint, true, true, false));
    properties.push(prop_def("expiry", PropertyKind::Uint, true, false, false));
    properties.push(prop_def("last_renewal", PropertyKind::Uint, true, false, false));
    let r = NodeType { name: "exp001.lease", label: "Lease", properties };
    proof {
        assert(r@.properties =~= lease_type().properties);
    }
    r
}

/// The node type `Effect`.
pub open spec fn effect_type() -> NodeTypeView {
    NodeTypeView {
        name: "exp001.effect"@,
        label: "Effect"@,
        properties: seq![
            property("intent_id"@, PropertyKind::Uint, true, true, true),
            property("operation_key"@, PropertyKind::Text, true, true, false),
            property("state"@, PropertyKind::Text, true, true, false),
            property("unit_id"@, PropertyKind::Uint, true, true, false),
            property("attempt_epoch"@, PropertyKind::Uint, true, true, false),
        ],
    }
}

fn effect_node() -> (r: NodeType)
    ensures
        r@ == effect_type(),
{
    let mut properties: Vec<crate::graph::PropertyType> = Vec::new();
    properties.push(prop_def("intent_id", PropertyKind::Uint, true, true, true));
    properties.push(prop_def("operation_key", PropertyKind::Text, true, true, false));
    properties.push(prop_def("state", PropertyKind::Text, true, true, false));
    properties.push(prop_def("unit_id", PropertyKind::Uint, true, true, false));
    properties.push(prop_def("attempt_epoch", PropertyKind::Uint, true, true, false));
    let r = NodeType { name: "exp001.effect", label: "Effect", properties };
    proof {
        assert(r@.properties =~= effect_type().properties);
    }
    r
}

/// The node type `Receipt`.
pub open spec fn receipt_type() -> NodeTypeView {
    NodeTypeView {
        name: "exp001.receipt"@,
        label: "Receipt"@,
        properties: seq![
            property("receipt_key"@, PropertyKind::Text, true, true, true),
            property("request_digest"@, PropertyKind::Text, true, true, false),
            property("transition_ref"@, PropertyKind::Uint, true, true, false),
        ],
    }
}

fn receipt_node() -> (r: NodeType)
    ensures
        r@ == receipt_type(),
{
    let mut properties: Vec<crate::graph::PropertyType> = Vec::new();
    properties.push(prop_def("receipt_key", PropertyKind::Text, true, true, true));
    properties.push(prop_def("request_digest", PropertyKind::Text, true, true, false));
    properties.push(prop_def("transition_ref", PropertyKind::Uint, true, true, false));
    let r = NodeType { name: "exp001.receipt", label: "Receipt", properties };
    proof {
        assert(r@.properties =~= receipt_type().properties);
    }
    r
}

/// The node type `Event`.
pub open spec fn event_type() -> NodeTypeView {
    NodeTypeView {
        name: "exp001.event"@,
        label: "Event"@,
        properties: seq![
            property("event_id"@, PropertyKind::Uint, true, true, true),
            property("agg_ver_ord"@, PropertyKind::Text, true, true, true),
            property("aggregate_id"@, PropertyKind::Uint, true, true, false),
            property("aggregate_version"@, PropertyKind::Uint, true, true, false),
            property("ordinal"@, PropertyKind::Uint, true, true, false),
            property("kind"@, PropertyKind::Text, true, true, false),
            property("payload"@, PropertyKind::Text, true, true, false),
            property("causation_ref"@, PropertyKind::Uint, false, true, false),
        ],
    }
}

fn event_node() -> (r: NodeType)
    ensures
        r@ == event_type(),
{
    let mut properties: Vec<crate::graph::PropertyType> = Vec::new();
    properties.push(prop_def("event_id", PropertyKind::Uint, true, true, true));
    properties.push(prop_def("agg_ver_ord", PropertyKind::Text, true, true, true));
    properties.push(prop_def("aggregate_id", PropertyKind::Uint, true, true, false));
    properties.push(prop_def("aggregate_version", PropertyKind::Uint, true, true, false));
    properties.push(prop_def("ordinal", PropertyKind::Uint, true, true, false));
    properties.push(prop_def("kind", PropertyKind::Text, true, true, false));
    properties.push(prop_def("payload", PropertyKind::Text, true, true, false));
    properties.push(prop_def("causation_ref", PropertyKind::Uint, false, true, false));
    let r = NodeType { name: "exp001.event", label: "Event", properties };
    proof {
        assert(r@.properties =~= event_type().properties);
    }
    r
}

/// The node type `Artifact`.
pub open spec fn artifact_type() -> NodeTypeView {
    NodeTypeView {
        name: "exp001.artifact"@,
        label: "Artifact"@,
        properties: seq![
            property("artifact_digest"@, PropertyKind::Text, true, true, true),
        ],
    }
}

fn artifact_node() -> (r: NodeType)
    ensures
        r@ == artifact_type(),
{
    let mut properties: Vec<crate::graph::PropertyType> = Vec::new();
    properties.push(prop_def("artifact_digest", PropertyKind::Text, true, true, true));
    let r = NodeType { name: "exp001.artifact", label: "Artifact", properties };
    proof {
        assert(r@.properties =~= artifact_type().properties);
    }
    r
}

/// The closed schema `exp001.harness`.
pub open spec fn schema() -> GraphTypeView {
    GraphTypeView {
        name: "exp001.harness"@,
        node_types: seq![
            unit_type(),
            attempt_type(),
            lease_type(),
            effect_type(),
            receipt_type(),
            event_type(),
            artifact_type(),
        ],
    }
}

/// The closed schema `exp001.harness`.
pub fn graph_type() -> (r: GraphType)
    ensures
        r@ == schema(),
{
    let mut node_types: Vec<NodeType> = Vec::new();
    node_types.push(unit_node());
    node_types.push(attempt_node());
    node_types.push(lease_node());
    node_types.push(effect_node());
    node_types.push(receipt_node());
    node_types.push(event_node());
    node_types.push(artifact_node());
    let r = GraphType { name: "exp001.harness", node_types };
    proof {
        assert(r@.node_types =~= schema().node_types);
    }
    r
}

/// Every node type has a key that is required, unique and immutable, and nothing that is unique
/// can be freed.
pub proof fn node_types_are_keyed(i: int)
    requires
        0 <= i < schema().node_types.len(),
    ensures
        has_key(schema().node_types[i]),
        keys_are_fixed(schema().node_types[i]),
{
    let n = schema().node_types[i];
    if i == 0 {
        assert(n == unit_type());
    } else if i == 1 {
        assert(n == attempt_type());
    } else if i == 2 {
        assert(n == lease_type());
    } else if i == 3 {
        assert(n == effect_type());
    } else if i == 4 {
        assert(n == receipt_type());
    } else if i == 5 {
        assert(n == event_type());
    } else if i == 6 {
        assert(n == artifact_type());
    }
}

/// Nothing of a journal event ever changes.
pub proof fn event_nodes_never_change()
    ensures
        is_frozen(event_type()),
{
}

/// Nothing of a receipt ever changes.
pub proof fn receipt_nodes_never_change()
    ensures
        is_frozen(receipt_type()),
{
}

/// Nothing of an effect row ever changes: a terminal is a row of its own.
pub proof fn effect_nodes_never_change()
    ensures
        is_frozen(effect_type()),
{
}

} // verus!
