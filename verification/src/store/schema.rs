//! The closed schema of a control graph.
//!
//! A composite key rides one derived text, because uniqueness is a rule on single properties.
//! Full records travel as text beside the typed properties that transactions compare.
use crate::graph::{
    has_key, is_frozen, keys_are_fixed, prop_def, property, GraphType, GraphTypeView, NodeType,
    NodeTypeView, PropertyKind,
};
use vstd::prelude::*;
use vstd::string::*;

verus! {

/// The node type `Authority`.
pub open spec fn authority_type() -> NodeTypeView {
    NodeTypeView {
        name: "oa.authority"@,
        label: "Authority"@,
        properties: seq![
            property("authority_key"@, PropertyKind::Text, true, true, true),
            property("authority_epoch"@, PropertyKind::Uint, true, false, false),
            property("holder_instance_id"@, PropertyKind::Text, true, false, false),
            property("prior_instance_id"@, PropertyKind::Text, false, false, false),
            property("status"@, PropertyKind::Text, true, false, false),
        ],
    }
}

fn authority_node() -> (r: NodeType)
    ensures
        r@ == authority_type(),
{
    let mut properties: Vec<crate::graph::PropertyType> = Vec::new();
    properties.push(prop_def("authority_key", PropertyKind::Text, true, true, true));
    properties.push(prop_def("authority_epoch", PropertyKind::Uint, true, false, false));
    properties.push(prop_def("holder_instance_id", PropertyKind::Text, true, false, false));
    properties.push(prop_def("prior_instance_id", PropertyKind::Text, false, false, false));
    properties.push(prop_def("status", PropertyKind::Text, true, false, false));
    let r = NodeType { name: "oa.authority", label: "Authority", properties };
    proof {
        assert(r@.properties =~= authority_type().properties);
    }
    r
}

/// The node type `Unit`.
pub open spec fn unit_type() -> NodeTypeView {
    NodeTypeView {
        name: "oa.unit"@,
        label: "Unit"@,
        properties: seq![
            property("unit_id"@, PropertyKind::Text, true, true, true),
            property("version"@, PropertyKind::Uint, true, false, false),
            property("current_attempt_epoch"@, PropertyKind::Uint, true, false, false),
            property("stamp"@, PropertyKind::Uint, true, false, false),
            property("status"@, PropertyKind::Text, true, false, false),
            property("work_item_id"@, PropertyKind::Text, true, true, false),
            property("record"@, PropertyKind::Text, true, false, false),
        ],
    }
}

fn unit_node() -> (r: NodeType)
    ensures
        r@ == unit_type(),
{
    let mut properties: Vec<crate::graph::PropertyType> = Vec::new();
    properties.push(prop_def("unit_id", PropertyKind::Text, true, true, true));
    properties.push(prop_def("version", PropertyKind::Uint, true, false, false));
    properties.push(prop_def("current_attempt_epoch", PropertyKind::Uint, true, false, false));
    properties.push(prop_def("stamp", PropertyKind::Uint, true, false, false));
    properties.push(prop_def("status", PropertyKind::Text, true, false, false));
    properties.push(prop_def("work_item_id", PropertyKind::Text, true, true, false));
    properties.push(prop_def("record", PropertyKind::Text, true, false, false));
    let r = NodeType { name: "oa.unit", label: "Unit", properties };
    proof {
        assert(r@.properties =~= unit_type().properties);
    }
    r
}

/// The node type `Attempt`.
pub open spec fn attempt_type() -> NodeTypeView {
    NodeTypeView {
        name: "oa.attempt"@,
        label: "Attempt"@,
        properties: seq![
            property("attempt_key"@, PropertyKind::Text, true, true, true),
            property("unit_id"@, PropertyKind::Text, true, true, false),
            property("attempt_epoch"@, PropertyKind::Uint, true, true, false),
            property("holder_id"@, PropertyKind::Text, true, true, false),
            property("status"@, PropertyKind::Text, true, false, false),
        ],
    }
}

fn attempt_node() -> (r: NodeType)
    ensures
        r@ == attempt_type(),
{
    let mut properties: Vec<crate::graph::PropertyType> = Vec::new();
    properties.push(prop_def("attempt_key", PropertyKind::Text, true, true, true));
    properties.push(prop_def("unit_id", PropertyKind::Text, true, true, false));
    properties.push(prop_def("attempt_epoch", PropertyKind::Uint, true, true, false));
    properties.push(prop_def("holder_id", PropertyKind::Text, true, true, false));
    properties.push(prop_def("status", PropertyKind::Text, true, false, false));
    let r = NodeType { name: "oa.attempt", label: "Attempt", properties };
    proof {
        assert(r@.properties =~= attempt_type().properties);
    }
    r
}

/// The node type `Lease`.
pub open spec fn lease_type() -> NodeTypeView {
    NodeTypeView {
        name: "oa.lease"@,
        label: "Lease"@,
        properties: seq![
            property("unit_id"@, PropertyKind::Text, true, true, true),
            property("attempt_epoch"@, PropertyKind::Uint, true, false, false),
            property("holder_id"@, PropertyKind::Text, true, false, false),
            property("status"@, PropertyKind::Text, true, false, false),
            property("version"@, PropertyKind::Uint, true, false, false),
        ],
    }
}

fn lease_node() -> (r: NodeType)
    ensures
        r@ == lease_type(),
{
    let mut properties: Vec<crate::graph::PropertyType> = Vec::new();
    properties.push(prop_def("unit_id", PropertyKind::Text, true, true, true));
    properties.push(prop_def("attempt_epoch", PropertyKind::Uint, true, false, false));
    properties.push(prop_def("holder_id", PropertyKind::Text, true, false, false));
    properties.push(prop_def("status", PropertyKind::Text, true, false, false));
    properties.push(prop_def("version", PropertyKind::Uint, true, false, false));
    let r = NodeType { name: "oa.lease", label: "Lease", properties };
    proof {
        assert(r@.properties =~= lease_type().properties);
    }
    r
}

/// The node type `WorkItem`.
pub open spec fn work_item_type() -> NodeTypeView {
    NodeTypeView {
        name: "oa.work_item"@,
        label: "WorkItem"@,
        properties: seq![
            property("work_item_id"@, PropertyKind::Text, true, true, true),
            property("version"@, PropertyKind::Uint, true, false, false),
            property("status"@, PropertyKind::Text, true, false, false),
            property("acceptance_contract_digest"@, PropertyKind::Text, true, true, false),
            property("declared_write_scope"@, PropertyKind::Text, true, false, false),
            property("record"@, PropertyKind::Text, true, false, false),
        ],
    }
}

fn work_item_node() -> (r: NodeType)
    ensures
        r@ == work_item_type(),
{
    let mut properties: Vec<crate::graph::PropertyType> = Vec::new();
    properties.push(prop_def("work_item_id", PropertyKind::Text, true, true, true));
    properties.push(prop_def("version", PropertyKind::Uint, true, false, false));
    properties.push(prop_def("status", PropertyKind::Text, true, false, false));
    properties.push(prop_def("acceptance_contract_digest", PropertyKind::Text, true, true, false));
    properties.push(prop_def("declared_write_scope", PropertyKind::Text, true, false, false));
    properties.push(prop_def("record", PropertyKind::Text, true, false, false));
    let r = NodeType { name: "oa.work_item", label: "WorkItem", properties };
    proof {
        assert(r@.properties =~= work_item_type().properties);
    }
    r
}

/// The node type `Receipt`.
pub open spec fn receipt_type() -> NodeTypeView {
    NodeTypeView {
        name: "oa.receipt"@,
        label: "Receipt"@,
        properties: seq![
            property("receipt_key"@, PropertyKind::Text, true, true, true),
            property("request_digest"@, PropertyKind::Text, true, true, false),
            property("status"@, PropertyKind::Text, true, false, false),
            property("result"@, PropertyKind::Text, true, false, false),
            property("first_cursor"@, PropertyKind::Uint, false, false, false),
            property("last_cursor"@, PropertyKind::Uint, false, false, false),
        ],
    }
}

fn receipt_node() -> (r: NodeType)
    ensures
        r@ == receipt_type(),
{
    let mut properties: Vec<crate::graph::PropertyType> = Vec::new();
    properties.push(prop_def("receipt_key", PropertyKind::Text, true, true, true));
    properties.push(prop_def("request_digest", PropertyKind::Text, true, true, false));
    properties.push(prop_def("status", PropertyKind::Text, true, false, false));
    properties.push(prop_def("result", PropertyKind::Text, true, false, false));
    properties.push(prop_def("first_cursor", PropertyKind::Uint, false, false, false));
    properties.push(prop_def("last_cursor", PropertyKind::Uint, false, false, false));
    let r = NodeType { name: "oa.receipt", label: "Receipt", properties };
    proof {
        assert(r@.properties =~= receipt_type().properties);
    }
    r
}

/// The node type `Event`.
pub open spec fn event_type() -> NodeTypeView {
    NodeTypeView {
        name: "oa.event"@,
        label: "Event"@,
        properties: seq![
            property("event_id"@, PropertyKind::Text, true, true, true),
            property("cursor"@, PropertyKind::Uint, true, true, true),
            property("agg_ver_ord"@, PropertyKind::Text, true, true, true),
            property("aggregate_kind"@, PropertyKind::Text, true, true, false),
            property("aggregate_id"@, PropertyKind::Text, true, true, false),
            property("aggregate_version"@, PropertyKind::Uint, true, true, false),
            property("ordinal"@, PropertyKind::Uint, true, true, false),
            property("event_kind"@, PropertyKind::Text, true, true, false),
            property("payload"@, PropertyKind::Text, true, true, false),
            property("command_id"@, PropertyKind::Text, true, true, false),
        ],
    }
}

fn event_node() -> (r: NodeType)
    ensures
        r@ == event_type(),
{
    let mut properties: Vec<crate::graph::PropertyType> = Vec::new();
    properties.push(prop_def("event_id", PropertyKind::Text, true, true, true));
    properties.push(prop_def("cursor", PropertyKind::Uint, true, true, true));
    properties.push(prop_def("agg_ver_ord", PropertyKind::Text, true, true, true));
    properties.push(prop_def("aggregate_kind", PropertyKind::Text, true, true, false));
    properties.push(prop_def("aggregate_id", PropertyKind::Text, true, true, false));
    properties.push(prop_def("aggregate_version", PropertyKind::Uint, true, true, false));
    properties.push(prop_def("ordinal", PropertyKind::Uint, true, true, false));
    properties.push(prop_def("event_kind", PropertyKind::Text, true, true, false));
    properties.push(prop_def("payload", PropertyKind::Text, true, true, false));
    properties.push(prop_def("command_id", PropertyKind::Text, true, true, false));
    let r = NodeType { name: "oa.event", label: "Event", properties };
    proof {
        assert(r@.properties =~= event_type().properties);
    }
    r
}

/// The node type `Effect`.
pub open spec fn effect_type() -> NodeTypeView {
    NodeTypeView {
        name: "oa.effect"@,
        label: "Effect"@,
        properties: seq![
            property("operation_key"@, PropertyKind::Text, true, true, true),
            property("effect_intent_id"@, PropertyKind::Text, true, true, true),
            property("unit_id"@, PropertyKind::Text, true, true, false),
            property("version"@, PropertyKind::Uint, true, false, false),
            property("state"@, PropertyKind::Text, true, false, false),
            property("terminal"@, PropertyKind::Text, false, false, false),
            property("record"@, PropertyKind::Text, true, false, false),
        ],
    }
}

fn effect_node() -> (r: NodeType)
    ensures
        r@ == effect_type(),
{
    let mut properties: Vec<crate::graph::PropertyType> = Vec::new();
    properties.push(prop_def("operation_key", PropertyKind::Text, true, true, true));
    properties.push(prop_def("effect_intent_id", PropertyKind::Text, true, true, true));
    properties.push(prop_def("unit_id", PropertyKind::Text, true, true, false));
    properties.push(prop_def("version", PropertyKind::Uint, true, false, false));
    properties.push(prop_def("state", PropertyKind::Text, true, false, false));
    properties.push(prop_def("terminal", PropertyKind::Text, false, false, false));
    properties.push(prop_def("record", PropertyKind::Text, true, false, false));
    let r = NodeType { name: "oa.effect", label: "Effect", properties };
    proof {
        assert(r@.properties =~= effect_type().properties);
    }
    r
}

/// The node type `Evidence`.
pub open spec fn evidence_type() -> NodeTypeView {
    NodeTypeView {
        name: "oa.evidence"@,
        label: "Evidence"@,
        properties: seq![
            property("evidence_key"@, PropertyKind::Text, true, true, true),
            property("work_item_id"@, PropertyKind::Text, true, true, false),
            property("artifact_set_digest"@, PropertyKind::Text, true, true, false),
            property("record"@, PropertyKind::Text, true, true, false),
        ],
    }
}

fn evidence_node() -> (r: NodeType)
    ensures
        r@ == evidence_type(),
{
    let mut properties: Vec<crate::graph::PropertyType> = Vec::new();
    properties.push(prop_def("evidence_key", PropertyKind::Text, true, true, true));
    properties.push(prop_def("work_item_id", PropertyKind::Text, true, true, false));
    properties.push(prop_def("artifact_set_digest", PropertyKind::Text, true, true, false));
    properties.push(prop_def("record", PropertyKind::Text, true, true, false));
    let r = NodeType { name: "oa.evidence", label: "Evidence", properties };
    proof {
        assert(r@.properties =~= evidence_type().properties);
    }
    r
}

/// The closed schema `oa.control`.
pub open spec fn schema() -> GraphTypeView {
    GraphTypeView {
        name: "oa.control"@,
        node_types: seq![
            authority_type(),
            unit_type(),
            attempt_type(),
            lease_type(),
            work_item_type(),
            receipt_type(),
            event_type(),
            effect_type(),
            evidence_type(),
        ],
    }
}

/// The closed schema `oa.control`.
pub fn graph_type() -> (r: GraphType)
    ensures
        r@ == schema(),
{
    let mut node_types: Vec<NodeType> = Vec::new();
    node_types.push(authority_node());
    node_types.push(unit_node());
    node_types.push(attempt_node());
    node_types.push(lease_node());
    node_types.push(work_item_node());
    node_types.push(receipt_node());
    node_types.push(event_node());
    node_types.push(effect_node());
    node_types.push(evidence_node());
    let r = GraphType { name: "oa.control", node_types };
    proof {
        assert(r@.node_types =~= schema().node_types);
    }
    r
}

/// Every node type has a key that is required, unique and immutable, and nothing that is unique
/// can be freed.
pub proof fn node_types_are_keyed(i: int)
    requires
        0 <= i < schema().node_types.len(),
    ensures
        has_key(schema().node_types[i]),
        keys_are_fixed(schema().node_types[i]),
{
    let n = schema().node_types[i];
    if i == 0 {
        assert(n == authority_type());
    } else if i == 1 {
        assert(n == unit_type());
    } else if i == 2 {
        assert(n == attempt_type());
    } else if i == 3 {
        assert(n == lease_type());
    } else if i == 4 {
        assert(n == work_item_type());
    } else if i == 5 {
        assert(n == receipt_type());
    } else if i == 6 {
        assert(n == event_type());
    } else if i == 7 {
        assert(n == effect_type());
    } else if i == 8 {
        assert(n == evidence_type());
    }
}

/// Nothing of a journal event ever changes.
pub proof fn event_nodes_never_change()
    ensures
        is_frozen(event_type()),
{
}

/// Nothing of sealed evidence ever changes.
pub proof fn evidence_nodes_never_change()
    ensures
        is_frozen(evidence_type()),
{
}

} // verus!
