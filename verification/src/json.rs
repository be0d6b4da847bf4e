//! JSON trees of plain values, and the calls that read and write their text.
use crate::table::{lookup, place_is};
use crate::text::{dec, decimal, opt_view, same, views};
use vstd::prelude::*;
use vstd::string::*;
use vstd::utf8::encode_utf8;

pub mod laws;

verus! {

/// A JSON value. An object is a list of members; where a name occurs twice the last one
/// holds.
#[derive(Debug, PartialEq)]
pub enum Json {
    Null,
    Bool(bool),
    /// A number without sign, fraction or exponent.
    Uint(u64),
    /// A negative integer.
    Int(i64),
    /// Any other number, by its text.
    Real(String),
    Str(String),
    Array(Vec<Json>),
    Object(Vec<(String, Json)>),
}

/// What a JSON value means: an object is a map from names to values.
pub enum JsonView {
    Null,
    Bool(bool),
    Uint(u64),
    Int(i64),
    Real(Seq<char>),
    Str(Seq<char>),
    Array(Seq<JsonView>),
    Object(Map<Seq<char>, JsonView>),
}

impl View for Json {
    type V = JsonView;

    open spec fn view(&self) -> JsonView
        decreases self,
    {
        match self {
            Json::Null => JsonView::Null,
            Json::Bool(b) => JsonView::Bool(*b),
            Json::Uint(n) => JsonView::Uint(*n),
            Json::Int(n) => JsonView::Int(*n),
            Json::Real(s) => JsonView::Real(s@),
            Json::Str(s) => JsonView::Str(s@),
            Json::Array(items) => JsonView::Array(
                Seq::new(
                    items@.len(),
                    |i: int|
                        if 0 <= i < items@.len() {
                            items@[i].view()
                        } else {
                            arbitrary()
                        },
                ),
            ),
            Json::Object(members) => JsonView::Object(member_map(members@)),
        }
    }
}

/// The map that a list of members stands for.
pub open spec fn member_map(members: Seq<(String, Json)>) -> Map<Seq<char>, JsonView>
    decreases members,
{
    if members.len() == 0 {
        Map::empty()
    } else {
        member_map(members.drop_last()).insert(members.last().0@, members.last().1.view())
    }
}

/// The name under which serde_json wraps a text that it keeps as it stands: an object that begins
/// with it is read as the value in its text.
pub open spec fn raw_name() -> Seq<char> {
    "$serde_json::private::RawValue"@
}

/// Whether a name may stand in an object that is read back as one.
pub open spec fn ordinary(name: Seq<char>) -> bool {
    name != raw_name()
}

/// Whether a name may stand in an object that is read back as one.
pub fn is_ordinary(name: &str) -> (r: bool)
    ensures
        r == ordinary(name@),
{
    !same(name, "$serde_json::private::RawValue")
}

/// Whether a value nests at most `depth` levels, holds no fraction or exponent, writes every
/// number without a sign as one, and names its members ordinarily.
pub open spec fn plain(value: JsonView, depth: nat) -> bool
    decreases depth,
{
    match value {
        JsonView::Real(_) => false,
        JsonView::Int(n) => n < 0,
        JsonView::Array(items) => depth > 0 && forall|i: int|
            0 <= i < items.len() ==> plain(#[trigger] items[i], (depth - 1) as nat),
        JsonView::Object(members) => depth > 0 && forall|name: Seq<char>|
            members.dom().contains(name) ==> plain(#[trigger] members[name], (depth - 1) as nat)
            && ordinary(name),
        _ => true,
    }
}

impl Json {
    /// The value of a member of an object; `None` for an absent member and for any other
    /// value.
    pub fn get(&self, name: &str) -> (r: Option<&Json>)
        ensures
            match r {
                Some(value) => self@ is Object && self@->Object_0.dom().contains(name@)
                    && self@->Object_0[name@] == value@,
                None => !(self@ is Object && self@->Object_0.dom().contains(name@)),
            },
    {
        match self {
            Json::Object(members) => {
                let mut i: usize = members.len();
                proof {
                    assert(members@.take(i as int) =~= members@);
                }
                while i > 0
                    invariant
                        i <= members.len(),
                        *self == Json::Object(*members),
                        member_map(members@).dom().contains(name@) == member_map(
                            members@.take(i as int),
                        ).dom().contains(name@),
                        member_map(members@)[name@] == member_map(members@.take(i as int))[name@],
                    decreases i,
                {
                    i -= 1;
                    proof {
                        let front = members@.take(i + 1);
                        assert(front.drop_last() =~= members@.take(i as int));
                        assert(front.last() == members@[i as int]);
                        assert(member_map(front) == member_map(front.drop_last()).insert(
                            front.last().0@,
                            front.last().1@,
                        ));
                    }
                    if same(&members[i].0, name) {
                        return Some(&members[i].1);
                    }
                }
                None
            },
            _ => None,
        }
    }

    /// The text of a string.
    pub fn as_text(&self) -> (r: Option<&String>)
        ensures
            match r {
                Some(s) => self@ == JsonView::Str(s@),
                None => !(self@ is Str),
            },
    {
        match self {
            Json::Str(s) => Some(s),
            _ => None,
        }
    }

    /// The value of a number without sign, fraction or exponent.
    pub fn as_u64(&self) -> (r: Option<u64>)
        ensures
            match r {
                Some(n) => self@ == JsonView::Uint(n),
                None => !(self@ is Uint),
            },
    {
        match self {
            Json::Uint(n) => Some(*n),
            _ => None,
        }
    }
}

/// Whether a value nests at most `depth` levels, holds no fraction or exponent, writes every
/// number without a sign as one, and names its members ordinarily.
pub fn is_plain(value: &Json, depth: u64) -> (r: bool)
    ensures
        r == plain(value@, depth as nat),
    decreases depth,
{
    match value {
        Json::Real(_) => false,
        Json::Int(n) => *n < 0,
        Json::Array(items) => {
            if depth == 0 {
                return false;
            }
            let ghost tree = value@->Array_0;
            let mut i: usize = 0;
            proof {
                array_items(*value);
            }
            while i < items.len()
                invariant
                    i <= items.len(),
                    depth > 0,
                    value@ == JsonView::Array(tree),
                    tree.len() == items.len(),
                    forall|k: int| 0 <= k < tree.len() ==> tree[k] == (#[trigger] items@[k])@,
                    forall|k: int| 0 <= k < i ==> plain(#[trigger] tree[k], (depth - 1) as nat),
                decreases items.len() - i,
            {
                proof {
                    assert(tree[i as int] == items@[i as int]@);
                }
                if !is_plain(&items[i], depth - 1) {
                    proof {
                        item_is_plain(tree, i as int, depth as nat);
                    }
                    return false;
                }
                i += 1;
            }
            true
        },
        Json::Object(members) => {
            if depth == 0 {
                return false;
            }
            let ghost tree = value@->Object_0;
            let mut i: usize = 0;
            while i < members.len()
                invariant
                    i <= members.len(),
                    depth > 0,
                    *value == Json::Object(*members),
                    tree == member_map(members@),
                    value@ == JsonView::Object(tree),
                    forall|k: int|
                        0 <= k < i ==> ordinary((#[trigger] members@[k]).0@) && plain(
                            tree[members@[k].0@],
                            (depth - 1) as nat,
                        ),
                decreases members.len() - i,
            {
                proof {
                    member_is_there(members@, i as int);
                }
                if !is_ordinary(&members[i].0) {
                    proof {
                        assert(tree.dom().contains(members@[i as int].0@));
                        member_is_plain(tree, members@[i as int].0@, depth as nat);
                    }
                    return false;
                }
                match value.get(&members[i].0) {
                    Some(v) => {
                        if !is_plain(v, depth - 1) {
                            proof {
                                member_is_plain(tree, members@[i as int].0@, depth as nat);
                            }
                            return false;
                        }
                    },
                    None => {
                        return false;
                    },
                }
                i += 1;
            }
            proof {
                assert forall|name: Seq<char>| #[trigger] tree.dom().contains(name) implies ordinary(
                    name,
                ) && plain(tree[name], (depth - 1) as nat) by {
                    member_has_place(members@, name);
                    let k = choose|k: int|
                        0 <= k < members@.len() && (#[trigger] members@[k]).0@ == name;
                    assert(members@[k].0@ == name);
                }
                members_are_plain(tree, depth as nat);
            }
            true
        },
        _ => true,
    }
}

proof fn member_is_plain(tree: Map<Seq<char>, JsonView>, name: Seq<char>, depth: nat)
    requires
        tree.dom().contains(name),
        depth > 0,
    ensures
        plain(JsonView::Object(tree), depth) ==> ordinary(name) && plain(
            tree[name],
            (depth - 1) as nat,
        ),
{
    if plain(JsonView::Object(tree), depth) {
        let v = JsonView::Object(tree);
        assert(v->Object_0 == tree);
        assert(plain(v->Object_0[name], (depth - 1) as nat));
    }
}

proof fn members_are_plain(tree: Map<Seq<char>, JsonView>, depth: nat)
    requires
        depth > 0,
        forall|name: Seq<char>| #[trigger]
            tree.dom().contains(name) ==> ordinary(name) && plain(tree[name], (depth - 1) as nat),
    ensures
        plain(JsonView::Object(tree), depth),
{
    let v = JsonView::Object(tree);
    assert(v->Object_0 == tree);
    assert forall|name: Seq<char>| v->Object_0.dom().contains(name) implies plain(
        #[trigger] v->Object_0[name],
        (depth - 1) as nat,
    ) && ordinary(name) by {}
}

proof fn item_is_plain(tree: Seq<JsonView>, i: int, depth: nat)
    requires
        0 <= i < tree.len(),
        depth > 0,
    ensures
        plain(JsonView::Array(tree), depth) ==> plain(tree[i], (depth - 1) as nat),
{
    if plain(JsonView::Array(tree), depth) {
        let v = JsonView::Array(tree);
        assert(v->Array_0 == tree);
        assert(plain(v->Array_0[i], (depth - 1) as nat));
    }
}

pub(crate) proof fn array_items(value: Json)
    requires
        value is Array,
    ensures
        value@ is Array,
        value@->Array_0.len() == value->Array_0@.len(),
        forall|k: int|
            0 <= k < value@->Array_0.len() ==> value@->Array_0[k] == (
            #[trigger] value->Array_0@[k])@,
{
    match value {
        Json::Array(items) => {
            reveal_with_fuel(<Json as View>::view, 2);
            assert(value == Json::Array(items));
            assert(value@->Array_0.len() == items@.len());
            assert forall|k: int| 0 <= k < items@.len() implies value@->Array_0[k] == (
            #[trigger] items@[k])@ by {}
        },
        _ => {},
    }
}

pub(crate) proof fn member_is_there(members: Seq<(String, Json)>, i: int)
    requires
        0 <= i < members.len(),
    ensures
        member_map(members).dom().contains(members[i].0@),
    decreases members.len(),
{
    assert(member_map(members) == member_map(members.drop_last()).insert(
        members.last().0@,
        members.last().1@,
    ));
    if i < members.len() - 1 {
        member_is_there(members.drop_last(), i);
        assert(members.drop_last()[i] == members[i]);
    }
}

pub(crate) proof fn member_has_place(members: Seq<(String, Json)>, name: Seq<char>)
    requires
        member_map(members).dom().contains(name),
    ensures
        exists|k: int| 0 <= k < members.len() && (#[trigger] members[k]).0@ == name,
    decreases members.len(),
{
    if members.len() > 0 {
        assert(member_map(members) == member_map(members.drop_last()).insert(
            members.last().0@,
            members.last().1@,
        ));
        if members.last().0@ == name {
            assert(members[members.len() - 1].0@ == name);
        } else {
            member_has_place(members.drop_last(), name);
            let k = choose|k: int|
                0 <= k < members.drop_last().len() && (#[trigger] members.drop_last()[k]).0@
                    == name;
            assert(members[k] == members.drop_last()[k]);
        }
    }
}

/// The names under which members are written are ordinary.
pub(crate) proof fn names_are_ordinary()
    ensures
        ordinary("acceptance_contract_digest"@),
        ordinary("adapter_id"@),
        ordinary("after_cursor"@),
        ordinary("aggregate_id"@),
        ordinary("aggregate_kind"@),
        ordinary("aggregate_version"@),
        ordinary("attempt_epoch"@),
        ordinary("attempt_id"@),
        ordinary("attempt_token"@),
        ordinary("authority_epoch"@),
        ordinary("cancel_request_id"@),
        ordinary("causation_id"@),
        ordinary("command_id"@),
        ordinary("command_type"@),
        ordinary("correlation_id"@),
        ordinary("cursor"@),
        ordinary("deadline"@),
        ordinary("declared_write_scope"@),
        ordinary("delivered_at"@),
        ordinary("detail"@),
        ordinary("dispatched_at"@),
        ordinary("durable_event_queue_capacity"@),
        ordinary("effect_intent_id"@),
        ordinary("error_kind"@),
        ordinary("event_cursors"@),
        ordinary("event_id"@),
        ordinary("event_kind"@),
        ordinary("event_version"@),
        ordinary("existing"@),
        ordinary("goal_work_item_id"@),
        ordinary("holder_id"@),
        ordinary("kind"@),
        ordinary("last_delivered_cursor"@),
        ordinary("logical_operation_id"@),
        ordinary("max_age_seconds"@),
        ordinary("max_events_per_project"@),
        ordinary("member_id"@),
        ordinary("members"@),
        ordinary("message"@),
        ordinary("min_retained_cursor"@),
        ordinary("next_reconcile_at"@),
        ordinary("nonce"@),
        ordinary("observed_at"@),
        ordinary("occurred_at"@),
        ordinary("occurrence_id"@),
        ordinary("operation_key"@),
        ordinary("ordinal"@),
        ordinary("outcome"@),
        ordinary("payload_schema_version"@),
        ordinary("policy"@),
        ordinary("principal_id"@),
        ordinary("principal_kind"@),
        ordinary("progress_event_queue_capacity"@),
        ordinary("project_id"@),
        ordinary("protocol_version"@),
        ordinary("reason"@),
        ordinary("receipt_version"@),
        ordinary("reconcile_required"@),
        ordinary("request_digest"@),
        ordinary("retry_after_ms"@),
        ordinary("retry_class"@),
        ordinary("retryable"@),
        ordinary("reversibility_class"@),
        ordinary("root_id"@),
        ordinary("root_kind"@),
        ordinary("rule_4"@),
        ordinary("run_id"@),
        ordinary("scope_id"@),
        ordinary("scope_kind"@),
        ordinary("settled_at"@),
        ordinary("stamp"@),
        ordinary("state"@),
        ordinary("state_version"@),
        ordinary("status"@),
        ordinary("stream_class"@),
        ordinary("subscription_id"@),
        ordinary("target_enumeration"@),
        ordinary("targets"@),
        ordinary("terminal"@),
        ordinary("token_nonce"@),
        ordinary("trace_context"@),
        ordinary("unit_id"@),
        ordinary("version"@),
        ordinary("work_item_id"@),
{
    reveal_strlit("$serde_json::private::RawValue");
    assert(raw_name()[0] == '$');
    reveal_strlit("acceptance_contract_digest");
    reveal_strlit("adapter_id");
    reveal_strlit("after_cursor");
    reveal_strlit("aggregate_id");
    reveal_strlit("aggregate_kind");
    reveal_strlit("aggregate_version");
    reveal_strlit("attempt_epoch");
    reveal_strlit("attempt_id");
    reveal_strlit("attempt_token");
    reveal_strlit("authority_epoch");
    reveal_strlit("cancel_request_id");
    reveal_strlit("causation_id");
    reveal_strlit("command_id");
    reveal_strlit("command_type");
    reveal_strlit("correlation_id");
    reveal_strlit("cursor");
    reveal_strlit("deadline");
    reveal_strlit("declared_write_scope");
    reveal_strlit("delivered_at");
    reveal_strlit("detail");
    reveal_strlit("dispatched_at");
    reveal_strlit("durable_event_queue_capacity");
    reveal_strlit("effect_intent_id");
    reveal_strlit("error_kind");
    reveal_strlit("event_cursors");
    reveal_strlit("event_id");
    reveal_strlit("event_kind");
    reveal_strlit("event_version");
    reveal_strlit("existing");
    reveal_strlit("goal_work_item_id");
    reveal_strlit("holder_id");
    reveal_strlit("kind");
    reveal_strlit("last_delivered_cursor");
    reveal_strlit("logical_operation_id");
    reveal_strlit("max_age_seconds");
    reveal_strlit("max_events_per_project");
    reveal_strlit("member_id");
    reveal_strlit("members");
    reveal_strlit("message");
    reveal_strlit("min_retained_cursor");
    reveal_strlit("next_reconcile_at");
    reveal_strlit("nonce");
    reveal_strlit("observed_at");
    reveal_strlit("occurred_at");
    reveal_strlit("occurrence_id");
    reveal_strlit("operation_key");
    reveal_strlit("ordinal");
    reveal_strlit("outcome");
    reveal_strlit("payload_schema_version");
    reveal_strlit("policy");
    reveal_strlit("principal_id");
    reveal_strlit("principal_kind");
    reveal_strlit("progress_event_queue_capacity");
    reveal_strlit("project_id");
    reveal_strlit("protocol_version");
    reveal_strlit("reason");
    reveal_strlit("receipt_version");
    reveal_strlit("reconcile_required");
    reveal_strlit("request_digest");
    reveal_strlit("retry_after_ms");
    reveal_strlit("retry_class");
    reveal_strlit("retryable");
    reveal_strlit("reversibility_class");
    reveal_strlit("root_id");
    reveal_strlit("root_kind");
    reveal_strlit("rule_4");
    reveal_strlit("run_id");
    reveal_strlit("scope_id");
    reveal_strlit("scope_kind");
    reveal_strlit("settled_at");
    reveal_strlit("stamp");
    reveal_strlit("state");
    reveal_strlit("state_version");
    reveal_strlit("status");
    reveal_strlit("stream_class");
    reveal_strlit("subscription_id");
    reveal_strlit("target_enumeration");
    reveal_strlit("targets");
    reveal_strlit("terminal");
    reveal_strlit("token_nonce");
    reveal_strlit("trace_context");
    reveal_strlit("unit_id");
    reveal_strlit("version");
    reveal_strlit("work_item_id");
}

/// The string `s` as a JSON value.
pub fn text_value(s: &str) -> (r: Json)
    ensures
        r@ == JsonView::Str(s@),
{
    Json::Str(s.to_owned())
}

/// Whether every member is plain enough to stand in a plain object.
pub open spec fn flat(members: Seq<(String, Json)>) -> bool {
    forall|name: Seq<char>| #[trigger]
        member_map(members).dom().contains(name) ==> ordinary(name) && plain(
            member_map(members)[name],
            7,
        )
}

/// Adds a member to an object, or replaces it.
pub fn put(members: &mut Vec<(String, Json)>, name: &str, value: Json)
    ensures
        member_map(final(members)@) == member_map(old(members)@).insert(name@, value@),
        flat(old(members)@) && ordinary(name@) && plain(value@, 7) ==> flat(final(members)@),
{
    let ghost before = members@;
    members.push((name.to_owned(), value));
    proof {
        assert(members@.drop_last() =~= before);
        if flat(before) && ordinary(name@) && plain(value@, 7) {
            let map = member_map(members@);
            assert forall|other: Seq<char>| #[trigger] map.dom().contains(other) implies ordinary(
                other,
            ) && plain(map[other], 7) by {
                if other != name@ {
                    assert(member_map(before).dom().contains(other));
                }
            }
        }
    }
}

/// The object with the given members.
pub fn object(members: Vec<(String, Json)>) -> (r: Json)
    requires
        flat(members@),
    ensures
        r@ == JsonView::Object(member_map(members@)),
        plain(r@, 8),
{
    let r = Json::Object(members);
    proof {
        members_are_plain(member_map(members@), 8);
    }
    r
}

/// The object with one member.
pub fn object1(a: &str, va: Json) -> (r: Json)
    requires
        ordinary(a@),
        plain(va@, 7),
    ensures
        r@ == JsonView::Object(Map::empty().insert(a@, va@)),
        plain(r@, 8),
{
    let mut members: Vec<(String, Json)> = Vec::new();
    put(&mut members, a, va);
    object(members)
}

/// The object with two members.
pub fn object2(a: &str, va: Json, b: &str, vb: Json) -> (r: Json)
    requires
        ordinary(a@),
        ordinary(b@),
        plain(va@, 7),
        plain(vb@, 7),
    ensures
        r@ == JsonView::Object(Map::empty().insert(a@, va@).insert(b@, vb@)),
        plain(r@, 8),
{
    let mut members: Vec<(String, Json)> = Vec::new();
    put(&mut members, a, va);
    put(&mut members, b, vb);
    object(members)
}

/// The object with three members.
pub fn object3(a: &str, va: Json, b: &str, vb: Json, c: &str, vc: Json) -> (r: Json)
    requires
        ordinary(a@),
        ordinary(b@),
        ordinary(c@),
        plain(va@, 7),
        plain(vb@, 7),
        plain(vc@, 7),
    ensures
        r@ == JsonView::Object(Map::empty().insert(a@, va@).insert(b@, vb@).insert(c@, vc@)),
        plain(r@, 8),
{
    let mut members: Vec<(String, Json)> = Vec::new();
    put(&mut members, a, va);
    put(&mut members, b, vb);
    put(&mut members, c, vc);
    object(members)
}

/// The object with four members.
pub fn object4(a: &str, va: Json, b: &str, vb: Json, c: &str, vc: Json, d: &str, vd: Json) -> (r: Json)
    requires
        ordinary(a@),
        ordinary(b@),
        ordinary(c@),
        ordinary(d@),
        plain(va@, 7),
        plain(vb@, 7),
        plain(vc@, 7),
        plain(vd@, 7),
    ensures
        r@ == JsonView::Object(
            Map::empty().insert(a@, va@).insert(b@, vb@).insert(c@, vc@).insert(d@, vd@),
        ),
        plain(r@, 8),
{
    let mut members: Vec<(String, Json)> = Vec::new();
    put(&mut members, a, va);
    put(&mut members, b, vb);
    put(&mut members, c, vc);
    put(&mut members, d, vd);
    object(members)
}

/// The strings of a list as a JSON array.
pub fn text_array(list: &Vec<String>) -> (r: Json)
    ensures
        plain(r@, 7),
        plain(r@, 8),
        r@ == text_array_view(views(list@)),
{
    let mut items: Vec<Json> = Vec::new();
    let mut i: usize = 0;
    while i < list.len()
        invariant
            i <= list.len(),
            items.len() == i,
            forall|k: int| 0 <= k < i ==> (#[trigger] items@[k])@ == JsonView::Str(list@[k]@),
        decreases list.len() - i,
    {
        items.push(text_value(&list[i]));
        i += 1;
    }
    let r = Json::Array(items);
    proof {
        assert(r@->Array_0 =~= text_array_view(views(list@))->Array_0);
        assert forall|k: int| 0 <= k < r@->Array_0.len() implies plain(
            #[trigger] r@->Array_0[k],
            6,
        ) && plain(r@->Array_0[k], 7) by {
            assert(r@->Array_0[k] == JsonView::Str(list@[k]@));
        }
    }
    r
}

/// A JSON array of strings.
pub open spec fn text_array_view(list: Seq<Seq<char>>) -> JsonView {
    JsonView::Array(Seq::new(list.len(), |i: int| JsonView::Str(list[i])))
}

/// The text of a member of an object, where it is one.
pub open spec fn text_member(value: JsonView, name: Seq<char>) -> Option<Seq<char>> {
    if value is Object && value->Object_0.dom().contains(name) {
        match value->Object_0[name] {
            JsonView::Str(s) => Some(s),
            _ => None,
        }
    } else {
        None
    }
}

/// The number of a member of an object, where it is one.
pub open spec fn uint_member(value: JsonView, name: Seq<char>) -> Option<u64> {
    if value is Object && value->Object_0.dom().contains(name) {
        match value->Object_0[name] {
            JsonView::Uint(n) => Some(n),
            _ => None,
        }
    } else {
        None
    }
}

/// The text of a member of an object.
pub fn get_text(value: &Json, name: &str) -> (r: Option<String>)
    ensures
        opt_view(r) == text_member(value@, name@),
{
    match value.get(name) {
        Some(Json::Str(s)) => Some(s.clone()),
        _ => None,
    }
}

/// The number of a member of an object.
pub fn get_uint(value: &Json, name: &str) -> (r: Option<u64>)
    ensures
        r == uint_member(value@, name@),
{
    match value.get(name) {
        Some(Json::Uint(n)) => Some(*n),
        _ => None,
    }
}

// --- The fields of a struct ----------------------------------------------------------------------

/// Whether a value can hold the fields of a struct: by name in an object, or by position in an
/// array of at most as many items.
pub open spec fn shaped(value: JsonView, fields: nat) -> bool {
    match value {
        JsonView::Object(_) => true,
        JsonView::Array(items) => items.len() <= fields,
        _ => false,
    }
}

/// A field of a struct, by its name in an object or by its position in an array.
pub open spec fn field(value: JsonView, i: int, name: Seq<char>) -> Option<JsonView> {
    match value {
        JsonView::Array(items) => if 0 <= i < items.len() {
            Some(items[i])
        } else {
            None
        },
        _ => member(value, name),
    }
}

/// The text of a field, where it is one.
pub open spec fn text_field(value: JsonView, i: int, name: Seq<char>) -> Option<Seq<char>> {
    match field(value, i, name) {
        Some(JsonView::Str(s)) => Some(s),
        _ => None,
    }
}

/// The number of a field, where it is one.
pub open spec fn uint_field(value: JsonView, i: int, name: Seq<char>) -> Option<u64> {
    match field(value, i, name) {
        Some(JsonView::Uint(n)) => Some(n),
        _ => None,
    }
}

/// Whether a value can hold the fields of a struct.
pub fn is_shaped(value: &Json, fields: usize) -> (r: bool)
    ensures
        r == shaped(value@, fields as nat),
{
    match value {
        Json::Object(_) => true,
        Json::Array(items) => {
            proof {
                array_items(*value);
            }
            items.len() <= fields
        },
        _ => false,
    }
}

/// A field of a struct.
pub fn get_field<'a>(value: &'a Json, i: usize, name: &str) -> (r: Option<&'a Json>)
    ensures
        (match r {
            Some(x) => Some(x@),
            None => None,
        }) == field(value@, i as int, name@),
{
    match value {
        Json::Array(items) => {
            proof {
                array_items(*value);
            }
            if i < items.len() {
                Some(&items[i])
            } else {
                None
            }
        },
        _ => value.get(name),
    }
}

/// The text of a field.
pub fn get_text_field(value: &Json, i: usize, name: &str) -> (r: Option<String>)
    ensures
        opt_view(r) == text_field(value@, i as int, name@),
{
    match get_field(value, i, name) {
        Some(Json::Str(s)) => Some(s.clone()),
        _ => None,
    }
}

/// The number of a field.
pub fn get_uint_field(value: &Json, i: usize, name: &str) -> (r: Option<u64>)
    ensures
        r == uint_field(value@, i as int, name@),
{
    match get_field(value, i, name) {
        Some(Json::Uint(n)) => Some(*n),
        _ => None,
    }
}

// --- The text of a value -------------------------------------------------------------------------

/// A parsed JSON value of serde_json.
#[verifier::external_type_specification]
#[verifier::external_body]
pub struct ExValue(serde_json::Value);

/// What a `serde_json::Value` holds.
pub uninterp spec fn json_tree(value: serde_json::Value) -> JsonView;

/// What a text reads as: a value, or why it is no JSON text.
pub uninterp spec fn json_parse(text: Seq<char>) -> Result<JsonView, Seq<char>>;

/// A text that reads as a value.
pub open spec fn json_ok(value: JsonView) -> Result<JsonView, Seq<char>> {
    Ok(value)
}

/// A text that is no JSON text, for the reason in `message`.
pub open spec fn json_err(message: Seq<char>) -> Result<JsonView, Seq<char>> {
    Err(message)
}

/// The compact text of a value.
pub uninterp spec fn json_text(value: JsonView) -> Seq<char>;

/// The canonical bytes of a value.
pub uninterp spec fn canonical_of(value: JsonView) -> Seq<u8>;

/// `serde_json::from_str` into a `Value`: a function of the text. An error is given by its
/// message.
#[verifier::external_body]
fn value_from_text(text: &str) -> (r: Result<serde_json::Value, String>)
    ensures
        match r {
            Ok(value) => json_parse(text@) == json_ok(json_tree(value)),
            Err(message) => json_parse(text@) == json_err(message@),
        },
{
    serde_json::from_str::<serde_json::Value>(text).map_err(|e| e.to_string())
}

/// Takes a `serde_json::Value` apart, variant by variant.
#[verifier::external_body]
fn json_of_value(value: serde_json::Value) -> (r: Json)
    ensures
        r@ == json_tree(value),
{
    match value {
        serde_json::Value::Null => Json::Null,
        serde_json::Value::Bool(b) => Json::Bool(b),
        serde_json::Value::Number(n) => match (n.as_u64(), n.as_i64()) {
            (Some(u), _) => Json::Uint(u),
            (None, Some(i)) => Json::Int(i),
            (None, None) => Json::Real(n.to_string()),
        },
        serde_json::Value::String(s) => Json::Str(s),
        serde_json::Value::Array(a) => Json::Array(a.into_iter().map(json_of_value).collect()),
        serde_json::Value::Object(m) => Json::Object(
            m.into_iter().map(|(k, v)| (k, json_of_value(v))).collect(),
        ),
    }
}

/// Builds a `serde_json::Value`, variant by variant. A number with a fraction or an exponent is
/// left out, as its text need not be one that the crate prints; so is a signed number that is
/// not negative, which the crate holds without a sign.
#[verifier::external_body]
fn value_of_json(value: &Json) -> (r: serde_json::Value)
    requires
        plain(value@, 8),
    ensures
        json_tree(r) == value@,
{
    match value {
        Json::Null => serde_json::Value::Null,
        Json::Bool(b) => serde_json::Value::Bool(*b),
        Json::Uint(n) => serde_json::Value::from(*n),
        Json::Int(n) => serde_json::Value::from(*n),
        Json::Real(s) | Json::Str(s) => serde_json::Value::String(s.clone()),
        Json::Array(a) => serde_json::Value::Array(a.iter().map(value_of_json).collect()),
        Json::Object(m) => serde_json::Value::Object(
            m.iter().map(|(k, v)| (k.clone(), value_of_json(v))).collect(),
        ),
    }
}

/// `to_string` of a `serde_json::Value`: its compact text, a function of what it holds. The
/// text of a shallow value without fractions reads back as that value, unless an object in it
/// holds the name that the crate keeps for itself.
#[verifier::external_body]
fn value_text(value: &serde_json::Value) -> (r: String)
    ensures
        r@ == json_text(json_tree(*value)),
        plain(json_tree(*value), 8) ==> json_parse(r@) == json_ok(json_tree(*value)),
{
    value.to_string()
}

/// `serde_json_canonicalizer::to_vec` of a `serde_json::Value`: the canonical bytes, a
/// function of what the value holds. A `Value` has only string names and finite numbers, the
/// two things on which the call could fail.
#[verifier::external_body]
fn value_canonical(value: &serde_json::Value) -> (r: Result<Vec<u8>, String>)
    ensures
        r is Ok,
        r->Ok_0@ == canonical_of(json_tree(*value)),
{
    serde_json_canonicalizer::to_vec(value).map_err(|e| e.to_string())
}

/// Reads a JSON text.
pub fn parse_json(text: &str) -> (r: Result<Json, String>)
    ensures
        match r {
            Ok(value) => json_parse(text@) == json_ok(value@),
            Err(message) => json_parse(text@) == json_err(message@),
        },
{
    match value_from_text(text) {
        Ok(value) => Ok(json_of_value(value)),
        Err(message) => Err(message),
    }
}

/// The compact text of a value; it reads back as the value.
pub fn render_json(value: &Json) -> (r: String)
    requires
        plain(value@, 8),
    ensures
        r@ == json_text(value@),
        json_parse(r@) == json_ok(value@),
{
    value_text(&value_of_json(value))
}

/// The canonical bytes of a value.
pub fn canonical_bytes(value: &Json) -> (r: Vec<u8>)
    requires
        plain(value@, 8),
    ensures
        r@ == canonical_of(value@),
{
    match value_canonical(&value_of_json(value)) {
        Ok(bytes) => bytes,
        Err(_) => Vec::new(),
    }
}

// --- Values of the outside crate -----------------------------------------------------------------

/// A copy of a `serde_json::Value` by its `clone`.
#[verifier::external_body]
pub(crate) fn copy_value(value: &serde_json::Value) -> (r: serde_json::Value)
    ensures
        json_tree(r) == json_tree(*value),
{
    value.clone()
}

/// Takes the members of a `serde_json::Value` apart that is an object; any other value has
/// none.
#[verifier::external_body]
fn value_members(value: &serde_json::Value) -> (r: Vec<(String, serde_json::Value)>)
    ensures
        match json_tree(*value) {
            JsonView::Object(map) => value_map(r@) == map,
            _ => r@.len() == 0,
        },
{
    match value {
        serde_json::Value::Object(m) => m.iter().map(|(k, v)| (k.clone(), v.clone())).collect(),
        _ => Vec::new(),
    }
}

/// Takes the items of a `serde_json::Value` apart that is an array; any other value has none.
#[verifier::external_body]
fn value_items(value: &serde_json::Value) -> (r: Vec<serde_json::Value>)
    ensures
        match json_tree(*value) {
            JsonView::Array(items) => r@.map_values(|v: serde_json::Value| json_tree(v)) == items,
            _ => r@.len() == 0,
        },
{
    match value {
        serde_json::Value::Array(a) => a.clone(),
        _ => Vec::new(),
    }
}

/// `serde_json::Map::insert` on a `serde_json::Value` that is an object: adds a member, or
/// replaces it.
#[verifier::external_body]
fn value_with(value: serde_json::Value, name: &str, member: serde_json::Value) -> (r:
    serde_json::Value)
    requires
        json_tree(value) is Object,
    ensures
        json_tree(r) == tree_with(json_tree(value), name@, json_tree(member)),
{
    let mut value = value;
    if let serde_json::Value::Object(m) = &mut value {
        m.insert(name.to_owned(), member);
    }
    value
}

/// Builds a `serde_json::Value` that is an array.
#[verifier::external_body]
fn value_array(items: Vec<serde_json::Value>) -> (r: serde_json::Value)
    ensures
        json_tree(r) == tree_array(items@.map_values(|v: serde_json::Value| json_tree(v))),
{
    serde_json::Value::Array(items)
}

/// An object with a member added or replaced.
pub open spec fn tree_with(tree: JsonView, name: Seq<char>, member: JsonView) -> JsonView {
    JsonView::Object(tree->Object_0.insert(name, member))
}

/// An array.
pub open spec fn tree_array(items: Seq<JsonView>) -> JsonView {
    JsonView::Array(items)
}

/// The map that a list of members stands for.
pub open spec fn value_map(members: Seq<(String, serde_json::Value)>) -> Map<Seq<char>, JsonView>
    decreases members.len(),
{
    if members.len() == 0 {
        Map::empty()
    } else {
        value_map(members.drop_last()).insert(members.last().0@, json_tree(members.last().1))
    }
}

/// The member of an object, where there is one.
pub open spec fn member(tree: JsonView, name: Seq<char>) -> Option<JsonView> {
    if tree is Object && tree->Object_0.dom().contains(name) {
        Some(tree->Object_0[name])
    } else {
        None
    }
}

/// The member of a value that is an object, and has one of that name.
pub fn member_value(value: &serde_json::Value, name: &str) -> (r: Option<serde_json::Value>)
    ensures
        match r {
            Some(v) => member(json_tree(*value), name@) == Some(json_tree(v)),
            None => member(json_tree(*value), name@) is None,
        },
{
    let members = value_members(value);
    let mut i: usize = members.len();
    proof {
        assert(members@.take(i as int) =~= members@);
    }
    while i > 0
        invariant
            i <= members.len(),
            match json_tree(*value) {
                JsonView::Object(map) => value_map(members@) == map,
                _ => members@.len() == 0,
            },
            value_map(members@).dom().contains(name@) == value_map(
                members@.take(i as int),
            ).dom().contains(name@),
            value_map(members@)[name@] == value_map(members@.take(i as int))[name@],
        decreases i,
    {
        i -= 1;
        proof {
            let front = members@.take(i + 1);
            assert(front.drop_last() =~= members@.take(i as int));
            assert(front.last() == members@[i as int]);
        }
        if same(&members[i].0, name) {
            return Some(copy_value(&members[i].1));
        }
    }
    proof {
        assert(members@.take(0) =~= Seq::<(String, serde_json::Value)>::empty());
    }
    None
}

/// A field of a struct, as a value of the outside crate.
pub fn field_value(value: &serde_json::Value, i: usize, name: &str) -> (r: Option<
    serde_json::Value,
>)
    ensures
        match r {
            Some(v) => field(json_tree(*value), i as int, name@) == Some(json_tree(v)),
            None => field(json_tree(*value), i as int, name@) is None,
        },
{
    if !matches!(from_value(value), Json::Array(_)) {
        return member_value(value, name);
    }
    let items = value_items(value);
    let ghost trees = items@.map_values(|v: serde_json::Value| json_tree(v));
    proof {
        assert(json_tree(*value)->Array_0 == trees);
    }
    if i < items.len() {
        proof {
            assert(trees[i as int] == json_tree(items@[i as int]));
        }
        Some(copy_value(&items[i]))
    } else {
        None
    }
}

/// The members of a list whose names are none of `known`.
pub open spec fn others(members: Map<Seq<char>, JsonView>, known: Seq<Seq<char>>) -> Map<
    Seq<char>,
    JsonView,
> {
    members.remove_keys(Set::new(|name: Seq<char>| known.contains(name)))
}

/// The members of an object whose names are none of `known`.
pub fn other_members(value: &serde_json::Value, known: &Vec<String>) -> (r: Vec<
    (String, serde_json::Value),
>)
    ensures
        json_tree(*value) is Object ==> value_map(r@) == others(
            json_tree(*value)->Object_0,
            views(known@),
        ),
        !(json_tree(*value) is Object) ==> r@.len() == 0,
{
    let members = value_members(value);
    let mut out: Vec<(String, serde_json::Value)> = Vec::new();
    let mut i: usize = 0;
    proof {
        assert(members@.take(0) =~= Seq::<(String, serde_json::Value)>::empty());
        assert(value_map(out@) =~= others(
            value_map(members@.take(0)),
            views(known@),
        ));
    }
    while i < members.len()
        invariant
            i <= members.len(),
            members.len() == 0 ==> out@.len() == 0,
            value_map(out@) == others(
                value_map(members@.take(i as int)),
                views(known@),
            ),
        decreases members.len() - i,
    {
        let ghost before = out@;
        proof {
            let front = members@.take(i + 1);
            assert(front.drop_last() =~= members@.take(i as int));
            assert(front.last() == members@[i as int]);
        }
        if !crate::text::holds(known, &members[i].0) {
            out.push((members[i].0.clone(), copy_value(&members[i].1)));
            proof {
                assert(out@.drop_last() =~= before);
            }
        }
        proof {
            assert(value_map(out@) =~= others(
                value_map(members@.take(i + 1)),
                views(known@),
            ));
        }
        i += 1;
    }
    proof {
        assert(members@.take(members@.len() as int) =~= members@);
    }
    out
}

/// A value with the members of a list added.
pub fn with_members(value: serde_json::Value, extra: &Vec<(String, serde_json::Value)>) -> (r:
    serde_json::Value)
    requires
        json_tree(value) is Object,
    ensures
        json_tree(r) == JsonView::Object(
            json_tree(value)->Object_0.union_prefer_right(value_map(extra@)),
        ),
{
    let mut out = value;
    let mut i: usize = 0;
    let ghost base = json_tree(value)->Object_0;
    proof {
        assert(extra@.take(0) =~= Seq::<(String, serde_json::Value)>::empty());
        assert(base =~= base.union_prefer_right(value_map(extra@.take(0))));
    }
    while i < extra.len()
        invariant
            i <= extra.len(),
            json_tree(out) == JsonView::Object(
                base.union_prefer_right(value_map(extra@.take(i as int))),
            ),
        decreases extra.len() - i,
    {
        proof {
            let front = extra@.take(i + 1);
            assert(front.drop_last() =~= extra@.take(i as int));
            assert(front.last() == extra@[i as int]);
            assert(base.union_prefer_right(value_map(front)) =~= base.union_prefer_right(
                value_map(extra@.take(i as int)),
            ).insert(extra@[i as int].0@, json_tree(extra@[i as int].1)));
        }
        out = value_with(out, &extra[i].0, copy_value(&extra[i].1));
        i += 1;
    }
    proof {
        assert(extra@.take(extra@.len() as int) =~= extra@);
    }
    out
}

/// A value with one member added or replaced.
pub fn with_member(value: serde_json::Value, name: &str, member: serde_json::Value) -> (r:
    serde_json::Value)
    requires
        json_tree(value) is Object,
    ensures
        json_tree(r) == tree_with(json_tree(value), name@, json_tree(member)),
{
    value_with(value, name, member)
}

/// An array of values.
pub fn array_of(items: Vec<serde_json::Value>) -> (r: serde_json::Value)
    ensures
        json_tree(r) == tree_array(items@.map_values(|v: serde_json::Value| json_tree(v))),
{
    value_array(items)
}

/// A value of the outside crate for a plain value.
pub fn to_value(value: &Json) -> (r: serde_json::Value)
    requires
        plain(value@, 8),
    ensures
        json_tree(r) == value@,
{
    value_of_json(value)
}

/// Whether a value of the outside crate is an object.
pub fn is_object(value: &serde_json::Value) -> (r: bool)
    ensures
        r == (json_tree(*value) is Object),
{
    matches!(from_value(value), Json::Object(_))
}

/// What a value of the outside crate holds.
pub fn from_value(value: &serde_json::Value) -> (r: Json)
    ensures
        r@ == json_tree(*value),
{
    json_of_value(copy_value(value))
}

/// Reads a JSON text into a value of the outside crate.
pub fn parse_value(text: &str) -> (r: Result<serde_json::Value, String>)
    ensures
        match r {
            Ok(value) => json_parse(text@) == json_ok(json_tree(value)),
            Err(message) => json_parse(text@) == json_err(message@),
        },
{
    value_from_text(text)
}

/// The compact text of a value of the outside crate.
pub fn text_of_value(value: &serde_json::Value) -> (r: String)
    ensures
        r@ == json_text(json_tree(*value)),
        plain(json_tree(*value), 8) ==> json_parse(r@) == json_ok(json_tree(*value)),
{
    value_text(value)
}

/// The canonical bytes of a value of the outside crate.
pub fn canonical_value(value: &serde_json::Value) -> (r: Vec<u8>)
    ensures
        r@ == canonical_of(json_tree(*value)),
{
    match value_canonical(value) {
        Ok(bytes) => bytes,
        Err(_) => Vec::new(),
    }
}

/// What the bytes of a text read as: a value, or why they are no JSON text.
pub uninterp spec fn json_parse_bytes(bytes: Seq<u8>) -> Result<JsonView, Seq<char>>;

/// `serde_json::from_slice` into a `Value`: a function of the bytes.
#[verifier::external_body]
fn value_from_bytes(bytes: &[u8]) -> (r: Result<serde_json::Value, String>)
    ensures
        match r {
            Ok(value) => json_parse_bytes(bytes@) == json_ok(json_tree(value)),
            Err(message) => json_parse_bytes(bytes@) == json_err(message@),
        },
{
    serde_json::from_slice::<serde_json::Value>(bytes).map_err(|e| e.to_string())
}

/// What the bytes of an object read as when its members are kept as they stand in the text:
/// their names, in order, and the text of their values; or why they are no object.
pub uninterp spec fn json_raw_members(bytes: Seq<u8>) -> Result<
    Seq<(Seq<char>, Seq<char>)>,
    Seq<char>,
>;

/// What the bytes of an array read as when its items are kept as they stand in the text; or why
/// they are no array.
pub uninterp spec fn json_raw_items(bytes: Seq<u8>) -> Result<Seq<Seq<char>>, Seq<char>>;

/// The members of a list, as they stand in the text.
pub open spec fn raw_views(members: Seq<(String, String)>) -> Seq<(Seq<char>, Seq<char>)> {
    members.map_values(|p: (String, String)| (p.0@, p.1@))
}

/// An object whose members are kept as they stand in the text.
pub open spec fn raw_ok(members: Seq<(String, String)>) -> Result<
    Seq<(Seq<char>, Seq<char>)>,
    Seq<char>,
> {
    Ok(raw_views(members))
}

/// Bytes that are no object, for the reason in `message`.
pub open spec fn raw_err(message: Seq<char>) -> Result<Seq<(Seq<char>, Seq<char>)>, Seq<char>> {
    Err(message)
}

/// An array whose items are kept as they stand in the text.
pub open spec fn items_ok(items: Seq<String>) -> Result<Seq<Seq<char>>, Seq<char>> {
    Ok(views(items))
}

/// Bytes that are no array, for the reason in `message`.
pub open spec fn items_err(message: Seq<char>) -> Result<Seq<Seq<char>>, Seq<char>> {
    Err(message)
}

/// `serde_json::from_slice` into a map of `RawValue`s: a function of the bytes. The names come
/// in their order, each once; where a name occurs twice the last one holds.
#[verifier::external_body]
fn raw_from_bytes(bytes: &[u8]) -> (r: Result<Vec<(String, String)>, String>)
    ensures
        match r {
            Ok(members) => json_raw_members(bytes@) == raw_ok(members@),
            Err(message) => json_raw_members(bytes@) == raw_err(message@),
        },
{
    serde_json::from_slice::<std::collections::BTreeMap<String, Box<serde_json::value::RawValue>>>(
        bytes,
    )
        .map(|m| m.into_iter().map(|(k, v)| (k, v.get().to_owned())).collect())
        .map_err(|e| e.to_string())
}

/// `serde_json::from_slice` into a list of `RawValue`s: a function of the bytes.
#[verifier::external_body]
fn raw_items_from_bytes(bytes: &[u8]) -> (r: Result<Vec<String>, String>)
    ensures
        match r {
            Ok(items) => json_raw_items(bytes@) == items_ok(items@),
            Err(message) => json_raw_items(bytes@) == items_err(message@),
        },
{
    serde_json::from_slice::<Vec<Box<serde_json::value::RawValue>>>(bytes)
        .map(|a| a.into_iter().map(|v| v.get().to_owned()).collect())
        .map_err(|e| e.to_string())
}

/// The text of one member.
pub fn find_raw(members: &Vec<(String, String)>, name: &str) -> (r: Option<String>)
    ensures
        opt_view(r) == lookup(raw_views(members@), name@),
{
    let ghost all = raw_views(members@);
    let mut i: usize = 0;
    while i < members.len()
        invariant
            i <= members.len(),
            all == raw_views(members@),
            forall|k: int| 0 <= k < i ==> (#[trigger] all[k]).0 != name@,
        decreases members.len() - i,
    {
        proof {
            assert(all[i as int] == (members@[i as int].0@, members@[i as int].1@));
        }
        if same(&members[i].0, name) {
            proof {
                place_is(all, name@, i as int);
            }
            return Some(members[i].1.clone());
        }
        i += 1;
    }
    proof {
        place_is(all, name@, i as int);
    }
    None
}

// --- Structs as they stand in the text -----------------------------------------------------------

/// The texts of the fields of a struct, as they stand in the bytes: by name in an object, or all
/// by position in an array. A missing field is reported by its name.
pub open spec fn raw_fields(bytes: Seq<u8>, names: Seq<Seq<char>>) -> Result<
    Seq<Seq<char>>,
    Seq<char>,
> {
    match json_raw_members(bytes) {
        Ok(members) => raw_named(members, names, names.len()),
        Err(e) => match json_raw_items(bytes) {
            Err(_) => Err(e),
            Ok(items) => if items.len() == names.len() {
                Ok(items)
            } else {
                Err("invalid length "@ + dec(items.len()))
            },
        },
    }
}

/// The texts of the first `n` fields by their names.
pub open spec fn raw_named(members: Seq<(Seq<char>, Seq<char>)>, names: Seq<Seq<char>>, n: nat) ->
    Result<Seq<Seq<char>>, Seq<char>>
    decreases n,
{
    if n == 0 {
        Ok(Seq::empty())
    } else {
        match raw_named(members, names, (n - 1) as nat) {
            Err(e) => Err(e),
            Ok(front) => match lookup(members, names[n - 1]) {
                Some(text) => Ok(front.push(text)),
                None => Err("missing field `"@ + names[n - 1] + "`"@),
            },
        }
    }
}

proof fn raw_named_stops(
    members: Seq<(Seq<char>, Seq<char>)>,
    names: Seq<Seq<char>>,
    i: nat,
    n: nat,
)
    requires
        i <= n,
        raw_named(members, names, i) is Err,
    ensures
        raw_named(members, names, n) == raw_named(members, names, i),
    decreases n - i,
{
    if i < n {
        raw_named_stops(members, names, i, (n - 1) as nat);
    }
}

/// Reads the texts of the fields of a struct, as they stand in the bytes.
pub fn read_raw_fields(bytes: &[u8], names: &Vec<String>) -> (r: Result<Vec<String>, String>)
    ensures
        match r {
            Ok(texts) => raw_fields(bytes@, views(names@)) == items_ok(texts@)
                && texts@.len() == names@.len(),
            Err(e) => raw_fields(bytes@, views(names@)) == items_err(e@),
        },
{
    let ghost wanted = views(names@);
    let members = match raw_from_bytes(bytes) {
        Ok(members) => members,
        Err(e) => {
            return match raw_items_from_bytes(bytes) {
                Err(_) => Err(e),
                Ok(items) => if items.len() == names.len() {
                    Ok(items)
                } else {
                    let mut s = "invalid length ".to_owned();
                    s.append(&decimal(items.len() as u64));
                    Err(s)
                },
            };
        },
    };
    let ghost all = raw_views(members@);
    let mut out: Vec<String> = Vec::new();
    let mut i: usize = 0;
    proof {
        assert(views(out@) =~= Seq::<Seq<char>>::empty());
    }
    while i < names.len()
        invariant
            i <= names.len(),
            wanted == views(names@),
            all == raw_views(members@),
            raw_fields(bytes@, wanted) == raw_named(all, wanted, wanted.len()),
            raw_named(all, wanted, i as nat) == items_ok(out@),
            out.len() == i,
        decreases names.len() - i,
    {
        let ghost before = views(out@);
        proof {
            assert(wanted[i as int] == names@[i as int]@);
        }
        match find_raw(&members, &names[i]) {
            Some(text) => {
                out.push(text);
                proof {
                    assert(views(out@) =~= before.push(text@));
                }
            },
            None => {
                let mut s = "missing field `".to_owned();
                s.append(&names[i]);
                s.append("`");
                proof {
                    assert(raw_named(all, wanted, (i + 1) as nat) == items_err(s@));
                    raw_named_stops(all, wanted, (i + 1) as nat, wanted.len());
                }
                return Err(s);
            },
        }
        i += 1;
    }
    Ok(out)
}

// --- Trees, level by level -----------------------------------------------------------------------

/// What the bytes of a text read as when every object in it is one, whatever its names: members
/// and items are read level by level, and only what is neither an object nor an array is read as
/// a whole. Objects and arrays nest less than `depth` levels.
pub open spec fn tree_of_bytes(bytes: Seq<u8>, depth: nat) -> Result<JsonView, Seq<char>>
    decreases depth, 0nat,
{
    match json_raw_members(bytes) {
        Ok(members) => if depth <= 1 {
            json_err("recursion limit exceeded"@)
        } else {
            match tree_of_members(members, members.len(), (depth - 1) as nat) {
                Ok(map) => json_ok(JsonView::Object(map)),
                Err(e) => json_err(e),
            }
        },
        Err(_) => match json_raw_items(bytes) {
            Ok(items) => if depth <= 1 {
                json_err("recursion limit exceeded"@)
            } else {
                match tree_of_items(items, items.len(), (depth - 1) as nat) {
                    Ok(trees) => json_ok(JsonView::Array(trees)),
                    Err(e) => json_err(e),
                }
            },
            Err(_) => json_parse_bytes(bytes),
        },
    }
}

/// The trees of the first `n` members.
pub open spec fn tree_of_members(members: Seq<(Seq<char>, Seq<char>)>, n: nat, depth: nat) -> Result<
    Map<Seq<char>, JsonView>,
    Seq<char>,
>
    decreases depth, n + 1,
{
    if n == 0 {
        Ok(Map::empty())
    } else {
        match tree_of_members(members, (n - 1) as nat, depth) {
            Err(e) => Err(e),
            Ok(front) => match tree_of_bytes(encode_utf8(members[n - 1].1), depth) {
                Err(e) => Err(e),
                Ok(tree) => Ok(front.insert(members[n - 1].0, tree)),
            },
        }
    }
}

/// The trees of the first `n` items.
pub open spec fn tree_of_items(items: Seq<Seq<char>>, n: nat, depth: nat) -> Result<
    Seq<JsonView>,
    Seq<char>,
>
    decreases depth, n + 1,
{
    if n == 0 {
        Ok(Seq::empty())
    } else {
        match tree_of_items(items, (n - 1) as nat, depth) {
            Err(e) => Err(e),
            Ok(front) => match tree_of_bytes(encode_utf8(items[n - 1]), depth) {
                Err(e) => Err(e),
                Ok(tree) => Ok(front.push(tree)),
            },
        }
    }
}

proof fn members_stop(members: Seq<(Seq<char>, Seq<char>)>, i: nat, n: nat, depth: nat)
    requires
        i <= n,
        tree_of_members(members, i, depth) is Err,
    ensures
        tree_of_members(members, n, depth) == tree_of_members(members, i, depth),
    decreases n - i,
{
    if i < n {
        members_stop(members, i, (n - 1) as nat, depth);
    }
}

proof fn items_stop(items: Seq<Seq<char>>, i: nat, n: nat, depth: nat)
    requires
        i <= n,
        tree_of_items(items, i, depth) is Err,
    ensures
        tree_of_items(items, n, depth) == tree_of_items(items, i, depth),
    decreases n - i,
{
    if i < n {
        items_stop(items, i, (n - 1) as nat, depth);
    }
}

/// Whether a reading of bytes is what it should be.
pub open spec fn is_reading(
    r: Result<serde_json::Value, String>,
    want: Result<JsonView, Seq<char>>,
) -> bool {
    match r {
        Ok(value) => want == json_ok(json_tree(value)),
        Err(e) => want == json_err(e@),
    }
}

/// Reads the bytes of a text level by level.
pub fn read_tree(bytes: &[u8], depth: u64) -> (r: Result<serde_json::Value, String>)
    ensures
        is_reading(r, tree_of_bytes(bytes@, depth as nat)),
    decreases depth,
{
    match raw_from_bytes(bytes) {
        Ok(members) => {
            if depth <= 1 {
                return Err("recursion limit exceeded".to_owned());
            }
            let ghost all = raw_views(members@);
            let empty: Vec<(String, Json)> = Vec::new();
            let mut out = value_of_json(&object(empty));
            let ghost mut map: Map<Seq<char>, JsonView> = Map::empty();
            let mut i: usize = 0;
            while i < members.len()
                invariant
                    i <= members.len(),
                    depth > 1,
                    all == raw_views(members@),
                    json_raw_members(bytes@) == raw_ok(members@),
                    json_tree(out) == JsonView::Object(map),
                    tree_of_members(all, i as nat, (depth - 1) as nat) == Ok::<
                        Map<Seq<char>, JsonView>,
                        Seq<char>,
                    >(map),
                decreases members.len() - i,
            {
                proof {
                    assert(all[i as int] == (members@[i as int].0@, members@[i as int].1@));
                }
                match read_tree(members[i].1.as_str().as_bytes(), depth - 1) {
                    Ok(v) => {
                        let ghost tree = json_tree(v);
                        out = value_with(out, &members[i].0, v);
                        proof {
                            map = map.insert(all[i as int].0, tree);
                        }
                    },
                    Err(e) => {
                        proof {
                            members_stop(all, (i + 1) as nat, all.len(), (depth - 1) as nat);
                        }
                        return Err(e);
                    },
                }
                i += 1;
            }
            Ok(out)
        },
        Err(_) => match raw_items_from_bytes(bytes) {
            Ok(items) => {
                if depth <= 1 {
                    return Err("recursion limit exceeded".to_owned());
                }
                let ghost all = views(items@);
                let mut out: Vec<serde_json::Value> = Vec::new();
                let mut i: usize = 0;
                proof {
                    assert(out@.map_values(|v: serde_json::Value| json_tree(v))
                        =~= Seq::<JsonView>::empty());
                }
                while i < items.len()
                    invariant
                        i <= items.len(),
                        depth > 1,
                        all == views(items@),
                        json_raw_members(bytes@) is Err,
                        json_raw_items(bytes@) == items_ok(items@),
                        tree_of_items(all, i as nat, (depth - 1) as nat) == Ok::<
                            Seq<JsonView>,
                            Seq<char>,
                        >(out@.map_values(|v: serde_json::Value| json_tree(v))),
                    decreases items.len() - i,
                {
                    let ghost before = out@.map_values(|v: serde_json::Value| json_tree(v));
                    proof {
                        assert(all[i as int] == items@[i as int]@);
                    }
                    match read_tree(items[i].as_str().as_bytes(), depth - 1) {
                        Ok(v) => {
                            let ghost tree = json_tree(v);
                            out.push(v);
                            proof {
                                assert(out@.map_values(|v: serde_json::Value| json_tree(v))
                                    =~= before.push(tree));
                            }
                        },
                        Err(e) => {
                            proof {
                                items_stop(all, (i + 1) as nat, all.len(), (depth - 1) as nat);
                            }
                            return Err(e);
                        },
                    }
                    i += 1;
                }
                Ok(value_array(out))
            },
            Err(_) => value_from_bytes(bytes),
        },
    }
}

/// What the bytes of a text read as, level by level. Where they do not read, the reason is in the
/// words of the reader of whole texts, which knows the line and the column.
pub open spec fn reading_of(bytes: Seq<u8>, depth: nat) -> Result<JsonView, Seq<char>> {
    match tree_of_bytes(bytes, depth) {
        Ok(tree) => json_ok(tree),
        Err(e) => match json_parse_bytes(bytes) {
            Ok(_) => json_err(e),
            Err(words) => json_err(words),
        },
    }
}

/// Reads the bytes of a text.
pub fn read_bytes(bytes: &[u8], depth: u64) -> (r: Result<serde_json::Value, String>)
    ensures
        is_reading(r, reading_of(bytes@, depth as nat)),
{
    match read_tree(bytes, depth) {
        Ok(value) => Ok(value),
        Err(e) => match value_from_bytes(bytes) {
            Ok(_) => Err(e),
            Err(words) => Err(words),
        },
    }
}

} // verus!
