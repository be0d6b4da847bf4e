//! What reading a text level by level gives: which fields a struct gets, and which tree the bytes of a
//! value make.
use crate::json::{
    json_parse_bytes, json_raw_items, json_raw_members, raw_fields, raw_named, reading_of,
    tree_of_bytes, tree_of_items, tree_of_members,
};
use crate::table::{lookup, place, place_from_rule, place_is};
use vstd::prelude::*;
use vstd::utf8::encode_utf8;

verus! {

/// Whether the member at a place is the first one of a name.
pub open spec fn is_first_named(
    members: Seq<(Seq<char>, Seq<char>)>,
    name: Seq<char>,
    i: int,
) -> bool {
    &&& 0 <= i < members.len()
    &&& members[i].0 == name
    &&& forall|j: int| 0 <= j < i ==> (#[trigger] members[j]).0 != name
}

/// Whether a name has a member.
pub open spec fn has_named(members: Seq<(Seq<char>, Seq<char>)>, name: Seq<char>) -> bool {
    exists|i: int| #[trigger] is_first_named(members, name, i)
}

/// Whether the member at a place is the last one of its name.
pub open spec fn is_last_named(members: Seq<(Seq<char>, Seq<char>)>, i: int) -> bool {
    &&& 0 <= i < members.len()
    &&& forall|j: int| i < j < members.len() ==> (#[trigger] members[j]).0 != members[i].0
}

proof fn first_names_show(members: Seq<(Seq<char>, Seq<char>)>, name: Seq<char>)
    ensures
        lookup(members, name) is Some <==> has_named(members, name),
        forall|i: int| #[trigger]
            is_first_named(members, name, i) ==> lookup(members, name) == Some(members[i].1),
{
    place_from_rule(members, name, 0);
    let p = place(members, name);
    if p < members.len() {
        assert(is_first_named(members, name, p));
    }
    assert forall|i: int| #[trigger] is_first_named(members, name, i) implies lookup(members, name)
        == Some(members[i].1) by {
        place_is(members, name, i);
    }
}

proof fn named_fields_show(
    members: Seq<(Seq<char>, Seq<char>)>,
    names: Seq<Seq<char>>,
    n: nat,
)
    requires
        n <= names.len(),
    ensures
        raw_named(members, names, n) is Ok <==> forall|k: int|
            0 <= k < n ==> lookup(members, #[trigger] names[k]) is Some,
        raw_named(members, names, n) is Ok ==> raw_named(members, names, n)->Ok_0.len() == n
            && forall|k: int|
            0 <= k < n ==> lookup(members, #[trigger] names[k]) == Some(
                raw_named(members, names, n)->Ok_0[k],
            ),
    decreases n,
{
    if n > 0 {
        named_fields_show(members, names, (n - 1) as nat);
    }
}

/// The fields of a struct: of an object, the text of the first member of each name, and a fault where a
/// name has none; of an array of just as many items, the items; and of anything else a fault.
pub proof fn fields_are_read(bytes: Seq<u8>, names: Seq<Seq<char>>)
    ensures
        ({
            let r = raw_fields(bytes, names);
            let members = json_raw_members(bytes)->Ok_0;
            let items = json_raw_items(bytes)->Ok_0;
            &&& json_raw_members(bytes) is Ok ==> {
                &&& r is Ok <==> forall|k: int|
                    0 <= k < names.len() ==> has_named(members, #[trigger] names[k])
                &&& r is Ok ==> r->Ok_0.len() == names.len() && forall|k: int, i: int|
                    0 <= k < names.len() && #[trigger] is_first_named(
                        members,
                        #[trigger] names[k],
                        i,
                    ) ==> r->Ok_0[k] == members[i].1
            }
            &&& json_raw_members(bytes) is Err && json_raw_items(bytes) is Ok ==> {
                &&& r is Ok <==> items.len() == names.len()
                &&& r is Ok ==> r->Ok_0 == items
            }
            &&& json_raw_members(bytes) is Err && json_raw_items(bytes) is Err ==> r is Err
        }),
{
    if json_raw_members(bytes) is Ok {
        let members = json_raw_members(bytes)->Ok_0;
        named_fields_show(members, names, names.len());
        assert forall|k: int| 0 <= k < names.len() implies (lookup(members, #[trigger] names[k])
            is Some <==> has_named(members, names[k])) by {
            first_names_show(members, names[k]);
        }
        assert forall|k: int, i: int|
            raw_fields(bytes, names) is Ok && 0 <= k < names.len() && #[trigger] is_first_named(
                members,
                #[trigger] names[k],
                i,
            ) implies raw_fields(bytes, names)->Ok_0[k] == members[i].1 by {
            first_names_show(members, names[k]);
        }
    }
}

proof fn members_show(members: Seq<(Seq<char>, Seq<char>)>, n: nat, depth: nat)
    requires
        n <= members.len(),
    ensures
        ({
            let r = tree_of_members(members, n, depth);
            &&& r is Ok <==> forall|i: int|
                0 <= i < n ==> tree_of_bytes(encode_utf8((#[trigger] members[i]).1), depth) is Ok
            &&& r is Ok ==> {
                &&& forall|name: Seq<char>| #[trigger]
                    r->Ok_0.dom().contains(name) <==> exists|i: int|
                        0 <= i < n && (#[trigger] members[i]).0 == name
                &&& forall|i: int| #[trigger]
                    is_last_named(members.take(n as int), i) ==> r->Ok_0[members[i].0]
                        == tree_of_bytes(encode_utf8(members[i].1), depth)->Ok_0
            }
        }),
    decreases n,
{
    if n > 0 {
        let m = (n - 1) as nat;
        members_show(members, m, depth);
        let r = tree_of_members(members, n, depth);
        if r is Ok {
            let front = tree_of_members(members, m, depth)->Ok_0;
            let tree = tree_of_bytes(encode_utf8(members[n - 1].1), depth)->Ok_0;
            assert(r->Ok_0 == front.insert(members[n - 1].0, tree));
            assert forall|name: Seq<char>| #[trigger] r->Ok_0.dom().contains(name) <==> exists|
                i: int,
            |
                0 <= i < n && (#[trigger] members[i]).0 == name by {
                if front.dom().contains(name) {
                    let i = choose|i: int| 0 <= i < m && (#[trigger] members[i]).0 == name;
                    assert(0 <= i < n && members[i].0 == name);
                }
                if exists|i: int| 0 <= i < n && (#[trigger] members[i]).0 == name {
                    let i = choose|i: int| 0 <= i < n && (#[trigger] members[i]).0 == name;
                    if i < m {
                        assert(front.dom().contains(name));
                    }
                }
            }
            let part = members.take(n as int);
            assert forall|i: int| #[trigger] is_last_named(part, i) implies r->Ok_0[members[i].0]
                == tree_of_bytes(encode_utf8(members[i].1), depth)->Ok_0 by {
                assert(part[i] == members[i]);
                if i < m {
                    assert(part[m as int] == members[m as int]);
                    assert(members[i].0 != members[m as int].0);
                    let less = members.take(m as int);
                    assert forall|j: int| i < j < less.len() implies (#[trigger] less[j]).0
                        != less[i].0 by {
                        assert(part[j] == less[j]);
                    }
                    assert(is_last_named(less, i));
                }
            }
        }
    }
}

proof fn items_show(items: Seq<Seq<char>>, n: nat, depth: nat)
    requires
        n <= items.len(),
    ensures
        ({
            let r = tree_of_items(items, n, depth);
            &&& r is Ok <==> forall|i: int|
                0 <= i < n ==> tree_of_bytes(encode_utf8(#[trigger] items[i]), depth) is Ok
            &&& r is Ok ==> r->Ok_0.len() == n && forall|i: int|
                0 <= i < n ==> r->Ok_0[i] == tree_of_bytes(
                    encode_utf8(#[trigger] items[i]),
                    depth,
                )->Ok_0
        }),
    decreases n,
{
    if n > 0 {
        items_show(items, (n - 1) as nat, depth);
    }
}

/// The tree of a value: of an object, the tree of the last member of each name, and of an array, the tree
/// of each item in its order, where all of them read one level further down; at the last level neither
/// reads. Anything else reads as a whole.
pub proof fn trees_are_read_level_by_level(bytes: Seq<u8>, depth: nat)
    ensures
        ({
            let r = tree_of_bytes(bytes, depth);
            let members = json_raw_members(bytes)->Ok_0;
            let items = json_raw_items(bytes)->Ok_0;
            let below = (depth - 1) as nat;
            let object = json_raw_members(bytes) is Ok;
            let array = !object && json_raw_items(bytes) is Ok;
            &&& (object || array) && depth <= 1 ==> r is Err
            &&& object && depth > 1 ==> {
                &&& r is Ok <==> forall|i: int|
                    0 <= i < members.len() ==> tree_of_bytes(
                        encode_utf8((#[trigger] members[i]).1),
                        below,
                    ) is Ok
                &&& r is Ok ==> {
                    &&& r->Ok_0 is Object
                    &&& forall|name: Seq<char>| #[trigger]
                        r->Ok_0->Object_0.dom().contains(name) <==> exists|i: int|
                            0 <= i < members.len() && (#[trigger] members[i]).0 == name
                    &&& forall|i: int| #[trigger]
                        is_last_named(members, i) ==> r->Ok_0->Object_0[members[i].0]
                            == tree_of_bytes(encode_utf8(members[i].1), below)->Ok_0
                }
            }
            &&& array && depth > 1 ==> {
                &&& r is Ok <==> forall|i: int|
                    0 <= i < items.len() ==> tree_of_bytes(
                        encode_utf8(#[trigger] items[i]),
                        below,
                    ) is Ok
                &&& r is Ok ==> {
                    &&& r->Ok_0 is Array
                    &&& r->Ok_0->Array_0.len() == items.len()
                    &&& forall|i: int|
                        0 <= i < items.len() ==> r->Ok_0->Array_0[i] == tree_of_bytes(
                            encode_utf8(#[trigger] items[i]),
                            below,
                        )->Ok_0
                }
            }
            &&& !object && !array ==> r == json_parse_bytes(bytes)
        }),
{
    let below = (depth - 1) as nat;
    if json_raw_members(bytes) is Ok {
        let members = json_raw_members(bytes)->Ok_0;
        if depth > 1 {
            members_show(members, members.len(), below);
            assert(members.take(members.len() as int) =~= members);
        }
    } else if json_raw_items(bytes) is Ok {
        let items = json_raw_items(bytes)->Ok_0;
        if depth > 1 {
            items_show(items, items.len(), below);
        }
    }
}

/// A text reads as the tree of its bytes, and does not read where they make none.
pub proof fn texts_read_as_their_trees(bytes: Seq<u8>, depth: nat)
    ensures
        reading_of(bytes, depth) is Ok <==> tree_of_bytes(bytes, depth) is Ok,
        reading_of(bytes, depth) is Ok ==> reading_of(bytes, depth)->Ok_0 == tree_of_bytes(
            bytes,
            depth,
        )->Ok_0,
{
}

} // verus!
