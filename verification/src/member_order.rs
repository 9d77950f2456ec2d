//! The canonical form does not depend on the order of object members.
//!
//! Keys are ordered as their UTF-8 bytes, which is a strict total order. A
//! list of members with distinct keys therefore has exactly one ascending
//! arrangement, and sorting finds it, wherever the members stood before.

use vstd::prelude::*;
use vstd::utf8::*;
use crate::json::{
    bytes_precede, canonical, canonical_items, canonical_members, insert_member, key_precedes,
    sort_members, JsonModel,
};

verus! {

/// No byte string comes before itself.
pub proof fn lemma_bytes_order_irreflexive(a: Seq<u8>)
    ensures
        !bytes_precede(a, a),
    decreases a.len(),
{
    if a.len() > 0 {
        lemma_bytes_order_irreflexive(a.drop_first());
    }
}

/// What comes before something that comes before a third comes before the
/// third.
pub proof fn lemma_bytes_order_transitive(a: Seq<u8>, b: Seq<u8>, c: Seq<u8>)
    requires
        bytes_precede(a, b),
        bytes_precede(b, c),
    ensures
        bytes_precede(a, c),
    decreases a.len(),
{
    if a.len() > 0 && a[0] == b[0] && b[0] == c[0] {
        lemma_bytes_order_transitive(a.drop_first(), b.drop_first(), c.drop_first());
    }
}

/// Of two different byte strings, one comes before the other.
pub proof fn lemma_bytes_order_total(a: Seq<u8>, b: Seq<u8>)
    ensures
        a == b || bytes_precede(a, b) || bytes_precede(b, a),
    decreases a.len(),
{
    if a.len() == 0 || b.len() == 0 {
        if a.len() == 0 && b.len() == 0 {
            assert(a =~= b);
        }
    } else if a[0] == b[0] {
        lemma_bytes_order_total(a.drop_first(), b.drop_first());
        if a.drop_first() == b.drop_first() {
            assert(a =~= seq![a[0]] + a.drop_first());
            assert(b =~= seq![b[0]] + b.drop_first());
        }
    }
}

/// The order of keys is a strict total order: no key sorts before itself, the
/// order is transitive, and of two different keys one sorts before the other.
pub proof fn lemma_key_order(a: Seq<char>, b: Seq<char>, c: Seq<char>)
    ensures
        !key_precedes(a, a),
        key_precedes(a, b) && key_precedes(b, c) ==> key_precedes(a, c),
        a == b || key_precedes(a, b) || key_precedes(b, a),
        !(key_precedes(a, b) && key_precedes(b, a)),
{
    lemma_bytes_order_irreflexive(encode_utf8(a));
    if key_precedes(a, b) && key_precedes(b, c) {
        lemma_bytes_order_transitive(encode_utf8(a), encode_utf8(b), encode_utf8(c));
    }
    if key_precedes(a, b) && key_precedes(b, a) {
        lemma_bytes_order_transitive(encode_utf8(a), encode_utf8(b), encode_utf8(a));
    }
    lemma_bytes_order_total(encode_utf8(a), encode_utf8(b));
    if encode_utf8(a) == encode_utf8(b) {
        encode_utf8_decode_utf8(a);
        encode_utf8_decode_utf8(b);
    }
}

/// Whether the keys of the members ascend strictly.
pub open spec fn keys_ascend(members: Seq<(Seq<char>, JsonModel)>) -> bool {
    forall|i: int, j: int|
        0 <= i < j < members.len() ==> key_precedes(
            (#[trigger] members[i]).0,
            (#[trigger] members[j]).0,
        )
}

/// Whether no two of the members have the same key.
pub open spec fn distinct_keys(members: Seq<(Seq<char>, JsonModel)>) -> bool {
    forall|i: int, j: int|
        0 <= i < j < members.len() ==> (#[trigger] members[i]).0 != (#[trigger] members[j]).0
}

/// Whether two lists hold the same members, in whatever order.
pub open spec fn same_members(
    first: Seq<(Seq<char>, JsonModel)>,
    second: Seq<(Seq<char>, JsonModel)>,
) -> bool {
    forall|member: (Seq<char>, JsonModel)|
        first.contains(member) <==> second.contains(member)
}

/// Where `member` goes in `sorted`: behind the last member whose key does
/// not sort after its own.
spec fn insert_position(sorted: Seq<(Seq<char>, JsonModel)>, member: (Seq<char>, JsonModel)) -> int
    decreases sorted.len(),
{
    if sorted.len() == 0 {
        0
    } else if key_precedes(member.0, sorted.last().0) {
        insert_position(sorted.drop_last(), member)
    } else {
        sorted.len() as int
    }
}

proof fn lemma_insert_position(
    sorted: Seq<(Seq<char>, JsonModel)>,
    member: (Seq<char>, JsonModel),
)
    ensures
        0 <= insert_position(sorted, member) <= sorted.len(),
        forall|j: int|
            insert_position(sorted, member) <= j < sorted.len() ==> key_precedes(
                member.0,
                (#[trigger] sorted[j]).0,
            ),
        insert_position(sorted, member) > 0 ==> !key_precedes(
            member.0,
            sorted[insert_position(sorted, member) - 1].0,
        ),
        insert_member(sorted, member) == sorted.insert(insert_position(sorted, member), member),
    decreases sorted.len(),
{
    let at = insert_position(sorted, member);
    if sorted.len() == 0 {
        assert(sorted.insert(at, member) =~= seq![member]);
    } else if key_precedes(member.0, sorted.last().0) {
        lemma_insert_position(sorted.drop_last(), member);
        assert forall|j: int| at <= j < sorted.len() implies key_precedes(
            member.0,
            (#[trigger] sorted[j]).0,
        ) by {
            if j < sorted.len() - 1 {
                assert(sorted[j] == sorted.drop_last()[j]);
            }
        }
        if at > 0 {
            assert(sorted[at - 1] == sorted.drop_last()[at - 1]);
        }
        assert(sorted.insert(at, member) =~= sorted.drop_last().insert(at, member).push(
            sorted.last(),
        ));
    } else {
        assert(sorted.insert(at, member) =~= sorted.push(member));
    }
}

/// Inserting a member with a new key into an ascending list gives an
/// ascending list that holds the member and what the list held.
proof fn lemma_insert_keeps_order(
    sorted: Seq<(Seq<char>, JsonModel)>,
    member: (Seq<char>, JsonModel),
)
    requires
        keys_ascend(sorted),
        forall|i: int| 0 <= i < sorted.len() ==> (#[trigger] sorted[i]).0 != member.0,
    ensures
        keys_ascend(insert_member(sorted, member)),
        insert_member(sorted, member).len() == sorted.len() + 1,
        forall|other: (Seq<char>, JsonModel)|
            insert_member(sorted, member).contains(other) <==> (other == member
                || sorted.contains(other)),
{
    let at = insert_position(sorted, member);
    lemma_insert_position(sorted, member);
    let grown = sorted.insert(at, member);
    assert forall|i: int, j: int| 0 <= i < j < grown.len() implies key_precedes(
        (#[trigger] grown[i]).0,
        (#[trigger] grown[j]).0,
    ) by {
        if j < at {
            assert(grown[i] == sorted[i] && grown[j] == sorted[j]);
        } else if j == at {
            assert(grown[i] == sorted[i]);
            assert(grown[j] == member);
            let before = sorted[at - 1];
            lemma_key_order(member.0, before.0, before.0);
            assert(key_precedes(before.0, member.0));
            if i < at - 1 {
                lemma_key_order(sorted[i].0, before.0, member.0);
            }
        } else if i < at {
            assert(grown[i] == sorted[i] && grown[j] == sorted[j - 1]);
        } else if i == at {
            assert(grown[j] == sorted[j - 1]);
        } else {
            assert(grown[i] == sorted[i - 1] && grown[j] == sorted[j - 1]);
        }
    }
    assert forall|other: (Seq<char>, JsonModel)|
        grown.contains(other) <==> (other == member || sorted.contains(other)) by {
        if grown.contains(other) {
            let k = choose|k: int| 0 <= k < grown.len() && grown[k] == other;
            if k < at {
                assert(sorted[k] == other);
            } else if k > at {
                assert(sorted[k - 1] == other);
            }
        }
        if other == member {
            assert(grown[at] == other);
        }
        if sorted.contains(other) {
            let k = choose|k: int| 0 <= k < sorted.len() && sorted[k] == other;
            if k < at {
                assert(grown[k] == other);
            } else {
                assert(grown[k + 1] == other);
            }
        }
    }
}

/// Sorting members with distinct keys gives the same members with their keys
/// ascending.
pub proof fn lemma_sort_members(members: Seq<(Seq<char>, JsonModel)>)
    requires
        distinct_keys(members),
    ensures
        keys_ascend(sort_members(members)),
        same_members(sort_members(members), members),
        sort_members(members).len() == members.len(),
    decreases members.len(),
{
    if members.len() > 0 {
        let rest = members.drop_last();
        let last = members.last();
        assert forall|i: int, j: int| 0 <= i < j < rest.len() implies (#[trigger] rest[i]).0 != (
        #[trigger] rest[j]).0 by {
            assert(rest[i] == members[i] && rest[j] == members[j]);
        }
        lemma_sort_members(rest);
        let sorted = sort_members(rest);
        assert forall|i: int| 0 <= i < sorted.len() implies (#[trigger] sorted[i]).0
            != last.0 by {
            assert(sorted.contains(sorted[i]));
            assert(rest.contains(sorted[i]));
            let k = choose|k: int| 0 <= k < rest.len() && rest[k] == sorted[i];
            assert(members[k] == sorted[i]);
            assert(members[members.len() - 1] == last);
        }
        lemma_insert_keeps_order(sorted, last);
        assert forall|other: (Seq<char>, JsonModel)|
            sort_members(members).contains(other) <==> members.contains(other) by {
            if members.contains(other) {
                let k = choose|k: int| 0 <= k < members.len() && members[k] == other;
                if k < rest.len() {
                    assert(rest[k] == other);
                    assert(rest.contains(other));
                }
            }
            if rest.contains(other) {
                let k = choose|k: int| 0 <= k < rest.len() && rest[k] == other;
                assert(members[k] == other);
            }
            if other == last {
                assert(members[members.len() - 1] == other);
            }
        }
    }
}

/// Two ascending lists that hold the same members are one list.
pub proof fn lemma_ascending_is_unique(
    first: Seq<(Seq<char>, JsonModel)>,
    second: Seq<(Seq<char>, JsonModel)>,
)
    requires
        keys_ascend(first),
        keys_ascend(second),
        same_members(first, second),
    ensures
        first == second,
    decreases first.len(),
{
    if first.len() == 0 {
        if second.len() > 0 {
            assert(second.contains(second[0]));
            assert(first.contains(second[0]));
        }
        assert(first =~= second);
    } else {
        let high = first.last();
        assert(first.contains(first[first.len() - 1]));
        assert(second.contains(high));
        let other = second.last();
        assert(second.contains(second[second.len() - 1]));
        assert(first.contains(other));
        let i = choose|i: int| 0 <= i < first.len() && first[i] == other;
        let j = choose|j: int| 0 <= j < second.len() && second[j] == high;
        lemma_key_order(high.0, other.0, high.0);
        if i < first.len() - 1 {
            assert(key_precedes(first[i].0, first[first.len() - 1].0));
            if j < second.len() - 1 {
                assert(key_precedes(second[j].0, second[second.len() - 1].0));
            }
        }
        assert(high == other);
        let first_rest = first.drop_last();
        let second_rest = second.drop_last();
        assert forall|member: (Seq<char>, JsonModel)|
            first_rest.contains(member) <==> second_rest.contains(member) by {
            if first_rest.contains(member) {
                let k = choose|k: int| 0 <= k < first_rest.len() && first_rest[k] == member;
                assert(first[k] == member);
                assert(first.contains(member));
                let l = choose|l: int| 0 <= l < second.len() && second[l] == member;
                assert(key_precedes(first[k].0, first[first.len() - 1].0));
                lemma_key_order(member.0, high.0, high.0);
                assert(second_rest[l] == member);
            }
            if second_rest.contains(member) {
                let k = choose|k: int| 0 <= k < second_rest.len() && second_rest[k] == member;
                assert(second[k] == member);
                assert(second.contains(member));
                let l = choose|l: int| 0 <= l < first.len() && first[l] == member;
                assert(key_precedes(second[k].0, second[second.len() - 1].0));
                lemma_key_order(member.0, other.0, other.0);
                assert(first_rest[l] == member);
            }
        }
        assert forall|a: int, b: int| 0 <= a < b < first_rest.len() implies key_precedes(
            (#[trigger] first_rest[a]).0,
            (#[trigger] first_rest[b]).0,
        ) by {
            assert(first_rest[a] == first[a] && first_rest[b] == first[b]);
        }
        assert forall|a: int, b: int| 0 <= a < b < second_rest.len() implies key_precedes(
            (#[trigger] second_rest[a]).0,
            (#[trigger] second_rest[b]).0,
        ) by {
            assert(second_rest[a] == second[a] && second_rest[b] == second[b]);
        }
        lemma_ascending_is_unique(first_rest, second_rest);
        assert(first =~= first_rest.push(high));
        assert(second =~= second_rest.push(other));
    }
}

/// Whether no object of the value, at any depth, has two members with one
/// key.
pub open spec fn keys_are_unique(value: JsonModel) -> bool
    decreases value,
{
    match value {
        JsonModel::Array(items) => items_have_unique_keys(items),
        JsonModel::Object(members) => distinct_keys(members) && members_have_unique_keys(members),
        _ => true,
    }
}

/// Whether every element satisfies `keys_are_unique`.
pub open spec fn items_have_unique_keys(items: Seq<JsonModel>) -> bool
    decreases items,
{
    forall|i: int| 0 <= i < items.len() ==> keys_are_unique(#[trigger] items[i])
}

/// Whether the value of every member satisfies `keys_are_unique`.
pub open spec fn members_have_unique_keys(members: Seq<(Seq<char>, JsonModel)>) -> bool
    decreases members,
{
    forall|i: int| 0 <= i < members.len() ==> keys_are_unique((#[trigger] members[i]).1)
}

/// Whether two values are the same but for the order of object members:
/// equal scalars; arrays of equal length whose elements are the same, place
/// by place; objects whose members pair off, each with a member of the same
/// key in the other whose value is the same.
pub open spec fn same_but_for_member_order(first: JsonModel, second: JsonModel) -> bool
    decreases first, 0int,
{
    match first {
        JsonModel::Array(items) => second is Array && same_items(items, second->Array_0),
        JsonModel::Object(members) => second is Object && paired_members(
            members,
            second->Object_0,
        ),
        _ => first == second,
    }
}

/// Arrays of equal length whose elements are the same, place by place.
pub open spec fn same_items(first: Seq<JsonModel>, second: Seq<JsonModel>) -> bool
    decreases first, 0int,
{
    &&& first.len() == second.len()
    &&& forall|i: int|
        0 <= i < first.len() ==> same_but_for_member_order(#[trigger] first[i], second[i])
}

/// Whether `member` has a partner among `candidates`: a member with the same
/// key whose value is the same but for the order of members.
pub open spec fn has_partner(
    member: (Seq<char>, JsonModel),
    candidates: Seq<(Seq<char>, JsonModel)>,
) -> bool
    decreases member, 1int,
{
    exists|j: int|
        #![trigger candidates[j]]
        0 <= j < candidates.len() && member.0 == candidates[j].0 && same_but_for_member_order(
            member.1,
            candidates[j].1,
        )
}

/// Whether `member` is the partner of one of `members`.
pub open spec fn is_partner(
    members: Seq<(Seq<char>, JsonModel)>,
    member: (Seq<char>, JsonModel),
) -> bool
    decreases members, 1int,
{
    exists|i: int|
        #![trigger members[i]]
        0 <= i < members.len() && members[i].0 == member.0 && same_but_for_member_order(
            members[i].1,
            member.1,
        )
}

/// Every member of either list has a partner in the other.
pub open spec fn paired_members(
    first: Seq<(Seq<char>, JsonModel)>,
    second: Seq<(Seq<char>, JsonModel)>,
) -> bool
    decreases first, 2int,
{
    &&& forall|i: int| 0 <= i < first.len() ==> has_partner(#[trigger] first[i], second)
    &&& forall|j: int| 0 <= j < second.len() ==> is_partner(first, #[trigger] second[j])
}

/// Values that are the same but for the order of object members, and in which
/// no object has a key twice, have the same canonical form.
pub proof fn lemma_canonical_ignores_member_order(first: JsonModel, second: JsonModel)
    requires
        keys_are_unique(first),
        keys_are_unique(second),
        same_but_for_member_order(first, second),
    ensures
        canonical(first) == canonical(second),
    decreases first,
{
    match first {
        JsonModel::Array(items) => {
            let others = second->Array_0;
            assert forall|i: int| 0 <= i < items.len() implies canonical(items[i]) == canonical(
                others[i],
            ) by {
                assert(keys_are_unique(items[i]));
                assert(keys_are_unique(others[i]));
                assert(same_but_for_member_order(items[i], others[i]));
                lemma_canonical_ignores_member_order(items[i], others[i]);
            }
            assert(canonical_items(items) =~= canonical_items(others));
        },
        JsonModel::Object(members) => {
            let others = second->Object_0;
            let ours = canonical_members(members);
            let theirs = canonical_members(others);
            assert(decreases_to!(first => first->Object_0));
            assert forall|member: (Seq<char>, JsonModel)|
                ours.contains(member) <==> theirs.contains(member) by {
                if ours.contains(member) {
                    let i = choose|i: int| 0 <= i < ours.len() && ours[i] == member;
                    let mine = members[i];
                    assert(decreases_to!(members => members[i]));
                    assert(decreases_to!(members[i] => members[i].1));
                    assert(has_partner(mine, others));
                    let j = choose|j: int|
                        #![trigger others[j]]
                        0 <= j < others.len() && members[i].0 == others[j].0
                            && same_but_for_member_order(members[i].1, others[j].1);
                    assert(keys_are_unique(members[i].1));
                    assert(keys_are_unique(others[j].1));
                    lemma_canonical_ignores_member_order(members[i].1, others[j].1);
                    assert(theirs[j] == member);
                }
                if theirs.contains(member) {
                    let j = choose|j: int| 0 <= j < theirs.len() && theirs[j] == member;
                    let other = others[j];
                    assert(is_partner(members, other));
                    let i = choose|i: int|
                        #![trigger members[i]]
                        0 <= i < members.len() && members[i].0 == others[j].0
                            && same_but_for_member_order(members[i].1, others[j].1);
                    assert(decreases_to!(members => members[i]));
                    assert(decreases_to!(members[i] => members[i].1));
                    assert(keys_are_unique(members[i].1));
                    assert(keys_are_unique(others[j].1));
                    lemma_canonical_ignores_member_order(members[i].1, others[j].1);
                    assert(ours[i] == member);
                }
            }
            assert forall|i: int, j: int| 0 <= i < j < ours.len() implies (#[trigger] ours[i]).0
                != (#[trigger] ours[j]).0 by {
                assert(ours[i].0 == members[i].0 && ours[j].0 == members[j].0);
            }
            assert forall|i: int, j: int| 0 <= i < j < theirs.len() implies (
            #[trigger] theirs[i]).0 != (#[trigger] theirs[j]).0 by {
                assert(theirs[i].0 == others[i].0 && theirs[j].0 == others[j].0);
            }
            lemma_sort_members(ours);
            lemma_sort_members(theirs);
            lemma_ascending_is_unique(sort_members(ours), sort_members(theirs));
        },
        _ => {},
    }
}

/// Whether in every object of the value, at any depth, the keys of the
/// members ascend strictly.
pub open spec fn keys_ascend_throughout(value: JsonModel) -> bool
    decreases value,
{
    match value {
        JsonModel::Array(items) => items_ascend_throughout(items),
        JsonModel::Object(members) => keys_ascend(members) && members_ascend_throughout(members),
        _ => true,
    }
}

/// Whether every element satisfies `keys_ascend_throughout`.
pub open spec fn items_ascend_throughout(items: Seq<JsonModel>) -> bool
    decreases items,
{
    forall|i: int| 0 <= i < items.len() ==> keys_ascend_throughout(#[trigger] items[i])
}

/// Whether the value of every member satisfies `keys_ascend_throughout`.
pub open spec fn members_ascend_throughout(members: Seq<(Seq<char>, JsonModel)>) -> bool
    decreases members,
{
    forall|i: int| 0 <= i < members.len() ==> keys_ascend_throughout((#[trigger] members[i]).1)
}

proof fn lemma_pairing_survives_sorting(
    members: Seq<(Seq<char>, JsonModel)>,
    ours: Seq<(Seq<char>, JsonModel)>,
    sorted: Seq<(Seq<char>, JsonModel)>,
)
    requires
        ours.len() == members.len(),
        forall|i: int|
            #![trigger members[i]]
            0 <= i < members.len() ==> ours[i].0 == members[i].0 && same_but_for_member_order(
                members[i].1,
                ours[i].1,
            ) && keys_ascend_throughout(ours[i].1),
        same_members(sorted, ours),
    ensures
        paired_members(members, sorted),
        members_ascend_throughout(sorted),
{
    assert forall|i: int| 0 <= i < members.len() implies has_partner(
        #[trigger] members[i],
        sorted,
    ) by {
        assert(ours.contains(ours[i]));
        assert(sorted.contains(ours[i]));
        let j = choose|j: int| 0 <= j < sorted.len() && sorted[j] == ours[i];
        assert(sorted[j].0 == members[i].0);
    }
    assert forall|j: int| 0 <= j < sorted.len() implies is_partner(
        members,
        #[trigger] sorted[j],
    ) && keys_ascend_throughout(sorted[j].1) by {
        assert(sorted.contains(sorted[j]));
        assert(ours.contains(sorted[j]));
        let i = choose|i: int| 0 <= i < ours.len() && ours[i] == sorted[j];
        assert(members[i].0 == sorted[j].0);
    }
}

/// The canonical form of a value in which no object has a key twice is that
/// value but for the order of object members, and in it the keys of every
/// object ascend.
pub proof fn lemma_canonical_is_sorted_rearrangement(value: JsonModel)
    requires
        keys_are_unique(value),
    ensures
        same_but_for_member_order(value, canonical(value)),
        keys_ascend_throughout(canonical(value)),
    decreases value,
{
    match value {
        JsonModel::Array(items) => {
            let sorted = canonical_items(items);
            assert forall|i: int| 0 <= i < items.len() implies same_but_for_member_order(
                #[trigger] items[i],
                sorted[i],
            ) && keys_ascend_throughout(sorted[i]) by {
                assert(keys_are_unique(items[i]));
                lemma_canonical_is_sorted_rearrangement(items[i]);
            }
            assert(same_items(items, sorted));
            assert forall|i: int| 0 <= i < sorted.len() implies keys_ascend_throughout(
                #[trigger] sorted[i],
            ) by {
                let item = items[i];
            }
        },
        JsonModel::Object(members) => {
            let ours = canonical_members(members);
            let sorted = sort_members(ours);
            assert forall|i: int, j: int| 0 <= i < j < ours.len() implies (#[trigger] ours[i]).0
                != (#[trigger] ours[j]).0 by {
                assert(ours[i].0 == members[i].0 && ours[j].0 == members[j].0);
            }
            lemma_sort_members(ours);
            assert forall|i: int|
                #![trigger members[i]]
                0 <= i < members.len() implies ours[i].0 == members[i].0
                && same_but_for_member_order(members[i].1, ours[i].1) && keys_ascend_throughout(
                ours[i].1,
            ) by {
                assert(keys_are_unique(members[i].1));
                lemma_canonical_is_sorted_rearrangement(members[i].1);
            }
            lemma_pairing_survives_sorting(members, ours, sorted);
        },
        _ => {},
    }
}

} // verus!
