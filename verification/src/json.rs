//! Structured values and their canonical form.
//!
//! A structured value is a tree of the kinds that JSON knows. Its canonical
//! form orders the members of every object by key, byte by byte, and leaves
//! the order of array elements alone; the canonical text is the compact text
//! of the canonical form. Two values that differ only in the order of object
//! members have the same canonical form, hence the same canonical text.

use vstd::prelude::*;
use vstd::string::*;
use vstd::utf8::*;
use crate::member_order::{
    keys_are_unique, keys_ascend_throughout, lemma_canonical_is_sorted_rearrangement,
    same_but_for_member_order,
};
use crate::text::{decimal_text, push_decimal};

verus! {

/// A structured value.
#[derive(Debug)]
pub enum JsonValue {
    Null,
    Bool(bool),
    /// A whole number.
    Number(i128),
    String(String),
    /// Elements in their order.
    Array(Vec<JsonValue>),
    /// Members, each a key and a value, in the order in which they were given.
    Object(Vec<(String, JsonValue)>),
}

/// What a structured value holds.
pub ghost enum JsonModel {
    Null,
    Bool(bool),
    Number(int),
    String(Seq<char>),
    Array(Seq<JsonModel>),
    Object(Seq<(Seq<char>, JsonModel)>),
}

/// What `value` holds.
pub open spec fn model_of(value: JsonValue) -> JsonModel
    decreases value,
{
    match value {
        JsonValue::Null => JsonModel::Null,
        JsonValue::Bool(b) => JsonModel::Bool(b),
        JsonValue::Number(n) => JsonModel::Number(n as int),
        JsonValue::String(s) => JsonModel::String(s@),
        JsonValue::Array(items) => JsonModel::Array(item_models(items@)),
        JsonValue::Object(members) => JsonModel::Object(member_models(members@)),
    }
}

/// What a list of values holds.
pub open spec fn item_models(items: Seq<JsonValue>) -> Seq<JsonModel>
    decreases items,
{
    Seq::new(
        items.len(),
        |i: int|
            if 0 <= i < items.len() {
                model_of(items[i])
            } else {
                JsonModel::Null
            },
    )
}

/// What a list of members holds.
pub open spec fn member_models(members: Seq<(String, JsonValue)>) -> Seq<(Seq<char>, JsonModel)>
    decreases members,
{
    Seq::new(
        members.len(),
        |i: int|
            if 0 <= i < members.len() {
                (members[i].0@, model_of(members[i].1))
            } else {
                (Seq::empty(), JsonModel::Null)
            },
    )
}

impl View for JsonValue {
    type V = JsonModel;

    open spec fn view(&self) -> JsonModel {
        model_of(*self)
    }
}

/// Whether byte string `a` comes strictly before `b` in lexicographic order.
pub open spec fn bytes_precede(a: Seq<u8>, b: Seq<u8>) -> bool
    decreases a.len(),
{
    if b.len() == 0 {
        false
    } else if a.len() == 0 {
        true
    } else if a[0] != b[0] {
        a[0] < b[0]
    } else {
        bytes_precede(a.drop_first(), b.drop_first())
    }
}

/// Whether key `a` sorts strictly before key `b`: the keys are compared as
/// their UTF-8 bytes.
pub open spec fn key_precedes(a: Seq<char>, b: Seq<char>) -> bool {
    bytes_precede(encode_utf8(a), encode_utf8(b))
}

/// `member` put into `sorted` behind every member whose key does not sort
/// after its own.
pub open spec fn insert_member(
    sorted: Seq<(Seq<char>, JsonModel)>,
    member: (Seq<char>, JsonModel),
) -> Seq<(Seq<char>, JsonModel)>
    decreases sorted.len(),
{
    if sorted.len() == 0 {
        seq![member]
    } else if key_precedes(member.0, sorted.last().0) {
        insert_member(sorted.drop_last(), member).push(sorted.last())
    } else {
        sorted.push(member)
    }
}

/// The members in ascending order of their keys; members with one key stay
/// in the order they had.
pub open spec fn sort_members(members: Seq<(Seq<char>, JsonModel)>) -> Seq<(Seq<char>, JsonModel)>
    decreases members.len(),
{
    if members.len() == 0 {
        Seq::empty()
    } else {
        insert_member(sort_members(members.drop_last()), members.last())
    }
}

/// The canonical form of a value: in every object, at every depth, the
/// members are sorted by key; arrays keep their order.
pub open spec fn canonical(value: JsonModel) -> JsonModel
    decreases value,
{
    match value {
        JsonModel::Array(items) => JsonModel::Array(canonical_items(items)),
        JsonModel::Object(members) => JsonModel::Object(sort_members(canonical_members(members))),
        _ => value,
    }
}

/// The canonical forms of the elements, in their order.
pub open spec fn canonical_items(items: Seq<JsonModel>) -> Seq<JsonModel>
    decreases items,
{
    Seq::new(
        items.len(),
        |i: int|
            if 0 <= i < items.len() {
                canonical(items[i])
            } else {
                JsonModel::Null
            },
    )
}

/// The members in their order, each with its value in canonical form.
pub open spec fn canonical_members(members: Seq<(Seq<char>, JsonModel)>) -> Seq<
    (Seq<char>, JsonModel),
>
    decreases members,
{
    Seq::new(
        members.len(),
        |i: int|
            if 0 <= i < members.len() {
                (members[i].0, canonical(members[i].1))
            } else {
                (Seq::empty(), JsonModel::Null)
            },
    )
}

/// Decides `key_precedes`.
pub fn key_sorts_before(a: &str, b: &str) -> (before: bool)
    ensures
        before == key_precedes(a@, b@),
{
    let x = a.as_bytes();
    let y = b.as_bytes();
    let mut i: usize = 0;
    proof {
        assert(x@.skip(0) =~= x@);
        assert(y@.skip(0) =~= y@);
    }
    while i < x.len() && i < y.len()
        invariant
            i <= x@.len(),
            i <= y@.len(),
            x@ == encode_utf8(a@),
            y@ == encode_utf8(b@),
            bytes_precede(x@, y@) == bytes_precede(x@.skip(i as int), y@.skip(i as int)),
        decreases x@.len() - i,
    {
        proof {
            assert(x@.skip(i as int).drop_first() =~= x@.skip(i + 1));
            assert(y@.skip(i as int).drop_first() =~= y@.skip(i + 1));
        }
        if x[i] != y[i] {
            return x[i] < y[i];
        }
        i += 1;
    }
    i < y.len()
}

proof fn lemma_insert_at(
    sorted: Seq<(Seq<char>, JsonModel)>,
    member: (Seq<char>, JsonModel),
    at: int,
)
    requires
        0 <= at <= sorted.len(),
        forall|j: int| at <= j < sorted.len() ==> key_precedes(member.0, #[trigger] sorted[j].0),
        at > 0 ==> !key_precedes(member.0, sorted[at - 1].0),
    ensures
        insert_member(sorted, member) == sorted.insert(at, member),
    decreases sorted.len(),
{
    if sorted.len() == 0 {
        assert(sorted.insert(at, member) =~= seq![member]);
    } else if at == sorted.len() {
        assert(sorted.insert(at, member) =~= sorted.push(member));
    } else {
        lemma_insert_at(sorted.drop_last(), member, at);
        assert(sorted.insert(at, member) =~= sorted.drop_last().insert(at, member).push(
            sorted.last(),
        ));
    }
}

/// The canonical form of `value`.
///
/// Where no object of the value has a key twice, the result is the value but
/// for the order of object members, with the keys of every object ascending.
pub fn sort_value(value: &JsonValue) -> (sorted: JsonValue)
    ensures
        sorted@ == canonical(value@),
        keys_are_unique(value@) ==> same_but_for_member_order(value@, sorted@)
            && keys_ascend_throughout(sorted@),
    decreases value,
{
    proof {
        if keys_are_unique(value@) {
            lemma_canonical_is_sorted_rearrangement(value@);
        }
    }
    match value {
        JsonValue::Null => JsonValue::Null,
        JsonValue::Bool(b) => JsonValue::Bool(*b),
        JsonValue::Number(n) => JsonValue::Number(*n),
        JsonValue::String(s) => JsonValue::String(s.clone()),
        JsonValue::Array(items) => {
            let mut out: Vec<JsonValue> = Vec::new();
            let mut i: usize = 0;
            while i < items.len()
                invariant
                    i <= items@.len(),
                    out@.len() == i,
                    *value == JsonValue::Array(*items),
                    forall|j: int| 0 <= j < i ==> out@[j]@ == canonical(items@[j]@),
                decreases items@.len() - i,
            {
                proof {
                    assert(decreases_to!(*value => (*value)->Array_0));
                    assert(decreases_to!(*items => items@));
                    assert(decreases_to!(items@ => items@[i as int]));
                }
                let item = sort_value(&items[i]);
                out.push(item);
                i += 1;
            }
            proof {
                assert(item_models(out@) =~= canonical_items(item_models(items@)));
            }
            JsonValue::Array(out)
        },
        JsonValue::Object(members) => {
            let ghost goal = canonical_members(member_models(members@));
            let mut out: Vec<(String, JsonValue)> = Vec::new();
            let mut i: usize = 0;
            proof {
                assert(member_models(out@) =~= sort_members(goal.take(0)));
            }
            while i < members.len()
                invariant
                    i <= members@.len(),
                    *value == JsonValue::Object(*members),
                    goal == canonical_members(member_models(members@)),
                    member_models(out@) == sort_members(goal.take(i as int)),
                decreases members@.len() - i,
            {
                proof {
                    assert(decreases_to!(*value => (*value)->Object_0));
                    assert(decreases_to!(*members => members@));
                    assert(decreases_to!(members@ => members@[i as int]));
                    assert(decreases_to!(members@[i as int] => members@[i as int].1));
                }
                let key = members[i].0.clone();
                let item = sort_value(&members[i].1);
                let mut at: usize = out.len();
                while at > 0 && key_sorts_before(key.as_str(), out[at - 1].0.as_str())
                    invariant
                        at <= out@.len(),
                        forall|j: int|
                            at <= j < out@.len() ==> key_precedes(
                                key@,
                                #[trigger] member_models(out@)[j].0,
                            ),
                    decreases at,
                {
                    at -= 1;
                }
                let ghost before = member_models(out@);
                let ghost member = (key@, item@);
                out.insert(at, (key, item));
                i += 1;
                proof {
                    lemma_insert_at(before, member, at as int);
                    assert(member_models(out@) =~= before.insert(at as int, member));
                    assert(goal.take(i as int).drop_last() =~= goal.take(i - 1));
                    assert(goal.take(i as int).last() == member);
                }
            }
            proof {
                assert(goal.take(i as int) =~= goal);
            }
            JsonValue::Object(out)
        },
    }
}

/// What `serde_json::to_string` gives for a string: the string as a JSON
/// string literal, inside double quotes and with its escapes; `None` where it
/// gives an error.
pub uninterp spec fn json_literal(text: Seq<char>) -> Option<Seq<char>>;

/// `serde_json::Error`, of which only the message is read.
#[verifier::external_type_specification]
#[verifier::external_body]
pub struct ExSerdeJsonError(serde_json::Error);

/// Why a value could not be written as text.
#[derive(Debug)]
pub struct JsonError {
    pub message: String,
}

/// Calls `serde_json::to_string` on a string slice. Whether it succeeds and
/// what it returns depend on the string alone.
#[verifier::external_body]
fn quote(text: &str) -> (quoted: Result<String, serde_json::Error>)
    ensures
        match quoted {
            Ok(literal) => json_literal(text@) == Some(literal@),
            Err(_) => json_literal(text@) is None,
        },
{
    serde_json::to_string(text)
}

/// The message of a `serde_json::Error`, as its `Display` writes it.
#[verifier::external_body]
fn failure(error: &serde_json::Error) -> (reason: JsonError) {
    JsonError { message: error.to_string() }
}

/// The JSON string literal for `text`, where it has one.
pub open spec fn json_quoted(text: Seq<char>) -> Seq<char> {
    json_literal(text)->0
}

/// The decimal text of a whole number, with a minus sign if it is negative.
pub open spec fn integer_text(n: int) -> Seq<char> {
    if n < 0 {
        "-"@ + decimal_text((-n) as nat)
    } else {
        decimal_text(n as nat)
    }
}

/// The compact text of a value: no whitespace, array elements and object
/// members in their order and separated by commas, a colon between a key and
/// its value, strings as JSON string literals.
pub open spec fn json_text(value: JsonModel) -> Seq<char>
    decreases value, 0int,
{
    match value {
        JsonModel::Null => "null"@,
        JsonModel::Bool(b) => if b {
            "true"@
        } else {
            "false"@
        },
        JsonModel::Number(n) => integer_text(n),
        JsonModel::String(s) => json_quoted(s),
        JsonModel::Array(items) => "["@ + items_text(items, items.len() as int) + "]"@,
        JsonModel::Object(members) => "{"@ + members_text(members, members.len() as int) + "}"@,
    }
}

/// The texts of the first `count` elements, separated by commas.
pub open spec fn items_text(items: Seq<JsonModel>, count: int) -> Seq<char>
    decreases items, count,
{
    if count <= 0 || count > items.len() {
        Seq::empty()
    } else if count == 1 {
        json_text(items[0])
    } else {
        items_text(items, count - 1) + ","@ + json_text(items[count - 1])
    }
}

/// The text of one member: the key as a string literal, a colon, the value.
pub open spec fn member_text(member: (Seq<char>, JsonModel)) -> Seq<char>
    decreases member, 0int,
{
    json_quoted(member.0) + ":"@ + json_text(member.1)
}

/// The texts of the first `count` members, separated by commas.
pub open spec fn members_text(members: Seq<(Seq<char>, JsonModel)>, count: int) -> Seq<char>
    decreases members, count,
{
    if count <= 0 || count > members.len() {
        Seq::empty()
    } else if count == 1 {
        member_text(members[0])
    } else {
        members_text(members, count - 1) + ","@ + member_text(members[count - 1])
    }
}

/// Whether a value can be written as text: every string in it, the keys of
/// objects too, has a JSON string literal.
pub open spec fn writable(value: JsonModel) -> bool
    decreases value, 0int,
{
    match value {
        JsonModel::String(s) => json_literal(s) is Some,
        JsonModel::Array(items) => items_writable(items, items.len() as int),
        JsonModel::Object(members) => members_writable(members, members.len() as int),
        _ => true,
    }
}

/// Whether the first `count` elements can be written as text.
pub open spec fn items_writable(items: Seq<JsonModel>, count: int) -> bool
    decreases items, count,
{
    if count <= 0 || count > items.len() {
        true
    } else {
        items_writable(items, count - 1) && writable(items[count - 1])
    }
}

/// Whether the first `count` members can be written as text.
pub open spec fn members_writable(members: Seq<(Seq<char>, JsonModel)>, count: int) -> bool
    decreases members, count,
{
    if count <= 0 || count > members.len() {
        true
    } else {
        members_writable(members, count - 1) && json_literal(members[count - 1].0) is Some
            && writable(members[count - 1].1)
    }
}

proof fn lemma_items_writable_prefix(items: Seq<JsonModel>, shorter: int, longer: int)
    requires
        0 <= shorter <= longer <= items.len(),
        items_writable(items, longer),
    ensures
        items_writable(items, shorter),
    decreases longer,
{
    if shorter < longer {
        lemma_items_writable_prefix(items, shorter, longer - 1);
    }
}

proof fn lemma_members_writable_prefix(
    members: Seq<(Seq<char>, JsonModel)>,
    shorter: int,
    longer: int,
)
    requires
        0 <= shorter <= longer <= members.len(),
        members_writable(members, longer),
    ensures
        members_writable(members, shorter),
    decreases longer,
{
    if shorter < longer {
        lemma_members_writable_prefix(members, shorter, longer - 1);
    }
}

/// Appends the literal that quoting gave to `out`, or hands on the reason
/// why there is none.
pub fn append_quoted(out: &mut String, quoted: Result<String, JsonError>) -> (done: Result<
    (),
    JsonError,
>)
    ensures
        match quoted {
            Ok(literal) => done is Ok && final(out)@ == old(out)@ + literal@,
            Err(reason) => done == Err::<(), JsonError>(reason) && final(out)@ == old(out)@,
        },
{
    match quoted {
        Ok(literal) => {
            out.append(literal.as_str());
            Ok(())
        },
        Err(reason) => Err(reason),
    }
}

fn write_literal(out: &mut String, text: &str) -> (done: Result<(), JsonError>)
    ensures
        done is Ok <==> json_literal(text@) is Some,
        done is Ok ==> final(out)@ == old(out)@ + json_quoted(text@),
{
    let quoted = match quote(text) {
        Ok(literal) => Ok(literal),
        Err(error) => Err(failure(&error)),
    };
    append_quoted(out, quoted)
}

fn write_integer(out: &mut String, n: i128)
    ensures
        final(out)@ == old(out)@ + integer_text(n as int),
{
    if n < 0 {
        let magnitude: u128 = (-(n + 1)) as u128 + 1;
        out.append("-");
        push_decimal(out, magnitude);
        proof {
            assert(final(out)@ =~= old(out)@ + ("-"@ + decimal_text((-n) as nat)));
        }
    } else {
        push_decimal(out, n as u128);
    }
}

/// Appends the compact text of `value` to `out`, if the value is writable.
pub fn write_value(out: &mut String, value: &JsonValue) -> (done: Result<(), JsonError>)
    ensures
        done is Ok <==> writable(value@),
        done is Ok ==> final(out)@ == old(out)@ + json_text(value@),
    decreases value,
{
    match value {
        JsonValue::Null => {
            out.append("null");
            Ok(())
        },
        JsonValue::Bool(b) => {
            if *b {
                out.append("true");
            } else {
                out.append("false");
            }
            Ok(())
        },
        JsonValue::Number(n) => {
            write_integer(out, *n);
            Ok(())
        },
        JsonValue::String(s) => write_literal(out, s.as_str()),
        JsonValue::Array(items) => {
            out.append("[");
            let ghost start = out@;
            let ghost models = item_models(items@);
            let mut i: usize = 0;
            while i < items.len()
                invariant
                    i <= items@.len(),
                    *value == JsonValue::Array(*items),
                    models == item_models(items@),
                    out@ == start + items_text(models, i as int),
                    items_writable(models, i as int),
                decreases items@.len() - i,
            {
                proof {
                    assert(decreases_to!(*value => (*value)->Array_0));
                    assert(decreases_to!(*items => items@));
                    assert(decreases_to!(items@ => items@[i as int]));
                    assert(models[i as int] == items@[i as int]@);
                }
                let ghost before = out@;
                if i > 0 {
                    out.append(",");
                }
                match write_value(out, &items[i]) {
                    Ok(()) => {},
                    Err(reason) => {
                        proof {
                            if items_writable(models, items@.len() as int) {
                                lemma_items_writable_prefix(models, i + 1, items@.len() as int);
                            }
                        }
                        return Err(reason);
                    },
                }
                i += 1;
                proof {
                    let text = json_text(models[i - 1]);
                    if i == 1 {
                        assert(before =~= start);
                        assert(out@ =~= start + text);
                    } else {
                        assert(out@ =~= start + (items_text(models, i - 1) + ","@ + text));
                    }
                }
            }
            out.append("]");
            proof {
                assert(final(out)@ =~= old(out)@ + json_text(value@));
            }
            Ok(())
        },
        JsonValue::Object(members) => {
            out.append("{");
            let ghost start = out@;
            let ghost models = member_models(members@);
            let mut i: usize = 0;
            while i < members.len()
                invariant
                    i <= members@.len(),
                    *value == JsonValue::Object(*members),
                    models == member_models(members@),
                    out@ == start + members_text(models, i as int),
                    members_writable(models, i as int),
                decreases members@.len() - i,
            {
                proof {
                    assert(decreases_to!(*value => (*value)->Object_0));
                    assert(decreases_to!(*members => members@));
                    assert(decreases_to!(members@ => members@[i as int]));
                    assert(decreases_to!(members@[i as int] => members@[i as int].1));
                    assert(models[i as int] == (members@[i as int].0@, members@[i as int].1@));
                }
                let ghost before = out@;
                if i > 0 {
                    out.append(",");
                }
                match write_literal(out, members[i].0.as_str()) {
                    Ok(()) => {},
                    Err(reason) => {
                        proof {
                            if members_writable(models, members@.len() as int) {
                                lemma_members_writable_prefix(
                                    models,
                                    i + 1,
                                    members@.len() as int,
                                );
                            }
                        }
                        return Err(reason);
                    },
                }
                out.append(":");
                match write_value(out, &members[i].1) {
                    Ok(()) => {},
                    Err(reason) => {
                        proof {
                            if members_writable(models, members@.len() as int) {
                                lemma_members_writable_prefix(
                                    models,
                                    i + 1,
                                    members@.len() as int,
                                );
                            }
                        }
                        return Err(reason);
                    },
                }
                i += 1;
                proof {
                    let text = member_text(models[i - 1]);
                    if i == 1 {
                        assert(before =~= start);
                        assert(out@ =~= start + text);
                    } else {
                        assert(out@ =~= start + (members_text(models, i - 1) + ","@ + text));
                    }
                }
            }
            out.append("}");
            proof {
                assert(final(out)@ =~= old(out)@ + json_text(value@));
            }
            Ok(())
        },
    }
}

/// The compact text of `value`, if the value is writable.
pub fn to_text(value: &JsonValue) -> (text: Result<String, JsonError>)
    ensures
        text is Ok <==> writable(value@),
        text matches Ok(t) ==> t@ == json_text(value@),
{
    let mut out = String::new();
    match write_value(&mut out, value) {
        Ok(()) => {
            proof {
                assert(out@ =~= json_text(value@));
            }
            Ok(out)
        },
        Err(reason) => Err(reason),
    }
}

} // verus!
