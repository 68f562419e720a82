//! The way between a [`Json`] and the bytes of a JSON document, which
//! `serde_json` reads and writes.
//!
//! `serde_json` keeps the fields of an object sorted by name, with one field of
//! each name. [`normal`] says what a value holds once it is kept so.

use crate::json::{
    array_tree, field_in, field_trees, item_trees, missing_field, name_less, object_tree, sorted,
    valid, Json, JsonTree,
};
use crate::text::ascii_alphanumeric;
use vstd::prelude::*;
use vstd::utf8::char_u32_cast;

verus! {

// ---------------------------------------------------------------------------
// Outside types and what they hold
// ---------------------------------------------------------------------------

/// `serde_json::Value`, a JSON value.
#[verifier::external_type_specification]
#[verifier::external_body]
pub struct ExValue(serde_json::Value);

/// `serde_json::Map`, the fields of a JSON object.
#[verifier::external_type_specification]
#[verifier::external_body]
#[verifier::reject_recursive_types(K)]
#[verifier::reject_recursive_types(V)]
pub struct ExMap<K, V>(serde_json::Map<K, V>);

/// What a `serde_json::Value` holds.
pub uninterp spec fn value_tree(value: serde_json::Value) -> JsonTree;

/// The fields that a `serde_json::Map` holds, in the order in which it gives
/// them out.
pub uninterp spec fn map_fields(
    map: serde_json::Map<String, serde_json::Value>,
) -> Seq<(Seq<char>, JsonTree)>;

/// What the value holds that `serde_json` makes of a decimal text: the text is
/// read as a 64-bit floating-point number by the standard library's `parse`,
/// `Number::from_f64` makes a number of it, and `Value::from` a value, which is
/// null where there is no such number. The name stands for this chain as a
/// whole, since no floating-point number is held in between.
pub uninterp spec fn decimal_tree(text: Seq<char>) -> JsonTree;

/// What the JSON document in some bytes holds, where `serde_json::from_slice`
/// accepts them.
pub uninterp spec fn parsed_json(bytes: Seq<u8>) -> Option<JsonTree>;

/// The bytes that `serde_json::to_vec` writes for a value, or the text of its
/// error.
pub uninterp spec fn json_bytes(tree: JsonTree) -> Result<Seq<u8>, Seq<char>>;

/// The bytes that `serde_json::to_vec_pretty` writes for a value, or the text
/// of its error.
pub uninterp spec fn pretty_bytes(tree: JsonTree) -> Result<Seq<u8>, Seq<char>>;

/// The outcome of writing a document as a reader of texts sees it.
pub open spec fn document_view(document: Result<Vec<u8>, String>) -> Result<Seq<u8>, Seq<char>> {
    match document {
        Ok(bytes) => Ok(bytes@),
        Err(error) => Err(error@),
    }
}

/// A `serde_json::Value`, one level of it opened.
enum Node {
    Null,
    Bool(bool),
    Unsigned(u64),
    Negative(i64),
    Decimal(String),
    Text(String),
    Array(Vec<serde_json::Value>),
    Object(serde_json::Map<String, serde_json::Value>),
}

/// What some `serde_json` values hold.
spec fn value_trees(values: Seq<serde_json::Value>) -> Seq<JsonTree> {
    values.map_values(|value: serde_json::Value| value_tree(value))
}

/// What some fields of `serde_json` values hold.
spec fn entry_trees(entries: Seq<(String, serde_json::Value)>) -> Seq<(Seq<char>, JsonTree)> {
    entries.map_values(|entry: (String, serde_json::Value)| (entry.0@, value_tree(entry.1)))
}

impl Node {
    /// What the opened value holds.
    spec fn tree(self) -> JsonTree {
        match self {
            Node::Null => JsonTree::Null,
            Node::Bool(b) => JsonTree::Bool(b),
            Node::Unsigned(n) => JsonTree::Unsigned(n),
            Node::Negative(n) => JsonTree::Negative(n),
            Node::Decimal(text) => JsonTree::Decimal(text@),
            Node::Text(text) => JsonTree::Text(text@),
            Node::Array(values) => JsonTree::Array(value_trees(values@)),
            Node::Object(map) => JsonTree::Object(map_fields(map)),
        }
    }
}

// ---------------------------------------------------------------------------
// Normal form
// ---------------------------------------------------------------------------

/// Sorted fields with one more: it takes the place of the one of the same
/// name, or its own place in the order.
pub open spec fn put_field(
    fields: Seq<(Seq<char>, JsonTree)>,
    name: Seq<char>,
    tree: JsonTree,
) -> Seq<(Seq<char>, JsonTree)>
    decreases fields.len(),
{
    if fields.len() == 0 {
        seq![(name, tree)]
    } else if fields[0].0 == name {
        seq![(name, tree)] + fields.drop_first()
    } else if name_less(name, fields[0].0) {
        seq![(name, tree)] + fields
    } else {
        seq![fields[0]] + put_field(fields.drop_first(), name, tree)
    }
}

/// What a value holds once `serde_json` keeps it: the fields of each object are
/// sorted by name, the last of each name counts, and numbers are told apart
/// by their value.
pub open spec fn normal(tree: JsonTree) -> JsonTree
    decreases tree, 0nat,
{
    match tree {
        JsonTree::Negative(n) => if n >= 0 {
            JsonTree::Unsigned(n as u64)
        } else {
            tree
        },
        JsonTree::Decimal(text) => decimal_tree(text),
        JsonTree::Array(items) => JsonTree::Array(
            Seq::new(
                items.len(),
                |i: int|
                    if 0 <= i < items.len() {
                        normal(items[i])
                    } else {
                        JsonTree::Null
                    },
            ),
        ),
        JsonTree::Object(fields) => JsonTree::Object(normal_fields(fields, fields.len())),
        _ => tree,
    }
}

/// The normal form of the first `n` fields.
pub open spec fn normal_fields(
    fields: Seq<(Seq<char>, JsonTree)>,
    n: nat,
) -> Seq<(Seq<char>, JsonTree)>
    decreases fields, n,
{
    if n == 0 || n > fields.len() {
        Seq::empty()
    } else {
        put_field(
            normal_fields(fields, (n - 1) as nat),
            fields[n - 1].0,
            normal(fields[n - 1].1),
        )
    }
}

/// The order of names is one: no name comes before itself, it carries over, and
/// of two names one comes first.
proof fn names_are_ordered(a: Seq<char>, b: Seq<char>, c: Seq<char>)
    ensures
        !name_less(a, a),
        name_less(a, b) && name_less(b, c) ==> name_less(a, c),
        name_less(a, b) || name_less(b, a) || a == b,
    decreases a.len() + b.len() + c.len(),
{
    if a.len() > 0 {
        names_are_ordered(
            a.drop_first(),
            if b.len() > 0 { b.drop_first() } else { b },
            if c.len() > 0 { c.drop_first() } else { c },
        );
        if b.len() > 0 && a[0] == b[0] && a.drop_first() == b.drop_first() {
            assert(a =~= seq![a[0]] + a.drop_first());
            assert(b =~= seq![b[0]] + b.drop_first());
            assert(a == b);
        }
        if b.len() > 0 && a[0] != b[0] {
            char_u32_cast(a[0], a[0] as u32);
            char_u32_cast(b[0], b[0] as u32);
        }
    } else if b.len() == 0 {
        assert(a =~= b);
    }
}

/// What is found behind a first field is found with it.
proof fn field_behind_first(
    first: (Seq<char>, JsonTree),
    rest: Seq<(Seq<char>, JsonTree)>,
    name: Seq<char>,
)
    ensures
        field_in(seq![first] + rest, name) == match field_in(rest, name) {
            Some(tree) => Some(tree),
            None => if first.0 == name {
                Some(first.1)
            } else {
                None
            },
        },
    decreases rest.len(),
{
    let all = seq![first] + rest;
    if rest.len() == 0 {
        assert(all.drop_last() =~= Seq::empty());
        assert(all.last() == first);
        assert(field_in(all.drop_last(), name) is None);
    } else {
        field_behind_first(first, rest.drop_last(), name);
        assert(all.drop_last() =~= seq![first] + rest.drop_last());
        assert(all.last() == rest.last());
    }
}

/// A field that is put among sorted fields leaves them sorted, and is the one
/// that is found by its name; every other is found as before.
proof fn put_field_is_found(
    fields: Seq<(Seq<char>, JsonTree)>,
    name: Seq<char>,
    tree: JsonTree,
    wanted: Seq<char>,
)
    requires
        sorted(fields),
    ensures
        sorted(put_field(fields, name, tree)),
        forall|i: int|
            0 <= i < put_field(fields, name, tree).len() ==> (#[trigger] put_field(
                fields,
                name,
                tree,
            )[i]).0 == name || exists|j: int|
                0 <= j < fields.len() && (#[trigger] fields[j]).0 == put_field(
                    fields,
                    name,
                    tree,
                )[i].0,
        field_in(put_field(fields, name, tree), wanted) == if wanted == name {
            Some(tree)
        } else {
            field_in(fields, wanted)
        },
    decreases fields.len(),
{
    let put = put_field(fields, name, tree);
    if fields.len() == 0 {
        field_behind_first((name, tree), Seq::empty(), wanted);
        assert(seq![(name, tree)] + Seq::<(Seq<char>, JsonTree)>::empty() =~= put);
    } else {
        let first = fields[0];
        let rest = fields.drop_first();
        assert(fields =~= seq![first] + rest);
        assert forall|i: int, j: int| 0 <= i < j < rest.len() implies name_less(
            (#[trigger] rest[i]).0,
            (#[trigger] rest[j]).0,
        ) by {
            assert(rest[i] == fields[i + 1] && rest[j] == fields[j + 1]);
        }
        assert forall|i: int| 0 <= i < rest.len() implies name_less(
            first.0,
            (#[trigger] rest[i]).0,
        ) by {
            assert(rest[i] == fields[i + 1]);
            assert(name_less(fields[0].0, fields[i + 1].0));
        }
        field_behind_first(first, rest, wanted);
        if first.0 == name {
            field_behind_first((name, tree), rest, wanted);
            assert forall|i: int| 0 <= i < rest.len() implies (#[trigger] rest[i]).0 != name by {
                names_are_ordered(name, rest[i].0, name);
            }
            missing_field(rest, name);
            assert forall|i: int, j: int| 0 <= i < j < put.len() implies name_less(
                (#[trigger] put[i]).0,
                (#[trigger] put[j]).0,
            ) by {
                assert(put[j] == rest[j - 1]);
                if i > 0 {
                    assert(put[i] == rest[i - 1]);
                }
            }
            assert forall|i: int| 0 <= i < put.len() implies (#[trigger] put[i]).0 == name
                || exists|j: int| 0 <= j < fields.len() && (#[trigger] fields[j]).0 == put[i].0 by {
                if i > 0 {
                    assert(fields[i].0 == put[i].0);
                }
            }
        } else if name_less(name, first.0) {
            field_behind_first((name, tree), fields, wanted);
            assert forall|i: int| 0 <= i < fields.len() implies name_less(
                name,
                (#[trigger] fields[i]).0,
            ) && fields[i].0 != name by {
                if i > 0 {
                    assert(name_less(fields[0].0, fields[i].0));
                    names_are_ordered(name, first.0, fields[i].0);
                }
                names_are_ordered(name, name, name);
            }
            missing_field(fields, name);
            assert forall|i: int, j: int| 0 <= i < j < put.len() implies name_less(
                (#[trigger] put[i]).0,
                (#[trigger] put[j]).0,
            ) by {
                assert(put[j] == fields[j - 1]);
                if i > 0 {
                    assert(put[i] == fields[i - 1]);
                }
            }
            assert forall|i: int| 0 <= i < put.len() implies (#[trigger] put[i]).0 == name
                || exists|j: int| 0 <= j < fields.len() && (#[trigger] fields[j]).0 == put[i].0 by {
                if i > 0 {
                    assert(fields[i - 1].0 == put[i].0);
                }
            }
        } else {
            put_field_is_found(rest, name, tree, wanted);
            let tail = put_field(rest, name, tree);
            field_behind_first(first, tail, wanted);
            names_are_ordered(first.0, name, name);
            assert forall|i: int| 0 <= i < tail.len() implies name_less(
                first.0,
                (#[trigger] tail[i]).0,
            ) && (tail[i].0 == name || exists|j: int|
                0 <= j < fields.len() && (#[trigger] fields[j]).0 == tail[i].0) by {
                if tail[i].0 != name {
                    let j = choose|j: int|
                        0 <= j < rest.len() && (#[trigger] rest[j]).0 == tail[i].0;
                    assert(fields[j + 1].0 == tail[i].0);
                }
            }
            assert forall|i: int, j: int| 0 <= i < j < put.len() implies name_less(
                (#[trigger] put[i]).0,
                (#[trigger] put[j]).0,
            ) by {
                assert(put[j] == tail[j - 1]);
                if i > 0 {
                    assert(put[i] == tail[i - 1]);
                }
            }
            assert forall|i: int| 0 <= i < put.len() implies (#[trigger] put[i]).0 == name
                || exists|j: int| 0 <= j < fields.len() && (#[trigger] fields[j]).0 == put[i].0 by {
                if i > 0 {
                    assert(put[i] == tail[i - 1]);
                } else {
                    assert(fields[0].0 == put[0].0);
                }
            }
        }
    }
}

/// The normal form of fields is sorted, and each is found in it by its name.
proof fn normal_fields_are_found(
    fields: Seq<(Seq<char>, JsonTree)>,
    n: nat,
    name: Seq<char>,
)
    requires
        n <= fields.len(),
    ensures
        sorted(normal_fields(fields, n)),
        field_in(normal_fields(fields, n), name) == match field_in(fields.take(n as int), name) {
            Some(tree) => Some(normal(tree)),
            None => None,
        },
    decreases n,
{
    if n > 0 {
        let before = (n - 1) as nat;
        normal_fields_are_found(fields, before, name);
        assert(fields.take(n as int).drop_last() =~= fields.take(before as int));
        assert(fields.take(n as int).last() == fields[n - 1]);
        put_field_is_found(
            normal_fields(fields, before),
            fields[n - 1].0,
            normal(fields[n - 1].1),
            name,
        );
    }
}

/// Writing keeps a value: texts, booleans, null and numbers from zero on stay as
/// they are, a number below zero too, and an array keeps its items and their
/// order, however many there are.
pub proof fn writing_keeps_values(
    text: Seq<char>,
    b: bool,
    n: u64,
    m: i64,
    items: Seq<JsonTree>,
)
    ensures
        normal(JsonTree::Text(text)) == JsonTree::Text(text),
        normal(JsonTree::Bool(b)) == JsonTree::Bool(b),
        normal(JsonTree::Null) == JsonTree::Null,
        normal(JsonTree::Unsigned(n)) == JsonTree::Unsigned(n),
        m < 0 ==> normal(JsonTree::Negative(m)) == JsonTree::Negative(m),
        normal(JsonTree::Decimal(text)) == decimal_tree(text),
        normal(JsonTree::Array(items)) is Array,
        normal(JsonTree::Array(items))->Array_0.len() == items.len(),
        forall|i: int|
            0 <= i < items.len() ==> (#[trigger] normal(JsonTree::Array(items))->Array_0[i])
                == normal(items[i]),
{
}

/// What is read of an object by a name is what is written under it: both take
/// the last field of that name.
pub proof fn reading_agrees_with_writing(tree: JsonTree, name: Seq<char>)
    requires
        tree is Object,
    ensures
        normal(tree) is Object,
        sorted(normal(tree)->Object_0),
        normal(tree).field(name) == match tree.field(name) {
            Some(value) => Some(normal(value)),
            None => None,
        },
{
    let fields = tree->Object_0;
    normal_fields_are_found(fields, fields.len(), name);
    assert(fields.take(fields.len() as int) =~= fields);
}

// ---------------------------------------------------------------------------
// Calls into serde_json
// ---------------------------------------------------------------------------

/// Calls `serde_json::from_slice` for a `Value`. Which bytes it accepts, and
/// what they hold, is named by [`parsed_json`].
#[verifier::external_body]
fn value_from_slice(bytes: &[u8]) -> (value: Option<serde_json::Value>)
    ensures
        match value {
            Some(value) => parsed_json(bytes@) == Some(value_tree(value)),
            None => parsed_json(bytes@) is None,
        },
{
    serde_json::from_slice(bytes).ok()
}

/// Calls `serde_json::to_vec` for a `Value`. The bytes are a function of what
/// the value holds, named by [`json_bytes`].
#[verifier::external_body]
fn value_to_vec(value: &serde_json::Value) -> (document: Result<Vec<u8>, String>)
    ensures
        document_view(document) == json_bytes(value_tree(*value)),
{
    serde_json::to_vec(value).map_err(|error| error.to_string())
}

/// An object with one field, whose name is made of ASCII letters and digits and
/// whose value is a boolean.
pub open spec fn single_flag(tree: JsonTree) -> bool {
    &&& tree is Object
    &&& tree->Object_0.len() == 1
    &&& tree->Object_0[0].1 is Bool
    &&& forall|i: int|
        0 <= i < tree->Object_0[0].0.len() ==> ascii_alphanumeric(
            #[trigger] tree->Object_0[0].0[i],
        )
}

/// Calls `serde_json::to_vec_pretty` for a `Value`. The bytes are a function of
/// what the value holds, named by [`pretty_bytes`]. For an object with one
/// boolean under a name of letters and digits, `serde_json::from_slice` reads
/// from them what was written. Nothing of the kind is said of other values:
/// `serde_json` gives names that start with a dollar sign a meaning of its own.
#[verifier::external_body]
fn value_to_vec_pretty(value: &serde_json::Value) -> (document: Result<Vec<u8>, String>)
    ensures
        document_view(document) == pretty_bytes(value_tree(*value)),
        single_flag(value_tree(*value)) ==> (document matches Ok(bytes) ==> parsed_json(bytes@)
            == Some(value_tree(*value))),
{
    serde_json::to_vec_pretty(value).map_err(|error| error.to_string())
}

/// The bytes that `serde_json` writes over several lines for a record: texts
/// under names, in the order given; or the text of its error.
pub uninterp spec fn record_bytes(
    fields: Seq<(Seq<char>, Seq<char>)>,
) -> Result<Seq<u8>, Seq<char>>;

/// The texts of a record.
pub open spec fn record_texts(fields: Seq<(String, String)>) -> Seq<(Seq<char>, Seq<char>)> {
    fields.map_values(|field: (String, String)| (field.0@, field.1@))
}

/// What a record holds.
pub open spec fn record_object(fields: Seq<(Seq<char>, Seq<char>)>) -> JsonTree {
    JsonTree::Object(
        fields.map_values(|field: (Seq<char>, Seq<char>)| (field.0, JsonTree::Text(field.1))),
    )
}

/// Whether a name is made of ASCII letters, digits and underscores.
pub open spec fn plain_name(name: Seq<char>) -> bool {
    forall|i: int| 0 <= i < name.len() ==> ascii_alphanumeric(#[trigger] name[i]) || name[i] == '_'
}

/// Calls `serde::Serializer::collect_map` of a `serde_json::Serializer::pretty`
/// on texts under names, which writes an object of them in the order given. The
/// bytes are named by [`record_bytes`]. Where the names are plain,
/// `serde_json::from_slice` reads from them an object of the same texts.
#[verifier::external_body]
pub(crate) fn record_to_vec_pretty(fields: &Vec<(String, String)>) -> (document: Result<
    Vec<u8>,
    String,
>)
    ensures
        document_view(document) == record_bytes(record_texts(fields@)),
        (forall|i: int|
            0 <= i < fields@.len() ==> plain_name((#[trigger] record_texts(fields@)[i]).0)) ==> (
        document matches Ok(bytes) ==> parsed_json(bytes@) == Some(
            normal(record_object(record_texts(fields@))),
        )),
{
    let mut bytes = Vec::new();
    let mut serializer = serde_json::Serializer::pretty(&mut bytes);
    let entries = fields.iter().map(|field| (&field.0, &field.1));
    match serde::Serializer::collect_map(&mut serializer, entries) {
        Ok(()) => Ok(bytes),
        Err(error) => Err(error.to_string()),
    }
}

/// Tells the variants of a `serde_json::Value` apart. A number is given by
/// `Number::as_u64` where that has one, else by `Number::as_i64`, which then is
/// below zero, else by the text that `Number` displays.
#[verifier::external_body]
fn open_value(value: serde_json::Value) -> (node: Node)
    ensures
        node.tree() == value_tree(value),
        node matches Node::Negative(n) ==> n < 0,
{
    match value {
        serde_json::Value::Null => Node::Null,
        serde_json::Value::Bool(b) => Node::Bool(b),
        serde_json::Value::Number(n) => match (n.as_u64(), n.as_i64()) {
            (Some(u), _) => Node::Unsigned(u),
            (None, Some(i)) => Node::Negative(i),
            (None, None) => Node::Decimal(n.to_string()),
        },
        serde_json::Value::String(text) => Node::Text(text),
        serde_json::Value::Array(values) => Node::Array(values),
        serde_json::Value::Object(map) => Node::Object(map),
    }
}

/// Makes a `serde_json::Value` of a node: the variant of the same name, its
/// number by `From<u64>` or `From<i64>`, or for a decimal text by the chain that
/// [`decimal_tree`] names.
#[verifier::external_body]
fn make_value(node: Node) -> (value: serde_json::Value)
    ensures
        value_tree(value) == match node {
            Node::Negative(n) if n >= 0 => JsonTree::Unsigned(n as u64),
            Node::Decimal(text) => decimal_tree(text@),
            _ => node.tree(),
        },
{
    match node {
        Node::Null => serde_json::Value::Null,
        Node::Bool(b) => serde_json::Value::Bool(b),
        Node::Unsigned(n) => serde_json::Value::from(n),
        Node::Negative(n) => serde_json::Value::from(n),
        Node::Decimal(text) => serde_json::Value::from(text.parse().ok().and_then(serde_json::Number::from_f64)),
        Node::Text(text) => serde_json::Value::String(text),
        Node::Array(values) => serde_json::Value::Array(values),
        Node::Object(map) => serde_json::Value::Object(map),
    }
}

/// Calls `serde_json::Map::into_iter`, which gives the fields out in the order
/// of the map. The map is a B-tree, so that is the order of their names, and no
/// name stands twice.
#[verifier::external_body]
fn map_into_entries(
    map: serde_json::Map<String, serde_json::Value>,
) -> (entries: Vec<(String, serde_json::Value)>)
    ensures
        entry_trees(entries@) == map_fields(map),
        sorted(entry_trees(entries@)),
{
    map.into_iter().collect()
}

/// Calls `serde_json::Map::new`, which makes a map without fields.
#[verifier::external_body]
fn map_new() -> (map: serde_json::Map<String, serde_json::Value>)
    ensures
        map_fields(map) == Seq::<(Seq<char>, JsonTree)>::empty(),
{
    serde_json::Map::new()
}

/// Calls `serde_json::Map::insert`, which replaces the field of that name or
/// adds one. The map is a B-tree, so its fields stay sorted by name.
#[verifier::external_body]
fn map_insert(
    map: &mut serde_json::Map<String, serde_json::Value>,
    name: String,
    value: serde_json::Value,
)
    ensures
        map_fields(*final(map)) == put_field(map_fields(*old(map)), name@, value_tree(value)),
{
    map.insert(name, value);
}

// ---------------------------------------------------------------------------
// Conversions
// ---------------------------------------------------------------------------

/// The library's value for a `serde_json` one.
fn from_value(value: serde_json::Value) -> (json: Json)
    ensures
        json.tree() == value_tree(value),
        valid(json.tree()),
    decreases value_tree(value),
{
    match open_value(value) {
        Node::Null => Json::Null,
        Node::Bool(b) => Json::Bool(b),
        Node::Unsigned(n) => Json::Unsigned(n),
        Node::Negative(n) => Json::Negative(n),
        Node::Decimal(text) => Json::Decimal(text),
        Node::Text(text) => Json::Text(text),
        Node::Array(values) => {
            let ghost all = values@;
            let ghost trees = value_trees(all);
            let mut items: Vec<Json> = Vec::new();
            for v in it: values
                invariant
                    it.seq() == all,
                    trees == value_trees(all),
                    value_tree(value) == JsonTree::Array(trees),
                    item_trees(items@) == trees.take(it.index() as int),
                    forall|i: int| 0 <= i < it.index() ==> valid(#[trigger] trees[i]),
            {
                assert(decreases_to!(value_tree(value) => value_tree(value)->Array_0));
                assert(decreases_to!(trees => trees[it.index() as int]));
                let item = from_value(v);
                let ghost before = items@;
                items.push(item);
                assert(item_trees(items@) =~= item_trees(before).push(item.tree()));
                assert(trees.take(it.index() + 1) =~= trees.take(it.index() as int).push(
                    trees[it.index() as int],
                ));
            }
            assert(trees.take(trees.len() as int) =~= trees);
            proof {
                array_tree(items);
            }
            Json::Array(items)
        },
        Node::Object(map) => {
            let ghost trees = map_fields(map);
            let entries = map_into_entries(map);
            let ghost all = entries@;
            let mut fields: Vec<(String, Json)> = Vec::new();
            for entry in it: entries
                invariant
                    it.seq() == all,
                    trees == entry_trees(all),
                    value_tree(value) == JsonTree::Object(trees),
                    field_trees(fields@) == trees.take(it.index() as int),
                    forall|i: int| 0 <= i < it.index() ==> valid((#[trigger] trees[i]).1),
            {
                let ghost n = it.index() as int;
                assert(trees[n] == (entry.0@, value_tree(entry.1)));
                assert(decreases_to!(value_tree(value) => value_tree(value)->Object_0));
                assert(decreases_to!(trees => trees[n]));
                assert(decreases_to!(trees[n] => trees[n].1));
                let field = (entry.0, from_value(entry.1));
                let ghost before = fields@;
                fields.push(field);
                assert(field_trees(fields@) =~= field_trees(before).push(
                    (field.0@, field.1.tree()),
                ));
                assert(trees.take(n + 1) =~= trees.take(n).push(trees[n]));
            }
            assert(trees.take(trees.len() as int) =~= trees);
            proof {
                object_tree(fields);
            }
            Json::Object(fields)
        },
    }
}

/// The `serde_json` value for one of the library.
fn to_value(json: &Json) -> (value: serde_json::Value)
    ensures
        value_tree(value) == normal(json.tree()),
    decreases json,
{
    match json {
        Json::Null => make_value(Node::Null),
        Json::Bool(b) => make_value(Node::Bool(*b)),
        Json::Unsigned(n) => make_value(Node::Unsigned(*n)),
        Json::Negative(n) => make_value(Node::Negative(*n)),
        Json::Decimal(text) => make_value(Node::Decimal(text.clone())),
        Json::Text(text) => make_value(Node::Text(text.clone())),
        Json::Array(items) => {
            proof {
                array_tree(*items);
            }
            let ghost target = normal(json.tree())->Array_0;
            let mut values: Vec<serde_json::Value> = Vec::new();
            for i in 0..items.len()
                invariant
                    json == Json::Array(*items),
                    json.tree() == JsonTree::Array(item_trees(items@)),
                    target == normal(json.tree())->Array_0,
                    value_trees(values@) == target.take(i as int),
            {
                assert(decreases_to!(json => *items));
                assert(decreases_to!(items@ => items@[i as int]));
                let value = to_value(&items[i]);
                assert(target[i as int] == normal(items@[i as int].tree()));
                let ghost before = values@;
                values.push(value);
                assert(value_trees(values@) =~= value_trees(before).push(value_tree(value)));
                assert(target.take(i + 1) =~= target.take(i as int).push(target[i as int]));
            }
            assert(target.take(target.len() as int) =~= target);
            make_value(Node::Array(values))
        },
        Json::Object(fields) => {
            proof {
                object_tree(*fields);
            }
            let ghost trees = field_trees(fields@);
            let mut map = map_new();
            for i in 0..fields.len()
                invariant
                    json == Json::Object(*fields),
                    trees == field_trees(fields@),
                    json.tree() == JsonTree::Object(trees),
                    map_fields(map) == normal_fields(trees, i as nat),
            {
                assert(decreases_to!(json => *fields));
                assert(decreases_to!(fields@ => fields@[i as int]));
                assert(decreases_to!(fields@[i as int] => fields@[i as int].1));
                let value = to_value(&fields[i].1);
                assert(trees[i as int] == (fields@[i as int].0@, fields@[i as int].1.tree()));
                map_insert(&mut map, fields[i].0.clone(), value);
            }
            make_value(Node::Object(map))
        },
    }
}

/// Reads a JSON document.
pub fn parse_json(bytes: &[u8]) -> (json: Option<Json>)
    ensures
        match json {
            Some(json) => parsed_json(bytes@) == Some(json.tree()) && valid(json.tree()),
            None => parsed_json(bytes@) is None,
        },
{
    match value_from_slice(bytes) {
        Some(value) => Some(from_value(value)),
        None => None,
    }
}

/// Writes a JSON document.
pub fn write_json(json: &Json) -> (document: Result<Vec<u8>, String>)
    ensures
        document_view(document) == json_bytes(normal(json.tree())),
{
    let value = to_value(json);
    value_to_vec(&value)
}

/// Writes a JSON document over several lines. What was written for an object
/// with one boolean under a plain name is what [`parse_json`] reads.
pub fn write_json_pretty(json: &Json) -> (document: Result<Vec<u8>, String>)
    ensures
        document_view(document) == pretty_bytes(normal(json.tree())),
        single_flag(normal(json.tree())) ==> (document matches Ok(bytes) ==> parsed_json(bytes@)
            == Some(normal(json.tree()))),
{
    let value = to_value(json);
    value_to_vec_pretty(&value)
}

} // verus!
