//! JSON values: the library's own type for them, and what is read from them.
//!
//! [`Json`] is the executable type and [`JsonTree`] what it holds. The logic of
//! the connector works on these two. A `serde_json::Value` exists only between
//! the bytes and a [`Json`].

use crate::text::{same_text, trim, trimmed};
use vstd::prelude::*;

verus! {

// ---------------------------------------------------------------------------
// Values
// ---------------------------------------------------------------------------

/// What a JSON value holds.
pub enum JsonTree {
    Null,
    Bool(bool),
    /// An integer from zero to `u64::MAX`.
    Unsigned(u64),
    /// An integer below zero.
    Negative(i64),
    /// Any other number, by its decimal text.
    Decimal(Seq<char>),
    Text(Seq<char>),
    Array(Seq<JsonTree>),
    /// The fields of an object, in order.
    Object(Seq<(Seq<char>, JsonTree)>),
}

/// A JSON value.
#[derive(Debug, PartialEq, Eq)]
pub enum Json {
    Null,
    Bool(bool),
    /// An integer from zero to `u64::MAX`.
    Unsigned(u64),
    /// An integer below zero.
    Negative(i64),
    /// Any other number, by its decimal text.
    Decimal(String),
    Text(String),
    Array(Vec<Json>),
    /// The fields of an object, in order.
    Object(Vec<(String, Json)>),
}

/// What the items of an array hold.
pub open spec fn item_trees(items: Seq<Json>) -> Seq<JsonTree> {
    items.map_values(|item: Json| item.tree())
}

/// What the fields of an object hold.
pub open spec fn field_trees(fields: Seq<(String, Json)>) -> Seq<(Seq<char>, JsonTree)> {
    fields.map_values(|field: (String, Json)| (field.0@, field.1.tree()))
}

impl Json {
    /// What the value holds.
    pub open spec fn tree(self) -> JsonTree
        decreases self,
    {
        match self {
            Json::Null => JsonTree::Null,
            Json::Bool(b) => JsonTree::Bool(b),
            Json::Unsigned(n) => JsonTree::Unsigned(n),
            Json::Negative(n) => JsonTree::Negative(n),
            Json::Decimal(text) => JsonTree::Decimal(text@),
            Json::Text(text) => JsonTree::Text(text@),
            Json::Array(items) => JsonTree::Array(
                Seq::new(
                    items@.len(),
                    |i: int|
                        if 0 <= i < items@.len() {
                            items@[i].tree()
                        } else {
                            JsonTree::Null
                        },
                ),
            ),
            Json::Object(fields) => JsonTree::Object(
                Seq::new(
                    fields@.len(),
                    |i: int|
                        if 0 <= i < fields@.len() {
                            (fields@[i].0@, fields@[i].1.tree())
                        } else {
                            (Seq::empty(), JsonTree::Null)
                        },
                ),
            ),
        }
    }
}

/// An array holds what its items hold.
pub(crate) proof fn array_tree(items: Vec<Json>)
    ensures
        Json::Array(items).tree() == JsonTree::Array(item_trees(items@)),
{
    assert(Json::Array(items).tree()->Array_0 =~= item_trees(items@));
}

/// An object holds what its fields hold.
pub(crate) proof fn object_tree(fields: Vec<(String, Json)>)
    ensures
        Json::Object(fields).tree() == JsonTree::Object(field_trees(fields@)),
{
    assert(Json::Object(fields).tree()->Object_0 =~= field_trees(fields@));
}

/// The order of field names: by the first character in which they differ, and
/// a name before its extensions.
pub open spec fn name_less(a: Seq<char>, b: Seq<char>) -> bool
    decreases a.len(),
{
    if b.len() == 0 {
        false
    } else if a.len() == 0 {
        true
    } else if a[0] == b[0] {
        name_less(a.drop_first(), b.drop_first())
    } else {
        (a[0] as u32) < (b[0] as u32)
    }
}

/// Whether fields stand in the order of their names, no name twice.
pub open spec fn sorted(fields: Seq<(Seq<char>, JsonTree)>) -> bool {
    forall|i: int, j: int|
        0 <= i < j < fields.len() ==> name_less((#[trigger] fields[i]).0, (#[trigger] fields[j]).0)
}

/// Whether a value is one that a document can hold: the fields of each object
/// stand in the order of their names, no name twice, and a number that counts
/// as negative is.
pub open spec fn valid(tree: JsonTree) -> bool
    decreases tree,
{
    match tree {
        JsonTree::Negative(n) => n < 0,
        JsonTree::Array(items) => forall|i: int|
            0 <= i < items.len() ==> valid(#[trigger] items[i]),
        JsonTree::Object(fields) => sorted(fields) && forall|i: int|
            0 <= i < fields.len() ==> valid((#[trigger] fields[i]).1),
        _ => true,
    }
}

/// Makes an object of fields.
pub fn object(fields: Vec<(String, Json)>) -> (json: Json)
    ensures
        json.tree() == JsonTree::Object(field_trees(fields@)),
        json == Json::Object(fields),
{
    proof {
        object_tree(fields);
    }
    Json::Object(fields)
}

/// Adds a field to some fields.
pub fn push_field(fields: &mut Vec<(String, Json)>, name: &str, value: Json)
    ensures
        field_trees(final(fields)@) == field_trees(old(fields)@).push((name@, value.tree())),
{
    fields.push((name.to_string(), value));
    assert(field_trees(fields@) =~= field_trees(old(fields)@).push((name@, value.tree())));
}

/// No fields.
pub fn no_fields() -> (fields: Vec<(String, Json)>)
    ensures
        field_trees(fields@) == Seq::<(Seq<char>, JsonTree)>::empty(),
{
    let fields: Vec<(String, Json)> = Vec::new();
    assert(field_trees(fields@) =~= Seq::empty());
    fields
}

/// What an integer is as a value.
pub open spec fn integer_tree(n: int) -> JsonTree {
    if n >= 0 {
        JsonTree::Unsigned(n as u64)
    } else {
        JsonTree::Negative(n as i64)
    }
}

/// The value for an integer.
pub fn integer(n: i32) -> (json: Json)
    ensures
        json.tree() == integer_tree(n as int),
{
    if n >= 0 {
        Json::Unsigned(n as u64)
    } else {
        Json::Negative(n as i64)
    }
}

/// What a text that may be absent is as a value.
pub open spec fn optional_text_tree(text: Option<Seq<char>>) -> JsonTree {
    match text {
        Some(text) => JsonTree::Text(text),
        None => JsonTree::Null,
    }
}

/// The value for a text.
pub fn text_value(text: &str) -> (json: Json)
    ensures
        json.tree() == JsonTree::Text(text@),
{
    Json::Text(text.to_string())
}

/// The value for some items.
pub fn array(items: Vec<Json>) -> (json: Json)
    ensures
        json.tree() == JsonTree::Array(item_trees(items@)),
{
    proof {
        array_tree(items);
    }
    Json::Array(items)
}

// ---------------------------------------------------------------------------
// Reading
// ---------------------------------------------------------------------------

/// What the last field of that name holds.
pub open spec fn field_in(fields: Seq<(Seq<char>, JsonTree)>, name: Seq<char>) -> Option<JsonTree>
    decreases fields.len(),
{
    if fields.len() == 0 {
        None
    } else if fields.last().0 == name {
        Some(fields.last().1)
    } else {
        field_in(fields.drop_last(), name)
    }
}

/// A field is found by its name where no field behind it has that name.
pub proof fn field_at(fields: Seq<(Seq<char>, JsonTree)>, i: int)
    requires
        0 <= i < fields.len(),
        forall|j: int| i < j < fields.len() ==> (#[trigger] fields[j]).0 != fields[i].0,
    ensures
        field_in(fields, fields[i].0) == Some(fields[i].1),
    decreases fields.len(),
{
    if i < fields.len() - 1 {
        let front = fields.drop_last();
        assert(front[i] == fields[i]);
        assert(fields[fields.len() - 1].0 != fields[i].0);
        field_at(front, i);
    }
}

/// A name that no field has is not found.
pub proof fn missing_field(fields: Seq<(Seq<char>, JsonTree)>, name: Seq<char>)
    requires
        forall|i: int| 0 <= i < fields.len() ==> (#[trigger] fields[i]).0 != name,
    ensures
        field_in(fields, name) is None,
    decreases fields.len(),
{
    if fields.len() > 0 {
        assert(fields[fields.len() - 1].0 != name);
        let front = fields.drop_last();
        assert forall|i: int| 0 <= i < front.len() implies (#[trigger] front[i]).0 != name by {
            assert(front[i] == fields[i]);
        }
        missing_field(front, name);
    }
}

impl JsonTree {
    /// What the field of that name holds, where the value is an object that
    /// has one. The last of a name counts, as it does where the value is
    /// written.
    pub open spec fn field(self, name: Seq<char>) -> Option<JsonTree> {
        match self {
            JsonTree::Object(fields) => field_in(fields, name),
            _ => None,
        }
    }

    /// The text of the field of that name.
    pub open spec fn text_of_field(self, name: Seq<char>) -> Option<Seq<char>> {
        match self.field(name) {
            Some(JsonTree::Text(text)) => Some(text),
            _ => None,
        }
    }

    /// Whether the field of that name is a boolean, and which.
    pub open spec fn bool_of_field(self, name: Seq<char>) -> Option<bool> {
        match self.field(name) {
            Some(JsonTree::Bool(b)) => Some(b),
            _ => None,
        }
    }

    /// Whether the field of that name is the boolean `true`.
    pub open spec fn flag(self, name: Seq<char>) -> bool {
        self.bool_of_field(name) == Some(true)
    }

    /// The number in the field of that name, where it is an integer that is
    /// not negative.
    pub open spec fn unsigned_of_field(self, name: Seq<char>) -> Option<u64> {
        match self.field(name) {
            Some(JsonTree::Unsigned(n)) => Some(n),
            _ => None,
        }
    }

    /// The text of the field of that name without the white space at its ends,
    /// where that leaves anything.
    pub open spec fn trimmed_field(self, name: Seq<char>) -> Option<Seq<char>> {
        match self.text_of_field(name) {
            Some(text) => if trimmed(text).len() > 0 {
                Some(trimmed(text))
            } else {
                None
            },
            None => None,
        }
    }
}

impl Json {
    /// The field of that name, where the value is an object that has one; the
    /// last of them where there are several.
    pub fn get(&self, name: &str) -> (field: Option<&Json>)
        ensures
            match field {
                Some(json) => self.tree().field(name@) == Some(json.tree()),
                None => self.tree().field(name@) is None,
            },
    {
        match self {
            Json::Object(fields) => {
                proof {
                    object_tree(*fields);
                }
                let ghost trees = field_trees(fields@);
                assert(trees.take(trees.len() as int) =~= trees);
                let mut n: usize = fields.len();
                while n > 0
                    invariant
                        n <= fields@.len(),
                        trees == field_trees(fields@),
                        self.tree() == JsonTree::Object(trees),
                        self.tree().field(name@) == field_in(trees.take(n as int), name@),
                    decreases n,
                {
                    let ghost front = trees.take(n as int);
                    assert(front.last() == trees[n - 1]);
                    assert(front.drop_last() =~= trees.take(n - 1));
                    if same_text(fields[n - 1].0.as_str(), name) {
                        return Some(&fields[n - 1].1);
                    }
                    n = n - 1;
                }
                None
            },
            _ => None,
        }
    }

    /// The text of a value that is one.
    pub fn as_str(&self) -> (text: Option<&str>)
        ensures
            match text {
                Some(s) => self.tree() == JsonTree::Text(s@),
                None => !(self.tree() is Text),
            },
    {
        match self {
            Json::Text(text) => Some(text.as_str()),
            _ => None,
        }
    }

    /// The boolean of a value that is one.
    pub fn as_bool(&self) -> (b: Option<bool>)
        ensures
            match b {
                Some(b) => self.tree() == JsonTree::Bool(b),
                None => !(self.tree() is Bool),
            },
    {
        match self {
            Json::Bool(b) => Some(*b),
            _ => None,
        }
    }

    /// The number of a value that is an integer and not negative.
    pub fn as_u64(&self) -> (n: Option<u64>)
        ensures
            match n {
                Some(n) => self.tree() == JsonTree::Unsigned(n),
                None => !(self.tree() is Unsigned),
            },
    {
        match self {
            Json::Unsigned(n) => Some(*n),
            _ => None,
        }
    }

    /// The text in the field of that name.
    pub fn text_in(&self, name: &str) -> (text: Option<&str>)
        ensures
            match text {
                Some(s) => self.tree().text_of_field(name@) == Some(s@),
                None => self.tree().text_of_field(name@) is None,
            },
    {
        match self.get(name) {
            Some(json) => json.as_str(),
            None => None,
        }
    }

    /// The boolean in the field of that name.
    pub fn bool_in(&self, name: &str) -> (b: Option<bool>)
        ensures
            b == self.tree().bool_of_field(name@),
    {
        match self.get(name) {
            Some(json) => json.as_bool(),
            None => None,
        }
    }

    /// Whether the field of that name is the boolean `true`.
    pub fn flag(&self, name: &str) -> (set: bool)
        ensures
            set == self.tree().flag(name@),
    {
        match self.bool_in(name) {
            Some(b) => b,
            None => false,
        }
    }

    /// The number in the field of that name.
    pub fn unsigned_in(&self, name: &str) -> (n: Option<u64>)
        ensures
            n == self.tree().unsigned_of_field(name@),
    {
        match self.get(name) {
            Some(json) => json.as_u64(),
            None => None,
        }
    }
}

/// The text of a field of a request, without the white space at its ends. A
/// field that is missing, is no text or is blank counts as absent.
pub fn text_field<'a>(payload: &'a Json, name: &str) -> (text: Option<&'a str>)
    ensures
        match text {
            Some(s) => payload.tree().trimmed_field(name@) == Some(s@),
            None => payload.tree().trimmed_field(name@) is None,
        },
{
    match payload.text_in(name) {
        Some(text) => {
            let core = trim(text);
            if core.is_empty() {
                None
            } else {
                Some(core)
            }
        },
        None => None,
    }
}

/// A field is read as what it holds and as nothing else: a text as that text,
/// whatever it says and however long it is, a boolean as that boolean, a number
/// as that number.
pub proof fn fields_are_read_by_type(
    fields: Seq<(Seq<char>, JsonTree)>,
    i: int,
)
    requires
        0 <= i < fields.len(),
        forall|j: int| i < j < fields.len() ==> (#[trigger] fields[j]).0 != fields[i].0,
    ensures
        ({
            let tree = JsonTree::Object(fields);
            let name = fields[i].0;
            &&& tree.field(name) == Some(fields[i].1)
            &&& tree.text_of_field(name) == match fields[i].1 {
                JsonTree::Text(text) => Some(text),
                _ => None,
            }
            &&& tree.trimmed_field(name) == match fields[i].1 {
                JsonTree::Text(text) => if trimmed(text) == Seq::<char>::empty() {
                    None
                } else {
                    Some(trimmed(text))
                },
                _ => None,
            }
            &&& tree.bool_of_field(name) == match fields[i].1 {
                JsonTree::Bool(b) => Some(b),
                _ => None,
            }
            &&& tree.flag(name) == (fields[i].1 == JsonTree::Bool(true))
            &&& tree.unsigned_of_field(name) == match fields[i].1 {
                JsonTree::Unsigned(n) => Some(n),
                _ => None,
            }
        }),
{
    field_at(fields, i);
    if let JsonTree::Text(text) = fields[i].1 {
        if trimmed(text).len() == 0 {
            assert(trimmed(text) =~= Seq::<char>::empty());
        }
    }
}

/// Of a name that no field has, and of a value that is no object, nothing is
/// read.
pub proof fn absent_fields_are_not_read(tree: JsonTree, name: Seq<char>)
    requires
        tree matches JsonTree::Object(fields) ==> forall|i: int|
            0 <= i < fields.len() ==> (#[trigger] fields[i]).0 != name,
    ensures
        tree.field(name) is None,
        tree.text_of_field(name) is None,
        tree.trimmed_field(name) is None,
        tree.bool_of_field(name) is None,
        !tree.flag(name),
        tree.unsigned_of_field(name) is None,
{
    if let JsonTree::Object(fields) = tree {
        missing_field(fields, name);
    }
}

// ---------------------------------------------------------------------------
// Searching
// ---------------------------------------------------------------------------

/// The text in the first of the named fields that holds one.
pub open spec fn direct_string(
    fields: Seq<(Seq<char>, JsonTree)>,
    keys: Seq<Seq<char>>,
) -> Option<Seq<char>>
    decreases keys.len(),
{
    if keys.len() == 0 {
        None
    } else {
        match JsonTree::Object(fields).text_of_field(keys[0]) {
            Some(text) => Some(text),
            None => direct_string(fields, keys.drop_first()),
        }
    }
}

/// The text that a search for the named fields finds: an object is searched
/// before the values in it, and those in the order of their names.
pub open spec fn found_string(tree: JsonTree, keys: Seq<Seq<char>>) -> Option<Seq<char>>
    decreases tree, 0nat,
{
    match tree {
        JsonTree::Object(fields) => match direct_string(fields, keys) {
            Some(text) => Some(text),
            None => found_in_fields(fields, keys, 0),
        },
        JsonTree::Array(items) => found_in_items(items, keys, 0),
        _ => None,
    }
}

/// What the search finds in the values of the fields from the `from`-th on.
pub open spec fn found_in_fields(
    fields: Seq<(Seq<char>, JsonTree)>,
    keys: Seq<Seq<char>>,
    from: int,
) -> Option<Seq<char>>
    decreases fields, fields.len() - from,
{
    if 0 <= from < fields.len() {
        match found_string(fields[from].1, keys) {
            Some(text) => Some(text),
            None => found_in_fields(fields, keys, from + 1),
        }
    } else {
        None
    }
}

/// What the search finds in the items from the `from`-th on.
pub open spec fn found_in_items(
    items: Seq<JsonTree>,
    keys: Seq<Seq<char>>,
    from: int,
) -> Option<Seq<char>>
    decreases items, items.len() - from,
{
    if 0 <= from < items.len() {
        match found_string(items[from], keys) {
            Some(text) => Some(text),
            None => found_in_items(items, keys, from + 1),
        }
    } else {
        None
    }
}

/// A search takes a text directly in an object before any deeper one, and among
/// the names the one that stands first in the list of names.
pub proof fn search_prefers_the_object_itself(
    fields: Seq<(Seq<char>, JsonTree)>,
    keys: Seq<Seq<char>>,
    k: int,
)
    requires
        0 <= k < keys.len(),
        JsonTree::Object(fields).text_of_field(keys[k]) is Some,
        forall|j: int|
            0 <= j < k ==> JsonTree::Object(fields).text_of_field(#[trigger] keys[j]) is None,
    ensures
        found_string(JsonTree::Object(fields), keys) == JsonTree::Object(fields).text_of_field(
            keys[k],
        ),
{
    direct_is_the_first_key(fields, keys, k);
}

/// The first of the names under which an object has a text.
proof fn direct_is_the_first_key(
    fields: Seq<(Seq<char>, JsonTree)>,
    keys: Seq<Seq<char>>,
    k: int,
)
    requires
        0 <= k <= keys.len(),
        forall|j: int|
            0 <= j < k ==> JsonTree::Object(fields).text_of_field(#[trigger] keys[j]) is None,
    ensures
        k == keys.len() ==> direct_string(fields, keys) is None,
        k < keys.len() && JsonTree::Object(fields).text_of_field(keys[k]) is Some
            ==> direct_string(fields, keys) == JsonTree::Object(fields).text_of_field(keys[k]),
    decreases keys.len(),
{
    if k > 0 {
        let rest = keys.drop_first();
        assert(JsonTree::Object(fields).text_of_field(keys[0]) is None);
        assert forall|j: int| 0 <= j < k - 1 implies JsonTree::Object(fields).text_of_field(
            #[trigger] rest[j],
        ) is None by {
            assert(rest[j] == keys[j + 1]);
        }
        direct_is_the_first_key(fields, rest, k - 1);
        if k < keys.len() {
            assert(rest[k - 1] == keys[k]);
        }
    }
}

/// Where an object has no text of its own under the names, a search goes through
/// its values in order and gives what it finds in the first that gives anything;
/// nothing where none does.
pub proof fn search_goes_through_values(
    fields: Seq<(Seq<char>, JsonTree)>,
    keys: Seq<Seq<char>>,
    i: int,
)
    requires
        forall|k: int|
            0 <= k < keys.len() ==> JsonTree::Object(fields).text_of_field(#[trigger] keys[k]) is None,
        0 <= i <= fields.len(),
        forall|j: int| 0 <= j < i ==> found_string((#[trigger] fields[j]).1, keys) is None,
    ensures
        i == fields.len() ==> found_string(JsonTree::Object(fields), keys) is None,
        i < fields.len() && found_string(fields[i].1, keys) is Some ==> found_string(
            JsonTree::Object(fields),
            keys,
        ) == found_string(fields[i].1, keys),
{
    direct_is_the_first_key(fields, keys, keys.len() as int);
    values_are_searched_in_order(fields, keys, 0, i);
}

/// The search through values from a place on.
proof fn values_are_searched_in_order(
    fields: Seq<(Seq<char>, JsonTree)>,
    keys: Seq<Seq<char>>,
    from: int,
    i: int,
)
    requires
        0 <= from <= i <= fields.len(),
        forall|j: int| from <= j < i ==> found_string((#[trigger] fields[j]).1, keys) is None,
    ensures
        i == fields.len() ==> found_in_fields(fields, keys, from) is None,
        i < fields.len() && found_string(fields[i].1, keys) is Some ==> found_in_fields(
            fields,
            keys,
            from,
        ) == found_string(fields[i].1, keys),
    decreases i - from,
{
    if from < i {
        assert(found_string(fields[from].1, keys) is None);
        values_are_searched_in_order(fields, keys, from + 1, i);
    }
}

/// A search of an array gives what it finds in the first item that gives
/// anything; nothing where none does.
pub proof fn search_goes_through_items(
    items: Seq<JsonTree>,
    keys: Seq<Seq<char>>,
    i: int,
)
    requires
        0 <= i <= items.len(),
        forall|j: int| 0 <= j < i ==> found_string(#[trigger] items[j], keys) is None,
    ensures
        i == items.len() ==> found_string(JsonTree::Array(items), keys) is None,
        i < items.len() && found_string(items[i], keys) is Some ==> found_string(
            JsonTree::Array(items),
            keys,
        ) == found_string(items[i], keys),
{
    items_are_searched_in_order(items, keys, 0, i);
}

/// The search through items from a place on.
proof fn items_are_searched_in_order(
    items: Seq<JsonTree>,
    keys: Seq<Seq<char>>,
    from: int,
    i: int,
)
    requires
        0 <= from <= i <= items.len(),
        forall|j: int| from <= j < i ==> found_string(#[trigger] items[j], keys) is None,
    ensures
        i == items.len() ==> found_in_items(items, keys, from) is None,
        i < items.len() && found_string(items[i], keys) is Some ==> found_in_items(
            items,
            keys,
            from,
        ) == found_string(items[i], keys),
    decreases i - from,
{
    if from < i {
        assert(found_string(items[from], keys) is None);
        items_are_searched_in_order(items, keys, from + 1, i);
    }
}

/// A search of a value that is neither an object nor an array gives nothing.
pub proof fn search_needs_fields(tree: JsonTree, keys: Seq<Seq<char>>)
    requires
        !(tree is Object),
        !(tree is Array),
    ensures
        found_string(tree, keys) is None,
{
}

/// The texts of some string slices.
pub open spec fn texts(keys: Seq<&str>) -> Seq<Seq<char>> {
    keys.map_values(|key: &str| key@)
}

/// Searches a value for the first text in one of the named fields.
pub fn find_string_field(value: &Json, keys: &[&str]) -> (found: Option<String>)
    requires
        valid(value.tree()),
    ensures
        match found {
            Some(text) => found_string(value.tree(), texts(keys@)) == Some(text@),
            None => found_string(value.tree(), texts(keys@)) is None,
        },
    decreases value,
{
    let ghost names = texts(keys@);
    match value {
        Json::Object(fields) => {
            proof {
                object_tree(*fields);
            }
            let ghost trees = field_trees(fields@);
            assert(names.skip(0) =~= names);
            for i in 0..keys.len()
                invariant
                    value == Json::Object(*fields),
                    names == texts(keys@),
                    value.tree() == JsonTree::Object(trees),
                    direct_string(trees, names) == direct_string(trees, names.skip(i as int)),
            {
                assert(names.skip(i as int)[0] == keys@[i as int]@);
                assert(names.skip(i as int).drop_first() =~= names.skip(i + 1));
                if let Some(text) = value.text_in(keys[i]) {
                    return Some(text.to_string());
                }
            }
            assert(direct_string(trees, names.skip(keys@.len() as int)) is None);
            for i in 0..fields.len()
                invariant
                    value == Json::Object(*fields),
                    names == texts(keys@),
                    trees == field_trees(fields@),
                    value.tree() == JsonTree::Object(trees),
                    valid(value.tree()),
                    direct_string(trees, names) is None,
                    found_in_fields(trees, names, 0) == found_in_fields(trees, names, i as int),
            {
                assert(trees[i as int].1 == fields@[i as int].1.tree());
                assert(decreases_to!(value => *fields));
                assert(decreases_to!(fields@ => fields@[i as int]));
                assert(decreases_to!(fields@[i as int] => fields@[i as int].1));
                if let Some(text) = find_string_field(&fields[i].1, keys) {
                    return Some(text);
                }
            }
            None
        },
        Json::Array(items) => {
            proof {
                array_tree(*items);
            }
            let ghost trees = item_trees(items@);
            for i in 0..items.len()
                invariant
                    value == Json::Array(*items),
                    names == texts(keys@),
                    trees == item_trees(items@),
                    value.tree() == JsonTree::Array(trees),
                    valid(value.tree()),
                    found_in_items(trees, names, 0) == found_in_items(trees, names, i as int),
            {
                assert(trees[i as int] == items@[i as int].tree());
                assert(decreases_to!(value => *items));
                assert(decreases_to!(items@ => items@[i as int]));
                if let Some(text) = find_string_field(&items[i], keys) {
                    return Some(text);
                }
            }
            None
        },
        _ => None,
    }
}

} // verus!
