//! The preferences of the user.

use crate::codec::{
    document_view, normal, normal_fields, parse_json, parsed_json, pretty_bytes, single_flag,
    write_json_pretty,
};
use crate::json::{field_at, field_trees, no_fields, object, push_field, Json, JsonTree};
use vstd::prelude::*;
use vstd::utf8::encode_utf8;

verus! {

/// Whether the connector shall start when its user signs in to the machine,
/// from the document of the preferences. It shall unless the user has said
/// that it shall not.
pub open spec fn launch_preference(document: Option<JsonTree>) -> bool {
    match document {
        Some(preferences) => match preferences.bool_of_field("launchAtLogin"@) {
            Some(enabled) => enabled,
            None => true,
        },
        None => true,
    }
}

/// Whether the connector shall start at sign-in, from the document of the
/// preferences.
pub fn launch_preference_in(document: &Option<Json>) -> (enabled: bool)
    ensures
        enabled == launch_preference(
            match *document {
                Some(preferences) => Some(preferences.tree()),
                None => None,
            },
        ),
{
    match document {
        Some(preferences) => match preferences.bool_in("launchAtLogin") {
            Some(enabled) => enabled,
            None => true,
        },
        None => true,
    }
}

/// Whether the connector shall start at sign-in, from what stands in the file
/// of the preferences, where that can be read.
pub fn load_launch_preference(contents: Option<&str>) -> (enabled: bool)
    ensures
        enabled == match contents {
            Some(contents) => launch_preference(parsed_json(encode_utf8(contents@))),
            None => true,
        },
{
    match contents {
        Some(contents) => {
            let document = parse_json(contents.as_bytes());
            launch_preference_in(&document)
        },
        None => true,
    }
}

/// The preferences that say whether the connector shall start at sign-in.
pub open spec fn preferences_tree(enabled: bool) -> JsonTree {
    JsonTree::Object(seq![("launchAtLogin"@, JsonTree::Bool(enabled))])
}

/// The preferences are written as they are.
proof fn preferences_are_plain(enabled: bool)
    ensures
        normal(preferences_tree(enabled)) == preferences_tree(enabled),
        single_flag(preferences_tree(enabled)),
{
    let fields = preferences_tree(enabled)->Object_0;
    reveal_strlit("launchAtLogin");
    reveal_with_fuel(normal_fields, 2);
    reveal_with_fuel(normal, 2);
    assert(normal_fields(fields, 0) =~= Seq::empty());
    assert(normal_fields(fields, 1) =~= fields);
}

/// What is written into the file of the preferences. What is read from it
/// later is what was saved.
pub fn save_launch_preference(enabled: bool) -> (document: Result<Vec<u8>, String>)
    ensures
        document_view(document) == pretty_bytes(preferences_tree(enabled)),
        document matches Ok(bytes) ==> launch_preference(parsed_json(bytes@)) == enabled,
{
    let mut fields = no_fields();
    push_field(&mut fields, "launchAtLogin", Json::Bool(enabled));
    assert(field_trees(fields@) =~= preferences_tree(enabled)->Object_0);
    proof {
        preferences_are_plain(enabled);
        field_at(preferences_tree(enabled)->Object_0, 0);
    }
    let preferences = object(fields);
    write_json_pretty(&preferences)
}

/// The connector starts at sign-in unless the preferences say no in so many
/// words, whatever else they hold.
pub proof fn preference_counts_where_it_is_said(preferences: JsonTree, enabled: bool)
    ensures
        preferences.field("launchAtLogin"@) == Some(JsonTree::Bool(enabled)) ==> launch_preference(
            Some(preferences),
        ) == enabled,
        !(preferences.field("launchAtLogin"@) matches Some(JsonTree::Bool(_)))
            ==> launch_preference(Some(preferences)),
        launch_preference(None),
{
}

/// What is saved says what was wished for, in one field.
pub proof fn saved_preference_says_the_wish(enabled: bool)
    ensures
        preferences_tree(enabled) == JsonTree::Object(
            seq![("launchAtLogin"@, JsonTree::Bool(enabled))],
        ),
        launch_preference(Some(preferences_tree(enabled))) == enabled,
{
    field_at(preferences_tree(enabled)->Object_0, 0);
}

} // verus!
