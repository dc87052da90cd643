//! The descriptions of the built-in tools: `read_file`, `write_file` and
//! `shell`, each with the JSON schema of its arguments.
use vstd::prelude::*;
use serde_json::Value;

use crate::json::{array_value, bool_value, json_array, json_bool, json_object, json_string, object_value, string_value};
use crate::tools::ToolSpec;

verus! {

/// The schema of a string property with a description.
pub open spec fn string_property_schema(description: Seq<char>) -> Value {
    json_object(
        seq!["type"@, "description"@],
        seq![json_string("string"@), json_string(description)],
    )
}

/// The schema of an object with these properties, of which the named ones
/// are required, and no others allowed.
pub open spec fn object_schema_of(properties: Value, required: Seq<Seq<char>>) -> Value {
    json_object(
        seq!["type"@, "properties"@, "required"@, "additionalProperties"@],
        seq![
            json_string("object"@),
            properties,
            json_array(required.map_values(|r: Seq<char>| json_string(r))),
            json_bool(false),
        ],
    )
}

/// The JSON string of a text.
fn text_value(text: &str) -> (res: Value)
    ensures
        res == json_string(text@),
{
    string_value(text.to_string())
}

/// The schema of a string property with a description.
pub fn string_property(description: &str) -> (res: Value)
    ensures
        res == string_property_schema(description@),
{
    let mut keys: Vec<String> = Vec::new();
    keys.push("type".to_string());
    keys.push("description".to_string());
    let mut values: Vec<Value> = Vec::new();
    values.push(text_value("string"));
    values.push(text_value(description));
    let res = object_value(keys, values);
    assert(keys@.map_values(|k: String| k@) =~= seq!["type"@, "description"@]);
    assert(values@ =~= seq![json_string("string"@), json_string(description@)]);
    res
}

/// The schema of an object with these properties, of which the named ones
/// are required, and no others allowed.
pub fn object_schema(properties: Value, required: &[&str]) -> (res: Value)
    ensures
        res == object_schema_of(properties, required@.map_values(|r: &str| r@)),
{
    let mut names: Vec<Value> = Vec::new();
    let mut i: usize = 0;
    while i < required.len()
        invariant
            i <= required@.len(),
            names@ =~= required@.subrange(0, i as int).map_values(|r: &str| json_string(r@)),
        decreases required@.len() - i,
    {
        names.push(text_value(required[i]));
        i = i + 1;
    }
    let ghost required_view = required@.map_values(|r: &str| r@);
    assert(required@.subrange(0, required@.len() as int) =~= required@);
    assert(names@ =~= required_view.map_values(|r: Seq<char>| json_string(r)));
    let mut keys: Vec<String> = Vec::new();
    keys.push("type".to_string());
    keys.push("properties".to_string());
    keys.push("required".to_string());
    keys.push("additionalProperties".to_string());
    let mut values: Vec<Value> = Vec::new();
    values.push(text_value("object"));
    values.push(properties);
    values.push(array_value(names));
    values.push(bool_value(false));
    let ghost expected_values = seq![
        json_string("object"@),
        properties,
        json_array(required_view.map_values(|r: Seq<char>| json_string(r))),
        json_bool(false),
    ];
    assert(values@ =~= expected_values);
    assert(keys@.map_values(|k: String| k@) =~= seq![
        "type"@,
        "properties"@,
        "required"@,
        "additionalProperties"@,
    ]);
    object_value(keys, values)
}

/// The arguments of `read_file`: the path to read.
pub open spec fn read_file_schema() -> Value {
    object_schema_of(
        json_object(seq!["path"@], seq![string_property_schema("Path to read."@)]),
        seq!["path"@],
    )
}

/// The arguments of `write_file`: the path and the contents to write.
pub open spec fn write_file_schema() -> Value {
    object_schema_of(
        json_object(
            seq!["path"@, "contents"@],
            seq![string_property_schema("Path to write."@), string_property_schema("File contents."@)],
        ),
        seq!["path"@, "contents"@],
    )
}

/// The arguments of `shell`: the command to run.
pub open spec fn shell_schema() -> Value {
    object_schema_of(
        json_object(seq!["command"@], seq![string_property_schema("Command passed to sh -c."@)]),
        seq!["command"@],
    )
}

/// The description of `read_file`.
pub fn read_file_spec() -> (res: ToolSpec)
    ensures
        res.name@ == "read_file"@,
        res.description@ == "Read a UTF-8 file relative to the process working directory."@,
        res.parameters == read_file_schema(),
{
    let mut names: Vec<String> = Vec::new();
    names.push("path".to_string());
    let mut props: Vec<Value> = Vec::new();
    props.push(string_property("Path to read."));
    assert(names@.map_values(|k: String| k@) =~= seq!["path"@]);
    assert(props@ =~= seq![string_property_schema("Path to read."@)]);
    let properties = object_value(names, props);
    let required: [&str; 1] = ["path"];
    let parameters = object_schema(properties, &required);
    assert(required@.map_values(|r: &str| r@) =~= seq!["path"@]);
    ToolSpec {
        name: "read_file".to_string(),
        description: "Read a UTF-8 file relative to the process working directory.".to_string(),
        parameters,
    }
}

/// The description of `write_file`.
pub fn write_file_spec() -> (res: ToolSpec)
    ensures
        res.name@ == "write_file"@,
        res.description@ == "Write a UTF-8 file relative to the process working directory."@,
        res.parameters == write_file_schema(),
{
    let mut names: Vec<String> = Vec::new();
    names.push("path".to_string());
    names.push("contents".to_string());
    let mut props: Vec<Value> = Vec::new();
    props.push(string_property("Path to write."));
    props.push(string_property("File contents."));
    assert(names@.map_values(|k: String| k@) =~= seq!["path"@, "contents"@]);
    assert(props@ =~= seq![
        string_property_schema("Path to write."@),
        string_property_schema("File contents."@),
    ]);
    let properties = object_value(names, props);
    let required: [&str; 2] = ["path", "contents"];
    let parameters = object_schema(properties, &required);
    assert(required@.map_values(|r: &str| r@) =~= seq!["path"@, "contents"@]);
    ToolSpec {
        name: "write_file".to_string(),
        description: "Write a UTF-8 file relative to the process working directory.".to_string(),
        parameters,
    }
}

/// The description of `shell`.
pub fn shell_spec() -> (res: ToolSpec)
    ensures
        res.name@ == "shell"@,
        res.description@ == "Run a shell command in the process working directory."@,
        res.parameters == shell_schema(),
{
    let mut names: Vec<String> = Vec::new();
    names.push("command".to_string());
    let mut props: Vec<Value> = Vec::new();
    props.push(string_property("Command passed to sh -c."));
    assert(names@.map_values(|k: String| k@) =~= seq!["command"@]);
    assert(props@ =~= seq![string_property_schema("Command passed to sh -c."@)]);
    let properties = object_value(names, props);
    let required: [&str; 1] = ["command"];
    let parameters = object_schema(properties, &required);
    assert(required@.map_values(|r: &str| r@) =~= seq!["command"@]);
    ToolSpec {
        name: "shell".to_string(),
        description: "Run a shell command in the process working directory.".to_string(),
        parameters,
    }
}

} // verus!
