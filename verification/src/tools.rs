//! Tool calls: the schema that forces one, and reading one from bare JSON.

use serde_json::Value;
use vstd::prelude::*;
use vstd::string::*;

use crate::http::{fresh_uuid, is_random_uuid};
use crate::json::{
    array_value, bool_value, copy_value, fields_of, json_fields, json_of, json_parse, member,
    no_fields, no_members, object_value, parse_value, put_field, text_of, text_value, JsonModel,
};
use crate::text::str_eq;

verus! {

/// A tool that a request offers to the model.
#[derive(Debug)]
pub struct NormalizedTool {
    pub name: String,
    pub description: Option<String>,
    /// The JSON schema of the tool's arguments.
    pub schema: Value,
}

/// Which tools the model may or must call.
#[derive(Debug)]
pub enum NormalizedToolChoice {
    /// The model decides.
    Auto,
    /// No tool is called.
    Disabled,
    /// Some tool is called.
    Required,
    /// The named tool is called.
    Named(String),
}

/// A tool call that the model made.
#[derive(Debug)]
pub struct ParsedToolCall {
    pub id: String,
    pub name: String,
    pub arguments: serde_json::Map<String, Value>,
}

/// The schema of a call of the tool: an object with the tool's name and its
/// arguments, and nothing else.
pub open spec fn call_schema(name: Seq<char>, arguments: JsonModel) -> JsonModel {
    let name_schema = JsonModel::Object(no_members().insert("const"@, JsonModel::Text(name)));
    let properties = no_members().insert("name"@, name_schema).insert("arguments"@, arguments);
    let required = seq![JsonModel::Text("name"@), JsonModel::Text("arguments"@)];
    JsonModel::Object(
        no_members().insert("type"@, JsonModel::Text("object"@)).insert(
            "properties"@,
            JsonModel::Object(properties),
        ).insert("required"@, JsonModel::Array(required)).insert(
            "additionalProperties"@,
            JsonModel::Bool(false),
        ),
    )
}

fn call_schema_value(tool: &NormalizedTool) -> (r: Value)
    ensures
        json_of(r) == call_schema(tool.name@, json_of(tool.schema)),
{
    let mut name_schema: serde_json::Map<String, Value> = no_fields();
    put_field(&mut name_schema, "const", text_value(tool.name.as_str()));
    let mut properties: serde_json::Map<String, Value> = no_fields();
    put_field(&mut properties, "name", object_value(name_schema));
    put_field(&mut properties, "arguments", copy_value(&tool.schema));
    let mut required: Vec<Value> = Vec::new();
    required.push(text_value("name"));
    required.push(text_value("arguments"));
    assert(required@.map_values(|v: Value| json_of(v)) =~= seq![
        JsonModel::Text("name"@),
        JsonModel::Text("arguments"@),
    ]);
    let mut m: serde_json::Map<String, Value> = no_fields();
    put_field(&mut m, "type", text_value("object"));
    put_field(&mut m, "properties", object_value(properties));
    put_field(&mut m, "required", array_value(required));
    put_field(&mut m, "additionalProperties", bool_value(false));
    object_value(m)
}

/// The schemas of calls of the tools, in turn.
pub open spec fn call_schemas(tools: Seq<NormalizedTool>) -> Seq<JsonModel> {
    tools.map_values(|t: NormalizedTool| call_schema(t.name@, json_of(t.schema)))
}

/// The schema of the first tool with the name, at or behind `i`.
pub open spec fn named_schema(tools: Seq<NormalizedTool>, name: Seq<char>, i: int) -> Option<
    JsonModel,
>
    decreases tools.len() - i,
{
    if i < 0 || i >= tools.len() {
        None
    } else if tools[i].name@ == name {
        Some(call_schema(name, json_of(tools[i].schema)))
    } else {
        named_schema(tools, name, i + 1)
    }
}

/// The schema that a tool choice forces on the output: of the named tool, or of
/// any of the tools where one is required. A choice that forces nothing, a tool
/// that is not offered and an empty list have none.
pub open spec fn choice_schema(choice: NormalizedToolChoice, tools: Seq<NormalizedTool>) -> Option<
    JsonModel,
> {
    match choice {
        NormalizedToolChoice::Auto => None,
        NormalizedToolChoice::Disabled => None,
        NormalizedToolChoice::Named(name) => named_schema(tools, name@, 0),
        NormalizedToolChoice::Required => if tools.len() == 0 {
            None
        } else if tools.len() == 1 {
            Some(call_schemas(tools)[0])
        } else {
            Some(
                JsonModel::Object(
                    no_members().insert("oneOf"@, JsonModel::Array(call_schemas(tools))),
                ),
            )
        },
    }
}

/// The schema that a tool choice forces on the output.
pub fn tool_choice_to_schema(choice: &NormalizedToolChoice, tools: &[NormalizedTool]) -> (r: Option<
    Value,
>)
    ensures
        match r {
            Some(v) => choice_schema(*choice, tools@) == Some(json_of(v)),
            None => choice_schema(*choice, tools@) is None,
        },
{
    match choice {
        NormalizedToolChoice::Auto => None,
        NormalizedToolChoice::Disabled => None,
        NormalizedToolChoice::Named(name) => {
            let mut i: usize = 0;
            while i < tools.len()
                invariant
                    i <= tools@.len(),
                    choice_schema(*choice, tools@) == named_schema(tools@, name@, i as int),
                decreases tools.len() - i,
            {
                if str_eq(tools[i].name.as_str(), name.as_str()) {
                    return Some(call_schema_value(&tools[i]));
                }
                i += 1;
            }
            None
        },
        NormalizedToolChoice::Required => {
            if tools.len() == 0 {
                return None;
            }
            if tools.len() == 1 {
                return Some(call_schema_value(&tools[0]));
            }
            let mut branches: Vec<Value> = Vec::new();
            let mut i: usize = 0;
            while i < tools.len()
                invariant
                    i <= tools@.len(),
                    branches@.len() == i,
                    forall|k: int|
                        0 <= k < i ==> json_of(#[trigger] branches@[k]) == call_schemas(tools@)[k],
                decreases tools.len() - i,
            {
                branches.push(call_schema_value(&tools[i]));
                i += 1;
            }
            assert(branches@.map_values(|v: Value| json_of(v)) =~= call_schemas(tools@));
            let mut m: serde_json::Map<String, Value> = no_fields();
            put_field(&mut m, "oneOf", array_value(branches));
            Some(object_value(m))
        },
    }
}

/// The arguments of a call: an object, or a text that is read as one.
pub open spec fn call_arguments(arguments: JsonModel) -> Option<Map<Seq<char>, JsonModel>> {
    match arguments {
        JsonModel::Object(fields) => Some(fields),
        JsonModel::Text(s) => match json_parse(s) {
            Some(j) => j.fields(),
            None => None,
        },
        _ => None,
    }
}

/// The name and the arguments of the call that a JSON value stands for: an object
/// with a name that is not empty, and arguments.
pub open spec fn call_parts(j: JsonModel) -> Option<(Seq<char>, Map<Seq<char>, JsonModel>)> {
    match (j.member("name"@), j.member("arguments"@)) {
        (Some(JsonModel::Text(name)), Some(arguments)) => match call_arguments(arguments) {
            Some(fields) => if name.len() > 0 {
                Some((name, fields))
            } else {
                None
            },
            None => None,
        },
        _ => None,
    }
}

/// The tool call that a JSON value stands for, under the given id.
pub fn tool_call_from_value(v: &Value, id: String) -> (r: Option<ParsedToolCall>)
    ensures
        match r {
            Some(c) => {
                &&& c.id@ == id@
                &&& call_parts(json_of(*v)) == Some((c.name@, json_fields(c.arguments)))
            },
            None => call_parts(json_of(*v)) is None,
        },
{
    let name: &str = match member(v, "name") {
        Some(n) => match text_of(n) {
            Some(s) => s,
            None => {
                return None;
            },
        },
        None => {
            return None;
        },
    };
    if name.is_empty() {
        return None;
    }
    let arguments: &Value = match member(v, "arguments") {
        Some(a) => a,
        None => {
            return None;
        },
    };
    let fields: serde_json::Map<String, Value> = match fields_of(arguments) {
        Some(f) => f,
        None => {
            let text: &str = match text_of(arguments) {
                Some(s) => s,
                None => {
                    return None;
                },
            };
            let parsed: Value = match parse_value(text) {
                Some(p) => p,
                None => {
                    return None;
                },
            };
            match fields_of(&parsed) {
                Some(f) => f,
                None => {
                    return None;
                },
            }
        },
    };
    Some(ParsedToolCall { id, name: name.to_owned(), arguments: fields })
}

/// Whether a text has the form of the id of a tool call: `call_` and a random UUID.
pub open spec fn is_call_id(id: Seq<char>) -> bool {
    &&& id.len() == 41
    &&& id.take(5) == "call_"@
    &&& is_random_uuid(id.skip(5))
}

/// A new id for a tool call.
pub fn fresh_call_id() -> (r: String)
    ensures
        is_call_id(r@),
{
    let fresh: String = fresh_uuid();
    let mut id: String = "call_".to_owned();
    id.append(fresh.as_str());
    proof {
        reveal_strlit("call_");
        assert(id@.take(5) =~= "call_"@);
        assert(id@.skip(5) =~= fresh@);
    }
    id
}

/// Reads a tool call from bare JSON, and gives it a new id.
pub fn bare_json_to_tool_call(json: &str) -> (r: Option<ParsedToolCall>)
    ensures
        match r {
            Some(c) => {
                &&& json_parse(json@) is Some
                &&& call_parts(json_parse(json@)->0) == Some((c.name@, json_fields(c.arguments)))
                &&& is_call_id(c.id@)
            },
            None => json_parse(json@) is None || call_parts(json_parse(json@)->0) is None,
        },
{
    let v: Value = match parse_value(json) {
        Some(v) => v,
        None => {
            return None;
        },
    };
    tool_call_from_value(&v, fresh_call_id())
}

/// The reason with which a response ends: one with tool calls ends for them,
/// whatever the engine's reason.
pub fn select_finish_reason(any_tool_calls: bool, terminal: Option<String>) -> (r: Option<String>)
    ensures
        any_tool_calls ==> r is Some && r->0@ == "tool_calls"@,
        !any_tool_calls ==> r == terminal,
{
    if any_tool_calls {
        Some("tool_calls".to_owned())
    } else {
        terminal
    }
}

/// Whether a schema forces a call of the tool: an object with the tool's name, its
/// arguments as the tool describes them, both required, and nothing else.
pub open spec fn forces_call(j: JsonModel, name: Seq<char>, schema: JsonModel) -> bool {
    &&& j is Object
    &&& ({
        let fields = j->Object_0;
        &&& fields.contains_key("type"@) && fields["type"@] == JsonModel::Text("object"@)
        &&& fields.contains_key("additionalProperties"@) && fields["additionalProperties"@]
            == JsonModel::Bool(false)
        &&& fields.contains_key("required"@) && fields["required"@] is Array
        &&& fields["required"@]->Array_0.len() == 2
        &&& fields["required"@]->Array_0[0] == JsonModel::Text("name"@)
        &&& fields["required"@]->Array_0[1] == JsonModel::Text("arguments"@)
        &&& fields.contains_key("properties"@) && fields["properties"@] is Object
        &&& ({
            let inner = fields["properties"@]->Object_0;
            &&& inner.contains_key("arguments"@) && inner["arguments"@] == schema
            &&& inner.contains_key("name"@) && inner["name"@] is Object
            &&& inner["name"@]->Object_0.contains_key("const"@)
            &&& inner["name"@]->Object_0["const"@] == JsonModel::Text(name)
            &&& forall|key: Seq<char>| #[trigger]
                inner.contains_key(key) ==> key == "name"@ || key == "arguments"@
            &&& forall|key: Seq<char>| #[trigger]
                inner["name"@]->Object_0.contains_key(key) ==> key == "const"@
        })
        &&& forall|key: Seq<char>| #[trigger]
            fields.contains_key(key) ==> key == "type"@ || key == "properties"@ || key
                == "required"@ || key == "additionalProperties"@
    })
}

proof fn lemma_forces(name: Seq<char>, schema: JsonModel)
    ensures
        forces_call(call_schema(name, schema), name, schema),
{
    reveal_strlit("type");
    reveal_strlit("properties");
    reveal_strlit("required");
    reveal_strlit("additionalProperties");
    reveal_strlit("name");
    reveal_strlit("arguments");
    assert("type"@.len() == 4 && "properties"@.len() == 10 && "required"@.len() == 8
        && "additionalProperties"@.len() == 20 && "name"@.len() == 4 && "arguments"@.len() == 9);
}

proof fn lemma_named_schema(tools: Seq<NormalizedTool>, name: Seq<char>, i: int, k: int)
    requires
        0 <= i <= k < tools.len(),
        tools[k].name@ == name,
        forall|j: int| i <= j < k ==> (#[trigger] tools[j]).name@ != name,
    ensures
        named_schema(tools, name, i) == Some(call_schema(name, json_of(tools[k].schema))),
    decreases k - i,
{
    if i < k {
        lemma_named_schema(tools, name, i + 1, k);
    }
}

proof fn lemma_no_named_schema(tools: Seq<NormalizedTool>, name: Seq<char>, i: int)
    requires
        0 <= i,
        forall|j: int| i <= j < tools.len() ==> (#[trigger] tools[j]).name@ != name,
    ensures
        named_schema(tools, name, i) is None,
    decreases tools.len() - i,
{
    if i < tools.len() {
        lemma_no_named_schema(tools, name, i + 1);
    }
}

/// A named tool forces a call of the first tool with that name, wherever it stands in the
/// list; a name that no tool has forces nothing.
pub proof fn a_named_tool_is_forced(
    name: String,
    tools: &[NormalizedTool],
    r: Option<Value>,
    k: int,
)
    requires
        call_ensures(tool_choice_to_schema, (&NormalizedToolChoice::Named(name), tools), r),
    ensures
        0 <= k < tools@.len() && tools@[k].name@ == name@ && (forall|j: int|
            0 <= j < k ==> (#[trigger] tools@[j]).name@ != name@) ==> r is Some && forces_call(
            json_of(r->0),
            name@,
            json_of(tools@[k].schema),
        ),
        (forall|j: int| 0 <= j < tools@.len() ==> (#[trigger] tools@[j]).name@ != name@) ==> r
            is None,
{
    if 0 <= k < tools@.len() && tools@[k].name@ == name@ && (forall|j: int|
        0 <= j < k ==> (#[trigger] tools@[j]).name@ != name@) {
        lemma_named_schema(tools@, name@, 0, k);
        lemma_forces(name@, json_of(tools@[k].schema));
    }
    if forall|j: int| 0 <= j < tools@.len() ==> (#[trigger] tools@[j]).name@ != name@ {
        lemma_no_named_schema(tools@, name@, 0);
    }
}

/// Where some tool has to be called, the schema forces a call of one of the tools: of the
/// only one, or of any of several, in their order. Without tools nothing is forced.
pub proof fn some_tool_is_forced(tools: &[NormalizedTool], r: Option<Value>, k: int)
    requires
        call_ensures(tool_choice_to_schema, (&NormalizedToolChoice::Required, tools), r),
    ensures
        tools@.len() == 0 ==> r is None,
        tools@.len() == 1 ==> r is Some && forces_call(
            json_of(r->0),
            tools@[0].name@,
            json_of(tools@[0].schema),
        ),
        tools@.len() > 1 ==> {
            &&& r is Some
            &&& json_of(r->0) is Object
            &&& json_of(r->0)->Object_0.contains_key("oneOf"@)
            &&& json_of(r->0)->Object_0["oneOf"@] is Array
            &&& json_of(r->0)->Object_0["oneOf"@]->Array_0.len() == tools@.len()
            &&& forall|key: Seq<char>| #[trigger]
                json_of(r->0)->Object_0.contains_key(key) ==> key == "oneOf"@
            &&& 0 <= k < tools@.len() ==> forces_call(
                json_of(r->0)->Object_0["oneOf"@]->Array_0[k],
                tools@[k].name@,
                json_of(tools@[k].schema),
            )
        },
{
    if tools@.len() == 1 {
        lemma_forces(tools@[0].name@, json_of(tools@[0].schema));
    }
    if 0 <= k < tools@.len() {
        lemma_forces(tools@[k].name@, json_of(tools@[k].schema));
    }
}

/// A choice that leaves the model free forces nothing.
pub proof fn a_free_choice_forces_nothing(
    choice: &NormalizedToolChoice,
    tools: &[NormalizedTool],
    r: Option<Value>,
)
    requires
        choice is Auto || choice is Disabled,
        call_ensures(tool_choice_to_schema, (choice, tools), r),
    ensures
        r is None,
{
}

/// Whether a JSON value holds a call: an object with a name that is not empty, and
/// arguments that are an object, or a text that is read as one.
pub open spec fn holds_call(
    j: JsonModel,
    name: Seq<char>,
    arguments: Map<Seq<char>, JsonModel>,
) -> bool {
    &&& j is Object
    &&& name.len() > 0
    &&& j->Object_0.contains_key("name"@) && j->Object_0["name"@] == JsonModel::Text(name)
    &&& j->Object_0.contains_key("arguments"@)
    &&& j->Object_0["arguments"@] == JsonModel::Object(arguments) || (
    j->Object_0["arguments"@] is Text && json_parse(j->Object_0["arguments"@]->Text_0) == Some(
        JsonModel::Object(arguments),
    ))
}

/// A call is read from a JSON value that holds one, with its name and its arguments, and
/// from no other.
pub proof fn a_call_is_read_where_there_is_one(
    v: &Value,
    id: String,
    r: Option<ParsedToolCall>,
    name: Seq<char>,
    arguments: Map<Seq<char>, JsonModel>,
)
    requires
        call_ensures(tool_call_from_value, (v, id), r),
    ensures
        holds_call(json_of(*v), name, arguments) ==> r is Some && r->0.name@ == name && json_fields(
            r->0.arguments,
        ) == arguments,
        r is Some ==> r->0.id@ == id@ && holds_call(
            json_of(*v),
            r->0.name@,
            json_fields(r->0.arguments),
        ),
{
}

/// A call is read from the text of a JSON value as from the value itself, under a new id.
pub proof fn a_call_is_read_from_its_text(
    text: &str,
    r: Option<ParsedToolCall>,
    v: &Value,
    id: String,
    q: Option<ParsedToolCall>,
)
    requires
        call_ensures(bare_json_to_tool_call, (text,), r),
        call_ensures(tool_call_from_value, (v, id), q),
    ensures
        json_parse(text@) is None ==> r is None,
        json_parse(text@) == Some(json_of(*v)) ==> {
            &&& r is Some <==> q is Some
            &&& r is Some ==> r->0.name@ == q->0.name@ && json_fields(r->0.arguments)
                == json_fields(q->0.arguments)
            &&& r is Some ==> is_call_id(r->0.id@)
        },
{
}

/// An answer with tool calls ends for them, and any other for the engine's reason.
pub proof fn tool_calls_come_first(any: bool, terminal: Option<String>, r: Option<String>)
    requires
        call_ensures(select_finish_reason, (any, terminal), r),
    ensures
        any ==> r is Some && r->0@ == "tool_calls"@,
        !any && terminal is Some ==> r is Some && r->0@ == terminal->0@,
        !any && terminal is None ==> r is None,
{
}

/// The id of a call is `call_` and a random UUID: eight, four, four, four and twelve
/// hexadecimal digits with hyphens between them.
pub proof fn a_call_id_has_its_form(r: String, i: int)
    requires
        call_ensures(fresh_call_id, (), r),
    ensures
        r@.len() == 41,
        r@[0] == 'c' && r@[1] == 'a' && r@[2] == 'l' && r@[3] == 'l' && r@[4] == '_',
        r@[13] == '-' && r@[18] == '-' && r@[23] == '-' && r@[28] == '-',
        5 <= i < 41 && i != 13 && i != 18 && i != 23 && i != 28 ==> '0' <= r@[i] <= '9' || 'a'
            <= r@[i] <= 'f',
        r@[19] == '4',
{
    reveal_strlit("call_");
    let head = r@.take(5);
    assert(head[0] == r@[0] && head[1] == r@[1] && head[2] == r@[2] && head[3] == r@[3] && head[4]
        == r@[4]);
    let tail = r@.skip(5);
    assert(tail[8] == r@[13] && tail[13] == r@[18] && tail[18] == r@[23] && tail[23] == r@[28]);
    assert(tail[14] == r@[19]);
    if 5 <= i < 41 {
        assert(tail[i - 5] == r@[i]);
    }
}

} // verus!
