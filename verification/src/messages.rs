//! Chat messages of a request, and what a chat template gets of them.

use serde_json::Value;
use vstd::prelude::*;
use vstd::string::*;

use crate::content::{parts_text, MessageContent};
use crate::json::{
    array_value, fields_of, json_of, json_parse, no_fields, no_members, object_value, parse_value,
    put_field, text_value, JsonModel,
};
use crate::state::opt_text;

verus! {

/// The function of a tool call in a message. Its arguments are a JSON text.
#[derive(Debug)]
pub struct RequestToolCallFunction {
    pub name: String,
    pub arguments: String,
}

/// A tool call in a message.
#[derive(Debug)]
pub struct RequestToolCall {
    pub id: Option<String>,
    pub kind: Option<String>,
    pub function: RequestToolCallFunction,
}

/// A message of a request.
#[derive(Debug)]
pub struct ChatMessage {
    pub role: String,
    pub content: Option<MessageContent>,
    pub tool_calls: Option<Vec<RequestToolCall>>,
    pub tool_call_id: Option<String>,
    pub name: Option<String>,
}

impl ChatMessage {
    /// The text of the message.
    pub open spec fn text(self) -> Seq<char> {
        match self.content {
            None => Seq::empty(),
            Some(MessageContent::Text(s)) => s@,
            Some(MessageContent::Parts(parts)) => parts_text(parts@),
        }
    }

    /// The text of the message; empty where it has no content.
    pub fn content_text(&self) -> (r: String)
        ensures
            r@ == self.text(),
    {
        match &self.content {
            Some(c) => c.as_text(),
            None => String::new(),
        }
    }
}

/// The arguments of a call as a template sees them: the object that their text
/// stands for, else the text.
pub open spec fn template_arguments(text: Seq<char>) -> JsonModel {
    match json_parse(text) {
        Some(JsonModel::Object(fields)) => JsonModel::Object(fields),
        _ => JsonModel::Text(text),
    }
}

/// Fields with one more, where it is there.
pub open spec fn with_text(
    fields: Map<Seq<char>, JsonModel>,
    key: Seq<char>,
    value: Option<Seq<char>>,
) -> Map<Seq<char>, JsonModel> {
    match value {
        Some(s) => fields.insert(key, JsonModel::Text(s)),
        None => fields,
    }
}

/// A tool call as a template sees it.
pub open spec fn template_call(c: RequestToolCall) -> JsonModel {
    let function = no_members().insert("name"@, JsonModel::Text(c.function.name@)).insert(
        "arguments"@,
        template_arguments(c.function.arguments@),
    );
    JsonModel::Object(
        with_text(with_text(no_members(), "id"@, opt_text(c.id)), "type"@, opt_text(c.kind)).insert(
            "function"@,
            JsonModel::Object(function),
        ),
    )
}

fn arguments_value(text: &str) -> (r: Value)
    ensures
        json_of(r) == template_arguments(text@),
{
    if let Some(v) = parse_value(text) {
        if fields_of(&v).is_some() {
            return v;
        }
    }
    text_value(text)
}

fn call_value(c: &RequestToolCall) -> (r: Value)
    ensures
        json_of(r) == template_call(*c),
{
    let mut function: serde_json::Map<String, Value> = no_fields();
    put_field(&mut function, "name", text_value(c.function.name.as_str()));
    put_field(&mut function, "arguments", arguments_value(c.function.arguments.as_str()));
    let mut fields: serde_json::Map<String, Value> = no_fields();
    if let Some(id) = &c.id {
        put_field(&mut fields, "id", text_value(id.as_str()));
    }
    if let Some(kind) = &c.kind {
        put_field(&mut fields, "type", text_value(kind.as_str()));
    }
    put_field(&mut fields, "function", object_value(function));
    object_value(fields)
}

/// A message as a chat template gets it.
#[derive(Debug)]
pub struct OwnedTplMessage {
    pub role: String,
    pub content: String,
    /// The tool calls, with their arguments as objects and not as text.
    pub tool_calls_json: Option<Value>,
    pub tool_call_id: Option<String>,
    pub name: Option<String>,
}

fn copy_text(o: &Option<String>) -> (r: Option<String>)
    ensures
        opt_text(r) == opt_text(*o),
{
    match o {
        Some(s) => Some(s.clone()),
        None => None,
    }
}

impl OwnedTplMessage {
    /// Readies a message for a template.
    pub fn from_request(m: &ChatMessage) -> (r: OwnedTplMessage)
        ensures
            r.role@ == m.role@,
            r.content@ == m.text(),
            opt_text(r.tool_call_id) == opt_text(m.tool_call_id),
            opt_text(r.name) == opt_text(m.name),
            match m.tool_calls {
                Some(calls) => r.tool_calls_json is Some && json_of(r.tool_calls_json->0)
                    == JsonModel::Array(
                    calls@.map_values(|c: RequestToolCall| template_call(c)),
                ),
                None => r.tool_calls_json is None,
            },
    {
        let tool_calls_json: Option<Value> = match &m.tool_calls {
            None => None,
            Some(calls) => {
                let mut items: Vec<Value> = Vec::new();
                let mut i: usize = 0;
                while i < calls.len()
                    invariant
                        i <= calls.len(),
                        items.len() == i,
                        forall|k: int|
                            0 <= k < i ==> json_of(#[trigger] items@[k]) == template_call(calls@[k]),
                    decreases calls.len() - i,
                {
                    items.push(call_value(&calls[i]));
                    i += 1;
                }
                assert(items@.map_values(|v: Value| json_of(v)) =~= calls@.map_values(
                    |c: RequestToolCall| template_call(c),
                ));
                Some(array_value(items))
            },
        };
        OwnedTplMessage {
            role: m.role.clone(),
            content: m.content_text(),
            tool_calls_json,
            tool_call_id: copy_text(&m.tool_call_id),
            name: copy_text(&m.name),
        }
    }
}

/// Whether a field is there exactly where a text is, and holds it.
pub open spec fn field_is(
    fields: Map<Seq<char>, JsonModel>,
    key: Seq<char>,
    value: Option<String>,
) -> bool {
    match value {
        Some(s) => fields.contains_key(key) && fields[key] == JsonModel::Text(s@),
        None => !fields.contains_key(key),
    }
}

/// Whether a template sees a call as it was made: with its id and kind where it has them,
/// its name, and its arguments as the object that their text stands for, or else as the
/// text.
pub open spec fn shows_call(j: JsonModel, c: RequestToolCall) -> bool {
    &&& j is Object
    &&& field_is(j->Object_0, "id"@, c.id)
    &&& field_is(j->Object_0, "type"@, c.kind)
    &&& j->Object_0.contains_key("function"@)
    &&& j->Object_0["function"@] is Object
    &&& ({
        let function = j->Object_0["function"@]->Object_0;
        &&& function.contains_key("name"@) && function["name"@] == JsonModel::Text(
            c.function.name@,
        )
        &&& function.contains_key("arguments"@)
        &&& match json_parse(c.function.arguments@) {
            Some(parsed) => if parsed is Object {
                function["arguments"@] == parsed
            } else {
                function["arguments"@] == JsonModel::Text(c.function.arguments@)
            },
            None => function["arguments"@] == JsonModel::Text(c.function.arguments@),
        }
        &&& forall|key: Seq<char>| #[trigger]
            function.contains_key(key) ==> key == "name"@ || key == "arguments"@
    })
    &&& forall|key: Seq<char>| #[trigger]
        j->Object_0.contains_key(key) ==> key == "id"@ || key == "type"@ || key == "function"@
}

proof fn lemma_shows_call(c: RequestToolCall)
    ensures
        shows_call(template_call(c), c),
{
    reveal_strlit("id");
    reveal_strlit("type");
    reveal_strlit("function");
    reveal_strlit("name");
    reveal_strlit("arguments");
    assert("id"@.len() == 2 && "type"@.len() == 4 && "function"@.len() == 8 && "name"@.len() == 4
        && "arguments"@.len() == 9);
}

/// A template gets a message as it was sent: its role, its name, the call that it answers,
/// its text, and every tool call in turn.
pub proof fn a_template_gets_the_message_as_sent(
    m: &ChatMessage,
    r: OwnedTplMessage,
    text: String,
    k: int,
)
    requires
        call_ensures(OwnedTplMessage::from_request, (m,), r),
        m.content matches Some(c) ==> call_ensures(MessageContent::as_text, (&c,), text),
    ensures
        r.role@ == m.role@,
        m.content is None ==> r.content@.len() == 0,
        m.content is Some ==> r.content@ == text@,
        r.name is Some <==> m.name is Some,
        r.name is Some ==> r.name->0@ == m.name->0@,
        r.tool_call_id is Some <==> m.tool_call_id is Some,
        r.tool_call_id is Some ==> r.tool_call_id->0@ == m.tool_call_id->0@,
        m.tool_calls is None ==> r.tool_calls_json is None,
        m.tool_calls is Some ==> {
            &&& r.tool_calls_json is Some
            &&& json_of(r.tool_calls_json->0) is Array
            &&& json_of(r.tool_calls_json->0)->Array_0.len() == m.tool_calls->0@.len()
            &&& 0 <= k < m.tool_calls->0@.len() ==> shows_call(
                json_of(r.tool_calls_json->0)->Array_0[k],
                m.tool_calls->0@[k],
            )
        },
{
    if m.tool_calls is Some && 0 <= k < m.tool_calls->0@.len() {
        lemma_shows_call(m.tool_calls->0@[k]);
    }
}

/// The text of a message is that of its content, and empty where it has none.
pub proof fn a_message_has_the_text_of_its_content(m: &ChatMessage, r: String, text: String)
    requires
        call_ensures(ChatMessage::content_text, (m,), r),
        m.content matches Some(c) ==> call_ensures(MessageContent::as_text, (&c,), text),
    ensures
        m.content is None ==> r@.len() == 0,
        m.content is Some ==> r@ == text@,
{
}

} // verus!
