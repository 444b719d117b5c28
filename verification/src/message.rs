//! The bodies of the messages, as plain values.

use serde_json::Value;
use vstd::prelude::*;
use crate::json;
use crate::json::JsonView;

verus! {

/// What a client proves its identity with.
#[derive(Debug)]
pub struct AuthParams {
    pub agent_id: String,
    /// The response to the challenge, in hexadecimal.
    pub token: String,
    pub nonce: Option<String>,
    /// The client's ephemeral public key, in hexadecimal.
    pub eph_pub: Option<String>,
}

/// Whether a client was believed.
#[derive(Debug)]
pub struct AuthResult {
    pub ok: bool,
    pub session_key_b64: Option<String>,
    pub reason: Option<String>,
    /// The server's ephemeral public key, in hexadecimal.
    pub eph_pub: Option<String>,
}

/// Why a request was refused.
#[derive(Debug)]
pub struct ErrorBody {
    pub code: i32,
    pub message: String,
    pub data: Option<Value>,
}

impl ErrorBody {
    /// Whether this is the given code and message, with nothing more.
    pub open spec fn says(self, code: i32, message: Seq<char>) -> bool {
        self.code == code && self.message@ == message && self.data is None
    }

    /// A refusal without further data.
    pub fn new(code: i32, message: String) -> (out: ErrorBody)
        ensures
            out.says(code, message@),
    {
        ErrorBody { code, message, data: None }
    }
}

/// The name and version of one end.
#[derive(Debug)]
pub struct Implementation {
    pub name: String,
    pub version: String,
}

/// What a client says of itself.
#[derive(Debug)]
pub struct InitializeParams {
    pub protocol_version: String,
    pub client_info: Implementation,
    pub capabilities: Value,
}

/// What a server says of itself.
#[derive(Debug)]
pub struct InitializeResult {
    pub protocol_version: String,
    pub server_info: Implementation,
    pub capabilities: Value,
}

/// A tool as it is listed.
#[derive(Debug)]
pub struct Tool {
    pub name: String,
    pub description: Option<String>,
    pub input_schema: Value,
}

impl Tool {
    /// Whether this is the tool with the given name, description and schema.
    pub open spec fn described(
        self,
        name: Seq<char>,
        description: Seq<char>,
        input_schema: JsonView,
    ) -> bool {
        &&& self.name@ == name
        &&& self.description matches Some(d) && d@ == description
        &&& json::json_of(self.input_schema) == input_schema
    }
}

/// A call of a tool.
#[derive(Debug)]
pub struct CallToolParams {
    pub name: String,
    pub arguments: Value,
    pub meta: Option<Value>,
}

/// A piece of a result.
#[derive(Debug)]
pub enum ContentBlock {
    Text { text: String },
    Image { data: String, mime_type: String },
}

impl ContentBlock {
    /// Whether this is the given text.
    pub open spec fn is_text(self, want: Seq<char>) -> bool {
        self matches ContentBlock::Text { text } && text@ == want
    }
}

/// The result of a call.
#[derive(Debug)]
pub struct CallToolResult {
    pub content: Vec<ContentBlock>,
    pub is_error: bool,
}

impl CallToolResult {
    /// Whether this is one text and no error.
    pub open spec fn is_text(self, want: Seq<char>) -> bool {
        self.content@.len() == 1 && self.content@[0].is_text(want) && !self.is_error
    }

    /// A result of one text.
    pub fn text(text: String) -> (out: CallToolResult)
        ensures
            out.is_text(text@),
    {
        let mut content: Vec<ContentBlock> = Vec::new();
        content.push(ContentBlock::Text { text });
        CallToolResult { content, is_error: false }
    }
}

/// A resource as it is listed.
#[derive(Debug)]
pub struct Resource {
    pub uri: String,
    pub name: String,
    pub description: Option<String>,
    pub mime_type: Option<String>,
}

impl Resource {
    /// Whether this is the resource with the given address, name and type, and
    /// without a description.
    pub open spec fn described(self, uri: Seq<char>, name: Seq<char>, mime: Seq<char>) -> bool {
        &&& self.uri@ == uri
        &&& self.name@ == name
        &&& self.description is None
        &&& self.mime_type matches Some(m) && m@ == mime
    }
}

/// What a resource holds.
#[derive(Debug)]
pub struct ResourceContents {
    pub uri: String,
    pub mime_type: Option<String>,
    pub text: Option<String>,
    pub blob: Option<String>,
}

impl ResourceContents {
    /// Whether this is the given text of the given type.
    pub open spec fn is_text(self, uri: Seq<char>, mime: Option<Seq<char>>, want: Seq<char>) -> bool {
        &&& self.uri@ == uri
        &&& match self.mime_type {
            Some(m) => mime == Some(m@),
            None => mime is None,
        }
        &&& self.text matches Some(t) && t@ == want
        &&& self.blob is None
    }
}

impl ResourceContents {
    /// The same contents once more.
    pub fn copied(&self) -> (out: ResourceContents)
        ensures
            out == *self,
    {
        ResourceContents {
            uri: self.uri.clone(),
            mime_type: copied_text(&self.mime_type),
            text: copied_text(&self.text),
            blob: copied_text(&self.blob),
        }
    }
}

fn copied_text(s: &Option<String>) -> (out: Option<String>)
    ensures
        out == *s,
{
    match s {
        Some(t) => Some(t.clone()),
        None => None,
    }
}

/// An argument of a prompt.
#[derive(Debug)]
pub struct PromptArgument {
    pub name: String,
    pub description: Option<String>,
    pub required: bool,
}

/// A prompt as it is listed.
#[derive(Debug)]
pub struct Prompt {
    pub name: String,
    pub description: Option<String>,
    pub arguments: Vec<PromptArgument>,
}

/// A message of a prompt.
#[derive(Debug)]
pub struct PromptMessage {
    pub role: String,
    pub content: ContentBlock,
}

/// A request for a prompt.
#[derive(Debug)]
pub struct GetPromptParams {
    pub name: String,
    pub arguments: Value,
}

/// A prompt with its arguments filled in.
#[derive(Debug)]
pub struct GetPromptResult {
    pub description: Option<String>,
    pub messages: Vec<PromptMessage>,
}

/// A request that is not wanted any more.
#[derive(Debug)]
pub struct CancelParams {
    pub request_id: u64,
    pub reason: Option<String>,
}

/// How far a request has come.
#[derive(Debug)]
pub struct ProgressParams {
    pub request_id: u64,
    pub progress: u64,
    pub total: Option<u64>,
    pub message: Option<String>,
}

/// A refusal that says something is of that code and of that whole message, and holds
/// nothing more.
pub proof fn refusals_are_code_and_message(code: i32, message: String, out: ErrorBody)
    requires
        call_ensures(ErrorBody::new, (code, message), out),
    ensures
        out.code == code,
        out.message@ == message@,
        out.data is None,
        forall|c: i32, m: Seq<char>| #[trigger]
            out.says(c, m) <==> c == out.code && m == out.message@,
{
}

/// A result of one text holds the whole text in one block and is no error.
pub proof fn text_results_hold_the_text(text: String, out: CallToolResult)
    requires
        call_ensures(CallToolResult::text, (text,), out),
    ensures
        out.content@.len() == 1,
        out.content@[0] matches ContentBlock::Text { text: t } && t@ == text@,
        !out.is_error,
        forall|t: Seq<char>| #[trigger] out.is_text(t) <==> t == text@,
{
}

/// What is listed of a tool and of a resource, and what a resource holds, is told apart
/// by every part of it.
pub proof fn descriptions_tell_every_part(
    t: Tool,
    r: Resource,
    c: ResourceContents,
    a: Seq<char>,
    b: Seq<char>,
    d: Seq<char>,
    schema: JsonView,
    mime: Option<Seq<char>>,
)
    ensures
        t.described(a, b, schema) <==> t.name@ == a && (t.description matches Some(x) && x@ == b)
            && json::json_of(t.input_schema) == schema,
        r.described(a, b, d) <==> r.uri@ == a && r.name@ == b && r.description is None && (
        r.mime_type matches Some(m) && m@ == d),
        c.is_text(a, mime, b) <==> c.uri@ == a && c.blob is None && (c.text matches Some(x) && x@
            == b) && (match c.mime_type {
            Some(m) => mime == Some(m@),
            None => mime is None,
        }),
{
}

} // verus!
