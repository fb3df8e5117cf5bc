//! The JSON a post-tool hook reads and writes.
use vstd::prelude::*;
use crate::text::{chars_to_string, push_str};

verus! {

/// What an agent's post-tool event carries that the hook reads.
pub struct HookInput {
    pub tool_name: String,
    pub tool_input: ToolInput,
    pub cwd: Option<String>,
}

pub struct ToolInput {
    pub file_path: Option<String>,
}

impl Default for ToolInput {
    fn default() -> (r: ToolInput)
        ensures
            r.file_path is None,
    {
        ToolInput { file_path: None }
    }
}

/// The hook's answer: a line for the user's terminal and context for the model.
pub struct HookOutput {
    pub system_message: Option<String>,
    pub hook_specific_output: Option<HookSpecificOutput>,
}

pub struct HookSpecificOutput {
    pub hook_event_name: String,
    pub additional_context: Option<String>,
}

impl Default for HookOutput {
    fn default() -> (r: HookOutput)
        ensures
            r.system_message is None,
            r.hook_specific_output is None,
    {
        HookOutput { system_message: None, hook_specific_output: None }
    }
}

#[verifier::external_type_specification]
#[verifier::external_body]
pub struct ExJsonError(serde_json::Error);

/// `serde_json::to_string` of a string: the quoted, escaped JSON string literal.
pub uninterp spec fn json_string_literal(s: Seq<char>) -> Seq<char>;

/// Calls `serde_json::to_string` on a `str`. Claims that it succeeds (a string is
/// written into an in-memory buffer, where neither the serializer nor the writer can
/// fail) and that the result is `json_string_literal` of the argument.
#[verifier::external_body]
fn json_quote(s: &str) -> (r: Result<String, serde_json::Error>)
    ensures
        r is Ok,
        r matches Ok(t) ==> t@ == json_string_literal(s@),
{
    serde_json::to_string(s)
}

/// Serializing a hook output failed.
#[derive(Debug)]
pub struct JsonError;

/// The compact JSON object text for the given field values, each already a JSON
/// string literal; absent fields are left out, fields in the order below.
pub open spec fn object_text(
    system_message: Option<Seq<char>>,
    specific: Option<(Seq<char>, Option<Seq<char>>)>,
) -> Seq<char> {
    let inner = match specific {
        Some((name, ctx)) => Some(
            "{\"hookEventName\":"@ + name + match ctx {
                Some(c) => ",\"additionalContext\":"@ + c,
                None => Seq::empty(),
            } + "}"@,
        ),
        None => None,
    };
    "{"@ + match system_message {
        Some(m) => "\"systemMessage\":"@ + m + match inner {
            Some(i) => ",\"hookSpecificOutput\":"@ + i,
            None => Seq::empty(),
        },
        None => match inner {
            Some(i) => "\"hookSpecificOutput\":"@ + i,
            None => Seq::empty(),
        },
    } + "}"@
}

pub open spec fn opt_seq(o: Option<String>) -> Option<Seq<char>> {
    match o {
        Some(s) => Some(s@),
        None => None,
    }
}

/// Lays out the JSON object for already-quoted field values.
pub fn frame_object(system_message: Option<String>, specific: Option<(String, Option<String>)>) -> (r: String)
    ensures
        r@ == object_text(
            opt_seq(system_message),
            match specific {
                Some((n, c)) => Some((n@, opt_seq(c))),
                None => None,
            },
        ),
{
    let mut s: Vec<char> = Vec::new();
    push_str(&mut s, "{");
    let has_message = system_message.is_some();
    match &system_message {
        Some(m) => {
            push_str(&mut s, "\"systemMessage\":");
            push_str(&mut s, m.as_str());
        },
        None => {},
    }
    match &specific {
        Some((name, ctx)) => {
            if has_message {
                push_str(&mut s, ",");
            }
            push_str(&mut s, "\"hookSpecificOutput\":");
            push_str(&mut s, "{\"hookEventName\":");
            push_str(&mut s, name.as_str());
            match ctx {
                Some(c) => {
                    push_str(&mut s, ",\"additionalContext\":");
                    push_str(&mut s, c.as_str());
                },
                None => {},
            }
            push_str(&mut s, "}");
        },
        None => {},
    }
    push_str(&mut s, "}");
    proof {
        reveal_strlit(",");
        reveal_strlit(",\"hookSpecificOutput\":");
        reveal_strlit("\"hookSpecificOutput\":");
    }
    assert(s@ =~= object_text(
        opt_seq(system_message),
        match specific {
            Some((n, c)) => Some((n@, opt_seq(c))),
            None => None,
        },
    ));
    chars_to_string(&s)
}

/// The compact JSON text of a hook output.
pub open spec fn output_json(o: HookOutput) -> Seq<char> {
    object_text(
        match o.system_message {
            Some(m) => Some(json_string_literal(m@)),
            None => None,
        },
        match o.hook_specific_output {
            Some(h) => Some(
                (
                    json_string_literal(h.hook_event_name@),
                    match h.additional_context {
                        Some(c) => Some(json_string_literal(c@)),
                        None => None,
                    },
                ),
            ),
            None => None,
        },
    )
}

impl HookOutput {
    /// The silent answer: `{}`.
    pub fn empty() -> (r: HookOutput)
        ensures
            r.system_message is None,
            r.hook_specific_output is None,
    {
        HookOutput { system_message: None, hook_specific_output: None }
    }

    /// The output as compact JSON, fields in declaration order, absent ones left out.
    /// Serializing never fails: every field is a string.
    pub fn to_json(&self) -> (r: Result<String, JsonError>)
        ensures
            r matches Ok(t) && t@ == output_json(*self),
    {
        let message = match &self.system_message {
            Some(m) => match json_quote(m.as_str()) {
                Ok(q) => Some(q),
                Err(_) => return Err(JsonError),
            },
            None => None,
        };
        let specific = match &self.hook_specific_output {
            Some(h) => {
                let name = match json_quote(h.hook_event_name.as_str()) {
                    Ok(q) => q,
                    Err(_) => return Err(JsonError),
                };
                let ctx = match &h.additional_context {
                    Some(c) => match json_quote(c.as_str()) {
                        Ok(q) => Some(q),
                        Err(_) => return Err(JsonError),
                    },
                    None => None,
                };
                Some((name, ctx))
            },
            None => None,
        };
        Ok(frame_object(message, specific))
    }
}

/// The line a hook prints: the output's JSON (`{}` for the silent answer).
pub fn response_text(output: &HookOutput) -> (r: String)
    ensures
        r@ == output_json(*output),
        output.system_message is None && output.hook_specific_output is None ==> r@ == "{}"@,
{
    proof {
        reveal_strlit("{");
        reveal_strlit("}");
        reveal_strlit("{}");
    }
    match output.to_json() {
        Ok(t) => t,
        Err(_) => "{}".to_string(),
    }
}

} // verus!
