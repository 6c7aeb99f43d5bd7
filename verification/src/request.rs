//! The shape of an upstream chat-completion request and of the pieces a
//! response is built from.
//!
//! These are plain data: the embedding application copies them into its
//! serializable twins at the transport boundary. Temperature is carried
//! in hundredths, like everywhere else in the core.

use vstd::prelude::*;
use crate::models::GptModel;
use crate::models::spec_model_string;

verus! {

/// Who a chat message is attributed to.
#[derive(Clone, Copy, Debug, PartialEq, Eq, Structural)]
#[allow(non_camel_case_types)]
pub enum MessageRole {
    user,
    system,
    assistant,
    function,
}

/// One chat message of a request or response.
#[derive(Debug, PartialEq)]
pub struct ChatCompletionMessage {
    pub role: MessageRole,
    pub content: Option<String>,
    pub name: Option<String>,
    pub function_call: Option<String>,
}

/// Why the upstream service stopped generating.
#[derive(Clone, Copy, Debug, PartialEq, Eq, Structural)]
#[allow(non_camel_case_types)]
pub enum FinishReason {
    stop,
    length,
    function_call,
    content_filter,
    null,
}

/// One choice of a chat-completion response.
#[derive(Debug, PartialEq)]
pub struct ChatCompletionChoice {
    pub index: i64,
    pub message: ChatCompletionMessage,
    pub finish_reason: FinishReason,
}

/// The JSON schema types a function declaration can carry.
#[derive(Clone, Copy, Debug, PartialEq, Eq, Structural)]
pub enum JSONSchemaType {
    Object,
    Number,
    String,
    Array,
    Null,
    Boolean,
}

/// One property definition of a function's parameter schema.
#[derive(Debug)]
pub struct JSONSchemaDefine {
    pub schema_type: Option<JSONSchemaType>,
    pub description: Option<String>,
    pub enum_values: Option<Vec<String>>,
    pub properties: Option<Vec<(String, Box<JSONSchemaDefine>)>>,
    pub required: Option<Vec<String>>,
    pub items: Option<Box<JSONSchemaDefine>>,
}

/// The parameter schema of a declared function.
#[derive(Debug)]
pub struct FunctionParameters {
    pub schema_type: JSONSchemaType,
    pub properties: Option<Vec<(String, Box<JSONSchemaDefine>)>>,
    pub required: Option<Vec<String>>,
}

/// A function the model may be asked to call.
#[derive(Debug)]
pub struct Function {
    pub name: String,
    pub description: Option<String>,
    pub parameters: Option<FunctionParameters>,
}

/// A chat-completion request: the model's wire name, the messages, and
/// the sampling temperature in hundredths.
#[derive(Debug)]
pub struct ChatCompletionRequest {
    pub model: String,
    pub messages: Vec<ChatCompletionMessage>,
    pub functions: Option<Vec<Function>>,
    pub function_call: Option<String>,
    pub temperature: Option<u32>,
}

/// Builds the one-message request that every request flow sends: the
/// payload text as a single user message under the chosen model and
/// temperature.
pub fn chat_request(model: &GptModel, content: String, temperature: u32) -> (r:
    ChatCompletionRequest)
    ensures
        r.model@ == spec_model_string(*model),
        r.messages@.len() == 1,
        r.messages@[0].role == MessageRole::user,
        r.messages@[0].content == Some(content),
        r.messages@[0].name is None,
        r.messages@[0].function_call is None,
        r.functions is None,
        r.function_call is None,
        r.temperature == Some(temperature),
{
    let mut messages: Vec<ChatCompletionMessage> = Vec::new();
    messages.push(
        ChatCompletionMessage {
            role: MessageRole::user,
            content: Some(content),
            name: None,
            function_call: None,
        },
    );
    ChatCompletionRequest {
        model: model.to_model_string(),
        messages,
        functions: None,
        function_call: None,
        temperature: Some(temperature),
    }
}

} // verus!
