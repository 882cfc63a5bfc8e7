//! The text-generation service: its configuration, the request that is
//! sent to it and the reading of its answer.

use vstd::prelude::*;
use vstd::utf8::encode_utf8;
use crate::json::{
    json_document, parse_json, read_record_field, read_record_text, record_field, record_text,
    JsonValue,
};
use crate::text::{
    concat2, concat3, decimal, decimal_string, is_blank, starts_with, str_is_blank, trim,
    trim_end_matches, trimmed, without_trailing,
};

verus! {

/// The generation component, as the health report names it.
#[derive(Debug, Clone, Copy, Default)]
pub struct LlmService;

impl LlmService {
    /// The name of the component.
    pub fn name(&self) -> (r: &'static str)
        ensures
            r@ == "llm"@,
    {
        "llm"
    }

    /// The state of the component.
    pub fn status(&self) -> (r: &'static str)
        ensures
            r@ == "ready"@,
    {
        "ready"
    }
}

/// Where the generation service is and how it is addressed.
#[derive(Debug)]
pub struct LlmConfig {
    pub base_url: String,
    pub api_key: String,
    pub model: String,
    pub timeout_secs: u64,
}

impl Clone for LlmConfig {
    fn clone(&self) -> (r: Self)
        ensures
            r == *self,
    {
        LlmConfig {
            base_url: self.base_url.clone(),
            api_key: self.api_key.clone(),
            model: self.model.clone(),
            timeout_secs: self.timeout_secs,
        }
    }
}

/// Why a call of the generation service failed.
#[derive(Debug)]
pub enum LlmError {
    /// The configuration was refused before anything was sent.
    InvalidConfig(String),
    /// The request did not get an answer.
    Request(String),
    /// The service answered with a status of 400 or more.
    HttpStatus { status: u16, body: String },
    /// The answer did not hold a generated text.
    InvalidResponse(String),
}

impl LlmError {
    /// The error as a line of text.
    pub open spec fn text(self) -> Seq<char> {
        match self {
            LlmError::InvalidConfig(m) => "invalid llm config: "@ + m@,
            LlmError::Request(m) => "request failed: "@ + m@,
            LlmError::HttpStatus { status, body } => "server returned status "@ + decimal(
                status as nat,
            ) + ": "@ + body@,
            LlmError::InvalidResponse(m) => "invalid llm response: "@ + m@,
        }
    }

    /// The error as a line of text.
    pub fn message(&self) -> (r: String)
        ensures
            r@ == self.text(),
    {
        match self {
            LlmError::InvalidConfig(m) => concat2("invalid llm config: ", m.as_str()),
            LlmError::Request(m) => concat2("request failed: ", m.as_str()),
            LlmError::HttpStatus { status, body } => {
                let digits = decimal_string(*status as u64);
                let head = concat3("server returned status ", digits.as_str(), ": ");
                concat2(head.as_str(), body.as_str())
            },
            LlmError::InvalidResponse(m) => concat2("invalid llm response: ", m.as_str()),
        }
    }
}

/// What is wrong with a configuration, if anything: the first of a blank
/// base URL, a base URL that starts with neither `http://` nor `https://`,
/// a blank API key and a blank model.
pub open spec fn config_fault(config: LlmConfig) -> Option<Seq<char>> {
    if is_blank(config.base_url@) {
        Some("base_url cannot be empty"@)
    } else if !"http://"@.is_prefix_of(config.base_url@) && !"https://"@.is_prefix_of(
        config.base_url@,
    ) {
        Some("base_url must start with http:// or https://"@)
    } else if is_blank(config.api_key@) {
        Some("api_key cannot be empty"@)
    } else if is_blank(config.model@) {
        Some("model cannot be empty"@)
    } else {
        None
    }
}

/// Checks a configuration before anything is sent.
pub fn validate_config(config: &LlmConfig) -> (r: Result<(), LlmError>)
    ensures
        match r {
            Ok(_) => config_fault(*config) is None,
            Err(LlmError::InvalidConfig(m)) => config_fault(*config) == Some(m@),
            Err(_) => false,
        },
{
    if str_is_blank(config.base_url.as_str()) {
        return Err(LlmError::InvalidConfig("base_url cannot be empty".to_owned()));
    }
    if !starts_with(config.base_url.as_str(), "http://") && !starts_with(
        config.base_url.as_str(),
        "https://",
    ) {
        return Err(
            LlmError::InvalidConfig("base_url must start with http:// or https://".to_owned()),
        );
    }
    if str_is_blank(config.api_key.as_str()) {
        return Err(LlmError::InvalidConfig("api_key cannot be empty".to_owned()));
    }
    if str_is_blank(config.model.as_str()) {
        return Err(LlmError::InvalidConfig("model cannot be empty".to_owned()));
    }
    Ok(())
}

/// The shortest timeout a call is made with, in seconds.
pub const MIN_CHAT_TIMEOUT_SECS: u64 = 5;

/// A chat completion to ask for.
#[derive(Debug)]
pub struct ChatRequest {
    /// The URL to post to.
    pub endpoint: String,
    /// The token of the `Authorization: Bearer` header.
    pub bearer_token: String,
    pub model: String,
    pub system_prompt: String,
    pub user_prompt: String,
    pub timeout_secs: u64,
}

/// The request for a valid configuration: the endpoint is the base URL
/// without trailing slashes, then `/chat/completions`; key and model go
/// trimmed; the timeout is at least five seconds.
pub open spec fn is_chat_request(
    config: LlmConfig,
    system_prompt: Seq<char>,
    user_prompt: Seq<char>,
    request: ChatRequest,
) -> bool {
    &&& request.endpoint@ == without_trailing(config.base_url@, '/') + "/chat/completions"@
    &&& request.bearer_token@ == trimmed(config.api_key@)
    &&& request.model@ == trimmed(config.model@)
    &&& request.system_prompt@ == system_prompt
    &&& request.user_prompt@ == user_prompt
    &&& request.timeout_secs == if config.timeout_secs < 5 {
        5
    } else {
        config.timeout_secs
    }
}

/// Builds the request for a chat completion, or refuses the configuration.
pub fn build_chat_request(config: &LlmConfig, system_prompt: &str, user_prompt: &str) -> (r: Result<
    ChatRequest,
    LlmError,
>)
    ensures
        match r {
            Ok(request) => config_fault(*config) is None && is_chat_request(
                *config,
                system_prompt@,
                user_prompt@,
                request,
            ),
            Err(LlmError::InvalidConfig(m)) => config_fault(*config) == Some(m@),
            Err(_) => false,
        },
{
    match validate_config(config) {
        Err(e) => {
            return Err(e);
        },
        Ok(_) => {},
    }
    let base = trim_end_matches(config.base_url.as_str(), '/');
    Ok(
        ChatRequest {
            endpoint: concat2(base.as_str(), "/chat/completions"),
            bearer_token: trim(config.api_key.as_str()),
            model: trim(config.model.as_str()),
            system_prompt: system_prompt.to_owned(),
            user_prompt: user_prompt.to_owned(),
            timeout_secs: if config.timeout_secs < MIN_CHAT_TIMEOUT_SECS {
                MIN_CHAT_TIMEOUT_SECS
            } else {
                config.timeout_secs
            },
        },
    )
}

/// The content of one choice. A choice is a record of one field,
/// `message`, which is a record of one field, `content`, a string or
/// `null`. The message has to be there; the content may be missing.
pub open spec fn choice_content(choice: JsonValue) -> Result<Option<Seq<char>>, ()> {
    match record_field(choice, "message"@, 0, 1) {
        Ok(Some(message)) => record_text(message, "content"@, 0, 1),
        _ => Err(()),
    }
}

/// The content of the first choice of a chat completion. A completion is
/// a record of one field, `choices`, an array of choices that has to be
/// there. `Err` where the document is no such record or `choice_content`
/// refuses one of the choices; nothing where there is no choice or the first
/// has no content.
pub open spec fn first_choice(doc: JsonValue) -> Result<Option<Seq<char>>, ()> {
    match record_field(doc, "choices"@, 0, 1) {
        Ok(Some(JsonValue::Array(a))) => {
            if forall|i: int| 0 <= i < a@.len() ==> (#[trigger] choice_content(a@[i])) is Ok {
                if a@.len() == 0 {
                    Ok(None)
                } else {
                    choice_content(a@[0])
                }
            } else {
                Err(())
            }
        },
        _ => Err(()),
    }
}

fn read_choice_content(choice: &JsonValue) -> (r: Result<Option<String>, ()>)
    ensures
        match r {
            Ok(Some(s)) => choice_content(*choice) == Ok::<Option<Seq<char>>, ()>(Some(s@)),
            Ok(None) => choice_content(*choice) == Ok::<Option<Seq<char>>, ()>(None),
            Err(_) => choice_content(*choice) is Err,
        },
{
    match read_record_field(choice, "message", 0, 1) {
        Ok(Some(message)) => read_record_text(message, "content", 0, 1),
        _ => Err(()),
    }
}

fn read_choices(a: &Vec<JsonValue>) -> (r: Result<Option<String>, ()>)
    ensures
        ({
            let all = forall|i: int|
                0 <= i < a@.len() ==> (#[trigger] choice_content(a@[i])) is Ok;
            match r {
                Ok(Some(s)) => all && a@.len() > 0 && choice_content(a@[0]) == Ok::<
                    Option<Seq<char>>,
                    (),
                >(Some(s@)),
                Ok(None) => all && (a@.len() == 0 || choice_content(a@[0]) == Ok::<
                    Option<Seq<char>>,
                    (),
                >(None)),
                Err(_) => !all,
            }
        }),
{
    let mut first: Option<String> = None;
    let mut i: usize = 0;
    while i < a.len()
        invariant
            i <= a.len(),
            forall|k: int| 0 <= k < i ==> (#[trigger] choice_content(a@[k])) is Ok,
            i == 0 ==> first is None,
            i > 0 ==> match first {
                Some(s) => choice_content(a@[0]) == Ok::<Option<Seq<char>>, ()>(Some(s@)),
                None => choice_content(a@[0]) == Ok::<Option<Seq<char>>, ()>(None),
            },
        decreases a.len() - i,
    {
        match read_choice_content(&a[i]) {
            Err(_) => {
                assert(choice_content(a@[i as int]) is Err);
                return Err(());
            },
            Ok(content) => {
                if i == 0 {
                    first = content;
                }
            },
        }
        i += 1;
    }
    Ok(first)
}

/// Reads the content of the first choice out of a chat completion.
pub fn read_first_choice(doc: &JsonValue) -> (r: Result<Option<String>, ()>)
    ensures
        match r {
            Ok(Some(s)) => first_choice(*doc) == Ok::<Option<Seq<char>>, ()>(Some(s@)),
            Ok(None) => first_choice(*doc) == Ok::<Option<Seq<char>>, ()>(None),
            Err(_) => first_choice(*doc) is Err,
        },
{
    match read_record_field(doc, "choices", 0, 1) {
        Ok(Some(JsonValue::Array(a))) => read_choices(a),
        _ => Err(()),
    }
}

/// What the body of an answer with a status below 400 comes to, once
/// `serde_json` has read it: the trimmed content of the first choice where
/// that is not blank; else why there is none.
pub open spec fn chat_outcome(doc: Result<JsonValue, Seq<char>>) -> Result<Seq<char>, Seq<char>> {
    match doc {
        Err(m) => Err(m),
        Ok(v) => match first_choice(v) {
            Err(_) => Err("document is not of the shape of a chat completion"@),
            Ok(Some(s)) => if is_blank(s) {
                Err("missing choices[0].message.content"@)
            } else {
                Ok(trimmed(s))
            },
            Ok(None) => Err("missing choices[0].message.content"@),
        },
    }
}

/// Reads the answer of the service. A status of 400 or more is refused
/// with the body as it came; any other body is read as a chat completion.
pub fn interpret_chat_response(status: u16, body: &str) -> (r: Result<String, LlmError>)
    ensures
        match r {
            Ok(text) => status < 400 && chat_outcome(json_document(encode_utf8(body@))) == Ok::<
                Seq<char>,
                Seq<char>,
            >(text@),
            Err(LlmError::HttpStatus { status: s, body: b }) => status >= 400 && s == status && b@
                == body@,
            Err(LlmError::InvalidResponse(m)) => status < 400 && chat_outcome(
                json_document(encode_utf8(body@)),
            ) == Err::<Seq<char>, Seq<char>>(m@),
            Err(_) => false,
        },
{
    if status >= 400 {
        return Err(LlmError::HttpStatus { status, body: body.to_owned() });
    }
    let doc = match parse_json(body.as_bytes()) {
        Err(m) => {
            return Err(LlmError::InvalidResponse(m));
        },
        Ok(doc) => doc,
    };
    match read_first_choice(&doc) {
        Err(_) => Err(
            LlmError::InvalidResponse(
                "document is not of the shape of a chat completion".to_owned(),
            ),
        ),
        Ok(Some(s)) => {
            if str_is_blank(s.as_str()) {
                Err(LlmError::InvalidResponse("missing choices[0].message.content".to_owned()))
            } else {
                Ok(trim(s.as_str()))
            }
        },
        Ok(None) => Err(LlmError::InvalidResponse("missing choices[0].message.content".to_owned())),
    }
}

} // verus!
