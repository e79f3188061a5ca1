//! What the provider backends send and how they read what comes back, short
//! of the JSON encoding itself: the messages of a chat request, the lines
//! of a stream, and the errors reported for failed requests.

use crate::models::{ConnectionStatus, LlmMessage, MessageRole, StreamEvent};
use crate::provider::image_data_url;
use crate::stream::{is_done_marker, sse_data, sse_data_of};
use crate::text::{push_decimal, push_str};
use vstd::prelude::*;

verus! {

/// One part of a multi-part OpenAI-style message.
#[derive(Debug, Clone)]
pub enum OpenAiPart {
    /// Text.
    Text(String),
    /// An image, by URL, with the detail level asked for.
    ImageUrl { url: String, detail: Option<String> },
}

/// The content of an OpenAI-style message: plain text, or parts when it
/// carries images.
#[derive(Debug, Clone)]
pub enum OpenAiContent {
    Text(String),
    Parts(Vec<OpenAiPart>),
}

/// A message of an OpenAI-style chat request.
#[derive(Debug, Clone)]
pub struct OpenAiMessage {
    pub role: &'static str,
    pub content: OpenAiContent,
}

/// `p` is the image part for `img`: its `data:` URL, detail "auto".
pub open spec fn image_part_of(p: OpenAiPart, img: crate::models::LlmImage) -> bool {
    match p {
        OpenAiPart::ImageUrl { url, detail } => url@ == "data:"@ + img.content_type@ + ";base64,"@
            + img.base64_data@ && match detail {
            Some(d) => d@ == "auto"@,
            None => false,
        },
        OpenAiPart::Text(_) => false,
    }
}

/// `p` is a text part holding `text`.
pub open spec fn text_part_of(p: OpenAiPart, text: Seq<char>) -> bool {
    match p {
        OpenAiPart::Text(t) => t@ == text,
        OpenAiPart::ImageUrl { .. } => false,
    }
}

/// An OpenAI-style message for `msg`: its text alone when it has no
/// images; otherwise its text followed by one image part per image, each a
/// `data:` URL with detail "auto".
pub fn to_openai_message(msg: &LlmMessage) -> (m: OpenAiMessage)
    ensures
        m.role@ == crate::models::role_name(msg.role),
        msg.images@.len() == 0 ==> (m.content matches OpenAiContent::Text(t) && t@ == msg.content@),
        msg.images@.len() > 0 ==> (m.content matches OpenAiContent::Parts(parts) && {
            &&& parts@.len() == msg.images@.len() + 1
            &&& text_part_of(parts@[0], msg.content@)
            &&& forall|i: int|
                0 <= i < msg.images@.len() ==> image_part_of(#[trigger] parts@[i + 1], msg.images@[i])
        }),
{
    let role = msg.role.as_str();
    if msg.images.len() == 0 {
        return OpenAiMessage { role, content: OpenAiContent::Text(msg.content.clone()) };
    }
    let mut parts: Vec<OpenAiPart> = Vec::new();
    parts.push(OpenAiPart::Text(msg.content.clone()));
    let mut i: usize = 0;
    while i < msg.images.len()
        invariant
            i <= msg.images@.len(),
            parts@.len() == i + 1,
            text_part_of(parts@[0], msg.content@),
            forall|k: int| 0 <= k < i ==> image_part_of(#[trigger] parts@[k + 1], msg.images@[k]),
        decreases msg.images@.len() - i,
    {
        let img = &msg.images[i];
        let url = image_data_url(img.content_type.as_str(), img.base64_data.as_str());
        let mut detail = String::new();
        push_str(&mut detail, "auto");
        parts.push(OpenAiPart::ImageUrl { url, detail: Some(detail) });
        i = i + 1;
    }
    OpenAiMessage { role, content: OpenAiContent::Parts(parts) }
}

/// A message of an Ollama chat request.
#[derive(Debug, Clone)]
pub struct OllamaMessage {
    pub role: &'static str,
    pub content: String,
    /// The images' base64 data; left out when there are none.
    pub images: Option<Vec<String>>,
}

/// An Ollama message for `msg`.
pub fn to_ollama_message(msg: &LlmMessage) -> (m: OllamaMessage)
    ensures
        m.role@ == crate::models::role_name(msg.role),
        m.content@ == msg.content@,
        msg.images@.len() == 0 ==> m.images is None,
        msg.images@.len() > 0 ==> (m.images matches Some(v) && v@.len() == msg.images@.len()
            && forall|i: int| 0 <= i < v@.len() ==> (#[trigger] v@[i])@ == msg.images@[i].base64_data@),
{
    let role = msg.role.as_str();
    if msg.images.len() == 0 {
        return OllamaMessage { role, content: msg.content.clone(), images: None };
    }
    let mut v: Vec<String> = Vec::new();
    let mut i: usize = 0;
    while i < msg.images.len()
        invariant
            i <= msg.images@.len(),
            v@.len() == i,
            forall|k: int| 0 <= k < i ==> (#[trigger] v@[k])@ == msg.images@[k].base64_data@,
        decreases msg.images@.len() - i,
    {
        v.push(msg.images[i].base64_data.clone());
        i = i + 1;
    }
    OllamaMessage { role, content: msg.content.clone(), images: Some(v) }
}

/// What a line of an OpenAI-style event stream asks for.
#[derive(Debug, Clone, PartialEq, Eq)]
pub enum SseLine {
    /// Not a data line: ignore it.
    Skip,
    /// The end-of-stream marker.
    Done,
    /// A chunk to decode.
    Chunk(String),
}

/// Reads one line of an OpenAI-style event stream.
pub fn openai_line(line: &str) -> (r: SseLine)
    ensures
        match sse_data_of(line@) {
            None => r == SseLine::Skip,
            Some(d) => if d == "[DONE]"@ {
                r == SseLine::Done
            } else {
                r matches SseLine::Chunk(c) && c@ == d
            },
        },
{
    match sse_data(line) {
        None => SseLine::Skip,
        Some(d) => {
            if is_done_marker(d.as_str()) {
                SseLine::Done
            } else {
                SseLine::Chunk(d)
            }
        },
    }
}

/// The events of the line left in an Ollama stream's buffer when the
/// connection closes: only its answer text, if it decoded and is not empty.
pub fn ollama_trailing_events(content: Option<String>) -> (r: Vec<StreamEvent>)
    ensures
        match content {
            Some(c) => if c@.len() > 0 {
                r@.len() == 1 && (r@[0] matches StreamEvent::Delta(d) && d@ == c@)
            } else {
                r@.len() == 0
            },
            None => r@.len() == 0,
        },
{
    let mut r: Vec<StreamEvent> = Vec::new();
    match content {
        Some(c) => {
            if !c.as_str().is_empty() {
                r.push(StreamEvent::Delta(c));
            }
        },
        None => {},
    }
    r
}

/// The event sent when the byte stream itself breaks.
pub fn transport_error_event(error: &str) -> (e: StreamEvent)
    ensures
        e matches StreamEvent::Error(m) && m@ == "stream error: "@ + error@,
{
    let mut m = String::new();
    push_str(&mut m, "stream error: ");
    push_str(&mut m, error);
    StreamEvent::Error(m)
}

/// Why an OpenAI-style chat request failed, from the HTTP status and body.
pub open spec fn openai_failure_reason(code: u16, status: Seq<char>, body: Seq<char>) -> Seq<char> {
    if code == 401 {
        "Invalid API key"@
    } else if code == 429 {
        "Rate limited by provider"@
    } else {
        status + ": "@ + body
    }
}

/// The error of a failed OpenAI-style chat request: `status` is the HTTP
/// status as text (e.g. "500 Internal Server Error"), `code` its number.
pub fn openai_chat_failure(code: u16, status: &str, body: &str) -> (m: String)
    ensures
        m@ == "Chat request failed ("@ + openai_failure_reason(code, status@, body@) + ")"@,
{
    let mut m = String::new();
    push_str(&mut m, "Chat request failed (");
    if code == 401 {
        push_str(&mut m, "Invalid API key");
    } else if code == 429 {
        push_str(&mut m, "Rate limited by provider");
    } else {
        push_str(&mut m, status);
        push_str(&mut m, ": ");
        push_str(&mut m, body);
    }
    push_str(&mut m, ")");
    m
}

/// The error of a failed Ollama chat request.
pub fn ollama_chat_failure(status: &str, body: &str) -> (m: String)
    ensures
        m@ == "Ollama chat failed ("@ + status@ + "): "@ + body@,
{
    let mut m = String::new();
    push_str(&mut m, "Ollama chat failed (");
    push_str(&mut m, status);
    push_str(&mut m, "): ");
    push_str(&mut m, body);
    m
}

/// The error of a failed model listing.
pub fn models_failure(provider: crate::models::ProviderType, status: &str) -> (m: String)
    ensures
        m@ == (match provider {
            crate::models::ProviderType::Ollama => "Ollama returned "@ + status@ + " for /api/tags"@,
            crate::models::ProviderType::OpenAiCompatible => "Provider returned "@ + status@
                + " for /v1/models"@,
        }),
{
    let mut m = String::new();
    match provider {
        crate::models::ProviderType::Ollama => {
            push_str(&mut m, "Ollama returned ");
            push_str(&mut m, status);
            push_str(&mut m, " for /api/tags");
        },
        crate::models::ProviderType::OpenAiCompatible => {
            push_str(&mut m, "Provider returned ");
            push_str(&mut m, status);
            push_str(&mut m, " for /v1/models");
        },
    }
    m
}

/// The error when a provider cannot be reached.
pub fn unreachable_message(provider: crate::models::ProviderType, base_url: &str) -> (m: String)
    ensures
        m@ == (match provider {
            crate::models::ProviderType::Ollama => "Cannot connect to Ollama at "@ + base_url@,
            crate::models::ProviderType::OpenAiCompatible => "Cannot connect to "@ + base_url@,
        }),
{
    let mut m = String::new();
    match provider {
        crate::models::ProviderType::Ollama => push_str(&mut m, "Cannot connect to Ollama at "),
        crate::models::ProviderType::OpenAiCompatible => push_str(&mut m, "Cannot connect to "),
    }
    push_str(&mut m, base_url);
    m
}

/// How a backend's own connection probe ended.
#[derive(Debug, Clone)]
pub enum BackendProbe {
    /// The server answered with this status code and status text.
    Answered { code: u16, status: String },
    /// No connection could be made.
    Unreachable,
    /// The request failed otherwise, for the reason given.
    Failed(String),
}

/// The connection status a backend reports for its probe: 2xx is
/// connected; an OpenAI-style endpoint answering 401 has a bad key.
pub fn backend_probe_status(
    provider: crate::models::ProviderType,
    base_url: &str,
    probe: BackendProbe,
) -> (s: ConnectionStatus)
    ensures
        match probe {
            BackendProbe::Answered { code, status } => if 200 <= code < 300 {
                s is Connected
            } else if code == 401 && provider == crate::models::ProviderType::OpenAiCompatible {
                s matches ConnectionStatus::Failed(m) && m@ == "Invalid API key"@
            } else {
                s matches ConnectionStatus::Failed(m) && m@ == "Server returned "@ + status@
            },
            BackendProbe::Unreachable => s matches ConnectionStatus::Failed(m) && m@ == (match provider {
                crate::models::ProviderType::Ollama => "Cannot connect to Ollama at "@ + base_url@,
                crate::models::ProviderType::OpenAiCompatible => "Cannot connect to "@ + base_url@,
            }),
            BackendProbe::Failed(reason) => s matches ConnectionStatus::Failed(m) && m@
                == "Request failed: "@ + reason@,
        },
{
    match probe {
        BackendProbe::Answered { code, status } => {
            if 200 <= code && code < 300 {
                ConnectionStatus::Connected
            } else if code == 401 && provider == crate::models::ProviderType::OpenAiCompatible {
                let mut m = String::new();
                push_str(&mut m, "Invalid API key");
                ConnectionStatus::Failed(m)
            } else {
                let mut m = String::new();
                push_str(&mut m, "Server returned ");
                push_str(&mut m, status.as_str());
                ConnectionStatus::Failed(m)
            }
        },
        BackendProbe::Unreachable => ConnectionStatus::Failed(unreachable_message(provider, base_url)),
        BackendProbe::Failed(reason) => {
            let mut m = String::new();
            push_str(&mut m, "Request failed: ");
            push_str(&mut m, reason.as_str());
            ConnectionStatus::Failed(m)
        },
    }
}

/// The answer of a non-streaming Ollama request for JSON output: its error,
/// or its message text with any code fence around it removed.
pub fn ollama_json_reply(error: Option<String>, content: Option<String>) -> (r: Result<String, String>)
    ensures
        match error {
            Some(e) => r matches Err(m) && m@ == "Ollama error: "@ + e@,
            None => r matches Ok(t) && t@ == crate::provider::without_code_fence(
                match content {
                    Some(c) => c@,
                    None => Seq::empty(),
                },
            ),
        },
{
    match error {
        Some(e) => {
            let mut m = String::new();
            push_str(&mut m, "Ollama error: ");
            push_str(&mut m, e.as_str());
            Err(m)
        },
        None => {
            let text = match content {
                Some(c) => c,
                None => String::new(),
            };
            Ok(crate::provider::strip_code_fence(text.as_str()))
        },
    }
}

} // verus!
