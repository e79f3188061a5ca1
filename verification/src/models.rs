//! Plain data shared by the chat logic: message roles, provider kinds, and
//! the payloads exchanged with the UI and with LLM providers.

use crate::text::chars_of;
use vstd::prelude::*;

verus! {

/// Maximum images that may be attached to a single message.
pub const MAX_IMAGES_PER_MESSAGE: usize = 5;

/// Maximum decoded size of a single attached image.
pub const MAX_IMAGE_BYTES: usize = 10485760;

/// Whether two character vectors hold the same characters.
pub fn same_chars(a: &Vec<char>, b: &Vec<char>) -> (r: bool)
    ensures
        r == (a@ == b@),
{
    if a.len() != b.len() {
        return false;
    }
    let mut i: usize = 0;
    while i < a.len()
        invariant
            i <= a@.len(),
            a@.len() == b@.len(),
            forall|j: int| 0 <= j < i ==> a@[j] == b@[j],
        decreases a@.len() - i,
    {
        if a[i] != b[i] {
            return false;
        }
        i = i + 1;
    }
    assert(a@ =~= b@);
    true
}

/// Whether `s` spells exactly the literal `lit`.
pub fn str_is(s: &str, lit: &str) -> (r: bool)
    ensures
        r == (s@ == lit@),
{
    let a = chars_of(s);
    let b = chars_of(lit);
    same_chars(&a, &b)
}

/// The role of a message sender, matching LLM API conventions.
#[derive(Debug, Clone, Copy, PartialEq, Eq, Structural)]
pub enum MessageRole {
    /// System instructions (sent to the model, not shown in the chat).
    System,
    /// The user's message.
    User,
    /// The assistant's reply.
    Assistant,
}

/// The name a role is stored and sent under.
pub open spec fn role_name(r: MessageRole) -> Seq<char> {
    match r {
        MessageRole::System => "system"@,
        MessageRole::User => "user"@,
        MessageRole::Assistant => "assistant"@,
    }
}

/// The role a stored name denotes.
pub open spec fn parse_role(s: Seq<char>) -> Option<MessageRole> {
    if s == "system"@ {
        Some(MessageRole::System)
    } else if s == "user"@ {
        Some(MessageRole::User)
    } else if s == "assistant"@ {
        Some(MessageRole::Assistant)
    } else {
        None
    }
}

impl MessageRole {
    /// The name this role is stored and sent under.
    pub fn as_str(&self) -> (s: &'static str)
        ensures
            s@ == role_name(*self),
    {
        match self {
            MessageRole::System => "system",
            MessageRole::User => "user",
            MessageRole::Assistant => "assistant",
        }
    }

    /// Parse a stored role name.
    pub fn parse(s: &str) -> (r: Option<MessageRole>)
        ensures
            r == parse_role(s@),
    {
        if str_is(s, "system") {
            Some(MessageRole::System)
        } else if str_is(s, "user") {
            Some(MessageRole::User)
        } else if str_is(s, "assistant") {
            Some(MessageRole::Assistant)
        } else {
            None
        }
    }
}

/// A role survives a round trip through its stored name.
pub proof fn lemma_role_round_trip(r: MessageRole)
    ensures
        parse_role(role_name(r)) == Some(r),
{
    reveal_strlit("system");
    reveal_strlit("user");
    reveal_strlit("assistant");
    assert("system"@.len() == 6);
    assert("user"@.len() == 4);
    assert("assistant"@.len() == 9);
}


/// The kind of LLM provider, which decides the API format spoken to it.
#[derive(Debug, Clone, Copy, PartialEq, Eq, Structural)]
pub enum ProviderType {
    /// An Ollama server (`/api/chat`, NDJSON streaming).
    Ollama,
    /// Any OpenAI-compatible API (`/v1/chat/completions`, SSE streaming).
    OpenAiCompatible,
}

/// The human-readable name of a provider kind.
pub open spec fn provider_label(t: ProviderType) -> Seq<char> {
    match t {
        ProviderType::Ollama => "Ollama"@,
        ProviderType::OpenAiCompatible => "OpenAI Compatible"@,
    }
}

/// The name a provider kind is stored under.
pub open spec fn provider_type_name(t: ProviderType) -> Seq<char> {
    match t {
        ProviderType::Ollama => "ollama"@,
        ProviderType::OpenAiCompatible => "openai_compatible"@,
    }
}

/// The provider kind a stored name denotes.
pub open spec fn parse_provider_type_name(s: Seq<char>) -> Option<ProviderType> {
    if s == "ollama"@ {
        Some(ProviderType::Ollama)
    } else if s == "openai_compatible"@ {
        Some(ProviderType::OpenAiCompatible)
    } else {
        None
    }
}

impl ProviderType {
    /// The human-readable name of this provider kind.
    pub fn label(&self) -> (s: &'static str)
        ensures
            s@ == provider_label(*self),
    {
        match self {
            ProviderType::Ollama => "Ollama",
            ProviderType::OpenAiCompatible => "OpenAI Compatible",
        }
    }
}

/// The name a provider kind is stored under.
pub fn provider_type_str(t: &ProviderType) -> (s: &'static str)
    ensures
        s@ == provider_type_name(*t),
{
    match t {
        ProviderType::Ollama => "ollama",
        ProviderType::OpenAiCompatible => "openai_compatible",
    }
}

/// Parse a stored provider kind; `None` for an unknown name.
pub fn parse_provider_type(s: &str) -> (r: Option<ProviderType>)
    ensures
        r == parse_provider_type_name(s@),
{
    if str_is(s, "ollama") {
        Some(ProviderType::Ollama)
    } else if str_is(s, "openai_compatible") {
        Some(ProviderType::OpenAiCompatible)
    } else {
        None
    }
}

/// A provider kind survives a round trip through its stored name.
pub proof fn lemma_provider_type_round_trip(t: ProviderType)
    ensures
        parse_provider_type_name(provider_type_name(t)) == Some(t),
{
    reveal_strlit("ollama");
    reveal_strlit("openai_compatible");
    assert("ollama"@.len() == 6);
    assert("openai_compatible"@.len() == 17);
}

/// Input for creating a new character.
#[derive(Debug, Clone)]
pub struct NewCharacter {
    pub name: String,
    pub role: Option<String>,
    pub personality: Option<String>,
    pub system_prompt: Option<String>,
    pub greeting: Option<String>,
}

/// Image data uploaded from the client, before being saved to disk.
#[derive(Debug, Clone)]
pub struct ImageUpload {
    /// Base64-encoded image data (without any data-URL prefix).
    pub data: String,
    /// MIME type (e.g. "image/png").
    pub content_type: String,
    /// Original filename, if known.
    pub original_name: Option<String>,
}

/// An image prepared for inclusion in an LLM request.
#[derive(Debug, Clone)]
pub struct LlmImage {
    /// Base64-encoded image data.
    pub base64_data: String,
    /// MIME type (e.g. "image/png").
    pub content_type: String,
}

/// A message prepared for sending to an LLM: placeholders resolved, images
/// attached.
#[derive(Debug, Clone)]
pub struct LlmMessage {
    pub role: MessageRole,
    pub content: String,
    pub images: Vec<LlmImage>,
}

/// Input for creating a new provider.
#[derive(Debug, Clone)]
pub struct NewProvider {
    pub name: String,
    pub provider_type: ProviderType,
    pub api_url: String,
    pub api_key: Option<String>,
    pub is_default: bool,
}

/// A model offered by a provider.
#[derive(Debug, Clone)]
pub struct ModelInfo {
    /// Identifier used in API calls (e.g. "llama3:8b").
    pub id: String,
    /// Human-readable name.
    pub name: String,
    /// Size in bytes, when the provider reports it.
    pub size: Option<u64>,
}

/// Result of testing a connection to a provider.
#[derive(Debug, Clone)]
pub enum ConnectionStatus {
    Connected,
    Failed(String),
    Testing,
}

/// Events of a streaming chat response.
#[derive(Debug, Clone)]
pub enum StreamEvent {
    /// A chunk of the final answer.
    Delta(String),
    /// A chunk of the model's reasoning output.
    Reasoning(String),
    /// Generation is complete.
    Done,
    /// An error occurred during streaming.
    Error(String),
}

} // verus!
