//! The chat-completion exchange that turns a prompt into SoftQL, and the
//! settings of the services the extension talks to.

use vstd::prelude::*;

verus! {

/// A chat completion that failed.
#[derive(Debug)]
pub struct ChatError {
    pub hint: String,
}

#[derive(Debug)]
pub struct ChatMessage {
    pub role: String,
    pub content: String,
}

#[derive(Debug)]
pub struct ChatChoice {
    pub message: ChatMessage,
}

/// Token counts of a completion.
#[derive(Debug)]
pub struct Usage {
    pub prompt_tokens: i32,
    pub completion_tokens: i32,
    pub total_tokens: i32,
}

#[derive(Debug)]
pub struct ChatResponse {
    pub choices: Vec<ChatChoice>,
    pub usage: Option<Usage>,
}

impl ChatResponse {
    /// The content of the first choice, or an error where there is none.
    pub fn try_pop_softql(self) -> (r: Result<String, ChatError>)
        ensures
            self.choices@.len() > 0 ==> r is Ok && r->Ok_0@ == self.choices@[0].message.content@,
            self.choices@.len() == 0 ==> r is Err && r->Err_0.hint@ == "no response choices"@,
    {
        let mut choices = self.choices;
        if choices.len() > 0 {
            let c = choices.remove(0);
            Ok(c.message.content)
        } else {
            Err(ChatError { hint: "no response choices".to_owned() })
        }
    }
}

/// Where and how to reach the model that writes SoftQL.
#[derive(Debug)]
pub struct Text2SoftQLOptions {
    pub base_url: String,
    pub model_name: String,
    pub api_key: String,
}

/// Where and how to reach an OpenAI-compatible embedding service.
#[derive(Debug)]
pub struct OpenAIOptions {
    pub base_url: String,
    pub api_key: String,
}

/// The embedding backend and its settings.
#[derive(Debug)]
pub enum BackendOptions {
    OpenAI { base_url: String, api_key: String, model: String },
    /// A local model; `gpu_device_id` is -1 for the CPU.
    FastEmbed { model: String, cache_dir: Option<String>, show_download_progress: bool, gpu_device_id: i32 },
}

/// The backend that the settings select: the local one when `backend` is
/// `"fastembed"`, the OpenAI-compatible service otherwise.
pub fn embedding_backend_options(backend: &str, model_name: &str, gpu_device_id: i32, base_url: &str, api_key: &str) -> (r: BackendOptions)
    ensures
        backend@ == "fastembed"@ ==> (r matches BackendOptions::FastEmbed { model, cache_dir, show_download_progress, gpu_device_id: g }
            && model@ == model_name@ && cache_dir is None && !show_download_progress && g == gpu_device_id),
        backend@ != "fastembed"@ ==> (r matches BackendOptions::OpenAI { base_url: b, api_key: k, model }
            && b@ == base_url@ && k@ == api_key@ && model@ == model_name@),
{
    if crate::parser::same_text(backend, "fastembed") {
        BackendOptions::FastEmbed {
            model: model_name.to_owned(),
            cache_dir: None,
            show_download_progress: false,
            gpu_device_id,
        }
    } else {
        BackendOptions::OpenAI { base_url: base_url.to_owned(), api_key: api_key.to_owned(), model: model_name.to_owned() }
    }
}

pub fn openai_embedding_options(base_url: &str, api_key: &str) -> (r: OpenAIOptions)
    ensures
        r.base_url@ == base_url@ && r.api_key@ == api_key@,
{
    OpenAIOptions { base_url: base_url.to_owned(), api_key: api_key.to_owned() }
}

pub fn text2softql_options(base_url: &str, model_name: &str, api_key: &str) -> (r: Text2SoftQLOptions)
    ensures
        r.base_url@ == base_url@ && r.model_name@ == model_name@ && r.api_key@ == api_key@,
{
    Text2SoftQLOptions { base_url: base_url.to_owned(), model_name: model_name.to_owned(), api_key: api_key.to_owned() }
}

/// A request to the embedding service.
#[derive(Debug)]
pub struct EmbeddingRequest {
    pub model: String,
    pub input: String,
    pub encoding_format: String,
    pub dimensions: Option<i32>,
    pub user: Option<String>,
}

impl EmbeddingRequest {
    pub fn new(model: String, input: String, encoding_format: String) -> (r: EmbeddingRequest)
        ensures
            r.model == model && r.input == input && r.encoding_format == encoding_format,
            r.dimensions is None && r.user is None,
    {
        EmbeddingRequest { model, input, encoding_format, dimensions: None, user: None }
    }
}

/// An embedding request that failed.
#[derive(Debug)]
pub struct EmbeddingError {
    pub hint: String,
}

/// How SoftQL names are bound to the catalog.
#[derive(Debug, Clone, Copy, PartialEq, Eq, Structural)]
pub enum BindMode {
    Soft,
    Hard,
}

/// Errors of the local embedding backend.
#[derive(Debug)]
pub enum FastEmbedError {
    Init(String),
    UnsupportedModel(String),
    Embed(String),
}

/// Errors of setting up an embedding backend.
#[derive(Debug)]
pub enum EmbedError {
    Init(String),
    UnsupportedModel(String),
}

/// Lock modes of PostgreSQL (`storage/lockdefs.h`), weakest first.
#[derive(Debug, Clone, Copy, PartialEq, Eq, Structural)]
pub enum LockMode {
    NoLock,
    AccessShareLock,
    RowShareLock,
    RowExclusiveLock,
    ShareUpdateExclusiveLock,
    ShareLock,
    ShareRowExclusiveLock,
    ExclusiveLock,
    AccessExclusiveLock,
}

impl LockMode {
    /// The number PostgreSQL gives the mode.
    pub fn code(&self) -> (r: i32)
        ensures
            0 <= r <= 8,
            (r == 0) == (*self == LockMode::NoLock),
            (r == 8) == (*self == LockMode::AccessExclusiveLock),
    {
        match self {
            LockMode::NoLock => 0,
            LockMode::AccessShareLock => 1,
            LockMode::RowShareLock => 2,
            LockMode::RowExclusiveLock => 3,
            LockMode::ShareUpdateExclusiveLock => 4,
            LockMode::ShareLock => 5,
            LockMode::ShareRowExclusiveLock => 6,
            LockMode::ExclusiveLock => 7,
            LockMode::AccessExclusiveLock => 8,
        }
    }
}

/// Trigger type flags of PostgreSQL (`catalog/pg_trigger.h`).
#[derive(Debug, Clone, Copy, PartialEq, Eq, Structural)]
pub enum TriggerType {
    Row,
    Before,
    Insert,
    Delete,
    Update,
    Truncate,
    Instead,
}

impl TriggerType {
    /// The flag bit PostgreSQL gives the type.
    pub fn code(&self) -> (r: i32)
        ensures
            r == match *self {
                TriggerType::Row => 1i32,
                TriggerType::Before => 2i32,
                TriggerType::Insert => 4i32,
                TriggerType::Delete => 8i32,
                TriggerType::Update => 16i32,
                TriggerType::Truncate => 32i32,
                TriggerType::Instead => 64i32,
            },
    {
        match self {
            TriggerType::Row => 1,
            TriggerType::Before => 2,
            TriggerType::Insert => 4,
            TriggerType::Delete => 8,
            TriggerType::Update => 16,
            TriggerType::Truncate => 32,
            TriggerType::Instead => 64,
        }
    }
}

} // verus!
