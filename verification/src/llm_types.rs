//! Data types of the language-model service layer: client responses,
//! provider requests and responses, and streaming chunks.

use vstd::prelude::*;
use vstd::string::StringExecFns;

verus! {

/// Errors of the blocking completion client.
#[derive(Debug)]
pub enum ClientError {
    RequestError(String),
    ParseError(String),
    ServerError(String),
}

impl ClientError {
    pub fn message(&self) -> (r: String)
        ensures
            (match self {
                ClientError::RequestError(s) => r@ == "request error: "@ + s@,
                ClientError::ParseError(s) => r@ == "parse error: "@ + s@,
                ClientError::ServerError(s) => r@ == "server error: "@ + s@,
            }),
    {
        match self {
            ClientError::RequestError(s) => "request error: ".to_owned().concat(s.as_str()),
            ClientError::ParseError(s) => "parse error: ".to_owned().concat(s.as_str()),
            ClientError::ServerError(s) => "server error: ".to_owned().concat(s.as_str()),
        }
    }
}

/// What the completion endpoint returns.
pub struct ClientCompletionResponse {
    pub content: String,
    pub stop: bool,
}

/// What an inference call returns.
pub struct InferenceResponse {
    pub text: String,
    pub stop_reason: String,
}

/// Errors of the provider abstraction.
#[derive(Debug)]
pub enum ProviderError {
    RequestError(String),
    InvalidResponse(String),
    AuthError(String),
    RateLimitError(String),
    UnsupportedError(String),
}

impl ProviderError {
    pub fn message(&self) -> (r: String)
        ensures
            (match self {
                ProviderError::RequestError(s) => r@ == "request failed: "@ + s@,
                ProviderError::InvalidResponse(s) => r@ == "invalid response: "@ + s@,
                ProviderError::AuthError(s) => r@ == "authentication failed: "@ + s@,
                ProviderError::RateLimitError(s) => r@ == "rate limit exceeded: "@ + s@,
                ProviderError::UnsupportedError(s) => r@ == "provider not supported: "@ + s@,
            }),
    {
        match self {
            ProviderError::RequestError(s) => "request failed: ".to_owned().concat(s.as_str()),
            ProviderError::InvalidResponse(s) => "invalid response: ".to_owned().concat(
                s.as_str(),
            ),
            ProviderError::AuthError(s) => "authentication failed: ".to_owned().concat(
                s.as_str(),
            ),
            ProviderError::RateLimitError(s) => "rate limit exceeded: ".to_owned().concat(
                s.as_str(),
            ),
            ProviderError::UnsupportedError(s) => "provider not supported: ".to_owned().concat(
                s.as_str(),
            ),
        }
    }
}

/// Why a completion stopped.
#[derive(Clone, Copy, PartialEq, Eq, Structural, Debug)]
pub enum StopReason {
    Complete,
    Length,
    Stop,
    Error,
}

/// A provider's completion answer.
pub struct CompletionResponse {
    pub content: String,
    pub stop_reason: StopReason,
    pub tokens_used: Option<usize>,
    pub model: Option<String>,
}

/// A batch of texts to embed.
pub struct EmbeddingRequest {
    pub texts: Vec<String>,
    pub model: Option<String>,
}

/// Errors while consuming a streamed completion.
#[derive(Debug)]
pub enum StreamError {
    Error(String),
    ConnectionClosed,
    ParseError(String),
}

impl StreamError {
    pub fn message(&self) -> (r: String)
        ensures
            (match self {
                StreamError::Error(s) => r@ == "stream error: "@ + s@,
                StreamError::ConnectionClosed => r@ == "connection closed"@,
                StreamError::ParseError(s) => r@ == "parse error: "@ + s@,
            }),
    {
        match self {
            StreamError::Error(s) => "stream error: ".to_owned().concat(s.as_str()),
            StreamError::ConnectionClosed => "connection closed".to_owned(),
            StreamError::ParseError(s) => "parse error: ".to_owned().concat(s.as_str()),
        }
    }
}

/// One delta of a streamed completion.
pub struct StreamChunk {
    pub delta: String,
    pub finish_reason: Option<String>,
}

} // verus!
