//! Wyrtloom LLM provider for the **Nous Portal** hosted inference API (Nous
//! Research, Hermes-4 models), an OpenAI-compatible chat endpoint at
//! `https://inference-api.nousresearch.com/v1`.
//!
//! The crate holds every decision of the provider and none of its I/O. A call
//! is a run of steps: [`NousProvider::generate`] and [`NousProvider::models`]
//! take what has happened so far and say what to do next.
//!
//!   * [`base_url`] decides which endpoints may be talked to;
//!   * [`wire`] builds request bodies and reads status codes, replies and the
//!     model catalog;
//!   * [`json`] decodes response bodies;
//!   * [`pricing`] and [`decimal`] do the accounting, in whole microdollars;
//!   * [`sanitize`] strips terminal control sequences from model output;
//!   * [`provider`] puts them together;
//!   * [`laws`] states what holds of all of it.

pub mod base_url;
pub mod decimal;
pub mod json;
pub mod laws;
pub mod pricing;
pub mod provider;
pub mod sanitize;
pub mod text;
pub mod types;
pub mod wire;

pub use base_url::{base_url_permitted, check_base_url, validate_base_url, UrlParts};
pub use decimal::price_to_microdollars;
pub use json::{decode_json, Json, JsonNumber};
pub use pricing::{cost_at_price, cost_for, price_by_name, price_per_million};
pub use provider::{
    check_head, decode_body, is_blank_text, map_send_failure, CallEvent, GenerateAction,
    ModelsAction, NousProvider, ResponseHead, SendFailure, API_KEY_ENV, MAX_RESPONSE_BYTES,
    NOUS_BASE_URL, REQUEST_TIMEOUT_SECS,
};
pub use sanitize::strip_control;
pub use types::{
    ContentBlock, GenerationRequest, GenerationResponse, Message, MessageRole, ModelDescriptor,
    ModelId, Money, ProviderError, Usage,
};
pub use wire::{
    build_chat_body, map_status, parse_chat_response, parse_models, price_field_to_microdollars,
    role_str, MAX_TOKENS_CEILING,
};
