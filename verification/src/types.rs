//! The vocabulary of a Wyrtloom provider: requests, responses, errors and
//! money, with what each of them stands for in contracts.

use vstd::prelude::*;

verus! {

/// The name of a model.
pub type ModelId = String;

/// An amount of US dollars, in millionths.
#[derive(Clone, Copy, Debug, PartialEq, Eq, Structural)]
pub struct Money {
    pub amount_microdollars: i64,
}

/// Who wrote a message.
#[derive(Clone, Copy, Debug, PartialEq, Eq, Structural)]
pub enum MessageRole {
    System,
    User,
    Assistant,
}

/// One message of a conversation.
#[derive(Debug)]
pub struct Message {
    pub role: MessageRole,
    pub content: String,
}

/// What a model is asked for.
#[derive(Debug)]
pub struct GenerationRequest {
    pub messages: Vec<Message>,
    pub max_output_tokens: u32,
    pub model: ModelId,
}

/// A piece of a model's reply.
#[derive(Debug)]
pub enum ContentBlock {
    Text(String),
}

/// Token counts of one call, and what it cost where the price is known.
#[derive(Clone, Copy, Debug, PartialEq, Eq, Structural)]
pub struct Usage {
    pub input_tokens: u64,
    pub output_tokens: u64,
    pub cost: Option<Money>,
}

/// A model's reply.
#[derive(Debug)]
pub struct GenerationResponse {
    pub content: Vec<ContentBlock>,
    pub usage: Usage,
}

/// An entry of the model catalog.
#[derive(Debug)]
pub struct ModelDescriptor {
    pub id: ModelId,
    pub description: Option<String>,
    pub cost_per_input_token: Option<Money>,
    pub cost_per_output_token: Option<Money>,
}

/// Why a call failed. No variant carries anything of a response body.
#[derive(Debug)]
pub enum ProviderError {
    /// The output budget cannot be honoured.
    BudgetExceeded,
    /// The request did not get through, or its reply did not come back whole.
    Transport(String),
    /// The endpoint refuses the credentials.
    Unauthorized,
    /// The endpoint asks to slow down.
    RateLimited,
    /// The endpoint answered with something else than a reply.
    Provider(String),
}

/// What a [`Message`] stands for.
pub struct MessageModel {
    pub role: MessageRole,
    pub content: Seq<char>,
}

/// What a [`GenerationRequest`] stands for.
pub struct RequestModel {
    pub messages: Seq<MessageModel>,
    pub max_output_tokens: u32,
    pub model: Seq<char>,
}

/// What a [`GenerationResponse`] stands for: the text of each block, and the
/// usage.
pub struct ResponseModel {
    pub content: Seq<Seq<char>>,
    pub usage: Usage,
}

/// What a [`ModelDescriptor`] stands for.
pub struct DescriptorModel {
    pub id: Seq<char>,
    pub description: Option<Seq<char>>,
    pub cost_per_input_token: Option<Money>,
    pub cost_per_output_token: Option<Money>,
}

/// What a [`ProviderError`] stands for.
pub enum ErrorModel {
    BudgetExceeded,
    Transport(Seq<char>),
    Unauthorized,
    RateLimited,
    Provider(Seq<char>),
}

impl View for Message {
    type V = MessageModel;

    open spec fn view(&self) -> MessageModel {
        MessageModel { role: self.role, content: self.content@ }
    }
}

impl View for GenerationRequest {
    type V = RequestModel;

    open spec fn view(&self) -> RequestModel {
        RequestModel {
            messages: self.messages@.map_values(|m: Message| m@),
            max_output_tokens: self.max_output_tokens,
            model: self.model@,
        }
    }
}

impl View for ContentBlock {
    type V = Seq<char>;

    open spec fn view(&self) -> Seq<char> {
        match self {
            ContentBlock::Text(s) => s@,
        }
    }
}

impl View for GenerationResponse {
    type V = ResponseModel;

    open spec fn view(&self) -> ResponseModel {
        ResponseModel {
            content: self.content@.map_values(|b: ContentBlock| b@),
            usage: self.usage,
        }
    }
}

impl View for ModelDescriptor {
    type V = DescriptorModel;

    open spec fn view(&self) -> DescriptorModel {
        DescriptorModel {
            id: self.id@,
            description: match self.description {
                Some(s) => Some(s@),
                None => None,
            },
            cost_per_input_token: self.cost_per_input_token,
            cost_per_output_token: self.cost_per_output_token,
        }
    }
}

impl View for ProviderError {
    type V = ErrorModel;

    open spec fn view(&self) -> ErrorModel {
        match self {
            ProviderError::BudgetExceeded => ErrorModel::BudgetExceeded,
            ProviderError::Transport(s) => ErrorModel::Transport(s@),
            ProviderError::Unauthorized => ErrorModel::Unauthorized,
            ProviderError::RateLimited => ErrorModel::RateLimited,
            ProviderError::Provider(s) => ErrorModel::Provider(s@),
        }
    }
}

} // verus!
