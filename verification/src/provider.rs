//! The provider: how it is set up, and what it does at each step of a call.

use vstd::prelude::*;

use crate::base_url::{self, validate_base_url};
use crate::json::{self, decode_json, Json, JsonTree};
use crate::sanitize;
use crate::text::{self, chars_of};
use crate::types::{DescriptorModel, ErrorModel, RequestModel, ResponseModel};
use crate::types::{GenerationRequest, GenerationResponse, ModelDescriptor, ProviderError};
use crate::wire::{self, build_chat_body, map_status, parse_chat_response, parse_models};

verus! {

/// Default Nous Portal inference base URL (note: the *inference* host, not the
/// portal).
pub const NOUS_BASE_URL: &'static str = "https://inference-api.nousresearch.com/v1";

/// Environment variable that holds the API key.
pub const API_KEY_ENV: &'static str = "NOUS_API_KEY";

/// The largest response body that is decoded.
pub const MAX_RESPONSE_BYTES: u64 = 8_388_608;

/// How long a request may take.
pub const REQUEST_TIMEOUT_SECS: u64 = 30;

/// A Wyrtloom LLM provider backed by the Nous Portal inference API. Its base
/// URL is permitted and its key is not blank.
pub struct NousProvider {
    base_url: String,
    api_key: String,
}

/// What a [`NousProvider`] stands for.
pub struct ProviderModel {
    pub base_url: Seq<char>,
    pub api_key: Seq<char>,
}

impl View for NousProvider {
    type V = ProviderModel;

    closed spec fn view(&self) -> ProviderModel {
        ProviderModel { base_url: self.base_url@, api_key: self.api_key@ }
    }
}

/// A character with the Unicode property `White_Space`.
pub open spec fn is_white_space(c: char) -> bool {
    ||| '\u{9}' <= c <= '\u{d}'
    ||| c == ' '
    ||| c == '\u{85}'
    ||| c == '\u{a0}'
    ||| c == '\u{1680}'
    ||| '\u{2000}' <= c <= '\u{200a}'
    ||| c == '\u{2028}'
    ||| c == '\u{2029}'
    ||| c == '\u{202f}'
    ||| c == '\u{205f}'
    ||| c == '\u{3000}'
}

/// Whether `s` is empty once white space is trimmed off.
pub open spec fn is_blank(s: Seq<char>) -> bool {
    forall|i: int| 0 <= i < s.len() ==> is_white_space(#[trigger] s[i])
}

/// What a provider may be made of.
pub open spec fn acceptable(p: ProviderModel) -> bool {
    base_url::permitted(base_url::url_parts(p.base_url)) && !is_blank(p.api_key)
}

/// Whether `s` is empty once white space is trimmed off.
pub fn is_blank_text(s: &str) -> (r: bool)
    ensures
        r == is_blank(s@),
{
    let chars = chars_of(s);
    let mut i: usize = 0;
    while i < chars.len()
        invariant
            i <= chars.len(),
            chars@ == s@,
            forall|k: int| 0 <= k < i ==> is_white_space(#[trigger] s@[k]),
        decreases chars.len() - i,
    {
        let c = chars[i];
        let white = ('\u{9}' <= c && c <= '\u{d}') || c == ' ' || c == '\u{85}' || c == '\u{a0}'
            || c == '\u{1680}' || ('\u{2000}' <= c && c <= '\u{200a}') || c == '\u{2028}' || c
            == '\u{2029}' || c == '\u{202f}' || c == '\u{205f}' || c == '\u{3000}';
        if !white {
            assert(!is_white_space(s@[i as int]));
            return false;
        }
        i += 1;
    }
    true
}

/// The outcome of setting up a provider, in the terms of contracts.
pub open spec fn setup_view(r: Result<NousProvider, String>) -> Result<ProviderModel, Seq<char>> {
    match r {
        Ok(p) => Ok(p@),
        Err(message) => Err(message@),
    }
}

/// Setting up a provider: the URL is looked at first, then the key.
pub open spec fn setup(api_key: Seq<char>, base_url: Seq<char>) -> Result<ProviderModel, Seq<char>> {
    if !base_url::permitted(base_url::url_parts(base_url)) {
        Err(base_url::rejection(base_url))
    } else if is_blank(api_key) {
        Err("Nous API key must not be empty"@)
    } else {
        Ok(ProviderModel { base_url, api_key })
    }
}

/// Setting up a provider from the value of the environment variable.
pub open spec fn setup_from_env(value: Option<Seq<char>>) -> Result<ProviderModel, Seq<char>> {
    match value {
        Some(key) => setup(key, NOUS_BASE_URL@),
        None => Err("environment variable "@ + API_KEY_ENV@ + " is not set"@),
    }
}

/// A request that could not be carried through.
#[derive(Clone, Copy, Debug, PartialEq, Eq, Structural)]
pub struct SendFailure {
    pub timed_out: bool,
    pub connecting: bool,
}

/// What comes back before the body.
#[derive(Clone, Copy, Debug, PartialEq, Eq, Structural)]
pub struct ResponseHead {
    pub status: u16,
    pub content_length: Option<u64>,
}

/// What has happened in a call so far.
#[derive(Debug)]
pub enum CallEvent {
    /// Nothing yet.
    Start,
    /// The request was sent: the head of the response, or why there is none.
    Sent(Result<ResponseHead, SendFailure>),
    /// The body was read up to the limit; `None` where reading failed.
    Body(Option<Vec<u8>>),
}

/// What a [`CallEvent`] stands for.
pub enum EventModel {
    Start,
    Sent(Result<ResponseHead, SendFailure>),
    Body(Option<Seq<u8>>),
}

pub open spec fn body_view(body: Option<Vec<u8>>) -> Option<Seq<u8>> {
    match body {
        Some(bytes) => Some(bytes@),
        None => None,
    }
}

impl View for CallEvent {
    type V = EventModel;

    open spec fn view(&self) -> EventModel {
        match self {
            CallEvent::Start => EventModel::Start,
            CallEvent::Sent(r) => EventModel::Sent(*r),
            CallEvent::Body(body) => EventModel::Body(body_view(*body)),
        }
    }
}

/// What to do next in a generation.
#[derive(Debug)]
pub enum GenerateAction {
    /// Post `body` as JSON to `url`, with `bearer` as bearer token.
    Post { url: String, bearer: String, body: Json },
    /// Read the body, `limit` bytes at most.
    ReadBody { limit: u64 },
    /// The call is over.
    Finish(Result<GenerationResponse, ProviderError>),
}

/// What a [`GenerateAction`] stands for.
pub enum GenerateStep {
    Post { url: Seq<char>, bearer: Seq<char>, body: JsonTree },
    ReadBody { limit: u64 },
    Finish(Result<ResponseModel, ErrorModel>),
}

impl View for GenerateAction {
    type V = GenerateStep;

    open spec fn view(&self) -> GenerateStep {
        match self {
            GenerateAction::Post { url, bearer, body } => GenerateStep::Post {
                url: url@,
                bearer: bearer@,
                body: body@,
            },
            GenerateAction::ReadBody { limit } => GenerateStep::ReadBody { limit: *limit },
            GenerateAction::Finish(r) => GenerateStep::Finish(wire::response_view(*r)),
        }
    }
}

/// What to do next in a listing of models.
#[derive(Debug)]
pub enum ModelsAction {
    /// Get `url`, with `bearer` as bearer token.
    Get { url: String, bearer: String },
    /// Read the body, `limit` bytes at most.
    ReadBody { limit: u64 },
    /// The call is over.
    Finish(Vec<ModelDescriptor>),
}

/// What a [`ModelsAction`] stands for.
pub enum ModelsStep {
    Get { url: Seq<char>, bearer: Seq<char> },
    ReadBody { limit: u64 },
    Finish(Seq<DescriptorModel>),
}

impl View for ModelsAction {
    type V = ModelsStep;

    open spec fn view(&self) -> ModelsStep {
        match self {
            ModelsAction::Get { url, bearer } => ModelsStep::Get { url: url@, bearer: bearer@ },
            ModelsAction::ReadBody { limit } => ModelsStep::ReadBody { limit: *limit },
            ModelsAction::Finish(models) => ModelsStep::Finish(wire::catalog_view(models@)),
        }
    }
}

/// Which category a failure to send falls into.
pub open spec fn send_error(failure: SendFailure) -> ErrorModel {
    if failure.timed_out {
        ErrorModel::Transport("connection timed out"@)
    } else if failure.connecting {
        ErrorModel::Transport("connection refused"@)
    } else {
        ErrorModel::Transport("network error"@)
    }
}

/// Why a body is not read after `head`; `None` where it is.
pub open spec fn head_error(head: ResponseHead) -> Option<ErrorModel> {
    match wire::status_error(head.status) {
        Some(e) => Some(e),
        None => if head.content_length is Some && head.content_length->0 > MAX_RESPONSE_BYTES {
            Some(ErrorModel::Transport("response too large"@))
        } else {
            None
        },
    }
}

/// The document in a body, or why there is none.
pub open spec fn body_document(body: Option<Seq<u8>>) -> Result<JsonTree, ErrorModel> {
    match body {
        Some(bytes) => if bytes.len() > MAX_RESPONSE_BYTES {
            Err(ErrorModel::Transport("response too large"@))
        } else {
            match json::json_document(bytes) {
                Some(t) => Ok(t),
                None => Err(ErrorModel::Transport("response decode failed"@)),
            }
        },
        None => Err(ErrorModel::Transport("response decode failed"@)),
    }
}

/// The step of a generation after `event`.
pub open spec fn generate_step(p: ProviderModel, req: RequestModel, event: EventModel) -> GenerateStep {
    match event {
        EventModel::Start => if req.max_output_tokens == 0 {
            GenerateStep::Finish(Err(ErrorModel::BudgetExceeded))
        } else {
            GenerateStep::Post {
                url: p.base_url + "/chat/completions"@,
                bearer: p.api_key,
                body: wire::chat_body(req),
            }
        },
        EventModel::Sent(Err(failure)) => GenerateStep::Finish(Err(send_error(failure))),
        EventModel::Sent(Ok(head)) => match head_error(head) {
            Some(e) => GenerateStep::Finish(Err(e)),
            None => GenerateStep::ReadBody { limit: (MAX_RESPONSE_BYTES + 1) as u64 },
        },
        EventModel::Body(body) => match body_document(body) {
            Ok(t) => GenerateStep::Finish(wire::chat_response(t, req.model)),
            Err(e) => GenerateStep::Finish(Err(e)),
        },
    }
}

/// The step of a listing of models after `event`.
pub open spec fn models_step(p: ProviderModel, event: EventModel) -> ModelsStep {
    match event {
        EventModel::Start => ModelsStep::Get { url: p.base_url + "/models"@, bearer: p.api_key },
        EventModel::Sent(Err(_)) => ModelsStep::Finish(Seq::empty()),
        EventModel::Sent(Ok(head)) => match head_error(head) {
            Some(_) => ModelsStep::Finish(Seq::empty()),
            None => ModelsStep::ReadBody { limit: (MAX_RESPONSE_BYTES + 1) as u64 },
        },
        EventModel::Body(body) => match body_document(body) {
            Ok(t) => ModelsStep::Finish(wire::catalog(t)),
            Err(_) => ModelsStep::Finish(Seq::empty()),
        },
    }
}

/// Categorise a failure to send without a word about host or cause.
pub fn map_send_failure(failure: SendFailure) -> (e: ProviderError)
    ensures
        e@ == send_error(failure),
{
    if failure.timed_out {
        ProviderError::Transport("connection timed out".to_string())
    } else if failure.connecting {
        ProviderError::Transport("connection refused".to_string())
    } else {
        ProviderError::Transport("network error".to_string())
    }
}

/// Why the body behind `head` is not read: an error status, or a declared
/// length above the cap.
pub fn check_head(head: ResponseHead) -> (r: Option<ProviderError>)
    ensures
        wire::error_view(r) == head_error(head),
{
    if let Some(e) = map_status(head.status) {
        return Some(e);
    }
    if let Some(length) = head.content_length {
        if length > MAX_RESPONSE_BYTES {
            return Some(ProviderError::Transport("response too large".to_string()));
        }
    }
    None
}

/// Decode a body that was read; one above the cap is refused undecoded.
pub fn decode_body(body: &Option<Vec<u8>>) -> (r: Result<Json, ProviderError>)
    ensures
        match r {
            Ok(j) => body_document(body_view(*body)) == Ok::<JsonTree, ErrorModel>(j@),
            Err(e) => body_document(body_view(*body)) == Err::<JsonTree, ErrorModel>(e@),
        },
{
    match body {
        Some(bytes) => {
            if bytes.len() as u64 > MAX_RESPONSE_BYTES {
                return Err(ProviderError::Transport("response too large".to_string()));
            }
            match decode_json(bytes.as_slice()) {
                Some(j) => Ok(j),
                None => Err(ProviderError::Transport("response decode failed".to_string())),
            }
        },
        None => Err(ProviderError::Transport("response decode failed".to_string())),
    }
}

impl NousProvider {
    #[verifier::type_invariant]
    spec fn well_formed(self) -> bool {
        acceptable(self@)
    }

    /// Set up a provider for an explicit `api_key` and `base_url`.
    ///
    /// `base_url` must be `https://…` (or `http://localhost`/`http://127.0.0.1`
    /// for a local mock server in tests).
    pub fn new(api_key: &str, base_url: &str) -> (r: Result<NousProvider, String>)
        ensures
            setup_view(r) == setup(api_key@, base_url@),
    {
        match validate_base_url(base_url) {
            Ok(()) => {},
            Err(message) => {
                return Err(message);
            },
        }
        if is_blank_text(api_key) {
            return Err("Nous API key must not be empty".to_string());
        }
        Ok(NousProvider { base_url: base_url.to_string(), api_key: api_key.to_string() })
    }

    /// Set up against the hosted Nous Portal endpoint with an explicit key.
    pub fn hosted(api_key: &str) -> (r: Result<NousProvider, String>)
        ensures
            setup_view(r) == setup(api_key@, NOUS_BASE_URL@),
    {
        Self::new(api_key, NOUS_BASE_URL)
    }

    /// Set up from the value of the `NOUS_API_KEY` environment variable, `None`
    /// where it is not set, targeting the hosted endpoint.
    pub fn from_env(value: Option<String>) -> (r: Result<NousProvider, String>)
        ensures
            setup_view(r) == setup_from_env(base_url::text_view(value)),
    {
        match value {
            Some(key) => Self::hosted(key.as_str()),
            None => {
                let mut message = "environment variable ".to_string();
                message.append(API_KEY_ENV);
                message.append(" is not set");
                Err(message)
            },
        }
    }

    /// `path` under the base URL.
    fn endpoint(&self, path: &str) -> (url: String)
        ensures
            url@ == self@.base_url + path@,
    {
        let mut url = self.base_url.clone();
        url.append(path);
        url
    }

    /// The next step of a generation. A zero output budget cannot be honoured
    /// (the API floor is one token), and silently raising it would break the
    /// promise to respect the budget, so it is refused before anything is sent.
    pub fn generate(&self, req: &GenerationRequest, event: CallEvent) -> (action: GenerateAction)
        ensures
            action@ == generate_step(self@, req@, event@),
            text::is_ascii_text(req.model@) ==> (action matches GenerateAction::Finish(r)
                ==> wire::priced_by_ascii_name(r, req.model@)),
            acceptable(self@),
    {
        proof {
            use_type_invariant(self);
        }
        match event {
            CallEvent::Start => {
                if req.max_output_tokens == 0 {
                    return GenerateAction::Finish(Err(ProviderError::BudgetExceeded));
                }
                GenerateAction::Post {
                    url: self.endpoint("/chat/completions"),
                    bearer: self.api_key.clone(),
                    body: build_chat_body(req),
                }
            },
            CallEvent::Sent(Err(failure)) => GenerateAction::Finish(
                Err(map_send_failure(failure)),
            ),
            CallEvent::Sent(Ok(head)) => match check_head(head) {
                Some(e) => GenerateAction::Finish(Err(e)),
                None => GenerateAction::ReadBody { limit: MAX_RESPONSE_BYTES + 1 },
            },
            CallEvent::Body(body) => match decode_body(&body) {
                Ok(j) => GenerateAction::Finish(parse_chat_response(&j, &req.model)),
                Err(e) => GenerateAction::Finish(Err(e)),
            },
        }
    }

    /// The next step of a listing of models. Any failure ends it with an empty
    /// list: a missing catalog is not fatal.
    pub fn models(&self, event: CallEvent) -> (action: ModelsAction)
        ensures
            action@ == models_step(self@, event@),
            acceptable(self@),
    {
        proof {
            use_type_invariant(self);
        }
        match event {
            CallEvent::Start => ModelsAction::Get {
                url: self.endpoint("/models"),
                bearer: self.api_key.clone(),
            },
            CallEvent::Sent(Err(_)) => no_models(),
            CallEvent::Sent(Ok(head)) => match check_head(head) {
                Some(_) => no_models(),
                None => ModelsAction::ReadBody { limit: MAX_RESPONSE_BYTES + 1 },
            },
            CallEvent::Body(body) => match decode_body(&body) {
                Ok(j) => ModelsAction::Finish(parse_models(&j)),
                Err(_) => no_models(),
            },
        }
    }
}

fn no_models() -> (action: ModelsAction)
    ensures
        action@ == ModelsStep::Finish(Seq::empty()),
{
    let models: Vec<ModelDescriptor> = Vec::new();
    assert(wire::catalog_view(models@) =~= Seq::empty());
    ModelsAction::Finish(models)
}

/// How a generation ends when the request gets `sent` for an answer and its
/// body, where it comes to that, is `body`.
pub open spec fn generate_outcome(
    p: ProviderModel,
    req: RequestModel,
    sent: Result<ResponseHead, SendFailure>,
    body: Option<Seq<u8>>,
) -> Result<ResponseModel, ErrorModel> {
    match generate_step(p, req, EventModel::Start) {
        GenerateStep::Finish(r) => r,
        _ => match generate_step(p, req, EventModel::Sent(sent)) {
            GenerateStep::Finish(r) => r,
            _ => generate_step(p, req, EventModel::Body(body))->Finish_0,
        },
    }
}

/// How a listing of models ends when the request gets `sent` for an answer and
/// its body, where it comes to that, is `body`.
pub open spec fn models_outcome(
    p: ProviderModel,
    sent: Result<ResponseHead, SendFailure>,
    body: Option<Seq<u8>>,
) -> Seq<DescriptorModel> {
    match models_step(p, EventModel::Sent(sent)) {
        ModelsStep::Finish(models) => models,
        _ => models_step(p, EventModel::Body(body))->Finish_0,
    }
}

/// A zero output budget is refused before anything is sent, and that is how the
/// call ends whatever an endpoint would have said.
pub proof fn law_zero_budget_is_refused_unsent(
    p: ProviderModel,
    req: RequestModel,
    sent: Result<ResponseHead, SendFailure>,
    body: Option<Seq<u8>>,
)
    requires
        req.max_output_tokens == 0,
    ensures
        generate_step(p, req, EventModel::Start) == GenerateStep::Finish(
            Err(ErrorModel::BudgetExceeded),
        ),
        generate_outcome(p, req, sent, body) == Err::<ResponseModel, ErrorModel>(
            ErrorModel::BudgetExceeded,
        ),
{
}

/// Every request that is sent goes below the base URL, with the key as its
/// bearer token, and asks for a positive number of tokens within both the
/// caller's budget and the API's ceiling.
pub proof fn law_request_respects_budget(p: ProviderModel, req: RequestModel)
    requires
        req.max_output_tokens > 0,
    ensures
        generate_step(p, req, EventModel::Start) matches GenerateStep::Post { url, bearer, body }
            && {
            &&& url == p.base_url + "/chat/completions"@
            &&& bearer == p.api_key
            &&& body.field("max_tokens"@) matches Some(n) && n.unsigned() matches Some(n) && 1 <= n
                && n <= req.max_output_tokens && n <= wire::MAX_TOKENS_CEILING
        },
{
    wire::law_body_fields(req);
}

/// A request that does not get through ends the call with its category.
pub proof fn law_failed_send_is_a_transport_error(
    p: ProviderModel,
    req: RequestModel,
    failure: SendFailure,
    body: Option<Seq<u8>>,
)
    requires
        req.max_output_tokens > 0,
    ensures
        generate_outcome(p, req, Err(failure), body) == Err::<ResponseModel, ErrorModel>(
            send_error(failure),
        ),
        send_error(failure) is Transport,
{
}

/// A status other than `2xx`, a redirect among them, ends the call with the
/// error of the status, and the body is not looked at.
pub proof fn law_error_status_ends_the_call(
    p: ProviderModel,
    req: RequestModel,
    head: ResponseHead,
    body: Option<Seq<u8>>,
)
    requires
        req.max_output_tokens > 0,
        !(200 <= head.status <= 299),
    ensures
        wire::status_error(head.status) is Some,
        generate_outcome(p, req, Ok(head), body) == Err::<ResponseModel, ErrorModel>(
            wire::status_error(head.status)->0,
        ),
{
}

/// A body above the cap is refused, whether its length was declared or not; a
/// declared length above the cap ends the call before the body is read.
pub proof fn law_oversized_body_is_refused(
    p: ProviderModel,
    req: RequestModel,
    head: ResponseHead,
    body: Option<Seq<u8>>,
)
    requires
        req.max_output_tokens > 0,
        200 <= head.status <= 299,
        (head.content_length is Some && head.content_length->0 > MAX_RESPONSE_BYTES) || (
        body is Some && body->0.len() > MAX_RESPONSE_BYTES),
    ensures
        generate_outcome(p, req, Ok(head), body) == Err::<ResponseModel, ErrorModel>(
            ErrorModel::Transport("response too large"@),
        ),
        models_outcome(p, Ok(head), body).len() == 0,
        head.content_length is Some && head.content_length->0 > MAX_RESPONSE_BYTES
            ==> generate_step(p, req, EventModel::Sent(Ok(head))) is Finish,
{
}

/// A body is never read beyond one byte above the cap.
pub proof fn law_reading_is_bounded(p: ProviderModel, req: RequestModel, event: EventModel)
    ensures
        generate_step(p, req, event) matches GenerateStep::ReadBody { limit } ==> limit
            == MAX_RESPONSE_BYTES + 1,
        models_step(p, event) matches ModelsStep::ReadBody { limit } ==> limit
            == MAX_RESPONSE_BYTES + 1,
{
}

/// What a body can make of a failure is one of three fixed messages: no error
/// quotes a response.
pub proof fn law_body_errors_are_opaque(p: ProviderModel, req: RequestModel, body: Option<Seq<u8>>)
    ensures
        generate_step(p, req, EventModel::Body(body)) matches GenerateStep::Finish(r) && (
        r matches Err(e) ==> {
            ||| e == ErrorModel::Transport("response too large"@)
            ||| e == ErrorModel::Transport("response decode failed"@)
            ||| e == ErrorModel::Provider("malformed response from provider"@)
        }),
{
}

/// The key leaves the provider only as the bearer token of a request: how a
/// call ends does not depend on it.
pub proof fn law_outcome_does_not_tell_the_key(
    p: ProviderModel,
    q: ProviderModel,
    req: RequestModel,
    sent: Result<ResponseHead, SendFailure>,
    body: Option<Seq<u8>>,
)
    ensures
        generate_outcome(p, req, sent, body) == generate_outcome(q, req, sent, body),
        models_outcome(p, sent, body) == models_outcome(q, sent, body),
{
}

/// Every reply that is returned is clean: no escape, control or format
/// character but `\n`, `\r` and `\t` is left in its text.
pub proof fn law_returned_text_is_clean(
    p: ProviderModel,
    req: RequestModel,
    sent: Result<ResponseHead, SendFailure>,
    body: Option<Seq<u8>>,
)
    ensures
        generate_outcome(p, req, sent, body) matches Ok(r) ==> {
            &&& r.content.len() == 1
            &&& sanitize::is_clean(r.content[0])
        },
{
    if let Ok(t) = body_document(body) {
        if let Some(content) = wire::reply_text(t) {
            sanitize::law_stripped_text_is_clean(content);
        }
    }
}

/// A reply comes back exactly where the status is a success and a body within
/// the cap decodes to a document with a text in `choices[0].message.content`.
pub proof fn law_reply_is_returned_when_there_is_one(
    p: ProviderModel,
    req: RequestModel,
    head: ResponseHead,
    bytes: Seq<u8>,
)
    requires
        req.max_output_tokens > 0,
    ensures
        generate_outcome(p, req, Ok(head), Some(bytes)) is Ok <==> {
            &&& 200 <= head.status <= 299
            &&& head.content_length is Some ==> head.content_length->0 <= MAX_RESPONSE_BYTES
            &&& bytes.len() <= MAX_RESPONSE_BYTES
            &&& json::json_document(bytes) matches Some(t) && wire::reply_text(t) is Some
        },
{
}

/// A listing that fails at any point comes back empty.
pub proof fn law_failed_listing_is_empty(
    p: ProviderModel,
    sent: Result<ResponseHead, SendFailure>,
    body: Option<Seq<u8>>,
)
    requires
        sent is Err || head_error(sent->Ok_0) is Some || body_document(body) is Err,
    ensures
        models_outcome(p, sent, body).len() == 0,
{
}

/// A price that a listing shows is at least one microdollar.
pub proof fn law_listed_prices_are_positive(
    p: ProviderModel,
    sent: Result<ResponseHead, SendFailure>,
    body: Option<Seq<u8>>,
    i: int,
)
    requires
        0 <= i < models_outcome(p, sent, body).len(),
    ensures
        models_outcome(p, sent, body)[i].cost_per_input_token matches Some(m)
            ==> m.amount_microdollars > 0,
        models_outcome(p, sent, body)[i].cost_per_output_token matches Some(m)
            ==> m.amount_microdollars > 0,
{
    if let Ok(t) = body_document(body) {
        wire::law_catalog_prices_are_positive(t);
    }
}

/// A provider that was set up talks to a permitted endpoint and has a key.
pub proof fn law_setup_is_acceptable(api_key: Seq<char>, base_url: Seq<char>)
    ensures
        setup(api_key, base_url) matches Ok(p) ==> acceptable(p) && p.api_key == api_key
            && p.base_url == base_url,
        setup(api_key, base_url) is Ok <==> base_url::permitted(base_url::url_parts(base_url))
            && !is_blank(api_key),
{
}

} // verus!
