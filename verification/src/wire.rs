//! The wire contract of the chat endpoint: request bodies, status codes,
//! replies and the model catalog.

use vstd::prelude::*;

use crate::decimal::{self, price_to_microdollars};
use crate::json::{self, Json, JsonNumber, JsonTree, NumberModel};
use crate::pricing::{self, cost_for};
use crate::sanitize::{self, strip_control};
use crate::text::{self, push_decimal};
use crate::types::{
    ContentBlock, GenerationRequest, GenerationResponse, Message, MessageRole, ModelDescriptor,
    ModelId, Money, ProviderError, Usage,
};
use crate::types::{DescriptorModel, ErrorModel, MessageModel, RequestModel, ResponseModel};

verus! {

/// API hard limit on `max_tokens`.
pub const MAX_TOKENS_CEILING: u32 = 32_000;

/// The name of a role on the wire.
pub open spec fn role_name(role: MessageRole) -> Seq<char> {
    match role {
        MessageRole::System => "system"@,
        MessageRole::User => "user"@,
        MessageRole::Assistant => "assistant"@,
    }
}

/// Map a [`MessageRole`] to its wire role string.
pub fn role_str(role: &MessageRole) -> (r: &'static str)
    ensures
        r@ == role_name(*role),
{
    match role {
        MessageRole::System => "system",
        MessageRole::User => "user",
        MessageRole::Assistant => "assistant",
    }
}

/// A budget brought into the window that the API accepts.
pub open spec fn clamped(budget: u32) -> u32 {
    if budget < 1 {
        1
    } else if budget > MAX_TOKENS_CEILING {
        MAX_TOKENS_CEILING
    } else {
        budget
    }
}

pub open spec fn message_tree(m: MessageModel) -> JsonTree {
    JsonTree::Object(
        Map::empty().insert("role"@, JsonTree::Text(role_name(m.role))).insert(
            "content"@,
            JsonTree::Text(m.content),
        ),
    )
}

pub open spec fn number_tree(n: u32) -> JsonTree {
    JsonTree::Number(
        NumberModel { unsigned: Some(n as u64), text: text::decimal(n as nat) },
    )
}

/// The request body of a chat completion.
pub open spec fn chat_body(req: RequestModel) -> JsonTree {
    JsonTree::Object(
        Map::empty().insert("model"@, JsonTree::Text(req.model)).insert(
            "messages"@,
            JsonTree::Array(req.messages.map_values(|m: MessageModel| message_tree(m))),
        ).insert("max_tokens"@, number_tree(clamped(req.max_output_tokens))).insert(
            "stream"@,
            JsonTree::Bool(false),
        ),
    )
}

/// Append an entry to an object under construction.
fn push_field(fields: &mut Vec<(String, Json)>, key: &str, value: Json)
    ensures
        json::field_trees(final(fields)@) == json::field_trees(old(fields)@).insert(key@, value@),
{
    let ghost before = fields@;
    fields.push((key.to_string(), value));
    assert(fields@.drop_last() == before);
}

fn message_json(m: &Message) -> (j: Json)
    ensures
        j@ == message_tree(m@),
{
    let mut fields: Vec<(String, Json)> = Vec::new();
    push_field(&mut fields, "role", Json::Text(role_str(&m.role).to_string()));
    push_field(&mut fields, "content", Json::Text(m.content.clone()));
    Json::Object(fields)
}

fn number_json(n: u32) -> (j: Json)
    ensures
        j@ == number_tree(n),
{
    let mut text = String::new();
    push_decimal(&mut text, n);
    assert(text@ =~= text::decimal(n as nat));
    Json::Number(JsonNumber { unsigned: Some(n as u64), text })
}

/// Build the `/chat/completions` request body. `max_tokens` is clamped into the
/// API's accepted `1..=32000` window.
pub fn build_chat_body(req: &GenerationRequest) -> (body: Json)
    ensures
        body@ == chat_body(req@),
{
    let max_tokens: u32 = if req.max_output_tokens < 1 {
        1
    } else if req.max_output_tokens > MAX_TOKENS_CEILING {
        MAX_TOKENS_CEILING
    } else {
        req.max_output_tokens
    };
    let ghost trees = req@.messages.map_values(|m: MessageModel| message_tree(m));
    let mut messages: Vec<Json> = Vec::new();
    let mut i: usize = 0;
    while i < req.messages.len()
        invariant
            i <= req.messages.len(),
            trees == req@.messages.map_values(|m: MessageModel| message_tree(m)),
            json::item_trees(messages@) == trees.take(i as int),
        decreases req.messages.len() - i,
    {
        let ghost before = messages@;
        messages.push(message_json(&req.messages[i]));
        assert(messages@.drop_last() == before);
        assert(trees[i as int] == message_tree(req.messages@[i as int]@));
        i += 1;
    }
    assert(trees.take(i as int) == trees);
    let mut fields: Vec<(String, Json)> = Vec::new();
    push_field(&mut fields, "model", Json::Text(req.model.clone()));
    push_field(&mut fields, "messages", Json::Array(messages));
    push_field(&mut fields, "max_tokens", number_json(max_tokens));
    push_field(&mut fields, "stream", Json::Bool(false));
    Json::Object(fields)
}

/// What an HTTP status means: `None` for success, else the error it stands for.
pub open spec fn status_error(status: u16) -> Option<ErrorModel> {
    if 200 <= status <= 299 {
        None
    } else if status == 401 || status == 403 {
        Some(ErrorModel::Unauthorized)
    } else if status == 429 {
        Some(ErrorModel::RateLimited)
    } else if status == 402 {
        Some(ErrorModel::Provider("payment required (x402 not supported)"@))
    } else if 300 <= status <= 399 {
        Some(
            ErrorModel::Provider(
                "unexpected redirect (HTTP "@ + text::decimal(status as nat) + ")"@,
            ),
        )
    } else {
        Some(ErrorModel::Provider("server returned HTTP "@ + text::decimal(status as nat)))
    }
}

pub open spec fn error_view(e: Option<ProviderError>) -> Option<ErrorModel> {
    match e {
        Some(e) => Some(e@),
        None => None,
    }
}

/// Map an HTTP status to a [`ProviderError`], or `None` for success (`2xx`).
/// Error messages are opaque: they are made of the status alone.
/// A `3xx` is an error here: redirects are never followed, so an unexpected one
/// has to surface.
pub fn map_status(status: u16) -> (r: Option<ProviderError>)
    ensures
        error_view(r) == status_error(status),
{
    match status {
        200..=299 => None,
        401 | 403 => Some(ProviderError::Unauthorized),
        429 => Some(ProviderError::RateLimited),
        402 => Some(
            ProviderError::Provider("payment required (x402 not supported)".to_string()),
        ),
        300..=399 => {
            let mut message = "unexpected redirect (HTTP ".to_string();
            push_decimal(&mut message, status as u32);
            message.append(")");
            Some(ProviderError::Provider(message))
        },
        _ => {
            let mut message = "server returned HTTP ".to_string();
            push_decimal(&mut message, status as u32);
            Some(ProviderError::Provider(message))
        },
    }
}

/// The reply text of a chat completion: `choices[0].message.content`.
pub open spec fn reply_text(t: JsonTree) -> Option<Seq<char>> {
    let first = match t.field("choices"@) {
        Some(choices) => choices.item(0),
        None => None,
    };
    json::text_of(json::field_of(json::field_of(first, "message"@), "content"@))
}

/// A token count of the usage object, zero where it is missing or no count.
pub open spec fn token_count(t: JsonTree, key: Seq<char>) -> u64 {
    match json::field_of(t.field("usage"@), key) {
        Some(v) => match v.unsigned() {
            Some(n) => n,
            None => 0,
        },
        None => 0,
    }
}

/// The usage that a reply reports, with the cost by the built-in prices.
pub open spec fn reported_usage(t: JsonTree, model: Seq<char>) -> Usage {
    let input_tokens = token_count(t, "prompt_tokens"@);
    let output_tokens = token_count(t, "completion_tokens"@);
    Usage {
        input_tokens,
        output_tokens,
        cost: pricing::cost_of(input_tokens, output_tokens, model),
    }
}

/// What a chat completion from `model` says.
pub open spec fn chat_response(t: JsonTree, model: Seq<char>) -> Result<ResponseModel, ErrorModel> {
    match reply_text(t) {
        Some(content) => Ok(
            ResponseModel {
                content: seq![sanitize::stripped(content)],
                usage: reported_usage(t, model),
            },
        ),
        None => Err(ErrorModel::Provider("malformed response from provider"@)),
    }
}

pub open spec fn response_view(r: Result<GenerationResponse, ProviderError>) -> Result<
    ResponseModel,
    ErrorModel,
> {
    match r {
        Ok(v) => Ok(v@),
        Err(e) => Err(e@),
    }
}

/// The cost of a reply is the one that the ASCII name of its model gives.
pub open spec fn priced_by_ascii_name(
    r: Result<GenerationResponse, ProviderError>,
    model: Seq<char>,
) -> bool {
    r matches Ok(v) ==> v.usage.cost == pricing::ascii_cost_of(
        v.usage.input_tokens,
        v.usage.output_tokens,
        model,
    )
}

fn find_reply(json: &Json) -> (r: Option<&str>)
    ensures
        match r {
            Some(s) => reply_text(json@) == Some(s@),
            None => reply_text(json@) is None,
        },
{
    let choices = match json.get("choices") {
        Some(choices) => choices,
        None => {
            return None;
        },
    };
    let first = match choices.get_index(0) {
        Some(first) => first,
        None => {
            return None;
        },
    };
    let message = match first.get("message") {
        Some(message) => message,
        None => {
            return None;
        },
    };
    match message.get("content") {
        Some(content) => content.as_str(),
        None => None,
    }
}

fn read_token_count(json: &Json, key: &str) -> (r: u64)
    ensures
        r == token_count(json@, key@),
{
    match json.get("usage") {
        Some(usage) => match usage.get(key) {
            Some(v) => match v.as_u64() {
                Some(n) => n,
                None => 0,
            },
            None => 0,
        },
        None => 0,
    }
}

/// Parse a chat-completion response into a [`GenerationResponse`].
///
/// The `usage` object is read defensively: missing token counts default to 0
/// and never error. Cost is computed from the built-in pricing table when the
/// model is recognised.
pub fn parse_chat_response(json: &Json, model: &ModelId) -> (r: Result<
    GenerationResponse,
    ProviderError,
>)
    ensures
        response_view(r) == chat_response(json@, model@),
        text::is_ascii_text(model@) ==> priced_by_ascii_name(r, model@),
{
    let content = match find_reply(json) {
        Some(content) => content,
        None => {
            return Err(ProviderError::Provider("malformed response from provider".to_string()));
        },
    };
    let input_tokens: u64 = read_token_count(json, "prompt_tokens");
    let output_tokens: u64 = read_token_count(json, "completion_tokens");
    let cost = cost_for(input_tokens, output_tokens, model);
    let usage = Usage { input_tokens, output_tokens, cost };
    let mut blocks: Vec<ContentBlock> = Vec::new();
    blocks.push(ContentBlock::Text(strip_control(content)));
    let response = GenerationResponse { content: blocks, usage };
    assert(response@.content =~= seq![sanitize::stripped(content@)]);
    Ok(response)
}

/// The amount in microdollars that a price field gives: a string or a number.
pub open spec fn field_amount(v: JsonTree) -> Option<i64> {
    match v {
        JsonTree::Text(s) => decimal::microdollars(s),
        JsonTree::Number(n) => decimal::microdollars(n.text),
        _ => None,
    }
}

/// The price that a catalog entry has under `pricing.key`, unless it rounds to
/// nothing or is negative.
pub open spec fn token_price(entry: JsonTree, key: Seq<char>) -> Option<Money> {
    match json::field_of(entry.field("pricing"@), key) {
        Some(v) => match field_amount(v) {
            Some(amount) => if amount > 0 {
                Some(Money { amount_microdollars: amount })
            } else {
                None
            },
            None => None,
        },
        None => None,
    }
}

/// What a catalog entry describes; `None` where it has no name.
pub open spec fn entry_descriptor(entry: JsonTree) -> Option<DescriptorModel> {
    match json::text_of(entry.field("id"@)) {
        Some(id) => Some(
            DescriptorModel {
                id,
                description: json::text_of(entry.field("name"@)),
                cost_per_input_token: token_price(entry, "prompt"@),
                cost_per_output_token: token_price(entry, "completion"@),
            },
        ),
        None => None,
    }
}

/// The descriptors of `entries`, in order, those without a name left out.
pub open spec fn descriptors(entries: Seq<JsonTree>) -> Seq<DescriptorModel>
    decreases entries.len(),
{
    if entries.len() == 0 {
        Seq::empty()
    } else {
        let before = descriptors(entries.drop_last());
        match entry_descriptor(entries.last()) {
            Some(d) => before.push(d),
            None => before,
        }
    }
}

/// The models that a catalog lists.
pub open spec fn catalog(t: JsonTree) -> Seq<DescriptorModel> {
    match t.field("data"@) {
        Some(data) => match data.items() {
            Some(entries) => descriptors(entries),
            None => Seq::empty(),
        },
        None => Seq::empty(),
    }
}

pub open spec fn catalog_view(models: Seq<ModelDescriptor>) -> Seq<DescriptorModel> {
    models.map_values(|d: ModelDescriptor| d@)
}

/// Catalog prices arrive as strings (e.g. `"0.0000000900"`) or as numbers; both
/// are dollars, read here in microdollars.
pub fn price_field_to_microdollars(v: &Json) -> (r: Option<i64>)
    ensures
        r == field_amount(v@),
{
    match v {
        Json::Text(s) => price_to_microdollars(s.as_str()),
        Json::Number(n) => price_to_microdollars(n.text.as_str()),
        _ => None,
    }
}

fn read_token_price(entry: &Json, key: &str) -> (r: Option<Money>)
    ensures
        r == token_price(entry@, key@),
{
    match entry.get("pricing") {
        Some(pricing) => match pricing.get(key) {
            Some(v) => match price_field_to_microdollars(v) {
                Some(amount) => if amount > 0 {
                    Some(Money { amount_microdollars: amount })
                } else {
                    None
                },
                None => None,
            },
            None => None,
        },
        None => None,
    }
}

fn read_text(entry: &Json, key: &str) -> (r: Option<String>)
    ensures
        match r {
            Some(s) => json::text_of(entry@.field(key@)) == Some(s@),
            None => json::text_of(entry@.field(key@)) is None,
        },
{
    match entry.get(key) {
        Some(v) => match v.as_str() {
            Some(s) => Some(s.to_string()),
            None => None,
        },
        None => None,
    }
}

/// Parse the model catalog (`data[]`) into [`ModelDescriptor`]s, reading
/// per-token `pricing.{prompt,completion}`. A price that rounds
/// to nothing is left out rather than shown.
pub fn parse_models(json: &Json) -> (models: Vec<ModelDescriptor>)
    ensures
        catalog_view(models@) == catalog(json@),
{
    let mut models: Vec<ModelDescriptor> = Vec::new();
    assert(catalog_view(models@) =~= Seq::empty());
    let data = match json.get("data") {
        Some(data) => data,
        None => {
            return models;
        },
    };
    let entries = match data.as_array() {
        Some(entries) => entries,
        None => {
            return models;
        },
    };
    let ghost trees = json::item_trees(entries@);
    proof {
        json::lemma_item_trees(entries@);
        assert(trees.take(0).len() == 0);
    }
    let mut i: usize = 0;
    while i < entries.len()
        invariant
            i <= entries.len(),
            trees.len() == entries.len(),
            forall|k: int| 0 <= k < trees.len() ==> #[trigger] trees[k] == entries@[k]@,
            catalog_view(models@) == descriptors(trees.take(i as int)),
        decreases entries.len() - i,
    {
        let entry = &entries[i];
        assert(trees.take(i + 1).drop_last() == trees.take(i as int));
        assert(trees.take(i + 1).last() == entry@);
        match read_text(entry, "id") {
            Some(id) => {
                let ghost before = models@;
                let descriptor = ModelDescriptor {
                    id,
                    description: read_text(entry, "name"),
                    cost_per_input_token: read_token_price(entry, "prompt"),
                    cost_per_output_token: read_token_price(entry, "completion"),
                };
                models.push(descriptor);
                assert(catalog_view(models@) =~= catalog_view(before).push(descriptor@));
            },
            None => {},
        }
        i += 1;
    }
    assert(trees.take(i as int) == trees);
    models
}

/// What the endpoint reads of a request body: the model as it was asked for, no
/// streaming, and a token limit that is at least one, never above the ceiling,
/// never above a budget that is at least one, and the budget itself where that
/// lies in the window.
pub proof fn law_body_fields(req: RequestModel)
    ensures
        chat_body(req).field("model"@) == Some(JsonTree::Text(req.model)),
        chat_body(req).field("stream"@) == Some(JsonTree::Bool(false)),
        chat_body(req).field("max_tokens"@) == Some(number_tree(clamped(req.max_output_tokens))),
        1 <= clamped(req.max_output_tokens) <= MAX_TOKENS_CEILING,
        req.max_output_tokens >= 1 ==> clamped(req.max_output_tokens) <= req.max_output_tokens,
        1 <= req.max_output_tokens <= MAX_TOKENS_CEILING ==> clamped(req.max_output_tokens)
            == req.max_output_tokens,
{
    lemma_body_keys();
}

/// The messages of a request body are those of the request, in order, each with
/// its role and its text.
pub proof fn law_body_messages(req: RequestModel, i: int)
    requires
        0 <= i < req.messages.len(),
    ensures
        chat_body(req).field("messages"@) matches Some(messages) && {
            &&& messages.items() matches Some(all) && all.len() == req.messages.len()
            &&& messages.item(i) matches Some(m) && {
                &&& m.field("role"@) == Some(JsonTree::Text(role_name(req.messages[i].role)))
                &&& m.field("content"@) == Some(JsonTree::Text(req.messages[i].content))
            }
        },
{
    lemma_body_keys();
    let trees = req.messages.map_values(|m: MessageModel| message_tree(m));
    assert(trees[i] == message_tree(req.messages[i]));
}

/// The keys of a request body and of its messages differ from each other.
pub proof fn lemma_body_keys()
    ensures
        "model"@ != "messages"@,
        "model"@ != "max_tokens"@,
        "model"@ != "stream"@,
        "messages"@ != "max_tokens"@,
        "messages"@ != "stream"@,
        "max_tokens"@ != "stream"@,
        "role"@ != "content"@,
{
    reveal_strlit("model");
    reveal_strlit("messages");
    reveal_strlit("max_tokens");
    reveal_strlit("stream");
    reveal_strlit("role");
    reveal_strlit("content");
    assert("model"@.len() == 5);
    assert("messages"@.len() == 8);
    assert("max_tokens"@.len() == 10);
    assert("stream"@.len() == 6);
    assert("role"@.len() == 4);
    assert("content"@.len() == 7);
}

/// Success is `2xx` and nothing else.
pub proof fn law_only_success_statuses_pass(status: u16)
    ensures
        status_error(status) is None <==> 200 <= status <= 299,
{
}

/// A reply without a usage object counts no tokens, and costs nothing where the
/// model has a price.
pub proof fn law_missing_usage_counts_nothing(t: JsonTree, model: Seq<char>)
    requires
        t.field("usage"@) is None,
    ensures
        reported_usage(t, model).input_tokens == 0,
        reported_usage(t, model).output_tokens == 0,
        reported_usage(t, model).cost matches Some(m) ==> m.amount_microdollars == 0,
{
}

/// Whether a reply succeeds does not depend on its usage object: documents with
/// the same reply text give the same content.
pub proof fn law_usage_never_fails_a_reply(t: JsonTree, u: JsonTree, model: Seq<char>)
    requires
        reply_text(t) == reply_text(u),
    ensures
        chat_response(t, model) is Ok <==> chat_response(u, model) is Ok,
        chat_response(t, model) is Ok ==> chat_response(t, model)->Ok_0.content == chat_response(
            u,
            model,
        )->Ok_0.content,
{
}

/// A listing of two runs of entries is the listing of the first followed by that
/// of the second: order is kept, and an entry does not touch its neighbours.
pub proof fn law_listing_is_entry_by_entry(a: Seq<JsonTree>, b: Seq<JsonTree>)
    ensures
        descriptors(a + b) == descriptors(a) + descriptors(b),
    decreases b.len(),
{
    if b.len() == 0 {
        assert(a + b == a);
        assert(descriptors(a) + descriptors(b) == descriptors(a));
    } else {
        assert((a + b).drop_last() == a + b.drop_last());
        assert((a + b).last() == b.last());
        law_listing_is_entry_by_entry(a, b.drop_last());
        assert(descriptors(a + b) =~= descriptors(a) + descriptors(b));
    }
}

proof fn lemma_descriptor_prices(entries: Seq<JsonTree>)
    ensures
        forall|i: int|
            #![trigger descriptors(entries)[i]]
            0 <= i < descriptors(entries).len() ==> {
                let d = descriptors(entries)[i];
                &&& d.cost_per_input_token matches Some(m) ==> m.amount_microdollars > 0
                &&& d.cost_per_output_token matches Some(m) ==> m.amount_microdollars > 0
            },
    decreases entries.len(),
{
    if entries.len() > 0 {
        lemma_descriptor_prices(entries.drop_last());
        let before = descriptors(entries.drop_last());
        assert forall|i: int|
            #![trigger descriptors(entries)[i]]
            0 <= i < descriptors(entries).len() implies {
            let d = descriptors(entries)[i];
            &&& d.cost_per_input_token matches Some(m) ==> m.amount_microdollars > 0
            &&& d.cost_per_output_token matches Some(m) ==> m.amount_microdollars > 0
        } by {
            if i < before.len() {
                assert(descriptors(entries)[i] == before[i]);
            }
        }
    }
}

/// No entry of a catalog shows a price of nothing: a price is either at least
/// one microdollar or missing.
pub proof fn law_catalog_prices_are_positive(t: JsonTree)
    ensures
        forall|i: int|
            #![trigger catalog(t)[i]]
            0 <= i < catalog(t).len() ==> {
                &&& catalog(t)[i].cost_per_input_token matches Some(m) ==> m.amount_microdollars > 0
                &&& catalog(t)[i].cost_per_output_token matches Some(m) ==> m.amount_microdollars
                    > 0
            },
{
    if let Some(data) = t.field("data"@) {
        if let Some(entries) = data.items() {
            lemma_descriptor_prices(entries);
        }
    }
}

} // verus!
