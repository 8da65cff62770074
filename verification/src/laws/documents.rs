//! Documents, requests and replies, said of what they hold.

use vstd::prelude::*;

use crate::json::{self, Json, JsonNode, JsonNumber, JsonTree};
use crate::pricing;
use crate::sanitize;
use crate::text;
use crate::types::{
    ContentBlock, ErrorModel, GenerationRequest, GenerationResponse, MessageRole, ModelDescriptor,
    ProviderError, RequestModel, ResponseModel,
};
use crate::wire;

verus! {

/// Reading a document: a field is the entry of an object, an item the element of
/// an array, and nothing is read out of anything else.
pub proof fn law_documents_are_read_as_they_are(
    m: Map<Seq<char>, JsonTree>,
    s: Seq<JsonTree>,
    x: Seq<char>,
    n: json::NumberModel,
    t: JsonTree,
    key: Seq<char>,
    i: int,
)
    ensures
        m.dom().contains(key) ==> JsonTree::Object(m).field(key) == Some(m[key]),
        !m.dom().contains(key) ==> JsonTree::Object(m).field(key) is None,
        0 <= i < s.len() ==> JsonTree::Array(s).item(i) == Some(s[i]),
        !(0 <= i < s.len()) ==> JsonTree::Array(s).item(i) is None,
        JsonTree::Array(s).items() == Some(s),
        JsonTree::Text(x).text() == Some(x),
        JsonTree::Number(n).unsigned() == n.unsigned,
        !(t is Object) ==> t.field(key) is None,
        !(t is Array) ==> t.item(i) is None && t.items() is None,
        !(t is Text) ==> t.text() is None,
        !(t is Number) ==> t.unsigned() is None,
{
}

/// What a value stands for: scalars as they are, arrays element by element.
pub proof fn law_values_stand_for_themselves(
    b: bool,
    s: String,
    n: JsonNumber,
    v: Vec<Json>,
    i: int,
)
    ensures
        Json::Null@ == JsonTree::Null,
        Json::Bool(b)@ == JsonTree::Bool(b),
        Json::Text(s)@ == JsonTree::Text(s@),
        Json::Number(n)@ matches JsonTree::Number(k) && k.unsigned == n.unsigned && k.text
            == n.text@,
        Json::Array(v)@ matches JsonTree::Array(trees) && trees.len() == v@.len() && (0 <= i
            < v@.len() ==> trees[i] == v@[i]@),
{
    json::lemma_item_trees(v@);
}

/// An object stands for its entries: it has exactly the keys that are written,
/// and under each the value that is written last.
pub proof fn law_objects_stand_for_their_entries(v: Vec<(String, Json)>, key: Seq<char>, i: int)
    ensures
        Json::Object(v)@ matches JsonTree::Object(m) && {
            &&& m.dom().contains(key) <==> exists|k: int|
                0 <= k < v@.len() && (#[trigger] v@[k]).0@ == key
            &&& 0 <= i < v@.len() && (forall|k: int|
                i < k < v@.len() ==> (#[trigger] v@[k]).0@ != v@[i].0@) ==> m[v@[i].0@] == v@[i].1@
        },
{
    lemma_field_keys(v@, key);
    if 0 <= i < v@.len() && (forall|k: int|
        i < k < v@.len() ==> (#[trigger] v@[k]).0@ != v@[i].0@) {
        lemma_last_field_counts(v@, i);
    }
}

/// What one level of a parsed value stands for: scalars as they are, arrays
/// element by element, objects entry by entry.
pub(crate) proof fn law_nodes_stand_for_what_they_hold<'a>(
    b: bool,
    n: JsonNumber,
    s: &'a String,
    v: &'a Vec<serde_json::Value>,
    entries: Vec<(&'a String, &'a serde_json::Value)>,
    i: int,
    key: Seq<char>,
)
    requires
        forall|j: int, k: int|
            0 <= j < k < entries@.len() ==> (#[trigger] entries@[j]).0@ != (
            #[trigger] entries@[k]).0@,
    ensures
        json::node_tree(JsonNode::Null) == JsonTree::Null,
        json::node_tree(JsonNode::Bool(b)) == JsonTree::Bool(b),
        json::node_tree(JsonNode::Text(s)) == JsonTree::Text(s@),
        json::node_tree(JsonNode::Number(n)) matches JsonTree::Number(k) && k.unsigned == n.unsigned
            && k.text == n.text@,
        json::node_tree(JsonNode::Array(v)) matches JsonTree::Array(trees) && trees.len()
            == v@.len() && (0 <= i < v@.len() ==> trees[i] == json::value_tree(v@[i])),
        json::node_tree(JsonNode::Object(entries)) matches JsonTree::Object(m) && {
            &&& m.dom().contains(key) <==> exists|k: int|
                0 <= k < entries@.len() && (#[trigger] entries@[k]).0@ == key
            &&& 0 <= i < entries@.len() ==> m[entries@[i].0@] == json::value_tree(*entries@[i].1)
        },
        json::keys_differ(entries@),
{
    lemma_entry_keys(entries@, key);
    if 0 <= i < entries@.len() {
        lemma_entry_counts(entries@, i);
    }
}

proof fn lemma_entry_keys(s: Seq<(&String, &serde_json::Value)>, key: Seq<char>)
    ensures
        json::entry_trees(s).dom().contains(key) <==> exists|k: int|
            0 <= k < s.len() && (#[trigger] s[k]).0@ == key,
    decreases s.len(),
{
    if s.len() > 0 {
        let t = s.drop_last();
        lemma_entry_keys(t, key);
        if json::entry_trees(t).dom().contains(key) {
            let k = choose|k: int| 0 <= k < t.len() && (#[trigger] t[k]).0@ == key;
            assert(s[k].0@ == key);
        }
        if s.last().0@ == key {
            assert(s[s.len() - 1].0@ == key);
        }
        if exists|k: int| 0 <= k < s.len() && (#[trigger] s[k]).0@ == key {
            let k = choose|k: int| 0 <= k < s.len() && (#[trigger] s[k]).0@ == key;
            if k < t.len() {
                assert(t[k].0@ == key);
            }
        }
    }
}

proof fn lemma_entry_counts(s: Seq<(&String, &serde_json::Value)>, i: int)
    requires
        0 <= i < s.len(),
        forall|k: int| i < k < s.len() ==> (#[trigger] s[k]).0@ != s[i].0@,
    ensures
        json::entry_trees(s)[s[i].0@] == json::value_tree(*s[i].1),
    decreases s.len(),
{
    let t = s.drop_last();
    if i < t.len() {
        assert(s[s.len() - 1].0@ != s[i].0@);
        assert(t[i] == s[i]);
        assert forall|k: int| i < k < t.len() implies (#[trigger] t[k]).0@ != t[i].0@ by {
            assert(s[k] == t[k]);
        }
        lemma_entry_counts(t, i);
    }
}

proof fn lemma_field_keys(s: Seq<(String, Json)>, key: Seq<char>)
    ensures
        json::field_trees(s).dom().contains(key) <==> exists|k: int|
            0 <= k < s.len() && (#[trigger] s[k]).0@ == key,
    decreases s.len(),
{
    if s.len() > 0 {
        let t = s.drop_last();
        lemma_field_keys(t, key);
        if json::field_trees(t).dom().contains(key) {
            let k = choose|k: int| 0 <= k < t.len() && (#[trigger] t[k]).0@ == key;
            assert(s[k].0@ == key);
        }
        if s.last().0@ == key {
            assert(s[s.len() - 1].0@ == key);
        }
        if exists|k: int| 0 <= k < s.len() && (#[trigger] s[k]).0@ == key {
            let k = choose|k: int| 0 <= k < s.len() && (#[trigger] s[k]).0@ == key;
            if k < t.len() {
                assert(t[k].0@ == key);
            }
        }
    }
}

proof fn lemma_last_field_counts(s: Seq<(String, Json)>, i: int)
    requires
        0 <= i < s.len(),
        forall|k: int| i < k < s.len() ==> (#[trigger] s[k]).0@ != s[i].0@,
    ensures
        json::field_trees(s)[s[i].0@] == s[i].1@,
    decreases s.len(),
{
    let t = s.drop_last();
    if i < t.len() {
        assert(s[s.len() - 1].0@ != s[i].0@);
        assert(t[i] == s[i]);
        assert forall|k: int| i < k < t.len() implies (#[trigger] t[k]).0@ != t[i].0@ by {
            assert(s[k] == t[k]);
        }
        lemma_last_field_counts(t, i);
    }
}

/// A request body is an object of exactly four entries: the model that was asked
/// for, no streaming, the messages, and as `max_tokens` the budget itself,
/// raised to one and lowered to 32000 where it lies outside, in value and in
/// digits.
pub proof fn law_request_body(req: RequestModel, key: Seq<char>)
    ensures
        wire::chat_body(req) matches JsonTree::Object(m) && {
            &&& m.dom().contains(key) <==> key == "model"@ || key == "messages"@ || key
                == "max_tokens"@ || key == "stream"@
            &&& m["model"@] == JsonTree::Text(req.model)
            &&& m["stream"@] == JsonTree::Bool(false)
            &&& m["max_tokens"@] matches JsonTree::Number(n) && n.unsigned matches Some(sent) && {
                &&& req.max_output_tokens < 1 ==> sent == 1
                &&& 1 <= req.max_output_tokens <= 32_000 ==> sent == req.max_output_tokens
                &&& req.max_output_tokens > 32_000 ==> sent == 32_000
                &&& n.text == text::decimal(sent as nat)
            }
            &&& m["messages"@] matches JsonTree::Array(ms) && ms.len() == req.messages.len()
        },
{
    wire::law_body_fields(req);
    wire::lemma_body_keys();
}

/// Each message of a request body is an object of exactly two entries, its role
/// by name and its text, at the place that it has in the request.
pub proof fn law_request_message(req: RequestModel, i: int, key: Seq<char>)
    requires
        0 <= i < req.messages.len(),
    ensures
        ({
            &&& wire::chat_body(req) matches JsonTree::Object(m)
            &&& m["messages"@] matches JsonTree::Array(ms)
            &&& i < ms.len()
            &&& ms[i] matches JsonTree::Object(o)
            &&& o.dom().contains(key) <==> key == "role"@ || key == "content"@
            &&& o["content"@] == JsonTree::Text(req.messages[i].content)
            &&& req.messages[i].role is System ==> o["role"@] == JsonTree::Text("system"@)
            &&& req.messages[i].role is User ==> o["role"@] == JsonTree::Text("user"@)
            &&& req.messages[i].role is Assistant ==> o["role"@] == JsonTree::Text("assistant"@)
        }),
{
    wire::law_body_messages(req, i);
    wire::lemma_body_keys();
}

/// The name of a role, which depends on nothing else.
pub proof fn law_role_names()
    ensures
        wire::role_name(MessageRole::System) == "system"@,
        wire::role_name(MessageRole::User) == "user"@,
        wire::role_name(MessageRole::Assistant) == "assistant"@,
{
}

/// Each status and its meaning.
pub proof fn law_status_meanings(status: u16)
    ensures
        200 <= status <= 299 ==> wire::status_error(status) is None,
        status == 401 || status == 403 ==> wire::status_error(status) == Some(
            ErrorModel::Unauthorized,
        ),
        status == 429 ==> wire::status_error(status) == Some(ErrorModel::RateLimited),
        status == 402 ==> wire::status_error(status) == Some(
            ErrorModel::Provider("payment required (x402 not supported)"@),
        ),
        300 <= status <= 399 ==> wire::status_error(status) == Some(
            ErrorModel::Provider(
                "unexpected redirect (HTTP "@ + text::decimal(status as nat) + ")"@,
            ),
        ),
        (status < 200 || status >= 400) && status != 401 && status != 402 && status != 403 && status
            != 429 ==> wire::status_error(status) == Some(
            ErrorModel::Provider("server returned HTTP "@ + text::decimal(status as nat)),
        ),
{
}

/// The text at `choices[0].message.content` is the reply, whatever it says and
/// however long it is: it is returned, stripped, as the only block.
pub proof fn law_reply_text_is_returned(
    m: Map<Seq<char>, JsonTree>,
    choices: Seq<JsonTree>,
    choice: Map<Seq<char>, JsonTree>,
    message: Map<Seq<char>, JsonTree>,
    content: Seq<char>,
    model: Seq<char>,
)
    requires
        m.dom().contains("choices"@),
        m["choices"@] == JsonTree::Array(choices),
        choices.len() > 0,
        choices[0] == JsonTree::Object(choice),
        choice.dom().contains("message"@),
        choice["message"@] == JsonTree::Object(message),
        message.dom().contains("content"@),
        message["content"@] == JsonTree::Text(content),
    ensures
        wire::chat_response(JsonTree::Object(m), model) matches Ok(r) && r.content
            == seq![sanitize::stripped(content)],
{
}

/// Only a document of that shape is a reply, and any other gets the one error.
pub proof fn law_only_a_reply_text_is_a_reply(t: JsonTree, model: Seq<char>)
    ensures
        wire::chat_response(t, model) is Ok ==> {
            &&& t matches JsonTree::Object(m)
            &&& m.dom().contains("choices"@)
            &&& m["choices"@] matches JsonTree::Array(choices)
            &&& choices.len() > 0
            &&& choices[0] matches JsonTree::Object(choice)
            &&& choice.dom().contains("message"@)
            &&& choice["message"@] matches JsonTree::Object(message)
            &&& message.dom().contains("content"@)
            &&& message["content"@] is Text
        },
        wire::chat_response(t, model) is Err ==> wire::chat_response(t, model)
            == Err::<ResponseModel, ErrorModel>(
            ErrorModel::Provider("malformed response from provider"@),
        ),
{
}

/// A token count is the unsigned integer that the usage object of a reply holds
/// under its key.
pub proof fn law_token_counts_are_read(
    m: Map<Seq<char>, JsonTree>,
    usage: Map<Seq<char>, JsonTree>,
    n: json::NumberModel,
    count: u64,
    model: Seq<char>,
)
    requires
        wire::chat_response(JsonTree::Object(m), model) is Ok,
        m.dom().contains("usage"@),
        m["usage"@] == JsonTree::Object(usage),
        n.unsigned == Some(count),
    ensures
        usage.dom().contains("prompt_tokens"@) && usage["prompt_tokens"@] == JsonTree::Number(n)
            ==> wire::chat_response(JsonTree::Object(m), model)->Ok_0.usage.input_tokens == count,
        usage.dom().contains("completion_tokens"@) && usage["completion_tokens"@]
            == JsonTree::Number(n) ==> wire::chat_response(
            JsonTree::Object(m),
            model,
        )->Ok_0.usage.output_tokens == count,
{
}

/// A count that the usage object does not hold as an unsigned integer is zero.
pub proof fn law_token_counts_default_to_zero(m: Map<Seq<char>, JsonTree>, model: Seq<char>)
    requires
        wire::chat_response(JsonTree::Object(m), model) is Ok,
    ensures
        !({
            &&& m.dom().contains("usage"@)
            &&& m["usage"@] matches JsonTree::Object(u)
            &&& u.dom().contains("prompt_tokens"@)
            &&& u["prompt_tokens"@] matches JsonTree::Number(n)
            &&& n.unsigned is Some
        }) ==> wire::chat_response(JsonTree::Object(m), model)->Ok_0.usage.input_tokens == 0,
        !({
            &&& m.dom().contains("usage"@)
            &&& m["usage"@] matches JsonTree::Object(u)
            &&& u.dom().contains("completion_tokens"@)
            &&& u["completion_tokens"@] matches JsonTree::Number(n)
            &&& n.unsigned is Some
        }) ==> wire::chat_response(JsonTree::Object(m), model)->Ok_0.usage.output_tokens == 0,
{
}

/// The cost of a reply is that of the counts that it reports.
pub proof fn law_reply_costs_what_its_tokens_cost(t: JsonTree, model: Seq<char>)
    ensures
        wire::chat_response(t, model) matches Ok(r) ==> r.usage.cost == pricing::cost_of(
            r.usage.input_tokens,
            r.usage.output_tokens,
            model,
        ),
{
}

/// A request stands for its model, its budget and its messages, in order.
pub proof fn law_requests_stand_for_all_they_hold(req: GenerationRequest, i: int)
    ensures
        req@.model == req.model@,
        req@.max_output_tokens == req.max_output_tokens,
        req@.messages.len() == req.messages@.len(),
        0 <= i < req.messages@.len() ==> req@.messages[i].role == req.messages@[i].role
            && req@.messages[i].content == req.messages@[i].content@,
{
}

/// A response stands for its usage and for the text of each block, in order.
pub proof fn law_responses_stand_for_all_they_hold(resp: GenerationResponse, s: String, i: int)
    ensures
        resp@.usage == resp.usage,
        resp@.content.len() == resp.content@.len(),
        0 <= i < resp.content@.len() && resp.content@[i] == ContentBlock::Text(s)
            ==> resp@.content[i] == s@,
{
}

/// An error stands for its category and its message.
pub proof fn law_errors_stand_for_all_they_hold(s: String, e: ProviderError)
    ensures
        ProviderError::BudgetExceeded@ == ErrorModel::BudgetExceeded,
        ProviderError::Unauthorized@ == ErrorModel::Unauthorized,
        ProviderError::RateLimited@ == ErrorModel::RateLimited,
        ProviderError::Transport(s)@ == ErrorModel::Transport(s@),
        ProviderError::Provider(s)@ == ErrorModel::Provider(s@),
        wire::error_view(Some(e)) == Some(e@),
        wire::error_view(None) is None,
{
}

/// The outcome of a generation stands for the response or the error in it.
pub proof fn law_results_stand_for_all_they_hold(resp: GenerationResponse, e: ProviderError)
    ensures
        wire::response_view(Ok(resp)) == Ok::<ResponseModel, ErrorModel>(resp@),
        wire::response_view(Err(e)) == Err::<ResponseModel, ErrorModel>(e@),
{
}

/// A descriptor stands for its name, its description and its prices.
pub proof fn law_descriptors_stand_for_all_they_hold(d: ModelDescriptor, s: String)
    ensures
        d@.id == d.id@,
        d.description == Some(s) ==> d@.description == Some(s@),
        d.description is None ==> d@.description is None,
        d@.cost_per_input_token == d.cost_per_input_token,
        d@.cost_per_output_token == d.cost_per_output_token,
{
}

/// A listing stands for its descriptors, in order.
pub proof fn law_listings_stand_for_all_they_hold(models: Seq<ModelDescriptor>, i: int)
    ensures
        wire::catalog_view(models).len() == models.len(),
        0 <= i < models.len() ==> wire::catalog_view(models)[i] == models[i]@,
{
}

} // verus!
