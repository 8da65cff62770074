//! The steps of a call and how it ends, said of requests, heads and bodies.

use vstd::prelude::*;

use crate::json::{self, Json, JsonTree};
use crate::laws::{documents, output};
use crate::provider::{
    self, CallEvent, EventModel, GenerateAction, GenerateStep, ModelsAction, ModelsStep,
    ProviderModel, ResponseHead, SendFailure,
};
use crate::types::{
    ErrorModel, GenerationResponse, ModelDescriptor, ProviderError, RequestModel, ResponseModel,
};
use crate::wire;

verus! {

/// A call begins with one request below the base URL, with the key as its bearer
/// token; a generation with no budget is over before it begins.
pub proof fn law_requests(p: ProviderModel, req: RequestModel)
    ensures
        req.max_output_tokens == 0 ==> provider::generate_step(p, req, EventModel::Start)
            == GenerateStep::Finish(Err(ErrorModel::BudgetExceeded)),
        req.max_output_tokens > 0 ==> (provider::generate_step(
            p,
            req,
            EventModel::Start,
        ) matches GenerateStep::Post { url, bearer, body } && url == p.base_url
            + "/chat/completions"@ && bearer == p.api_key && body == wire::chat_body(req)),
        provider::models_step(p, EventModel::Start) matches ModelsStep::Get { url, bearer } && url
            == p.base_url + "/models"@ && bearer == p.api_key,
{
}

/// A failure to send is told by its category.
pub proof fn law_send_failures(failure: SendFailure)
    ensures
        failure.timed_out ==> provider::send_error(failure) == ErrorModel::Transport(
            "connection timed out"@,
        ),
        !failure.timed_out && failure.connecting ==> provider::send_error(failure)
            == ErrorModel::Transport("connection refused"@),
        !failure.timed_out && !failure.connecting ==> provider::send_error(failure)
            == ErrorModel::Transport("network error"@),
{
}

/// The body of a success is read, unless more than eight mebibytes are declared;
/// any other status is its own error.
pub proof fn law_heads(head: ResponseHead)
    ensures
        200 <= head.status <= 299 && head.content_length is None ==> provider::head_error(
            head,
        ) is None,
        200 <= head.status <= 299 && head.content_length is Some && head.content_length->0
            <= 8_388_608 ==> provider::head_error(head) is None,
        200 <= head.status <= 299 && head.content_length is Some && head.content_length->0
            > 8_388_608 ==> provider::head_error(head) == Some(
            ErrorModel::Transport("response too large"@),
        ),
        !(200 <= head.status <= 299) ==> provider::head_error(head) is Some && provider::head_error(
            head,
        ) == wire::status_error(head.status),
{
}

/// A body of eight mebibytes at most is decoded, whatever it says.
pub proof fn law_bodies(bytes: Seq<u8>, t: JsonTree)
    ensures
        bytes.len() <= 8_388_608 && json::json_document(bytes) == Some(t)
            ==> provider::body_document(Some(bytes)) == Ok::<JsonTree, ErrorModel>(t),
        bytes.len() <= 8_388_608 && json::json_document(bytes) is None ==> provider::body_document(
            Some(bytes),
        ) == Err::<JsonTree, ErrorModel>(ErrorModel::Transport("response decode failed"@)),
        bytes.len() > 8_388_608 ==> provider::body_document(Some(bytes)) == Err::<
            JsonTree,
            ErrorModel,
        >(ErrorModel::Transport("response too large"@)),
        provider::body_document(None) == Err::<JsonTree, ErrorModel>(
            ErrorModel::Transport("response decode failed"@),
        ),
{
}

/// Where a success with no more than eight mebibytes declared comes back, one
/// byte more than that is read at most; anything else ends the call.
pub proof fn law_steps_after_the_head(p: ProviderModel, req: RequestModel, head: ResponseHead)
    ensures
        200 <= head.status <= 299 && (head.content_length is Some ==> head.content_length->0
            <= 8_388_608) ==> {
            &&& provider::generate_step(p, req, EventModel::Sent(Ok(head)))
                == GenerateStep::ReadBody { limit: 8_388_609 }
            &&& provider::models_step(p, EventModel::Sent(Ok(head))) == ModelsStep::ReadBody {
                limit: 8_388_609,
            }
        },
        200 <= head.status <= 299 && head.content_length is Some && head.content_length->0
            > 8_388_608 ==> {
            &&& provider::generate_step(p, req, EventModel::Sent(Ok(head)))
                == GenerateStep::Finish(Err(ErrorModel::Transport("response too large"@)))
            &&& provider::models_step(p, EventModel::Sent(Ok(head))) == ModelsStep::Finish(
                Seq::empty(),
            )
        },
        !(200 <= head.status <= 299) ==> {
            &&& wire::status_error(head.status) matches Some(e) && provider::generate_step(
                p,
                req,
                EventModel::Sent(Ok(head)),
            ) == GenerateStep::Finish(Err(e))
            &&& provider::models_step(p, EventModel::Sent(Ok(head))) == ModelsStep::Finish(
                Seq::empty(),
            )
        },
{
}

/// A request that does not get through ends the call.
pub proof fn law_steps_after_a_failed_send(
    p: ProviderModel,
    req: RequestModel,
    failure: SendFailure,
)
    ensures
        provider::generate_step(p, req, EventModel::Sent(Err(failure))) == GenerateStep::Finish(
            Err(provider::send_error(failure)),
        ),
        provider::models_step(p, EventModel::Sent(Err(failure))) == ModelsStep::Finish(
            Seq::empty(),
        ),
{
}

/// The document of a body is the answer, as far as there is one.
pub proof fn law_steps_after_the_body(
    p: ProviderModel,
    req: RequestModel,
    bytes: Seq<u8>,
    t: JsonTree,
)
    ensures
        bytes.len() <= 8_388_608 && json::json_document(bytes) == Some(t) ==> {
            &&& provider::generate_step(p, req, EventModel::Body(Some(bytes)))
                == GenerateStep::Finish(wire::chat_response(t, req.model))
            &&& provider::models_step(p, EventModel::Body(Some(bytes))) == ModelsStep::Finish(
                wire::catalog(t),
            )
        },
        bytes.len() <= 8_388_608 && json::json_document(bytes) is None ==> {
            &&& provider::generate_step(p, req, EventModel::Body(Some(bytes)))
                == GenerateStep::Finish(Err(ErrorModel::Transport("response decode failed"@)))
            &&& provider::models_step(p, EventModel::Body(Some(bytes))) == ModelsStep::Finish(
                Seq::empty(),
            )
        },
        bytes.len() > 8_388_608 ==> {
            &&& provider::generate_step(p, req, EventModel::Body(Some(bytes)))
                == GenerateStep::Finish(Err(ErrorModel::Transport("response too large"@)))
            &&& provider::models_step(p, EventModel::Body(Some(bytes))) == ModelsStep::Finish(
                Seq::empty(),
            )
        },
        provider::generate_step(p, req, EventModel::Body(None)) == GenerateStep::Finish(
            Err(ErrorModel::Transport("response decode failed"@)),
        ),
        provider::models_step(p, EventModel::Body(None)) == ModelsStep::Finish(Seq::empty()),
{
}

/// A listing succeeds whenever it can: a success within the cap, with or without
/// a declared length, whose body decodes, gives the catalog of the document.
pub proof fn law_listing_succeeds(
    p: ProviderModel,
    head: ResponseHead,
    bytes: Seq<u8>,
    t: JsonTree,
)
    requires
        200 <= head.status <= 299,
        head.content_length is Some ==> head.content_length->0 <= 8_388_608,
        bytes.len() <= 8_388_608,
        json::json_document(bytes) == Some(t),
    ensures
        provider::models_outcome(p, Ok(head), Some(bytes)) == wire::catalog(t),
{
}

/// A generation within a budget succeeds whenever it can: a success within the
/// cap, with or without a declared length, gives what the document says.
pub proof fn law_generation_succeeds(
    p: ProviderModel,
    req: RequestModel,
    head: ResponseHead,
    bytes: Seq<u8>,
    t: JsonTree,
)
    requires
        req.max_output_tokens > 0,
        200 <= head.status <= 299,
        head.content_length is Some ==> head.content_length->0 <= 8_388_608,
        bytes.len() <= 8_388_608,
        json::json_document(bytes) == Some(t),
    ensures
        provider::generate_outcome(p, req, Ok(head), Some(bytes)) == wire::chat_response(
            t,
            req.model,
        ),
{
}

/// A reply in printable ASCII reaches the caller character by character.
pub proof fn law_plain_reply_reaches_the_caller(
    p: ProviderModel,
    req: RequestModel,
    head: ResponseHead,
    bytes: Seq<u8>,
    m: Map<Seq<char>, JsonTree>,
    choices: Seq<JsonTree>,
    choice: Map<Seq<char>, JsonTree>,
    message: Map<Seq<char>, JsonTree>,
    content: Seq<char>,
)
    requires
        req.max_output_tokens > 0,
        200 <= head.status <= 299,
        head.content_length is Some ==> head.content_length->0 <= 8_388_608,
        bytes.len() <= 8_388_608,
        json::json_document(bytes) == Some(JsonTree::Object(m)),
        m.dom().contains("choices"@),
        m["choices"@] == JsonTree::Array(choices),
        choices.len() > 0,
        choices[0] == JsonTree::Object(choice),
        choice.dom().contains("message"@),
        choice["message"@] == JsonTree::Object(message),
        message.dom().contains("content"@),
        message["content"@] == JsonTree::Text(content),
        forall|i: int|
            0 <= i < content.len() ==> '\u{20}' <= #[trigger] content[i] <= '\u{7e}' || content[i]
                == '\n' || content[i] == '\r' || content[i] == '\t',
    ensures
        provider::generate_outcome(p, req, Ok(head), Some(bytes)) matches Ok(r) && r.content
            == seq![content],
{
    law_generation_succeeds(p, req, head, bytes, JsonTree::Object(m));
    documents::law_reply_text_is_returned(m, choices, choice, message, content, req.model);
    output::law_printable_ascii_is_kept(content);
}

/// A generation without budget, a request that does not get through and a status
/// that is no success each end the call, whatever would have followed.
pub proof fn law_failed_calls_end_early(
    p: ProviderModel,
    req: RequestModel,
    failure: SendFailure,
    head: ResponseHead,
    body: Option<Seq<u8>>,
)
    ensures
        req.max_output_tokens == 0 ==> provider::generate_outcome(p, req, Ok(head), body) == Err::<
            ResponseModel,
            ErrorModel,
        >(ErrorModel::BudgetExceeded) && provider::generate_outcome(p, req, Err(failure), body)
            == Err::<ResponseModel, ErrorModel>(ErrorModel::BudgetExceeded),
        req.max_output_tokens > 0 ==> provider::generate_outcome(p, req, Err(failure), body)
            == Err::<ResponseModel, ErrorModel>(provider::send_error(failure)),
        req.max_output_tokens > 0 && !(200 <= head.status <= 299) ==> (wire::status_error(
            head.status,
        ) matches Some(e) && provider::generate_outcome(p, req, Ok(head), body) == Err::<
            ResponseModel,
            ErrorModel,
        >(e)),
        provider::models_outcome(p, Err(failure), body).len() == 0,
        !(200 <= head.status <= 299) ==> provider::models_outcome(p, Ok(head), body).len() == 0,
{
}

/// What happens in a call stands for itself.
pub proof fn law_events_stand_for_all_they_hold(
    r: Result<ResponseHead, SendFailure>,
    bytes: Vec<u8>,
)
    ensures
        CallEvent::Start@ == EventModel::Start,
        CallEvent::Sent(r)@ == EventModel::Sent(r),
        CallEvent::Body(Some(bytes))@ == EventModel::Body(Some(bytes@)),
        CallEvent::Body(None)@ == EventModel::Body(None),
        provider::body_view(Some(bytes)) == Some(bytes@),
        provider::body_view(None) is None,
{
}

/// What is to be done in a call stands for itself.
pub proof fn law_actions_stand_for_all_they_hold(
    url: String,
    bearer: String,
    body: Json,
    limit: u64,
    resp: GenerationResponse,
    e: ProviderError,
    models: Vec<ModelDescriptor>,
    i: int,
)
    ensures
        (GenerateAction::Post { url, bearer, body })@ == (GenerateStep::Post {
            url: url@,
            bearer: bearer@,
            body: body@,
        }),
        (GenerateAction::ReadBody { limit })@ == (GenerateStep::ReadBody { limit }),
        GenerateAction::Finish(Ok(resp))@ == GenerateStep::Finish(Ok(resp@)),
        GenerateAction::Finish(Err(e))@ == GenerateStep::Finish(Err(e@)),
        (ModelsAction::Get { url, bearer })@ == (ModelsStep::Get { url: url@, bearer: bearer@ }),
        (ModelsAction::ReadBody { limit })@ == (ModelsStep::ReadBody { limit }),
        ModelsAction::Finish(models)@ matches ModelsStep::Finish(ds) && ds.len() == models@.len()
            && (0 <= i < models@.len() ==> ds[i] == models@[i]@),
{
}

} // verus!
