//! A session with the Codex app-server: its threads and turns, and what goes to the server.
use vstd::prelude::*;
use vstd::string::*;

use crate::agent::{text_context, OfferModel, ProviderModel, RequestModel, RuntimeAccess};
use crate::agent::{TurnAttachment, TurnAttachmentModel, TurnRequest};
use crate::codex::{
    answer_in, id_json, is_bare_of, routed, stands_under, CodexEvent, EventModel, IdModel,
    IncomingModel, RpcId,
};
use crate::json;
use crate::json::{field, field_bool, field_text, field_text_or, inner_text, items_in, text_in};
use crate::json::{Json, JsonModel};
use crate::text;
use crate::text::{decimal, decimals_differ};
use crate::views::{opt_view, views, views_index, views_push};
use crate::wire;
use crate::wire::ObjectBuilder;

verus! {

/// What an access is called when a thread is opened.
pub open spec fn sandbox_name(access: RuntimeAccess) -> Seq<char> {
    match access {
        RuntimeAccess::ReadOnly => "read-only"@,
        RuntimeAccess::WorkspaceWrite => "workspace-write"@,
        RuntimeAccess::FullAccess => "danger-full-access"@,
    }
}

/// See [`sandbox_name`].
pub fn sandbox_mode(access: RuntimeAccess) -> (r: &'static str)
    ensures
        r@ == sandbox_name(access),
{
    match access {
        RuntimeAccess::ReadOnly => "read-only",
        RuntimeAccess::WorkspaceWrite => "workspace-write",
        RuntimeAccess::FullAccess => "danger-full-access",
    }
}

/// What opens a thread: the directory, the model and the access, with approval on request.
pub open spec fn thread_params(cwd: Seq<char>, model: Seq<char>, access: RuntimeAccess) -> Map<
    Seq<char>,
    JsonModel,
> {
    map![
        "cwd"@ => JsonModel::Str(cwd),
        "runtimeWorkspaceRoots"@ => JsonModel::Array(seq![JsonModel::Str(cwd)]),
        "approvalPolicy"@ => JsonModel::Str("on-request"@),
        "sandbox"@ => JsonModel::Str(sandbox_name(access)),
        "model"@ => JsonModel::Str(model),
    ]
}

/// See [`thread_params`].
fn thread_builder(cwd: &str, model: &str, access: RuntimeAccess) -> (r: ObjectBuilder)
    ensures
        r@ == thread_params(cwd@, model@, access),
{
    ObjectBuilder::new().put("cwd", json::string(cwd)).put(
        "runtimeWorkspaceRoots",
        wire::array1(json::string(cwd)),
    ).put("approvalPolicy", json::string("on-request")).put(
        "sandbox",
        json::string(sandbox_mode(access)),
    ).put("model", json::string(model))
}

/// See [`thread_params`].
pub fn thread_start_params(cwd: &str, model: &str, access: RuntimeAccess) -> (r: Json)
    ensures
        r@ == JsonModel::Object(thread_params(cwd@, model@, access)),
{
    thread_builder(cwd, model, access).done()
}

/// What an access allows in a turn. The network is closed unless the access is full.
pub open spec fn policy_json(access: RuntimeAccess, cwd: Seq<char>) -> JsonModel {
    JsonModel::Object(
        match access {
            RuntimeAccess::ReadOnly => map![
                "type"@ => JsonModel::Str("readOnly"@),
                "networkAccess"@ => JsonModel::Bool(false),
            ],
            RuntimeAccess::WorkspaceWrite => map![
                "type"@ => JsonModel::Str("workspaceWrite"@),
                "writableRoots"@ => JsonModel::Array(seq![JsonModel::Str(cwd)]),
                "networkAccess"@ => JsonModel::Bool(false),
                "excludeSlashTmp"@ => JsonModel::Bool(false),
                "excludeTmpdirEnvVar"@ => JsonModel::Bool(false),
            ],
            RuntimeAccess::FullAccess => map!["type"@ => JsonModel::Str("dangerFullAccess"@)],
        },
    )
}

/// See [`policy_json`].
pub fn sandbox_policy(access: RuntimeAccess, cwd: &str) -> (r: Json)
    ensures
        r@ == policy_json(access, cwd@),
{
    match access {
        RuntimeAccess::ReadOnly => ObjectBuilder::new().put("type", json::string("readOnly")).put(
            "networkAccess",
            Json::Bool(false),
        ).done(),
        RuntimeAccess::WorkspaceWrite => ObjectBuilder::new().put(
            "type",
            json::string("workspaceWrite"),
        ).put("writableRoots", wire::array1(json::string(cwd))).put(
            "networkAccess",
            Json::Bool(false),
        ).put("excludeSlashTmp", Json::Bool(false)).put("excludeTmpdirEnvVar", Json::Bool(false)).done(),
        RuntimeAccess::FullAccess => ObjectBuilder::new().put(
            "type",
            json::string("dangerFullAccess"),
        ).done(),
    }
}

/// A text as input of a turn.
pub open spec fn text_input(s: Seq<char>) -> JsonModel {
    JsonModel::Object(
        map![
            "type"@ => JsonModel::Str("text"@),
            "text"@ => JsonModel::Str(s),
            "text_elements"@ => JsonModel::Array(Seq::empty()),
        ],
    )
}

/// See [`text_input`].
fn text_json(s: &str) -> (r: Json)
    ensures
        r@ == text_input(s@),
{
    ObjectBuilder::new().put("type", json::string("text")).put("text", json::string(s)).put(
        "text_elements",
        Json::Array(Vec::new()),
    ).done()
}

/// An attachment as input of a turn.
pub open spec fn attachment_input(a: TurnAttachmentModel) -> JsonModel {
    match a {
        TurnAttachmentModel::GitDiff { .. } => text_input(
            match text_context(a) {
                Some(s) => s,
                None => Seq::empty(),
            },
        ),
        TurnAttachmentModel::Image { path } => JsonModel::Object(
            map!["type"@ => JsonModel::Str("localImage"@), "path"@ => JsonModel::Str(path)],
        ),
    }
}

/// See [`attachment_input`].
fn attachment_json(a: &TurnAttachment) -> (r: Json)
    ensures
        r@ == attachment_input(a@),
{
    match a {
        TurnAttachment::GitDiff { .. } => {
            let context = match a.as_text_context() {
                Some(s) => s,
                None => String::new(),
            };
            text_json(context.as_str())
        },
        TurnAttachment::Image { path } => ObjectBuilder::new().put(
            "type",
            json::string("localImage"),
        ).put("path", json::string(path.as_str())).done(),
    }
}

/// The inputs of a turn: the prompt, then the attachments in order.
pub open spec fn inputs_of(request: RequestModel) -> Seq<JsonModel> {
    seq![text_input(request.prompt)] + request.attachments.map_values(
        |a: TurnAttachmentModel| attachment_input(a),
    )
}

/// See [`inputs_of`].
pub fn turn_inputs(request: &TurnRequest) -> (r: Vec<Json>)
    ensures
        views(r@) == inputs_of(request@),
{
    broadcast use {views_push, views_index};

    let ghost all = inputs_of(request@);
    let mut r: Vec<Json> = Vec::new();
    let first = text_json(request.prompt.as_str());
    assert(r@.push(first).drop_last() =~= r@);
    r.push(first);
    let mut i: usize = 0;
    assert(views(r@) =~= all.take(1));
    while i < request.attachments.len()
        invariant
            all == inputs_of(request@),
            i <= request.attachments.len(),
            views(r@) == all.take(i + 1),
        decreases request.attachments.len() - i,
    {
        let input = attachment_json(&request.attachments[i]);
        assert(r@.push(input).drop_last() =~= r@);
        assert(all[i + 1] == input@);
        assert(all.take(i + 2) =~= all.take(i + 1).push(input@));
        r.push(input);
        i = i + 1;
    }
    assert(all.take(i + 1) =~= all);
    r
}

/// What starts a turn.
pub open spec fn turn_params(thread_id: Seq<char>, request: RequestModel, cwd: Seq<char>) -> JsonModel {
    params_with(thread_id, request, inputs_of(request), cwd)
}

/// What starts a turn with a given input.
pub open spec fn params_with(
    thread_id: Seq<char>,
    request: RequestModel,
    input: Seq<JsonModel>,
    cwd: Seq<char>,
) -> JsonModel {
    JsonModel::Object(
        map![
            "threadId"@ => JsonModel::Str(thread_id),
            "input"@ => JsonModel::Array(input),
            "approvalPolicy"@ => JsonModel::Str("on-request"@),
            "sandboxPolicy"@ => policy_json(request.access, cwd),
            "model"@ => JsonModel::Str(request.model),
            "cwd"@ => JsonModel::Str(cwd),
            "runtimeWorkspaceRoots"@ => JsonModel::Array(seq![JsonModel::Str(cwd)]),
        ],
    )
}

/// See [`params_with`].
pub fn turn_start_params(thread_id: &str, request: &TurnRequest, input: Vec<Json>, cwd: &str) -> (r:
    Json)
    ensures
        r@ == params_with(thread_id@, request@, views(input@), cwd@),
{
    proof {
        json::models_are_views(input@);
    }
    ObjectBuilder::new().put("threadId", json::string(thread_id)).put(
        "input",
        Json::Array(input),
    ).put("approvalPolicy", json::string("on-request")).put(
        "sandboxPolicy",
        sandbox_policy(request.access, cwd),
    ).put("model", json::string(request.model.as_str())).put("cwd", json::string(cwd)).put(
        "runtimeWorkspaceRoots",
        wire::array1(json::string(cwd)),
    ).done()
}

/// The model that an item of a model list offers.
pub open spec fn offer_in(item: JsonModel) -> Option<OfferModel> {
    let id = match field(item, "model"@) {
        Some(v) => text_in(v),
        None => field_text(item, "id"@),
    };
    match id {
        None => None,
        Some(id) => Some(
            OfferModel {
                id,
                display_name: field_text_or(item, "displayName"@, "Codex model"@),
                description: field_text_or(item, "description"@, ""@),
                is_default: field_bool(item, "isDefault"@) == Some(true),
                supports_images: match field(item, "inputModalities"@) {
                    Some(v) => match items_in(v) {
                        Some(items) => items.contains(JsonModel::Str("image"@)),
                        None => false,
                    },
                    None => false,
                },
            },
        ),
    }
}

/// Whether a text is among items.
fn holds_text(items: &Vec<Json>, s: &str) -> (r: bool)
    ensures
        r == views(items@).contains(JsonModel::Str(s@)),
{
    let mut i: usize = 0;
    while i < items.len()
        invariant
            i <= items.len(),
            forall|k: int| 0 <= k < i ==> views(items@)[k] != JsonModel::Str(s@),
        decreases items.len() - i,
    {
        assert(views(items@)[i as int] == items@[i as int]@);
        match items[i].as_str() {
            Some(t) => {
                if text::same(t, s) {
                    return true;
                }
            },
            None => {},
        }
        i = i + 1;
    }
    false
}

/// See [`offer_in`].
fn parse_model(item: &Json) -> (r: Option<ProviderModel>)
    ensures
        opt_view(r) == offer_in(item@),
{
    let id = match item.get("model") {
        Some(v) => match v.as_str() {
            Some(s) => Some(s.to_owned()),
            None => None,
        },
        None => item.get_string("id"),
    };
    match id {
        None => None,
        Some(id) => {
            let is_default = match item.get_bool("isDefault") {
                Some(b) => b,
                None => false,
            };
            let supports_images = match item.get("inputModalities") {
                Some(v) => match v.as_array() {
                    Some(items) => holds_text(items, "image"),
                    None => false,
                },
                None => false,
            };
            Some(
                ProviderModel {
                    id,
                    display_name: item.get_string_or("displayName", "Codex model"),
                    description: item.get_string_or("description", ""),
                    is_default,
                    supports_images,
                },
            )
        },
    }
}

/// The models that items offer, if all of them can be read.
pub open spec fn offers_in(items: Seq<JsonModel>) -> Option<Seq<OfferModel>>
    decreases items.len(),
{
    if items.len() == 0 {
        Some(Seq::empty())
    } else {
        match (offers_in(items.drop_last()), offer_in(items.last())) {
            (Some(head), Some(last)) => Some(head.push(last)),
            _ => None,
        }
    }
}

/// The models that a page of a model list offers.
pub open spec fn models_in(result: JsonModel) -> Result<Seq<OfferModel>, Seq<char>> {
    let data = match field(result, "data"@) {
        Some(v) => items_in(v),
        None => None,
    };
    match data {
        None => Err("model/list response did not include data"@),
        Some(items) => match offers_in(items) {
            Some(models) => Ok(models),
            None => Err("model/list item did not include a model id"@),
        },
    }
}

/// Items cannot all be read where those of a prefix cannot.
proof fn prefix_unreadable(items: Seq<JsonModel>, n: int)
    requires
        0 <= n <= items.len(),
        offers_in(items.take(n)) is None,
    ensures
        offers_in(items) is None,
    decreases items.len(),
{
    if n == items.len() {
        assert(items.take(n) =~= items);
    } else {
        assert(items.drop_last().take(n) =~= items.take(n));
        prefix_unreadable(items.drop_last(), n);
    }
}

/// See [`models_in`].
pub fn parse_models(result: &Json) -> (r: Result<Vec<ProviderModel>, String>)
    ensures
        match r {
            Ok(models) => models_in(result@) == Ok::<Seq<OfferModel>, Seq<char>>(views(models@)),
            Err(e) => models_in(result@) == Err::<Seq<OfferModel>, Seq<char>>(e@),
        },
{
    broadcast use {views_push, views_index};

    let data = match result.get("data") {
        Some(v) => v.as_array(),
        None => None,
    };
    match data {
        None => Err("model/list response did not include data".to_owned()),
        Some(items) => {
            let ghost all = views(items@);
            let mut models: Vec<ProviderModel> = Vec::new();
            let mut i: usize = 0;
            assert(views(models@) =~= Seq::<OfferModel>::empty());
            while i < items.len()
                invariant
                    all == views(items@),
                    i <= items.len(),
                    models_in(result@) == (match offers_in(all) {
                        Some(models) => Ok::<Seq<OfferModel>, Seq<char>>(models),
                        None => Err("model/list item did not include a model id"@),
                    }),
                    offers_in(all.take(i as int)) == Some(views(models@)),
                decreases items.len() - i,
            {
                assert(all.take(i + 1).drop_last() =~= all.take(i as int));
                match parse_model(&items[i]) {
                    Some(model) => {
                        models.push(model);
                    },
                    None => {
                        proof {
                            prefix_unreadable(all, i + 1);
                        }
                        return Err("model/list item did not include a model id".to_owned());
                    },
                }
                i = i + 1;
            }
            assert(all.take(i as int) =~= all);
            Ok(models)
        },
    }
}

/// What to ask next while the models are listed, or how the listing ended.
pub enum ModelStep {
    /// Ask for a page with these parameters.
    Ask(Json),
    Done(Result<Vec<ProviderModel>, String>),
}

/// The value of a `ModelStep`.
#[verifier::ext_equal]
pub enum ModelStepModel {
    Ask(JsonModel),
    Done(Result<Seq<OfferModel>, Seq<char>>),
}

impl View for ModelStep {
    type V = ModelStepModel;

    open spec fn view(&self) -> ModelStepModel {
        match self {
            ModelStep::Ask(params) => ModelStepModel::Ask(params@),
            ModelStep::Done(r) => ModelStepModel::Done(
                match r {
                    Ok(models) => Ok(views(models@)),
                    Err(e) => Err(e@),
                },
            ),
        }
    }
}

/// The question for the page of the model list at a cursor.
pub open spec fn page_params(cursor: Option<Seq<char>>) -> JsonModel {
    JsonModel::Object(
        map![
            "cursor"@ => match cursor {
                Some(c) => JsonModel::Str(c),
                None => JsonModel::Null,
            },
            "includeHidden"@ => JsonModel::Bool(false),
            "limit"@ => JsonModel::Int(100),
        ],
    )
}

/// See [`page_params`].
fn page_json(cursor: Option<String>) -> (r: Json)
    ensures
        r@ == page_params(opt_view(cursor)),
{
    let cursor = match cursor {
        Some(c) => Json::Str(c),
        None => Json::Null,
    };
    ObjectBuilder::new().put("cursor", cursor).put("includeHidden", Json::Bool(false)).put(
        "limit",
        Json::Int(100),
    ).done()
}

/// The models of all pages so far.
pub open spec fn paged_models(pages: Seq<JsonModel>) -> Result<Seq<OfferModel>, Seq<char>>
    decreases pages.len(),
{
    if pages.len() == 0 {
        Ok(Seq::empty())
    } else {
        match (paged_models(pages.drop_last()), models_in(pages.last())) {
            (Err(e), _) => Err(e),
            (Ok(_), Err(e)) => Err(e),
            (Ok(head), Ok(more)) => Ok(head + more),
        }
    }
}

/// Listing the models: what to ask next after the pages so far. The listing ends with the page
/// that names no next one.
pub open spec fn model_step(pages: Seq<JsonModel>) -> ModelStepModel {
    if pages.len() == 0 {
        ModelStepModel::Ask(page_params(None))
    } else {
        match paged_models(pages) {
            Err(e) => ModelStepModel::Done(Err(e)),
            Ok(models) => match field_text(pages.last(), "nextCursor"@) {
                Some(cursor) => ModelStepModel::Ask(page_params(Some(cursor))),
                None => ModelStepModel::Done(Ok(models)),
            },
        }
    }
}

/// The first page that cannot be read decides how the listing ends.
proof fn failed_page_decides(pages: Seq<JsonModel>, n: int)
    requires
        0 <= n <= pages.len(),
        paged_models(pages.take(n)) is Err,
    ensures
        paged_models(pages) == paged_models(pages.take(n)),
    decreases pages.len(),
{
    if n == pages.len() {
        assert(pages.take(n) =~= pages);
    } else {
        assert(pages.drop_last().take(n) =~= pages.take(n));
        failed_page_decides(pages.drop_last(), n);
    }
}

/// The answer to a request, as far as the waiting for it goes.
pub enum Answer {
    Result(Json),
    Error(String),
    TimedOut,
    Disconnected,
}

/// The value of an `Answer`.
#[verifier::ext_equal]
pub enum AnswerModel {
    Result(JsonModel),
    Error(Seq<char>),
    TimedOut,
    Disconnected,
}

impl View for Answer {
    type V = AnswerModel;

    open spec fn view(&self) -> AnswerModel {
        match self {
            Answer::Result(j) => AnswerModel::Result(j@),
            Answer::Error(e) => AnswerModel::Error(e@),
            Answer::TimedOut => AnswerModel::TimedOut,
            Answer::Disconnected => AnswerModel::Disconnected,
        }
    }
}

/// What a request came to.
pub open spec fn outcome_of(method: Seq<char>, answer: AnswerModel) -> Result<JsonModel, Seq<char>> {
    match answer {
        AnswerModel::Result(j) => Ok(j),
        AnswerModel::Error(e) => Err("Codex "@ + method + " failed: "@ + e),
        AnswerModel::TimedOut => Err("Codex "@ + method + " timed out"@),
        AnswerModel::Disconnected => Err(
            "Codex app-server exited while waiting for "@ + method,
        ),
    }
}

/// See [`outcome_of`].
pub fn request_outcome(method: &str, answer: Answer) -> (r: Result<Json, String>)
    ensures
        match r {
            Ok(j) => outcome_of(method@, answer@) == Ok::<JsonModel, Seq<char>>(j@),
            Err(e) => outcome_of(method@, answer@) == Err::<JsonModel, Seq<char>>(e@),
        },
{
    match answer {
        Answer::Result(j) => Ok(j),
        Answer::Error(e) => {
            let mut why = text::concat3("Codex ", method, " failed: ");
            why.append(e.as_str());
            Err(why)
        },
        Answer::TimedOut => Err(text::concat3("Codex ", method, " timed out")),
        Answer::Disconnected => Err(
            text::concat("Codex app-server exited while waiting for ", method),
        ),
    }
}

/// What the program says of itself when a session begins.
pub open spec fn initialize_params(version: Seq<char>) -> JsonModel {
    JsonModel::Object(
        map![
            "clientInfo"@ => JsonModel::Object(
                map![
                    "name"@ => JsonModel::Str("rode"@),
                    "title"@ => JsonModel::Str("Rode"@),
                    "version"@ => JsonModel::Str(version),
                ],
            ),
            "capabilities"@ => JsonModel::Object(
                map![
                    "experimentalApi"@ => JsonModel::Bool(true),
                    "requestAttestation"@ => JsonModel::Bool(false),
                ],
            ),
        ],
    )
}

/// See [`initialize_params`].
pub fn session_initialize_params(version: &str) -> (r: Json)
    ensures
        r@ == initialize_params(version@),
{
    let info = ObjectBuilder::new().put("name", json::string("rode")).put(
        "title",
        json::string("Rode"),
    ).put("version", json::string(version)).done();
    let capabilities = ObjectBuilder::new().put("experimentalApi", Json::Bool(true)).put(
        "requestAttestation",
        Json::Bool(false),
    ).done();
    ObjectBuilder::new().put("clientInfo", info).put("capabilities", capabilities).done()
}

/// A notification to the server.
pub open spec fn notification_json(method: Seq<char>, params: Option<JsonModel>) -> JsonModel {
    let bare = map!["method"@ => JsonModel::Str(method)];
    JsonModel::Object(
        match params {
            Some(p) => bare.insert("params"@, p),
            None => bare,
        },
    )
}

/// See [`notification_json`].
pub fn notify_message(method: &str, params: Option<Json>) -> (r: Json)
    ensures
        r@ == notification_json(method@, opt_view(params)),
{
    let bare = ObjectBuilder::new().put("method", json::string(method));
    match params {
        Some(p) => bare.put("params", p).done(),
        None => bare.done(),
    }
}

/// What is known of a session.
#[verifier::ext_equal]
pub struct SessionModel {
    /// The thread that is open; empty before one is.
    pub thread_id: Seq<char>,
    pub active_turn_id: Option<Seq<char>>,
    pub cwd: Seq<char>,
    /// The id of the next request.
    pub next_id: u64,
}

/// A session with the server.
pub struct CodexSession {
    thread: String,
    active_turn_id: Option<String>,
    cwd: String,
    next_id: u64,
}

impl View for CodexSession {
    type V = SessionModel;

    closed spec fn view(&self) -> SessionModel {
        SessionModel {
            thread_id: self.thread@,
            active_turn_id: opt_view(self.active_turn_id),
            cwd: self.cwd@,
            next_id: self.next_id,
        }
    }
}

/// A request to the server.
pub open spec fn request_json(id: u64, method: Seq<char>, params: JsonModel) -> JsonModel {
    JsonModel::Object(
        map![
            "id"@ => JsonModel::Int(id as int),
            "method"@ => JsonModel::Str(method),
            "params"@ => params,
        ],
    )
}

/// The open thread, or why there is none.
pub open spec fn open_thread(s: SessionModel) -> Result<Seq<char>, Seq<char>> {
    if s.thread_id.len() == 0 {
        Err("Codex session has not opened a thread"@)
    } else {
        Ok(s.thread_id)
    }
}

/// The thread and the model of the answer to the opening of a thread. Without a model in the
/// answer it is the one that was asked for.
pub open spec fn opened_thread(response: JsonModel, asked: Seq<char>) -> Option<(
    Seq<char>,
    Seq<char>,
)> {
    let inner = match field(response, "thread"@) {
        Some(thread) => field(thread, "model"@),
        None => None,
    };
    let model = match (match inner {
        Some(v) => Some(v),
        None => field(response, "model"@),
    }) {
        Some(v) => text_in(v),
        None => None,
    };
    match inner_text(response, "thread"@, "id"@) {
        Some(id) => Some(
            (
                id,
                match model {
                    Some(m) => m,
                    None => asked,
                },
            ),
        ),
        None => None,
    }
}

/// Why a turn may not start in a session, if it may not: it must be for the open thread and for
/// the session's directory, and full access must be confirmed.
pub open spec fn turn_refusal(s: SessionModel, request: RequestModel, cwd: Seq<char>) -> Option<Seq<char>> {
    if s.thread_id.len() == 0 {
        Some("Codex session has not opened a thread"@)
    } else if request.provider_thread_id matches Some(id) && id != s.thread_id {
        Some("turn request targets a different Codex provider thread"@)
    } else if cwd != s.cwd {
        Some("turn request targets a different workspace"@)
    } else if request.access == RuntimeAccess::FullAccess && !request.full_access_confirmed {
        Some("full access was not confirmed for this turn request"@)
    } else {
        None
    }
}

/// The answer to a request for approval.
pub open spec fn approval_answer(id: IdModel, decision: Seq<char>) -> JsonModel {
    JsonModel::Object(
        map![
            "id"@ => id_json(id),
            "result"@ => JsonModel::Object(map!["decision"@ => JsonModel::Str(decision)]),
        ],
    )
}

/// The method and the parameters that open a thread: a new one, or one to go on with.
pub open spec fn opening(
    s: SessionModel,
    resume: Option<Seq<char>>,
    model: Seq<char>,
    access: RuntimeAccess,
) -> (Seq<char>, JsonModel) {
    let params = thread_params(s.cwd, model, access);
    match resume {
        Some(id) => (
            "thread/resume"@,
            JsonModel::Object(params.insert("threadId"@, JsonModel::Str(id))),
        ),
        None => ("thread/start"@, JsonModel::Object(params)),
    }
}

/// The text that an optional reference is.
pub open spec fn opt_text(o: Option<&str>) -> Option<Seq<char>> {
    match o {
        Some(s) => Some(s@),
        None => None,
    }
}

/// The session after a thread was opened, and the event that tells so.
pub open spec fn thread_opened(s: SessionModel, response: JsonModel, asked: Seq<char>) -> (
    SessionModel,
    Option<EventModel>,
) {
    match opened_thread(response, asked) {
        Some((thread_id, model)) => (
            SessionModel { thread_id, ..s },
            Some(EventModel::SessionReady { thread_id, model }),
        ),
        None => (s, None),
    }
}

/// The session after a turn was started, and the id of the turn.
pub open spec fn turn_taken(s: SessionModel, response: JsonModel) -> (SessionModel, Option<Seq<char>>) {
    match inner_text(response, "turn"@, "id"@) {
        Some(id) => (SessionModel { active_turn_id: Some(id), ..s }, Some(id)),
        None => (s, None),
    }
}

/// What interrupts the turn that runs, where one does.
pub open spec fn interruption(s: SessionModel) -> Option<JsonModel> {
    match s.active_turn_id {
        Some(turn_id) => if s.thread_id.len() == 0 {
            None
        } else {
            Some(
                JsonModel::Object(
                    map![
                        "threadId"@ => JsonModel::Str(s.thread_id),
                        "turnId"@ => JsonModel::Str(turn_id),
                    ],
                ),
            )
        },
        None => None,
    }
}

/// What is sent to start a turn, where it may start.
pub open spec fn turn_sent(s: SessionModel, request: RequestModel, cwd: Seq<char>) -> Option<JsonModel> {
    match turn_refusal(s, request, cwd) {
        Some(_) => None,
        None => Some(turn_params(s.thread_id, request, cwd)),
    }
}

/// A session in a directory, before a thread is open.
pub open spec fn connected(cwd: Seq<char>) -> SessionModel {
    SessionModel { thread_id: Seq::empty(), active_turn_id: None, cwd, next_id: 1 }
}

impl CodexSession {
    /// A session in a directory, before a thread is open.
    pub fn connect(cwd: &str) -> (r: Self)
        ensures
            r@ == connected(cwd@),
            r@ == (SessionModel {
                thread_id: Seq::empty(),
                active_turn_id: None,
                cwd: cwd@,
                next_id: 1,
            }),
    {
        CodexSession { thread: String::new(), active_turn_id: None, cwd: cwd.to_owned(), next_id: 1 }
    }

    /// The next request: the key under which its answer is waited for, and the message.
    pub fn request(&mut self, method: &str, params: Json) -> (r: (String, Json))
        ensures
            r.0@ == decimal(old(self)@.next_id as nat),
            r.1@ == request_json(old(self)@.next_id, method@, params@),
            final(self)@ == (SessionModel {
                next_id: if old(self)@.next_id == u64::MAX {
                    0
                } else {
                    (old(self)@.next_id + 1) as u64
                },
                ..old(self)@
            }),
    {
        let id: u64 = self.next_id;
        self.next_id = id.wrapping_add(1);
        let message = ObjectBuilder::new().put("id", Json::Uint(id)).put(
            "method",
            json::string(method),
        ).put("params", params).done();
        (text::number(id, 10), message)
    }

    /// The method and the parameters that open a thread: a new one, or one to go on with.
    pub fn start(&self, resume_thread_id: Option<&str>, model: &str, access: RuntimeAccess) -> (r: (
        &'static str,
        Json,
    ))
        ensures
            match resume_thread_id {
                Some(id) => r.0@ == "thread/resume"@ && r.1@ == JsonModel::Object(
                    thread_params(self@.cwd, model@, access).insert(
                        "threadId"@,
                        JsonModel::Str(id@),
                    ),
                ),
                None => r.0@ == "thread/start"@ && r.1@ == JsonModel::Object(
                    thread_params(self@.cwd, model@, access),
                ),
            },
            (r.0@, r.1@) == opening(self@, opt_text(resume_thread_id), model@, access),
    {
        let params = thread_builder(self.cwd.as_str(), model, access);
        match resume_thread_id {
            Some(id) => ("thread/resume", params.put("threadId", json::string(id)).done()),
            None => ("thread/start", params.done()),
        }
    }

    /// Takes in the answer to the opening of a thread.
    pub fn opened(&mut self, response: &Json, model: &str) -> (r: Result<CodexEvent, String>)
        ensures
            match opened_thread(response@, model@) {
                Some((thread_id, model)) => {
                    &&& r matches Ok(event)
                    &&& event@ == EventModel::SessionReady { thread_id, model }
                    &&& final(self)@ == (SessionModel { thread_id, ..old(self)@ })
                },
                None => {
                    &&& r matches Err(e)
                    &&& e@ == "thread/start response did not include thread.id"@
                    &&& final(self)@ == old(self)@
                },
            },
            final(self)@ == thread_opened(old(self)@, response@, model@).0,
            match r {
                Ok(event) => thread_opened(old(self)@, response@, model@).1 == Some(event@),
                Err(_) => thread_opened(old(self)@, response@, model@).1 is None,
            },
    {
        let inner = match response.get("thread") {
            Some(thread) => thread.get("model"),
            None => None,
        };
        let named = match inner {
            Some(v) => Some(v),
            None => response.get("model"),
        };
        let model = match named {
            Some(v) => match v.as_str() {
                Some(s) => s.to_owned(),
                None => model.to_owned(),
            },
            None => model.to_owned(),
        };
        match response.get_inner_string("thread", "id") {
            Some(thread_id) => {
                self.thread = thread_id.clone();
                Ok(CodexEvent::SessionReady { thread_id, model })
            },
            None => Err("thread/start response did not include thread.id".to_owned()),
        }
    }

    /// The parameters that start a turn, where it may start. `request_cwd` is the directory of
    /// the request without links in it.
    pub fn start_turn(&self, request: &TurnRequest, request_cwd: &str) -> (r: Result<Json, String>)
        ensures
            match turn_refusal(self@, request@, request_cwd@) {
                Some(why) => r matches Err(e) && e@ == why,
                None => r matches Ok(params) && params@ == turn_params(
                    self@.thread_id,
                    request@,
                    request_cwd@,
                ),
            },
            match r {
                Ok(params) => turn_sent(self@, request@, request_cwd@) == Some(params@),
                Err(_) => turn_sent(self@, request@, request_cwd@) is None,
            },
    {
        if self.thread.as_str().is_empty() {
            return Err("Codex session has not opened a thread".to_owned());
        }
        if let Some(id) = &request.provider_thread_id {
            if !text::same(id.as_str(), self.thread.as_str()) {
                return Err("turn request targets a different Codex provider thread".to_owned());
            }
        }
        if !text::same(request_cwd, self.cwd.as_str()) {
            return Err("turn request targets a different workspace".to_owned());
        }
        if request.access == RuntimeAccess::FullAccess && !request.full_access_confirmed {
            return Err("full access was not confirmed for this turn request".to_owned());
        }
        let input = turn_inputs(request);
        Ok(turn_start_params(self.thread.as_str(), request, input, request_cwd))
    }

    /// Takes in the answer to the start of a turn, and gives the turn's id.
    pub fn turn_started(&mut self, response: &Json) -> (r: Result<String, String>)
        ensures
            match inner_text(response@, "turn"@, "id"@) {
                Some(id) => {
                    &&& r matches Ok(turn_id)
                    &&& turn_id@ == id
                    &&& final(self)@ == (SessionModel { active_turn_id: Some(id), ..old(self)@ })
                },
                None => {
                    &&& r matches Err(e)
                    &&& e@ == "turn/start response did not include turn.id"@
                    &&& final(self)@ == old(self)@
                },
            },
            final(self)@ == turn_taken(old(self)@, response@).0,
            match r {
                Ok(id) => turn_taken(old(self)@, response@).1 == Some(id@),
                Err(_) => turn_taken(old(self)@, response@).1 is None,
            },
    {
        match response.get_inner_string("turn", "id") {
            Some(id) => {
                self.active_turn_id = Some(id.clone());
                Ok(id)
            },
            None => Err("turn/start response did not include turn.id".to_owned()),
        }
    }

    /// Listing the models: see [`model_step`].
    pub fn discover_models(pages: &Vec<Json>) -> (r: ModelStep)
        ensures
            r@ == model_step(views(pages@)),
    {
        broadcast use views_index;

        if pages.len() == 0 {
            return ModelStep::Ask(page_json(None));
        }
        let ghost all = views(pages@);
        let mut models: Vec<ProviderModel> = Vec::new();
        let mut i: usize = 0;
        assert(views(models@) =~= Seq::<OfferModel>::empty());
        while i < pages.len()
            invariant
                all == views(pages@),
                pages.len() > 0,
                i <= pages.len(),
                paged_models(all.take(i as int)) == Ok::<Seq<OfferModel>, Seq<char>>(
                    views(models@),
                ),
            decreases pages.len() - i,
        {
            assert(all.take(i + 1).drop_last() =~= all.take(i as int));
            match parse_models(&pages[i]) {
                Ok(more) => {
                    let mut more = more;
                    assert(views(models@ + more@) =~= views(models@) + views(more@));
                    models.append(&mut more);
                },
                Err(e) => {
                    proof {
                        failed_page_decides(all, i + 1);
                    }
                    return ModelStep::Done(Err(e));
                },
            }
            i = i + 1;
        }
        assert(all.take(i as int) =~= all);
        match pages[pages.len() - 1].get_string("nextCursor") {
            Some(cursor) => ModelStep::Ask(page_json(Some(cursor))),
            None => ModelStep::Done(Ok(models)),
        }
    }

    /// The parameters that interrupt the active turn; nothing where there is none.
    pub fn interrupt(&self) -> (r: Result<Option<Json>, String>)
        ensures
            match self@.active_turn_id {
                None => r matches Ok(None),
                Some(turn_id) => match open_thread(self@) {
                    Err(why) => r matches Err(e) && e@ == why,
                    Ok(thread_id) => r matches Ok(Some(params)) && params@ == JsonModel::Object(
                        map![
                            "threadId"@ => JsonModel::Str(thread_id),
                            "turnId"@ => JsonModel::Str(turn_id),
                        ],
                    ),
                },
            },
            match r {
                Ok(Some(params)) => interruption(self@) == Some(params@),
                _ => interruption(self@) is None,
            },
    {
        match &self.active_turn_id {
            None => Ok(None),
            Some(turn_id) => match self.thread_id() {
                Err(e) => Err(e),
                Ok(thread_id) => Ok(
                    Some(
                        ObjectBuilder::new().put("threadId", Json::Str(thread_id)).put(
                            "turnId",
                            json::string(turn_id.as_str()),
                        ).done(),
                    ),
                ),
            },
        }
    }

    /// See [`approval_answer`].
    pub fn respond_to_approval(request_id: &RpcId, decision: &str) -> (r: Json)
        ensures
            r@ == approval_answer(request_id@, decision@),
    {
        let result = ObjectBuilder::new().put("decision", json::string(decision)).done();
        ObjectBuilder::new().put("id", request_id.as_value()).put("result", result).done()
    }

    /// See [`open_thread`].
    pub fn thread_id(&self) -> (r: Result<String, String>)
        ensures
            match r {
                Ok(id) => open_thread(self@) == Ok::<Seq<char>, Seq<char>>(id@),
                Err(e) => open_thread(self@) == Err::<Seq<char>, Seq<char>>(e@),
            },
    {
        if self.thread.as_str().is_empty() {
            Err("Codex session has not opened a thread".to_owned())
        } else {
            Ok(self.thread.clone())
        }
    }
}

/// Full access is never used without the user's confirmation.
pub proof fn full_access_needs_confirmation(s: SessionModel, request: RequestModel, cwd: Seq<char>)
    requires
        request.access == RuntimeAccess::FullAccess,
        !request.full_access_confirmed,
    ensures
        turn_refusal(s, request, cwd) is Some,
{
}

/// A turn that may start runs with the model and the access of its request, in the directory
/// of its session: what is sent holds exactly these.
pub proof fn turns_keep_their_configuration(
    s: SessionModel,
    request: RequestModel,
    cwd: Seq<char>,
)
    requires
        turn_refusal(s, request, cwd) is None,
    ensures
        ({
            let params = turn_params(s.thread_id, request, cwd);
            &&& field_text(params, "model"@) == Some(request.model)
            &&& field(params, "sandboxPolicy"@) == Some(policy_json(request.access, s.cwd))
            &&& field_text(params, "cwd"@) == Some(s.cwd)
            &&& field_text(params, "threadId"@) == Some(s.thread_id)
            &&& field(params, "input"@) == Some(JsonModel::Array(inputs_of(request)))
        }),
{
    reveal_strlit("model");
    reveal_strlit("sandboxPolicy");
    reveal_strlit("cwd");
    reveal_strlit("threadId");
    reveal_strlit("input");
    reveal_strlit("approvalPolicy");
    reveal_strlit("runtimeWorkspaceRoots");
    assert("model"@.len() == 5 && "sandboxPolicy"@.len() == 13 && "cwd"@.len() == 3
        && "threadId"@.len() == 8 && "input"@.len() == 5 && "approvalPolicy"@.len() == 14
        && "runtimeWorkspaceRoots"@.len() == 21);
    assert("model"@[0] != "input"@[0]);
}

/// Whatever opens a thread or starts a turn has approval asked for.
pub proof fn approval_is_always_asked_for(
    thread_id: Seq<char>,
    request: RequestModel,
    input: Seq<JsonModel>,
    cwd: Seq<char>,
)
    ensures
        field_text(
            JsonModel::Object(thread_params(cwd, request.model, request.access)),
            "approvalPolicy"@,
        ) == Some("on-request"@),
        field_text(params_with(thread_id, request, input, cwd), "approvalPolicy"@) == Some(
            "on-request"@,
        ),
{
    reveal_strlit("model");
    reveal_strlit("sandbox");
    reveal_strlit("sandboxPolicy");
    reveal_strlit("cwd");
    reveal_strlit("approvalPolicy");
    reveal_strlit("runtimeWorkspaceRoots");
    assert("model"@.len() == 5 && "sandbox"@.len() == 7 && "sandboxPolicy"@.len() == 13
        && "cwd"@.len() == 3 && "approvalPolicy"@.len() == 14 && "runtimeWorkspaceRoots"@.len()
        == 21);
}

/// Without full access the network is shut, and what may be written is the working directory or
/// nothing.
pub proof fn policies_stay_in_the_workspace(access: RuntimeAccess, cwd: Seq<char>)
    requires
        access != RuntimeAccess::FullAccess,
    ensures
        field_bool(policy_json(access, cwd), "networkAccess"@) == Some(false),
        field(policy_json(access, cwd), "writableRoots"@) == (if access
            == RuntimeAccess::WorkspaceWrite {
            Some(JsonModel::Array(seq![JsonModel::Str(cwd)]))
        } else {
            None
        }),
{
    reveal_strlit("type");
    reveal_strlit("networkAccess");
    reveal_strlit("writableRoots");
    reveal_strlit("excludeSlashTmp");
    reveal_strlit("excludeTmpdirEnvVar");
    assert("type"@.len() == 4 && "networkAccess"@.len() == 13 && "writableRoots"@.len() == 13
        && "excludeSlashTmp"@.len() == 15 && "excludeTmpdirEnvVar"@.len() == 19);
    assert("networkAccess"@[0] != "writableRoots"@[0]);
}

/// An answer finds its request: what comes back under the id of a request is handed to whoever
/// waits under the key that the request gave, and no other request has that key. Ids above what a
/// signed number holds are not told back as numbers.
pub proof fn answers_find_their_request(s: SessionModel, answer: JsonModel, other: u64)
    requires
        s.next_id <= i64::MAX,
        field(answer, "id"@) == Some(JsonModel::Int(s.next_id as int)),
        field_text(answer, "method"@) is None,
        other != s.next_id,
    ensures
        routed(answer) == (IncomingModel::Response {
            key: decimal(s.next_id as nat),
            result: answer_in(answer),
        }),
        decimal(other as nat) != decimal(s.next_id as nat),
{
    decimals_differ(other as nat, s.next_id as nat);
}

/// The names of what is sent to the server are told apart.
proof fn names_differ()
    ensures
        "cwd"@.len() == 3,
        "runtimeWorkspaceRoots"@.len() == 21,
        "approvalPolicy"@.len() == 14,
        "sandbox"@.len() == 7,
        "model"@.len() == 5,
        "input"@.len() == 5,
        "threadId"@.len() == 8,
        "sandboxPolicy"@.len() == 13,
        "turnId"@.len() == 6,
        "id"@.len() == 2,
        "method"@.len() == 6,
        "params"@.len() == 6,
        "result"@.len() == 6,
        "error"@.len() == 5,
        "type"@.len() == 4,
        "text"@.len() == 4,
        "path"@.len() == 4,
        "text_elements"@.len() == 13,
        "method"@[0] == 'm',
        "params"@[0] == 'p',
        "result"@[0] == 'r',
        "model"@[0] == 'm',
        "input"@[0] == 'i',
        "type"@[1] == 'y',
        "text"@[1] == 'e',
        "path"@[1] == 'a',
{
    reveal_strlit("cwd");
    reveal_strlit("runtimeWorkspaceRoots");
    reveal_strlit("approvalPolicy");
    reveal_strlit("sandbox");
    reveal_strlit("model");
    reveal_strlit("input");
    reveal_strlit("threadId");
    reveal_strlit("sandboxPolicy");
    reveal_strlit("turnId");
    reveal_strlit("id");
    reveal_strlit("method");
    reveal_strlit("params");
    reveal_strlit("result");
    reveal_strlit("error");
    reveal_strlit("type");
    reveal_strlit("text");
    reveal_strlit("path");
    reveal_strlit("text_elements");
}

/// The answer to a request for approval goes back under the id of the request, with exactly the
/// decision that was made, and is an answer: no error and no request of its own.
pub proof fn decisions_are_sent_as_made(id: IdModel, decision: Seq<char>)
    ensures
        ({
            let message = approval_answer(id, decision);
            &&& stands_under(message, "id"@, id_json(id))
            &&& inner_text(message, "result"@, "decision"@) == Some(decision)
            &&& is_bare_of(message, "error"@)
            &&& is_bare_of(message, "method"@)
        }),
        forall|other: Seq<char>|
            other != decision ==> #[trigger] approval_answer(id, other) != approval_answer(
                id,
                decision,
            ),
{
    names_differ();
    assert forall|other: Seq<char>| other != decision implies #[trigger] approval_answer(id, other)
        != approval_answer(id, decision) by {
        assert(inner_text(approval_answer(id, other), "result"@, "decision"@) == Some(other));
        assert(inner_text(approval_answer(id, decision), "result"@, "decision"@) == Some(decision));
    }
}

/// A thread that is to be gone on with is resumed under its id, and without one a new thread is
/// started; either way in the directory of the session, with the model and the access asked for.
pub proof fn threads_are_opened_as_asked(
    s: SessionModel,
    resume: Option<Seq<char>>,
    model: Seq<char>,
    access: RuntimeAccess,
)
    ensures
        ({
            let (method, params) = opening(s, resume, model, access);
            &&& match resume {
                Some(id) => method == "thread/resume"@ && stands_under(
                    params,
                    "threadId"@,
                    JsonModel::Str(id),
                ),
                None => method == "thread/start"@ && is_bare_of(params, "threadId"@),
            }
            &&& stands_under(params, "cwd"@, JsonModel::Str(s.cwd))
            &&& stands_under(
                params,
                "runtimeWorkspaceRoots"@,
                JsonModel::Array(seq![JsonModel::Str(s.cwd)]),
            )
            &&& stands_under(params, "approvalPolicy"@, JsonModel::Str("on-request"@))
            &&& stands_under(params, "model"@, JsonModel::Str(model))
            &&& field_text(params, "sandbox"@) matches Some(sandbox) && {
                &&& access == RuntimeAccess::ReadOnly <==> sandbox == "read-only"@
                &&& access == RuntimeAccess::WorkspaceWrite <==> sandbox == "workspace-write"@
                &&& access == RuntimeAccess::FullAccess <==> sandbox == "danger-full-access"@
            }
        }),
{
    names_differ();
    reveal_strlit("read-only");
    reveal_strlit("workspace-write");
    reveal_strlit("danger-full-access");
    assert("read-only"@.len() == 9 && "workspace-write"@.len() == 15
        && "danger-full-access"@.len() == 18);
}

/// The session keeps the thread that the server opened, by its own id, and tells of it with the
/// model that the server named, or else with the one that was asked for. An answer without a
/// thread changes nothing.
pub proof fn opened_threads_are_kept(
    s: SessionModel,
    response: JsonModel,
    thread: JsonModel,
    id: Seq<char>,
    named: Seq<char>,
    asked: Seq<char>,
)
    ensures
        stands_under(response, "thread"@, thread) && stands_under(thread, "id"@, JsonModel::Str(id))
            ==> {
            let (t, event) = thread_opened(s, response, asked);
            &&& t == (SessionModel { thread_id: id, ..s })
            &&& event matches Some(EventModel::SessionReady { thread_id, model }) && thread_id == id
                && {
                &&& stands_under(thread, "model"@, JsonModel::Str(named)) ==> model == named
                &&& is_bare_of(thread, "model"@) && stands_under(
                    response,
                    "model"@,
                    JsonModel::Str(named),
                ) ==> model == named
                &&& is_bare_of(thread, "model"@) && is_bare_of(response, "model"@) ==> model == asked
            }
        },
        is_bare_of(response, "thread"@) ==> thread_opened(s, response, asked) == (
            s,
            None::<EventModel>,
        ),
{
}

/// The turn that the server started is the one that is interrupted, in the thread that is open;
/// without a turn nothing is.
pub proof fn interruptions_stop_the_turn_that_runs(
    s: SessionModel,
    response: JsonModel,
    turn: JsonModel,
    id: Seq<char>,
)
    requires
        s.thread_id.len() > 0,
        stands_under(response, "turn"@, turn),
        stands_under(turn, "id"@, JsonModel::Str(id)),
    ensures
        ({
            let (t, started) = turn_taken(s, response);
            &&& started == Some(id)
            &&& t.thread_id == s.thread_id && t.cwd == s.cwd && t.next_id == s.next_id
            &&& interruption(t) matches Some(params) && stands_under(
                params,
                "turnId"@,
                JsonModel::Str(id),
            ) && stands_under(params, "threadId"@, JsonModel::Str(s.thread_id))
        }),
        interruption(SessionModel { active_turn_id: None, ..s }) is None,
{
    names_differ();
}

/// What starts a turn holds the prompt first, word for word, and then the attachments in order:
/// an image by its path, a diff with its whole text.
pub proof fn turns_hold_what_the_user_gave(
    s: SessionModel,
    request: RequestModel,
    cwd: Seq<char>,
    i: int,
)
    requires
        turn_sent(s, request, cwd) is Some,
        0 <= i < request.attachments.len(),
    ensures
        turn_sent(s, request, cwd) matches Some(params) && field(params, "input"@) matches Some(
            JsonModel::Array(inputs),
        ) && {
            &&& inputs.len() == request.attachments.len() + 1
            &&& stands_under(inputs[0], "type"@, JsonModel::Str("text"@))
            &&& stands_under(inputs[0], "text"@, JsonModel::Str(request.prompt))
            &&& match request.attachments[i] {
                TurnAttachmentModel::Image { path } => stands_under(
                    inputs[i + 1],
                    "type"@,
                    JsonModel::Str("localImage"@),
                ) && stands_under(inputs[i + 1], "path"@, JsonModel::Str(path)),
                TurnAttachmentModel::GitDiff { text: diff } => stands_under(
                    inputs[i + 1],
                    "type"@,
                    JsonModel::Str("text"@),
                ) && (field_text(inputs[i + 1], "text"@) matches Some(given) && text::has_part(
                    given,
                    diff,
                )),
            }
        },
{
    names_differ();
    let inputs = inputs_of(request);
    let params = turn_params(s.thread_id, request, cwd);
    assert(field(params, "input"@) == Some(JsonModel::Array(inputs)));
    assert(inputs[i + 1] == attachment_input(request.attachments[i]));
    if let TurnAttachmentModel::GitDiff { text: diff } = request.attachments[i] {
        text::parts_are_held(
            "The user attached the current Git diff as context:\n<git_diff>\n"@,
            diff,
            "\n</git_diff>"@,
        );
    }
}

/// A turn without attachments is the prompt alone, and it goes to the thread that is open, in the
/// directory of the session, with the model and the access of its request.
pub proof fn prompts_are_sent_word_for_word(s: SessionModel, request: RequestModel, cwd: Seq<char>)
    ensures
        turn_sent(s, request, cwd) is Some <==> s.thread_id.len() > 0 && (
        request.provider_thread_id matches Some(id) ==> id == s.thread_id) && cwd == s.cwd && (
        request.access == RuntimeAccess::FullAccess ==> request.full_access_confirmed),
        turn_sent(s, request, cwd) matches Some(params) ==> {
            &&& stands_under(params, "threadId"@, JsonModel::Str(s.thread_id))
            &&& stands_under(params, "cwd"@, JsonModel::Str(s.cwd))
            &&& stands_under(params, "model"@, JsonModel::Str(request.model))
            &&& stands_under(
                params,
                "runtimeWorkspaceRoots"@,
                JsonModel::Array(seq![JsonModel::Str(s.cwd)]),
            )
            &&& field(params, "input"@) matches Some(JsonModel::Array(inputs)) && {
                &&& inputs.len() == request.attachments.len() + 1
                &&& stands_under(inputs[0], "type"@, JsonModel::Str("text"@))
                &&& stands_under(inputs[0], "text"@, JsonModel::Str(request.prompt))
            }
            &&& field(params, "sandboxPolicy"@) matches Some(policy) && field_text(
                policy,
                "type"@,
            ) == Some(
                match request.access {
                    RuntimeAccess::ReadOnly => "readOnly"@,
                    RuntimeAccess::WorkspaceWrite => "workspaceWrite"@,
                    RuntimeAccess::FullAccess => "dangerFullAccess"@,
                },
            )
        },
{
    names_differ();
    reveal_strlit("networkAccess");
    reveal_strlit("writableRoots");
    reveal_strlit("excludeSlashTmp");
    reveal_strlit("excludeTmpdirEnvVar");
    assert("networkAccess"@.len() == 13 && "writableRoots"@.len() == 13 && "excludeSlashTmp"@.len()
        == 15 && "excludeTmpdirEnvVar"@.len() == 19);
}

/// A request goes out with its id, its method and its parameters, and a notification without an
/// id: the server can tell them apart, and reads back what was meant.
pub proof fn requests_say_what_is_asked(
    id: u64,
    method: Seq<char>,
    params: JsonModel,
    version: Seq<char>,
)
    ensures
        stands_under(request_json(id, method, params), "id"@, JsonModel::Int(id as int)),
        stands_under(request_json(id, method, params), "method"@, JsonModel::Str(method)),
        stands_under(request_json(id, method, params), "params"@, params),
        is_bare_of(notification_json(method, Some(params)), "id"@),
        stands_under(notification_json(method, Some(params)), "method"@, JsonModel::Str(method)),
        stands_under(notification_json(method, Some(params)), "params"@, params),
        stands_under(notification_json(method, None), "method"@, JsonModel::Str(method)),
        is_bare_of(notification_json(method, None), "params"@),
        inner_text(initialize_params(version), "clientInfo"@, "version"@) == Some(version),
        inner_text(initialize_params(version), "clientInfo"@, "name"@) == Some("rode"@),
{
    names_differ();
    reveal_strlit("clientInfo");
    reveal_strlit("capabilities");
    reveal_strlit("name");
    reveal_strlit("title");
    reveal_strlit("version");
    assert("clientInfo"@.len() == 10 && "capabilities"@.len() == 12 && "name"@.len() == 4
        && "title"@.len() == 5 && "version"@.len() == 7);
}

/// A request comes to its result, or fails with the reason that was given, and the method is
/// named.
pub proof fn requests_come_to_their_answer(method: Seq<char>, result: JsonModel, why: Seq<char>)
    ensures
        outcome_of(method, AnswerModel::Result(result)) == Ok::<JsonModel, Seq<char>>(result),
        outcome_of(method, AnswerModel::Error(why)) matches Err(e) && text::has_part(e, why)
            && text::has_part(e, method),
        outcome_of(method, AnswerModel::TimedOut) matches Err(e) && text::has_part(e, method),
        outcome_of(method, AnswerModel::Disconnected) matches Err(e) && text::has_part(e, method),
{
    let none = Seq::<char>::empty();
    let e = "Codex "@ + method + " failed: "@ + why;
    text::parts_are_held("Codex "@ + method + " failed: "@, why, none);
    assert(e + none =~= e);
    text::parts_are_held("Codex "@, method, " failed: "@ + why);
    assert("Codex "@ + method + (" failed: "@ + why) =~= e);
    text::parts_are_held("Codex "@, method, " timed out"@);
    text::parts_are_held("Codex app-server exited while waiting for "@, method, none);
    assert("Codex app-server exited while waiting for "@ + method + none
        =~= "Codex app-server exited while waiting for "@ + method);
}

/// Every model of a page is listed, in order, with its id, its name and what it can do.
pub proof fn models_are_listed_as_offered(items: Seq<JsonModel>, i: int, id: Seq<char>, name: Seq<char>)
    requires
        0 <= i < items.len(),
    ensures
        offers_in(items) matches Some(models) ==> {
            &&& models.len() == items.len()
            &&& stands_under(items[i], "model"@, JsonModel::Str(id)) || (is_bare_of(
                items[i],
                "model"@,
            ) && stands_under(items[i], "id"@, JsonModel::Str(id))) ==> models[i].id == id
            &&& stands_under(items[i], "displayName"@, JsonModel::Str(name)) ==> models[i].display_name
                == name
            &&& stands_under(items[i], "description"@, JsonModel::Str(name)) ==> models[i].description
                == name
            &&& models[i].is_default <==> stands_under(items[i], "isDefault"@, JsonModel::Bool(true))
            &&& models[i].supports_images <==> exists|modes: Seq<JsonModel>|
                stands_under(items[i], "inputModalities"@, JsonModel::Array(modes))
                    && #[trigger] modes.contains(JsonModel::Str("image"@))
        },
{
    if offers_in(items) is Some {
        let models = offers_in(items)->0;
        offers_are_those_of_the_items(items, i);
        if models[i].supports_images {
            let modes = field(items[i], "inputModalities"@)->0->Array_0;
            assert(modes.contains(JsonModel::Str("image"@)));
        }
    }
}

proof fn offers_are_those_of_the_items(items: Seq<JsonModel>, i: int)
    requires
        offers_in(items) is Some,
        0 <= i < items.len(),
    ensures
        offers_in(items)->0.len() == items.len(),
        offer_in(items[i]) == Some(offers_in(items)->0[i]),
    decreases items.len(),
{
    let head = items.drop_last();
    if head.len() > 0 {
        offers_are_those_of_the_items(
            head,
            if i < head.len() {
                i
            } else {
                0
            },
        );
    } else {
        assert(offers_in(head) == Some(Seq::<OfferModel>::empty()));
    }
    let models = offers_in(items)->0;
    assert(models == offers_in(head)->0.push(offer_in(items.last())->0));
    if i < head.len() {
        assert(head[i] == items[i]);
    }
}

/// Listing the models goes on at the cursor that the last page named and ends with the page that
/// names none: what is listed then are the models of all pages, page after page.
pub proof fn models_of_all_pages_are_listed(pages: Seq<JsonModel>, cursor: Seq<char>)
    requires
        pages.len() > 0,
    ensures
        model_step(Seq::empty()) matches ModelStepModel::Ask(params) && stands_under(
            params,
            "cursor"@,
            JsonModel::Null,
        ),
        stands_under(pages.last(), "nextCursor"@, JsonModel::Str(cursor)) ==> match model_step(pages) {
            ModelStepModel::Ask(params) => stands_under(params, "cursor"@, JsonModel::Str(cursor)),
            ModelStepModel::Done(r) => r is Err,
        },
        is_bare_of(pages.last(), "nextCursor"@) || stands_under(
            pages.last(),
            "nextCursor"@,
            JsonModel::Null,
        ) ==> model_step(pages) is Done,
        model_step(pages) matches ModelStepModel::Done(Ok(models)) ==> {
            &&& models_in(pages.last()) matches Ok(last) && last.len() <= models.len()
                && models.skip(models.len() - last.len()) == last
            &&& pages.len() == 1 ==> models_in(pages[0]) == Ok::<Seq<OfferModel>, Seq<char>>(models)
            &&& paged_models(pages.drop_last()) matches Ok(before) && before.len() <= models.len()
                && models.take(before.len() as int) == before
        },
{
    reveal_strlit("cursor");
    reveal_strlit("includeHidden");
    reveal_strlit("limit");
    assert("cursor"@.len() == 6 && "includeHidden"@.len() == 13 && "limit"@.len() == 5);
    if let ModelStepModel::Done(Ok(models)) = model_step(pages) {
        let before = paged_models(pages.drop_last())->Ok_0;
        let last = models_in(pages.last())->Ok_0;
        assert(models == before + last);
        assert(models.skip(models.len() - last.len()) =~= last);
        assert(models.take(before.len() as int) =~= before);
        if pages.len() == 1 {
            assert(pages.drop_last() =~= Seq::empty());
            assert(before =~= Seq::empty());
            assert(models =~= last);
        }
    }
}

/// A session works in the directory that it was made for, and has no thread and no turn before one
/// is opened; then its thread is that one.
pub proof fn sessions_work_where_they_were_made(cwd: Seq<char>, s: SessionModel)
    ensures
        connected(cwd).cwd == cwd,
        connected(cwd).active_turn_id is None,
        open_thread(connected(cwd)) is Err,
        s.thread_id.len() > 0 ==> open_thread(s) == Ok::<Seq<char>, Seq<char>>(s.thread_id),
        s.thread_id.len() == 0 ==> open_thread(s) is Err,
{
}

/// A session asks for what it uses: the interfaces that may still change, and no attestation.
pub proof fn sessions_ask_for_what_they_use(version: Seq<char>)
    ensures
        field(initialize_params(version), "capabilities"@) matches Some(wanted) && stands_under(
            wanted,
            "experimentalApi"@,
            JsonModel::Bool(true),
        ) && stands_under(wanted, "requestAttestation"@, JsonModel::Bool(false)),
{
    reveal_strlit("clientInfo");
    reveal_strlit("capabilities");
    reveal_strlit("experimentalApi");
    reveal_strlit("requestAttestation");
    assert("clientInfo"@.len() == 10 && "capabilities"@.len() == 12);
    assert("experimentalApi"@.len() == 15 && "requestAttestation"@.len() == 18);
}

} // verus!
