//! The conversation with the Codex app-server: what its messages mean, and the messages to it.
use vstd::prelude::*;
use vstd::string::*;

use crate::json;
use crate::json::{field, field_int, field_text, field_text_or, inner_text};
use crate::json::{int_in, items_in, text_in, Json, JsonModel};
use crate::text;
use crate::text::{begins, decimal, find, joined, occurs_at, signed_decimal, trimmed};
use crate::views::{opt_view, views, views_index, views_push};
use crate::wire;
use crate::wire::{read_json, ObjectBuilder};

verus! {

/// The id of a request.
#[derive(Debug, PartialEq, Eq, Hash)]
pub enum RpcId {
    Number(i64),
    String(String),
}

/// The value of an `RpcId`.
#[verifier::ext_equal]
pub enum IdModel {
    Number(i64),
    Text(Seq<char>),
}

impl View for RpcId {
    type V = IdModel;

    open spec fn view(&self) -> IdModel {
        match self {
            RpcId::Number(n) => IdModel::Number(*n),
            RpcId::String(s) => IdModel::Text(s@),
        }
    }
}

impl Clone for RpcId {
    fn clone(&self) -> (r: Self)
        ensures
            r@ == self@,
    {
        match self {
            RpcId::Number(n) => RpcId::Number(*n),
            RpcId::String(s) => RpcId::String(s.clone()),
        }
    }
}

/// The id that a value is: an integer or a text.
pub open spec fn id_in(j: JsonModel) -> Option<IdModel> {
    match int_in(j) {
        Some(n) => Some(IdModel::Number(n)),
        None => match text_in(j) {
            Some(s) => Some(IdModel::Text(s)),
            None => None,
        },
    }
}

/// An id as a value.
pub open spec fn id_json(id: IdModel) -> JsonModel {
    match id {
        IdModel::Number(n) => JsonModel::Int(n as int),
        IdModel::Text(s) => JsonModel::Str(s),
    }
}

/// The text under which the answer to a request is waited for.
pub open spec fn id_key(id: IdModel) -> Seq<char> {
    match id {
        IdModel::Number(n) => signed_decimal(n as int),
        IdModel::Text(s) => s,
    }
}

impl RpcId {
    /// See [`id_in`].
    pub fn from_value(value: &Json) -> (r: Option<RpcId>)
        ensures
            opt_view(r) == id_in(value@),
    {
        match value.as_i64() {
            Some(n) => Some(RpcId::Number(n)),
            None => match value.as_str() {
                Some(s) => Some(RpcId::String(s.to_owned())),
                None => None,
            },
        }
    }

    /// See [`id_json`].
    pub fn as_value(&self) -> (r: Json)
        ensures
            r@ == id_json(self@),
    {
        match self {
            RpcId::Number(n) => Json::Int(*n),
            RpcId::String(s) => Json::Str(s.clone()),
        }
    }

    /// See [`id_key`].
    pub fn key(&self) -> (r: String)
        ensures
            r@ == id_key(self@),
    {
        match self {
            RpcId::Number(n) => text::signed_number(*n),
            RpcId::String(s) => s.clone(),
        }
    }
}

/// An id that was sent is read back as the same id.
pub proof fn ids_are_read_back(id: IdModel)
    ensures
        id_in(id_json(id)) == Some(id),
{
}

#[derive(Clone, Copy, Debug, PartialEq, Eq, Structural)]
pub enum ApprovalKind {
    Command,
    FileChange,
}

/// A request for the user's approval.
#[derive(Debug, PartialEq, Eq)]
pub struct ApprovalRequest {
    pub rpc_id: RpcId,
    pub kind: ApprovalKind,
    pub item_id: String,
    pub title: String,
    pub detail: String,
}

/// The value of an `ApprovalRequest`.
#[verifier::ext_equal]
pub struct ApprovalModel {
    pub rpc_id: IdModel,
    pub kind: ApprovalKind,
    pub item_id: Seq<char>,
    pub title: Seq<char>,
    pub detail: Seq<char>,
}

impl View for ApprovalRequest {
    type V = ApprovalModel;

    open spec fn view(&self) -> ApprovalModel {
        ApprovalModel {
            rpc_id: self.rpc_id@,
            kind: self.kind,
            item_id: self.item_id@,
            title: self.title@,
            detail: self.detail@,
        }
    }
}

impl Clone for ApprovalRequest {
    fn clone(&self) -> (r: Self)
        ensures
            r@ == self@,
    {
        ApprovalRequest {
            rpc_id: self.rpc_id.clone(),
            kind: self.kind,
            item_id: self.item_id.clone(),
            title: self.title.clone(),
            detail: self.detail.clone(),
        }
    }
}

/// What happens in a session.
#[derive(Debug, PartialEq, Eq)]
pub enum CodexEvent {
    SessionReady { thread_id: String, model: String },
    TurnStarted { turn_id: String },
    AgentMessageDelta { item_id: String, delta: String },
    AgentMessageCompleted { item_id: String, text: String },
    ReasoningDelta { item_id: String, content_index: i64, delta: String },
    CommandStarted { item_id: String, command: String, cwd: String },
    CommandCompleted { item_id: String, command: String, exit_code: Option<i64>, output: String },
    CommandOutputDelta { item_id: String, delta: String },
    FileChangeStarted { item_id: String, summary: String },
    FileChangeCompleted { item_id: String, summary: String, status: String },
    ApprovalRequested(ApprovalRequest),
    TurnCompleted { status: String, error: Option<String> },
    Error(String),
    Exited,
}

/// The value of a `CodexEvent`.
#[verifier::ext_equal]
pub enum EventModel {
    SessionReady { thread_id: Seq<char>, model: Seq<char> },
    TurnStarted { turn_id: Seq<char> },
    AgentMessageDelta { item_id: Seq<char>, delta: Seq<char> },
    AgentMessageCompleted { item_id: Seq<char>, text: Seq<char> },
    ReasoningDelta { item_id: Seq<char>, content_index: i64, delta: Seq<char> },
    CommandStarted { item_id: Seq<char>, command: Seq<char>, cwd: Seq<char> },
    CommandCompleted {
        item_id: Seq<char>,
        command: Seq<char>,
        exit_code: Option<i64>,
        output: Seq<char>,
    },
    CommandOutputDelta { item_id: Seq<char>, delta: Seq<char> },
    FileChangeStarted { item_id: Seq<char>, summary: Seq<char> },
    FileChangeCompleted { item_id: Seq<char>, summary: Seq<char>, status: Seq<char> },
    ApprovalRequested(ApprovalModel),
    TurnCompleted { status: Seq<char>, error: Option<Seq<char>> },
    Error(Seq<char>),
    Exited,
}

impl View for CodexEvent {
    type V = EventModel;

    open spec fn view(&self) -> EventModel {
        match self {
            CodexEvent::SessionReady { thread_id, model } => EventModel::SessionReady {
                thread_id: thread_id@,
                model: model@,
            },
            CodexEvent::TurnStarted { turn_id } => EventModel::TurnStarted { turn_id: turn_id@ },
            CodexEvent::AgentMessageDelta { item_id, delta } => EventModel::AgentMessageDelta {
                item_id: item_id@,
                delta: delta@,
            },
            CodexEvent::AgentMessageCompleted { item_id, text } => EventModel::AgentMessageCompleted {
                item_id: item_id@,
                text: text@,
            },
            CodexEvent::ReasoningDelta { item_id, content_index, delta } => {
                EventModel::ReasoningDelta {
                    item_id: item_id@,
                    content_index: *content_index,
                    delta: delta@,
                }
            },
            CodexEvent::CommandStarted { item_id, command, cwd } => EventModel::CommandStarted {
                item_id: item_id@,
                command: command@,
                cwd: cwd@,
            },
            CodexEvent::CommandCompleted { item_id, command, exit_code, output } => {
                EventModel::CommandCompleted {
                    item_id: item_id@,
                    command: command@,
                    exit_code: *exit_code,
                    output: output@,
                }
            },
            CodexEvent::CommandOutputDelta { item_id, delta } => EventModel::CommandOutputDelta {
                item_id: item_id@,
                delta: delta@,
            },
            CodexEvent::FileChangeStarted { item_id, summary } => EventModel::FileChangeStarted {
                item_id: item_id@,
                summary: summary@,
            },
            CodexEvent::FileChangeCompleted { item_id, summary, status } => {
                EventModel::FileChangeCompleted {
                    item_id: item_id@,
                    summary: summary@,
                    status: status@,
                }
            },
            CodexEvent::ApprovalRequested(request) => EventModel::ApprovalRequested(request@),
            CodexEvent::TurnCompleted { status, error } => EventModel::TurnCompleted {
                status: status@,
                error: opt_view(*error),
            },
            CodexEvent::Error(message) => EventModel::Error(message@),
            CodexEvent::Exited => EventModel::Exited,
        }
    }
}

/// The detail of a command that waits for approval: the reason and the directory, as far as
/// they are given.
pub open spec fn approval_detail(reason: Seq<char>, cwd: Seq<char>) -> Seq<char> {
    if reason.len() > 0 && cwd.len() > 0 {
        reason + " · "@ + cwd
    } else {
        reason + cwd
    }
}

/// See [`approval_detail`].
fn detail_text(reason: &str, cwd: &str) -> (r: String)
    ensures
        r@ == approval_detail(reason@, cwd@),
{
    if !reason.is_empty() && !cwd.is_empty() {
        text::concat3(reason, " · ", cwd)
    } else {
        text::concat(reason, cwd)
    }
}

/// What a request of the server asks for, if it is one that can be answered.
pub open spec fn server_request(id: IdModel, method: Seq<char>, params: JsonModel) -> Option<EventModel> {
    let item_id = field_text_or(params, "itemId"@, "unknown"@);
    if method == "item/commandExecution/requestApproval"@ {
        Some(
            EventModel::ApprovalRequested(
                ApprovalModel {
                    rpc_id: id,
                    kind: ApprovalKind::Command,
                    item_id,
                    title: field_text_or(params, "command"@, "Command execution"@),
                    detail: approval_detail(
                        field_text_or(params, "reason"@, ""@),
                        field_text_or(params, "cwd"@, ""@),
                    ),
                },
            ),
        )
    } else if method == "item/fileChange/requestApproval"@ {
        Some(
            EventModel::ApprovalRequested(
                ApprovalModel {
                    rpc_id: id,
                    kind: ApprovalKind::FileChange,
                    item_id,
                    title: "Apply file changes"@,
                    detail: field_text_or(
                        params,
                        "reason"@,
                        "Codex requested permission to modify files"@,
                    ),
                },
            ),
        )
    } else {
        None
    }
}

/// See [`server_request`].
pub fn decode_server_request(id: RpcId, method: &str, params: &Json) -> (r: Option<CodexEvent>)
    ensures
        opt_view(r) == server_request(id@, method@, params@),
{
    let item_id = params.get_string_or("itemId", "unknown");
    if text::same(method, "item/commandExecution/requestApproval") {
        let reason = params.get_string_or("reason", "");
        let cwd = params.get_string_or("cwd", "");
        Some(
            CodexEvent::ApprovalRequested(
                ApprovalRequest {
                    rpc_id: id,
                    kind: ApprovalKind::Command,
                    item_id,
                    title: params.get_string_or("command", "Command execution"),
                    detail: detail_text(reason.as_str(), cwd.as_str()),
                },
            ),
        )
    } else if text::same(method, "item/fileChange/requestApproval") {
        Some(
            CodexEvent::ApprovalRequested(
                ApprovalRequest {
                    rpc_id: id,
                    kind: ApprovalKind::FileChange,
                    item_id,
                    title: "Apply file changes".to_owned(),
                    detail: params.get_string_or(
                        "reason",
                        "Codex requested permission to modify files",
                    ),
                },
            ),
        )
    } else {
        None
    }
}

/// The paths that changes name.
pub open spec fn changed_paths(changes: Seq<JsonModel>) -> Seq<Seq<char>>
    decreases changes.len(),
{
    if changes.len() == 0 {
        Seq::empty()
    } else {
        match field_text(changes.last(), "path"@) {
            Some(path) => changed_paths(changes.drop_last()).push(path),
            None => changed_paths(changes.drop_last()),
        }
    }
}

/// What is said of changes to files: the paths, or how many files there are.
pub open spec fn change_summary(changes: Option<JsonModel>) -> Seq<char> {
    let items = match changes {
        Some(j) => items_in(j),
        None => None,
    };
    match items {
        None => "Preparing file changes"@,
        Some(items) => {
            let paths = changed_paths(items);
            if paths.len() == 0 {
                "Preparing changes to "@ + decimal(items.len()) + " file(s)"@
            } else {
                joined(paths, ", "@)
            }
        },
    }
}

/// The value of an optional reference.
pub open spec fn ref_view(o: Option<&Json>) -> Option<JsonModel> {
    match o {
        Some(j) => Some(j@),
        None => None,
    }
}

/// See [`change_summary`].
pub fn summarize_changes(changes: Option<&Json>) -> (r: String)
    ensures
        r@ == change_summary(ref_view(changes)),
{
    broadcast use {views_push, views_index};

    let items = match changes {
        Some(j) => j.as_array(),
        None => None,
    };
    match items {
        None => "Preparing file changes".to_owned(),
        Some(items) => {
            let ghost all = views(items@);
            let mut paths: Vec<String> = Vec::new();
            let mut i: usize = 0;
            assert(views(paths@) =~= changed_paths(all.take(0)));
            while i < items.len()
                invariant
                    all == views(items@),
                    i <= items.len(),
                    views(paths@) == changed_paths(all.take(i as int)),
                decreases items.len() - i,
            {
                assert(all.take(i + 1).drop_last() =~= all.take(i as int));
                match items[i].get_string("path") {
                    Some(path) => {
                        paths.push(path);
                    },
                    None => {},
                }
                i = i + 1;
            }
            assert(all.take(i as int) =~= all);
            assert(paths@.len() == views(paths@).len());
            if paths.len() == 0 {
                text::concat3(
                    "Preparing changes to ",
                    text::number(items.len() as u64, 10).as_str(),
                    " file(s)",
                )
            } else {
                text::join(&paths, ", ")
            }
        },
    }
}

/// What the start of an item means.
pub open spec fn item_started(item: JsonModel) -> Option<EventModel> {
    match (field_text(item, "type"@), field_text(item, "id"@)) {
        (Some(kind), Some(item_id)) => if kind == "commandExecution"@ {
            match field_text(item, "command"@) {
                Some(command) => Some(
                    EventModel::CommandStarted {
                        item_id,
                        command,
                        cwd: field_text_or(item, "cwd"@, ""@),
                    },
                ),
                None => None,
            }
        } else if kind == "fileChange"@ {
            Some(
                EventModel::FileChangeStarted {
                    item_id,
                    summary: change_summary(field(item, "changes"@)),
                },
            )
        } else {
            None
        },
        _ => None,
    }
}

/// See [`item_started`].
pub fn decode_item_started(item: &Json) -> (r: Option<CodexEvent>)
    ensures
        opt_view(r) == item_started(item@),
{
    match (item.get_str("type"), item.get_string("id")) {
        (Some(kind), Some(item_id)) => {
            if text::same(kind, "commandExecution") {
                match item.get_string("command") {
                    Some(command) => Some(
                        CodexEvent::CommandStarted {
                            item_id,
                            command,
                            cwd: item.get_string_or("cwd", ""),
                        },
                    ),
                    None => None,
                }
            } else if text::same(kind, "fileChange") {
                Some(
                    CodexEvent::FileChangeStarted {
                        item_id,
                        summary: summarize_changes(item.get("changes")),
                    },
                )
            } else {
                None
            }
        },
        _ => None,
    }
}

/// What the completion of an item means.
pub open spec fn item_completed(item: JsonModel) -> Option<EventModel> {
    match (field_text(item, "type"@), field_text(item, "id"@)) {
        (Some(kind), Some(item_id)) => if kind == "agentMessage"@ {
            match field_text(item, "text"@) {
                Some(text) => Some(EventModel::AgentMessageCompleted { item_id, text }),
                None => None,
            }
        } else if kind == "commandExecution"@ {
            match field_text(item, "command"@) {
                Some(command) => Some(
                    EventModel::CommandCompleted {
                        item_id,
                        command,
                        exit_code: field_int(item, "exitCode"@),
                        output: field_text_or(item, "aggregatedOutput"@, ""@),
                    },
                ),
                None => None,
            }
        } else if kind == "fileChange"@ {
            Some(
                EventModel::FileChangeCompleted {
                    item_id,
                    summary: change_summary(field(item, "changes"@)),
                    status: field_text_or(item, "status"@, "completed"@),
                },
            )
        } else {
            None
        },
        _ => None,
    }
}

/// See [`item_completed`].
pub fn decode_item_completed(item: &Json) -> (r: Option<CodexEvent>)
    ensures
        opt_view(r) == item_completed(item@),
{
    match (item.get_str("type"), item.get_string("id")) {
        (Some(kind), Some(item_id)) => {
            if text::same(kind, "agentMessage") {
                match item.get_string("text") {
                    Some(text) => Some(CodexEvent::AgentMessageCompleted { item_id, text }),
                    None => None,
                }
            } else if text::same(kind, "commandExecution") {
                match item.get_string("command") {
                    Some(command) => Some(
                        CodexEvent::CommandCompleted {
                            item_id,
                            command,
                            exit_code: item.get_i64("exitCode"),
                            output: item.get_string_or("aggregatedOutput", ""),
                        },
                    ),
                    None => None,
                }
            } else if text::same(kind, "fileChange") {
                Some(
                    CodexEvent::FileChangeCompleted {
                        item_id,
                        summary: summarize_changes(item.get("changes")),
                        status: item.get_string_or("status", "completed"),
                    },
                )
            } else {
                None
            }
        },
        _ => None,
    }
}

/// What a notification means, if it is one that matters.
pub open spec fn notification(method: Seq<char>, params: JsonModel) -> Option<EventModel> {
    let item_id = field_text(params, "itemId"@);
    let delta = field_text(params, "delta"@);
    if method == "turn/started"@ {
        Some(
            EventModel::TurnStarted {
                turn_id: match inner_text(params, "turn"@, "id"@) {
                    Some(id) => id,
                    None => "unknown"@,
                },
            },
        )
    } else if method == "item/agentMessage/delta"@ {
        match (item_id, delta) {
            (Some(item_id), Some(delta)) => Some(EventModel::AgentMessageDelta { item_id, delta }),
            _ => None,
        }
    } else if method == "item/reasoning/summaryTextDelta"@ {
        reasoning(item_id, field_int(params, "summaryIndex"@), delta)
    } else if method == "item/reasoning/textDelta"@ {
        reasoning(item_id, field_int(params, "contentIndex"@), delta)
    } else if method == "item/commandExecution/outputDelta"@ {
        match (item_id, delta) {
            (Some(item_id), Some(delta)) => Some(EventModel::CommandOutputDelta { item_id, delta }),
            _ => None,
        }
    } else if method == "item/started"@ {
        match field(params, "item"@) {
            Some(item) => item_started(item),
            None => None,
        }
    } else if method == "item/completed"@ {
        match field(params, "item"@) {
            Some(item) => item_completed(item),
            None => None,
        }
    } else if method == "turn/completed"@ {
        match field(params, "turn"@) {
            Some(turn) => Some(
                EventModel::TurnCompleted {
                    status: field_text_or(turn, "status"@, "completed"@),
                    error: inner_text(turn, "error"@, "message"@),
                },
            ),
            None => None,
        }
    } else if method == "error"@ {
        Some(EventModel::Error(field_text_or(params, "message"@, "Codex reported an error"@)))
    } else {
        None
    }
}

/// A piece of reasoning, where all its parts are given.
pub open spec fn reasoning(
    item_id: Option<Seq<char>>,
    index: Option<i64>,
    delta: Option<Seq<char>>,
) -> Option<EventModel> {
    match (item_id, index, delta) {
        (Some(item_id), Some(content_index), Some(delta)) => Some(
            EventModel::ReasoningDelta { item_id, content_index, delta },
        ),
        _ => None,
    }
}

/// See [`reasoning`].
fn reasoning_delta(item_id: Option<String>, index: Option<i64>, delta: Option<String>) -> (r: Option<
    CodexEvent,
>)
    ensures
        opt_view(r) == reasoning(opt_view(item_id), index, opt_view(delta)),
{
    match (item_id, index, delta) {
        (Some(item_id), Some(content_index), Some(delta)) => Some(
            CodexEvent::ReasoningDelta { item_id, content_index, delta },
        ),
        _ => None,
    }
}

/// See [`notification`].
pub fn decode_notification(method: &str, params: &Json) -> (r: Option<CodexEvent>)
    ensures
        opt_view(r) == notification(method@, params@),
{
    let item_id = params.get_string("itemId");
    let delta = params.get_string("delta");
    if text::same(method, "turn/started") {
        let turn_id = match params.get_inner_string("turn", "id") {
            Some(id) => id,
            None => "unknown".to_owned(),
        };
        Some(CodexEvent::TurnStarted { turn_id })
    } else if text::same(method, "item/agentMessage/delta") {
        match (item_id, delta) {
            (Some(item_id), Some(delta)) => Some(CodexEvent::AgentMessageDelta { item_id, delta }),
            _ => None,
        }
    } else if text::same(method, "item/reasoning/summaryTextDelta") {
        reasoning_delta(item_id, params.get_i64("summaryIndex"), delta)
    } else if text::same(method, "item/reasoning/textDelta") {
        reasoning_delta(item_id, params.get_i64("contentIndex"), delta)
    } else if text::same(method, "item/commandExecution/outputDelta") {
        match (item_id, delta) {
            (Some(item_id), Some(delta)) => Some(CodexEvent::CommandOutputDelta { item_id, delta }),
            _ => None,
        }
    } else if text::same(method, "item/started") {
        match params.get("item") {
            Some(item) => decode_item_started(item),
            None => None,
        }
    } else if text::same(method, "item/completed") {
        match params.get("item") {
            Some(item) => decode_item_completed(item),
            None => None,
        }
    } else if text::same(method, "turn/completed") {
        match params.get("turn") {
            Some(turn) => Some(
                CodexEvent::TurnCompleted {
                    status: turn.get_string_or("status", "completed"),
                    error: turn.get_inner_string("error", "message"),
                },
            ),
            None => None,
        }
    } else if text::same(method, "error") {
        Some(CodexEvent::Error(params.get_string_or("message", "Codex reported an error")))
    } else {
        None
    }
}

/// What is to be done with a message of the server.
pub enum Incoming {
    /// Nothing.
    Nothing,
    /// It answers the request that waits under a key.
    Response { key: String, result: Result<Json, String> },
    /// It tells of an event.
    Event(CodexEvent),
    /// It asks for something that cannot be answered: a refusal goes back.
    Refused { reply: Json, event: CodexEvent },
}

/// The value of an `Incoming`.
#[verifier::ext_equal]
pub enum IncomingModel {
    Nothing,
    Response { key: Seq<char>, result: Result<JsonModel, Seq<char>> },
    Event(EventModel),
    Refused { reply: JsonModel, event: EventModel },
}

impl View for Incoming {
    type V = IncomingModel;

    open spec fn view(&self) -> IncomingModel {
        match self {
            Incoming::Nothing => IncomingModel::Nothing,
            Incoming::Response { key, result } => IncomingModel::Response {
                key: key@,
                result: match result {
                    Ok(j) => Ok(j@),
                    Err(e) => Err(e@),
                },
            },
            Incoming::Event(event) => IncomingModel::Event(event@),
            Incoming::Refused { reply, event } => IncomingModel::Refused {
                reply: reply@,
                event: event@,
            },
        }
    }
}

/// A field, or null where there is none.
pub open spec fn field_or_null(j: JsonModel, key: Seq<char>) -> JsonModel {
    match field(j, key) {
        Some(v) => v,
        None => JsonModel::Null,
    }
}

/// See [`field_or_null`].
fn get_or_null(j: &Json, key: &str) -> (r: Json)
    ensures
        r@ == field_or_null(j@, key@),
{
    match j.get(key) {
        Some(v) => json::copy(v),
        None => Json::Null,
    }
}

/// The answer that a message gives to a request.
pub open spec fn answer_in(message: JsonModel) -> Result<JsonModel, Seq<char>> {
    match field(message, "error"@) {
        Some(error) => Err(field_text_or(error, "message"@, "unknown app-server error"@)),
        None => Ok(field_or_null(message, "result"@)),
    }
}

/// The refusal of a request that is not known.
pub open spec fn refusal(id: IdModel, method: Seq<char>) -> JsonModel {
    JsonModel::Object(
        map![
            "id"@ => id_json(id),
            "error"@ => JsonModel::Object(
                map![
                    "code"@ => JsonModel::Int(-32601),
                    "message"@ => JsonModel::Str("Rode does not yet handle server request "@ + method),
                ],
            ),
        ],
    )
}

/// What is to be done with a message: one with an id and no method is an answer, one with both
/// is a request, one with a method only is a notification.
pub open spec fn routed(message: JsonModel) -> IncomingModel {
    let id = match field(message, "id"@) {
        Some(v) => id_in(v),
        None => None,
    };
    let method = field_text(message, "method"@);
    let params = field_or_null(message, "params"@);
    match (id, method) {
        (Some(id), None) => IncomingModel::Response { key: id_key(id), result: answer_in(message) },
        (Some(id), Some(method)) => match server_request(id, method, params) {
            Some(event) => IncomingModel::Event(event),
            None => IncomingModel::Refused {
                reply: refusal(id, method),
                event: EventModel::Error("Unsupported Codex server request: "@ + method),
            },
        },
        (None, Some(method)) => match notification(method, params) {
            Some(event) => IncomingModel::Event(event),
            None => IncomingModel::Nothing,
        },
        (None, None) => IncomingModel::Event(
            EventModel::Error("Unrecognized Codex app-server envelope"@),
        ),
    }
}

/// See [`routed`].
pub fn route_incoming_message(message: &Json) -> (r: Incoming)
    ensures
        r@ == routed(message@),
{
    let id = match message.get("id") {
        Some(v) => RpcId::from_value(v),
        None => None,
    };
    let method = message.get_str("method");
    match (id, method) {
        (Some(id), None) => {
            let result = match message.get("error") {
                Some(error) => Err(error.get_string_or("message", "unknown app-server error")),
                None => Ok(get_or_null(message, "result")),
            };
            Incoming::Response { key: id.key(), result }
        },
        (Some(id), Some(method)) => {
            let params = get_or_null(message, "params");
            match decode_server_request(id.clone(), method, &params) {
                Some(event) => Incoming::Event(event),
                None => {
                    let why = text::concat("Rode does not yet handle server request ", method);
                    let error = ObjectBuilder::new().put("code", Json::Int(-32601)).put(
                        "message",
                        Json::Str(why),
                    ).done();
                    let reply = ObjectBuilder::new().put("id", id.as_value()).put(
                        "error",
                        error,
                    ).done();
                    Incoming::Refused {
                        reply,
                        event: CodexEvent::Error(
                            text::concat("Unsupported Codex server request: ", method),
                        ),
                    }
                },
            }
        },
        (None, Some(method)) => {
            let params = get_or_null(message, "params");
            match decode_notification(method, &params) {
                Some(event) => Incoming::Event(event),
                None => Incoming::Nothing,
            }
        },
        (None, None) => Incoming::Event(
            CodexEvent::Error("Unrecognized Codex app-server envelope".to_owned()),
        ),
    }
}

/// What is to be done with what was read of a line.
pub open spec fn received(message: Result<JsonModel, Seq<char>>) -> IncomingModel {
    match message {
        Ok(j) => routed(j),
        Err(e) => IncomingModel::Event(
            EventModel::Error("Invalid Codex app-server message: "@ + e),
        ),
    }
}

/// What is to be done with a line that the server wrote.
pub fn receive_line(line: &str) -> (r: Incoming)
    ensures
        r@ == (if trimmed(line@).len() == 0 {
            IncomingModel::Nothing
        } else {
            received(read_json(line@))
        }),
{
    if text::trim(line).as_str().is_empty() {
        return Incoming::Nothing;
    }
    match wire::read(line) {
        Ok(message) => route_incoming_message(&message),
        Err(e) => Incoming::Event(
            CodexEvent::Error(text::concat("Invalid Codex app-server message: ", e.as_str())),
        ),
    }
}

/// Whether a character is an ASCII letter.
pub open spec fn is_letter(c: char) -> bool {
    'a' <= c <= 'z' || 'A' <= c <= 'Z'
}

/// What follows the rest of an escape sequence, which a letter ends.
pub open spec fn after_escape(s: Seq<char>) -> Seq<char>
    decreases s.len(),
{
    if s.len() == 0 {
        s
    } else if is_letter(s[0]) {
        s.skip(1)
    } else {
        after_escape(s.skip(1))
    }
}

proof fn after_escape_shorter(s: Seq<char>)
    ensures
        after_escape(s).len() <= s.len(),
    decreases s.len(),
{
    if s.len() > 0 && !is_letter(s[0]) {
        after_escape_shorter(s.skip(1));
    }
}

/// A text without the escape sequences that colour it.
pub open spec fn stripped(s: Seq<char>) -> Seq<char>
    decreases s.len(),
{
    if s.len() == 0 {
        s
    } else if s[0] == '\u{1b}' && s.len() > 1 && s[1] == '[' {
        let rest = after_escape(s.skip(2));
        if rest.len() < s.len() {
            stripped(rest)
        } else {
            Seq::empty()
        }
    } else {
        seq![s[0]] + stripped(s.skip(1))
    }
}

/// See [`stripped`].
pub fn strip_ansi(value: &str) -> (r: String)
    ensures
        r@ == stripped(value@),
{
    let v = text::chars(value);
    let mut out = String::new();
    let mut i: usize = 0;
    assert(v@.skip(0) =~= v@);
    assert(out@ + stripped(v@) =~= stripped(v@));
    while i < v.len()
        invariant
            i <= v.len(),
            out@ + stripped(v@.skip(i as int)) == stripped(v@),
        decreases v.len() - i,
    {
        let ghost rest = v@.skip(i as int);
        if v[i] == '\u{1b}' && v.len() - i > 1 && v[i + 1] == '[' {
            let mut k: usize = i + 2;
            let mut ended = false;
            assert(rest.skip(2) =~= v@.skip(k as int));
            while k < v.len() && !ended
                invariant
                    i + 2 <= k <= v.len(),
                    after_escape(rest.skip(2)) == (if ended {
                        v@.skip(k as int)
                    } else {
                        after_escape(v@.skip(k as int))
                    }),
                decreases v.len() - k,
            {
                let c = v[k];
                assert(v@.skip(k as int).skip(1) =~= v@.skip(k + 1));
                if ('a' <= c && c <= 'z') || ('A' <= c && c <= 'Z') {
                    ended = true;
                }
                k = k + 1;
            }
            proof {
                after_escape_shorter(rest.skip(2));
            }
            i = k;
        } else {
            assert(rest.skip(1) =~= v@.skip(i + 1));
            assert(out@.push(v@[i as int]) + stripped(rest.skip(1)) =~= out@ + (seq![v@[i as int]]
                + stripped(rest.skip(1))));
            out.push(v[i]);
            i = i + 1;
        }
    }
    assert(v@.skip(i as int) =~= Seq::<char>::empty());
    assert(out@ + stripped(v@.skip(i as int)) =~= out@);
    out
}

/// The error that a line of the server's error output tells of, if it does.
pub open spec fn logged_error(line: Seq<char>) -> Option<Seq<char>> {
    let clean = stripped(line);
    if find(clean, " ERROR "@) is Some || begins(clean, "ERROR"@) {
        Some(trimmed(clean))
    } else {
        None
    }
}

/// The event that a line of the server's error output comes to, if it does.
pub open spec fn logged_event(line: Seq<char>) -> Option<EventModel> {
    match logged_error(line) {
        Some(e) => Some(EventModel::Error(e)),
        None => None,
    }
}

/// See [`logged_error`].
pub fn stderr_event(line: &str) -> (r: Option<CodexEvent>)
    ensures
        opt_view(r) == logged_event(line@),
        opt_view(r) == (match logged_error(line@) {
            Some(e) => Some(EventModel::Error(e)),
            None => None,
        }),
{
    let clean = strip_ansi(line);
    if text::has(clean.as_str(), " ERROR ") || text::starts_with(clean.as_str(), "ERROR") {
        Some(CodexEvent::Error(text::trim(clean.as_str())))
    } else {
        None
    }
}

/// Whether a value stands in an object under a name.
pub open spec fn stands_under(j: JsonModel, key: Seq<char>, value: JsonModel) -> bool {
    j matches JsonModel::Object(m) && m.dom().contains(key) && m[key] == value
}

/// Whether nothing stands under a name.
pub open spec fn is_bare_of(j: JsonModel, key: Seq<char>) -> bool {
    j matches JsonModel::Object(m) ==> !m.dom().contains(key)
}

/// The methods of the notifications are told apart.
proof fn methods_differ()
    ensures
        "turn/started"@.len() == 12,
        "item/agentMessage/delta"@.len() == 23,
        "item/reasoning/summaryTextDelta"@.len() == 31,
        "item/reasoning/textDelta"@.len() == 24,
        "item/commandExecution/outputDelta"@.len() == 33,
        "item/started"@.len() == 12,
        "item/completed"@.len() == 14,
        "turn/completed"@.len() == 14,
        "error"@.len() == 5,
        "turn/started"@ != "item/started"@,
        "turn/completed"@ != "item/completed"@,
{
    reveal_strlit("turn/started");
    reveal_strlit("item/agentMessage/delta");
    reveal_strlit("item/reasoning/summaryTextDelta");
    reveal_strlit("item/reasoning/textDelta");
    reveal_strlit("item/commandExecution/outputDelta");
    reveal_strlit("item/started");
    reveal_strlit("item/completed");
    reveal_strlit("turn/completed");
    reveal_strlit("error");
    assert("turn/started"@[0] == 't' && "item/started"@[0] == 'i');
    assert("turn/completed"@[0] == 't' && "item/completed"@[0] == 'i');
}

/// The kinds of items are told apart.
proof fn kinds_differ()
    ensures
        "agentMessage"@.len() == 12,
        "commandExecution"@.len() == 16,
        "fileChange"@.len() == 10,
{
    reveal_strlit("agentMessage");
    reveal_strlit("commandExecution");
    reveal_strlit("fileChange");
}

/// Every piece of a message, of reasoning or of a command's output is read as that piece, of the
/// item that it names: nothing of it is lost or changed on the way. One that lacks its item or
/// its text is not read.
pub proof fn pieces_are_read_as_sent(
    params: JsonModel,
    item_id: Seq<char>,
    delta: Seq<char>,
    index: i64,
)
    requires
        stands_under(params, "itemId"@, JsonModel::Str(item_id)),
        stands_under(params, "delta"@, JsonModel::Str(delta)),
    ensures
        notification("item/agentMessage/delta"@, params) == Some(
            EventModel::AgentMessageDelta { item_id, delta },
        ),
        notification("item/commandExecution/outputDelta"@, params) == Some(
            EventModel::CommandOutputDelta { item_id, delta },
        ),
        stands_under(params, "summaryIndex"@, JsonModel::Int(index as int)) ==> notification(
            "item/reasoning/summaryTextDelta"@,
            params,
        ) == Some(EventModel::ReasoningDelta { item_id, content_index: index, delta }),
        stands_under(params, "contentIndex"@, JsonModel::Int(index as int)) ==> notification(
            "item/reasoning/textDelta"@,
            params,
        ) == Some(EventModel::ReasoningDelta { item_id, content_index: index, delta }),
{
    methods_differ();
}

/// A piece without its item or without its text is not read.
pub proof fn broken_pieces_are_passed_over(params: JsonModel)
    requires
        is_bare_of(params, "itemId"@) || is_bare_of(params, "delta"@),
    ensures
        notification("item/agentMessage/delta"@, params) is None,
        notification("item/commandExecution/outputDelta"@, params) is None,
        notification("item/reasoning/summaryTextDelta"@, params) is None,
        notification("item/reasoning/textDelta"@, params) is None,
{
    methods_differ();
}

/// A message of the agent that is complete is read with its item and its whole text.
pub proof fn completed_messages_are_read_whole(
    params: JsonModel,
    item: JsonModel,
    item_id: Seq<char>,
    text: Seq<char>,
)
    requires
        stands_under(params, "item"@, item),
        stands_under(item, "type"@, JsonModel::Str("agentMessage"@)),
        stands_under(item, "id"@, JsonModel::Str(item_id)),
        stands_under(item, "text"@, JsonModel::Str(text)),
    ensures
        notification("item/completed"@, params) == Some(
            EventModel::AgentMessageCompleted { item_id, text },
        ),
        item_completed(item) == Some(EventModel::AgentMessageCompleted { item_id, text }),
        notification("item/started"@, params) is None,
{
    methods_differ();
    kinds_differ();
}

/// A command is read as it was started, and as it ended: the command, its directory, how it ended
/// and what it wrote, as far as they were told.
pub proof fn commands_are_read_as_run(
    params: JsonModel,
    item: JsonModel,
    item_id: Seq<char>,
    command: Seq<char>,
    cwd: Option<Seq<char>>,
    exit_code: Option<i64>,
    output: Option<Seq<char>>,
)
    requires
        stands_under(params, "item"@, item),
        stands_under(item, "type"@, JsonModel::Str("commandExecution"@)),
        stands_under(item, "id"@, JsonModel::Str(item_id)),
        stands_under(item, "command"@, JsonModel::Str(command)),
        match cwd {
            Some(cwd) => stands_under(item, "cwd"@, JsonModel::Str(cwd)),
            None => is_bare_of(item, "cwd"@),
        },
        match exit_code {
            Some(code) => stands_under(item, "exitCode"@, JsonModel::Int(code as int)),
            None => is_bare_of(item, "exitCode"@),
        },
        match output {
            Some(output) => stands_under(item, "aggregatedOutput"@, JsonModel::Str(output)),
            None => is_bare_of(item, "aggregatedOutput"@),
        },
    ensures
        notification("item/started"@, params) == Some(
            EventModel::CommandStarted {
                item_id,
                command,
                cwd: match cwd {
                    Some(cwd) => cwd,
                    None => Seq::empty(),
                },
            },
        ),
        notification("item/completed"@, params) == Some(
            EventModel::CommandCompleted {
                item_id,
                command,
                exit_code,
                output: match output {
                    Some(output) => output,
                    None => Seq::empty(),
                },
            },
        ),
{
    methods_differ();
    kinds_differ();
    reveal_strlit("");
    assert(""@ =~= Seq::<char>::empty());
}

/// The paths that changes name are all named, in order.
pub proof fn changed_paths_are_all_named(changes: Seq<JsonModel>, paths: Seq<Seq<char>>)
    requires
        changes.len() == paths.len(),
        forall|i: int|
            0 <= i < changes.len() ==> stands_under(
                #[trigger] changes[i],
                "path"@,
                JsonModel::Str(paths[i]),
            ),
    ensures
        changed_paths(changes) == paths,
    decreases changes.len(),
{
    if changes.len() > 0 {
        let (head, names) = (changes.drop_last(), paths.drop_last());
        assert forall|i: int| 0 <= i < head.len() implies stands_under(
            #[trigger] head[i],
            "path"@,
            JsonModel::Str(names[i]),
        ) by {
            assert(stands_under(changes[i], "path"@, JsonModel::Str(paths[i])));
        }
        changed_paths_are_all_named(head, names);
        assert(stands_under(
            changes[changes.len() - 1],
            "path"@,
            JsonModel::Str(paths[paths.len() - 1]),
        ));
        assert(changed_paths(changes) =~= paths);
    } else {
        assert(changed_paths(changes) =~= paths);
    }
}

/// A change to files is read with its item, the paths that it names with commas between them, and
/// how it ended.
pub proof fn file_changes_are_read_with_their_paths(
    params: JsonModel,
    item: JsonModel,
    item_id: Seq<char>,
    changes: Seq<JsonModel>,
    paths: Seq<Seq<char>>,
    status: Option<Seq<char>>,
)
    requires
        stands_under(params, "item"@, item),
        stands_under(item, "type"@, JsonModel::Str("fileChange"@)),
        stands_under(item, "id"@, JsonModel::Str(item_id)),
        stands_under(item, "changes"@, JsonModel::Array(changes)),
        paths.len() > 0,
        changes.len() == paths.len(),
        forall|i: int|
            0 <= i < changes.len() ==> stands_under(
                #[trigger] changes[i],
                "path"@,
                JsonModel::Str(paths[i]),
            ),
        match status {
            Some(status) => stands_under(item, "status"@, JsonModel::Str(status)),
            None => is_bare_of(item, "status"@),
        },
    ensures
        notification("item/started"@, params) == Some(
            EventModel::FileChangeStarted { item_id, summary: joined(paths, ", "@) },
        ),
        notification("item/completed"@, params) == Some(
            EventModel::FileChangeCompleted {
                item_id,
                summary: joined(paths, ", "@),
                status: match status {
                    Some(status) => status,
                    None => "completed"@,
                },
            },
        ),
        paths.len() == 1 ==> joined(paths, ", "@) == paths[0],
{
    methods_differ();
    kinds_differ();
    changed_paths_are_all_named(changes, paths);
    assert(items_in(JsonModel::Array(changes)) == Some(changes));
    assert(change_summary(Some(JsonModel::Array(changes))) == joined(paths, ", "@));
    if paths.len() == 1 {
        assert(paths.drop_last() =~= Seq::empty());
        assert(joined(paths, ", "@) =~= paths[0]);
    }
}

/// The start and the end of a turn are read with its id, its outcome and its error.
pub proof fn turns_are_read_as_told(
    params: JsonModel,
    turn: JsonModel,
    id: Seq<char>,
    status: Seq<char>,
    error: JsonModel,
    message: Seq<char>,
)
    requires
        stands_under(params, "turn"@, turn),
    ensures
        stands_under(turn, "id"@, JsonModel::Str(id)) ==> notification("turn/started"@, params)
            == Some(EventModel::TurnStarted { turn_id: id }),
        notification("turn/completed"@, params) matches Some(EventModel::TurnCompleted {
            status: read,
            error: why,
        }) && {
            &&& stands_under(turn, "status"@, JsonModel::Str(status)) ==> read == status
            &&& is_bare_of(turn, "status"@) ==> read == "completed"@
            &&& stands_under(turn, "error"@, error) && stands_under(
                error,
                "message"@,
                JsonModel::Str(message),
            ) ==> why == Some(message)
            &&& is_bare_of(turn, "error"@) || stands_under(turn, "error"@, JsonModel::Null) ==> why
                is None
        },
{
    methods_differ();
}

/// An error of the server is read with its message.
pub proof fn errors_are_read_with_their_message(params: JsonModel, message: Seq<char>)
    requires
        stands_under(params, "message"@, JsonModel::Str(message)),
    ensures
        notification("error"@, params) == Some(EventModel::Error(message)),
{
    methods_differ();
}

/// A request for approval is read with the id that it is answered under, what it is about and
/// what it asks for: a command with the command itself and its directory, a change to files with
/// its reason. Nothing else that the server asks for is read as one.
pub proof fn requests_are_read_with_what_they_ask(
    id: IdModel,
    params: JsonModel,
    item_id: Seq<char>,
    command: Seq<char>,
    reason: Seq<char>,
    cwd: Seq<char>,
    other: Seq<char>,
)
    requires
        stands_under(params, "itemId"@, JsonModel::Str(item_id)),
        stands_under(params, "command"@, JsonModel::Str(command)),
        stands_under(params, "reason"@, JsonModel::Str(reason)),
        other != "item/commandExecution/requestApproval"@,
        other != "item/fileChange/requestApproval"@,
    ensures
        server_request(id, "item/commandExecution/requestApproval"@, params) matches Some(
            EventModel::ApprovalRequested(asked),
        ) && {
            &&& asked.rpc_id == id
            &&& asked.kind == ApprovalKind::Command
            &&& asked.item_id == item_id
            &&& asked.title == command
            &&& is_bare_of(params, "cwd"@) ==> asked.detail == reason
            &&& stands_under(params, "cwd"@, JsonModel::Str(cwd)) && reason.len() > 0 && cwd.len()
                > 0 ==> asked.detail == reason + " · "@ + cwd
        },
        server_request(id, "item/fileChange/requestApproval"@, params) matches Some(
            EventModel::ApprovalRequested(asked),
        ) && asked.rpc_id == id && asked.kind == ApprovalKind::FileChange && asked.item_id
            == item_id && asked.detail == reason,
        server_request(id, other, params) is None,
{
    reveal_strlit("item/commandExecution/requestApproval");
    reveal_strlit("item/fileChange/requestApproval");
    reveal_strlit("");
    assert("item/commandExecution/requestApproval"@.len() == 37
        && "item/fileChange/requestApproval"@.len() == 31);
    assert(""@ =~= Seq::<char>::empty());
    assert(reason + Seq::<char>::empty() =~= reason);
}

/// A message goes where it belongs: what answers a request goes to whoever waits for it, with the
/// result or the error that it brings; a request for approval and a notification are told as what
/// they say; a request that is not known is refused under its own id, and said to be.
pub proof fn messages_go_where_they_belong(
    message: JsonModel,
    id: IdModel,
    method: Seq<char>,
    params: JsonModel,
    result: JsonModel,
    error: JsonModel,
    why: Seq<char>,
)
    ensures
        stands_under(message, "id"@, id_json(id)) && is_bare_of(message, "method"@) ==> (routed(
            message,
        ) matches IncomingModel::Response { key, result: brought } && key == id_key(id) && {
            &&& is_bare_of(message, "error"@) && stands_under(message, "result"@, result) ==> brought
                == Ok::<JsonModel, Seq<char>>(result)
            &&& stands_under(message, "error"@, error) && stands_under(
                error,
                "message"@,
                JsonModel::Str(why),
            ) ==> brought == Err::<JsonModel, Seq<char>>(why)
        }),
        stands_under(message, "id"@, id_json(id)) && stands_under(
            message,
            "method"@,
            JsonModel::Str(method),
        ) && stands_under(message, "params"@, params) ==> match server_request(id, method, params) {
            Some(event) => routed(message) == IncomingModel::Event(event),
            None => routed(message) matches IncomingModel::Refused { reply, event } && event
                is Error && stands_under(reply, "id"@, id_json(id)) && !is_bare_of(reply, "error"@)
                && is_bare_of(reply, "result"@),
        },
        is_bare_of(message, "id"@) && stands_under(message, "method"@, JsonModel::Str(method))
            && stands_under(message, "params"@, params) ==> routed(message) == (match notification(
            method,
            params,
        ) {
            Some(event) => IncomingModel::Event(event),
            None => IncomingModel::Nothing,
        }),
        is_bare_of(message, "id"@) && is_bare_of(message, "method"@) ==> (routed(message)
            matches IncomingModel::Event(event) && event is Error),
{
    reveal_strlit("id");
    reveal_strlit("error");
    reveal_strlit("result");
    assert("id"@.len() == 2 && "error"@.len() == 5 && "result"@.len() == 6);
}

/// Keys of requests are told apart by their numbers and texts.
pub proof fn keys_are_the_ids(n: i64, s: Seq<char>)
    ensures
        n >= 0 ==> id_key(IdModel::Number(n)) == decimal(n as nat),
        n < 0 ==> id_key(IdModel::Number(n)) == seq!['-'] + decimal((-n) as nat),
        id_key(IdModel::Text(s)) == s,
{
    reveal_strlit("-");
    assert("-"@ =~= seq!['-']);
}

/// A line that cannot be read is told as an error with the reason, and never as anything else.
pub proof fn unreadable_lines_are_errors(why: Seq<char>, message: JsonModel)
    ensures
        received(Err(why)) matches IncomingModel::Event(EventModel::Error(text)) && text.len()
            >= why.len() && text.skip(text.len() - why.len()) == why,
        received(Ok(message)) == routed(message),
{
    let text = "Invalid Codex app-server message: "@ + why;
    assert(text.skip(text.len() - why.len()) =~= why);
}

/// Taking the colours out of a text takes nothing else: a text without escape sequences stays as
/// it is, and a sequence that a letter ends is gone, with what follows it left.
pub proof fn only_colours_are_stripped(plain: Seq<char>, code: Seq<char>, letter: char, rest: Seq<char>)
    requires
        forall|i: int| 0 <= i < plain.len() ==> plain[i] != '\u{1b}',
        forall|i: int| 0 <= i < code.len() ==> !is_letter(#[trigger] code[i]),
        is_letter(letter),
    ensures
        stripped(plain) == plain,
        stripped(plain + seq!['\u{1b}', '['] + code + seq![letter] + rest) == plain + stripped(rest),
    decreases plain.len(),
{
    let all = plain + seq!['\u{1b}', '['] + code + seq![letter] + rest;
    if plain.len() == 0 {
        let tail = code + seq![letter] + rest;
        assert(all.skip(2) =~= tail);
        escape_ends_at_letter(code, letter, rest);
        assert(stripped(all) == stripped(rest));
        assert(plain + stripped(rest) =~= stripped(rest));
        assert(stripped(plain) =~= plain);
    } else {
        let fewer = plain.skip(1);
        assert forall|i: int| 0 <= i < fewer.len() implies fewer[i] != '\u{1b}' by {
            assert(fewer[i] == plain[i + 1]);
        }
        only_colours_are_stripped(fewer, code, letter, rest);
        assert(all.skip(1) =~= fewer + seq!['\u{1b}', '['] + code + seq![letter] + rest);
        assert(all[0] == plain[0]);
        assert(seq![plain[0]] + fewer =~= plain);
        assert(stripped(all) =~= plain + stripped(rest));
        assert(stripped(plain) =~= plain);
    }
}

proof fn escape_ends_at_letter(code: Seq<char>, letter: char, rest: Seq<char>)
    requires
        forall|i: int| 0 <= i < code.len() ==> !is_letter(#[trigger] code[i]),
        is_letter(letter),
    ensures
        after_escape(code + seq![letter] + rest) == rest,
    decreases code.len(),
{
    let all = code + seq![letter] + rest;
    if code.len() == 0 {
        assert(all[0] == letter);
        assert(all.skip(1) =~= rest);
    } else {
        assert(all[0] == code[0]);
        let fewer = code.skip(1);
        assert forall|i: int| 0 <= i < fewer.len() implies !is_letter(#[trigger] fewer[i]) by {
            assert(fewer[i] == code[i + 1]);
        }
        escape_ends_at_letter(fewer, letter, rest);
        assert(all.skip(1) =~= fewer + seq![letter] + rest);
    }
}

/// A line of the error output that tells of an error comes to that error, in its own words but for
/// colours and white space around them; another line comes to nothing.
pub proof fn logged_errors_are_told(line: Seq<char>, before: Seq<char>, after: Seq<char>)
    ensures
        stripped(line) == before + " ERROR "@ + after ==> logged_event(line) == Some(
            EventModel::Error(trimmed(before + " ERROR "@ + after)),
        ),
        stripped(line) == "ERROR"@ + after ==> logged_event(line) == Some(
            EventModel::Error(trimmed("ERROR"@ + after)),
        ),
        (forall|j: int| !#[trigger] occurs_at(stripped(line), " ERROR "@, j)) && !occurs_at(
            stripped(line),
            "ERROR"@,
            0,
        ) ==> logged_event(line) is None,
{
    let clean = stripped(line);
    let mark = " ERROR "@;
    reveal_strlit(" ERROR ");
    reveal_strlit("ERROR");
    text::find_from_is_first(clean, mark, 0);
    if clean == before + mark + after {
        let at = before.len() as int;
        assert(clean.subrange(at, at + mark.len()) =~= mark);
        assert(occurs_at(clean, mark, at));
    }
    if clean == "ERROR"@ + after {
        assert(clean.subrange(0, 5) =~= "ERROR"@);
    }
}

} // verus!
