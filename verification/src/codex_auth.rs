//! Signing in: the account that the Codex app-server knows, and the login in the browser.
use vstd::prelude::*;
use vstd::string::*;

use crate::codex::{is_bare_of, stands_under};
use crate::command;
use crate::command::quoted;
use crate::json;
use crate::json::{field, field_bool, field_text, field_text_or, inner_text, uint_in};
use crate::json::{Json, JsonModel};
use crate::session::{notification_json, notify_message, request_json};
use crate::text;
use crate::text::{begins, has_part, parts_are_held};
use crate::views::{opt_view, views, views_index, views_push};
use crate::wire;
use crate::wire::{json_text, read_json, ObjectBuilder};

verus! {

pub const INITIALIZE_REQUEST_ID: u64 = 1;

pub const ACCOUNT_READ_REQUEST_ID: u64 = 2;

pub const LOGIN_REQUEST_ID: u64 = 3;

pub const LOGIN_CANCEL_REQUEST_ID: u64 = 4;

/// An account that is signed in.
#[derive(Debug, PartialEq, Eq)]
pub enum CodexAccount {
    ChatGpt { email: Option<String>, plan: String },
    ApiKey,
    Other(String),
}

/// The value of a `CodexAccount`.
#[verifier::ext_equal]
pub enum AccountModel {
    ChatGpt { email: Option<Seq<char>>, plan: Seq<char> },
    ApiKey,
    Other(Seq<char>),
}

impl View for CodexAccount {
    type V = AccountModel;

    open spec fn view(&self) -> AccountModel {
        match self {
            CodexAccount::ChatGpt { email, plan } => AccountModel::ChatGpt {
                email: opt_view(*email),
                plan: plan@,
            },
            CodexAccount::ApiKey => AccountModel::ApiKey,
            CodexAccount::Other(kind) => AccountModel::Other(kind@),
        }
    }
}

impl Clone for CodexAccount {
    fn clone(&self) -> (r: Self)
        ensures
            r@ == self@,
    {
        match self {
            CodexAccount::ChatGpt { email, plan } => CodexAccount::ChatGpt {
                email: text::copy_opt(email),
                plan: plan.clone(),
            },
            CodexAccount::ApiKey => CodexAccount::ApiKey,
            CodexAccount::Other(kind) => CodexAccount::Other(kind.clone()),
        }
    }
}

/// An account in a few words.
pub open spec fn account_summary(account: AccountModel) -> Seq<char> {
    match account {
        AccountModel::ChatGpt { email: Some(email), plan } => email + " · ChatGPT "@ + plan,
        AccountModel::ChatGpt { email: None, plan } => "ChatGPT "@ + plan,
        AccountModel::ApiKey => "OpenAI API key"@,
        AccountModel::Other(kind) => kind,
    }
}

impl CodexAccount {
    pub fn summary(&self) -> (r: String)
        ensures
            r@ == account_summary(self@),
    {
        match self {
            CodexAccount::ChatGpt { email, plan } => match email {
                Some(email) => text::concat3(email.as_str(), " · ChatGPT ", plan.as_str()),
                None => text::concat("ChatGPT ", plan.as_str()),
            },
            CodexAccount::ApiKey => "OpenAI API key".to_owned(),
            CodexAccount::Other(kind) => kind.clone(),
        }
    }
}

/// Whether an account is signed in, and whether one has to be.
#[derive(Debug, PartialEq, Eq)]
pub struct CodexAccountStatus {
    pub account: Option<CodexAccount>,
    pub requires_openai_auth: bool,
}

/// The value of a `CodexAccountStatus`.
#[verifier::ext_equal]
pub struct AccountStatusModel {
    pub account: Option<AccountModel>,
    pub requires_openai_auth: bool,
}

impl View for CodexAccountStatus {
    type V = AccountStatusModel;

    open spec fn view(&self) -> AccountStatusModel {
        AccountStatusModel {
            account: opt_view(self.account),
            requires_openai_auth: self.requires_openai_auth,
        }
    }
}

/// How a login ended.
#[derive(Debug, PartialEq, Eq)]
pub enum CodexLoginOutcome {
    Complete(CodexAccountStatus),
    Cancelled,
}

/// How a request to cancel a login was answered.
#[derive(Clone, Copy, Debug, PartialEq, Eq, Structural)]
pub enum LoginCancelStatus {
    Canceled,
    NotFound,
}

/// The request to cancel a login.
pub open spec fn cancel_json(login_id: Seq<char>) -> JsonModel {
    JsonModel::Object(
        map![
            "id"@ => JsonModel::Int(LOGIN_CANCEL_REQUEST_ID as int),
            "method"@ => JsonModel::Str("account/login/cancel"@),
            "params"@ => JsonModel::Object(map!["loginId"@ => JsonModel::Str(login_id)]),
        ],
    )
}

/// See [`cancel_json`].
pub fn login_cancel_message(login_id: &str) -> (r: Json)
    ensures
        r@ == cancel_json(login_id@),
{
    let params = ObjectBuilder::new().put("loginId", json::string(login_id)).done();
    ObjectBuilder::new().put("id", Json::Uint(LOGIN_CANCEL_REQUEST_ID)).put(
        "method",
        json::string("account/login/cancel"),
    ).put("params", params).done()
}

/// The id of the request that a message answers.
pub open spec fn answered_id(message: JsonModel) -> Option<u64> {
    match field(message, "id"@) {
        Some(v) => uint_in(v),
        None => None,
    }
}

/// See [`answered_id`].
fn answers(message: &Json, id: u64) -> (r: bool)
    ensures
        r == (answered_id(message@) == Some(id)),
{
    match message.get("id") {
        Some(v) => match v.as_u64() {
            Some(n) => n == id,
            None => false,
        },
        None => false,
    }
}

/// What a message says of the request to cancel, if it answers it.
pub open spec fn cancel_status(message: JsonModel) -> Option<Result<LoginCancelStatus, Seq<char>>> {
    if answered_id(message) != Some(LOGIN_CANCEL_REQUEST_ID) {
        None
    } else if let Some(error) = field(message, "error"@) {
        Some(Err("Codex app-server rejected account/login/cancel: "@ + json_text(error)))
    } else {
        match inner_text(message, "result"@, "status"@) {
            None => Some(
                Err("Codex app-server returned a malformed login cancellation response"@),
            ),
            Some(status) => Some(
                if status == "canceled"@ {
                    Ok(LoginCancelStatus::Canceled)
                } else if status == "notFound"@ {
                    Ok(LoginCancelStatus::NotFound)
                } else {
                    Err(
                        "Codex app-server returned unknown login cancellation status "@ + quoted(
                            status,
                        ),
                    )
                },
            ),
        }
    }
}

/// The value of an optional outcome.
pub open spec fn outcome_view<T>(o: Option<Result<T, String>>) -> Option<Result<T, Seq<char>>> {
    match o {
        Some(Ok(t)) => Some(Ok(t)),
        Some(Err(e)) => Some(Err(e@)),
        None => None,
    }
}

/// See [`cancel_status`].
pub fn parse_login_cancel_response(message: &Json) -> (r: Option<Result<LoginCancelStatus, String>>)
    ensures
        outcome_view(r) == cancel_status(message@),
{
    if !answers(message, LOGIN_CANCEL_REQUEST_ID) {
        return None;
    }
    if let Some(error) = message.get("error") {
        return Some(
            Err(
                text::concat(
                    "Codex app-server rejected account/login/cancel: ",
                    wire::write(error).as_str(),
                ),
            ),
        );
    }
    match message.get_inner_string("result", "status") {
        None => Some(
            Err(
                "Codex app-server returned a malformed login cancellation response".to_owned(),
            ),
        ),
        Some(status) => {
            if text::same(status.as_str(), "canceled") {
                Some(Ok(LoginCancelStatus::Canceled))
            } else if text::same(status.as_str(), "notFound") {
                Some(Ok(LoginCancelStatus::NotFound))
            } else {
                Some(
                    Err(
                        text::concat(
                            "Codex app-server returned unknown login cancellation status ",
                            command::quote(status.as_str()).as_str(),
                        ),
                    ),
                )
            }
        },
    }
}

/// What a message says of the end of a login, if it does: one that names another login does
/// not.
pub open spec fn completion(message: JsonModel, login_id: Seq<char>) -> Option<Result<(), Seq<char>>> {
    if field_text(message, "method"@) != Some("account/login/completed"@) {
        None
    } else {
        match field(message, "params"@) {
            None => Some(Err("login completion notification is missing params"@)),
            Some(params) => if field_text(params, "loginId"@) matches Some(id) && id != login_id {
                None
            } else if field_bool(params, "success"@) == Some(true) {
                Some(Ok(()))
            } else {
                Some(
                    Err(
                        "Codex login failed: "@ + field_text_or(
                            params,
                            "error"@,
                            "the browser login did not complete"@,
                        ),
                    ),
                )
            },
        }
    }
}

/// See [`completion`].
pub fn parse_login_completion(message: &Json, expected_login_id: &str) -> (r: Option<
    Result<(), String>,
>)
    ensures
        outcome_view(r) == completion(message@, expected_login_id@),
{
    match message.get_str("method") {
        Some(method) => {
            if !text::same(method, "account/login/completed") {
                return None;
            }
        },
        None => {
            return None;
        },
    }
    match message.get("params") {
        None => Some(Err("login completion notification is missing params".to_owned())),
        Some(params) => {
            if let Some(id) = params.get_str("loginId") {
                if !text::same(id, expected_login_id) {
                    return None;
                }
            }
            let success = match params.get_bool("success") {
                Some(b) => b,
                None => false,
            };
            if success {
                return Some(Ok(()));
            }
            let detail = params.get_string_or("error", "the browser login did not complete");
            Some(Err(text::concat("Codex login failed: ", detail.as_str())))
        },
    }
}

/// What starts a login in the browser. The success page stays local: the end of the login
/// comes over the session.
pub open spec fn login_params() -> JsonModel {
    JsonModel::Object(
        map![
            "type"@ => JsonModel::Str("chatgpt"@),
            "useHostedLoginSuccessPage"@ => JsonModel::Bool(false),
        ],
    )
}

/// See [`login_params`].
pub fn chatgpt_login_params() -> (r: Json)
    ensures
        r@ == login_params(),
{
    ObjectBuilder::new().put("type", json::string("chatgpt")).put(
        "useHostedLoginSuccessPage",
        Json::Bool(false),
    ).done()
}

/// The text that a result must hold under a name.
pub open spec fn required(value: JsonModel, name: Seq<char>) -> Result<Seq<char>, Seq<char>> {
    match field_text(value, name) {
        Some(s) => Ok(s),
        None => Err("Codex app-server result is missing "@ + name),
    }
}

/// See [`required`].
pub fn required_string(value: &Json, name: &str) -> (r: Result<String, String>)
    ensures
        match r {
            Ok(s) => required(value@, name@) == Ok::<Seq<char>, Seq<char>>(s@),
            Err(e) => required(value@, name@) == Err::<Seq<char>, Seq<char>>(e@),
        },
{
    match value.get_string(name) {
        Some(s) => Ok(s),
        None => Err(text::concat("Codex app-server result is missing ", name)),
    }
}

/// The id and the address of a login that was started. Only a secure address is taken.
pub open spec fn started_login(result: JsonModel) -> Result<(Seq<char>, Seq<char>), Seq<char>> {
    match (required(result, "loginId"@), required(result, "authUrl"@)) {
        (Err(e), _) => Err(e),
        (Ok(_), Err(e)) => Err(e),
        (Ok(id), Ok(url)) => if begins(url, "https://"@) {
            Ok((id, url))
        } else {
            Err("Codex returned a non-HTTPS authentication URL"@)
        },
    }
}

/// See [`started_login`].
pub fn parse_login_start(result: &Json) -> (r: Result<(String, String), String>)
    ensures
        match r {
            Ok((id, url)) => started_login(result@) == Ok::<(Seq<char>, Seq<char>), Seq<char>>(
                (id@, url@),
            ),
            Err(e) => started_login(result@) == Err::<(Seq<char>, Seq<char>), Seq<char>>(e@),
        },
{
    let login_id = match required_string(result, "loginId") {
        Ok(id) => id,
        Err(e) => {
            return Err(e);
        },
    };
    let auth_url = match required_string(result, "authUrl") {
        Ok(url) => url,
        Err(e) => {
            return Err(e);
        },
    };
    if !text::starts_with(auth_url.as_str(), "https://") {
        return Err("Codex returned a non-HTTPS authentication URL".to_owned());
    }
    Ok((login_id, auth_url))
}

/// The address of a login that is opened is always a secure one.
pub proof fn login_addresses_are_secure(result: JsonModel)
    ensures
        started_login(result) matches Ok((_, url)) ==> begins(url, "https://"@),
{
}

/// The account of a kind.
pub open spec fn account_of(account: JsonModel, kind: Seq<char>) -> AccountModel {
    if kind == "chatgpt"@ {
        AccountModel::ChatGpt {
            email: field_text(account, "email"@),
            plan: field_text_or(account, "planType"@, "unknown"@),
        }
    } else if kind == "apiKey"@ {
        AccountModel::ApiKey
    } else {
        AccountModel::Other(kind)
    }
}

/// What an account reading tells.
pub open spec fn account_status(result: JsonModel) -> Result<AccountStatusModel, Seq<char>> {
    match field_bool(result, "requiresOpenaiAuth"@) {
        None => Err("account/read result is missing requiresOpenaiAuth"@),
        Some(requires_openai_auth) => match field(result, "account"@) {
            None => Ok(AccountStatusModel { account: None, requires_openai_auth }),
            Some(JsonModel::Null) => Ok(AccountStatusModel { account: None, requires_openai_auth }),
            Some(account) => match required(account, "type"@) {
                Err(e) => Err(e),
                Ok(kind) => Ok(
                    AccountStatusModel {
                        account: Some(account_of(account, kind)),
                        requires_openai_auth,
                    },
                ),
            },
        },
    }
}

/// See [`account_status`].
pub fn parse_account_status(result: &Json) -> (r: Result<CodexAccountStatus, String>)
    ensures
        match r {
            Ok(status) => account_status(result@) == Ok::<AccountStatusModel, Seq<char>>(status@),
            Err(e) => account_status(result@) == Err::<AccountStatusModel, Seq<char>>(e@),
        },
{
    let requires_openai_auth = match result.get_bool("requiresOpenaiAuth") {
        Some(b) => b,
        None => {
            return Err("account/read result is missing requiresOpenaiAuth".to_owned());
        },
    };
    let account = match result.get("account") {
        None => None,
        Some(Json::Null) => None,
        Some(account) => {
            let kind = match required_string(account, "type") {
                Ok(kind) => kind,
                Err(e) => {
                    return Err(e);
                },
            };
            Some(
                if text::same(kind.as_str(), "chatgpt") {
                    CodexAccount::ChatGpt {
                        email: account.get_string("email"),
                        plan: account.get_string_or("planType", "unknown"),
                    }
                } else if text::same(kind.as_str(), "apiKey") {
                    CodexAccount::ApiKey
                } else {
                    CodexAccount::Other(kind)
                },
            )
        },
    };
    Ok(CodexAccountStatus { account, requires_openai_auth })
}

/// What to send before the next message is read, or how the exchange ended.
pub enum AuthStep<T> {
    Exchange(Vec<Json>),
    Done(Result<T, String>),
}

/// The value of an `AuthStep`.
#[verifier::ext_equal]
pub enum AuthStepModel<V> {
    Exchange(Seq<JsonModel>),
    Done(Result<V, Seq<char>>),
}

impl<T: View> View for AuthStep<T> {
    type V = AuthStepModel<T::V>;

    open spec fn view(&self) -> AuthStepModel<T::V> {
        match self {
            AuthStep::Exchange(messages) => AuthStepModel::Exchange(views(messages@)),
            AuthStep::Done(r) => AuthStepModel::Done(
                match r {
                    Ok(t) => Ok(t@),
                    Err(e) => Err(e@),
                },
            ),
        }
    }
}

/// The result that the answer to a request holds.
pub open spec fn answer_result(method: Seq<char>, message: JsonModel) -> Result<JsonModel, Seq<char>> {
    match field(message, "error"@) {
        Some(error) => Err(
            "Codex app-server rejected "@ + method + ": "@ + json_text(error),
        ),
        None => match field(message, "result"@) {
            Some(result) => Ok(result),
            None => Err("Codex app-server returned no result for "@ + method),
        },
    }
}

/// See [`answer_result`].
fn result_in(method: &str, message: &Json) -> (r: Result<Json, String>)
    ensures
        match r {
            Ok(j) => answer_result(method@, message@) == Ok::<JsonModel, Seq<char>>(j@),
            Err(e) => answer_result(method@, message@) == Err::<JsonModel, Seq<char>>(e@),
        },
{
    match message.get("error") {
        Some(error) => {
            let mut why = text::concat3("Codex app-server rejected ", method, ": ");
            why.append(wire::write(error).as_str());
            Err(why)
        },
        None => match message.get("result") {
            Some(result) => Ok(json::copy(result)),
            None => Err(text::concat("Codex app-server returned no result for ", method)),
        },
    }
}

/// The position, from `i` on, of the message that answers the request with an id.
pub open spec fn answer_from(messages: Seq<JsonModel>, id: u64, i: int) -> Option<int>
    decreases messages.len() - i,
{
    if i < 0 || i >= messages.len() {
        None
    } else if answered_id(messages[i]) == Some(id) {
        Some(i)
    } else {
        answer_from(messages, id, i + 1)
    }
}

/// See [`answer_from`].
fn find_answer(messages: &Vec<Json>, id: u64, from: usize) -> (r: Option<usize>)
    requires
        from <= messages.len(),
    ensures
        match r {
            Some(k) => answer_from(views(messages@), id, from as int) == Some(k as int) && k
                < messages.len(),
            None => answer_from(views(messages@), id, from as int) is None,
        },
{
    let mut i: usize = from;
    while i < messages.len()
        invariant
            i <= messages.len(),
            answer_from(views(messages@), id, from as int) == answer_from(
                views(messages@),
                id,
                i as int,
            ),
        decreases messages.len() - i,
    {
        assert(views(messages@)[i as int] == messages@[i as int]@);
        if answers(&messages[i], id) {
            return Some(i);
        }
        i = i + 1;
    }
    None
}

/// What the program says of itself before it asks for the account.
pub open spec fn client_params(version: Seq<char>) -> JsonModel {
    JsonModel::Object(
        map![
            "clientInfo"@ => JsonModel::Object(
                map![
                    "name"@ => JsonModel::Str("rode"@),
                    "title"@ => JsonModel::Str("Rode"@),
                    "version"@ => JsonModel::Str(version),
                ],
            ),
        ],
    )
}

/// A request.
fn request_message(id: u64, method: &str, params: Json) -> (r: Json)
    ensures
        r@ == request_json(id, method@, params@),
{
    ObjectBuilder::new().put("id", Json::Uint(id)).put("method", json::string(method)).put(
        "params",
        params,
    ).done()
}

/// Making a request in a session that has just begun: what to send next after the messages so
/// far. The session is initialized first; messages that answer nothing are passed over.
pub open spec fn first_request_step(
    version: Seq<char>,
    id: u64,
    method: Seq<char>,
    params: JsonModel,
    messages: Seq<JsonModel>,
) -> AuthStepModel<JsonModel> {
    match answer_from(messages, INITIALIZE_REQUEST_ID, 0) {
        None => AuthStepModel::Exchange(
            if messages.len() == 0 {
                seq![request_json(INITIALIZE_REQUEST_ID, "initialize"@, client_params(version))]
            } else {
                Seq::empty()
            },
        ),
        Some(k) => match answer_result("initialize"@, messages[k]) {
            Err(e) => AuthStepModel::Done(Err(e)),
            Ok(_) => match answer_from(messages, id, k + 1) {
                None => AuthStepModel::Exchange(
                    if messages.len() == k + 1 {
                        seq![
                            notification_json("initialized"@, None),
                            request_json(id, method, params),
                        ]
                    } else {
                        Seq::empty()
                    },
                ),
                Some(m) => AuthStepModel::Done(answer_result(method, messages[m])),
            },
        },
    }
}

/// See [`first_request_step`].
fn first_request(version: &str, id: u64, method: &str, params: Json, messages: &Vec<Json>) -> (r:
    AuthStep<Json>)
    ensures
        r@ == first_request_step(version@, id, method@, params@, views(messages@)),
{
    broadcast use {views_push, views_index};

    let mut send: Vec<Json> = Vec::new();
    assert(views(send@) =~= Seq::<JsonModel>::empty());
    match find_answer(messages, INITIALIZE_REQUEST_ID, 0) {
        None => {
            if messages.len() == 0 {
                let info = ObjectBuilder::new().put("name", json::string("rode")).put(
                    "title",
                    json::string("Rode"),
                ).put("version", json::string(version)).done();
                let client = ObjectBuilder::new().put("clientInfo", info).done();
                send.push(request_message(INITIALIZE_REQUEST_ID, "initialize", client));
                assert(views(send@) =~= seq![
                    request_json(INITIALIZE_REQUEST_ID, "initialize"@, client_params(version@)),
                ]);
            }
            AuthStep::Exchange(send)
        },
        Some(k) => match result_in("initialize", &messages[k]) {
            Err(e) => AuthStep::Done(Err(e)),
            Ok(_) => match find_answer(messages, id, k + 1) {
                None => {
                    if messages.len() == k + 1 {
                        send.push(notify_message("initialized", None));
                        send.push(request_message(id, method, params));
                        assert(views(send@) =~= seq![
                            notification_json("initialized"@, None),
                            request_json(id, method@, params@),
                        ]);
                    }
                    AuthStep::Exchange(send)
                },
                Some(m) => AuthStep::Done(result_in(method, &messages[m])),
            },
        },
    }
}

/// The parameters of an account reading.
pub open spec fn account_params() -> JsonModel {
    JsonModel::Object(map!["refreshToken"@ => JsonModel::Bool(false)])
}

/// See [`account_params`].
fn account_read_params() -> (r: Json)
    ensures
        r@ == account_params(),
{
    ObjectBuilder::new().put("refreshToken", Json::Bool(false)).done()
}

/// What an answer came to, read as an account status.
pub open spec fn status_step(step: AuthStepModel<JsonModel>) -> AuthStepModel<AccountStatusModel> {
    match step {
        AuthStepModel::Exchange(send) => AuthStepModel::Exchange(send),
        AuthStepModel::Done(Err(e)) => AuthStepModel::Done(Err(e)),
        AuthStepModel::Done(Ok(result)) => AuthStepModel::Done(account_status(result)),
    }
}

/// Reading the account over a connection that was just made.
pub open spec fn account_reading(version: Seq<char>, messages: Seq<JsonModel>) -> AuthStepModel<
    AccountStatusModel,
> {
    status_step(
        first_request_step(
            version,
            ACCOUNT_READ_REQUEST_ID,
            "account/read"@,
            account_params(),
            messages,
        ),
    )
}

/// Reading the account in a session that has just begun: what to send next after the messages
/// so far.
pub fn read_codex_account(version: &str, messages: &Vec<Json>) -> (r: AuthStep<CodexAccountStatus>)
    ensures
        r@ == account_reading(version@, views(messages@)),
        r@ == status_step(
            first_request_step(
                version@,
                ACCOUNT_READ_REQUEST_ID,
                "account/read"@,
                account_params(),
                views(messages@),
            ),
        ),
{
    match first_request(
        version,
        ACCOUNT_READ_REQUEST_ID,
        "account/read",
        account_read_params(),
        messages,
    ) {
        AuthStep::Exchange(send) => AuthStep::Exchange(send),
        AuthStep::Done(Err(e)) => AuthStep::Done(Err(e)),
        AuthStep::Done(Ok(result)) => AuthStep::Done(parse_account_status(&result)),
    }
}

/// Reading the account in a session in which a login has ended: what to send next after the
/// messages since then.
pub open spec fn account_step(messages: Seq<JsonModel>) -> AuthStepModel<JsonModel> {
    match answer_from(messages, ACCOUNT_READ_REQUEST_ID, 0) {
        None => AuthStepModel::Exchange(
            if messages.len() == 0 {
                seq![request_json(ACCOUNT_READ_REQUEST_ID, "account/read"@, account_params())]
            } else {
                Seq::empty()
            },
        ),
        Some(m) => AuthStepModel::Done(answer_result("account/read"@, messages[m])),
    }
}

/// Reading the account over a connection that is set up.
pub open spec fn account_reading_again(messages: Seq<JsonModel>) -> AuthStepModel<
    AccountStatusModel,
> {
    status_step(account_step(messages))
}

/// See [`account_step`].
pub fn read_account(messages: &Vec<Json>) -> (r: AuthStep<CodexAccountStatus>)
    ensures
        r@ == account_reading_again(views(messages@)),
        r@ == status_step(account_step(views(messages@))),
{
    broadcast use {views_push, views_index};

    match find_answer(messages, ACCOUNT_READ_REQUEST_ID, 0) {
        None => {
            let mut send: Vec<Json> = Vec::new();
            assert(views(send@) =~= Seq::<JsonModel>::empty());
            if messages.len() == 0 {
                send.push(
                    request_message(ACCOUNT_READ_REQUEST_ID, "account/read", account_read_params()),
                );
                assert(views(send@) =~= seq![
                    request_json(ACCOUNT_READ_REQUEST_ID, "account/read"@, account_params()),
                ]);
            }
            AuthStep::Exchange(send)
        },
        Some(m) => match result_in("account/read", &messages[m]) {
            Err(e) => AuthStep::Done(Err(e)),
            Ok(result) => AuthStep::Done(parse_account_status(&result)),
        },
    }
}

/// A login in the browser that has not ended.
#[derive(Debug, PartialEq, Eq)]
pub struct PendingCodexLogin {
    pub login_id: String,
    pub auth_url: String,
}

/// The value of a `PendingCodexLogin`.
#[verifier::ext_equal]
pub struct LoginModel {
    pub login_id: Seq<char>,
    pub auth_url: Seq<char>,
}

impl View for PendingCodexLogin {
    type V = LoginModel;

    open spec fn view(&self) -> LoginModel {
        LoginModel { login_id: self.login_id@, auth_url: self.auth_url@ }
    }
}

/// What an answer came to, read as a login that was started.
pub open spec fn login_step(step: AuthStepModel<JsonModel>) -> AuthStepModel<LoginModel> {
    match step {
        AuthStepModel::Exchange(send) => AuthStepModel::Exchange(send),
        AuthStepModel::Done(Err(e)) => AuthStepModel::Done(Err(e)),
        AuthStepModel::Done(Ok(result)) => match started_login(result) {
            Ok((login_id, auth_url)) => AuthStepModel::Done(Ok(LoginModel { login_id, auth_url })),
            Err(e) => AuthStepModel::Done(Err(e)),
        },
    }
}

/// Starting a login over a connection that was just made.
pub open spec fn login_beginning(version: Seq<char>, messages: Seq<JsonModel>) -> AuthStepModel<
    LoginModel,
> {
    login_step(
        first_request_step(
            version,
            LOGIN_REQUEST_ID,
            "account/login/start"@,
            login_params(),
            messages,
        ),
    )
}

/// Starting a login in a session that has just begun: what to send next after the messages so
/// far.
pub fn begin_codex_login(version: &str, messages: &Vec<Json>) -> (r: AuthStep<PendingCodexLogin>)
    ensures
        r@ == login_beginning(version@, views(messages@)),
        r@ == login_step(
            first_request_step(
                version@,
                LOGIN_REQUEST_ID,
                "account/login/start"@,
                login_params(),
                views(messages@),
            ),
        ),
{
    match first_request(
        version,
        LOGIN_REQUEST_ID,
        "account/login/start",
        chatgpt_login_params(),
        messages,
    ) {
        AuthStep::Exchange(send) => AuthStep::Exchange(send),
        AuthStep::Done(Err(e)) => AuthStep::Done(Err(e)),
        AuthStep::Done(Ok(result)) => match parse_login_start(&result) {
            Ok((login_id, auth_url)) => AuthStep::Done(
                Ok(PendingCodexLogin { login_id, auth_url }),
            ),
            Err(e) => AuthStep::Done(Err(e)),
        },
    }
}

/// What a message means while a login is waited for.
pub enum LoginStep {
    /// Read the next message.
    Continue,
    /// The login was cancelled.
    Cancelled,
    /// The login succeeded: the account can be read.
    ReadAccount,
    /// The login failed.
    Failed(String),
}

/// The value of a `LoginStep`.
#[verifier::ext_equal]
pub enum LoginStepModel {
    Continue,
    Cancelled,
    ReadAccount,
    Failed(Seq<char>),
}

impl View for LoginStep {
    type V = LoginStepModel;

    open spec fn view(&self) -> LoginStepModel {
        match self {
            LoginStep::Continue => LoginStepModel::Continue,
            LoginStep::Cancelled => LoginStepModel::Cancelled,
            LoginStep::ReadAccount => LoginStepModel::ReadAccount,
            LoginStep::Failed(e) => LoginStepModel::Failed(e@),
        }
    }
}

/// What a message means while the login with an id is waited for, which the user may have asked
/// to cancel.
pub open spec fn awaited(login_id: Seq<char>, cancel_requested: bool, message: JsonModel) -> LoginStepModel {
    match cancel_status(message) {
        Some(Ok(LoginCancelStatus::Canceled)) => LoginStepModel::Cancelled,
        Some(Ok(LoginCancelStatus::NotFound)) => LoginStepModel::Continue,
        Some(Err(e)) => LoginStepModel::Failed(e),
        None => match completion(message, login_id) {
            None => LoginStepModel::Continue,
            Some(Ok(())) => LoginStepModel::ReadAccount,
            Some(Err(e)) => LoginStepModel::Failed(
                if cancel_requested {
                    "login failed before Codex confirmed the cancellation request: "@ + e
                } else {
                    e
                },
            ),
        },
    }
}

impl PendingCodexLogin {
    /// What can cancel this login.
    pub fn cancellation(&self) -> (r: PendingCodexLoginCancellation)
        ensures
            r.login_id@ == self@.login_id,
    {
        PendingCodexLoginCancellation { login_id: self.login_id.clone() }
    }

    /// See [`awaited`].
    pub fn wait(&self, cancel_requested: bool, message: &Json) -> (r: LoginStep)
        ensures
            r@ == awaited(self@.login_id, cancel_requested, message@),
    {
        match parse_login_cancel_response(message) {
            Some(Ok(LoginCancelStatus::Canceled)) => LoginStep::Cancelled,
            Some(Ok(LoginCancelStatus::NotFound)) => LoginStep::Continue,
            Some(Err(e)) => LoginStep::Failed(e),
            None => match parse_login_completion(message, self.login_id.as_str()) {
                None => LoginStep::Continue,
                Some(Ok(())) => LoginStep::ReadAccount,
                Some(Err(e)) => {
                    if cancel_requested {
                        LoginStep::Failed(
                            text::concat(
                                "login failed before Codex confirmed the cancellation request: ",
                                e.as_str(),
                            ),
                        )
                    } else {
                        LoginStep::Failed(e)
                    }
                },
            },
        }
    }
}

/// What can cancel a login.
#[derive(Debug, PartialEq, Eq)]
pub struct PendingCodexLoginCancellation {
    pub login_id: String,
}

impl PendingCodexLoginCancellation {
    /// The request that cancels the login.
    pub fn cancel(&self) -> (r: Json)
        ensures
            r@ == cancel_json(self.login_id@),
    {
        login_cancel_message(self.login_id.as_str())
    }
}

/// A login that the server says is cancelled ends as cancelled, whatever the user asked for.
pub proof fn confirmed_cancellation_ends_the_login(
    login_id: Seq<char>,
    cancel_requested: bool,
    message: JsonModel,
)
    requires
        cancel_status(message) == Some(Ok::<LoginCancelStatus, Seq<char>>(LoginCancelStatus::Canceled)),
    ensures
        awaited(login_id, cancel_requested, message) == LoginStepModel::Cancelled,
{
}

/// The end of another login does not end this one.
pub proof fn other_logins_do_not_matter(
    login_id: Seq<char>,
    cancel_requested: bool,
    message: JsonModel,
    params: JsonModel,
)
    requires
        answered_id(message) != Some(LOGIN_CANCEL_REQUEST_ID),
        field(message, "params"@) == Some(params),
        field_text(params, "loginId"@) matches Some(id) && id != login_id,
    ensures
        awaited(login_id, cancel_requested, message) == LoginStepModel::Continue,
{
}

/// The message that a line of the server holds.
pub open spec fn message_in(line: Seq<char>) -> Result<JsonModel, Seq<char>> {
    match read_json(line) {
        Ok(j) => Ok(j),
        Err(e) => Err("Codex app-server returned invalid JSON: "@ + e),
    }
}

/// See [`message_in`].
pub fn read_message(line: &str) -> (r: Result<Json, String>)
    ensures
        match r {
            Ok(j) => message_in(line@) == Ok::<JsonModel, Seq<char>>(j@),
            Err(e) => message_in(line@) == Err::<JsonModel, Seq<char>>(e@),
        },
{
    match wire::read(line) {
        Ok(j) => Ok(j),
        Err(e) => Err(text::concat("Codex app-server returned invalid JSON: ", e.as_str())),
    }
}

/// Of an account nothing is kept but its kind, its address and its plan: two readings that agree
/// on these give one status, whatever else they hold.
pub proof fn no_more_than_the_account_is_kept(a: JsonModel, b: JsonModel)
    requires
        field_bool(a, "requiresOpenaiAuth"@) == field_bool(b, "requiresOpenaiAuth"@),
        field(a, "account"@) is Some == field(b, "account"@) is Some,
        field(a, "account"@) matches Some(x) ==> field(b, "account"@) matches Some(y) && {
            &&& x is Null == y is Null
            &&& field_text(x, "type"@) == field_text(y, "type"@)
            &&& field_text(x, "email"@) == field_text(y, "email"@)
            &&& field_text(x, "planType"@) == field_text(y, "planType"@)
        },
    ensures
        account_status(a) == account_status(b),
{
}

proof fn account_names_differ()
    ensures
        "id"@ != "method"@,
        "id"@ != "params"@,
        "method"@ != "params"@,
        "chatgpt"@ != "apiKey"@,
        "canceled"@ != "notFound"@,
        "type"@ != "useHostedLoginSuccessPage"@,
{
    reveal_strlit("id");
    reveal_strlit("method");
    reveal_strlit("params");
    reveal_strlit("chatgpt");
    reveal_strlit("apiKey");
    reveal_strlit("canceled");
    reveal_strlit("notFound");
    reveal_strlit("type");
    reveal_strlit("useHostedLoginSuccessPage");
    assert("method"@[0] != "params"@[0]);
    assert("chatgpt"@[0] != "apiKey"@[0]);
    assert("canceled"@[0] != "notFound"@[0]);
    assert("type"@[0] != "useHostedLoginSuccessPage"@[0]);
}

/// Whether a message is a request with a number, a method and parameters.
pub open spec fn requests(message: JsonModel, id: int, method: Seq<char>, params: JsonModel) -> bool {
    &&& stands_under(message, "id"@, JsonModel::Int(id))
    &&& stands_under(message, "method"@, JsonModel::Str(method))
    &&& stands_under(message, "params"@, params)
}

/// Whether a message answers the request with a number.
pub open spec fn answers_with(message: JsonModel, id: int, result: JsonModel) -> bool {
    &&& stands_under(message, "id"@, JsonModel::Int(id))
    &&& stands_under(message, "result"@, result)
    &&& is_bare_of(message, "error"@)
}

/// The cancellation of a login names that login, and no other.
pub proof fn cancellations_name_their_login(login_id: Seq<char>, other: Seq<char>)
    ensures
        stands_under(cancel_json(login_id), "method"@, JsonModel::Str("account/login/cancel"@)),
        inner_text(cancel_json(login_id), "params"@, "loginId"@) == Some(login_id),
        login_id != other ==> cancel_json(login_id) != cancel_json(other),
        stands_under(
            cancel_json(login_id),
            "id"@,
            JsonModel::Int(LOGIN_CANCEL_REQUEST_ID as int),
        ),
{
    account_names_differ();
    assert(inner_text(cancel_json(other), "params"@, "loginId"@) == Some(other));
}

/// A login that the app-server says has ended well leads on to the account, and one that has not
/// is told with the reason that came along. Both hold of the login that is waited for, and of no
/// other.
pub proof fn ended_logins_are_told_as_they_ended(
    message: JsonModel,
    params: JsonModel,
    login_id: Seq<char>,
    other: Seq<char>,
    error: Seq<char>,
    cancel_requested: bool,
)
    requires
        is_bare_of(message, "id"@),
        stands_under(message, "method"@, JsonModel::Str("account/login/completed"@)),
        stands_under(message, "params"@, params),
        stands_under(params, "loginId"@, JsonModel::Str(login_id)),
        other != login_id,
    ensures
        stands_under(params, "success"@, JsonModel::Bool(true)) ==> awaited(
            login_id,
            cancel_requested,
            message,
        ) is ReadAccount,
        stands_under(params, "success"@, JsonModel::Bool(false)) && stands_under(
            params,
            "error"@,
            JsonModel::Str(error),
        ) ==> (awaited(login_id, cancel_requested, message) matches LoginStepModel::Failed(why)
            && has_part(why, error)),
        is_bare_of(params, "success"@) ==> awaited(login_id, cancel_requested, message) is Failed,
        awaited(other, cancel_requested, message) is Continue,
{
    let none = Seq::<char>::empty();
    let failed = "Codex login failed: "@;
    let early = "login failed before Codex confirmed the cancellation request: "@;
    assert(failed + error + none =~= failed + error);
    parts_are_held(failed, error, none);
    parts_are_held(early + failed, error, none);
    assert(early + failed + error + none =~= early + (failed + error));
}

/// A cancellation that the app-server confirms ends the login, one that came too late does not,
/// and one that was refused is told with the reason; nothing else is read as an answer to it.
pub proof fn cancellations_are_told_as_answered(
    message: JsonModel,
    result: JsonModel,
    error: JsonModel,
    login_id: Seq<char>,
    cancel_requested: bool,
)
    requires
        stands_under(message, "id"@, JsonModel::Int(LOGIN_CANCEL_REQUEST_ID as int)),
    ensures
        is_bare_of(message, "error"@) && stands_under(message, "result"@, result) && stands_under(
            result,
            "status"@,
            JsonModel::Str("canceled"@),
        ) ==> awaited(login_id, cancel_requested, message) is Cancelled,
        is_bare_of(message, "error"@) && stands_under(message, "result"@, result) && stands_under(
            result,
            "status"@,
            JsonModel::Str("notFound"@),
        ) ==> awaited(login_id, cancel_requested, message) is Continue,
        stands_under(message, "error"@, error) ==> (awaited(login_id, cancel_requested, message)
            matches LoginStepModel::Failed(why) && has_part(why, json_text(error))),
        is_bare_of(message, "error"@) && is_bare_of(message, "result"@) ==> awaited(
            login_id,
            cancel_requested,
            message,
        ) is Failed,
{
    account_names_differ();
    let none = Seq::<char>::empty();
    let refused = "Codex app-server rejected account/login/cancel: "@;
    assert(refused + json_text(error) + none =~= refused + json_text(error));
    parts_are_held(refused, json_text(error), none);
}

/// The account is the one that the app-server tells of: of ChatGPT with its address and its plan,
/// of a key, or of another kind under its name; where it tells of none there is none.
pub proof fn accounts_are_read_as_told(
    result: JsonModel,
    account: JsonModel,
    needed: bool,
    email: Seq<char>,
    plan: Seq<char>,
    kind: Seq<char>,
)
    requires
        stands_under(result, "requiresOpenaiAuth"@, JsonModel::Bool(needed)),
    ensures
        stands_under(result, "account"@, account) && stands_under(
            account,
            "type"@,
            JsonModel::Str("chatgpt"@),
        ) && stands_under(account, "email"@, JsonModel::Str(email)) && stands_under(
            account,
            "planType"@,
            JsonModel::Str(plan),
        ) ==> account_status(result) == Ok::<AccountStatusModel, Seq<char>>(
            AccountStatusModel {
                account: Some(AccountModel::ChatGpt { email: Some(email), plan }),
                requires_openai_auth: needed,
            },
        ),
        stands_under(result, "account"@, account) && stands_under(
            account,
            "type"@,
            JsonModel::Str("chatgpt"@),
        ) && is_bare_of(account, "email"@) ==> (account_status(result) matches Ok(status)
            && status.account matches Some(AccountModel::ChatGpt { email: None, .. })),
        stands_under(result, "account"@, account) && stands_under(
            account,
            "type"@,
            JsonModel::Str("apiKey"@),
        ) ==> account_status(result) == Ok::<AccountStatusModel, Seq<char>>(
            AccountStatusModel {
                account: Some(AccountModel::ApiKey),
                requires_openai_auth: needed,
            },
        ),
        stands_under(result, "account"@, account) && stands_under(
            account,
            "type"@,
            JsonModel::Str(kind),
        ) && kind != "chatgpt"@ && kind != "apiKey"@ ==> account_status(result) == Ok::<
            AccountStatusModel,
            Seq<char>,
        >(
            AccountStatusModel {
                account: Some(AccountModel::Other(kind)),
                requires_openai_auth: needed,
            },
        ),
        is_bare_of(result, "account"@) || stands_under(result, "account"@, JsonModel::Null)
            ==> account_status(result) == Ok::<AccountStatusModel, Seq<char>>(
            AccountStatusModel { account: None, requires_openai_auth: needed },
        ),
{
    account_names_differ();
}

/// A login goes on under the id and at the address that the app-server gave, where the address is
/// a secure one; without the one or the other, or with another address, there is no login.
pub proof fn logins_are_started_as_told(result: JsonModel, id: Seq<char>, url: Seq<char>)
    ensures
        stands_under(result, "loginId"@, JsonModel::Str(id)) && stands_under(
            result,
            "authUrl"@,
            JsonModel::Str(url),
        ) ==> (started_login(result) matches Ok(started) ==> started == (id, url)) && (
        started_login(result) is Ok <==> begins(url, "https://"@)),
        is_bare_of(result, "loginId"@) || is_bare_of(result, "authUrl"@) ==> started_login(result)
            is Err,
{
}

/// The account is read so: the connection is set up first, then the account is asked for without
/// a new token, and what comes back under that request is what is read. A refusal ends it.
pub proof fn the_account_is_asked_for(
    version: Seq<char>,
    first: JsonModel,
    set_up: JsonModel,
    second: JsonModel,
    result: JsonModel,
)
    requires
        answers_with(first, INITIALIZE_REQUEST_ID as int, set_up),
        answers_with(second, ACCOUNT_READ_REQUEST_ID as int, result),
    ensures
        account_reading(version, Seq::empty()) matches AuthStepModel::Exchange(send) && send.len()
            == 1 && stands_under(send[0], "method"@, JsonModel::Str("initialize"@)),
        account_reading(version, seq![first]) matches AuthStepModel::Exchange(send) && send.len()
            == 2 && stands_under(send[0], "method"@, JsonModel::Str("initialized"@)) && (exists|
            params: JsonModel,
        |
            requests(send[1], ACCOUNT_READ_REQUEST_ID as int, "account/read"@, params)
                && stands_under(params, "refreshToken"@, JsonModel::Bool(false))),
        account_reading(version, seq![first, second]) == AuthStepModel::Done(
            account_status(result),
        ),
        account_reading_again(Seq::empty()) matches AuthStepModel::Exchange(send) && send.len()
            == 1 && stands_under(send[0], "method"@, JsonModel::Str("account/read"@)),
        account_reading_again(seq![second]) == AuthStepModel::Done(account_status(result)),
{
    account_names_differ();
    reveal_with_fuel(answer_from, 3);
    let one = seq![first];
    let two = seq![first, second];
    assert(answered_id(first) == Some(INITIALIZE_REQUEST_ID));
    assert(answered_id(second) == Some(ACCOUNT_READ_REQUEST_ID));
    assert(answer_from(one, INITIALIZE_REQUEST_ID, 0) == Some(0int));
    assert(answer_from(two, INITIALIZE_REQUEST_ID, 0) == Some(0int));
    assert(answer_from(two, ACCOUNT_READ_REQUEST_ID, 1) == Some(1int));
    assert(answer_from(seq![second], ACCOUNT_READ_REQUEST_ID, 0) == Some(0int));
    let ask = request_json(ACCOUNT_READ_REQUEST_ID, "account/read"@, account_params());
    assert(requests(ask, ACCOUNT_READ_REQUEST_ID as int, "account/read"@, account_params()));
    assert(stands_under(account_params(), "refreshToken"@, JsonModel::Bool(false)));
}

/// A login is begun so: the connection is set up first, then a login with ChatGPT is asked for,
/// and what comes back under that request is the login.
pub proof fn the_login_is_asked_for(
    version: Seq<char>,
    first: JsonModel,
    set_up: JsonModel,
    second: JsonModel,
    result: JsonModel,
    id: Seq<char>,
    url: Seq<char>,
)
    requires
        answers_with(first, INITIALIZE_REQUEST_ID as int, set_up),
        answers_with(second, LOGIN_REQUEST_ID as int, result),
        stands_under(result, "loginId"@, JsonModel::Str(id)),
        stands_under(result, "authUrl"@, JsonModel::Str(url)),
        begins(url, "https://"@),
    ensures
        login_beginning(version, Seq::empty()) matches AuthStepModel::Exchange(send) && send.len()
            == 1 && stands_under(send[0], "method"@, JsonModel::Str("initialize"@)),
        login_beginning(version, seq![first]) matches AuthStepModel::Exchange(send) && send.len()
            == 2 && stands_under(send[0], "method"@, JsonModel::Str("initialized"@)) && (exists|
            params: JsonModel,
        |
            requests(send[1], LOGIN_REQUEST_ID as int, "account/login/start"@, params)
                && stands_under(params, "type"@, JsonModel::Str("chatgpt"@))),
        login_beginning(version, seq![first, second]) == AuthStepModel::Done(
            Ok::<LoginModel, Seq<char>>(LoginModel { login_id: id, auth_url: url }),
        ),
{
    account_names_differ();
    reveal_with_fuel(answer_from, 3);
    let one = seq![first];
    let two = seq![first, second];
    assert(answered_id(first) == Some(INITIALIZE_REQUEST_ID));
    assert(answered_id(second) == Some(LOGIN_REQUEST_ID));
    assert(answer_from(one, INITIALIZE_REQUEST_ID, 0) == Some(0int));
    assert(answer_from(two, INITIALIZE_REQUEST_ID, 0) == Some(0int));
    assert(answer_from(two, LOGIN_REQUEST_ID, 1) == Some(1int));
    let ask = request_json(LOGIN_REQUEST_ID, "account/login/start"@, login_params());
    assert(requests(ask, LOGIN_REQUEST_ID as int, "account/login/start"@, login_params()));
    assert(stands_under(login_params(), "type"@, JsonModel::Str("chatgpt"@)));
}

/// A request that the app-server refuses comes to its reason, and nothing is read.
pub proof fn refusals_are_told(version: Seq<char>, first: JsonModel, error: JsonModel)
    requires
        stands_under(first, "id"@, JsonModel::Int(INITIALIZE_REQUEST_ID as int)),
        stands_under(first, "error"@, error),
    ensures
        account_reading(version, seq![first]) matches AuthStepModel::Done(Err(why)) && has_part(
            why,
            json_text(error),
        ),
        login_beginning(version, seq![first]) matches AuthStepModel::Done(Err(why)) && has_part(
            why,
            json_text(error),
        ),
{
    let one = seq![first];
    assert(answered_id(first) == Some(INITIALIZE_REQUEST_ID));
    assert(answer_from(one, INITIALIZE_REQUEST_ID, 0) == Some(0int));
    let none = Seq::<char>::empty();
    let refused = "Codex app-server rejected "@ + "initialize"@ + ": "@;
    assert(refused + json_text(error) + none =~= refused + json_text(error));
    parts_are_held(refused, json_text(error), none);
}

/// An account is summed up by what the user knows it by.
pub proof fn accounts_are_summed_up(email: Seq<char>, plan: Seq<char>, kind: Seq<char>)
    ensures
        ({
            let known = account_summary(AccountModel::ChatGpt { email: Some(email), plan });
            has_part(known, email) && has_part(known, plan)
        }),
        has_part(account_summary(AccountModel::ChatGpt { email: None, plan }), plan),
        account_summary(AccountModel::Other(kind)) == kind,
{
    let none = Seq::<char>::empty();
    let between = " · ChatGPT "@;
    assert(none + email + (between + plan) =~= email + between + plan);
    parts_are_held(none, email, between + plan);
    assert(email + between + plan + none =~= email + between + plan);
    parts_are_held(email + between, plan, none);
    assert("ChatGPT "@ + plan + none =~= "ChatGPT "@ + plan);
    parts_are_held("ChatGPT "@, plan, none);
}

} // verus!
