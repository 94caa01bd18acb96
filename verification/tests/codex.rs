//! Messages of the Codex app-server, sessions and sign-in.
use rode::agent::{RuntimeAccess, TurnAttachment, TurnRequest};
use rode::codex::{
    decode_notification, decode_server_request, receive_line, stderr_event, ApprovalKind,
    CodexEvent, Incoming, RpcId,
};
use rode::codex_auth::{
    begin_codex_login, chatgpt_login_params, login_cancel_message, parse_account_status,
    parse_login_cancel_response, parse_login_completion, parse_login_start, read_codex_account,
    read_message, AuthStep, CodexAccount, CodexAccountStatus, LoginCancelStatus, LoginStep,
    PendingCodexLogin,
};
use rode::json::Json;
use rode::session::{
    parse_models, request_outcome, thread_start_params, turn_inputs, turn_start_params, Answer,
    CodexSession, ModelStep,
};
use rode::wire;

fn json(text: &str) -> Json {
    wire::read(text).expect("a value")
}

fn same(left: &Json, right: &str) {
    assert_eq!(wire::write(left), wire::write(&json(right)));
}

#[test]
fn decodes_agent_message_delta() {
    let event = decode_notification(
        "item/agentMessage/delta",
        &json(r#"{ "delta": "hello", "itemId": "item-1" }"#),
    );
    assert!(matches!(
        event,
        Some(CodexEvent::AgentMessageDelta { delta, .. }) if delta == "hello"
    ));
}

#[test]
fn decodes_command_approval_request() {
    let event = decode_server_request(
        RpcId::Number(7),
        "item/commandExecution/requestApproval",
        &json(
            r#"{
                "itemId": "item-7",
                "command": "cargo publish",
                "cwd": "/workspace",
                "reason": "Requires network"
            }"#,
        ),
    );
    let Some(CodexEvent::ApprovalRequested(request)) = event else {
        panic!("expected approval request");
    };
    assert_eq!(request.kind, ApprovalKind::Command);
    assert_eq!(request.title, "cargo publish");
    assert!(request.detail.contains("Requires network"));
}

#[test]
fn decodes_completed_command() {
    let event = decode_notification(
        "item/completed",
        &json(
            r#"{
                "item": {
                    "type": "commandExecution",
                    "id": "command-1",
                    "command": "cargo test",
                    "exitCode": 0,
                    "aggregatedOutput": "4 passed"
                }
            }"#,
        ),
    );
    assert!(matches!(
        event,
        Some(CodexEvent::CommandCompleted { exit_code: Some(0), output, .. })
            if output == "4 passed"
    ));
}

#[test]
fn decodes_stream_ids_and_completed_file_changes() {
    assert!(matches!(
        decode_notification(
            "item/commandExecution/outputDelta",
            &json(r#"{ "itemId": "command-1", "delta": "building\n" }"#)
        ),
        Some(CodexEvent::CommandOutputDelta { item_id, delta })
            if item_id == "command-1" && delta == "building\n"
    ));
    assert!(matches!(
        decode_notification(
            "item/completed",
            &json(
                r#"{
                    "item": {
                        "type": "fileChange",
                        "id": "change-1",
                        "status": "completed",
                        "changes": [{ "path": "src/main.rs" }]
                    }
                }"#
            )
        ),
        Some(CodexEvent::FileChangeCompleted { item_id, summary, status })
            if item_id == "change-1" && summary == "src/main.rs" && status == "completed"
    ));
}

#[test]
fn parses_provider_reported_models_without_hardcoded_choices() {
    let models = parse_models(&json(
        r#"{
            "data": [{
                "id": "catalog-id",
                "model": "gpt-5.4",
                "displayName": "GPT-5.4",
                "description": "Latest coding model",
                "isDefault": true,
                "inputModalities": ["text", "image"]
            }],
            "nextCursor": null
        }"#,
    ))
    .expect("parse models");
    assert_eq!(models[0].id, "gpt-5.4");
    assert_eq!(models[0].display_name, "GPT-5.4");
    assert!(models[0].is_default);
    assert!(models[0].supports_images);
}

fn request(access: RuntimeAccess, cwd: &str) -> TurnRequest {
    TurnRequest {
        local_thread_id: "local-1".to_owned(),
        provider_thread_id: Some("provider-1".to_owned()),
        cwd: cwd.to_owned(),
        prompt: "Review".to_owned(),
        model: "gpt-5.4".to_owned(),
        access,
        attachments: vec![
            TurnAttachment::GitDiff { text: "+change".to_owned() },
            TurnAttachment::Image { path: "/tmp/design.png".to_owned() },
        ],
        full_access_confirmed: access == RuntimeAccess::FullAccess,
    }
}

#[test]
fn exact_model_and_access_are_encoded_in_thread_and_turn_requests() {
    let cwd = "/tmp/rode-worktree";
    let expected = [
        (
            RuntimeAccess::ReadOnly,
            "read-only",
            r#"{ "type": "readOnly", "networkAccess": false }"#,
        ),
        (
            RuntimeAccess::WorkspaceWrite,
            "workspace-write",
            r#"{
                "type": "workspaceWrite",
                "writableRoots": ["/tmp/rode-worktree"],
                "networkAccess": false,
                "excludeSlashTmp": false,
                "excludeTmpdirEnvVar": false
            }"#,
        ),
        (
            RuntimeAccess::FullAccess,
            "danger-full-access",
            r#"{ "type": "dangerFullAccess" }"#,
        ),
    ];
    for (access, thread_sandbox, turn_sandbox) in expected {
        let request = request(access, cwd);
        let thread = thread_start_params(cwd, &request.model, access);
        assert_eq!(thread.get_str("model"), Some("gpt-5.4"));
        assert_eq!(thread.get_str("sandbox"), Some(thread_sandbox));
        let inputs = turn_inputs(&request);
        assert_eq!(inputs.len(), 3);
        same(inputs[0].get("text_elements").expect("elements"), "[]");
        same(&inputs[2], r#"{ "type": "localImage", "path": "/tmp/design.png" }"#);
        let turn = turn_start_params("provider-1", &request, inputs, cwd);
        assert_eq!(turn.get_str("model"), Some("gpt-5.4"));
        same(turn.get("sandboxPolicy").expect("policy"), turn_sandbox);
    }
}

#[test]
fn copied_requests_keep_their_configuration() {
    let request = TurnRequest {
        local_thread_id: "thread-1".to_owned(),
        provider_thread_id: Some("provider-thread-1".to_owned()),
        cwd: "/tmp/rode-worktree".to_owned(),
        prompt: "Review this".to_owned(),
        model: "gpt-5.4".to_owned(),
        access: RuntimeAccess::ReadOnly,
        attachments: vec![TurnAttachment::GitDiff { text: "+safe change".to_owned() }],
        full_access_confirmed: false,
    };
    let restored = request.clone();
    assert_eq!(restored, request);
    assert!(RuntimeAccess::FullAccess.requires_confirmation());
    assert!(!RuntimeAccess::WorkspaceWrite.requires_confirmation());
}

#[test]
fn parses_chatgpt_account_without_exposing_tokens() {
    let status = parse_account_status(&json(
        r#"{
            "account": {
                "type": "chatgpt",
                "email": "developer@example.com",
                "planType": "plus"
            },
            "requiresOpenaiAuth": true
        }"#,
    ))
    .unwrap();

    assert_eq!(
        status,
        CodexAccountStatus {
            account: Some(CodexAccount::ChatGpt {
                email: Some("developer@example.com".to_owned()),
                plan: "plus".to_owned(),
            }),
            requires_openai_auth: true,
        }
    );
}

#[test]
fn parses_signed_out_state() {
    let status =
        parse_account_status(&json(r#"{ "account": null, "requiresOpenaiAuth": true }"#)).unwrap();

    assert_eq!(status.account, None);
    assert!(status.requires_openai_auth);
}

#[test]
fn starts_the_managed_codex_browser_flow_with_a_local_success_page() {
    same(
        &chatgpt_login_params(),
        r#"{ "type": "chatgpt", "useHostedLoginSuccessPage": false }"#,
    );
    assert_eq!(
        parse_login_start(&json(
            r#"{ "loginId": "login-123", "authUrl": "https://chatgpt.com/auth" }"#
        ))
        .unwrap(),
        ("login-123".to_owned(), "https://chatgpt.com/auth".to_owned())
    );
}

#[test]
fn refuses_to_open_an_insecure_login_url() {
    let error = parse_login_start(&json(
        r#"{ "loginId": "login-123", "authUrl": "http://example.com/auth" }"#,
    ))
    .unwrap_err();
    assert!(error.contains("non-HTTPS"));
}

#[test]
fn accepts_login_completion_with_a_nullable_login_id() {
    let completion = parse_login_completion(
        &json(
            r#"{
                "method": "account/login/completed",
                "params": { "loginId": null, "success": true, "error": null }
            }"#,
        ),
        "login-123",
    )
    .expect("completion notification");
    completion.unwrap();
}

#[test]
fn ignores_completion_for_a_different_non_null_login_id() {
    let completion = parse_login_completion(
        &json(
            r#"{
                "method": "account/login/completed",
                "params": { "loginId": "other-login", "success": true, "error": null }
            }"#,
        ),
        "login-123",
    );
    assert!(completion.is_none());
}

#[test]
fn cancels_the_exact_managed_login_id() {
    same(
        &login_cancel_message("login-123"),
        r#"{ "id": 4, "method": "account/login/cancel", "params": { "loginId": "login-123" } }"#,
    );
    assert_eq!(
        parse_login_cancel_response(&json(r#"{ "id": 4, "result": { "status": "canceled" } }"#))
            .unwrap()
            .unwrap(),
        LoginCancelStatus::Canceled
    );
    assert_eq!(
        parse_login_cancel_response(&json(r#"{ "id": 4, "result": { "status": "notFound" } }"#))
            .unwrap()
            .unwrap(),
        LoginCancelStatus::NotFound
    );
    assert!(parse_login_cancel_response(&json(
        r#"{ "id": 4, "error": { "code": -32602, "message": "bad login" } }"#
    ))
    .unwrap()
    .is_err());
    assert!(parse_login_cancel_response(&json(r#"{ "id": 4, "result": {} }"#)).unwrap().is_err());
}

#[test]
fn values_are_written_and_read_back() {
    let text = r#"{"a":[1,-2,true,null,"x\n"],"b":18446744073709551615,"c":1.5}"#;
    let value = json(text);
    assert_eq!(wire::write(&value), text);
    assert_eq!(wire::write_line(&value), format!("{text}\n"));
    assert_eq!(value.get("b").and_then(Json::as_u64), Some(u64::MAX));
    assert_eq!(value.get("b").and_then(Json::as_i64), None);
    assert_eq!(value.get("a").and_then(Json::as_array).map(Vec::len), Some(5));
    assert!(wire::read("{").is_err());
}

#[test]
fn whole_numbers_are_the_same_in_every_form() {
    let whole = Json::Float(serde_json::Number::from(5u64));
    assert_eq!(wire::write(&whole), "5");
    assert_eq!((whole.as_i64(), whole.as_u64()), (Some(5), Some(5)));
    let negative = Json::Float(serde_json::Number::from(-5i64));
    assert_eq!((negative.as_i64(), negative.as_u64()), (Some(-5), None));
    let broken = json("1.5");
    assert_eq!((broken.as_i64(), broken.as_u64(), broken.as_str()), (None, None, None));
    assert_eq!(json("5"), Json::Int(5));
    assert_eq!(json("18446744073709551615"), Json::Uint(u64::MAX));
}

#[test]
fn the_last_of_two_equal_keys_counts() {
    assert_eq!(json(r#"{"a":1,"a":2}"#).get_i64("a"), Some(2));
}

#[test]
fn request_identities_are_read_back() {
    for text in ["7", "-3", r#""seven""#] {
        let id = RpcId::from_value(&json(text)).expect("an identity");
        same(&id.as_value(), text);
    }
    assert!(RpcId::from_value(&json("null")).is_none());
    assert_eq!(RpcId::Number(-7).key(), "-7");
}

#[test]
fn lines_are_routed_by_identity_and_method() {
    assert!(matches!(receive_line("   "), Incoming::Nothing));
    assert!(matches!(
        receive_line(r#"{"id":1,"result":{"ok":true}}"#),
        Incoming::Response { key, result: Ok(_) } if key == RpcId::Number(1).key()
    ));
    assert!(matches!(
        receive_line(r#"{"id":1,"error":{"message":"no"}}"#),
        Incoming::Response { result: Err(error), .. } if error == "no"
    ));
    assert!(matches!(
        receive_line(r#"{"method":"turn/started","params":{"turn":{"id":"t"}}}"#),
        Incoming::Event(CodexEvent::TurnStarted { turn_id }) if turn_id == "t"
    ));
    match receive_line(r#"{"id":"x","method":"item/unknown","params":{}}"#) {
        Incoming::Refused { reply, event } => {
            same(
                &reply,
                r#"{"id":"x","error":{"code":-32601,
                    "message":"Rode does not yet handle server request item/unknown"}}"#,
            );
            assert_eq!(
                event,
                CodexEvent::Error("Unsupported Codex server request: item/unknown".to_owned())
            );
        }
        _ => panic!("expected a refusal"),
    }
    assert!(matches!(
        receive_line("{}"),
        Incoming::Event(CodexEvent::Error(error)) if error == "Unrecognized Codex app-server envelope"
    ));
    assert!(matches!(
        receive_line("{"),
        Incoming::Event(CodexEvent::Error(error))
            if error.starts_with("Invalid Codex app-server message: ")
    ));
}

#[test]
fn errors_on_the_error_stream_are_told_without_colours() {
    assert_eq!(
        stderr_event("\u{1b}[31m2026 ERROR broken\u{1b}[0m "),
        Some(CodexEvent::Error("2026 ERROR broken".to_owned()))
    );
    assert_eq!(stderr_event("2026 INFO fine"), None);
}

#[test]
fn each_kind_of_answer_gives_its_outcome() {
    assert!(request_outcome("turn/start", Answer::Result(Json::Null)).is_ok());
    assert_eq!(
        request_outcome("turn/start", Answer::Error("busy".to_owned())).unwrap_err(),
        "Codex turn/start failed: busy"
    );
    assert_eq!(
        request_outcome("turn/start", Answer::TimedOut).unwrap_err(),
        "Codex turn/start timed out"
    );
    assert_eq!(
        request_outcome("turn/start", Answer::Disconnected).unwrap_err(),
        "Codex app-server exited while waiting for turn/start"
    );
}

fn opened(cwd: &str) -> CodexSession {
    let mut session = CodexSession::connect(cwd);
    let event = session
        .opened(&json(r#"{"thread":{"id":"provider-1","model":"gpt-5.4"}}"#), "other")
        .expect("an open thread");
    assert_eq!(
        event,
        CodexEvent::SessionReady {
            thread_id: "provider-1".to_owned(),
            model: "gpt-5.4".to_owned(),
        }
    );
    session
}

#[test]
fn turns_are_refused_for_each_reason() {
    let cwd = "/w";
    let unopened = CodexSession::connect(cwd);
    assert_eq!(
        unopened.start_turn(&request(RuntimeAccess::ReadOnly, cwd), cwd).unwrap_err(),
        "Codex session has not opened a thread"
    );
    let session = opened(cwd);
    let mut other = request(RuntimeAccess::ReadOnly, cwd);
    other.provider_thread_id = Some("provider-2".to_owned());
    assert_eq!(
        session.start_turn(&other, cwd).unwrap_err(),
        "turn request targets a different Codex provider thread"
    );
    assert_eq!(
        session.start_turn(&request(RuntimeAccess::ReadOnly, cwd), "/v").unwrap_err(),
        "turn request targets a different workspace"
    );
    let mut full = request(RuntimeAccess::FullAccess, cwd);
    full.full_access_confirmed = false;
    assert_eq!(
        session.start_turn(&full, cwd).unwrap_err(),
        "full access was not confirmed for this turn request"
    );
    full.full_access_confirmed = true;
    let params = session.start_turn(&full, cwd).expect("parameters");
    assert_eq!(params.get_str("threadId"), Some("provider-1"));
}

#[test]
fn turns_are_interrupted_once_they_run() {
    let mut session = opened("/w");
    assert!(matches!(session.interrupt(), Ok(None)));
    assert_eq!(session.turn_started(&json(r#"{"turn":{"id":"t-1"}}"#)).expect("a turn"), "t-1");
    let params = session.interrupt().expect("parameters").expect("a running turn");
    same(&params, r#"{"threadId":"provider-1","turnId":"t-1"}"#);
    assert_eq!(session.thread_id().expect("a thread"), "provider-1");
    let (first, _) = session.request("a", Json::Null);
    let (second, _) = session.request("b", Json::Null);
    assert_ne!(first, second);
}

#[test]
fn model_pages_follow_their_cursors() {
    let first = json(r#"{"data":[{"model":"m-1","displayName":"One"}],"nextCursor":"c"}"#);
    let second = json(r#"{"data":[{"model":"m-2","displayName":"Two"}],"nextCursor":null}"#);
    assert!(matches!(CodexSession::discover_models(&vec![]), ModelStep::Ask(_)));
    let pages = vec![first];
    match CodexSession::discover_models(&pages) {
        ModelStep::Ask(params) => assert_eq!(params.get_str("cursor"), Some("c")),
        ModelStep::Done(_) => panic!("another page is due"),
    }
    let mut pages = pages;
    pages.push(second);
    match CodexSession::discover_models(&pages) {
        ModelStep::Done(Ok(models)) => {
            assert_eq!(models.iter().map(|m| m.id.as_str()).collect::<Vec<_>>(), ["m-1", "m-2"]);
        }
        _ => panic!("all pages are there"),
    }
}

#[test]
fn the_account_is_asked_for_and_read() {
    match read_codex_account("1.2.3", &vec![]) {
        AuthStep::Exchange(send) => {
            assert_eq!(send.len(), 1);
            assert_eq!(send[0].get_str("method"), Some("initialize"));
        }
        AuthStep::Done(_) => panic!("nothing was answered yet"),
    }
    let answers = vec![
        json(r#"{"id":1,"result":{}}"#),
        json(r#"{"id":2,"result":{"account":{"type":"apiKey"},"requiresOpenaiAuth":true}}"#),
    ];
    match read_codex_account("1.2.3", &answers) {
        AuthStep::Done(Ok(status)) => {
            assert_eq!(status.account, Some(CodexAccount::ApiKey));
            assert_eq!(status.account.expect("an account").summary(), "OpenAI API key");
        }
        _ => panic!("the account was answered"),
    }
    let refused = vec![json(r#"{"id":1,"error":{"message":"too old"}}"#)];
    assert!(matches!(read_codex_account("1.2.3", &refused), AuthStep::Done(Err(_))));
}

#[test]
fn a_login_is_begun_and_waited_for() {
    let answers = vec![
        json(r#"{"id":1,"result":{}}"#),
        json(r#"{"id":3,"result":{"loginId":"login-1","authUrl":"https://a.example"}}"#),
    ];
    let login = match begin_codex_login("1.2.3", &answers) {
        AuthStep::Done(Ok(login)) => login,
        _ => panic!("the login was answered"),
    };
    assert_eq!(
        login,
        PendingCodexLogin {
            login_id: "login-1".to_owned(),
            auth_url: "https://a.example".to_owned(),
        }
    );
    same(
        &login.cancellation().cancel(),
        r#"{"id":4,"method":"account/login/cancel","params":{"loginId":"login-1"}}"#,
    );
    let done = json(
        r#"{"method":"account/login/completed","params":{"loginId":"login-1","success":true}}"#,
    );
    assert!(matches!(login.wait(false, &done), LoginStep::ReadAccount));
    let other = json(
        r#"{"method":"account/login/completed","params":{"loginId":"login-2","success":true}}"#,
    );
    assert!(matches!(login.wait(false, &other), LoginStep::Continue));
    let failed = json(
        r#"{"method":"account/login/completed","params":{"success":false,"error":"closed"}}"#,
    );
    assert!(matches!(
        login.wait(false, &failed),
        LoginStep::Failed(error) if error == "Codex login failed: closed"
    ));
    assert!(matches!(
        login.wait(true, &failed),
        LoginStep::Failed(error)
            if error == "login failed before Codex confirmed the cancellation request: Codex login failed: closed"
    ));
    let cancelled = json(r#"{"id":4,"result":{"status":"canceled"}}"#);
    assert!(matches!(login.wait(true, &cancelled), LoginStep::Cancelled));
}

#[test]
fn broken_account_answers_are_told_apart() {
    assert_eq!(
        parse_account_status(&json("{}")).unwrap_err(),
        "account/read result is missing requiresOpenaiAuth"
    );
    assert!(parse_account_status(&json(r#"{"account":{},"requiresOpenaiAuth":false}"#)).is_err());
    assert!(parse_login_start(&json(r#"{"loginId":"x"}"#)).is_err());
    assert!(read_message("nonsense")
        .unwrap_err()
        .starts_with("Codex app-server returned invalid JSON: "));
}

#[test]
fn approval_is_always_asked_for() {
    for access in
        [RuntimeAccess::ReadOnly, RuntimeAccess::WorkspaceWrite, RuntimeAccess::FullAccess]
    {
        let request = request(access, "/w");
        let thread = thread_start_params("/w", "m", access);
        assert_eq!(thread.get_str("approvalPolicy"), Some("on-request"));
        let turn = turn_start_params("t", &request, vec![], "/w");
        assert_eq!(turn.get_str("approvalPolicy"), Some("on-request"));
        same(turn.get("input").expect("an input"), "[]");
    }
}

#[test]
fn tokens_are_not_kept() {
    let bare = r#"{"account":{"type":"chatgpt","planType":"pro"},"requiresOpenaiAuth":false}"#;
    let full = r#"{"account":{"type":"chatgpt","planType":"pro","token":"abc"},
        "requiresOpenaiAuth":false,"refresh":"def"}"#;
    assert_eq!(
        parse_account_status(&json(bare)).unwrap(),
        parse_account_status(&json(full)).unwrap()
    );
}
