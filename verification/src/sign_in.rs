//! Signing in: the check of the account, the login through the browser, and its cancellation.
//! Each attempt has a number, and what comes of an earlier one is not heeded.
use vstd::prelude::*;
use vstd::string::*;

use crate::app::{
    agent_available, followed_by, next_generation, noticed, nothing, one, said, synced,
    AccountView, AppModel, AuthModel, CodexAuthState, Effect, EffectModel, MessageRole, RodeApp,
};
use crate::codex_auth::{
    AccountModel, AccountStatusModel, CodexAccountStatus, CodexLoginOutcome, LoginModel,
    PendingCodexLogin,
};
use crate::navigation::only_if;
use crate::text;
use crate::text::{has_part, parts_are_held};
use crate::toast::ToastKind;
use crate::views::{opt_view, views};

verus! {

/// How far the user is signed in who has an account, or none.
pub open spec fn auth_of(account: Option<AccountModel>) -> AuthModel {
    match account {
        Some(account) => AuthModel::SignedIn(account),
        None => AuthModel::SignedOut,
    }
}

/// The application with the user signed in so far.
pub open spec fn authenticated(a: AppModel, auth: AuthModel) -> AppModel {
    AppModel { account: AccountView { auth, ..a.account }, ..a }
}

/// The application at the next attempt to learn of the account.
pub open spec fn attempted(a: AppModel, auth: AuthModel) -> AppModel {
    AppModel {
        account: AccountView {
            attempt: next_generation(a.account.attempt),
            pending_login: None,
            auth,
            ..a.account
        },
        ..a
    }
}

/// The application after the account is to be checked, and what is done.
pub open spec fn account_checked(a: AppModel) -> (AppModel, Seq<EffectModel>) {
    if agent_available(a.account) {
        (
            synced(attempted(a, AuthModel::Checking)),
            seq![
                EffectModel::ReadAccount { generation: next_generation(a.account.attempt) },
            ],
        )
    } else {
        (
            synced(
                noticed(
                    attempted(a, AuthModel::Unavailable),
                    ToastKind::Warning,
                    "Codex is unavailable; authentication cannot start."@,
                ),
            ),
            Seq::empty(),
        )
    }
}

/// The application after the account was read in an attempt.
pub open spec fn account_known(
    a: AppModel,
    generation: u64,
    status: Result<AccountStatusModel, Seq<char>>,
) -> AppModel {
    if a.account.attempt != generation {
        a
    } else {
        synced(
            authenticated(
                a,
                match status {
                    Ok(status) => auth_of(status.account),
                    Err(error) => AuthModel::Error(error),
                },
            ),
        )
    }
}

/// Whether a login is under way.
pub open spec fn signing_in(auth: AuthModel) -> bool {
    auth is SigningIn || auth is BrowserPending || auth is Cancelling
}

/// The application after the user asked to sign in, and what is done: nothing, where the agent's
/// program is not there or a login is under way.
pub open spec fn login_asked(a: AppModel) -> (AppModel, Seq<EffectModel>) {
    if !agent_available(a.account) || signing_in(a.account.auth) {
        (a, Seq::empty())
    } else {
        (
            noticed(
                said(
                    synced(attempted(a, AuthModel::SigningIn)),
                    MessageRole::System,
                    "Starting a secure ChatGPT sign-in through Codex…"@,
                ),
                ToastKind::Info,
                "Opening ChatGPT sign-in…"@,
            ),
            seq![
                EffectModel::BeginLogin { generation: next_generation(a.account.attempt) },
            ],
        )
    }
}

/// The application after a login that did not come about or did not end well.
pub open spec fn login_lost(a: AppModel, message: Seq<char>, detail: Seq<char>, notice: Seq<char>) -> AppModel {
    noticed(
        said(
            synced(authenticated(a, AuthModel::Error(detail))),
            MessageRole::System,
            message + detail,
        ),
        ToastKind::Error,
        notice,
    )
}

/// The application while the browser is waited for.
pub open spec fn awaiting(a: AppModel, login_id: Seq<char>, auth_url: Seq<char>) -> AppModel {
    AppModel {
        account: AccountView {
            pending_login: Some(login_id),
            auth: AuthModel::BrowserPending { auth_url },
            ..a.account
        },
        ..a
    }
}

/// The application after a login was started, or was not, and what is done: the page opens in
/// the browser, and its end is waited for.
pub open spec fn login_started(
    a: AppModel,
    generation: u64,
    login: Result<LoginModel, Seq<char>>,
) -> (AppModel, Seq<EffectModel>) {
    if a.account.attempt != generation {
        (
            a,
            match login {
                Ok(_) => seq![EffectModel::AwaitLogin { generation }],
                Err(_) => Seq::empty(),
            },
        )
    } else {
        match login {
            Err(error) => (
                login_lost(
                    a,
                    "Could not start Codex login: "@,
                    error,
                    "Could not start ChatGPT sign-in."@,
                ),
                Seq::empty(),
            ),
            Ok(login) => (
                said(
                    awaiting(a, login.login_id, login.auth_url),
                    MessageRole::System,
                    "Complete sign-in in your browser. Rode is waiting for Codex to confirm it."@,
                ),
                seq![EffectModel::OpenUrl(login.auth_url)] + seq![
                    EffectModel::AwaitLogin { generation },
                ],
            ),
        }
    }
}

/// How a login ended.
#[verifier::ext_equal]
pub enum LoginEndModel {
    Complete(Option<AccountModel>),
    Cancelled,
    Failed(Seq<char>),
}

pub open spec fn end_of(outcome: Result<CodexLoginOutcome, String>) -> LoginEndModel {
    match outcome {
        Ok(CodexLoginOutcome::Complete(status)) => LoginEndModel::Complete(status@.account),
        Ok(CodexLoginOutcome::Cancelled) => LoginEndModel::Cancelled,
        Err(error) => LoginEndModel::Failed(error@),
    }
}

/// The application after a login ended.
pub open spec fn login_over(a: AppModel, generation: u64, end: LoginEndModel) -> AppModel {
    if a.account.attempt != generation {
        a
    } else {
        let b = AppModel { account: AccountView { pending_login: None, ..a.account }, ..a };
        match end {
            LoginEndModel::Complete(account) => noticed(
                said(
                    synced(authenticated(b, auth_of(account))),
                    MessageRole::System,
                    "Signed in to OpenAI through Codex."@,
                ),
                ToastKind::Success,
                "ChatGPT sign-in complete."@,
            ),
            LoginEndModel::Cancelled => said(
                synced(authenticated(b, AuthModel::SignedOut)),
                MessageRole::System,
                "ChatGPT sign-in was cancelled."@,
            ),
            LoginEndModel::Failed(error) => login_lost(
                b,
                "Codex login did not complete: "@,
                error,
                "ChatGPT sign-in did not complete."@,
            ),
        }
    }
}

/// The application after the user asked to cancel the login, and what is done. The login can be
/// cancelled while the browser is waited for.
pub open spec fn cancel_asked(a: AppModel) -> (AppModel, Seq<EffectModel>) {
    match a.account.pending_login {
        None => (a, Seq::empty()),
        Some(login_id) => {
            let b = AppModel { account: AccountView { pending_login: None, ..a.account }, ..a };
            match a.account.auth {
                AuthModel::BrowserPending { auth_url } => (
                    authenticated(b, AuthModel::Cancelling),
                    seq![
                        EffectModel::CancelLogin {
                            generation: a.account.attempt,
                            login_id,
                            auth_url,
                        },
                    ],
                ),
                _ => (b, Seq::empty()),
            }
        },
    }
}

/// The application after the cancellation went out, or did not: then the browser is waited for as
/// before.
pub open spec fn cancel_sent(
    a: AppModel,
    generation: u64,
    login_id: Seq<char>,
    auth_url: Seq<char>,
    error: Option<Seq<char>>,
) -> AppModel {
    if a.account.attempt != generation {
        a
    } else {
        synced(
            match error {
                Some(error) => noticed(
                    awaiting(a, login_id, auth_url),
                    ToastKind::Error,
                    "Could not cancel ChatGPT sign-in: "@ + error,
                ),
                None => a,
            },
        )
    }
}

/// What is done to show the page of the login again.
pub open spec fn page_shown_again(a: AppModel) -> Seq<EffectModel> {
    match a.account.auth {
        AuthModel::BrowserPending { auth_url } => seq![EffectModel::OpenUrl(auth_url)],
        _ => Seq::empty(),
    }
}

impl RodeApp {
    /// See [`attempted`].
    fn attempt(&mut self, auth: CodexAuthState) -> (generation: u64)
        ensures
            final(self)@ == attempted(old(self)@, auth@),
            generation == next_generation(old(self)@.account.attempt),
    {
        self.account.attempt = self.account.attempt.wrapping_add(1);
        self.account.pending_login = None;
        self.account.auth = auth;
        self.account.attempt
    }

    /// See [`account_checked`].
    pub fn refresh_codex_account(&mut self) -> (r: Vec<Effect>)
        requires
            old(self).wf(),
        ensures
            final(self)@ == account_checked(old(self)@).0,
            views(r@) == account_checked(old(self)@).1,
            final(self).wf(),
    {
        if !self.account.codex_available() {
            let _ = self.attempt(CodexAuthState::Unavailable);
            let _ = self.toasts.push(
                ToastKind::Warning,
                "Codex is unavailable; authentication cannot start.",
            );
            self.surface.sync_route_with_auth(&self.account.auth);
            return nothing();
        }
        let generation: u64 = self.attempt(CodexAuthState::Checking);
        self.surface.sync_route_with_auth(&self.account.auth);
        one(Effect::ReadAccount { generation })
    }

    /// See [`account_known`].
    pub fn account_read(&mut self, generation: u64, status: Result<CodexAccountStatus, String>)
        requires
            old(self).wf(),
        ensures
            final(self)@ == account_known(
                old(self)@,
                generation,
                match status {
                    Ok(status) => Ok(status@),
                    Err(error) => Err(error@),
                },
            ),
            final(self).wf(),
    {
        if self.account.attempt != generation {
            return;
        }
        self.account.auth = match status {
            Ok(status) => match status.account {
                Some(account) => CodexAuthState::SignedIn(account),
                None => CodexAuthState::SignedOut,
            },
            Err(error) => CodexAuthState::Error(error),
        };
        self.surface.sync_route_with_auth(&self.account.auth);
    }

    /// See [`login_asked`].
    pub fn sign_in_codex(&mut self) -> (r: Vec<Effect>)
        requires
            old(self).wf(),
        ensures
            final(self)@ == login_asked(old(self)@).0,
            views(r@) == login_asked(old(self)@).1,
            final(self).wf(),
    {
        let under_way = match &self.account.auth {
            CodexAuthState::SigningIn => true,
            CodexAuthState::BrowserPending { .. } => true,
            CodexAuthState::Cancelling => true,
            _ => false,
        };
        if !self.account.codex_available() || under_way {
            return nothing();
        }
        let generation: u64 = self.attempt(CodexAuthState::SigningIn);
        self.surface.sync_route_with_auth(&self.account.auth);
        self.thread.say(
            MessageRole::System,
            "Starting a secure ChatGPT sign-in through Codex…".to_owned(),
        );
        let _ = self.toasts.push(ToastKind::Info, "Opening ChatGPT sign-in…");
        one(Effect::BeginLogin { generation })
    }

    /// See [`login_lost`].
    fn lose_login(&mut self, message: &str, detail: String, notice: &str)
        requires
            old(self).wf(),
        ensures
            final(self)@ == login_lost(old(self)@, message@, detail@, notice@),
            final(self).wf(),
    {
        let text = text::concat(message, detail.as_str());
        self.account.auth = CodexAuthState::Error(detail);
        self.surface.sync_route_with_auth(&self.account.auth);
        self.thread.say(MessageRole::System, text);
        let _ = self.toasts.push(ToastKind::Error, notice);
    }

    /// See [`login_started`].
    pub fn login_begun(&mut self, generation: u64, login: Result<PendingCodexLogin, String>) -> (r: Vec<
        Effect,
    >)
        requires
            old(self).wf(),
        ensures
            (final(self)@, views(r@)) == login_started(
                old(self)@,
                generation,
                match login {
                    Ok(login) => Ok(login@),
                    Err(error) => Err(error@),
                },
            ),
            final(self).wf(),
    {
        if self.account.attempt != generation {
            return only_if(login.is_ok(), Effect::AwaitLogin { generation });
        }
        match login {
            Err(error) => {
                self.lose_login(
                    "Could not start Codex login: ",
                    error,
                    "Could not start ChatGPT sign-in.",
                );
                nothing()
            },
            Ok(login) => {
                let url = login.auth_url.clone();
                self.account.pending_login = Some(login.login_id);
                self.account.auth = CodexAuthState::BrowserPending { auth_url: login.auth_url };
                self.thread.say(
                    MessageRole::System,
                    "Complete sign-in in your browser. Rode is waiting for Codex to confirm it.".to_owned(),
                );
                followed_by(one(Effect::OpenUrl(url)), one(Effect::AwaitLogin { generation }))
            },
        }
    }

    /// See [`login_over`].
    pub fn login_ended(&mut self, generation: u64, outcome: Result<CodexLoginOutcome, String>)
        requires
            old(self).wf(),
        ensures
            final(self)@ == login_over(old(self)@, generation, end_of(outcome)),
            final(self).wf(),
    {
        if self.account.attempt != generation {
            return;
        }
        self.account.pending_login = None;
        match outcome {
            Ok(CodexLoginOutcome::Complete(status)) => {
                self.account.auth = match status.account {
                    Some(account) => CodexAuthState::SignedIn(account),
                    None => CodexAuthState::SignedOut,
                };
                self.surface.sync_route_with_auth(&self.account.auth);
                self.thread.say(
                    MessageRole::System,
                    "Signed in to OpenAI through Codex.".to_owned(),
                );
                let _ = self.toasts.push(ToastKind::Success, "ChatGPT sign-in complete.");
            },
            Ok(CodexLoginOutcome::Cancelled) => {
                self.account.auth = CodexAuthState::SignedOut;
                self.surface.sync_route_with_auth(&self.account.auth);
                self.thread.say(MessageRole::System, "ChatGPT sign-in was cancelled.".to_owned());
            },
            Err(error) => {
                self.lose_login(
                    "Codex login did not complete: ",
                    error,
                    "ChatGPT sign-in did not complete.",
                );
            },
        }
    }

    /// Opens the page of the login again, where it is waited for.
    pub fn reopen_codex_login(&self) -> (r: Vec<Effect>)
        ensures
            views(r@) == (match self@.account.auth {
                AuthModel::BrowserPending { auth_url } => seq![EffectModel::OpenUrl(auth_url)],
                _ => Seq::empty(),
            }),
            views(r@) == page_shown_again(self@),
    {
        match &self.account.auth {
            CodexAuthState::BrowserPending { auth_url } => one(Effect::OpenUrl(auth_url.clone())),
            _ => nothing(),
        }
    }

    /// See [`cancel_asked`].
    pub fn cancel_codex_login(&mut self) -> (r: Vec<Effect>)
        ensures
            final(self)@ == cancel_asked(old(self)@).0,
            views(r@) == cancel_asked(old(self)@).1,
    {
        let login_id = match &self.account.pending_login {
            Some(login_id) => login_id.clone(),
            None => {
                return nothing();
            },
        };
        self.account.pending_login = None;
        let auth_url = match &self.account.auth {
            CodexAuthState::BrowserPending { auth_url } => auth_url.clone(),
            _ => {
                return nothing();
            },
        };
        self.account.auth = CodexAuthState::Cancelling;
        one(Effect::CancelLogin { generation: self.account.attempt, login_id, auth_url })
    }

    /// See [`cancel_sent`].
    pub fn cancel_ended(
        &mut self,
        generation: u64,
        login_id: String,
        auth_url: String,
        error: Option<String>,
    )
        requires
            old(self).wf(),
        ensures
            final(self)@ == cancel_sent(
                old(self)@,
                generation,
                login_id@,
                auth_url@,
                opt_view(error),
            ),
            final(self).wf(),
    {
        if self.account.attempt != generation {
            return;
        }
        if let Some(error) = error {
            self.account.pending_login = Some(login_id);
            self.account.auth = CodexAuthState::BrowserPending { auth_url };
            let notice = text::concat("Could not cancel ChatGPT sign-in: ", error.as_str());
            let _ = self.toasts.push(ToastKind::Error, notice.as_str());
        }
        self.surface.sync_route_with_auth(&self.account.auth);
    }

    /// The login that is cancelled when the application ends, if one waits for the browser.
    pub fn abandoned_login(&mut self) -> (r: Option<String>)
        ensures
            final(self)@ == (AppModel {
                account: AccountView { pending_login: None, ..old(self)@.account },
                ..old(self)@
            }),
            opt_view(r) == old(self)@.account.pending_login,
    {
        let login = text::copy_opt(&self.account.pending_login);
        self.account.pending_login = None;
        login
    }
}

/// What comes of an attempt that is no longer the last changes nothing.
pub proof fn late_answers_are_not_heeded(
    a: AppModel,
    generation: u64,
    status: Result<AccountStatusModel, Seq<char>>,
    login: Result<LoginModel, Seq<char>>,
    end: LoginEndModel,
    login_id: Seq<char>,
    auth_url: Seq<char>,
    error: Option<Seq<char>>,
)
    requires
        a.account.attempt != generation,
    ensures
        account_known(a, generation, status) == a,
        login_started(a, generation, login).0 == a,
        login_over(a, generation, end) == a,
        cancel_sent(a, generation, login_id, auth_url, error) == a,
{
}

/// A new attempt makes every earlier answer late.
pub proof fn attempts_are_told_apart(a: AppModel)
    ensures
        account_checked(a).0.account.attempt != a.account.attempt,
        agent_available(a.account) && !signing_in(a.account.auth) ==> login_asked(a).0.account.attempt
            != a.account.attempt,
{
}

/// A login that could not be cancelled is waited for as if nothing had been asked.
pub proof fn failed_cancellations_change_nothing(a: AppModel, error: Seq<char>)
    requires
        a.account.pending_login is Some,
        a.account.auth is BrowserPending,
        a.surface.route is Login,
    ensures
        ({
            let b = cancel_asked(a).0;
            let c = cancel_sent(
                b,
                a.account.attempt,
                a.account.pending_login->0,
                a.account.auth->auth_url,
                Some(error),
            );
            AppModel { toasts: a.toasts, ..c } == a
        }),
{
}

/// The workspace shows after a login that ended well, where the user was before.
pub proof fn a_login_leads_back(a: AppModel, account: AccountModel)
    requires
        a.surface.route is Login,
    ensures
        ({
            let b = login_over(
                a,
                a.account.attempt,
                LoginEndModel::Complete(Some(account)),
            );
            &&& b.account.auth == AuthModel::SignedIn(account)
            &&& b.surface.route == a.surface.last_authenticated_route
            &&& b.account.pending_login is None
        }),
{
}

/// The account that was read is the one that the user is signed in with: where there is none they
/// are signed out, and where it could not be read they are told why. Only one who is signed in is
/// led past the sign-in.
pub proof fn accounts_are_taken_as_read(
    a: AppModel,
    account: AccountModel,
    status: AccountStatusModel,
    error: Seq<char>,
)
    ensures
        ({
            let b = account_known(a, a.account.attempt, Ok(status));
            &&& status.account == Some(account) ==> b.account.auth == AuthModel::SignedIn(account)
                && !(b.surface.route is Login && !(a.surface.last_authenticated_route is Login))
            &&& status.account is None ==> b.account.auth is SignedOut && b.surface.route is Login
            &&& b.account.attempt == a.account.attempt
            &&& b.thread == a.thread
            &&& b.project == a.project
        }),
        ({
            let b = account_known(a, a.account.attempt, Err(error));
            b.account.auth == AuthModel::Error(error) && b.surface.route is Login
        }),
{
}

/// A check or a login is asked for once, in an attempt of its own, where the agent's program is
/// there; no login is asked for while another is under way, and without the program none is.
pub proof fn attempts_are_asked_for_once(a: AppModel)
    ensures
        agent_available(a.account) ==> ({
            let (b, effects) = account_checked(a);
            &&& effects == seq![EffectModel::ReadAccount { generation: b.account.attempt }]
            &&& b.account.auth is Checking
            &&& b.account.pending_login is None
            &&& b.account.attempt != a.account.attempt
        }),
        !agent_available(a.account) ==> ({
            let (b, effects) = account_checked(a);
            &&& effects.len() == 0
            &&& b.account.auth is Unavailable
            &&& b.surface.route is Login
            &&& login_asked(a) == (a, Seq::<EffectModel>::empty())
        }),
        agent_available(a.account) && !(a.account.auth is SigningIn)
            && !(a.account.auth is BrowserPending) && !(a.account.auth is Cancelling) ==> ({
            let (b, effects) = login_asked(a);
            &&& effects == seq![EffectModel::BeginLogin { generation: b.account.attempt }]
            &&& b.account.auth is SigningIn
            &&& b.account.pending_login is None
            &&& b.account.attempt != a.account.attempt
            &&& login_asked(b) == (b, Seq::<EffectModel>::empty())
        }),
        a.account.auth is SigningIn || a.account.auth is BrowserPending
            || a.account.auth is Cancelling ==> login_asked(a) == (a, Seq::<EffectModel>::empty()),
{
}

/// The page that Codex gave for the login is the one that opens, and opens again while it is
/// waited for; the login that can be cancelled is the one that was begun, and cancelling it names
/// that login, once.
pub proof fn the_login_begun_is_the_one_waited_for(a: AppModel, login: LoginModel)
    ensures
        ({
            let (b, effects) = login_started(a, a.account.attempt, Ok(login));
            let (c, cancelling) = cancel_asked(b);
            &&& effects == seq![
                EffectModel::OpenUrl(login.auth_url),
                EffectModel::AwaitLogin { generation: a.account.attempt },
            ]
            &&& page_shown_again(b) == seq![EffectModel::OpenUrl(login.auth_url)]
            &&& b.account.pending_login == Some(login.login_id)
            &&& b.account.auth is BrowserPending
            &&& cancelling == seq![
                EffectModel::CancelLogin {
                    generation: a.account.attempt,
                    login_id: login.login_id,
                    auth_url: login.auth_url,
                },
            ]
            &&& c.account.auth is Cancelling
            &&& c.account.pending_login is None
            &&& cancel_asked(c) == (c, Seq::<EffectModel>::empty())
            &&& page_shown_again(c).len() == 0
        }),
{
    let (b, effects) = login_started(a, a.account.attempt, Ok(login));
    assert(effects =~= seq![
        EffectModel::OpenUrl(login.auth_url),
        EffectModel::AwaitLogin { generation: a.account.attempt },
    ]);
}

/// A login that did not start or did not end well is told with the reason, in the thread and as
/// the state of the sign-in; one that was cancelled leaves the user signed out. None of them is
/// waited for any more.
pub proof fn logins_end_as_told(a: AppModel, error: Seq<char>)
    ensures
        ({
            let (b, effects) = login_started(a, a.account.attempt, Err(error));
            &&& b.account.auth == AuthModel::Error(error)
            &&& b.surface.route is Login
            &&& has_part(b.thread.messages.last().text, error)
            &&& b.thread.messages.last().role is System
            &&& effects.len() == 0
        }),
        ({
            let b = login_over(a, a.account.attempt, LoginEndModel::Failed(error));
            &&& b.account.auth == AuthModel::Error(error)
            &&& b.account.pending_login is None
            &&& b.surface.route is Login
            &&& has_part(b.thread.messages.last().text, error)
            &&& b.thread.messages.last().role is System
        }),
        ({
            let b = login_over(a, a.account.attempt, LoginEndModel::Cancelled);
            &&& b.account.auth is SignedOut
            &&& b.account.pending_login is None
            &&& b.surface.route is Login
        }),
        ({
            let b = login_over(a, a.account.attempt, LoginEndModel::Complete(None));
            b.account.auth is SignedOut && b.surface.route is Login
        }),
{
    let none = Seq::<char>::empty();
    let first = "Could not start Codex login: "@;
    let second = "Codex login did not complete: "@;
    assert(first + error + none =~= first + error);
    assert(second + error + none =~= second + error);
    parts_are_held(first, error, none);
    parts_are_held(second, error, none);
}

/// A cancellation that went out changes nothing more until the login has ended.
pub proof fn sent_cancellations_wait(a: AppModel, login_id: Seq<char>, auth_url: Seq<char>)
    ensures
        cancel_sent(a, a.account.attempt, login_id, auth_url, None).account == a.account,
        cancel_sent(a, a.account.attempt, login_id, auth_url, None).thread == a.thread,
{
}

} // verus!
