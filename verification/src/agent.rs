//! What a turn of the agent is asked to do: the model, the access it gets, the attachments.
use vstd::prelude::*;
use vstd::string::*;

use crate::text;
use crate::text::{has_part, parts_are_held};
use crate::views::{opt_view, views, views_index, views_push};

verus! {

#[derive(Clone, Copy, Debug, PartialEq, Eq, Structural)]
pub enum ProviderKind {
    Codex,
}

/// The name of the program that a provider runs as.
pub open spec fn executable_name(kind: ProviderKind) -> Seq<char> {
    match kind {
        ProviderKind::Codex => "codex"@,
    }
}

impl ProviderKind {
    pub fn executable(self) -> (r: &'static str)
        ensures
            r@ == executable_name(self),
    {
        match self {
            ProviderKind::Codex => "codex",
        }
    }
}

/// Whether a provider can be used here.
#[derive(Clone, Copy, Debug, PartialEq, Eq, Structural)]
pub struct ProviderStatus {
    pub kind: ProviderKind,
    pub available: bool,
}

/// The providers that are supported.
pub open spec fn supported_providers() -> Seq<ProviderKind> {
    seq![ProviderKind::Codex]
}

/// The supported providers, each with the answer to whether its program was found.
/// `found` answers for the providers in order; one without an answer was not found.
pub fn discover_providers(found: &Vec<bool>) -> (r: Vec<ProviderStatus>)
    ensures
        r@ == supported_providers().map(
            |i: int, kind: ProviderKind|
                ProviderStatus { kind, available: i < found@.len() && found@[i] },
        ),
{
    let mut r: Vec<ProviderStatus> = Vec::new();
    r.push(ProviderStatus { kind: ProviderKind::Codex, available: found.len() > 0 && found[0] });
    assert(r@ =~= supported_providers().map(
        |i: int, kind: ProviderKind|
            ProviderStatus { kind, available: i < found@.len() && found@[i] },
    ));
    r
}

/// A model that the provider offers.
#[derive(Debug, PartialEq, Eq)]
pub struct ProviderModel {
    pub id: String,
    pub display_name: String,
    pub description: String,
    pub is_default: bool,
    pub supports_images: bool,
}

/// The value of a `ProviderModel`.
#[verifier::ext_equal]
pub struct OfferModel {
    pub id: Seq<char>,
    pub display_name: Seq<char>,
    pub description: Seq<char>,
    pub is_default: bool,
    pub supports_images: bool,
}

impl View for ProviderModel {
    type V = OfferModel;

    open spec fn view(&self) -> OfferModel {
        OfferModel {
            id: self.id@,
            display_name: self.display_name@,
            description: self.description@,
            is_default: self.is_default,
            supports_images: self.supports_images,
        }
    }
}

impl Clone for ProviderModel {
    fn clone(&self) -> (r: Self)
        ensures
            r@ == self@,
    {
        ProviderModel {
            id: self.id.clone(),
            display_name: self.display_name.clone(),
            description: self.description.clone(),
            is_default: self.is_default,
            supports_images: self.supports_images,
        }
    }
}

/// The position, from `i` on, of the first model that the provider offers as its default.
pub open spec fn default_from(models: Seq<OfferModel>, i: int) -> Option<int>
    decreases models.len() - i,
{
    if i < 0 || i >= models.len() {
        None
    } else if models[i].is_default {
        Some(i)
    } else {
        default_from(models, i + 1)
    }
}

/// The id of the model that is used where none was chosen: the first default, or the first model
/// where there is no default.
pub open spec fn model_to_use(models: Seq<OfferModel>) -> Option<Seq<char>> {
    match default_from(models, 0) {
        Some(i) => Some(models[i].id),
        None => if models.len() > 0 {
            Some(models[0].id)
        } else {
            None
        },
    }
}

/// See [`model_to_use`].
pub fn default_model(models: &Vec<ProviderModel>) -> (r: Option<String>)
    ensures
        opt_view(r) == model_to_use(views(models@)),
{
    broadcast use views_index;

    let ghost all = views(models@);
    let mut i: usize = 0;
    while i < models.len()
        invariant
            all == views(models@),
            i <= models.len(),
            default_from(all, 0) == default_from(all, i as int),
        decreases models.len() - i,
    {
        if models[i].is_default {
            return Some(models[i].id.clone());
        }
        i = i + 1;
    }
    if models.len() > 0 {
        Some(models[0].id.clone())
    } else {
        None
    }
}

/// What the agent may do to the machine.
#[derive(Clone, Copy, Debug, PartialEq, Eq, Structural)]
pub enum RuntimeAccess {
    ReadOnly,
    WorkspaceWrite,
    FullAccess,
}

impl Default for RuntimeAccess {
    fn default() -> (r: Self)
        ensures
            r == RuntimeAccess::WorkspaceWrite,
    {
        RuntimeAccess::WorkspaceWrite
    }
}

/// What an access is called on screen.
pub open spec fn access_label(access: RuntimeAccess) -> Seq<char> {
    match access {
        RuntimeAccess::ReadOnly => "Read only"@,
        RuntimeAccess::WorkspaceWrite => "Workspace write"@,
        RuntimeAccess::FullAccess => "Full access"@,
    }
}

/// What an access is called where it is stored.
pub open spec fn access_name(access: RuntimeAccess) -> Seq<char> {
    match access {
        RuntimeAccess::ReadOnly => "read_only"@,
        RuntimeAccess::WorkspaceWrite => "workspace_write"@,
        RuntimeAccess::FullAccess => "full_access"@,
    }
}

/// The access that a stored name means; any other name means the default.
pub open spec fn access_named(name: Seq<char>) -> RuntimeAccess {
    if name == "read_only"@ {
        RuntimeAccess::ReadOnly
    } else if name == "full_access"@ {
        RuntimeAccess::FullAccess
    } else {
        RuntimeAccess::WorkspaceWrite
    }
}

impl RuntimeAccess {
    pub fn label(self) -> (r: &'static str)
        ensures
            r@ == access_label(self),
    {
        match self {
            RuntimeAccess::ReadOnly => "Read only",
            RuntimeAccess::WorkspaceWrite => "Workspace write",
            RuntimeAccess::FullAccess => "Full access",
        }
    }

    pub fn storage_name(self) -> (r: &'static str)
        ensures
            r@ == access_name(self),
    {
        match self {
            RuntimeAccess::ReadOnly => "read_only",
            RuntimeAccess::WorkspaceWrite => "workspace_write",
            RuntimeAccess::FullAccess => "full_access",
        }
    }

    pub fn from_storage_name(value: &str) -> (r: Self)
        ensures
            r == access_named(value@),
    {
        if text::same(value, "read_only") {
            RuntimeAccess::ReadOnly
        } else if text::same(value, "full_access") {
            RuntimeAccess::FullAccess
        } else {
            RuntimeAccess::WorkspaceWrite
        }
    }

    pub fn requires_confirmation(self) -> (r: bool)
        ensures
            r == (self == RuntimeAccess::FullAccess),
    {
        self == RuntimeAccess::FullAccess
    }
}

/// A stored access is read back as the same access.
pub proof fn stored_access_is_read_back(access: RuntimeAccess)
    ensures
        access_named(access_name(access)) == access,
{
    reveal_strlit("read_only");
    reveal_strlit("workspace_write");
    reveal_strlit("full_access");
    assert("workspace_write"@.len() != "read_only"@.len());
    assert("workspace_write"@.len() != "full_access"@.len());
    assert("read_only"@.len() != "full_access"@.len());
}

/// Full access is never read from anything but its own name.
pub proof fn full_access_is_never_guessed(name: Seq<char>)
    ensures
        access_named(name) == RuntimeAccess::FullAccess <==> name == access_name(
            RuntimeAccess::FullAccess,
        ),
{
    reveal_strlit("read_only");
    reveal_strlit("full_access");
    assert("read_only"@.len() != "full_access"@.len());
}

/// What a turn is given besides its prompt.
#[derive(Debug, PartialEq, Eq)]
pub enum TurnAttachment {
    GitDiff { text: String },
    Image { path: String },
}

/// The value of a `TurnAttachment`.
#[verifier::ext_equal]
pub enum TurnAttachmentModel {
    GitDiff { text: Seq<char> },
    Image { path: Seq<char> },
}

impl View for TurnAttachment {
    type V = TurnAttachmentModel;

    open spec fn view(&self) -> TurnAttachmentModel {
        match self {
            TurnAttachment::GitDiff { text } => TurnAttachmentModel::GitDiff { text: text@ },
            TurnAttachment::Image { path } => TurnAttachmentModel::Image { path: path@ },
        }
    }
}

impl Clone for TurnAttachment {
    fn clone(&self) -> (r: Self)
        ensures
            r@ == self@,
    {
        match self {
            TurnAttachment::GitDiff { text } => TurnAttachment::GitDiff { text: text.clone() },
            TurnAttachment::Image { path } => TurnAttachment::Image { path: path.clone() },
        }
    }
}

/// What an attachment is called on screen.
pub open spec fn turn_attachment_label(a: TurnAttachmentModel) -> Seq<char> {
    match a {
        TurnAttachmentModel::GitDiff { .. } => "Current Git diff"@,
        TurnAttachmentModel::Image { .. } => "Image"@,
    }
}

/// What the model is told of an attachment in words; an image speaks for itself.
pub open spec fn text_context(a: TurnAttachmentModel) -> Option<Seq<char>> {
    match a {
        TurnAttachmentModel::GitDiff { text } => Some(
            "The user attached the current Git diff as context:\n<git_diff>\n"@ + text
                + "\n</git_diff>"@,
        ),
        TurnAttachmentModel::Image { .. } => None,
    }
}

impl TurnAttachment {
    pub fn label(&self) -> (r: &'static str)
        ensures
            r@ == turn_attachment_label(self@),
    {
        match self {
            TurnAttachment::GitDiff { .. } => "Current Git diff",
            TurnAttachment::Image { .. } => "Image",
        }
    }

    pub fn as_text_context(&self) -> (r: Option<String>)
        ensures
            opt_view(r) == text_context(self@),
    {
        match self {
            TurnAttachment::GitDiff { text } => Some(
                text::concat3(
                    "The user attached the current Git diff as context:\n<git_diff>\n",
                    text.as_str(),
                    "\n</git_diff>",
                ),
            ),
            TurnAttachment::Image { .. } => None,
        }
    }
}

/// A copy of a vector of attachments.
pub fn copy_turn_attachments(v: &Vec<TurnAttachment>) -> (r: Vec<TurnAttachment>)
    ensures
        views(r@) == views(v@),
{
    broadcast use {views_push, views_index};

    let mut r: Vec<TurnAttachment> = Vec::new();
    let mut i: usize = 0;
    while i < v.len()
        invariant
            i <= v.len(),
            views(r@) == views(v@).take(i as int),
        decreases v.len() - i,
    {
        r.push(v[i].clone());
        i = i + 1;
        assert(views(v@).take(i as int) =~= views(v@).take(i - 1).push(views(v@)[i - 1]));
    }
    assert(views(v@).take(i as int) =~= views(v@));
    r
}

/// A turn, with the configuration in effect when it was asked for.
#[derive(Debug, PartialEq, Eq)]
pub struct TurnRequest {
    pub local_thread_id: String,
    pub provider_thread_id: Option<String>,
    pub cwd: String,
    pub prompt: String,
    pub model: String,
    pub access: RuntimeAccess,
    pub attachments: Vec<TurnAttachment>,
    pub full_access_confirmed: bool,
}

/// The value of a `TurnRequest`.
#[verifier::ext_equal]
pub struct RequestModel {
    pub local_thread_id: Seq<char>,
    pub provider_thread_id: Option<Seq<char>>,
    pub cwd: Seq<char>,
    pub prompt: Seq<char>,
    pub model: Seq<char>,
    pub access: RuntimeAccess,
    pub attachments: Seq<TurnAttachmentModel>,
    pub full_access_confirmed: bool,
}

impl View for TurnRequest {
    type V = RequestModel;

    open spec fn view(&self) -> RequestModel {
        RequestModel {
            local_thread_id: self.local_thread_id@,
            provider_thread_id: opt_view(self.provider_thread_id),
            cwd: self.cwd@,
            prompt: self.prompt@,
            model: self.model@,
            access: self.access,
            attachments: views(self.attachments@),
            full_access_confirmed: self.full_access_confirmed,
        }
    }
}

impl Clone for TurnRequest {
    fn clone(&self) -> (r: Self)
        ensures
            r@ == self@,
    {
        TurnRequest {
            local_thread_id: self.local_thread_id.clone(),
            provider_thread_id: text::copy_opt(&self.provider_thread_id),
            cwd: self.cwd.clone(),
            prompt: self.prompt.clone(),
            model: self.model.clone(),
            access: self.access,
            attachments: copy_turn_attachments(&self.attachments),
            full_access_confirmed: self.full_access_confirmed,
        }
    }
}

/// The model that is used is the one that is offered as the default, the first of them where
/// there are several, and else the first that is offered; there is none exactly where none is
/// offered.
pub proof fn the_default_model_is_used(models: Seq<OfferModel>, i: int)
    requires
        0 <= i < models.len(),
    ensures
        models[i].is_default && (forall|k: int|
            0 <= k < i ==> !(#[trigger] models[k]).is_default) ==> model_to_use(models) == Some(
            models[i].id,
        ),
        (forall|k: int| 0 <= k < models.len() ==> !(#[trigger] models[k]).is_default)
            ==> model_to_use(models) == Some(models[0].id),
        model_to_use(models) is Some,
        model_to_use(Seq::empty()) is None,
{
    if models[i].is_default && (forall|k: int| 0 <= k < i ==> !(#[trigger] models[k]).is_default) {
        first_default_is_found(models, 0, i);
    }
    if forall|k: int| 0 <= k < models.len() ==> !(#[trigger] models[k]).is_default {
        no_default_is_found(models, 0);
    }
}

proof fn first_default_is_found(models: Seq<OfferModel>, from: int, i: int)
    requires
        0 <= from <= i < models.len(),
        models[i].is_default,
        forall|k: int| from <= k < i ==> !(#[trigger] models[k]).is_default,
    ensures
        default_from(models, from) == Some(i),
    decreases i - from,
{
    if from < i {
        first_default_is_found(models, from + 1, i);
    }
}

proof fn no_default_is_found(models: Seq<OfferModel>, from: int)
    requires
        0 <= from <= models.len(),
        forall|k: int| 0 <= k < models.len() ==> !(#[trigger] models[k]).is_default,
    ensures
        default_from(models, from) is None,
    decreases models.len() - from,
{
    if from < models.len() {
        no_default_is_found(models, from + 1);
    }
}

/// A diff that is attached goes along as text, every character of it, and an image does not.
pub proof fn attached_diffs_go_along_whole(text: Seq<char>, path: Seq<char>)
    ensures
        text_context(TurnAttachmentModel::GitDiff { text }) matches Some(context) && has_part(
            context,
            text,
        ),
        text_context(TurnAttachmentModel::Image { path }) is None,
{
    parts_are_held(
        "The user attached the current Git diff as context:\n<git_diff>\n"@,
        text,
        "\n</git_diff>"@,
    );
}

} // verus!
