//! What is done with the changes of a workspace: they are committed, pushed, and offered as a
//! pull request.
use vstd::prelude::*;

use crate::app::{
    nothing, one, AppModel, Effect, EffectModel, OpenModel, PublishModel, PublishOperation,
    PublishingModel, RodeApp,
};
use crate::snapshot::{RepoSnapshot, SnapshotModel};
use crate::text;
use crate::text::{has_part, parts_are_held};
use crate::views::views;

verus! {

/// What is under way, in a word or two.
pub open spec fn operation_label(operation: PublishModel) -> Seq<char> {
    match operation {
        PublishModel::Commit(_) => "Committing"@,
        PublishModel::Push => "Pushing"@,
        PublishModel::PullRequest(_) => "Creating pull request"@,
    }
}

/// How an operation ended, for what it gave: the commit, the branch, or the address.
pub open spec fn operation_report(operation: PublishModel, result: Result<Seq<char>, Seq<char>>) -> Seq<char> {
    match result {
        Ok(given) => match operation {
            PublishModel::Commit(_) => "Committed "@ + given,
            PublishModel::Push => "Pushed `"@ + given + "` to origin"@,
            PublishModel::PullRequest(_) => "Pull request: "@ + given,
        },
        Err(error) => "Git workflow failed: "@ + error,
    }
}

/// The application after an operation was asked for, and what is done. There is one at a time.
pub open spec fn published(a: AppModel, operation: PublishModel) -> (AppModel, Seq<EffectModel>) {
    if a.publishing.operation is Some {
        (a, Seq::empty())
    } else {
        (
            AppModel {
                publishing: PublishingModel {
                    operation: Some(operation_label(operation)),
                    status: None,
                    ..a.publishing
                },
                ..a
            },
            seq![EffectModel::Publish { workspace: a.project.path, operation }],
        )
    }
}

/// The application after an operation ended. `repo` is what the repository is like now.
pub open spec fn publication_ended(
    a: AppModel,
    operation: PublishModel,
    result: Result<Seq<char>, Seq<char>>,
    repo: SnapshotModel,
) -> AppModel {
    AppModel {
        publishing: PublishingModel {
            operation: None,
            status: Some(operation_report(operation, result)),
            ..a.publishing
        },
        project: OpenModel { repo, ..a.project },
        ..a
    }
}

/// The application after the user asked to commit, and what is done.
pub open spec fn commit_asked(a: AppModel) -> (AppModel, Seq<EffectModel>) {
    published(a, PublishModel::Commit(a.publishing.editor.text))
}

/// The application after the user asked to push, and what is done.
pub open spec fn push_asked(a: AppModel) -> (AppModel, Seq<EffectModel>) {
    published(a, PublishModel::Push)
}

/// The application after the user asked for a pull request, and what is done.
pub open spec fn pull_request_asked(a: AppModel) -> (AppModel, Seq<EffectModel>) {
    published(a, PublishModel::PullRequest(a.publishing.editor.text))
}

/// See [`operation_report`].
pub fn report_operation(operation: &PublishOperation, result: &Result<String, String>) -> (r: String)
    ensures
        r@ == operation_report(
            operation@,
            match result {
                Ok(given) => Ok(given@),
                Err(error) => Err(error@),
            },
        ),
{
    match result {
        Ok(given) => match operation {
            PublishOperation::Commit(_) => text::concat("Committed ", given.as_str()),
            PublishOperation::Push => text::concat3("Pushed `", given.as_str(), "` to origin"),
            PublishOperation::PullRequest(_) => text::concat("Pull request: ", given.as_str()),
        },
        Err(error) => text::concat("Git workflow failed: ", error.as_str()),
    }
}

impl RodeApp {
    /// See [`published`].
    pub fn start_publish_operation(&mut self, operation: PublishOperation) -> (r: Vec<Effect>)
        ensures
            final(self)@ == published(old(self)@, operation@).0,
            views(r@) == published(old(self)@, operation@).1,
            old(self).wf() ==> final(self).wf(),
    {
        if self.publishing.operation.is_some() {
            return nothing();
        }
        let label = match &operation {
            PublishOperation::Commit(_) => "Committing",
            PublishOperation::Push => "Pushing",
            PublishOperation::PullRequest(_) => "Creating pull request",
        };
        self.publishing.operation = Some(label.to_owned());
        self.publishing.status = None;
        one(Effect::Publish { workspace: self.project.path.clone(), operation })
    }

    /// See [`publication_ended`].
    pub fn publish_ended(
        &mut self,
        operation: &PublishOperation,
        result: Result<String, String>,
        repo: RepoSnapshot,
    )
        ensures
            final(self)@ == publication_ended(
                old(self)@,
                operation@,
                match result {
                    Ok(given) => Ok(given@),
                    Err(error) => Err(error@),
                },
                repo@,
            ),
            old(self).wf() ==> final(self).wf(),
    {
        self.publishing.operation = None;
        self.publishing.status = Some(report_operation(operation, &result));
        self.project.repo = repo;
    }

    /// Commits all changes with the message in the editor.
    pub fn commit_changes(&mut self) -> (r: Vec<Effect>)
        ensures
            (final(self)@, views(r@)) == commit_asked(old(self)@),
            final(self)@ == published(
                old(self)@,
                PublishModel::Commit(old(self)@.publishing.editor.text),
            ).0,
            views(r@) == published(
                old(self)@,
                PublishModel::Commit(old(self)@.publishing.editor.text),
            ).1,
            old(self).wf() ==> final(self).wf(),
    {
        let message = self.publishing.editor.text();
        self.start_publish_operation(PublishOperation::Commit(message))
    }

    pub fn push_changes(&mut self) -> (r: Vec<Effect>)
        ensures
            (final(self)@, views(r@)) == push_asked(old(self)@),
            final(self)@ == published(old(self)@, PublishModel::Push).0,
            views(r@) == published(old(self)@, PublishModel::Push).1,
            old(self).wf() ==> final(self).wf(),
    {
        self.start_publish_operation(PublishOperation::Push)
    }

    /// Offers the branch as a pull request with the title in the editor.
    pub fn create_pr(&mut self) -> (r: Vec<Effect>)
        ensures
            (final(self)@, views(r@)) == pull_request_asked(old(self)@),
            final(self)@ == published(
                old(self)@,
                PublishModel::PullRequest(old(self)@.publishing.editor.text),
            ).0,
            views(r@) == published(
                old(self)@,
                PublishModel::PullRequest(old(self)@.publishing.editor.text),
            ).1,
            old(self).wf() ==> final(self).wf(),
    {
        let title = self.publishing.editor.text();
        self.start_publish_operation(PublishOperation::PullRequest(title))
    }
}

/// While one operation is under way another changes nothing, and once it has ended one can begin.
pub proof fn operations_do_not_overlap(
    a: AppModel,
    first: PublishModel,
    second: PublishModel,
    result: Result<Seq<char>, Seq<char>>,
    repo: SnapshotModel,
)
    requires
        a.publishing.operation is None,
    ensures
        ({
            let b = published(a, first).0;
            &&& published(b, second) == (b, Seq::<EffectModel>::empty())
            &&& published(publication_ended(b, first, result, repo), second).1.len() == 1
        }),
{
}

/// What the user asks for is what is done, once, in the workspace of the thread that is shown: a
/// commit or a pull request with the words in the editor, or a push.
pub proof fn what_is_asked_for_is_published(a: AppModel)
    requires
        a.publishing.operation is None,
    ensures
        commit_asked(a).1 == seq![
            EffectModel::Publish {
                workspace: a.project.path,
                operation: PublishModel::Commit(a.publishing.editor.text),
            },
        ],
        push_asked(a).1 == seq![
            EffectModel::Publish { workspace: a.project.path, operation: PublishModel::Push },
        ],
        pull_request_asked(a).1 == seq![
            EffectModel::Publish {
                workspace: a.project.path,
                operation: PublishModel::PullRequest(a.publishing.editor.text),
            },
        ],
        forall|b: AppModel|
            b == commit_asked(a).0 || b == push_asked(a).0 || b == pull_request_asked(a).0 ==> {
                &&& (#[trigger] b.publishing).operation is Some
                &&& b.publishing.status is None
                &&& b.publishing.editor == a.publishing.editor
                &&& b.project == a.project
                &&& b.thread == a.thread
                &&& b.turn == a.turn
            },
{
}

/// How an operation ended is said with what it gave, or with what went wrong, and never the one
/// for the other; the changes are shown as they are then.
pub proof fn ends_are_reported_truly(
    a: AppModel,
    operation: PublishModel,
    given: Seq<char>,
    error: Seq<char>,
    repo: SnapshotModel,
)
    ensures
        ({
            let good = publication_ended(a, operation, Ok(given), repo);
            let bad = publication_ended(a, operation, Err(error), repo);
            &&& good.publishing.operation is None && bad.publishing.operation is None
            &&& good.project.repo == repo && bad.project.repo == repo
            &&& good.project.path == a.project.path && bad.project.path == a.project.path
            &&& good.publishing.editor == a.publishing.editor
            &&& bad.publishing.editor == a.publishing.editor
            &&& good.publishing.status is Some
            &&& bad.publishing.status is Some
            &&& has_part(good.publishing.status->0, given)
            &&& has_part(bad.publishing.status->0, error)
            &&& "Git workflow failed"@.is_prefix_of(bad.publishing.status->0)
            &&& !"Git workflow failed"@.is_prefix_of(good.publishing.status->0)
        }),
{
    let none = Seq::<char>::empty();
    let failed = "Git workflow failed: "@;
    let committed = "Committed "@;
    let pushed = "Pushed `"@;
    let offered = "Pull request: "@;
    reveal_strlit("Git workflow failed");
    reveal_strlit("Git workflow failed: ");
    reveal_strlit("Committed ");
    reveal_strlit("Pushed `");
    reveal_strlit("Pull request: ");
    assert(failed + error + none =~= failed + error);
    assert(committed + given + none =~= committed + given);
    assert(offered + given + none =~= offered + given);
    parts_are_held(failed, error, none);
    parts_are_held(committed, given, none);
    parts_are_held(pushed, given, "` to origin"@);
    parts_are_held(offered, given, none);
    let good = publication_ended(a, operation, Ok(given), repo).publishing.status->0;
    let bad = publication_ended(a, operation, Err(error), repo).publishing.status->0;
    assert(good[0] != 'G');
    assert("Git workflow failed"@[0] == 'G');
    assert forall|k: int| 0 <= k < "Git workflow failed"@.len() implies bad[k]
        == "Git workflow failed"@[k] by {
        assert(bad[k] == failed[k]);
    }
}

} // verus!
