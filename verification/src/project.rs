//! Projects: the repository that a folder which the user picked belongs to.
use vstd::prelude::*;
use vstd::string::*;
use vstd::utf8::*;

use crate::command;
use crate::command::{utf8_error, Reply, ReplyModel, Step, StepModel};
use crate::git;
use crate::git::{root_call, runs_git};
use crate::path;
use crate::path::base_name;
use crate::text;
use crate::text::{has_part, parts_are_held, trimmed};
use crate::views::{views, views_index};

verus! {

/// The root of a repository, and what it is called.
#[derive(Debug, PartialEq, Eq)]
pub struct ValidatedProject {
    pub root: String,
    pub name: String,
}

/// The value of a `ValidatedProject`.
#[verifier::ext_equal]
pub struct ValidatedModel {
    pub root: Seq<char>,
    pub name: Seq<char>,
}

impl View for ValidatedProject {
    type V = ValidatedModel;

    open spec fn view(&self) -> ValidatedModel {
        ValidatedModel { root: self.root@, name: self.name@ }
    }
}

/// What the folder at a root is called.
pub open spec fn project_title(root: Seq<char>) -> Seq<char> {
    match base_name(root) {
        Some(name) => name,
        None => "Project"@,
    }
}

/// The root that a run of `git` gives for the folder at a path.
pub open spec fn root_text(selected: Seq<char>, reply: ReplyModel) -> Result<Seq<char>, Seq<char>> {
    match reply {
        ReplyModel::Exited { success: true, stdout, .. } => if valid_utf8(stdout) {
            Ok(trimmed(decode_utf8(stdout)))
        } else {
            Err("Git returned a non-UTF-8 repository path: "@ + utf8_error(stdout))
        },
        ReplyModel::Exited { success: false, .. } => Err(
            selected + " is not inside a Git repository"@,
        ),
        ReplyModel::NotStarted { error } => Err(
            "failed to run `git rev-parse`; is Git installed?: "@ + error,
        ),
        _ => Err("failed to run `git rev-parse`; is Git installed?"@),
    }
}

/// See [`root_text`].
fn read_root(selected: &str, reply: &Reply) -> (r: Result<String, String>)
    ensures
        match r {
            Ok(root) => root_text(selected@, reply@) == Ok::<Seq<char>, Seq<char>>(root@),
            Err(e) => root_text(selected@, reply@) == Err::<Seq<char>, Seq<char>>(e@),
        },
{
    match reply {
        Reply::Exited { success, stdout, .. } => {
            if !*success {
                return Err(text::concat(selected, " is not inside a Git repository"));
            }
            match command::from_utf8(stdout.as_slice()) {
                Ok(root) => Ok(text::trim(root.as_str())),
                Err(e) => Err(
                    text::concat("Git returned a non-UTF-8 repository path: ", e.as_str()),
                ),
            }
        },
        Reply::NotStarted { error } => Err(
            text::concat("failed to run `git rev-parse`; is Git installed?: ", error.as_str()),
        ),
        _ => Err("failed to run `git rev-parse`; is Git installed?".to_owned()),
    }
}

/// The path that a reply gives, or why there is none.
pub open spec fn resolved(reply: ReplyModel) -> Result<Seq<char>, Seq<char>> {
    match reply {
        ReplyModel::Resolved { path } => path,
        _ => Err(Seq::empty()),
    }
}

/// Finding the project of the folder at a path: what to do next after the replies so far. The
/// path must exist, be a directory, and stand in a repository.
pub open spec fn validate_step(path: Seq<char>, replies: Seq<ReplyModel>) -> StepModel<
    ValidatedModel,
> {
    let yes = ReplyModel::Exists { exists: true };
    if replies.len() == 0 {
        StepModel::PathExists(path)
    } else if replies[0] != yes {
        StepModel::Done(Err(path + " does not exist"@))
    } else if replies.len() == 1 {
        StepModel::IsDirectory(path)
    } else if replies[1] != yes {
        StepModel::Done(Err(path + " is not a directory"@))
    } else if replies.len() == 2 {
        StepModel::Canonicalize(path)
    } else {
        match resolved(replies[2]) {
            Err(e) => StepModel::Done(Err("failed to canonicalize "@ + path + ": "@ + e)),
            Ok(selected) => if replies.len() == 3 {
                StepModel::Run(root_call(selected))
            } else {
                match root_text(selected, replies[3]) {
                    Err(e) => StepModel::Done(Err(e)),
                    Ok(root) => if replies.len() == 4 {
                        StepModel::Canonicalize(root)
                    } else {
                        match resolved(replies[4]) {
                            Err(e) => StepModel::Done(
                                Err("failed to canonicalize the Git repository root: "@ + e),
                            ),
                            Ok(root) => StepModel::Done(
                                Ok(ValidatedModel { root, name: project_title(root) }),
                            ),
                        }
                    },
                }
            },
        }
    }
}

/// See [`validate_step`].
pub fn validate_project(path: &str, replies: &Vec<Reply>) -> (r: Step<ValidatedProject>)
    ensures
        r@ == validate_step(path@, views(replies@)),
{
    broadcast use views_index;

    if replies.len() == 0 {
        return Step::PathExists(path.to_owned());
    }
    if !git::says_exists(&replies[0]) {
        return Step::Done(Err(text::concat(path, " does not exist")));
    }
    if replies.len() == 1 {
        return Step::IsDirectory(path.to_owned());
    }
    if !git::says_exists(&replies[1]) {
        return Step::Done(Err(text::concat(path, " is not a directory")));
    }
    if replies.len() == 2 {
        return Step::Canonicalize(path.to_owned());
    }
    let selected = match &replies[2] {
        Reply::Resolved { path: Ok(selected) } => selected,
        Reply::Resolved { path: Err(e) } => {
            let mut why = text::concat3("failed to canonicalize ", path, ": ");
            why.append(e.as_str());
            return Step::Done(Err(why));
        },
        _ => {
            let why = text::concat3("failed to canonicalize ", path, ": ");
            assert(why@ + Seq::<char>::empty() =~= why@);
            return Step::Done(Err(why));
        },
    };
    if replies.len() == 3 {
        return Step::Run(git::ask_root(selected.as_str()));
    }
    let root = match read_root(selected.as_str(), &replies[3]) {
        Ok(root) => root,
        Err(e) => {
            return Step::Done(Err(e));
        },
    };
    if replies.len() == 4 {
        return Step::Canonicalize(root);
    }
    match &replies[4] {
        Reply::Resolved { path: Ok(root) } => {
            let name = match path::file_name(root.as_str()) {
                Some(name) => name,
                None => "Project".to_owned(),
            };
            Step::Done(Ok(ValidatedProject { root: root.clone(), name }))
        },
        Reply::Resolved { path: Err(e) } => Step::Done(
            Err(text::concat("failed to canonicalize the Git repository root: ", e.as_str())),
        ),
        _ => {
            let why = "failed to canonicalize the Git repository root: ".to_owned();
            assert(why@ + Seq::<char>::empty() =~= why@);
            Step::Done(Err(why))
        },
    }
}

/// Looking into a folder asks for no more than five things.
pub proof fn folders_are_looked_into_once(path: Seq<char>, replies: Seq<ReplyModel>)
    requires
        replies.len() >= 5,
    ensures
        validate_step(path, replies) is Done,
{
}

/// Whether a program ran to a good end and wrote the characters of a text, white space at its ends
/// aside.
pub open spec fn wrote(reply: ReplyModel, out: Seq<char>) -> bool {
    reply matches ReplyModel::Exited { success, stdout, .. } && success && valid_utf8(stdout)
        && trimmed(decode_utf8(stdout)) == out
}

/// A folder is found to be in the repository that Git says it is in: it is there and a directory,
/// Git is asked in the folder as it resolves, and the project stands at what Git answers as that
/// resolves, under the last name in that path. It goes so wherever all that is answered.
pub proof fn projects_stand_where_git_says(
    path: Seq<char>,
    replies: Seq<ReplyModel>,
    folder: Seq<char>,
    told: Seq<char>,
    root: Seq<char>,
)
    requires
        replies.len() >= 5,
        replies[0] == (ReplyModel::Exists { exists: true }),
        replies[1] == (ReplyModel::Exists { exists: true }),
        replies[2] == (ReplyModel::Resolved { path: Ok(folder) }),
        wrote(replies[3], told),
        replies[4] == (ReplyModel::Resolved { path: Ok(root) }),
    ensures
        validate_step(path, replies.take(0)) == StepModel::<ValidatedModel>::PathExists(path),
        validate_step(path, replies.take(1)) == StepModel::<ValidatedModel>::IsDirectory(path),
        validate_step(path, replies.take(2)) == StepModel::<ValidatedModel>::Canonicalize(path),
        runs_git(
            validate_step(path, replies.take(3)),
            folder,
            seq!["rev-parse"@, "--show-toplevel"@],
        ),
        validate_step(path, replies.take(4)) == StepModel::<ValidatedModel>::Canonicalize(told),
        ({
            let step = validate_step(path, replies);
            &&& step matches StepModel::Done(Ok(project)) && project.root == root && (base_name(
                root,
            ) is Some ==> project.name == base_name(root)->0) && (base_name(root) is None
                ==> project.name == "Project"@)
        }),
{
    assert forall|k: int, i: int| 0 <= i < k <= 4 implies #[trigger] replies.take(k)[i]
        == replies[i] by {}
}

/// A project is found only where everything was answered well: a path that is not there, is no
/// directory, does not resolve or stands in no repository is refused, and all but the last of
/// these with the path or with what was told.
pub proof fn other_folders_are_refused(path: Seq<char>, replies: Seq<ReplyModel>)
    requires
        replies.len() >= 5,
    ensures
        validate_step(path, replies) matches StepModel::Done(result) && (result is Ok <==> {
            &&& replies[0] == (ReplyModel::Exists { exists: true })
            &&& replies[1] == (ReplyModel::Exists { exists: true })
            &&& replies[2] matches ReplyModel::Resolved { path: Ok(_) }
            &&& replies[3] matches ReplyModel::Exited { success, stdout, .. } && success
                && valid_utf8(stdout)
            &&& replies[4] matches ReplyModel::Resolved { path: Ok(_) }
        }),
        replies[0] != (ReplyModel::Exists { exists: true }) || replies[1] != (ReplyModel::Exists {
            exists: true,
        }) ==> (validate_step(path, replies) matches StepModel::Done(Err(why)) && has_part(
            why,
            path,
        )),
        (replies[0] == (ReplyModel::Exists { exists: true }) && replies[1] == (ReplyModel::Exists {
            exists: true,
        })) ==> (replies[2] matches ReplyModel::Resolved { path: Err(e) } ==> (validate_step(
            path,
            replies,
        ) matches StepModel::Done(Err(why)) && has_part(why, path) && has_part(why, e))),
{
    let none = Seq::<char>::empty();
    let missing = " does not exist"@;
    let file = " is not a directory"@;
    assert(none + path + missing =~= path + missing);
    assert(none + path + file =~= path + file);
    parts_are_held(none, path, missing);
    parts_are_held(none, path, file);
    if let ReplyModel::Resolved { path: Err(e) } = replies[2] {
        let before = "failed to canonicalize "@;
        let between = ": "@;
        parts_are_held(before, path, between + e);
        assert(before + path + (between + e) =~= before + path + between + e);
        parts_are_held(before + path + between, e, none);
        assert(before + path + between + e + none =~= before + path + between + e);
    }
}

} // verus!
