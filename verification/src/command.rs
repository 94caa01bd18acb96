//! Work that is done outside: what to run or look up next, and what came back.
use vstd::prelude::*;
use vstd::string::*;
use vstd::utf8::*;

use crate::text;
use crate::text::{joined, trimmed};
use crate::views::{opt_view, views, views_push};

verus! {

/// What `String::from_utf8_lossy` makes of bytes.
pub uninterp spec fn lossy_text(bytes: Seq<u8>) -> Seq<char>;

/// `String::from_utf8_lossy`: the text of the bytes, with replacement characters where they
/// are not UTF-8. Bytes that are UTF-8 are decoded as they stand.
#[verifier::external_body]
fn from_utf8_lossy(bytes: &[u8]) -> (r: String)
    ensures
        r@ == lossy_text(bytes@),
        valid_utf8(bytes@) ==> r@ == decode_utf8(bytes@),
{
    String::from_utf8_lossy(bytes).into_owned()
}

/// The text of bytes.
pub fn text_of(bytes: &[u8]) -> (r: String)
    ensures
        r@ == lossy_text(bytes@),
        valid_utf8(bytes@) ==> r@ == decode_utf8(bytes@),
{
    from_utf8_lossy(bytes)
}

/// What `std::str::from_utf8` says is wrong with bytes that are not UTF-8.
pub uninterp spec fn utf8_error(bytes: Seq<u8>) -> Seq<char>;

/// `std::str::from_utf8`: the text that bytes encode where they are UTF-8, and else the text of
/// the error.
#[verifier::external_body]
fn decode_bytes(bytes: &[u8]) -> (r: Result<String, String>)
    ensures
        r is Ok == valid_utf8(bytes@),
        match r {
            Ok(s) => s@ == decode_utf8(bytes@),
            Err(e) => e@ == utf8_error(bytes@),
        },
{
    std::str::from_utf8(bytes).map(|s| s.to_owned()).map_err(|e| e.to_string())
}

/// The text that bytes encode, or what is wrong with them.
pub fn from_utf8(bytes: &[u8]) -> (r: Result<String, String>)
    ensures
        r is Ok == valid_utf8(bytes@),
        match r {
            Ok(s) => s@ == decode_utf8(bytes@),
            Err(e) => e@ == utf8_error(bytes@),
        },
{
    decode_bytes(bytes)
}

/// What `Debug` of `str` writes for a text.
pub uninterp spec fn quoted(s: Seq<char>) -> Seq<char>;

/// `<str as Debug>::fmt`, as `format!` with `{:?}` calls it: the text in double quotes, with
/// escapes. Which characters are escaped is not stated.
#[verifier::external_body]
fn debug_text(s: &str) -> (r: String)
    ensures
        r@ == quoted(s@),
{
    format!("{:?}", s)
}

/// A text in double quotes, as an error message shows it.
pub fn quote(s: &str) -> (r: String)
    ensures
        r@ == quoted(s@),
{
    debug_text(s)
}

/// A program to run, where, and with which arguments.
#[derive(Debug, PartialEq, Eq)]
pub struct Invocation {
    pub program: String,
    pub cwd: String,
    pub args: Vec<String>,
}

/// The value of an `Invocation`.
#[verifier::ext_equal]
pub struct InvocationModel {
    pub program: Seq<char>,
    pub cwd: Seq<char>,
    pub args: Seq<Seq<char>>,
}

impl View for Invocation {
    type V = InvocationModel;

    open spec fn view(&self) -> InvocationModel {
        InvocationModel { program: self.program@, cwd: self.cwd@, args: views(self.args@) }
    }
}

/// The values of texts.
pub open spec fn texts(v: Seq<&str>) -> Seq<Seq<char>> {
    v.map_values(|s: &str| s@)
}

/// The texts as strings.
pub fn strings(v: &[&str]) -> (r: Vec<String>)
    ensures
        views(r@) == texts(v@),
{
    broadcast use views_push;

    let mut r: Vec<String> = Vec::new();
    let mut i: usize = 0;
    while i < v.len()
        invariant
            i <= v.len(),
            views(r@) == texts(v@).take(i as int),
        decreases v.len() - i,
    {
        let s: &str = v[i];
        assert(texts(v@)[i as int] == s@);
        assert(texts(v@).take(i + 1) =~= texts(v@).take(i as int).push(s@));
        r.push(s.to_owned());
        i = i + 1;
    }
    assert(texts(v@).take(i as int) =~= texts(v@));
    r
}

/// A run of `git`.
pub open spec fn git_call(cwd: Seq<char>, args: Seq<Seq<char>>) -> InvocationModel {
    InvocationModel { program: "git"@, cwd, args }
}

/// See [`git_call`].
pub fn git(cwd: &str, args: &[&str]) -> (r: Invocation)
    ensures
        r@ == git_call(cwd@, texts(args@)),
{
    Invocation { program: "git".to_owned(), cwd: cwd.to_owned(), args: strings(args) }
}

/// What came back from outside.
#[derive(Debug, PartialEq, Eq)]
pub enum Reply {
    /// The program ran to its end.
    Exited { success: bool, stdout: Vec<u8>, stderr: Vec<u8> },
    /// The program could not be started.
    NotStarted { error: String },
    /// Whether a path exists, or is a directory, as was asked.
    Exists { exists: bool },
    /// A path without links in it, or why there is none.
    Resolved { path: Result<String, String> },
    /// Something was done, or failed with an error.
    Finished { failure: Option<String> },
    /// What a file holds; nothing where it could not be read.
    Contents { bytes: Vec<u8> },
}

/// The value of a `Reply`.
#[verifier::ext_equal]
pub enum ReplyModel {
    Exited { success: bool, stdout: Seq<u8>, stderr: Seq<u8> },
    NotStarted { error: Seq<char> },
    Exists { exists: bool },
    Resolved { path: Result<Seq<char>, Seq<char>> },
    Finished { failure: Option<Seq<char>> },
    Contents { bytes: Seq<u8> },
}

impl View for Reply {
    type V = ReplyModel;

    open spec fn view(&self) -> ReplyModel {
        match self {
            Reply::Exited { success, stdout, stderr } => ReplyModel::Exited {
                success: *success,
                stdout: stdout@,
                stderr: stderr@,
            },
            Reply::NotStarted { error } => ReplyModel::NotStarted { error: error@ },
            Reply::Exists { exists } => ReplyModel::Exists { exists: *exists },
            Reply::Resolved { path } => ReplyModel::Resolved {
                path: match path {
                    Ok(p) => Ok(p@),
                    Err(e) => Err(e@),
                },
            },
            Reply::Finished { failure } => ReplyModel::Finished { failure: opt_view(*failure) },
            Reply::Contents { bytes } => ReplyModel::Contents { bytes: bytes@ },
        }
    }
}

/// What a program that succeeded wrote, without white space at the ends.
pub open spec fn output_of(reply: ReplyModel) -> Option<Seq<char>> {
    match reply {
        ReplyModel::Exited { success: true, stdout, .. } => Some(trimmed(lossy_text(stdout))),
        _ => None,
    }
}

/// See [`output_of`].
pub fn git_output(reply: &Reply) -> (r: Option<String>)
    ensures
        opt_view(r) == output_of(reply@),
{
    match reply {
        Reply::Exited { success, stdout, .. } => {
            if *success {
                let out = text_of(stdout.as_slice());
                Some(text::trim(out.as_str()))
            } else {
                None
            }
        },
        _ => None,
    }
}

/// What a program wrote where it succeeded, and nothing where it did not.
pub open spec fn output_or_empty(reply: ReplyModel) -> Seq<char> {
    match output_of(reply) {
        Some(out) => out,
        None => Seq::empty(),
    }
}

/// See [`output_or_empty`].
pub fn git_output_or_empty(reply: &Reply) -> (r: String)
    ensures
        r@ == output_or_empty(reply@),
{
    match git_output(reply) {
        Some(out) => out,
        None => String::new(),
    }
}

/// Whether a program succeeded.
pub open spec fn succeeded(reply: ReplyModel) -> bool {
    match reply {
        ReplyModel::Exited { success, .. } => success,
        _ => false,
    }
}

/// See [`succeeded`].
pub fn git_ok(reply: &Reply) -> (r: bool)
    ensures
        r == succeeded(reply@),
{
    match reply {
        Reply::Exited { success, .. } => *success,
        _ => false,
    }
}

/// What a program that failed had to say: what it wrote as errors, or else what it wrote.
pub open spec fn detail_of(stdout: Seq<u8>, stderr: Seq<u8>) -> Seq<char> {
    let errors = trimmed(lossy_text(stderr));
    let output = trimmed(lossy_text(stdout));
    if errors.len() > 0 {
        errors
    } else if output.len() > 0 {
        output
    } else {
        "command exited unsuccessfully"@
    }
}

/// See [`detail_of`].
pub fn command_detail(stdout: &[u8], stderr: &[u8]) -> (r: String)
    ensures
        r@ == detail_of(stdout@, stderr@),
{
    let errors = text::trim(text_of(stderr).as_str());
    if !errors.as_str().is_empty() {
        return errors;
    }
    let output = text::trim(text_of(stdout).as_str());
    if output.as_str().is_empty() {
        "command exited unsuccessfully".to_owned()
    } else {
        output
    }
}

/// Why a run of `git` with the given arguments did not do its work, if it did not.
pub open spec fn git_failure(args: Seq<Seq<char>>, reply: ReplyModel) -> Option<Seq<char>> {
    match reply {
        ReplyModel::Exited { success: true, .. } => None,
        ReplyModel::Exited { success: false, stdout, stderr } => Some(
            "git "@ + (if args.len() > 0 {
                args[0]
            } else {
                "command"@
            }) + " failed: "@ + detail_of(stdout, stderr),
        ),
        ReplyModel::NotStarted { error } => Some(
            "failed to start `git "@ + joined(args, " "@) + "`: "@ + error,
        ),
        _ => Some("failed to start `git "@ + joined(args, " "@) + "`"@),
    }
}

/// See [`git_failure`].
pub fn git_command(args: &[&str], reply: &Reply) -> (r: Option<String>)
    ensures
        opt_view(r) == git_failure(texts(args@), reply@),
{
    match reply {
        Reply::Exited { success, stdout, stderr } => {
            if *success {
                None
            } else {
                let first = if args.len() > 0 {
                    assert(texts(args@)[0] == args@[0]@);
                    args[0]
                } else {
                    "command"
                };
                let mut r = text::concat3("git ", first, " failed: ");
                r.append(command_detail(stdout.as_slice(), stderr.as_slice()).as_str());
                Some(r)
            }
        },
        Reply::NotStarted { error } => {
            let all = text::join(&strings(args), " ");
            let mut r = text::concat3("failed to start `git ", all.as_str(), "`: ");
            r.append(error.as_str());
            Some(r)
        },
        _ => {
            let all = text::join(&strings(args), " ");
            Some(text::concat3("failed to start `git ", all.as_str(), "`"))
        },
    }
}

/// What to do next, or how the work ended.
pub enum Step<T> {
    /// Run a program.
    Run(Invocation),
    /// Say whether a path exists.
    PathExists(String),
    /// Say whether a path is a directory.
    IsDirectory(String),
    /// Find the path without links in it.
    Canonicalize(String),
    /// Make the directory that a path stands in.
    MakeParent(String),
    /// Remove a directory with all that is in it.
    RemoveTree(String),
    /// Read a file.
    ReadFile(String),
    /// Nothing more.
    Done(Result<T, String>),
}

/// The value of a `Step`.
#[verifier::ext_equal]
pub enum StepModel<V> {
    Run(InvocationModel),
    PathExists(Seq<char>),
    IsDirectory(Seq<char>),
    Canonicalize(Seq<char>),
    MakeParent(Seq<char>),
    RemoveTree(Seq<char>),
    ReadFile(Seq<char>),
    Done(Result<V, Seq<char>>),
}

impl<T: View> View for Step<T> {
    type V = StepModel<T::V>;

    open spec fn view(&self) -> StepModel<T::V> {
        match self {
            Step::Run(call) => StepModel::Run(call@),
            Step::PathExists(path) => StepModel::PathExists(path@),
            Step::IsDirectory(path) => StepModel::IsDirectory(path@),
            Step::Canonicalize(path) => StepModel::Canonicalize(path@),
            Step::MakeParent(path) => StepModel::MakeParent(path@),
            Step::RemoveTree(path) => StepModel::RemoveTree(path@),
            Step::ReadFile(path) => StepModel::ReadFile(path@),
            Step::Done(r) => StepModel::Done(
                match r {
                    Ok(t) => Ok(t@),
                    Err(e) => Err(e@),
                },
            ),
        }
    }
}

/// Whether a program ran to a good end and printed a text, white space at its ends aside.
pub open spec fn printed(reply: ReplyModel, out: Seq<char>) -> bool {
    reply matches ReplyModel::Exited { success, stdout, .. } && success && trimmed(
        lossy_text(stdout),
    ) == out
}

/// What a program printed counts where it ended well, and only then.
pub proof fn outputs_count_where_programs_end_well(reply: ReplyModel, out: Seq<char>)
    ensures
        output_of(reply) == Some(out) <==> printed(reply, out),
        printed(reply, out) ==> output_or_empty(reply) == out && succeeded(reply),
        !succeeded(reply) ==> output_of(reply) is None && output_or_empty(reply).len() == 0,
        succeeded(reply) <==> (reply matches ReplyModel::Exited { success, .. } && success),
{
}

/// A run of `git` failed exactly where it did not end well, and then what it said is told: what it
/// wrote as errors, or else what it wrote, or why it could not be started.
pub proof fn failures_are_told(
    args: Seq<Seq<char>>,
    reply: ReplyModel,
    stdout: Seq<u8>,
    stderr: Seq<u8>,
    error: Seq<char>,
)
    ensures
        git_failure(args, reply) is None <==> (reply matches ReplyModel::Exited { success, .. }
            && success),
        git_failure(args, ReplyModel::Exited { success: false, stdout, stderr }) matches Some(why)
            && {
            let said = trimmed(lossy_text(stderr));
            let wrote = trimmed(lossy_text(stdout));
            &&& said.len() > 0 ==> detail_of(stdout, stderr) == said && text::has_part(why, said)
            &&& said.len() == 0 && wrote.len() > 0 ==> detail_of(stdout, stderr) == wrote
                && text::has_part(why, wrote)
            &&& args.len() > 0 ==> text::has_part(why, args[0])
        },
        git_failure(args, ReplyModel::NotStarted { error }) matches Some(why) && text::has_part(
            why,
            error,
        ),
{
    let none = Seq::<char>::empty();
    let first = if args.len() > 0 {
        args[0]
    } else {
        "command"@
    };
    let detail = detail_of(stdout, stderr);
    let why = "git "@ + first + " failed: "@ + detail;
    text::parts_are_held("git "@ + first + " failed: "@, detail, none);
    assert(why + none =~= why);
    text::parts_are_held("git "@, first, " failed: "@ + detail);
    assert("git "@ + first + (" failed: "@ + detail) =~= why);
    let lost = "failed to start `git "@ + joined(args, " "@) + "`: "@ + error;
    text::parts_are_held("failed to start `git "@ + joined(args, " "@) + "`: "@, error, none);
    assert(lost + none =~= lost);
}

/// A run of `git` is one of `git`, in the directory and with the arguments that were given.
pub proof fn git_is_run_as_asked(cwd: Seq<char>, args: Seq<Seq<char>>)
    ensures
        git_call(cwd, args).program == "git"@,
        git_call(cwd, args).cwd == cwd,
        git_call(cwd, args).args == args,
{
}

} // verus!
