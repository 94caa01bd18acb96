//! Repositories: names that are safe, what is asked of Git, and the diffs of untracked files.
use std::collections::hash_map::DefaultHasher;
use std::hash::{Hash, Hasher};
use std::path::Path;

use rode::command::{command_detail, from_utf8, git_output, quote, text_of, Invocation, Reply, Step};
use rode::diff::DiffDocument;
use rode::git::{
    commit_all, create_pull_request, create_thread_worktree, create_thread_worktree_with,
    graph_commits, list_local_branches, load_git_history, push_current_branch,
    remove_thread_worktree, repository_key, repository_key_with, safe_slug, switch_local_branch,
    ThreadWorktree, WorktreePlan,
};
use rode::project::validate_project;
use rode::snapshot::{untracked_file_diff, RepoSnapshot};

fn said(text: &str) -> Reply {
    Reply::Exited { success: true, stdout: text.as_bytes().to_vec(), stderr: Vec::new() }
}

fn failed(text: &str) -> Reply {
    Reply::Exited { success: false, stdout: Vec::new(), stderr: text.as_bytes().to_vec() }
}

fn drive<T>(
    next: impl Fn(&Vec<Reply>) -> Step<T>,
    mut answer: impl FnMut(Step<T>) -> Reply,
) -> Result<T, String> {
    let mut replies = Vec::new();
    loop {
        let step = next(&replies);
        if let Step::Done(result) = step {
            return result;
        }
        replies.push(answer(step));
    }
}

fn line(call: &Invocation) -> String {
    format!("{} {}", call.program, call.args.join(" "))
}

/// Answers commands by the start of their line; what is not listed fails.
fn scripted<T>(known: Vec<(&'static str, &'static str)>) -> impl FnMut(Step<T>) -> Reply {
    move |step| match step {
        Step::Run(call) => {
            let asked = line(&call);
            match known.iter().find(|(start, _)| asked.starts_with(start)) {
                Some((_, out)) => said(out),
                None => failed("not known"),
            }
        }
        Step::PathExists(_) => Reply::Exists { exists: false },
        Step::IsDirectory(_) => Reply::Exists { exists: true },
        Step::Canonicalize(path) => Reply::Resolved { path: Ok(path) },
        Step::MakeParent(_) | Step::RemoveTree(_) => Reply::Finished { failure: None },
        Step::ReadFile(_) => Reply::Contents { bytes: b"hello\n".to_vec() },
        Step::Done(_) => unreachable!(),
    }
}

const ROOT: (&str, &str) = ("git rev-parse --show-toplevel", "/repo\n");

#[test]
fn slug_is_safe_for_branches_and_paths() {
    assert_eq!(safe_slug("  Fix: Wayland / HiDPI  "), "fix-wayland-hidpi");
    assert_eq!(safe_slug("../../"), "");
}

#[test]
fn untracked_text_files_are_rendered_as_added_hunks() {
    let diff = untracked_file_diff("notes/new file.txt", b"first\nsecond\n");
    let document = DiffDocument::parse(&diff);
    assert_eq!(document.files.len(), 1);
    assert_eq!(document.files[0].display_path(), "notes/new file.txt");
    assert_eq!(document.files[0].status.as_deref(), Some("Added"));
    assert_eq!(document.files[0].additions, 2);
}

#[test]
fn untracked_binary_files_are_not_decoded_as_text() {
    let diff = untracked_file_diff("image.png", b"\x89PNG\0data");
    let document = DiffDocument::parse(&diff);
    assert!(document.files[0].binary);
    assert_eq!(document.files[0].status.as_deref(), Some("Added"));
}

#[test]
fn a_non_repository_is_reported_without_panicking() {
    let snapshot = drive(|r| RepoSnapshot::load("/tmp", r), scripted(vec![])).expect("a snapshot");
    assert!(!snapshot.is_repository || !snapshot.branch.is_empty());
    assert!(!snapshot.is_repository);
}

#[test]
fn untracked_files_are_visible_in_snapshot_diff() {
    let snapshot = drive(
        |r| RepoSnapshot::load("/repo", r),
        scripted(vec![
            ("git rev-parse", "true\n"),
            ("git branch", "main\n"),
            ("git status", "?? new.txt\n"),
            ("git ls-files", "new.txt\0"),
            ("git diff", ""),
        ]),
    )
    .expect("a snapshot");
    assert_eq!(snapshot.changed_files, 1);
    assert!(snapshot.diff_stat.contains("1 untracked file"));
    assert!(snapshot.diff.contains("+++ b/new.txt"));
    assert!(snapshot.diff.contains("+hello"));
}

#[test]
fn recent_commits_are_loaded_in_display_order() {
    let snapshot = drive(
        |r| RepoSnapshot::load("/repo", r),
        scripted(vec![
            ("git rev-parse", "true\n"),
            ("git branch", "main\n"),
            ("git status", ""),
            (
                "git log",
                "b2\u{1f}second commit\u{1f}Rode Test\u{1f}now\u{1e}\na1\u{1f}first commit\u{1f}Rode Test\u{1f}now\u{1e}\n",
            ),
            ("git ls-files", ""),
            ("git diff", ""),
        ]),
    )
    .expect("a snapshot");
    assert_eq!(snapshot.recent_commits.len(), 2);
    assert_eq!(snapshot.recent_commits[0].subject, "second commit");
    assert_eq!(snapshot.recent_commits[0].author, "Rode Test");
    assert!(!snapshot.recent_commits[0].short_hash.is_empty());
    assert!(!snapshot.recent_commits[0].relative_date.is_empty());
    assert_eq!(snapshot.diff_stat, "Working tree is clean");
    assert_eq!(snapshot.diff, "No uncommitted diff");
}

#[test]
fn thread_worktree_is_created_on_an_isolated_branch() {
    let branches = drive(
        |r| list_local_branches("/repo/src", r, 0),
        scripted(vec![ROOT, ("git for-each-ref", "release-base\nmain\n")]),
    );
    assert_eq!(
        branches.expect("list branches").names,
        vec!["main".to_owned(), "release-base".to_owned()]
    );

    let plan = WorktreePlan {
        repository: "/repo",
        thread_id: "thread-1234567890",
        title: "Add Native Terminal",
        base_branch: "release-base",
        worktrees_root: "/state/worktrees",
    };
    let mut asked = Vec::new();
    let worktree = drive(
        |r| create_thread_worktree_with(&plan, 255, r),
        |step| match step {
            Step::Run(call) => {
                asked.push(line(&call));
                said("/repo\n")
            }
            Step::PathExists(_) => Reply::Exists { exists: false },
            Step::MakeParent(_) => Reply::Finished { failure: None },
            _ => unreachable!(),
        },
    )
    .expect("create thread worktree");
    assert_eq!(worktree.branch, "rode/thread-12345-add-native-terminal");
    assert_eq!(
        worktree.path,
        format!("/state/worktrees/{}/thread-1234567890", repository_key_with("/repo", 255))
    );
    assert_eq!(
        asked.last().expect("a command"),
        &format!(
            "git worktree add -b {} {} release-base",
            worktree.branch, worktree.path
        )
    );

    drive(
        |r| remove_thread_worktree("/repo", &worktree, r),
        scripted(vec![ROOT, ("git worktree remove --force", "")]),
    )
    .expect("remove thread worktree");
}

#[test]
fn commit_all_stages_and_commits_the_reviewed_worktree() {
    let mut asked = Vec::new();
    let commit = drive(
        |r| commit_all("/repo", " feat: commit from Rode ", r),
        |step| match step {
            Step::Run(call) => {
                asked.push(line(&call));
                match call.args[0].as_str() {
                    "rev-parse" if call.args[1] == "--short" => said("abc1234\n"),
                    "rev-parse" => said("/repo\n"),
                    "status" => said("?? README.md\n"),
                    _ => said(""),
                }
            }
            _ => unreachable!(),
        },
    )
    .expect("commit changes");
    assert!(!commit.is_empty());
    assert_eq!(commit, "abc1234");
    assert_eq!(asked[2], "git add --all");
    assert_eq!(asked[3], "git commit -m feat: commit from Rode");
}

#[test]
fn history_lists_commits_and_switches_clean_branches() {
    let history = drive(
        |r| load_git_history("/repo", r),
        scripted(vec![
            ROOT,
            ("git branch", "main\n"),
            ("git for-each-ref", "main\ntopic\n"),
            ("git rev-parse", "a1\n"),
            (
                "git log",
                "a1a1\u{1f}a1\u{1f}\u{1f}Rode Test\u{1f}now\u{1f}HEAD -> main, topic\u{1f}initial commit\n",
            ),
        ]),
    )
    .expect("load history");
    assert_eq!(history.commits[0].subject, "initial commit");
    assert!(history.branches.iter().any(|branch| branch.current && branch.name == "main"));

    let clean = vec![
        ROOT,
        ("git for-each-ref", "main\ntopic\n"),
        ("git branch", "main\n"),
        ("git status", ""),
        ("git switch topic", ""),
    ];
    drive(|r| switch_local_branch("/repo", "topic", r), scripted(clean)).expect("switch branch");

    let dirty = vec![
        ROOT,
        ("git for-each-ref", "main\ntopic\n"),
        ("git branch", "topic\n"),
        ("git status", " M README.md\n"),
    ];
    let error = drive(|r| switch_local_branch("/repo", "main", r), scripted(dirty))
        .expect_err("dirty switch must fail");
    assert!(error.contains("commit or stash"));
    let missing = vec![ROOT, ("git for-each-ref", "main\n")];
    assert_eq!(
        drive(|r| switch_local_branch("/repo", "gone", r), scripted(missing)),
        Err("the local branch \"gone\" does not exist".to_owned())
    );
}

#[test]
fn merges_take_two_columns_of_the_graph() {
    let log = "m\u{1f}m\u{1f}a b\u{1f}R\u{1f}now\u{1f}\u{1f}merge\n\
               a\u{1f}a\u{1f}c\u{1f}R\u{1f}now\u{1f}\u{1f}left\n\
               b\u{1f}b\u{1f}c\u{1f}R\u{1f}now\u{1f}\u{1f}right\n\
               c\u{1f}c\u{1f}\u{1f}R\u{1f}now\u{1f}\u{1f}base\n";
    let commits = graph_commits(log);
    assert!(commits[0].is_merge);
    assert!(!commits[1].is_merge);
    assert_eq!(commits.iter().map(|c| c.graph_column).collect::<Vec<_>>(), [0, 0, 1, 0]);
    assert!(commits.iter().all(|c| c.graph_column <= c.graph_width));
}

#[test]
fn every_refusal_to_publish_is_told() {
    assert_eq!(
        drive(|r| commit_all("/repo", "  ", r), scripted(vec![])),
        Err("enter a commit message first".to_owned())
    );
    assert_eq!(
        drive(|r| commit_all("/repo", "m", r), scripted(vec![])),
        Err("the selected workspace is not inside a Git repository".to_owned())
    );
    assert_eq!(
        drive(|r| commit_all("/repo", "m", r), scripted(vec![ROOT, ("git status", "")])),
        Err("the working tree has no changes to commit".to_owned())
    );
    assert_eq!(
        drive(|r| push_current_branch("/repo", r), scripted(vec![ROOT, ("git branch", "\n")])),
        Err("cannot push a detached HEAD".to_owned())
    );
    assert_eq!(
        drive(
            |r| push_current_branch("/repo", r),
            scripted(vec![ROOT, ("git branch", "topic\n"), ("git push", "")])
        ),
        Ok("topic".to_owned())
    );
    assert_eq!(
        drive(|r| create_pull_request("/repo", " ", r), scripted(vec![])),
        Err("enter a pull-request title first".to_owned())
    );
    assert_eq!(
        drive(
            |r| create_pull_request("/repo", "t", r),
            scripted(vec![ROOT, ("git branch", "topic\n"), ("gh pr create", "https://x/1\n")])
        ),
        Ok("https://x/1".to_owned())
    );
    assert_eq!(
        drive(
            |r| create_pull_request("/repo", "t", r),
            scripted(vec![ROOT, ("git branch", "topic\n")])
        ),
        Err("gh pr create failed: not known".to_owned())
    );
}

/// What is asked after adding a worktree failed, with the branch there before or not, and with a
/// directory left or not.
fn clean_up(branch_there: bool, left: bool) -> Vec<String> {
    let plan = WorktreePlan {
        repository: "/repo",
        thread_id: "t",
        title: "",
        base_branch: "main",
        worktrees_root: "/state",
    };
    let mut asked = Vec::new();
    let mut failed_once = false;
    let result = drive(
        |r| create_thread_worktree_with(&plan, 1, r),
        |step| match step {
            Step::Run(call) if call.args[0] == "worktree" => {
                failed_once = true;
                failed("no room\n")
            }
            Step::Run(call) if call.args[0] == "branch" => {
                asked.push(line(&call));
                said("")
            }
            Step::Run(call) if call.args[2..] == ["refs/heads/rode/t"] && !branch_there => {
                failed("fatal: Needed a single revision")
            }
            Step::Run(_) => said("/repo\n"),
            Step::PathExists(_) => Reply::Exists { exists: failed_once && left },
            Step::MakeParent(_) => Reply::Finished { failure: None },
            Step::RemoveTree(path) => {
                asked.push(format!("remove {path}"));
                Reply::Finished { failure: None }
            }
            _ => unreachable!(),
        },
    );
    assert_eq!(result, Err("git worktree add failed: no room".to_owned()));
    asked
}

#[test]
fn a_failed_worktree_is_cleaned_up() {
    let remove = "remove /state/repo-0000000000000001/t".to_owned();
    let delete = "git branch -D rode/t".to_owned();
    assert_eq!(clean_up(false, true), [remove.clone(), delete.clone()]);
    assert_eq!(clean_up(false, false), [delete]);
    assert_eq!(clean_up(true, true), [remove]);
    assert!(clean_up(true, false).is_empty());
    let gone = ThreadWorktree { path: "/w".to_owned(), branch: "b".to_owned() };
    assert_eq!(
        drive(|r| remove_thread_worktree("/repo", &gone, r), scripted(vec![])),
        Err("the selected project is not inside a Git repository".to_owned())
    );
}

#[test]
fn worktrees_stand_under_the_key_of_their_repository() {
    let made = |thread_id: &str| {
        let plan = WorktreePlan {
            repository: "/repo",
            thread_id,
            title: "",
            base_branch: "main",
            worktrees_root: "/state",
        };
        drive(
            |r| create_thread_worktree(&plan, r),
            scripted(vec![ROOT, ("git rev-parse", "1\n"), ("git worktree add", "")]),
        )
        .expect("a worktree")
    };
    assert_eq!(made("t-1").path, format!("/state/{}/t-1", repository_key("/repo")));
    assert_ne!(made("t-1").path, made("t-2").path);
    let (first, second) = ("thread-12345-1700000000000", "thread-12345-1700000000001");
    assert_eq!(made(first).path, format!("/state/{}/{first}", repository_key("/repo")));
    assert_ne!(made(first).path, made(second).path);
    assert_eq!(made(first).branch, "rode/thread-12345");
}

#[test]
fn canonicalizes_nested_paths_to_the_git_root_and_classifies_failures() {
    let there = |inside: bool, exists: bool, directory: bool| {
        move |step: Step<_>| match step {
            Step::PathExists(_) => Reply::Exists { exists },
            Step::IsDirectory(_) => Reply::Exists { exists: directory },
            Step::Canonicalize(path) => Reply::Resolved { path: Ok(path) },
            Step::Run(_) if inside => said("/fixture/repository\n"),
            Step::Run(_) => failed("not a git repository"),
            _ => unreachable!(),
        }
    };
    let nested = "/fixture/repository/src/nested";
    let validated =
        drive(|r| validate_project(nested, r), there(true, true, true)).expect("nested path");
    assert_eq!(validated.root, "/fixture/repository");
    assert_eq!(validated.name, "repository");
    assert!(drive(|r| validate_project("/fixture/plain", r), there(false, true, true))
        .unwrap_err()
        .contains("not inside"));
    assert!(drive(|r| validate_project("/fixture/missing", r), there(false, false, false))
        .unwrap_err()
        .contains("does not exist"));
    assert!(drive(|r| validate_project("/fixture/file.txt", r), there(false, true, false))
        .unwrap_err()
        .contains("not a directory"));
    let no_git = drive(
        |r| validate_project(nested, r),
        |step| match step {
            Step::Canonicalize(path) => Reply::Resolved { path: Ok(path) },
            Step::Run(_) => Reply::NotStarted { error: "not found".to_owned() },
            _ => Reply::Exists { exists: true },
        },
    );
    assert!(no_git.unwrap_err().contains("failed to run"));
    let linked = drive(
        |r| validate_project("/fixture/linked-repository", r),
        |step| match step {
            Step::Canonicalize(_) => {
                Reply::Resolved { path: Ok("/fixture/repository".to_owned()) }
            }
            Step::Run(_) => said("/fixture/repository\n"),
            _ => Reply::Exists { exists: true },
        },
    );
    assert_eq!(linked.expect("validate symlink").root, "/fixture/repository");
}

#[test]
fn bytes_are_decoded_as_text() {
    assert_eq!(text_of(b"a\xffb"), "a\u{fffd}b");
    assert_eq!(from_utf8("né".as_bytes()).as_deref(), Ok("né"));
    assert!(from_utf8(b"\xff").is_err());
    assert_eq!(quote("a\"b\n"), "\"a\\\"b\\n\"");
    assert_eq!(git_output(&said(" out \n")).as_deref(), Some("out"));
    assert_eq!(git_output(&failed("no")), None);
    assert_eq!(command_detail(b"out\n", b""), "out");
    assert_eq!(command_detail(b"out\n", b"err\n"), "err");
}

#[test]
fn slugs_are_lowered_beyond_ascii() {
    assert_eq!(safe_slug("ÄB c"), "b-c");
    assert_eq!(safe_slug("\u{212a}elvin"), "kelvin");
}

#[test]
fn repositories_have_keys_of_their_own() {
    let key = repository_key("/home/me/My Repo");
    assert!(key.starts_with("my-repo-"));
    assert_eq!(key, repository_key("/home/me/My Repo"));
    assert_ne!(key, repository_key("/home/you/My Repo"));
    assert_eq!(repository_key_with("/home/me/My Repo", 255), "my-repo-00000000000000ff");
    let mut hasher = DefaultHasher::new();
    Path::new("/home/me/My Repo").hash(&mut hasher);
    assert_eq!(key, repository_key_with("/home/me/My Repo", hasher.finish()));
}

#[test]
fn slugs_are_safe_and_their_own_slugs() {
    for (text, slug) in [("Fix-It", "fix-it"), ("--a..B--", "a-b"), ("\u{212a}elvin", "kelvin")] {
        assert_eq!(safe_slug(text), slug);
        assert_eq!(safe_slug(slug), slug);
    }
    for c in '\0'..=char::MAX {
        let slug = safe_slug(&c.to_string());
        assert!(slug.chars().all(|c| c.is_ascii_lowercase() || c.is_ascii_digit()), "{c:?}");
        assert!(!c.is_ascii_alphanumeric() || slug.len() == 1);
    }
}

#[test]
fn files_that_are_not_text_have_no_hunks() {
    let long = "x\n".repeat(5001);
    for bytes in [&b"\xff"[..], &b"a\0b"[..], &vec![b'a'; 262145][..], long.as_bytes()] {
        let document = DiffDocument::parse(&untracked_file_diff("odd \"name\" ", bytes));
        assert_eq!(document.files.len(), 1);
        assert!(document.files[0].binary && document.files[0].hunks.is_empty());
        assert_eq!(document.files[0].status.as_deref(), Some("Added"));
    }
    let empty = DiffDocument::parse(&untracked_file_diff("empty", b""));
    assert!(empty.files[0].hunks.is_empty() && !empty.files[0].binary);
}

#[test]
fn untracked_files_are_read_back_line_by_line() {
    let document = DiffDocument::parse(&untracked_file_diff("a b.txt", b"one\ntwo"));
    let file = &document.files[0];
    assert_eq!(file.display_path(), "a b.txt");
    let texts: Vec<&str> = file.hunks[0].lines.iter().map(|l| l.text.as_str()).collect();
    assert_eq!(&texts[..2], ["one", "two"]);
}
