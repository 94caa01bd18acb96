//! Notifications of the desktop.
use vstd::prelude::*;

use crate::command;
use crate::command::texts;
use crate::text;
use crate::views::views;

verus! {

/// The arguments of `notify-send` that tell of the end of a turn.
pub open spec fn notification_args(title: Seq<char>, status: Seq<char>, failed: bool) -> Seq<Seq<char>> {
    seq![
        "--app-name=Rode"@,
        if failed {
            "--urgency=critical"@
        } else {
            "--urgency=normal"@
        },
        if failed {
            "Rode · Codex turn needs attention"@
        } else {
            "Rode · Codex turn complete"@
        },
        title + " · "@ + status,
    ]
}

/// See [`notification_args`].
pub fn turn_finished(thread_title: &str, status: &str, failed: bool) -> (r: Vec<String>)
    ensures
        views(r@) == notification_args(thread_title@, status@, failed),
{
    let body = text::concat3(thread_title, " · ", status);
    let args = [
        "--app-name=Rode",
        if failed {
            "--urgency=critical"
        } else {
            "--urgency=normal"
        },
        if failed {
            "Rode · Codex turn needs attention"
        } else {
            "Rode · Codex turn complete"
        },
        body.as_str(),
    ];
    assert(texts(args@) =~= notification_args(thread_title@, status@, failed));
    command::strings(&args)
}

/// The end of a turn is told with the title of its thread and how it ended, and urgently exactly
/// where it went wrong.
pub proof fn ends_are_told_with_their_thread(title: Seq<char>, status: Seq<char>, failed: bool)
    ensures
        ({
            let args = notification_args(title, status, failed);
            &&& args.len() == 4
            &&& text::has_part(args[3], title)
            &&& text::has_part(args[3], status)
            &&& args[1] == "--urgency=critical"@ <==> failed
            &&& args[2] == "Rode · Codex turn needs attention"@ <==> failed
            &&& args[2] == "Rode · Codex turn complete"@ <==> !failed
        }),
{
    let none = Seq::<char>::empty();
    let args = notification_args(title, status, failed);
    text::parts_are_held(none, title, " · "@ + status);
    assert(none + title + (" · "@ + status) =~= args[3]);
    text::parts_are_held(title + " · "@, status, none);
    assert(title + " · "@ + status + none =~= args[3]);
    reveal_strlit("--urgency=critical");
    reveal_strlit("--urgency=normal");
    reveal_strlit("Rode · Codex turn needs attention");
    reveal_strlit("Rode · Codex turn complete");
    assert("Rode · Codex turn needs attention"@.len() > "Rode · Codex turn complete"@.len());
    assert("--urgency=normal"@.len() == 16 && "--urgency=critical"@.len() == 18);
}

} // verus!
