//! The cards of a conversation as they are shown.
use vstd::prelude::*;
use vstd::string::*;

use crate::conversation::{
    attachment_label, AttachmentModel, CardKind, CardModel, CardStatus, ConversationAttachment,
    ConversationCard, KindModel, NoticeTone,
};
use crate::text;
use crate::text::{has_part, joined, lines_of, parts_are_held, signed_decimal};
use crate::theme::{theme_colors, tokens, ThemeColors, ThemeKind};
use crate::views::{views, views_index, views_push};

verus! {

/// A card as it is shown.
#[derive(Debug, PartialEq, Eq)]
pub struct CardView {
    pub label: String,
    pub background: u32,
    pub border: u32,
    pub status: String,
    pub status_color: u32,
    pub body: String,
    pub monospace: bool,
    /// The paths of the images that are attached.
    pub images: Vec<String>,
}

/// The value of a `CardView`.
#[verifier::ext_equal]
pub struct CardViewModel {
    pub label: Seq<char>,
    pub background: u32,
    pub border: u32,
    pub status: Seq<char>,
    pub status_color: u32,
    pub body: Seq<char>,
    pub monospace: bool,
    pub images: Seq<Seq<char>>,
}

impl View for CardView {
    type V = CardViewModel;

    open spec fn view(&self) -> CardViewModel {
        CardViewModel {
            label: self.label@,
            background: self.background,
            border: self.border,
            status: self.status@,
            status_color: self.status_color,
            body: self.body@,
            monospace: self.monospace,
            images: views(self.images@),
        }
    }
}

/// What a card is, in a word, with its background and its border.
pub open spec fn kind_style(kind: KindModel, colors: ThemeColors) -> (Seq<char>, u32, u32) {
    match kind {
        KindModel::UserMessage { .. } => ("YOU"@, colors.accent_soft, colors.focus_ring),
        KindModel::AssistantMessage { .. } => ("CODEX"@, colors.panel, colors.border),
        KindModel::Reasoning { .. } => ("REASONING"@, colors.raised, colors.info),
        KindModel::Command { .. } => ("COMMAND"@, colors.raised, colors.strong_border),
        KindModel::FileChange { .. } => ("FILE CHANGE"@, colors.addition_soft, colors.success),
        KindModel::ToolResult { .. } => ("TOOL"@, colors.raised, colors.strong_border),
        KindModel::Approval { .. } => ("APPROVAL"@, colors.warning_soft, colors.warning),
        KindModel::Notice { tone, .. } => match tone {
            NoticeTone::Info => ("RODE"@, colors.accent_soft, colors.info),
            NoticeTone::Warning => ("WARNING"@, colors.warning_soft, colors.warning),
            NoticeTone::Error => ("ERROR"@, colors.deletion_soft, colors.error),
        },
        KindModel::TurnBoundary { .. } => ("TURN"@, colors.chrome, colors.border),
        KindModel::CancelledTurn { .. } => ("CANCELLED"@, colors.warning_soft, colors.warning),
    }
}

/// See [`kind_style`].
fn style_of(kind: &CardKind, colors: ThemeColors) -> (r: (&'static str, u32, u32))
    ensures
        (r.0@, r.1, r.2) == kind_style(kind@, colors),
{
    match kind {
        CardKind::UserMessage { .. } => ("YOU", colors.accent_soft, colors.focus_ring),
        CardKind::AssistantMessage { .. } => ("CODEX", colors.panel, colors.border),
        CardKind::Reasoning { .. } => ("REASONING", colors.raised, colors.info),
        CardKind::Command { .. } => ("COMMAND", colors.raised, colors.strong_border),
        CardKind::FileChange { .. } => ("FILE CHANGE", colors.addition_soft, colors.success),
        CardKind::ToolResult { .. } => ("TOOL", colors.raised, colors.strong_border),
        CardKind::Approval { .. } => ("APPROVAL", colors.warning_soft, colors.warning),
        CardKind::Notice { tone, .. } => match tone {
            NoticeTone::Info => ("RODE", colors.accent_soft, colors.info),
            NoticeTone::Warning => ("WARNING", colors.warning_soft, colors.warning),
            NoticeTone::Error => ("ERROR", colors.deletion_soft, colors.error),
        },
        CardKind::TurnBoundary { .. } => ("TURN", colors.chrome, colors.border),
        CardKind::CancelledTurn { .. } => ("CANCELLED", colors.warning_soft, colors.warning),
    }
}

/// How far a card is, in a word and a colour.
pub open spec fn status_style(status: CardStatus, colors: ThemeColors) -> (Seq<char>, u32) {
    match status {
        CardStatus::Pending => ("Pending"@, colors.info),
        CardStatus::Running => ("Running"@, colors.info),
        CardStatus::Success => ("Success"@, colors.success),
        CardStatus::Failed => ("Failed"@, colors.error),
        CardStatus::Cancelled => ("Cancelled"@, colors.warning),
        CardStatus::Complete => ("Complete"@, colors.muted_text),
    }
}

/// See [`status_style`].
fn status_of(status: CardStatus, colors: ThemeColors) -> (r: (&'static str, u32))
    ensures
        (r.0@, r.1) == status_style(status, colors),
{
    match status {
        CardStatus::Pending => ("Pending", colors.info),
        CardStatus::Running => ("Running", colors.info),
        CardStatus::Success => ("Success", colors.success),
        CardStatus::Failed => ("Failed", colors.error),
        CardStatus::Cancelled => ("Cancelled", colors.warning),
        CardStatus::Complete => ("Complete", colors.muted_text),
    }
}

/// The labels of what is attached.
pub open spec fn labels_of(attachments: Seq<AttachmentModel>) -> Seq<Seq<char>> {
    attachments.map_values(|a: AttachmentModel| attachment_label(a))
}

/// The paths of the images that are attached.
pub open spec fn images_of(attachments: Seq<AttachmentModel>) -> Seq<Seq<char>>
    decreases attachments.len(),
{
    if attachments.len() == 0 {
        Seq::empty()
    } else {
        let before = images_of(attachments.drop_last());
        match attachments.last() {
            AttachmentModel::Image { path } => before.push(path),
            _ => before,
        }
    }
}

pub open spec fn card_images(kind: KindModel) -> Seq<Seq<char>> {
    match kind {
        KindModel::UserMessage { attachments, .. } => images_of(attachments),
        _ => Seq::empty(),
    }
}

/// All that a card says.
pub open spec fn full_body(kind: KindModel) -> Seq<char> {
    match kind {
        KindModel::UserMessage { text, attachments, .. } => if attachments.len() == 0 {
            text
        } else {
            text + ("\n\nContext: "@ + joined(labels_of(attachments), ", "@))
        },
        KindModel::AssistantMessage { text } => text,
        KindModel::Reasoning { text } => text,
        KindModel::Command { command, cwd, output, exit_code, .. } => {
            let head = "$ "@ + command + "\n"@ + cwd;
            let ended = match exit_code {
                Some(code) => head + ("\nexit "@ + signed_decimal(code as int)),
                None => head,
            };
            if output.len() == 0 {
                ended
            } else {
                ended + ("\n\n"@ + output)
            }
        },
        KindModel::FileChange { summary, .. } => summary,
        KindModel::ToolResult { title, output } => title + "\n\n"@ + output,
        KindModel::Approval { title, detail, .. } => title + "\n"@ + detail,
        KindModel::Notice { text, .. } => text,
        KindModel::TurnBoundary { label, detail } => match detail {
            Some(detail) => label + "\n"@ + detail,
            None => label,
        },
        KindModel::CancelledTurn { detail } => detail,
    }
}

/// The first lines of a text.
pub open spec fn first_lines(text: Seq<char>) -> Seq<char> {
    let lines = lines_of(text);
    joined(
        lines.take(
            if lines.len() < 3 {
                lines.len() as int
            } else {
                3
            },
        ),
        "\n"@,
    )
}

/// A card as it is shown; of one that is folded only the first lines.
pub open spec fn card_view(card: CardModel, colors: ThemeColors) -> CardViewModel {
    CardViewModel {
        label: kind_style(card.kind, colors).0,
        background: kind_style(card.kind, colors).1,
        border: kind_style(card.kind, colors).2,
        status: status_style(card.status, colors).0,
        status_color: status_style(card.status, colors).1,
        body: if card.collapsed {
            first_lines(full_body(card.kind))
        } else {
            full_body(card.kind)
        },
        monospace: card.kind is Command || card.kind is ToolResult,
        images: card_images(card.kind),
    }
}

/// See [`labels_of`].
fn collect_labels(attachments: &Vec<ConversationAttachment>) -> (r: Vec<String>)
    ensures
        views(r@) == labels_of(views(attachments@)),
{
    broadcast use {views_push, views_index};

    let ghost all = labels_of(views(attachments@));
    let mut r: Vec<String> = Vec::new();
    let mut i: usize = 0;
    assert(views(r@) =~= all.take(0));
    while i < attachments.len()
        invariant
            all == labels_of(views(attachments@)),
            i <= attachments.len(),
            views(r@) == all.take(i as int),
        decreases attachments.len() - i,
    {
        let ghost so_far = views(r@);
        let label = attachments[i].label();
        r.push(label);
        assert(views(r@) == so_far.push(label@));
        assert(views(r@) =~= all.take(i + 1));
        i = i + 1;
    }
    assert(all.take(i as int) =~= all);
    r
}

/// See [`images_of`].
fn collect_images(attachments: &Vec<ConversationAttachment>) -> (r: Vec<String>)
    ensures
        views(r@) == images_of(views(attachments@)),
{
    broadcast use {views_push, views_index};

    let ghost all = views(attachments@);
    let mut r: Vec<String> = Vec::new();
    let mut i: usize = 0;
    assert(views(r@) =~= images_of(all.take(0)));
    while i < attachments.len()
        invariant
            all == views(attachments@),
            i <= attachments.len(),
            views(r@) == images_of(all.take(i as int)),
        decreases attachments.len() - i,
    {
        assert(all.take(i + 1).drop_last() =~= all.take(i as int));
        assert(all.take(i + 1).last() == attachments@[i as int]@);
        if let ConversationAttachment::Image { path } = &attachments[i] {
            let ghost so_far = views(r@);
            let shown = path.clone();
            r.push(shown);
            assert(views(r@) == so_far.push(shown@));
        }
        i = i + 1;
    }
    assert(all.take(i as int) =~= all);
    r
}

/// What a command says. See [`full_body`].
fn command_body(command: &str, cwd: &str, output: &str, exit_code: Option<i64>) -> (r: String)
    ensures
        forall|item_id: Seq<char>|
            r@ == #[trigger] full_body(
                KindModel::Command {
                    item_id,
                    command: command@,
                    cwd: cwd@,
                    output: output@,
                    exit_code,
                },
            ),
{
    let mut r = text::concat3("$ ", command, "\n");
    r.append(cwd);
    if let Some(code) = exit_code {
        let number = text::signed_number(code);
        let ended = text::concat("\nexit ", number.as_str());
        r.append(ended.as_str());
    }
    if output.unicode_len() > 0 {
        let shown = text::concat("\n\n", output);
        r.append(shown.as_str());
    }
    r
}

/// See [`full_body`].
pub fn card_body(kind: &CardKind) -> (r: String)
    ensures
        r@ == full_body(kind@),
{
    match kind {
        CardKind::UserMessage { text, attachments, .. } => {
            let mut r = text.clone();
            if attachments.len() > 0 {
                let labels = collect_labels(attachments);
                let list = text::join(&labels, ", ");
                let context = text::concat("\n\nContext: ", list.as_str());
                r.append(context.as_str());
            }
            r
        },
        CardKind::AssistantMessage { text } => text.clone(),
        CardKind::Reasoning { text } => text.clone(),
        CardKind::Command { command, cwd, output, exit_code, .. } => command_body(
            command.as_str(),
            cwd.as_str(),
            output.as_str(),
            *exit_code,
        ),
        CardKind::FileChange { summary, .. } => summary.clone(),
        CardKind::ToolResult { title, output } => text::concat3(
            title.as_str(),
            "\n\n",
            output.as_str(),
        ),
        CardKind::Approval { title, detail, .. } => text::concat3(
            title.as_str(),
            "\n",
            detail.as_str(),
        ),
        CardKind::Notice { text, .. } => text.clone(),
        CardKind::TurnBoundary { label, detail } => match detail {
            Some(detail) => text::concat3(label.as_str(), "\n", detail.as_str()),
            None => label.clone(),
        },
        CardKind::CancelledTurn { detail } => detail.clone(),
    }
}

/// See [`first_lines`].
fn fold(body: &str) -> (r: String)
    ensures
        r@ == first_lines(body@),
{
    let mut lines = text::lines(body);
    let ghost all = lines_of(body@);
    if lines.len() > 3 {
        lines.truncate(3);
    }
    assert(views(lines@) =~= all.take(
        if all.len() < 3 {
            all.len() as int
        } else {
            3
        },
    ));
    text::join(&lines, "\n")
}

/// See [`card_view`].
pub fn card(shown: &ConversationCard, theme: ThemeKind) -> (r: CardView)
    ensures
        r@ == card_view(shown@, theme_colors(theme)),
{
    let colors = tokens(theme).colors;
    let (label, background, border) = style_of(&shown.kind, colors);
    let (status, status_color) = status_of(shown.status, colors);
    let body = card_body(&shown.kind);
    let images = match &shown.kind {
        CardKind::UserMessage { attachments, .. } => collect_images(attachments),
        _ => {
            let none: Vec<String> = Vec::new();
            assert(views(none@) =~= Seq::<Seq<char>>::empty());
            none
        },
    };
    let monospace = match &shown.kind {
        CardKind::Command { .. } => true,
        CardKind::ToolResult { .. } => true,
        _ => false,
    };
    CardView {
        label: label.to_owned(),
        background,
        border,
        status: status.to_owned(),
        status_color,
        body: if shown.collapsed {
            fold(body.as_str())
        } else {
            body
        },
        monospace,
        images,
    }
}

/// Folding a card changes what is said of it and nothing else.
pub proof fn folding_changes_the_body_alone(card: CardModel, colors: ThemeColors)
    ensures
        ({
            let open = card_view(CardModel { collapsed: false, ..card }, colors);
            let folded = card_view(CardModel { collapsed: true, ..card }, colors);
            &&& open.body == full_body(card.kind)
            &&& folded == CardViewModel { body: first_lines(full_body(card.kind)), ..open }
        }),
{
}

/// A card that is not folded shows everything that it holds: the words that were said, the command
/// with where it ran, how it ended and what it wrote, what changed, what is asked and why.
pub proof fn cards_show_what_they_hold(card: CardModel, colors: ThemeColors, code: i64)
    requires
        !card.collapsed,
    ensures
        ({
            let body = card_view(card, colors).body;
            &&& card.kind matches KindModel::UserMessage { text, .. } ==> has_part(body, text)
            &&& card.kind matches KindModel::AssistantMessage { text } ==> body == text
            &&& card.kind matches KindModel::Reasoning { text } ==> body == text
            &&& card.kind matches KindModel::Command { command, cwd, output, exit_code, .. } ==> {
                &&& has_part(body, command)
                &&& has_part(body, cwd)
                &&& has_part(body, output)
                &&& exit_code == Some(code) ==> has_part(body, signed_decimal(code as int))
            }
            &&& card.kind matches KindModel::FileChange { summary, .. } ==> body == summary
            &&& card.kind matches KindModel::ToolResult { title, output } ==> has_part(body, title)
                && has_part(body, output)
            &&& card.kind matches KindModel::Approval { title, detail, .. } ==> has_part(
                body,
                title,
            ) && has_part(body, detail)
            &&& card.kind matches KindModel::Notice { text, .. } ==> body == text
            &&& card.kind matches KindModel::TurnBoundary { label, detail } ==> has_part(
                body,
                label,
            ) && (detail matches Some(more) ==> has_part(body, more))
            &&& card.kind matches KindModel::CancelledTurn { detail } ==> body == detail
        }),
{
    let none = Seq::<char>::empty();
    match card.kind {
        KindModel::UserMessage { text, attachments, .. } => {
            let rest = "\n\nContext: "@ + joined(labels_of(attachments), ", "@);
            assert(none + text + rest =~= text + rest);
            parts_are_held(none, text, rest);
            assert(none + text + none =~= text);
            parts_are_held(none, text, none);
        },
        KindModel::Command { command, cwd, output, exit_code, .. } => {
            commands_are_shown_whole(command, cwd, output, exit_code);
        },
        KindModel::ToolResult { title, output } => {
            two_parts_are_held(title, "\n\n"@, output);
        },
        KindModel::Approval { title, detail, .. } => {
            two_parts_are_held(title, "\n"@, detail);
        },
        KindModel::TurnBoundary { label, detail } => {
            assert(none + label + none =~= label);
            parts_are_held(none, label, none);
            if let Some(more) = detail {
                two_parts_are_held(label, "\n"@, more);
            }
        },
        _ => {},
    }
}

proof fn two_parts_are_held(a: Seq<char>, between: Seq<char>, b: Seq<char>)
    ensures
        has_part(a + between + b, a),
        has_part(a + between + b, b),
{
    let none = Seq::<char>::empty();
    assert(none + a + (between + b) =~= a + between + b);
    parts_are_held(none, a, between + b);
    assert((a + between) + b + none =~= a + between + b);
    parts_are_held(a + between, b, none);
}

proof fn commands_are_shown_whole(
    command: Seq<char>,
    cwd: Seq<char>,
    output: Seq<char>,
    exit_code: Option<i64>,
)
    ensures
        ({
            let head = "$ "@ + command + "\n"@ + cwd;
            let ended = match exit_code {
                Some(code) => head + ("\nexit "@ + signed_decimal(code as int)),
                None => head,
            };
            let body = if output.len() == 0 {
                ended
            } else {
                ended + ("\n\n"@ + output)
            };
            &&& has_part(body, command)
            &&& has_part(body, cwd)
            &&& has_part(body, output)
            &&& exit_code matches Some(code) ==> has_part(body, signed_decimal(code as int))
        }),
{
    let none = Seq::<char>::empty();
    let start = "$ "@;
    let line = "\n"@;
    let (exit, gap) = ("\nexit "@, "\n\n"@);
    let more = match exit_code {
        Some(code) => exit + signed_decimal(code as int),
        None => none,
    };
    let tail = if output.len() == 0 {
        none
    } else {
        gap + output
    };
    let body = start + command + line + cwd + more + tail;
    let head = start + command + line + cwd;
    let ended = match exit_code {
        Some(code) => head + (exit + signed_decimal(code as int)),
        None => head,
    };
    let shown = if output.len() == 0 {
        ended
    } else {
        ended + (gap + output)
    };
    assert(ended =~= head + more);
    assert(shown =~= body);
    assert(start + command + (line + cwd + more + tail) =~= body);
    parts_are_held(start, command, line + cwd + more + tail);
    assert(start + command + line + cwd + (more + tail) =~= body);
    parts_are_held(start + command + line, cwd, more + tail);
    if output.len() == 0 {
        assert(output =~= none);
        assert(body + none + none =~= body);
        parts_are_held(body, none, none);
    } else {
        assert((head + more + gap) + output + none =~= body);
        parts_are_held(head + more + gap, output, none);
    }
    if let Some(code) = exit_code {
        let n = signed_decimal(code as int);
        assert((head + exit) + n + tail =~= body);
        parts_are_held(head + exit, n, tail);
    }
}

/// A card that is folded shows the first lines of what it holds, three at most.
pub proof fn folded_cards_show_the_first_lines(card: CardModel, colors: ThemeColors)
    requires
        card.collapsed,
    ensures
        ({
            let lines = lines_of(full_body(card.kind));
            let body = card_view(card, colors).body;
            &&& lines.len() <= 3 ==> body == joined(lines, "\n"@)
            &&& lines.len() > 3 ==> body == joined(lines.take(3), "\n"@)
        }),
{
    let lines = lines_of(full_body(card.kind));
    assert(lines.take(lines.len() as int) =~= lines);
}

/// Every image that was attached is shown, in its order, and nothing else is shown as one.
pub proof fn attached_images_are_shown(attachments: Seq<AttachmentModel>, path: Seq<char>)
    ensures
        images_of(attachments).contains(path) <==> attachments.contains(
            AttachmentModel::Image { path },
        ),
        images_of(attachments).len() <= attachments.len(),
    decreases attachments.len(),
{
    let image = AttachmentModel::Image { path };
    if attachments.len() > 0 {
        let fewer = attachments.drop_last();
        attached_images_are_shown(fewer, path);
        let (before, all) = (images_of(fewer), images_of(attachments));
        if fewer.contains(image) {
            let k = choose|k: int| 0 <= k < fewer.len() && fewer[k] == image;
            assert(attachments[k] == image);
            let m = choose|m: int| 0 <= m < before.len() && before[m] == path;
            assert(all[m] == path);
        }
        if attachments.last() == image {
            assert(attachments[attachments.len() - 1] == image);
            assert(all[all.len() - 1] == path);
        }
        if all.contains(path) && attachments.last() != image {
            let m = choose|m: int| 0 <= m < all.len() && all[m] == path;
            assert(before[m] == path);
        }
        if attachments.contains(image) && attachments.last() != image {
            let k = choose|k: int| 0 <= k < attachments.len() && attachments[k] == image;
            assert(fewer[k] == image);
        }
    }
}

} // verus!
