//! Conversation cards, and the projection that keeps them in order and finds them by id.
use std::rc::Rc;

use vstd::hash_map::StringHashMap;
use vstd::prelude::*;
use vstd::string::*;

use crate::clock;
use crate::path;
use crate::path::base_name;
use crate::text;
use crate::text::{decimal, decimals_differ, lines_of, signed_decimal};
use crate::views::{opt_view, views, views_index, views_push, views_update};

verus! {

/// What a user attached to a message.
#[derive(Debug, PartialEq, Eq)]
pub enum ConversationAttachment {
    /// From conversations written before attachments were typed.
    Legacy(String),
    Context { label: String },
    Image { path: String },
}

/// The value of a `ConversationAttachment`.
#[verifier::ext_equal]
pub enum AttachmentModel {
    Legacy(Seq<char>),
    Context { label: Seq<char> },
    Image { path: Seq<char> },
}

impl View for ConversationAttachment {
    type V = AttachmentModel;

    open spec fn view(&self) -> AttachmentModel {
        match self {
            ConversationAttachment::Legacy(label) => AttachmentModel::Legacy(label@),
            ConversationAttachment::Context { label } => AttachmentModel::Context { label: label@ },
            ConversationAttachment::Image { path } => AttachmentModel::Image { path: path@ },
        }
    }
}

impl Clone for ConversationAttachment {
    fn clone(&self) -> (r: Self)
        ensures
            r@ == self@,
    {
        match self {
            ConversationAttachment::Legacy(label) => ConversationAttachment::Legacy(label.clone()),
            ConversationAttachment::Context { label } => ConversationAttachment::Context {
                label: label.clone(),
            },
            ConversationAttachment::Image { path } => ConversationAttachment::Image {
                path: path.clone(),
            },
        }
    }
}

/// The label of an attachment: an image is labelled with its file name.
pub open spec fn attachment_label(a: AttachmentModel) -> Seq<char> {
    match a {
        AttachmentModel::Legacy(label) => label,
        AttachmentModel::Context { label } => label,
        AttachmentModel::Image { path } => match base_name(path) {
            Some(name) => name,
            None => "Image"@,
        },
    }
}

impl ConversationAttachment {
    pub fn label(&self) -> (r: String)
        ensures
            r@ == attachment_label(self@),
    {
        match self {
            ConversationAttachment::Legacy(label) => label.clone(),
            ConversationAttachment::Context { label } => label.clone(),
            ConversationAttachment::Image { path } => match path::file_name(path.as_str()) {
                Some(name) => name,
                None => "Image".to_owned(),
            },
        }
    }
}

#[derive(Clone, Copy, Debug, PartialEq, Eq, Structural)]
pub enum CardStatus {
    Pending,
    Running,
    Success,
    Failed,
    Cancelled,
    Complete,
}

impl Default for CardStatus {
    fn default() -> (r: Self)
        ensures
            r == CardStatus::Complete,
    {
        CardStatus::Complete
    }
}

#[derive(Clone, Copy, Debug, PartialEq, Eq, Structural)]
pub enum NoticeTone {
    Info,
    Warning,
    Error,
}

/// What a card shows.
#[derive(Debug, PartialEq, Eq)]
#[allow(inconsistent_fields)]
pub enum CardKind {
    UserMessage {
        text: String,
        model: String,
        access: String,
        attachments: Vec<ConversationAttachment>,
    },
    AssistantMessage { text: String },
    Reasoning { text: String },
    Command {
        item_id: String,
        command: String,
        cwd: String,
        output: String,
        exit_code: Option<i64>,
    },
    FileChange { item_id: String, summary: String },
    ToolResult { title: String, output: String },
    Approval { item_id: String, approval_kind: String, title: String, detail: String },
    Notice { tone: NoticeTone, text: String },
    TurnBoundary { label: String, detail: Option<String> },
    CancelledTurn { detail: String },
}

/// The value of a `CardKind`.
#[verifier::ext_equal]
#[allow(inconsistent_fields)]
pub enum KindModel {
    UserMessage {
        text: Seq<char>,
        model: Seq<char>,
        access: Seq<char>,
        attachments: Seq<AttachmentModel>,
    },
    AssistantMessage { text: Seq<char> },
    Reasoning { text: Seq<char> },
    Command {
        item_id: Seq<char>,
        command: Seq<char>,
        cwd: Seq<char>,
        output: Seq<char>,
        exit_code: Option<i64>,
    },
    FileChange { item_id: Seq<char>, summary: Seq<char> },
    ToolResult { title: Seq<char>, output: Seq<char> },
    Approval { item_id: Seq<char>, approval_kind: Seq<char>, title: Seq<char>, detail: Seq<char> },
    Notice { tone: NoticeTone, text: Seq<char> },
    TurnBoundary { label: Seq<char>, detail: Option<Seq<char>> },
    CancelledTurn { detail: Seq<char> },
}

impl View for CardKind {
    type V = KindModel;

    open spec fn view(&self) -> KindModel {
        match self {
            CardKind::UserMessage { text, model, access, attachments } => KindModel::UserMessage {
                text: text@,
                model: model@,
                access: access@,
                attachments: views(attachments@),
            },
            CardKind::AssistantMessage { text } => KindModel::AssistantMessage { text: text@ },
            CardKind::Reasoning { text } => KindModel::Reasoning { text: text@ },
            CardKind::Command { item_id, command, cwd, output, exit_code } => KindModel::Command {
                item_id: item_id@,
                command: command@,
                cwd: cwd@,
                output: output@,
                exit_code: *exit_code,
            },
            CardKind::FileChange { item_id, summary } => KindModel::FileChange {
                item_id: item_id@,
                summary: summary@,
            },
            CardKind::ToolResult { title, output } => KindModel::ToolResult {
                title: title@,
                output: output@,
            },
            CardKind::Approval { item_id, approval_kind, title, detail } => KindModel::Approval {
                item_id: item_id@,
                approval_kind: approval_kind@,
                title: title@,
                detail: detail@,
            },
            CardKind::Notice { tone, text } => KindModel::Notice { tone: *tone, text: text@ },
            CardKind::TurnBoundary { label, detail } => KindModel::TurnBoundary {
                label: label@,
                detail: opt_view(*detail),
            },
            CardKind::CancelledTurn { detail } => KindModel::CancelledTurn { detail: detail@ },
        }
    }
}

/// A copy of a vector of attachments.
pub fn copy_attachments(v: &Vec<ConversationAttachment>) -> (r: Vec<ConversationAttachment>)
    ensures
        views(r@) == views(v@),
{
    broadcast use {views_push, views_index};

    let mut r: Vec<ConversationAttachment> = Vec::new();
    let mut i: usize = 0;
    while i < v.len()
        invariant
            i <= v.len(),
            views(r@) == views(v@).take(i as int),
        decreases v.len() - i,
    {
        r.push(v[i].clone());
        i = i + 1;
        assert(views(v@).take(i as int) =~= views(v@).take(i - 1).push(views(v@)[i - 1]));
    }
    assert(views(v@).take(i as int) =~= views(v@));
    r
}

impl Clone for CardKind {
    fn clone(&self) -> (r: Self)
        ensures
            r@ == self@,
    {
        match self {
            CardKind::UserMessage { text, model, access, attachments } => CardKind::UserMessage {
                text: text.clone(),
                model: model.clone(),
                access: access.clone(),
                attachments: copy_attachments(attachments),
            },
            CardKind::AssistantMessage { text } => CardKind::AssistantMessage {
                text: text.clone(),
            },
            CardKind::Reasoning { text } => CardKind::Reasoning { text: text.clone() },
            CardKind::Command { item_id, command, cwd, output, exit_code } => CardKind::Command {
                item_id: item_id.clone(),
                command: command.clone(),
                cwd: cwd.clone(),
                output: output.clone(),
                exit_code: *exit_code,
            },
            CardKind::FileChange { item_id, summary } => CardKind::FileChange {
                item_id: item_id.clone(),
                summary: summary.clone(),
            },
            CardKind::ToolResult { title, output } => CardKind::ToolResult {
                title: title.clone(),
                output: output.clone(),
            },
            CardKind::Approval { item_id, approval_kind, title, detail } => CardKind::Approval {
                item_id: item_id.clone(),
                approval_kind: approval_kind.clone(),
                title: title.clone(),
                detail: detail.clone(),
            },
            CardKind::Notice { tone, text } => CardKind::Notice { tone: *tone, text: text.clone() },
            CardKind::TurnBoundary { label, detail } => CardKind::TurnBoundary {
                label: label.clone(),
                detail: text::copy_opt(detail),
            },
            CardKind::CancelledTurn { detail } => CardKind::CancelledTurn {
                detail: detail.clone(),
            },
        }
    }
}

/// A card of the conversation.
#[derive(Debug, PartialEq, Eq)]
pub struct ConversationCard {
    pub id: String,
    pub turn_id: Option<String>,
    pub created_at_ms: i64,
    pub status: CardStatus,
    pub collapsed: bool,
    pub kind: CardKind,
}

/// The value of a `ConversationCard`.
#[verifier::ext_equal]
pub struct CardModel {
    pub id: Seq<char>,
    pub turn_id: Option<Seq<char>>,
    pub created_at_ms: i64,
    pub status: CardStatus,
    pub collapsed: bool,
    pub kind: KindModel,
}

impl View for ConversationCard {
    type V = CardModel;

    open spec fn view(&self) -> CardModel {
        CardModel {
            id: self.id@,
            turn_id: opt_view(self.turn_id),
            created_at_ms: self.created_at_ms,
            status: self.status,
            collapsed: self.collapsed,
            kind: self.kind@,
        }
    }
}

impl Clone for ConversationCard {
    fn clone(&self) -> (r: Self)
        ensures
            r@ == self@,
    {
        ConversationCard {
            id: self.id.clone(),
            turn_id: text::copy_opt(&self.turn_id),
            created_at_ms: self.created_at_ms,
            status: self.status,
            collapsed: self.collapsed,
            kind: self.kind.clone(),
        }
    }
}

/// The id of the card with the given number that is made at the given time.
pub open spec fn card_id(ms: i64, sequence: u64) -> Seq<char> {
    "card-"@ + signed_decimal(ms as int) + "-"@ + decimal(sequence as nat)
}

/// See [`card_id`].
pub fn new_card_id(ms: i64, sequence: u64) -> (r: String)
    ensures
        r@ == card_id(ms, sequence),
{
    let mut r = "card-".to_owned();
    r.append(text::signed_number(ms).as_str());
    r.append("-");
    r.append(text::number(sequence, 10).as_str());
    r
}

/// A card as it is when it is made.
pub open spec fn made_card(
    id: Seq<char>,
    ms: i64,
    kind: KindModel,
    status: CardStatus,
    turn_id: Option<Seq<char>>,
) -> CardModel {
    CardModel { id, turn_id, created_at_ms: ms, status, collapsed: false, kind }
}

/// Whether a card is a new one with the given id, whatever the time.
pub open spec fn is_made_card(
    card: CardModel,
    id: Seq<char>,
    kind: KindModel,
    status: CardStatus,
    turn_id: Option<Seq<char>>,
) -> bool {
    card == made_card(id, card.created_at_ms, kind, status, turn_id) && card.created_at_ms >= 0
}

/// Whether an id is that of the card with the given number, whatever the time.
pub open spec fn is_card_id(id: Seq<char>, sequence: u64) -> bool {
    exists|ms: i64| 0 <= ms && id == #[trigger] card_id(ms, sequence)
}

/// The number of lines from which on an output can be collapsed.
pub open spec fn long_output(output: Seq<char>) -> bool {
    lines_of(output).len() > 8
}

/// Whether a card can be collapsed: reasoning always, a command's or a tool's output where it
/// is long.
pub open spec fn collapsible(kind: KindModel) -> bool {
    match kind {
        KindModel::Reasoning { .. } => true,
        KindModel::Command { output, .. } => long_output(output),
        KindModel::ToolResult { output, .. } => long_output(output),
        _ => false,
    }
}

impl ConversationCard {
    /// A card with the given id, made at the given time.
    pub fn made_at(
        ms: i64,
        id: String,
        kind: CardKind,
        status: CardStatus,
        turn_id: Option<String>,
    ) -> (r: Self)
        ensures
            r@ == made_card(id@, ms, kind@, status, opt_view(turn_id)),
    {
        ConversationCard { id, turn_id, created_at_ms: ms, status, collapsed: false, kind }
    }

    /// A card with an id of its own. The caller numbers the cards.
    pub fn new(sequence: u64, kind: CardKind, status: CardStatus, turn_id: Option<String>) -> (r:
        Self)
        ensures
            is_made_card(r@, r@.id, kind@, status, opt_view(turn_id)),
            is_card_id(r@.id, sequence),
    {
        let ms: i64 = clock::now_ms();
        let id = new_card_id(ms, sequence);
        ConversationCard::made_at(clock::now_ms(), id, kind, status, turn_id)
    }

    /// A card with an id that names the same thing on every run.
    pub fn stable(id: &str, kind: CardKind, status: CardStatus, turn_id: Option<String>) -> (r: Self)
        ensures
            is_made_card(r@, id@, kind@, status, opt_view(turn_id)),
    {
        ConversationCard::made_at(clock::now_ms(), id.to_owned(), kind, status, turn_id)
    }

    pub fn is_collapsible(&self) -> (r: bool)
        ensures
            r == collapsible(self@.kind),
    {
        match &self.kind {
            CardKind::Reasoning { .. } => true,
            CardKind::Command { output, .. } => is_long(output.as_str()),
            CardKind::ToolResult { output, .. } => is_long(output.as_str()),
            _ => false,
        }
    }
}

/// See [`long_output`].
fn is_long(output: &str) -> (r: bool)
    ensures
        r == long_output(output@),
{
    let lines = text::lines(output);
    assert(lines@.len() == views(lines@).len());
    lines.len() > 8
}

/// The cards of a conversation in order, with the position of each by its id.
#[verifier::ext_equal]
pub struct ProjectionModel {
    pub cards: Seq<CardModel>,
    /// The position at which a card was last put under an id.
    pub index: Map<Seq<char>, usize>,
    /// The number of the next card that the conversation makes itself.
    pub sequence: u64,
}

impl ProjectionModel {
    /// Every known position is that of a card.
    pub open spec fn wf(self) -> bool {
        forall|id: Seq<char>| #[trigger]
            self.index.contains_key(id) ==> self.index[id] < self.cards.len()
    }

    /// Every id is known by the last position at which it stands.
    pub open spec fn indexed(self) -> bool {
        self.index == last_positions(self.cards)
    }
}

/// The last position at which each id stands.
pub open spec fn last_positions(cards: Seq<CardModel>) -> Map<Seq<char>, usize>
    decreases cards.len(),
{
    if cards.len() == 0 {
        Map::empty()
    } else {
        last_positions(cards.drop_last()).insert(cards.last().id, (cards.len() - 1) as usize)
    }
}

/// A conversation without cards.
pub open spec fn no_cards() -> ProjectionModel {
    ProjectionModel { cards: Seq::empty(), index: Map::empty(), sequence: 1 }
}

/// The conversation that holds the given cards.
pub open spec fn holding(p: ProjectionModel, cards: Seq<CardModel>) -> ProjectionModel {
    ProjectionModel { cards, index: last_positions(cards), ..p }
}

/// The conversation with one more card.
pub open spec fn pushed(p: ProjectionModel, card: CardModel) -> ProjectionModel {
    ProjectionModel {
        cards: p.cards.push(card),
        index: p.index.insert(card.id, p.cards.len() as usize),
        ..p
    }
}

/// The conversation with the card at a position changed.
pub open spec fn with_card(p: ProjectionModel, i: int, card: CardModel) -> ProjectionModel {
    ProjectionModel { cards: p.cards.update(i, card), ..p }
}

/// The conversation with a card put in place of the one with its id, which keeps its time, or
/// added where there is none.
pub open spec fn upserted(p: ProjectionModel, card: CardModel) -> ProjectionModel {
    if p.index.contains_key(card.id) {
        let i = p.index[card.id] as int;
        with_card(p, i, CardModel { created_at_ms: p.cards[i].created_at_ms, ..card })
    } else {
        pushed(p, card)
    }
}

/// The position that `upserted` puts a card at.
pub open spec fn upsert_position(p: ProjectionModel, id: Seq<char>) -> int {
    if p.index.contains_key(id) {
        p.index[id] as int
    } else {
        p.cards.len() as int
    }
}

/// Whether the card under an id can be folded.
pub open spec fn can_toggle(p: ProjectionModel, id: Seq<char>) -> bool {
    p.index.contains_key(id) && collapsible(p.cards[p.index[id] as int].kind)
}

/// The conversation with the card under an id folded, or unfolded again.
pub open spec fn toggled(p: ProjectionModel, id: Seq<char>) -> ProjectionModel {
    if can_toggle(p, id) {
        let card = p.cards[p.index[id] as int];
        with_card(p, p.index[id] as int, CardModel { collapsed: !card.collapsed, ..card })
    } else {
        p
    }
}

/// Whether a card tells of the provider's inner life only: an informational notice, or the end
/// of a turn that did not fail.
pub open spec fn is_internal(card: CardModel) -> bool {
    match card.kind {
        KindModel::Notice { tone, .. } => tone == NoticeTone::Info,
        KindModel::TurnBoundary { .. } => card.status != CardStatus::Failed,
        _ => false,
    }
}

/// The id of the card that an assistant message streams into.
pub open spec fn assistant_id(item_id: Seq<char>) -> Seq<char> {
    "assistant-"@ + item_id
}

/// The id of the card that a part of the reasoning streams into.
pub open spec fn reasoning_id(item_id: Seq<char>, content_index: i64) -> Seq<char> {
    "reasoning-"@ + item_id + "-"@ + signed_decimal(content_index as int)
}

/// A card after more text was streamed into it. A card of another kind does not change.
pub open spec fn streamed(card: CardModel, reasoning: bool, delta: Seq<char>) -> CardModel {
    match card.kind {
        KindModel::AssistantMessage { text } if !reasoning => CardModel {
            kind: KindModel::AssistantMessage { text: text + delta },
            status: CardStatus::Running,
            ..card
        },
        KindModel::Reasoning { text } if reasoning => CardModel {
            kind: KindModel::Reasoning { text: text + delta },
            status: CardStatus::Running,
            ..card
        },
        _ => card,
    }
}

/// What a streamed card holds when its first text comes.
pub open spec fn stream_start(reasoning: bool, delta: Seq<char>) -> KindModel {
    if reasoning {
        KindModel::Reasoning { text: delta }
    } else {
        KindModel::AssistantMessage { text: delta }
    }
}

/// Whether `q` is `p` after a text was streamed into the card `id`, which is made with the
/// first text.
pub open spec fn is_streamed(
    p: ProjectionModel,
    q: ProjectionModel,
    id: Seq<char>,
    reasoning: bool,
    turn_id: Seq<char>,
    delta: Seq<char>,
) -> bool {
    if p.index.contains_key(id) {
        let i = p.index[id] as int;
        q == with_card(p, i, streamed(p.cards[i], reasoning, delta))
    } else {
        let card = q.cards.last();
        &&& is_made_card(card, id, stream_start(reasoning, delta), CardStatus::Running, Some(turn_id))
        &&& q == pushed(p, card)
    }
}

/// Whether a card waits for something to happen.
pub open spec fn unfinished(card: CardModel) -> bool {
    card.status == CardStatus::Pending || card.status == CardStatus::Running
}

/// A card once nothing more will happen to it: an approval that was not given has failed,
/// everything else that was not finished is cancelled.
pub open spec fn settled(card: CardModel) -> CardModel {
    if unfinished(card) {
        CardModel {
            status: if card.kind is Approval {
                CardStatus::Failed
            } else {
                CardStatus::Cancelled
            },
            ..card
        }
    } else {
        card
    }
}

/// Whether any card waits for something to happen.
pub open spec fn any_unfinished(cards: Seq<CardModel>) -> bool {
    exists|i: int| 0 <= i < cards.len() && unfinished(#[trigger] cards[i])
}

/// What the notice after a restart says.
pub open spec fn restart_notice() -> KindModel {
    KindModel::Notice {
        tone: NoticeTone::Warning,
        text: "Rode restarted while provider activity was in progress. Live approvals are no longer actionable and unfinished cards are marked interrupted."@,
    }
}

/// Whether `q` is `p` after a restart: unfinished cards are settled, and a notice says so.
pub open spec fn is_reconciled(p: ProjectionModel, q: ProjectionModel) -> bool {
    if any_unfinished(p.cards) {
        let notice = q.cards.last();
        &&& is_made_card(notice, notice.id, restart_notice(), CardStatus::Complete, None)
        &&& is_card_id(notice.id, p.sequence)
        &&& q == pushed(
            ProjectionModel {
                cards: p.cards.map_values(|c: CardModel| settled(c)),
                sequence: next_sequence(p.sequence),
                ..p
            },
            notice,
        )
    } else {
        q == p
    }
}

/// The number after `n`; it starts again from zero when all are used up.
pub open spec fn next_sequence(n: u64) -> u64 {
    if n == u64::MAX {
        0
    } else {
        (n + 1) as u64
    }
}

/// The cards of a conversation, found by position or by id.
pub struct ConversationProjection {
    cards: Vec<ConversationCard>,
    index_by_id: StringHashMap<usize>,
    sequence: u64,
}

impl View for ConversationProjection {
    type V = ProjectionModel;

    closed spec fn view(&self) -> ProjectionModel {
        ProjectionModel {
            cards: views(self.cards@),
            index: self.index_by_id@,
            sequence: self.sequence,
        }
    }
}

impl Default for ConversationProjection {
    fn default() -> (r: Self)
        ensures
            r@ == no_cards(),
            r.wf(),
            r@.indexed(),
    {
        let r = ConversationProjection {
            cards: Vec::new(),
            index_by_id: StringHashMap::new(),
            sequence: 1,
        };
        assert(r@.cards =~= Seq::<CardModel>::empty());
        r
    }
}

/// A copy of a vector of cards.
pub fn copy_cards(v: &Vec<ConversationCard>) -> (r: Vec<ConversationCard>)
    ensures
        views(r@) == views(v@),
{
    broadcast use {views_push, views_index};

    let mut r: Vec<ConversationCard> = Vec::new();
    let mut i: usize = 0;
    while i < v.len()
        invariant
            i <= v.len(),
            views(r@) == views(v@).take(i as int),
        decreases v.len() - i,
    {
        r.push(v[i].clone());
        i = i + 1;
        assert(views(v@).take(i as int) =~= views(v@).take(i - 1).push(views(v@)[i - 1]));
    }
    assert(views(v@).take(i as int) =~= views(v@));
    r
}

impl ConversationProjection {
    /// Every known position is that of a card.
    pub open spec fn wf(&self) -> bool {
        self@.wf()
    }

    pub fn cards(&self) -> (r: &[ConversationCard])
        ensures
            views(r@) == self@.cards,
    {
        self.cards.as_slice()
    }

    /// The cards as they are now, to be kept while the conversation goes on.
    pub fn shared_cards(&self) -> (r: Rc<Vec<ConversationCard>>)
        ensures
            views(r@) == self@.cards,
    {
        Rc::new(copy_cards(&self.cards))
    }

    /// The cards, to be changed in place. Ids are looked up where they stood before.
    pub fn cards_mut(&mut self) -> (r: &mut [ConversationCard])
        requires
            old(self).wf(),
        ensures
            views(r@) == old(self)@.cards,
            final(self)@ == (ProjectionModel { cards: views(final(r)@), ..old(self)@ }),
            final(r)@.len() == r@.len() ==> final(self).wf(),
    {
        self.cards.as_mut_slice()
    }

    /// The position of the card with an id, and the card, to be changed in place.
    pub fn get_mut(&mut self, id: &str) -> (r: Option<(usize, &mut ConversationCard)>)
        requires
            old(self).wf(),
        ensures
            match r {
                Some((i, card)) => {
                    &&& old(self)@.index.contains_key(id@)
                    &&& i == old(self)@.index[id@]
                    &&& card@ == old(self)@.cards[i as int]
                    &&& final(self)@ == with_card(old(self)@, i as int, final(card)@)
                },
                None => !old(self)@.index.contains_key(id@) && final(self)@ == old(self)@,
            },
            final(self).wf(),
    {
        broadcast use views_update;

        match self.index_by_id.get(id) {
            None => None,
            Some(index) => {
                let i: usize = *index;
                assert(self@.index.contains_key(id@));
                Some((i, &mut self.cards[i]))
            },
        }
    }

    /// Takes the place of all cards.
    pub fn replace(&mut self, cards: Vec<ConversationCard>)
        ensures
            final(self)@ == holding(old(self)@, views(cards@)),
            final(self).wf(),
            final(self)@.indexed(),
    {
        self.cards = cards;
        self.rebuild_index();
    }

    /// Takes out the cards that tell of the provider's inner life only.
    pub fn hide_internal_lifecycle_cards(&mut self)
        ensures
            final(self)@ == holding(
                old(self)@,
                old(self)@.cards.filter(|c: CardModel| !is_internal(c)),
            ),
            final(self).wf(),
            final(self)@.indexed(),
    {
        broadcast use {views_push, views_index};

        let mut old_cards: Vec<ConversationCard> = Vec::new();
        std::mem::swap(&mut self.cards, &mut old_cards);
        let ghost all = views(old_cards@);
        let ghost keep = |c: CardModel| !is_internal(c);
        let mut kept: Vec<ConversationCard> = Vec::new();
        proof {
            reveal(Seq::filter);
            assert(views(kept@) =~= all.take(0).filter(keep));
        }
        let mut i: usize = 0;
        while i < old_cards.len()
            invariant
                all == views(old_cards@),
                keep == (|c: CardModel| !is_internal(c)),
                i <= old_cards.len(),
                views(kept@) == all.take(i as int).filter(keep),
            decreases old_cards.len() - i,
        {
            proof {
                reveal(Seq::filter);
                assert(all.take(i + 1).drop_last() =~= all.take(i as int));
            }
            let internal = match &old_cards[i].kind {
                CardKind::Notice { tone, .. } => *tone == NoticeTone::Info,
                CardKind::TurnBoundary { .. } => old_cards[i].status != CardStatus::Failed,
                _ => false,
            };
            assert(internal == is_internal(all[i as int]));
            if !internal {
                kept.push(old_cards[i].clone());
            }
            i = i + 1;
        }
        assert(all.take(i as int) =~= all);
        self.cards = kept;
        self.rebuild_index();
    }

    pub fn clear(&mut self)
        ensures
            final(self)@ == holding(old(self)@, Seq::empty()),
            final(self).wf(),
            final(self)@.indexed(),
    {
        self.cards = Vec::new();
        self.index_by_id.clear();
        assert(self@.cards =~= Seq::<CardModel>::empty());
    }

    /// Adds a card at the end, and gives its position.
    pub fn push(&mut self, card: ConversationCard) -> (r: usize)
        requires
            old(self).wf(),
        ensures
            final(self)@ == pushed(old(self)@, card@),
            r == old(self)@.cards.len(),
            final(self).wf(),
            old(self)@.indexed() ==> final(self)@.indexed(),
    {
        broadcast use views_push;

        proof {
            if self@.indexed() {
                pushing_keeps_the_index(self@, card@);
            }
        }
        let id = card.id.clone();
        let index: usize = self.cards.len();
        self.cards.push(card);
        self.index_by_id.insert(id, index);
        index
    }

    /// Puts a card in place of the one with its id, or adds it, and gives its position.
    pub fn upsert(&mut self, card: ConversationCard) -> (r: usize)
        requires
            old(self).wf(),
        ensures
            final(self)@ == upserted(old(self)@, card@),
            r == upsert_position(old(self)@, card@.id),
            final(self).wf(),
            old(self)@.indexed() ==> final(self)@.indexed(),
    {
        broadcast use {views_update, views_index};

        proof {
            assert(self.cards.len() == self@.cards.len());
            if self@.indexed() {
                upserting_keeps_the_index(self@, card@);
            }
        }
        match self.position(card.id.as_str()) {
            Some(index) => {
                let mut card = card;
                card.created_at_ms = self.cards[index].created_at_ms;
                self.cards.set(index, card);
                index
            },
            None => self.push(card),
        }
    }

    /// The position of the card that was last put under an id.
    fn position(&self, id: &str) -> (r: Option<usize>)
        requires
            self.wf(),
        ensures
            match r {
                Some(i) => self@.index.contains_key(id@) && i == self@.index[id@] && i
                    < self@.cards.len(),
                None => !self@.index.contains_key(id@),
            },
            self.cards@.len() == self@.cards.len(),
    {
        match self.index_by_id.get(id) {
            Some(i) => {
                assert(self@.index.contains_key(id@));
                Some(*i)
            },
            None => None,
        }
    }

    /// Streams a text into the card `id`.
    fn append_delta(&mut self, id: String, reasoning: bool, turn_id: &str, delta: &str) -> (r: usize)
        requires
            old(self).wf(),
        ensures
            is_streamed(old(self)@, final(self)@, id@, reasoning, turn_id@, delta@),
            r == upsert_position(old(self)@, id@),
            final(self).wf(),
            old(self)@.indexed() ==> final(self)@.indexed(),
    {
        broadcast use {views_update, views_index};

        proof {
            assert(self.cards.len() == self@.cards.len());
            if self@.indexed() && self@.index.contains_key(id@) {
                let i = self@.index[id@] as int;
                changing_keeps_the_index(self@, i, streamed(self@.cards[i], reasoning, delta@));
            }
        }
        match self.position(id.as_str()) {
            Some(index) => {
                let mut card = self.cards[index].clone();
                match card.kind {
                    CardKind::AssistantMessage { text } if !reasoning => {
                        card.kind = CardKind::AssistantMessage {
                            text: text::concat(text.as_str(), delta),
                        };
                        card.status = CardStatus::Running;
                    },
                    CardKind::Reasoning { text } if reasoning => {
                        card.kind = CardKind::Reasoning { text: text::concat(text.as_str(), delta) };
                        card.status = CardStatus::Running;
                    },
                    kind => {
                        card.kind = kind;
                    },
                }
                self.cards.set(index, card);
                index
            },
            None => {
                let kind = if reasoning {
                    CardKind::Reasoning { text: delta.to_owned() }
                } else {
                    CardKind::AssistantMessage { text: delta.to_owned() }
                };
                self.push(
                    ConversationCard::stable(
                        id.as_str(),
                        kind,
                        CardStatus::Running,
                        Some(turn_id.to_owned()),
                    ),
                )
            },
        }
    }

    /// Streams a text into the card of an assistant message, and gives the card's position.
    pub fn append_assistant_delta(&mut self, item_id: &str, turn_id: &str, delta: &str) -> (r: usize)
        requires
            old(self).wf(),
        ensures
            is_streamed(
                old(self)@,
                final(self)@,
                assistant_id(item_id@),
                false,
                turn_id@,
                delta@,
            ),
            r == upsert_position(old(self)@, assistant_id(item_id@)),
            final(self).wf(),
            old(self)@.indexed() ==> final(self)@.indexed(),
    {
        let id = text::concat("assistant-", item_id);
        self.append_delta(id, false, turn_id, delta)
    }

    /// Streams a text into the card of a part of the reasoning, and gives the card's position.
    pub fn append_reasoning_delta(
        &mut self,
        item_id: &str,
        content_index: i64,
        turn_id: &str,
        delta: &str,
    ) -> (r: usize)
        requires
            old(self).wf(),
        ensures
            is_streamed(
                old(self)@,
                final(self)@,
                reasoning_id(item_id@, content_index),
                true,
                turn_id@,
                delta@,
            ),
            r == upsert_position(old(self)@, reasoning_id(item_id@, content_index)),
            final(self).wf(),
            old(self)@.indexed() ==> final(self)@.indexed(),
    {
        let mut id = text::concat("reasoning-", item_id);
        id.append("-");
        id.append(text::signed_number(content_index).as_str());
        self.append_delta(id, true, turn_id, delta)
    }

    /// Folds or unfolds the card with an id, and gives its position; nothing happens where
    /// there is no such card or it cannot be collapsed.
    pub fn toggle_collapsed(&mut self, id: &str) -> (r: Option<usize>)
        requires
            old(self).wf(),
        ensures
            final(self)@ == toggled(old(self)@, id@),
            r == (if can_toggle(old(self)@, id@) {
                Some(old(self)@.index[id@])
            } else {
                None
            }),
            final(self).wf(),
            old(self)@.indexed() ==> final(self)@.indexed(),
    {
        broadcast use {views_update, views_index};

        proof {
            assert(self.cards.len() == self@.cards.len());
            if self@.indexed() {
                toggling_keeps_the_index(self@, id@);
            }
        }
        match self.position(id) {
            None => None,
            Some(index) => {
                if !self.cards[index].is_collapsible() {
                    return None;
                }
                let mut card = self.cards[index].clone();
                card.collapsed = !card.collapsed;
                self.cards.set(index, card);
                Some(index)
            },
        }
    }

    /// The number of the next card that the conversation makes itself.
    pub fn next_sequence(&mut self) -> (r: u64)
        ensures
            r == old(self)@.sequence,
            final(self)@ == (ProjectionModel { sequence: next_sequence(r), ..old(self)@ }),
    {
        let n: u64 = self.sequence;
        self.sequence = n.wrapping_add(1);
        n
    }

    /// Settles what was unfinished when the program stopped, and says whether anything was.
    pub fn reconcile_after_restart(&mut self) -> (changed: bool)
        requires
            old(self).wf(),
        ensures
            is_reconciled(old(self)@, final(self)@),
            changed == any_unfinished(old(self)@.cards),
            final(self).wf(),
            old(self)@.indexed() ==> final(self)@.indexed(),
    {
        broadcast use {views_update, views_index};

        let ghost before = self@;
        let ghost after = before.cards.map_values(|c: CardModel| settled(c));
        let mut changed = false;
        let mut i: usize = 0;
        while i < self.cards.len()
            invariant
                i <= self.cards.len(),
                self.cards@.len() == before.cards.len(),
                after == before.cards.map_values(|c: CardModel| settled(c)),
                self@ == (ProjectionModel { cards: self@.cards, ..before }),
                forall|k: int| 0 <= k < i ==> self@.cards[k] == #[trigger] after[k],
                forall|k: int| i <= k < before.cards.len() ==> self@.cards[k] == #[trigger] before.cards[k],
                changed == (exists|k: int| 0 <= k < i && unfinished(#[trigger] before.cards[k])),
            decreases self.cards.len() - i,
        {
            let card = &self.cards[i];
            assert(card@ == before.cards[i as int]);
            assert(after[i as int] == settled(card@));
            if card.status == CardStatus::Pending || card.status == CardStatus::Running {
                let mut card = card.clone();
                card.status = match card.kind {
                    CardKind::Approval { .. } => CardStatus::Failed,
                    _ => CardStatus::Cancelled,
                };
                assert(unfinished(before.cards[i as int]));
                self.cards.set(i, card);
                changed = true;
            }
            i = i + 1;
        }
        proof {
            assert(self@.cards =~= after);
            same_ids_same_positions(before.cards, after);
            if !changed {
                assert(self@.cards =~= before.cards) by {
                    assert forall|k: int| 0 <= k < after.len() implies after[k] == before.cards[k] by {
                        assert(!unfinished(before.cards[k]));
                    }
                }
            }
        }
        if changed {
            let sequence: u64 = self.next_sequence();
            let notice = ConversationCard::new(
                sequence,
                CardKind::Notice {
                    tone: NoticeTone::Warning,
                    text: "Rode restarted while provider activity was in progress. Live approvals are no longer actionable and unfinished cards are marked interrupted.".to_owned(),
                },
                CardStatus::Complete,
                None,
            );
            self.push(notice);
        }
        changed
    }

    /// Finds every card again by its id.
    fn rebuild_index(&mut self)
        ensures
            final(self)@ == holding(old(self)@, old(self)@.cards),
            final(self).wf(),
    {
        broadcast use views_index;

        let mut index: StringHashMap<usize> = StringHashMap::new();
        let ghost all = views(self.cards@);
        let mut i: usize = 0;
        while i < self.cards.len()
            invariant
                all == views(self.cards@),
                i <= self.cards.len(),
                index@ == last_positions(all.take(i as int)),
            decreases self.cards.len() - i,
        {
            assert(all.take(i + 1).drop_last() =~= all.take(i as int));
            index.insert(self.cards[i].id.clone(), i);
            i = i + 1;
        }
        self.index_by_id = index;
        proof {
            assert(all.take(i as int) =~= all);
            last_positions_are_last(all);
        }
    }
}

/// Every position of the index is the last one at which its id stands, and every id is in it.
pub proof fn last_positions_are_last(cards: Seq<CardModel>)
    requires
        cards.len() <= usize::MAX,
    ensures
        forall|id: Seq<char>| #[trigger]
            last_positions(cards).contains_key(id) ==> {
                let i = last_positions(cards)[id] as int;
                &&& 0 <= i < cards.len()
                &&& cards[i].id == id
                &&& forall|j: int| i < j < cards.len() ==> (#[trigger] cards[j]).id != id
            },
        forall|i: int|
            0 <= i < cards.len() ==> last_positions(cards).contains_key(#[trigger] cards[i].id),
    decreases cards.len(),
{
    if cards.len() > 0 {
        let head = cards.drop_last();
        last_positions_are_last(head);
        assert forall|id: Seq<char>| #[trigger] last_positions(cards).contains_key(id) implies {
            let i = last_positions(cards)[id] as int;
            &&& 0 <= i < cards.len()
            &&& cards[i].id == id
            &&& forall|j: int| i < j < cards.len() ==> (#[trigger] cards[j]).id != id
        } by {
            if id != cards.last().id {
                assert(last_positions(head).contains_key(id));
                let i = last_positions(head)[id] as int;
                assert(head[i].id == id);
                assert forall|j: int| i < j < cards.len() implies (#[trigger] cards[j]).id != id by {
                    if j < head.len() {
                        assert(head[j].id != id);
                    }
                }
            }
        }
        assert forall|i: int| 0 <= i < cards.len() implies last_positions(cards).contains_key(
            #[trigger] cards[i].id,
        ) by {
            if i < head.len() {
                assert(last_positions(head).contains_key(head[i].id));
            }
        }
    }
}

/// Cards with the same ids in the same order stand at the same last positions.
pub proof fn same_ids_same_positions(a: Seq<CardModel>, b: Seq<CardModel>)
    requires
        a.len() == b.len(),
        forall|i: int| 0 <= i < a.len() ==> (#[trigger] a[i]).id == (#[trigger] b[i]).id,
    ensures
        last_positions(a) == last_positions(b),
    decreases a.len(),
{
    if a.len() > 0 {
        let (x, y) = (a.drop_last(), b.drop_last());
        assert forall|i: int| 0 <= i < x.len() implies (#[trigger] x[i]).id == (#[trigger] y[i]).id by {
            assert(x[i] == a[i] && y[i] == b[i]);
        }
        same_ids_same_positions(x, y);
        assert(a[a.len() - 1].id == b[b.len() - 1].id);
    }
}

/// Adding a card keeps every id known by its last position.
pub proof fn pushing_keeps_the_index(p: ProjectionModel, card: CardModel)
    requires
        p.indexed(),
    ensures
        pushed(p, card).indexed(),
{
    assert(p.cards.push(card).drop_last() =~= p.cards);
}

/// Changing a card whose id stays keeps every id known by its last position.
pub proof fn changing_keeps_the_index(p: ProjectionModel, i: int, card: CardModel)
    requires
        p.indexed(),
        p.wf(),
        0 <= i < p.cards.len(),
        card.id == p.cards[i].id,
    ensures
        with_card(p, i, card).indexed(),
{
    same_ids_same_positions(p.cards, p.cards.update(i, card));
}

/// Putting a card keeps every id known by its last position.
pub proof fn upserting_keeps_the_index(p: ProjectionModel, card: CardModel)
    requires
        p.indexed(),
        p.cards.len() <= usize::MAX,
    ensures
        upserted(p, card).indexed(),
{
    last_positions_are_last(p.cards);
    if p.index.contains_key(card.id) {
        let i = p.index[card.id] as int;
        changing_keeps_the_index(
            p,
            i,
            CardModel { created_at_ms: p.cards[i].created_at_ms, ..card },
        );
    } else {
        pushing_keeps_the_index(p, card);
    }
}

/// Folding a card keeps every id known by its last position.
pub proof fn toggling_keeps_the_index(p: ProjectionModel, id: Seq<char>)
    requires
        p.indexed(),
        p.cards.len() <= usize::MAX,
    ensures
        toggled(p, id).indexed(),
{
    last_positions_are_last(p.cards);
    if can_toggle(p, id) {
        let i = p.index[id] as int;
        changing_keeps_the_index(
            p,
            i,
            CardModel { collapsed: !p.cards[i].collapsed, ..p.cards[i] },
        );
    }
}

/// A card is found by its id exactly where some card has the id, and then it is the last one of
/// them. A card that is handed out and not changed leaves the conversation as it was.
pub proof fn cards_are_found_by_id(p: ProjectionModel, id: Seq<char>)
    requires
        p.indexed(),
        p.cards.len() <= usize::MAX,
    ensures
        p.index.contains_key(id) <==> exists|i: int|
            0 <= i < p.cards.len() && (#[trigger] p.cards[i]).id == id,
        p.index.contains_key(id) ==> {
            let i = p.index[id] as int;
            &&& 0 <= i < p.cards.len()
            &&& p.cards[i].id == id
            &&& forall|j: int| i < j < p.cards.len() ==> (#[trigger] p.cards[j]).id != id
            &&& with_card(p, i, p.cards[i]) == p
        },
{
    last_positions_are_last(p.cards);
    if p.index.contains_key(id) {
        let i = p.index[id] as int;
        assert(p.cards[i].id == id);
        assert(p.cards.update(i, p.cards[i]) =~= p.cards);
    }
}

/// Putting a card finds the one with its id wherever there is one: the conversation then keeps
/// its length, the card takes that place with the time that stood there, and the others stay.
/// Where there is none, the card comes last. Putting it again finds the same place and changes
/// nothing.
pub proof fn upsert_finds_any_card(p: ProjectionModel, card: CardModel)
    requires
        p.indexed(),
        p.cards.len() < usize::MAX,
    ensures
        ({
            let q = upserted(p, card);
            let i = upsert_position(p, card.id);
            let there = exists|k: int| 0 <= k < p.cards.len() && (#[trigger] p.cards[k]).id == card.id;
            &&& there ==> {
                &&& 0 <= i < p.cards.len()
                &&& p.cards[i].id == card.id
                &&& q.cards == p.cards.update(
                    i,
                    CardModel { created_at_ms: p.cards[i].created_at_ms, ..card },
                )
            }
            &&& !there ==> i == p.cards.len() && q.cards == p.cards.push(card)
            &&& upsert_position(q, card.id) == i
            &&& upserted(q, card) == q
        }),
{
    cards_are_found_by_id(p, card.id);
    last_positions_are_last(p.cards);
    upsert_twice_is_upsert(p, card);
}

/// Folding finds a card that can be folded wherever one stands alone under the id, and gives
/// nothing where no card has the id.
pub proof fn toggle_finds_any_card(p: ProjectionModel, id: Seq<char>, i: int)
    requires
        p.indexed(),
        p.cards.len() <= usize::MAX,
        forall|j: int, k: int|
            0 <= j < k < p.cards.len() ==> (#[trigger] p.cards[j]).id != (#[trigger] p.cards[k]).id,
        0 <= i < p.cards.len(),
    ensures
        can_toggle(p, id) && p.index[id] == i <==> p.cards[i].id == id && collapsible(
            p.cards[i].kind,
        ),
        can_toggle(p, id) ==> exists|k: int|
            0 <= k < p.cards.len() && (#[trigger] p.cards[k]).id == id && collapsible(
                p.cards[k].kind,
            ),
{
    cards_are_found_by_id(p, id);
    if p.index.contains_key(id) {
        let k = p.index[id] as int;
        assert(p.cards[k].id == id);
    }
}

/// Folding changes nothing but whether the card is folded, and folding again restores the
/// conversation.
pub proof fn toggling_twice_restores(p: ProjectionModel, id: Seq<char>)
    requires
        p.wf(),
    ensures
        toggled(toggled(p, id), id) == p,
        toggled(p, id).cards.len() == p.cards.len(),
        forall|i: int|
            0 <= i < p.cards.len() ==> (#[trigger] toggled(p, id).cards[i]) == (CardModel {
                collapsed: if can_toggle(p, id) && p.index[id] == i {
                    !p.cards[i].collapsed
                } else {
                    p.cards[i].collapsed
                },
                ..p.cards[i]
            }),
{
    if can_toggle(p, id) {
        assert(toggled(toggled(p, id), id).cards =~= p.cards);
    }
}

/// The text of a card that a stream goes into.
pub open spec fn stream_text(kind: KindModel) -> Seq<char> {
    match kind {
        KindModel::AssistantMessage { text } => text,
        KindModel::Reasoning { text } => text,
        _ => Seq::empty(),
    }
}

/// Whether the card under an id, if there is one, is of the kind that the stream makes.
pub open spec fn takes_stream(p: ProjectionModel, id: Seq<char>, reasoning: bool) -> bool {
    p.index.contains_key(id) ==> {
        let kind = p.cards[p.index[id] as int].kind;
        if reasoning {
            kind is Reasoning
        } else {
            kind is AssistantMessage
        }
    }
}

/// A stream keeps to one card: the second text goes where the first one went, no card is
/// added for it, and the card holds both texts after what it held before.
pub proof fn streaming_keeps_card_identity(
    p: ProjectionModel,
    q: ProjectionModel,
    r: ProjectionModel,
    id: Seq<char>,
    reasoning: bool,
    turn_id: Seq<char>,
    first: Seq<char>,
    second: Seq<char>,
)
    requires
        p.wf(),
        p.cards.len() < usize::MAX,
        takes_stream(p, id, reasoning),
        is_streamed(p, q, id, reasoning, turn_id, first),
        is_streamed(q, r, id, reasoning, turn_id, second),
    ensures
        upsert_position(q, id) == upsert_position(p, id),
        r.cards.len() == q.cards.len(),
        q.cards.len() == p.cards.len() + (if p.index.contains_key(id) {
            0int
        } else {
            1int
        }),
        ({
            let i = upsert_position(p, id);
            let held = if p.index.contains_key(id) {
                stream_text(p.cards[i].kind)
            } else {
                Seq::empty()
            };
            &&& stream_text(r.cards[i].kind) == held + first + second
            &&& r.cards[i].status == CardStatus::Running
            &&& r.cards[i].id == q.cards[i].id
            &&& r.cards[i].created_at_ms == q.cards[i].created_at_ms
        }),
{
    let i = upsert_position(p, id);
    if !p.index.contains_key(id) {
        assert(q.cards[i] == q.cards.last());
        assert(Seq::<char>::empty() + first =~= first);
    }
}

/// A card that is already there is changed in place: the conversation does not grow, the
/// other cards do not change, and the time at which the card was made is kept.
pub proof fn upsert_changes_one_card_in_place(p: ProjectionModel, card: CardModel)
    requires
        p.wf(),
        p.index.contains_key(card.id),
    ensures
        ({
            let q = upserted(p, card);
            let i = upsert_position(p, card.id);
            &&& q.cards.len() == p.cards.len()
            &&& q.index == p.index
            &&& q.cards[i] == (CardModel { created_at_ms: p.cards[i].created_at_ms, ..card })
            &&& forall|j: int| 0 <= j < p.cards.len() && j != i ==> q.cards[j] == p.cards[j]
        }),
{
}

/// Putting the same card twice is putting it once.
pub proof fn upsert_twice_is_upsert(p: ProjectionModel, card: CardModel)
    requires
        p.wf(),
        p.cards.len() < usize::MAX,
    ensures
        upserted(upserted(p, card), card) == upserted(p, card),
{
    let q = upserted(p, card);
    assert(upserted(q, card).cards =~= q.cards);
}

/// After a restart nothing waits any more, approvals that waited have failed, everything else
/// that waited is cancelled, and what was finished did not change. A second restart changes
/// nothing.
pub proof fn restart_settles_every_card(p: ProjectionModel, q: ProjectionModel, r: ProjectionModel)
    requires
        is_reconciled(p, q),
        is_reconciled(q, r),
    ensures
        !any_unfinished(q.cards),
        q.cards.len() >= p.cards.len(),
        forall|i: int|
            0 <= i < p.cards.len() ==> (#[trigger] q.cards[i]).status == (if unfinished(
                p.cards[i],
            ) {
                if p.cards[i].kind is Approval {
                    CardStatus::Failed
                } else {
                    CardStatus::Cancelled
                }
            } else {
                p.cards[i].status
            }),
        r == q,
{
}

/// Hiding keeps the failures: a card that is kept is not internal, a turn that failed is kept,
/// and hiding twice is hiding once.
pub proof fn hiding_keeps_failures(cards: Seq<CardModel>)
    ensures
        ({
            let keep = |c: CardModel| !is_internal(c);
            let kept = cards.filter(keep);
            &&& forall|i: int| 0 <= i < kept.len() ==> !is_internal(#[trigger] kept[i])
            &&& forall|i: int|
                0 <= i < cards.len() && !is_internal(cards[i]) ==> kept.contains(
                    #[trigger] cards[i],
                )
            &&& forall|i: int|
                0 <= i < cards.len() && (#[trigger] cards[i]).kind is TurnBoundary && cards[i].status
                    == CardStatus::Failed ==> kept.contains(cards[i])
            &&& kept.filter(keep) == kept
        }),
{
    let keep = |c: CardModel| !is_internal(c);
    let kept = cards.filter(keep);
    broadcast use vstd::seq_lib::group_filter_ensures;

    assert forall|i: int| 0 <= i < kept.len() implies !is_internal(#[trigger] kept[i]) by {
        assert(keep(kept[i]));
    }
    assert forall|i: int| 0 <= i < cards.len() && !is_internal(cards[i]) implies kept.contains(
        #[trigger] cards[i],
    ) by {
        assert(keep(cards[i]));
    }
    filter_of_kept(kept, keep);
}

/// Filtering keeps everything where everything is to be kept.
proof fn filter_of_kept(cards: Seq<CardModel>, keep: spec_fn(CardModel) -> bool)
    requires
        forall|i: int| 0 <= i < cards.len() ==> keep(#[trigger] cards[i]),
    ensures
        cards.filter(keep) == cards,
    decreases cards.len(),
{
    reveal(Seq::filter);
    if cards.len() > 0 {
        filter_of_kept(cards.drop_last(), keep);
        assert(keep(cards[cards.len() - 1]));
        assert(cards =~= cards.drop_last().push(cards.last()));
    } else {
        assert(cards.filter(keep) =~= cards);
    }
}

/// What streams in changes one card alone, and the first of it makes a card of its kind for the
/// turn that it belongs to.
pub proof fn streams_leave_other_cards(
    p: ProjectionModel,
    q: ProjectionModel,
    id: Seq<char>,
    reasoning: bool,
    turn_id: Seq<char>,
    delta: Seq<char>,
)
    requires
        p.wf(),
        p.cards.len() < usize::MAX,
        is_streamed(p, q, id, reasoning, turn_id, delta),
    ensures
        forall|j: int|
            0 <= j < p.cards.len() && j != upsert_position(p, id) ==> #[trigger] q.cards[j]
                == p.cards[j],
        !p.index.contains_key(id) ==> {
            let card = q.cards.last();
            &&& q.cards.len() == p.cards.len() + 1
            &&& card.id == id
            &&& card.turn_id == Some(turn_id)
            &&& card.status == CardStatus::Running
            &&& !reasoning ==> card.kind == (KindModel::AssistantMessage { text: delta })
            &&& reasoning ==> card.kind == (KindModel::Reasoning { text: delta })
        },
{
}

/// A card that is new stands behind the others, as it was made, and the others stay.
pub proof fn new_cards_stand_last(p: ProjectionModel, card: CardModel)
    requires
        p.wf(),
        p.cards.len() < usize::MAX,
    ensures
        pushed(p, card).cards == p.cards.push(card),
        pushed(p, card).index.contains_key(card.id),
        pushed(p, card).index[card.id] == p.cards.len(),
        !p.index.contains_key(card.id) ==> upserted(p, card).cards == p.cards.push(card),
        upserted(p, card).index.contains_key(card.id),
{
}

/// Only what the user need not see is hidden: what was said, done or asked is not, nor what went
/// wrong.
pub proof fn words_are_never_hidden(card: CardModel)
    ensures
        is_internal(card) ==> card.kind is Notice || card.kind is TurnBoundary,
        card.kind matches KindModel::Notice { tone, .. } ==> (is_internal(card) <==> tone
            == NoticeTone::Info),
        card.kind is TurnBoundary ==> (is_internal(card) <==> card.status != CardStatus::Failed),
{
}

/// Each stream has a card of its own: no two messages share one, nor two parts of the reasoning
/// about one item, nor a message with reasoning.
pub proof fn streams_have_cards_of_their_own(a: Seq<char>, b: Seq<char>, i: i64, j: i64)
    ensures
        a != b ==> assistant_id(a) != assistant_id(b),
        0 <= i && 0 <= j && i != j ==> reasoning_id(a, i) != reasoning_id(a, j),
        assistant_id(a) != reasoning_id(b, i),
{
    let one = "assistant-"@;
    let other = "reasoning-"@;
    reveal_strlit("assistant-");
    reveal_strlit("reasoning-");
    assert((one + a).skip(one.len() as int) =~= a);
    assert((one + b).skip(one.len() as int) =~= b);
    assert(assistant_id(a)[0] == 'a');
    assert(reasoning_id(b, i)[0] == 'r');
    if 0 <= i && 0 <= j && i != j {
        decimals_differ(i as nat, j as nat);
        let before = other + a + "-"@;
        assert((before + signed_decimal(i as int)).skip(before.len() as int) =~= signed_decimal(
            i as int,
        ));
        assert((before + signed_decimal(j as int)).skip(before.len() as int) =~= signed_decimal(
            j as int,
        ));
    }
}

/// A restart changes nothing of a card but what became of it, and says that it happened where
/// anything was still under way.
pub proof fn restarts_keep_what_was_said(p: ProjectionModel, q: ProjectionModel, i: int)
    requires
        is_reconciled(p, q),
        0 <= i < p.cards.len(),
    ensures
        q.cards[i].id == p.cards[i].id,
        q.cards[i].kind == p.cards[i].kind,
        q.cards[i].turn_id == p.cards[i].turn_id,
        q.cards[i].created_at_ms == p.cards[i].created_at_ms,
        unfinished(p.cards[i]) ==> q.cards.len() == p.cards.len() + 1 && (q.cards.last().kind
            matches KindModel::Notice { tone, .. } && tone == NoticeTone::Warning),
{
}

/// Reasoning can be folded, and so can what a command or a tool wrote where it is long; words can
/// not.
pub proof fn long_outputs_are_folded(kind: KindModel)
    ensures
        kind is Reasoning ==> collapsible(kind),
        kind matches KindModel::Command { output, .. } ==> (collapsible(kind) <==> lines_of(
            output,
        ).len() > 8),
        kind matches KindModel::ToolResult { output, .. } ==> (collapsible(kind) <==> lines_of(
            output,
        ).len() > 8),
        kind is UserMessage || kind is AssistantMessage || kind is Approval || kind is Notice
            || kind is FileChange || kind is TurnBoundary || kind is CancelledTurn ==> !collapsible(
            kind,
        ),
{
}

/// An image is shown by the name of its file, and other attachments by their label.
pub proof fn attachments_are_shown_by_name(dir: Seq<char>, name: Seq<char>, label: Seq<char>)
    requires
        name.len() > 0,
        !name.contains('/'),
        name != "."@,
        name != ".."@,
    ensures
        attachment_label(AttachmentModel::Image { path: dir + seq!['/'] + name }) == name,
        attachment_label(AttachmentModel::Context { label }) == label,
        attachment_label(AttachmentModel::Legacy(label)) == label,
{
    path::names_stand_at_the_end(dir, name);
}

} // verus!
