//! What is kept between two runs: projects, their threads with messages and cards, and
//! settings.
use vstd::prelude::*;
use vstd::string::*;

use crate::conversation;
use crate::conversation::{CardKind, CardModel, CardStatus, ConversationCard, KindModel, NoticeTone};
use crate::hashing;
use crate::hashing::{hash_of_path, hash_of_text};
use crate::path;
use crate::path::base_name;
use crate::text;
use crate::text::{decimal, decimals_differ, has_part, numeral, parts_are_held, zero_padded};
use crate::views::{opt_view, views, views_index, views_push};

verus! {

pub const SCHEMA_VERSION: i64 = 4;

/// A message of a conversation from before there were cards.
#[derive(Debug, PartialEq, Eq)]
pub struct StoredMessage {
    pub role: String,
    pub text: String,
}

/// The value of a `StoredMessage`.
#[verifier::ext_equal]
pub struct MessageModel {
    pub role: Seq<char>,
    pub text: Seq<char>,
}

impl View for StoredMessage {
    type V = MessageModel;

    open spec fn view(&self) -> MessageModel {
        MessageModel { role: self.role@, text: self.text@ }
    }
}

impl Clone for StoredMessage {
    fn clone(&self) -> (r: Self)
        ensures
            r@ == self@,
    {
        StoredMessage { role: self.role.clone(), text: self.text.clone() }
    }
}

/// A project that was opened.
#[derive(Debug, PartialEq, Eq)]
pub struct StoredProject {
    pub id: String,
    pub path: String,
    pub git_root: String,
    pub name: String,
    pub active_thread_id: Option<String>,
    pub last_opened_ms: i64,
    pub settings_override: Option<String>,
}

/// The value of a `StoredProject`.
#[verifier::ext_equal]
pub struct ProjectModel {
    pub id: Seq<char>,
    pub path: Seq<char>,
    pub git_root: Seq<char>,
    pub name: Seq<char>,
    pub active_thread_id: Option<Seq<char>>,
    pub last_opened_ms: i64,
    pub settings_override: Option<Seq<char>>,
}

impl View for StoredProject {
    type V = ProjectModel;

    open spec fn view(&self) -> ProjectModel {
        ProjectModel {
            id: self.id@,
            path: self.path@,
            git_root: self.git_root@,
            name: self.name@,
            active_thread_id: opt_view(self.active_thread_id),
            last_opened_ms: self.last_opened_ms,
            settings_override: opt_view(self.settings_override),
        }
    }
}

impl Clone for StoredProject {
    fn clone(&self) -> (r: Self)
        ensures
            r@ == self@,
    {
        StoredProject {
            id: self.id.clone(),
            path: self.path.clone(),
            git_root: self.git_root.clone(),
            name: self.name.clone(),
            active_thread_id: text::copy_opt(&self.active_thread_id),
            last_opened_ms: self.last_opened_ms,
            settings_override: text::copy_opt(&self.settings_override),
        }
    }
}

/// The id of a new project, made of the time, the process, and a number that the sequence and
/// the hash of the path give.
pub open spec fn project_id(now: i64, process: u32, sequence: u64, hash: u64) -> Seq<char> {
    "project-"@ + numeral(now as u64 as nat, 16) + "-"@ + numeral(process as nat, 16) + "-"@
        + numeral((sequence ^ hash) as nat, 16)
}

/// See [`project_id`].
pub fn new_project_id(now: i64, process: u32, sequence: u64, hash: u64) -> (r: String)
    ensures
        r@ == project_id(now, process, sequence, hash),
{
    let mut r = text::concat3("project-", text::number(now as u64, 16).as_str(), "-");
    r.append(text::number(process as u64, 16).as_str());
    r.append("-");
    r.append(text::number(sequence ^ hash, 16).as_str());
    r
}

/// The id of a project from before projects had ids, given the hash of its path.
pub open spec fn legacy_id(hash: u64) -> Seq<char> {
    "legacy-project-"@ + zero_padded(numeral(hash as nat, 16), 16)
}

/// See [`legacy_id`].
pub fn legacy_project_id_with(hash: u64) -> (r: String)
    ensures
        r@ == legacy_id(hash),
{
    text::concat("legacy-project-", text::hex16(hash).as_str())
}

/// The hash of a path's text.
pub fn stable_path_hash(path: &str) -> (r: u64)
    ensures
        r == hash_of_text(path@),
{
    hashing::text_hash(path)
}

/// The id of a project from before projects had ids.
pub fn legacy_project_id(path: &str) -> (r: String)
    ensures
        r@ == legacy_id(hash_of_text(path@)),
{
    legacy_project_id_with(stable_path_hash(path))
}

/// What a folder is called: the last name in its path.
pub open spec fn folder_title(path: Seq<char>) -> Seq<char> {
    match base_name(path) {
        Some(name) => name,
        None => "project"@,
    }
}

/// See [`folder_title`].
pub fn folder_name(path: &str) -> (r: String)
    ensures
        r@ == folder_title(path@),
{
    match path::file_name(path) {
        Some(name) => name,
        None => "project".to_owned(),
    }
}

/// A count as a stored number; none is stored that does not fit.
pub open spec fn stored_count(value: usize) -> i64 {
    if value > i64::MAX {
        i64::MAX
    } else {
        value as i64
    }
}

/// See [`stored_count`].
pub fn usize_to_i64(value: usize) -> (r: i64)
    ensures
        r == stored_count(value),
{
    if value as u128 > i64::MAX as u128 {
        i64::MAX
    } else {
        value as i64
    }
}

/// A stored number as a count: a negative one counts as none, and no count is larger than the
/// machine's words hold.
pub open spec fn loaded_count(value: i64) -> int {
    if value < 0 {
        0
    } else if value > usize::MAX {
        usize::MAX as int
    } else {
        value as int
    }
}

/// The value of a count is read back where it fits.
pub proof fn counts_are_read_back(value: usize)
    requires
        value <= i64::MAX,
    ensures
        loaded_count(stored_count(value)) == value,
{
}

impl StoredProject {
    /// A project that was not opened before, with the given id.
    pub fn with_id(id: String, path: String, name: String) -> (r: Self)
        ensures
            r@ == (ProjectModel {
                id: id@,
                path: path@,
                git_root: path@,
                name: name@,
                active_thread_id: None,
                last_opened_ms: 0,
                settings_override: None,
            }),
    {
        StoredProject {
            id,
            git_root: path.clone(),
            path,
            name,
            active_thread_id: None,
            last_opened_ms: 0,
            settings_override: None,
        }
    }

    /// A project that was not opened before. The caller numbers the projects and names the
    /// process.
    pub fn new(path: String, name: String, process: u32, sequence: u64) -> (r: Self)
        ensures
            r@ == (ProjectModel {
                id: r@.id,
                path: path@,
                git_root: path@,
                name: name@,
                active_thread_id: None,
                last_opened_ms: 0,
                settings_override: None,
            }),
            exists|now: i64|
                0 <= now && r@.id == #[trigger] project_id(
                    now,
                    process,
                    sequence,
                    hash_of_path(path@),
                ),
    {
        let hash: u64 = hashing::path_hash(path.as_str());
        let now: i64 = crate::clock::now_ms();
        let id = new_project_id(now, process, sequence, hash);
        StoredProject::with_id(id, path, name)
    }
}

/// A card that shows a message from before there were cards.
pub open spec fn legacy_card(sequence: nat, message: MessageModel) -> CardModel {
    CardModel {
        id: "legacy-message-"@ + decimal(sequence),
        turn_id: None,
        created_at_ms: 0,
        status: CardStatus::Complete,
        collapsed: false,
        kind: if message.role == "user"@ {
            KindModel::UserMessage {
                text: message.text,
                model: "legacy"@,
                access: "unknown"@,
                attachments: Seq::empty(),
            }
        } else if message.role == "agent"@ || message.role == "assistant"@ {
            KindModel::AssistantMessage { text: message.text }
        } else {
            KindModel::Notice { tone: NoticeTone::Info, text: message.text }
        },
    }
}

/// The cards that show messages from before there were cards.
pub open spec fn legacy_cards(messages: Seq<MessageModel>) -> Seq<CardModel> {
    messages.map(|i: int, m: MessageModel| legacy_card(i as nat, m))
}

/// See [`legacy_cards`].
pub fn legacy_message_events(messages: &Vec<StoredMessage>) -> (r: Vec<ConversationCard>)
    ensures
        views(r@) == legacy_cards(views(messages@)),
{
    broadcast use {views_push, views_index};

    let ghost all = legacy_cards(views(messages@));
    let mut r: Vec<ConversationCard> = Vec::new();
    let mut i: usize = 0;
    while i < messages.len()
        invariant
            all == legacy_cards(views(messages@)),
            i <= messages.len(),
            views(r@) == all.take(i as int),
        decreases messages.len() - i,
    {
        let message = &messages[i];
        let role = message.role.as_str();
        let kind = if text::same(role, "user") {
            let attachments: Vec<conversation::ConversationAttachment> = Vec::new();
            assert(views(attachments@) =~= Seq::<conversation::AttachmentModel>::empty());
            CardKind::UserMessage {
                text: message.text.clone(),
                model: "legacy".to_owned(),
                access: "unknown".to_owned(),
                attachments,
            }
        } else if text::same(role, "agent") || text::same(role, "assistant") {
            CardKind::AssistantMessage { text: message.text.clone() }
        } else {
            CardKind::Notice { tone: NoticeTone::Info, text: message.text.clone() }
        };
        let card = ConversationCard {
            id: text::concat("legacy-message-", text::number(i as u64, 10).as_str()),
            turn_id: None,
            created_at_ms: 0,
            status: CardStatus::Complete,
            collapsed: false,
            kind,
        };
        assert(all.take(i + 1) =~= all.take(i as int).push(card@));
        r.push(card);
        i = i + 1;
    }
    assert(all.take(i as int) =~= all);
    r
}

/// A thread with everything that is kept of it.
#[derive(Debug, PartialEq, Eq)]
pub struct StoredThread {
    pub id: String,
    pub project_path: String,
    pub project_name: String,
    pub title: String,
    pub workspace_path: String,
    pub branch: Option<String>,
    pub provider_thread_id: Option<String>,
    pub ordinal: usize,
    pub draft: String,
    pub activity: String,
    pub activity_updated_ms: i64,
    pub base_branch: Option<String>,
    pub last_error: Option<String>,
    pub dirty_count: usize,
    pub unread: bool,
    pub conversation_scroll_item: usize,
    pub conversation_scroll_offset_millis: i64,
    pub messages: Vec<StoredMessage>,
    pub events: Vec<ConversationCard>,
}

/// The value of a `StoredThread`.
#[verifier::ext_equal]
pub struct ThreadModel {
    pub id: Seq<char>,
    pub project_path: Seq<char>,
    pub project_name: Seq<char>,
    pub title: Seq<char>,
    pub workspace_path: Seq<char>,
    pub branch: Option<Seq<char>>,
    pub provider_thread_id: Option<Seq<char>>,
    pub ordinal: int,
    pub draft: Seq<char>,
    pub activity: Seq<char>,
    pub activity_updated_ms: i64,
    pub base_branch: Option<Seq<char>>,
    pub last_error: Option<Seq<char>>,
    pub dirty_count: int,
    pub unread: bool,
    pub conversation_scroll_item: int,
    pub conversation_scroll_offset_millis: i64,
    pub messages: Seq<MessageModel>,
    pub events: Seq<CardModel>,
}

impl View for StoredThread {
    type V = ThreadModel;

    open spec fn view(&self) -> ThreadModel {
        ThreadModel {
            id: self.id@,
            project_path: self.project_path@,
            project_name: self.project_name@,
            title: self.title@,
            workspace_path: self.workspace_path@,
            branch: opt_view(self.branch),
            provider_thread_id: opt_view(self.provider_thread_id),
            ordinal: self.ordinal as int,
            draft: self.draft@,
            activity: self.activity@,
            activity_updated_ms: self.activity_updated_ms,
            base_branch: opt_view(self.base_branch),
            last_error: opt_view(self.last_error),
            dirty_count: self.dirty_count as int,
            unread: self.unread,
            conversation_scroll_item: self.conversation_scroll_item as int,
            conversation_scroll_offset_millis: self.conversation_scroll_offset_millis,
            messages: views(self.messages@),
            events: views(self.events@),
        }
    }
}

/// A card as it is stored: under its id, at a place in the order.
#[derive(Debug, PartialEq, Eq)]
pub struct EventRow {
    pub sequence: i64,
    pub card: ConversationCard,
}

/// The value of an `EventRow`.
#[verifier::ext_equal]
pub struct EventRowModel {
    pub sequence: i64,
    pub card: CardModel,
}

impl View for EventRow {
    type V = EventRowModel;

    open spec fn view(&self) -> EventRowModel {
        EventRowModel { sequence: self.sequence, card: self.card@ }
    }
}

impl Clone for EventRow {
    fn clone(&self) -> (r: Self)
        ensures
            r@ == self@,
    {
        EventRow { sequence: self.sequence, card: self.card.clone() }
    }
}

/// A thread as it is stored: numbers have 63 bits and a sign.
#[derive(Debug, PartialEq, Eq)]
pub struct ThreadRow {
    pub id: String,
    pub project_path: String,
    pub title: String,
    pub workspace_path: String,
    pub branch: Option<String>,
    pub provider_thread_id: Option<String>,
    pub ordinal: i64,
    pub updated_at_ms: i64,
    pub draft: String,
    pub activity: String,
    pub activity_updated_ms: i64,
    pub base_branch: Option<String>,
    pub last_error: Option<String>,
    pub dirty_count: i64,
    pub unread: bool,
    pub conversation_scroll_item: i64,
    pub conversation_scroll_offset_millis: i64,
    pub messages: Vec<StoredMessage>,
    pub events: Vec<EventRow>,
}

/// The value of a `ThreadRow`.
#[verifier::ext_equal]
pub struct ThreadRowModel {
    pub id: Seq<char>,
    pub project_path: Seq<char>,
    pub title: Seq<char>,
    pub workspace_path: Seq<char>,
    pub branch: Option<Seq<char>>,
    pub provider_thread_id: Option<Seq<char>>,
    pub ordinal: i64,
    pub updated_at_ms: i64,
    pub draft: Seq<char>,
    pub activity: Seq<char>,
    pub activity_updated_ms: i64,
    pub base_branch: Option<Seq<char>>,
    pub last_error: Option<Seq<char>>,
    pub dirty_count: i64,
    pub unread: bool,
    pub conversation_scroll_item: i64,
    pub conversation_scroll_offset_millis: i64,
    pub messages: Seq<MessageModel>,
    pub events: Seq<EventRowModel>,
}

impl View for ThreadRow {
    type V = ThreadRowModel;

    open spec fn view(&self) -> ThreadRowModel {
        ThreadRowModel {
            id: self.id@,
            project_path: self.project_path@,
            title: self.title@,
            workspace_path: self.workspace_path@,
            branch: opt_view(self.branch),
            provider_thread_id: opt_view(self.provider_thread_id),
            ordinal: self.ordinal,
            updated_at_ms: self.updated_at_ms,
            draft: self.draft@,
            activity: self.activity@,
            activity_updated_ms: self.activity_updated_ms,
            base_branch: opt_view(self.base_branch),
            last_error: opt_view(self.last_error),
            dirty_count: self.dirty_count,
            unread: self.unread,
            conversation_scroll_item: self.conversation_scroll_item,
            conversation_scroll_offset_millis: self.conversation_scroll_offset_millis,
            messages: views(self.messages@),
            events: views(self.events@),
        }
    }
}

/// A count as the 64 bits of a stored number, a sign among them.
pub open spec fn stored_bits(value: int) -> i64 {
    if value > i64::MAX {
        (value - 0x1_0000_0000_0000_0000) as i64
    } else {
        value as i64
    }
}

/// See [`stored_bits`].
fn to_bits(value: usize) -> (r: i64)
    ensures
        r == stored_bits(value as int),
{
    if value as u128 > i64::MAX as u128 {
        (value as i128 - 0x1_0000_0000_0000_0000) as i64
    } else {
        value as i64
    }
}

/// Cards as they are stored, numbered in order.
pub open spec fn event_rows(events: Seq<CardModel>) -> Seq<EventRowModel> {
    events.map(|i: int, card: CardModel| EventRowModel { sequence: stored_count(i as usize), card })
}

/// The row of a thread that is saved at a time. An activity without a time gets that one.
pub open spec fn thread_row(thread: ThreadModel, now: i64) -> ThreadRowModel {
    ThreadRowModel {
        id: thread.id,
        project_path: thread.project_path,
        title: thread.title,
        workspace_path: thread.workspace_path,
        branch: thread.branch,
        provider_thread_id: thread.provider_thread_id,
        ordinal: stored_bits(thread.ordinal),
        updated_at_ms: now,
        draft: thread.draft,
        activity: thread.activity,
        activity_updated_ms: if thread.activity_updated_ms > 0 {
            thread.activity_updated_ms
        } else {
            now
        },
        base_branch: thread.base_branch,
        last_error: thread.last_error,
        dirty_count: stored_count(thread.dirty_count as usize),
        unread: thread.unread,
        conversation_scroll_item: stored_count(thread.conversation_scroll_item as usize),
        conversation_scroll_offset_millis: thread.conversation_scroll_offset_millis,
        messages: thread.messages,
        events: event_rows(thread.events),
    }
}

/// A row put after the rows that do not come later.
pub open spec fn event_inserted(rows: Seq<EventRowModel>, row: EventRowModel) -> Seq<EventRowModel>
    decreases rows.len(),
{
    if rows.len() == 0 || rows.last().sequence <= row.sequence {
        rows.push(row)
    } else {
        event_inserted(rows.drop_last(), row).push(rows.last())
    }
}

/// Rows in the order of their numbers; those with one number as they stood.
pub open spec fn events_ordered(rows: Seq<EventRowModel>) -> Seq<EventRowModel>
    decreases rows.len(),
{
    if rows.len() == 0 {
        rows
    } else {
        event_inserted(events_ordered(rows.drop_last()), rows.last())
    }
}

/// Whether no two rows hold cards with one id.
pub open spec fn events_differ(events: Seq<EventRowModel>) -> bool {
    forall|i: int, j: int|
        0 <= i < j < events.len() ==> (#[trigger] events[i]).card.id != (
        #[trigger] events[j]).card.id
}

/// Whether rows stand in the order of their numbers.
pub open spec fn in_order(rows: Seq<EventRowModel>) -> bool {
    forall|i: int, j: int|
        0 <= i < j < rows.len() ==> (#[trigger] rows[i]).sequence <= (#[trigger] rows[j]).sequence
}

proof fn inserted_rows(list: Seq<EventRowModel>, row: EventRowModel)
    requires
        in_order(list),
        events_differ(list),
        forall|i: int| 0 <= i < list.len() ==> (#[trigger] list[i]).card.id != row.card.id,
    ensures
        in_order(event_inserted(list, row)),
        events_differ(event_inserted(list, row)),
        event_inserted(list, row).len() == list.len() + 1,
        forall|x: EventRowModel| #[trigger]
            event_inserted(list, row).contains(x) <==> x == row || list.contains(x),
    decreases list.len(),
{
    let r = event_inserted(list, row);
    if list.len() == 0 || list.last().sequence <= row.sequence {
        assert(r[list.len() as int] == row);
        assert forall|i: int, j: int| 0 <= i < j < r.len() implies (#[trigger] r[i]).sequence <= (
        #[trigger] r[j]).sequence by {
            if j == list.len() {
                assert(list[i].sequence <= list[list.len() - 1].sequence);
            }
        }
        assert forall|x: EventRowModel| #[trigger] r.contains(x) <==> x == row || list.contains(
            x,
        ) by {
            if list.contains(x) {
                assert(r[list.index_of(x)] == x);
            }
            if r.contains(x) && x != row {
                assert(list[r.index_of(x)] == x);
            }
        }
    } else {
        let head = list.drop_last();
        let h = event_inserted(head, row);
        let last = list.last();
        assert(list[list.len() - 1] == last);
        assert forall|i: int, j: int| 0 <= i < j < head.len() implies (#[trigger] head[i]).sequence
            <= (#[trigger] head[j]).sequence && head[i].card.id != head[j].card.id by {
            assert(list[i].sequence <= list[j].sequence && list[i].card.id != list[j].card.id);
        }
        assert forall|i: int| 0 <= i < head.len() implies (#[trigger] head[i]).card.id
            != row.card.id by {
            assert(list[i].card.id != row.card.id);
        }
        inserted_rows(head, row);
        assert forall|i: int| 0 <= i < h.len() implies (#[trigger] h[i]).card.id != last.card.id
            && h[i].sequence <= last.sequence by {
            assert(h.contains(h[i]));
            if h[i] != row {
                let k = head.index_of(h[i]);
                assert(list[k].card.id != list[list.len() - 1].card.id);
                assert(list[k].sequence <= list[list.len() - 1].sequence);
            }
        }
        assert(r[h.len() as int] == last);
        assert forall|x: EventRowModel| #[trigger] r.contains(x) <==> x == row || list.contains(
            x,
        ) by {
            if r.contains(x) {
                let k = r.index_of(x);
                if k < h.len() {
                    assert(h[k] == x);
                    assert(h.contains(x));
                    if x != row {
                        assert(list[head.index_of(x)] == x);
                    }
                } else {
                    assert(list[list.len() - 1] == x);
                }
            }
            if x == row || list.contains(x) {
                if x == row || head.contains(x) {
                    assert(h.contains(x));
                    assert(r[h.index_of(x)] == x);
                } else {
                    let k = list.index_of(x);
                    assert(k == list.len() - 1) by {
                        if k < list.len() - 1 {
                            assert(head[k] == x);
                        }
                    }
                    assert(r[h.len() as int] == x);
                }
            }
        }
    }
}

/// Rows that are put in order are the same rows, in the order of their numbers.
pub proof fn ordered_rows_are_the_rows(rows: Seq<EventRowModel>)
    requires
        events_differ(rows),
    ensures
        in_order(events_ordered(rows)),
        events_differ(events_ordered(rows)),
        events_ordered(rows).len() == rows.len(),
        forall|x: EventRowModel| #[trigger] events_ordered(rows).contains(x) <==> rows.contains(x),
    decreases rows.len(),
{
    let r = events_ordered(rows);
    if rows.len() > 0 {
        let head = rows.drop_last();
        let h = events_ordered(head);
        let last = rows.last();
        assert(rows[rows.len() - 1] == last);
        assert forall|i: int, j: int| 0 <= i < j < head.len() implies (#[trigger] head[i]).card.id
            != (#[trigger] head[j]).card.id by {
            assert(rows[i].card.id != rows[j].card.id);
        }
        ordered_rows_are_the_rows(head);
        assert forall|i: int| 0 <= i < h.len() implies (#[trigger] h[i]).card.id != last.card.id by {
            assert(h.contains(h[i]));
            let k = head.index_of(h[i]);
            assert(rows[k].card.id != rows[rows.len() - 1].card.id);
        }
        inserted_rows(h, last);
        assert forall|x: EventRowModel| #[trigger] r.contains(x) <==> rows.contains(x) by {
            assert(h.contains(x) <==> head.contains(x));
            if head.contains(x) {
                assert(rows[head.index_of(x)] == x);
            }
            if rows.contains(x) && x != last {
                assert(head[rows.index_of(x)] == x);
            }
        }
    }
}

/// The cards of a thread: those that are stored, in order, or the messages from before there
/// were any.
pub open spec fn loaded_events(rows: Seq<EventRowModel>, messages: Seq<MessageModel>) -> Seq<CardModel> {
    if rows.len() == 0 {
        legacy_cards(messages)
    } else {
        events_ordered(rows).map_values(|r: EventRowModel| r.card)
    }
}

/// The thread that a row holds, in a project with a name.
pub open spec fn thread_of_row(row: ThreadRowModel, project_name: Seq<char>) -> ThreadModel {
    ThreadModel {
        id: row.id,
        project_path: row.project_path,
        project_name,
        title: row.title,
        workspace_path: row.workspace_path,
        branch: row.branch,
        provider_thread_id: row.provider_thread_id,
        ordinal: loaded_count(row.ordinal),
        draft: row.draft,
        activity: row.activity,
        activity_updated_ms: row.activity_updated_ms,
        base_branch: row.base_branch,
        last_error: row.last_error,
        dirty_count: loaded_count(row.dirty_count),
        unread: row.unread,
        conversation_scroll_item: loaded_count(row.conversation_scroll_item),
        conversation_scroll_offset_millis: row.conversation_scroll_offset_millis,
        messages: row.messages,
        events: loaded_events(row.events, row.messages),
    }
}

/// A copy of a vector of messages.
fn copy_messages(v: &Vec<StoredMessage>) -> (r: Vec<StoredMessage>)
    ensures
        views(r@) == views(v@),
{
    broadcast use {views_push, views_index};

    let mut r: Vec<StoredMessage> = Vec::new();
    let mut i: usize = 0;
    while i < v.len()
        invariant
            i <= v.len(),
            views(r@) == views(v@).take(i as int),
        decreases v.len() - i,
    {
        r.push(v[i].clone());
        i = i + 1;
        assert(views(v@).take(i as int) =~= views(v@).take(i - 1).push(views(v@)[i - 1]));
    }
    assert(views(v@).take(i as int) =~= views(v@));
    r
}

/// See [`event_rows`].
pub fn number_events(events: &Vec<ConversationCard>) -> (r: Vec<EventRow>)
    ensures
        views(r@) == event_rows(views(events@)),
{
    broadcast use {views_push, views_index};

    let ghost all = event_rows(views(events@));
    let mut r: Vec<EventRow> = Vec::new();
    let mut i: usize = 0;
    while i < events.len()
        invariant
            all == event_rows(views(events@)),
            i <= events.len(),
            views(r@) == all.take(i as int),
        decreases events.len() - i,
    {
        let row = EventRow { sequence: usize_to_i64(i), card: events[i].clone() };
        assert(all.take(i + 1) =~= all.take(i as int).push(row@));
        r.push(row);
        i = i + 1;
    }
    assert(all.take(i as int) =~= all);
    r
}

/// See [`thread_row`].
pub fn row_of_thread(thread: &StoredThread, now: i64) -> (r: ThreadRow)
    ensures
        r@ == thread_row(thread@, now),
{
    ThreadRow {
        id: thread.id.clone(),
        project_path: thread.project_path.clone(),
        title: thread.title.clone(),
        workspace_path: thread.workspace_path.clone(),
        branch: text::copy_opt(&thread.branch),
        provider_thread_id: text::copy_opt(&thread.provider_thread_id),
        ordinal: to_bits(thread.ordinal),
        updated_at_ms: now,
        draft: thread.draft.clone(),
        activity: thread.activity.clone(),
        activity_updated_ms: if thread.activity_updated_ms > 0 {
            thread.activity_updated_ms
        } else {
            now
        },
        base_branch: text::copy_opt(&thread.base_branch),
        last_error: text::copy_opt(&thread.last_error),
        dirty_count: usize_to_i64(thread.dirty_count),
        unread: thread.unread,
        conversation_scroll_item: usize_to_i64(thread.conversation_scroll_item),
        conversation_scroll_offset_millis: thread.conversation_scroll_offset_millis,
        messages: copy_messages(&thread.messages),
        events: number_events(&thread.events),
    }
}

/// See [`event_inserted`].
fn insert_event(rows: &mut Vec<EventRow>, row: EventRow)
    ensures
        views(final(rows)@) == event_inserted(views(old(rows)@), row@),
        final(rows)@.len() == old(rows)@.len() + 1,
{
    broadcast use views_index;

    let ghost before = views(rows@);
    let ghost goal = event_inserted(before, row@);
    let mut i: usize = rows.len();
    assert(before.take(i as int) =~= before);
    assert(before.skip(i as int) =~= Seq::empty());
    assert(event_inserted(before, row@) + before.skip(i as int) =~= goal);
    while i > 0 && rows[i - 1].sequence > row.sequence
        invariant
            i <= rows.len(),
            before == views(rows@),
            goal == event_inserted(before.take(i as int), row@) + before.skip(i as int),
        decreases i,
    {
        let ghost head = before.take(i as int);
        assert(head.last() == before[i - 1]);
        assert(head.drop_last() =~= before.take(i - 1));
        assert(event_inserted(head.drop_last(), row@).push(head.last()) + before.skip(i as int)
            =~= event_inserted(before.take(i - 1), row@) + before.skip(i - 1));
        i = i - 1;
    }
    proof {
        if i > 0 {
            assert(before.take(i as int).last() == before[i - 1]);
        }
        assert(goal =~= before.insert(i as int, row@));
        assert(views(rows@.insert(i as int, row)) =~= before.insert(i as int, row@));
    }
    rows.insert(i, row);
}

/// See [`loaded_events`].
fn load_events(rows: &Vec<EventRow>, messages: &Vec<StoredMessage>) -> (r: Vec<ConversationCard>)
    ensures
        views(r@) == loaded_events(views(rows@), views(messages@)),
{
    broadcast use {views_push, views_index};

    if rows.len() == 0 {
        return legacy_message_events(messages);
    }
    let ghost all = views(rows@);
    let mut sorted: Vec<EventRow> = Vec::new();
    let mut i: usize = 0;
    assert(views(sorted@) =~= events_ordered(all.take(0)));
    while i < rows.len()
        invariant
            all == views(rows@),
            i <= rows.len(),
            views(sorted@) == events_ordered(all.take(i as int)),
        decreases rows.len() - i,
    {
        assert(all.take(i + 1).drop_last() =~= all.take(i as int));
        insert_event(&mut sorted, rows[i].clone());
        i = i + 1;
    }
    assert(all.take(i as int) =~= all);
    let ghost cards = events_ordered(all).map_values(|r: EventRowModel| r.card);
    let mut r: Vec<ConversationCard> = Vec::new();
    let mut k: usize = 0;
    while k < sorted.len()
        invariant
            views(sorted@) == events_ordered(all),
            cards == events_ordered(all).map_values(|r: EventRowModel| r.card),
            k <= sorted.len(),
            views(r@) == cards.take(k as int),
        decreases sorted.len() - k,
    {
        let card = sorted[k].card.clone();
        assert(cards.take(k + 1) =~= cards.take(k as int).push(card@));
        r.push(card);
        k = k + 1;
    }
    assert(cards.take(k as int) =~= cards);
    r
}

/// A stored number as a count.
fn to_count(value: i64) -> (r: usize)
    ensures
        r == loaded_count(value),
{
    if value < 0 {
        0
    } else if value as u128 > usize::MAX as u128 {
        usize::MAX
    } else {
        value as usize
    }
}

/// See [`thread_of_row`].
pub fn load_row(row: &ThreadRow, project_name: String) -> (r: StoredThread)
    ensures
        r@ == thread_of_row(row@, project_name@),
{
    StoredThread {
        id: row.id.clone(),
        project_path: row.project_path.clone(),
        project_name,
        title: row.title.clone(),
        workspace_path: row.workspace_path.clone(),
        branch: text::copy_opt(&row.branch),
        provider_thread_id: text::copy_opt(&row.provider_thread_id),
        ordinal: to_count(row.ordinal),
        draft: row.draft.clone(),
        activity: row.activity.clone(),
        activity_updated_ms: row.activity_updated_ms,
        base_branch: text::copy_opt(&row.base_branch),
        last_error: text::copy_opt(&row.last_error),
        dirty_count: to_count(row.dirty_count),
        unread: row.unread,
        conversation_scroll_item: to_count(row.conversation_scroll_item),
        conversation_scroll_offset_millis: row.conversation_scroll_offset_millis,
        messages: copy_messages(&row.messages),
        events: load_events(&row.events, &row.messages),
    }
}

/// Rows that stand in order are in order.
pub proof fn ordered_rows_stay(rows: Seq<EventRowModel>)
    requires
        forall|i: int, j: int|
            0 <= i < j < rows.len() ==> (#[trigger] rows[i]).sequence <= (#[trigger] rows[j]).sequence,
    ensures
        events_ordered(rows) == rows,
    decreases rows.len(),
{
    if rows.len() > 0 {
        ordered_rows_stay(rows.drop_last());
        if rows.len() > 1 {
            assert(rows[rows.len() - 2].sequence <= rows[rows.len() - 1].sequence);
        }
        assert(rows =~= rows.drop_last().push(rows.last()));
    }
}

/// A thread that is saved and loaded again is the same thread, where its counts fit into 63
/// bits, its activity has a time, and it has cards or never had messages.
pub proof fn saved_threads_are_read_back(thread: ThreadModel, now: i64)
    requires
        0 <= thread.ordinal <= usize::MAX,
        0 <= thread.dirty_count <= usize::MAX,
        0 <= thread.conversation_scroll_item <= usize::MAX,
        thread.ordinal <= i64::MAX,
        thread.dirty_count <= i64::MAX,
        thread.conversation_scroll_item <= i64::MAX,
        thread.activity_updated_ms > 0,
        thread.events.len() <= usize::MAX,
        thread.events.len() > 0 || thread.messages.len() == 0,
    ensures
        thread_of_row(thread_row(thread, now), thread.project_name) == thread,
{
    let rows = event_rows(thread.events);
    ordered_rows_stay(rows);
    assert(events_ordered(rows).map_values(|r: EventRowModel| r.card) =~= thread.events);
    assert(legacy_cards(Seq::empty()) =~= Seq::<CardModel>::empty());
    assert(thread.events.len() == 0 ==> thread.events =~= Seq::empty());
    assert(thread.messages.len() == 0 ==> thread.messages =~= Seq::empty());
}

/// A stored card, which must be the one under whose id it is stored.
pub open spec fn card_matches(event_id: Seq<char>, card: CardModel) -> Result<CardModel, Seq<char>> {
    if card.id == event_id {
        Ok(card)
    } else {
        Err(
            "conversation event "@ + event_id
                + " payload does not match its stable event id"@,
        )
    }
}

/// See [`card_matches`].
pub fn checked_event(event_id: &str, card: ConversationCard) -> (r: Result<ConversationCard, String>)
    ensures
        match r {
            Ok(c) => card_matches(event_id@, card@) == Ok::<CardModel, Seq<char>>(c@),
            Err(e) => card_matches(event_id@, card@) == Err::<CardModel, Seq<char>>(e@),
        },
{
    if text::same(card.id.as_str(), event_id) {
        Ok(card)
    } else {
        Err(
            text::concat3(
                "conversation event ",
                event_id,
                " payload does not match its stable event id",
            ),
        )
    }
}

/// The columns that the table of projects may lack, with what they hold.
pub open spec fn project_columns() -> Seq<(Seq<char>, Seq<char>)> {
    seq![("id"@, "TEXT"@), ("git_root"@, "TEXT"@), ("settings_json"@, "TEXT"@)]
}

/// The columns that the table of threads may lack, with what they hold.
pub open spec fn thread_columns() -> Seq<(Seq<char>, Seq<char>)> {
    seq![
        ("draft"@, "TEXT NOT NULL DEFAULT ''"@),
        ("activity"@, "TEXT NOT NULL DEFAULT 'waiting'"@),
        ("activity_updated_ms"@, "INTEGER NOT NULL DEFAULT 0"@),
        ("base_branch"@, "TEXT"@),
        ("last_error"@, "TEXT"@),
        ("dirty_count"@, "INTEGER NOT NULL DEFAULT 0"@),
        ("unread"@, "INTEGER NOT NULL DEFAULT 0"@),
        ("conversation_scroll_item"@, "INTEGER NOT NULL DEFAULT 0"@),
        ("conversation_scroll_offset_millis"@, "INTEGER NOT NULL DEFAULT 0"@),
    ]
}

/// The statements that add the columns which a table lacks.
pub open spec fn column_additions(
    table: Seq<char>,
    wanted: Seq<(Seq<char>, Seq<char>)>,
    existing: Seq<Seq<char>>,
) -> Seq<Seq<char>>
    decreases wanted.len(),
{
    if wanted.len() == 0 {
        Seq::empty()
    } else {
        let head = column_additions(table, wanted.drop_last(), existing);
        if existing.contains(wanted.last().0) {
            head
        } else {
            head.push(
                "ALTER TABLE "@ + table + " ADD COLUMN "@ + wanted.last().0 + " "@ + wanted.last().1,
            )
        }
    }
}

/// The value of columns.
pub open spec fn column_views(v: Seq<(&str, &str)>) -> Seq<(Seq<char>, Seq<char>)> {
    v.map_values(|c: (&str, &str)| (c.0@, c.1@))
}

/// See [`column_additions`].
fn add_columns(table: &str, wanted: &[(&str, &str)], existing: &Vec<String>) -> (r: Vec<String>)
    ensures
        views(r@) == column_additions(table@, column_views(wanted@), views(existing@)),
{
    broadcast use views_push;

    let ghost all = column_views(wanted@);
    let mut r: Vec<String> = Vec::new();
    let mut i: usize = 0;
    assert(views(r@) =~= column_additions(table@, all.take(0), views(existing@)));
    while i < wanted.len()
        invariant
            all == column_views(wanted@),
            i <= wanted.len(),
            views(r@) == column_additions(table@, all.take(i as int), views(existing@)),
        decreases wanted.len() - i,
    {
        let (name, definition) = wanted[i];
        assert(all[i as int] == (name@, definition@));
        assert(all.take(i + 1).drop_last() =~= all.take(i as int));
        if !text::among(existing, name) {
            let mut sql = text::concat3("ALTER TABLE ", table, " ADD COLUMN ");
            sql.append(name);
            sql.append(" ");
            sql.append(definition);
            r.push(sql);
        }
        i = i + 1;
    }
    assert(all.take(i as int) =~= all);
    r
}

/// What brings a database up to date.
pub struct Migration {
    /// The statements that add columns to the table of projects.
    pub projects: Vec<String>,
    /// The statements that add columns to the table of threads.
    pub threads: Vec<String>,
}

/// What a database needs, given its version and the columns of its tables: nothing where it is
/// up to date. One from a later version of the program is refused.
pub fn ensure_schema_columns(version: i64, projects: &Vec<String>, threads: &Vec<String>) -> (r: Result<
    Option<Migration>,
    String,
>)
    ensures
        if version > SCHEMA_VERSION {
            r matches Err(e) && e@ == "Rode state schema version "@ + text::signed_decimal(
                version as int,
            ) + " is newer than supported version "@ + text::signed_decimal(SCHEMA_VERSION as int)
        } else if version == SCHEMA_VERSION {
            r matches Ok(None)
        } else {
            r matches Ok(Some(m)) && views(m.projects@) == column_additions(
                "projects"@,
                project_columns(),
                views(projects@),
            ) && views(m.threads@) == column_additions(
                "threads"@,
                thread_columns(),
                views(threads@),
            )
        },
{
    if version > SCHEMA_VERSION {
        let mut e = text::concat3(
            "Rode state schema version ",
            text::signed_number(version).as_str(),
            " is newer than supported version ",
        );
        e.append(text::signed_number(SCHEMA_VERSION).as_str());
        return Err(e);
    }
    if version == SCHEMA_VERSION {
        return Ok(None);
    }
    let for_projects = [("id", "TEXT"), ("git_root", "TEXT"), ("settings_json", "TEXT")];
    assert(column_views(for_projects@) =~= project_columns());
    let for_threads = [
        ("draft", "TEXT NOT NULL DEFAULT ''"),
        ("activity", "TEXT NOT NULL DEFAULT 'waiting'"),
        ("activity_updated_ms", "INTEGER NOT NULL DEFAULT 0"),
        ("base_branch", "TEXT"),
        ("last_error", "TEXT"),
        ("dirty_count", "INTEGER NOT NULL DEFAULT 0"),
        ("unread", "INTEGER NOT NULL DEFAULT 0"),
        ("conversation_scroll_item", "INTEGER NOT NULL DEFAULT 0"),
        ("conversation_scroll_offset_millis", "INTEGER NOT NULL DEFAULT 0"),
    ];
    assert(column_views(for_threads@) =~= thread_columns());
    Ok(
        Some(
            Migration {
                projects: add_columns("projects", &for_projects, projects),
                threads: add_columns("threads", &for_threads, threads),
            },
        ),
    )
}

/// The identity and the root of a project from before projects had them, given the hash of its
/// path: those that it has are kept.
pub open spec fn identity_of(
    id: Option<Seq<char>>,
    git_root: Option<Seq<char>>,
    path: Seq<char>,
    hash: u64,
) -> (Seq<char>, Seq<char>) {
    (
        match id {
            Some(id) => if id.len() > 0 {
                id
            } else {
                legacy_id(hash)
            },
            None => legacy_id(hash),
        },
        match git_root {
            Some(root) => root,
            None => path,
        },
    )
}

/// See [`identity_of`].
pub fn repaired_identity(id: Option<String>, git_root: Option<String>, path: &str, hash: u64) -> (r: (
    String,
    String,
))
    ensures
        (r.0@, r.1@) == identity_of(opt_view(id), opt_view(git_root), path@, hash),
{
    let id = match id {
        Some(id) => {
            if id.as_str().is_empty() {
                legacy_project_id_with(hash)
            } else {
                id
            }
        },
        None => legacy_project_id_with(hash),
    };
    let root = match git_root {
        Some(root) => root,
        None => path.to_owned(),
    };
    (id, root)
}

/// The time of an activity, given the time of the last change of its thread.
pub open spec fn activity_time(activity_updated_ms: i64, updated_at_ms: i64) -> i64 {
    if activity_updated_ms <= 0 {
        updated_at_ms
    } else {
        activity_updated_ms
    }
}

/// A row of a thread from before activities had times gets the time of its last change.
pub fn repaired_activity_time(activity_updated_ms: i64, updated_at_ms: i64) -> (r: i64)
    ensures
        r == (if activity_updated_ms <= 0 {
            updated_at_ms
        } else {
            activity_updated_ms
        }),
        r == activity_time(activity_updated_ms, updated_at_ms),
{
    if activity_updated_ms <= 0 {
        updated_at_ms
    } else {
        activity_updated_ms
    }
}

/// The directory that the state is kept in, given the environment's directories for state and
/// for the user.
pub open spec fn state_dir(state_home: Option<Seq<char>>, home: Option<Seq<char>>) -> Result<
    Seq<char>,
    Seq<char>,
> {
    match (state_home, home) {
        (Some(dir), _) => Ok(path::below(dir, "rode"@)),
        (None, Some(dir)) => Ok(path::below(dir, ".local/state/rode"@)),
        (None, None) => Err("HOME is not set"@),
    }
}

/// See [`state_dir`].
pub fn rode_state_dir(state_home: Option<String>, home: Option<String>) -> (r: Result<String, String>)
    ensures
        match r {
            Ok(dir) => state_dir(opt_view(state_home), opt_view(home)) == Ok::<
                Seq<char>,
                Seq<char>,
            >(dir@),
            Err(e) => state_dir(opt_view(state_home), opt_view(home)) == Err::<
                Seq<char>,
                Seq<char>,
            >(e@),
        },
{
    match (state_home, home) {
        (Some(dir), _) => Ok(path::join(dir.as_str(), "rode")),
        (None, Some(dir)) => Ok(path::join(dir.as_str(), ".local/state/rode")),
        (None, None) => Err("HOME is not set".to_owned()),
    }
}

/// A column that a table lacks is added to it, and what is added is lacking.
pub proof fn lacking_columns_are_added(
    table: Seq<char>,
    wanted: Seq<(Seq<char>, Seq<char>)>,
    existing: Seq<Seq<char>>,
    i: int,
)
    requires
        0 <= i < wanted.len(),
    ensures
        !existing.contains(wanted[i].0) ==> column_additions(table, wanted, existing).contains(
            "ALTER TABLE "@ + table + " ADD COLUMN "@ + wanted[i].0 + " "@ + wanted[i].1,
        ),
        column_additions(table, wanted, existing).len() <= wanted.len(),
    decreases wanted.len(),
{
    let fewer = wanted.drop_last();
    let all = column_additions(table, wanted, existing);
    let head = column_additions(table, fewer, existing);
    let sql = "ALTER TABLE "@ + table + " ADD COLUMN "@ + wanted[i].0 + " "@ + wanted[i].1;
    additions_are_few(table, wanted, existing);
    if i < fewer.len() {
        lacking_columns_are_added(table, fewer, existing, i);
        if !existing.contains(wanted[i].0) {
            let k = choose|k: int| 0 <= k < head.len() && head[k] == sql;
            assert(all[k] == sql);
        }
    } else if !existing.contains(wanted[i].0) {
        assert(all[all.len() - 1] == sql);
    }
}

proof fn additions_are_few(
    table: Seq<char>,
    wanted: Seq<(Seq<char>, Seq<char>)>,
    existing: Seq<Seq<char>>,
)
    ensures
        column_additions(table, wanted, existing).len() <= wanted.len(),
    decreases wanted.len(),
{
    if wanted.len() > 0 {
        additions_are_few(table, wanted.drop_last(), existing);
    }
}

/// Nothing is added to a table that has every column: a store that was brought up to date stays
/// as it is.
pub proof fn complete_tables_stay(
    table: Seq<char>,
    wanted: Seq<(Seq<char>, Seq<char>)>,
    existing: Seq<Seq<char>>,
)
    requires
        forall|i: int| 0 <= i < wanted.len() ==> existing.contains((#[trigger] wanted[i]).0),
    ensures
        column_additions(table, wanted, existing).len() == 0,
    decreases wanted.len(),
{
    if wanted.len() > 0 {
        assert(existing.contains(wanted[wanted.len() - 1].0));
        assert forall|i: int| 0 <= i < wanted.drop_last().len() implies existing.contains(
            (#[trigger] wanted.drop_last()[i]).0,
        ) by {
            assert(existing.contains(wanted[i].0));
        }
        complete_tables_stay(table, wanted.drop_last(), existing);
    }
}

/// Messages from before there were cards become cards one for one, in their order, with the same
/// words and the voice that said them, and each under an id of its own.
pub proof fn old_messages_become_cards(messages: Seq<MessageModel>)
    ensures
        ({
            let cards = legacy_cards(messages);
            &&& cards.len() == messages.len()
            &&& forall|i: int|
                0 <= i < cards.len() ==> {
                    &&& (#[trigger] cards[i]).status == CardStatus::Complete
                    &&& messages[i].role == "user"@ ==> (cards[i].kind
                        matches KindModel::UserMessage { text, attachments, .. } && text
                        == messages[i].text && attachments.len() == 0)
                    &&& messages[i].role == "agent"@ || messages[i].role == "assistant"@ ==> (
                    cards[i].kind matches KindModel::AssistantMessage { text } && text
                        == messages[i].text)
                    &&& messages[i].role != "user"@ && messages[i].role != "agent"@
                        && messages[i].role != "assistant"@ ==> (cards[i].kind
                        matches KindModel::Notice { text, .. } && text == messages[i].text)
                }
            &&& forall|i: int, j: int|
                0 <= i < j < cards.len() ==> (#[trigger] cards[i]).id != (#[trigger] cards[j]).id
        }),
{
    let cards = legacy_cards(messages);
    reveal_strlit("user");
    reveal_strlit("agent");
    reveal_strlit("assistant");
    assert("user"@.len() != "agent"@.len());
    assert("user"@.len() != "assistant"@.len());
    assert forall|i: int, j: int| 0 <= i < j < cards.len() implies (#[trigger] cards[i]).id != (
    #[trigger] cards[j]).id by {
        decimals_differ(i as nat, j as nat);
        let before = "legacy-message-"@;
        let (s, t) = (decimal(i as nat), decimal(j as nat));
        if before + s == before + t {
            assert((before + s).skip(before.len() as int) =~= s);
            assert((before + t).skip(before.len() as int) =~= t);
        }
    }
}

/// The cards of a thread are those that are stored, by their numbers; the messages stand for them
/// only where none is stored.
pub proof fn stored_cards_are_loaded(
    rows: Seq<EventRowModel>,
    messages: Seq<MessageModel>,
    others: Seq<MessageModel>,
)
    requires
        rows.len() > 0,
        events_differ(rows),
    ensures
        loaded_events(rows, messages) == loaded_events(rows, others),
        loaded_events(rows, messages).len() == rows.len(),
        forall|i: int|
            0 <= i < rows.len() ==> loaded_events(rows, messages).contains(
                (#[trigger] rows[i]).card,
            ),
        (forall|i: int, j: int|
            0 <= i < j < rows.len() ==> (#[trigger] rows[i]).sequence <= (
            #[trigger] rows[j]).sequence) ==> forall|i: int|
            0 <= i < rows.len() ==> #[trigger] loaded_events(rows, messages)[i] == rows[i].card,
{
    ordered_rows_are_the_rows(rows);
    let ordered = events_ordered(rows);
    let loaded = loaded_events(rows, messages);
    assert forall|i: int| 0 <= i < rows.len() implies loaded.contains((#[trigger] rows[i]).card) by {
        assert(rows.contains(rows[i]));
        assert(ordered.contains(rows[i]));
        let k = choose|k: int| 0 <= k < ordered.len() && ordered[k] == rows[i];
        assert(loaded[k] == rows[i].card);
    }
    if forall|i: int, j: int|
        0 <= i < j < rows.len() ==> (#[trigger] rows[i]).sequence <= (#[trigger] rows[j]).sequence {
        ordered_rows_stay(rows);
    }
}

/// A card is taken only under its own id.
pub proof fn stored_cards_are_their_own(event_id: Seq<char>, card: CardModel)
    ensures
        card_matches(event_id, card) is Ok <==> card.id == event_id,
        card_matches(event_id, card) matches Ok(c) ==> c == card,
        card_matches(event_id, card) matches Err(e) ==> has_part(e, event_id),
{
    parts_are_held(
        "conversation event "@,
        event_id,
        " payload does not match its stable event id"@,
    );
}

/// What a project or an activity has of its own is kept when it is put right: an id, a root, a
/// time. What it lacks comes from the path and from the last change.
pub proof fn repairs_keep_what_is_there(
    id: Seq<char>,
    root: Seq<char>,
    path: Seq<char>,
    hash: u64,
    at: i64,
    changed: i64,
)
    ensures
        id.len() > 0 ==> identity_of(Some(id), Some(root), path, hash) == (id, root),
        id.len() > 0 ==> identity_of(Some(id), None, path, hash) == (id, path),
        identity_of(None, Some(root), path, hash).1 == root,
        identity_of(None, None, path, hash).1 == path,
        identity_of(None, None, path, hash).0 == identity_of(
            Some(Seq::empty()),
            Some(root),
            path,
            hash,
        ).0,
        identity_of(None, None, path, hash).0 == legacy_id(hash),
        at > 0 ==> activity_time(at, changed) == at,
        at <= 0 ==> activity_time(at, changed) == changed,
{
}

/// The state is kept in a directory of its own, below the one for state where there is one, else
/// below the user's; without either there is no place for it.
pub proof fn the_state_has_a_place(state_home: Seq<char>, home: Seq<char>)
    requires
        state_home.len() > 0,
        home.len() > 0,
    ensures
        state_dir(Some(state_home), None) matches Ok(dir) && state_home.is_prefix_of(dir)
            && base_name(dir) == Some("rode"@),
        state_dir(Some(state_home), Some(home)) == state_dir(Some(state_home), None),
        state_dir(None, Some(home)) matches Ok(dir) && home.is_prefix_of(dir) && has_part(
            dir,
            ".local/state/rode"@,
        ),
        state_dir(None, None) is Err,
{
    reveal_strlit("rode");
    reveal_strlit(".");
    reveal_strlit("..");
    reveal_strlit(".local/state/rode");
    assert(!"rode"@.contains('/'));
    assert("rode"@.len() == 4);
    path::names_stand_at_the_end(state_home, "rode"@);
    let none = Seq::<char>::empty();
    let tail = ".local/state/rode"@;
    parts_are_held(home, tail, none);
    parts_are_held(home + "/"@, tail, none);
    assert(home + tail + none =~= home + tail);
    assert(home + "/"@ + tail + none =~= home + "/"@ + tail);
}

} // verus!
