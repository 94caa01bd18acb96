//! The cards of a conversation.
use rode::conversation::{
    CardKind, CardStatus, ConversationAttachment, ConversationCard, ConversationProjection,
    NoticeTone,
};
use rode::message_card::{card, card_body};
use rode::theme::ThemeKind;

fn notice(id: &str, text: &str) -> ConversationCard {
    ConversationCard::stable(
        id,
        CardKind::Notice { tone: NoticeTone::Info, text: text.to_owned() },
        CardStatus::Complete,
        None,
    )
}

fn ids(projection: &ConversationProjection) -> Vec<&str> {
    projection.cards().iter().map(|card| card.id.as_str()).collect()
}

#[test]
fn streaming_updates_keep_stable_card_identity() {
    let mut projection = ConversationProjection::default();
    let first = projection.append_assistant_delta("item-1", "turn-1", "hello");
    let second = projection.append_assistant_delta("item-1", "turn-1", " world");
    assert_eq!(first, second);
    assert_eq!(projection.cards().len(), 1);
    assert!(matches!(
        &projection.cards()[0].kind,
        CardKind::AssistantMessage { text } if text == "hello world"
    ));
}

#[test]
fn large_projection_updates_by_stable_id_without_growing() {
    let mut projection = ConversationProjection::default();
    for index in 0..10_000 {
        projection.push(notice(&format!("event-{index}"), &index.to_string()));
    }
    let updated_index = projection.upsert(ConversationCard::stable(
        "event-9999",
        CardKind::Notice { tone: NoticeTone::Warning, text: "updated".to_owned() },
        CardStatus::Success,
        None,
    ));
    assert_eq!(updated_index, 9_999);
    assert_eq!(projection.cards().len(), 10_000);
}

#[test]
fn restart_reconciles_unfinished_and_live_approval_cards() {
    let mut projection = ConversationProjection::default();
    projection.push(ConversationCard::stable(
        "assistant-1",
        CardKind::AssistantMessage { text: "partial".to_owned() },
        CardStatus::Running,
        Some("turn-1".to_owned()),
    ));
    projection.push(ConversationCard::stable(
        "approval-1",
        CardKind::Approval {
            item_id: "approval-1".to_owned(),
            approval_kind: "command".to_owned(),
            title: "Run".to_owned(),
            detail: String::new(),
        },
        CardStatus::Pending,
        Some("turn-1".to_owned()),
    ));
    assert!(projection.reconcile_after_restart());
    assert_eq!(projection.cards()[0].status, CardStatus::Cancelled);
    assert_eq!(projection.cards()[1].status, CardStatus::Failed);
    assert!(!projection.reconcile_after_restart());
}

#[test]
fn hides_internal_lifecycle_cards_but_keeps_failures() {
    let mut projection = ConversationProjection::default();
    projection.replace(vec![
        notice("session-ready", "Codex session ready"),
        ConversationCard::stable(
            "turn-complete",
            CardKind::TurnBoundary { label: "Turn complete".to_owned(), detail: None },
            CardStatus::Success,
            Some("turn-1".to_owned()),
        ),
        ConversationCard::stable(
            "turn-failed",
            CardKind::TurnBoundary {
                label: "Turn failed".to_owned(),
                detail: Some("provider error".to_owned()),
            },
            CardStatus::Failed,
            Some("turn-2".to_owned()),
        ),
        ConversationCard::stable(
            "assistant",
            CardKind::AssistantMessage { text: "Answer".to_owned() },
            CardStatus::Success,
            Some("turn-1".to_owned()),
        ),
    ]);

    projection.hide_internal_lifecycle_cards();

    assert_eq!(ids(&projection), vec!["turn-failed", "assistant"]);
}

#[test]
fn an_upsert_replaces_in_place_and_is_not_felt_twice() {
    let mut projection = ConversationProjection::default();
    projection.push(notice("a", "one"));
    projection.push(notice("b", "two"));
    assert_eq!(projection.upsert(notice("a", "three")), 0);
    assert_eq!(projection.upsert(notice("a", "three")), 0);
    assert_eq!(ids(&projection), vec!["a", "b"]);
    assert_eq!(card_body(&projection.cards()[0].kind), "three");
    assert_eq!(card_body(&projection.cards()[1].kind), "two");
    assert_eq!(projection.upsert(notice("c", "four")), 2);
}

#[test]
fn the_last_of_two_equal_identities_is_found() {
    let mut projection = ConversationProjection::default();
    projection.replace(vec![notice("a", "one"), notice("a", "two")]);
    let (index, found) = projection.get_mut("a").expect("card");
    assert_eq!(index, 1);
    found.collapsed = true;
    assert!(projection.cards()[1].collapsed);
    assert!(!projection.cards()[0].collapsed);
    assert!(projection.get_mut("b").is_none());
}

#[test]
fn reasoning_is_kept_by_item_and_part() {
    let mut projection = ConversationProjection::default();
    let first = projection.append_reasoning_delta("item", 0, "turn", "look");
    let second = projection.append_reasoning_delta("item", 1, "turn", "think");
    let third = projection.append_reasoning_delta("item", 0, "turn", "ing");
    assert_eq!((first, second, third), (0, 1, 0));
    assert_eq!(card_body(&projection.cards()[0].kind), "looking");
    assert_eq!(projection.cards()[0].turn_id.as_deref(), Some("turn"));
}

#[test]
fn only_some_cards_fold() {
    let mut projection = ConversationProjection::default();
    projection.push(notice("a", "one"));
    projection.append_reasoning_delta("item", 0, "turn", "why");
    assert_eq!(projection.toggle_collapsed("a"), None);
    let id = projection.cards()[1].id.clone();
    let before = projection.cards()[1].collapsed;
    assert_eq!(projection.toggle_collapsed(&id), Some(1));
    assert_eq!(projection.cards()[1].collapsed, !before);
    assert_eq!(projection.toggle_collapsed("missing"), None);
}

#[test]
fn sequence_numbers_count_up_and_shared_cards_are_copies() {
    let mut projection = ConversationProjection::default();
    let first = projection.next_sequence();
    let second = projection.next_sequence();
    assert_eq!(second, first + 1);
    projection.push(notice("a", "one"));
    let shared = projection.shared_cards();
    projection.clear();
    assert_eq!(shared.len(), 1);
    assert!(projection.cards().is_empty());
    projection.push(notice("b", "two"));
    projection.cards_mut()[0].status = CardStatus::Failed;
    assert_eq!(projection.cards()[0].status, CardStatus::Failed);
}

#[test]
fn new_cards_are_stamped_with_the_time() {
    let made = ConversationCard::new(
        7,
        CardKind::Reasoning { text: "why".to_owned() },
        CardStatus::Running,
        None,
    );
    assert!(made.created_at_ms > 1_600_000_000_000);
    assert!(made.id.ends_with("-7"));
    assert!(made.is_collapsible());
    assert_eq!(ConversationAttachment::Legacy("design.png".to_owned()).label(), "design.png");
    assert_eq!(
        ConversationAttachment::Context { label: "Current Git diff".to_owned() }.label(),
        "Current Git diff"
    );
}

#[test]
fn folding_leaves_all_but_the_body_as_it_was() {
    let mut open = ConversationCard::stable(
        "r",
        CardKind::Reasoning { text: "a\nb\nc\nd".to_owned() },
        CardStatus::Complete,
        None,
    );
    open.collapsed = false;
    let mut folded = open.clone();
    folded.collapsed = true;
    let shown = card(&open, ThemeKind::Ember);
    let hidden = card(&folded, ThemeKind::Ember);
    assert_eq!(shown.label, hidden.label);
    assert_eq!(shown.border, hidden.border);
    assert_eq!(shown.status, hidden.status);
    assert_eq!(shown.body, "a\nb\nc\nd");
    assert_eq!(hidden.body, "a\nb\nc");
}

#[test]
fn cards_are_found_by_id_after_every_change() {
    let mut projection = ConversationProjection::default();
    projection.replace(vec![notice("a", "1"), notice("b", "2"), notice("a", "3")]);
    projection.append_reasoning_delta("r", 0, "turn", "why");
    projection.append_assistant_delta("m", "turn", "because");
    assert_eq!(projection.upsert(notice("b", "4")), 1);
    assert_eq!(projection.cards().len(), 5);
    projection.reconcile_after_restart();
    assert_eq!(projection.push(notice("c", "5")), 6);
    assert_eq!(projection.get_mut("a").map(|(i, _)| i), Some(2));
    assert_eq!(projection.get_mut("assistant-m").map(|(i, _)| i), Some(4));
    assert!(projection.get_mut("missing").is_none());
    projection.hide_internal_lifecycle_cards();
    assert_eq!(ids(&projection)[..2], ["reasoning-r-0", "assistant-m"]);
    assert_eq!(projection.get_mut("assistant-m").map(|(i, _)| i), Some(1));
    assert!(projection.get_mut("a").is_none());
    projection.clear();
    assert!(projection.get_mut("assistant-m").is_none());
}

#[test]
fn folding_twice_restores_a_card() {
    let mut projection = ConversationProjection::default();
    projection.push(notice("n", "text"));
    projection.append_reasoning_delta("r", 1, "turn", "why");
    let before = projection.shared_cards();
    assert_eq!(projection.toggle_collapsed("reasoning-r-1"), Some(1));
    assert!(projection.cards()[1].collapsed && !projection.cards()[0].collapsed);
    assert_eq!(projection.toggle_collapsed("reasoning-r-1"), Some(1));
    assert_eq!(projection.cards(), before.as_slice());
    assert_eq!(projection.toggle_collapsed("n"), None);
    assert_eq!(projection.toggle_collapsed("missing"), None);
    assert_eq!(projection.cards(), before.as_slice());
}
