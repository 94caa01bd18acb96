//! Providers, actions and turn requests.
use std::collections::HashSet;

use rode::actions::{action_registry, binding, ActionId, KeyAction};
use rode::agent::{
    default_model, discover_providers, ProviderKind, ProviderModel, RuntimeAccess, TurnAttachment,
};

#[test]
fn action_ids_are_unique_and_metadata_is_complete() {
    let mut ids = HashSet::new();
    for action in action_registry() {
        assert!(ids.insert(action.id), "duplicate action id: {:?}", action.id);
        assert!(!action.label.is_empty());
        assert!(!action.shortcut.is_empty());
    }
}

#[test]
fn discovery_always_returns_supported_providers() {
    for found in [vec![], vec![false], vec![true]] {
        let providers = discover_providers(&found);
        assert_eq!(providers.len(), 1);
        assert_eq!(providers[0].kind, ProviderKind::Codex);
    }
}

#[test]
fn full_access_is_never_guessed() {
    for access in
        [RuntimeAccess::ReadOnly, RuntimeAccess::WorkspaceWrite, RuntimeAccess::FullAccess]
    {
        assert_eq!(RuntimeAccess::from_storage_name(access.storage_name()), access);
        assert!(!access.label().is_empty());
    }
    assert_eq!(RuntimeAccess::from_storage_name("Full_Access"), RuntimeAccess::WorkspaceWrite);
    assert_eq!(RuntimeAccess::default(), RuntimeAccess::WorkspaceWrite);
}

#[test]
fn attachments_are_labelled_and_written_out() {
    let diff = TurnAttachment::GitDiff { text: "+a".to_owned() };
    assert!(diff.as_text_context().expect("a text").contains("+a"));
    let image = TurnAttachment::Image { path: "/i.png".to_owned() };
    assert_eq!(image.as_text_context(), None);
    assert_ne!(diff.label(), image.label());
}

#[test]
fn keys_are_bound_to_what_they_say() {
    assert_eq!(binding(ActionId::ComposerSend), KeyAction::SendPrompt);
    assert_eq!(binding(ActionId::RenameBackspace), binding(ActionId::ComposerBackspace));
    let mut keys = HashSet::new();
    for action in action_registry() {
        assert!(keys.insert((action.shortcut, action.context)), "{}", action.shortcut);
    }
}

#[test]
fn the_default_model_is_used_and_else_the_first() {
    let offer = |id: &str, is_default: bool| ProviderModel {
        id: id.to_owned(),
        display_name: id.to_owned(),
        description: String::new(),
        is_default,
        supports_images: false,
    };
    let models = vec![offer("a", false), offer("b", true), offer("c", true)];
    assert_eq!(default_model(&models), Some("b".to_owned()));
    assert_eq!(default_model(&vec![offer("a", false)]), Some("a".to_owned()));
    assert_eq!(default_model(&Vec::new()), None);
}
