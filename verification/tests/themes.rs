//! Themes and the registry of actions.
use rode::theme::{tokens, ThemeKind};

#[test]
fn every_theme_defines_the_foundation_tokens() {
    for theme in ThemeKind::ALL.map(tokens) {
        assert!(!theme.name.is_empty());
        let colors = theme.colors;
        for color in [
            colors.root,
            colors.chrome,
            colors.panel,
            colors.raised,
            colors.overlay,
            colors.text,
            colors.muted_text,
            colors.faint_text,
            colors.border,
            colors.strong_border,
            colors.focus_ring,
            colors.accent,
            colors.accent_hover,
            colors.accent_soft,
            colors.on_accent,
            colors.success,
            colors.warning,
            colors.warning_soft,
            colors.error,
            colors.info,
            colors.addition,
            colors.addition_soft,
            colors.deletion,
            colors.deletion_soft,
            colors.shadow,
        ] {
            assert_ne!(color, 0, "theme colors must be explicitly defined");
        }
        assert_ne!(colors.root, colors.text);
        assert_ne!(colors.accent, colors.on_accent);
        assert_ne!(colors.addition_soft, colors.addition);
        assert_ne!(colors.deletion_soft, colors.deletion);
        assert!(theme.radii.small <= theme.radii.medium);
        assert!(theme.radii.medium <= theme.radii.large);
    }
}

#[test]
fn theme_names_round_trip_and_cycle() {
    for theme in ThemeKind::ALL {
        assert_eq!(ThemeKind::from_storage_name(theme.storage_name()), theme);
    }
    assert_eq!(ThemeKind::Ember.next(), ThemeKind::Graphite);
    assert_eq!(ThemeKind::Graphite.next(), ThemeKind::Daylight);
    assert_eq!(ThemeKind::Daylight.next(), ThemeKind::Ember);
}
