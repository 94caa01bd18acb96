//! Themes: their names, their order, and the colours and radii of each.
use vstd::prelude::*;

use crate::text;

verus! {

/// The name, colours and radii of a theme.
#[derive(Clone, Copy, Debug, PartialEq, Eq)]
pub struct ThemeTokens {
    pub name: &'static str,
    pub colors: ThemeColors,
    pub radii: ThemeRadii,
}

#[derive(Clone, Copy, Debug, PartialEq, Eq, Structural)]
pub enum ThemeKind {
    Ember,
    Graphite,
    Daylight,
}

impl Default for ThemeKind {
    fn default() -> (r: Self)
        ensures
            r == ThemeKind::Ember,
    {
        ThemeKind::Ember
    }
}

/// What a theme is called where it is stored.
pub open spec fn theme_name(kind: ThemeKind) -> Seq<char> {
    match kind {
        ThemeKind::Ember => "ember"@,
        ThemeKind::Graphite => "graphite"@,
        ThemeKind::Daylight => "daylight"@,
    }
}

/// The theme that a stored name means; an unknown name means Graphite.
pub open spec fn theme_named(name: Seq<char>) -> ThemeKind {
    if name == "ember"@ {
        ThemeKind::Ember
    } else if name == "daylight"@ {
        ThemeKind::Daylight
    } else {
        ThemeKind::Graphite
    }
}

/// The theme after a theme.
pub open spec fn theme_after(kind: ThemeKind) -> ThemeKind {
    match kind {
        ThemeKind::Ember => ThemeKind::Graphite,
        ThemeKind::Graphite => ThemeKind::Daylight,
        ThemeKind::Daylight => ThemeKind::Ember,
    }
}

impl ThemeKind {
    pub const ALL: [ThemeKind; 3] = [ThemeKind::Ember, ThemeKind::Graphite, ThemeKind::Daylight];

    pub fn storage_name(self) -> (r: &'static str)
        ensures
            r@ == theme_name(self),
    {
        match self {
            ThemeKind::Ember => "ember",
            ThemeKind::Graphite => "graphite",
            ThemeKind::Daylight => "daylight",
        }
    }

    pub fn from_storage_name(value: &str) -> (r: Self)
        ensures
            r == theme_named(value@),
    {
        if text::same(value, "ember") {
            ThemeKind::Ember
        } else if text::same(value, "daylight") {
            ThemeKind::Daylight
        } else {
            ThemeKind::Graphite
        }
    }

    pub fn next(self) -> (r: Self)
        ensures
            r == theme_after(self),
    {
        match self {
            ThemeKind::Ember => ThemeKind::Graphite,
            ThemeKind::Graphite => ThemeKind::Daylight,
            ThemeKind::Daylight => ThemeKind::Ember,
        }
    }
}

/// A stored theme is read back as the same theme.
pub proof fn stored_theme_is_read_back(kind: ThemeKind)
    ensures
        theme_named(theme_name(kind)) == kind,
{
    reveal_strlit("ember");
    reveal_strlit("graphite");
    reveal_strlit("daylight");
    assert("graphite"@.len() != "ember"@.len());
    assert("graphite"@[0] != "daylight"@[0]);
    assert("daylight"@.len() != "ember"@.len());
}

/// Going on three times leads back to the same theme, and one or two times do not.
pub proof fn themes_cycle(kind: ThemeKind)
    ensures
        theme_after(theme_after(theme_after(kind))) == kind,
        theme_after(kind) != kind,
        theme_after(theme_after(kind)) != kind,
{
}

#[derive(Clone, Copy, Debug, PartialEq, Eq, Structural)]
pub struct ThemeColors {
    pub root: u32,
    pub chrome: u32,
    pub panel: u32,
    pub raised: u32,
    pub overlay: u32,
    pub text: u32,
    pub muted_text: u32,
    pub faint_text: u32,
    pub border: u32,
    pub strong_border: u32,
    pub focus_ring: u32,
    pub accent: u32,
    pub accent_hover: u32,
    pub accent_soft: u32,
    pub on_accent: u32,
    pub success: u32,
    pub warning: u32,
    pub warning_soft: u32,
    pub error: u32,
    pub info: u32,
    pub addition: u32,
    pub addition_soft: u32,
    pub deletion: u32,
    pub deletion_soft: u32,
    pub shadow: u32,
}

#[derive(Clone, Copy, Debug, PartialEq, Eq, Structural)]
pub struct ThemeRadii {
    pub small: u16,
    pub medium: u16,
    pub large: u16,
}

/// The colours of the Graphite theme, one for each field of `ThemeColors` in order.
pub const GRAPHITE_COLORS: [u32; 25] = [
    0x0f1115,
    0x17191f,
    0x191c22,
    0x20232a,
    0x242831,
    0xd1d5db,
    0x9ca3af,
    0x767d8d,
    0x292c33,
    0x3a3f4b,
    0x60a5fa,
    0x2563eb,
    0x3b82f6,
    0x202a3d,
    0xf8fafc,
    0x3fb950,
    0xfbbf24,
    0x3b2d13,
    0xf87171,
    0x93c5fd,
    0x3fb950,
    0x123523,
    0xf85149,
    0x431d22,
    0x00000099,
];

/// The radii of the Graphite theme, from small to large.
pub const GRAPHITE_RADII: [u16; 3] = [4, 6, 10];

/// The colours of the Ember theme, one for each field of `ThemeColors` in order.
pub const EMBER_COLORS: [u32; 25] = [
    0x130f0d,
    0x1d1713,
    0x241c17,
    0x2d231d,
    0x382a22,
    0xf5e9df,
    0xc3aa98,
    0x8f7767,
    0x46362c,
    0x654b3b,
    0xfb923c,
    0xea580c,
    0xf97316,
    0x422515,
    0xfff7ed,
    0x4ade80,
    0xfacc15,
    0x3b2b12,
    0xfb7185,
    0x7dd3fc,
    0x4ade80,
    0x173a27,
    0xfb7185,
    0x4a1f28,
    0x090503a8,
];

/// The radii of the Ember theme, from small to large.
pub const EMBER_RADII: [u16; 3] = [4, 7, 11];

/// The colours of the Daylight theme, one for each field of `ThemeColors` in order.
pub const DAYLIGHT_COLORS: [u32; 25] = [
    0xf4f6f8,
    0xe9edf2,
    0xffffff,
    0xffffff,
    0xdde4ec,
    0x18212f,
    0x586577,
    0x7a8798,
    0xcbd3dd,
    0xaeb9c7,
    0x2563eb,
    0x2563eb,
    0x1d4ed8,
    0xdbeafe,
    0xffffff,
    0x15803d,
    0xa16207,
    0xfef3c7,
    0xb91c1c,
    0x0369a1,
    0x15803d,
    0xdcfce7,
    0xb91c1c,
    0xfee2e2,
    0x17203333,
];

/// The radii of the Daylight theme, from small to large.
pub const DAYLIGHT_RADII: [u16; 3] = [4, 6, 10];

/// The colours of a table.
pub open spec fn palette_of(t: Seq<u32>) -> ThemeColors {
    ThemeColors {
        root: t[0],
        chrome: t[1],
        panel: t[2],
        raised: t[3],
        overlay: t[4],
        text: t[5],
        muted_text: t[6],
        faint_text: t[7],
        border: t[8],
        strong_border: t[9],
        focus_ring: t[10],
        accent: t[11],
        accent_hover: t[12],
        accent_soft: t[13],
        on_accent: t[14],
        success: t[15],
        warning: t[16],
        warning_soft: t[17],
        error: t[18],
        info: t[19],
        addition: t[20],
        addition_soft: t[21],
        deletion: t[22],
        deletion_soft: t[23],
        shadow: t[24],
    }
}

/// See [`palette_of`].
fn palette(t: &[u32; 25]) -> (r: ThemeColors)
    ensures
        r == palette_of(t@),
{
    ThemeColors {
        root: t[0],
        chrome: t[1],
        panel: t[2],
        raised: t[3],
        overlay: t[4],
        text: t[5],
        muted_text: t[6],
        faint_text: t[7],
        border: t[8],
        strong_border: t[9],
        focus_ring: t[10],
        accent: t[11],
        accent_hover: t[12],
        accent_soft: t[13],
        on_accent: t[14],
        success: t[15],
        warning: t[16],
        warning_soft: t[17],
        error: t[18],
        info: t[19],
        addition: t[20],
        addition_soft: t[21],
        deletion: t[22],
        deletion_soft: t[23],
        shadow: t[24],
    }
}

/// The name of a theme on screen.
pub open spec fn theme_title(kind: ThemeKind) -> Seq<char> {
    match kind {
        ThemeKind::Ember => "Ember"@,
        ThemeKind::Graphite => "Graphite"@,
        ThemeKind::Daylight => "Daylight"@,
    }
}

/// The colours of a theme.
pub open spec fn theme_colors(kind: ThemeKind) -> ThemeColors {
    match kind {
        ThemeKind::Ember => palette_of(EMBER_COLORS@),
        ThemeKind::Graphite => palette_of(GRAPHITE_COLORS@),
        ThemeKind::Daylight => palette_of(DAYLIGHT_COLORS@),
    }
}

/// The radii of a theme.
pub open spec fn theme_radii(kind: ThemeKind) -> ThemeRadii {
    let t = match kind {
        ThemeKind::Ember => EMBER_RADII@,
        ThemeKind::Graphite => GRAPHITE_RADII@,
        ThemeKind::Daylight => DAYLIGHT_RADII@,
    };
    ThemeRadii { small: t[0], medium: t[1], large: t[2] }
}

/// The tokens of a theme.
pub fn tokens(kind: ThemeKind) -> (r: ThemeTokens)
    ensures
        r.name@ == theme_title(kind),
        r.colors == theme_colors(kind),
        r.radii == theme_radii(kind),
{
    match kind {
        ThemeKind::Ember => ThemeTokens {
            name: "Ember",
            colors: palette(&EMBER_COLORS),
            radii: ThemeRadii {
                small: EMBER_RADII[0],
                medium: EMBER_RADII[1],
                large: EMBER_RADII[2],
            },
        },
        ThemeKind::Graphite => ThemeTokens {
            name: "Graphite",
            colors: palette(&GRAPHITE_COLORS),
            radii: ThemeRadii {
                small: GRAPHITE_RADII[0],
                medium: GRAPHITE_RADII[1],
                large: GRAPHITE_RADII[2],
            },
        },
        ThemeKind::Daylight => ThemeTokens {
            name: "Daylight",
            colors: palette(&DAYLIGHT_COLORS),
            radii: ThemeRadii {
                small: DAYLIGHT_RADII[0],
                medium: DAYLIGHT_RADII[1],
                large: DAYLIGHT_RADII[2],
            },
        },
    }
}

/// Whether a theme sets every colour, and keeps apart the colours that stand on each other.
pub open spec fn theme_is_complete(colors: ThemeColors, radii: ThemeRadii) -> bool {
    &&& colors.root != 0
    &&& colors.chrome != 0
    &&& colors.panel != 0
    &&& colors.raised != 0
    &&& colors.overlay != 0
    &&& colors.text != 0
    &&& colors.muted_text != 0
    &&& colors.faint_text != 0
    &&& colors.border != 0
    &&& colors.strong_border != 0
    &&& colors.focus_ring != 0
    &&& colors.accent != 0
    &&& colors.accent_hover != 0
    &&& colors.accent_soft != 0
    &&& colors.on_accent != 0
    &&& colors.success != 0
    &&& colors.warning != 0
    &&& colors.warning_soft != 0
    &&& colors.error != 0
    &&& colors.info != 0
    &&& colors.addition != 0
    &&& colors.addition_soft != 0
    &&& colors.deletion != 0
    &&& colors.deletion_soft != 0
    &&& colors.shadow != 0
    &&& colors.root != colors.text
    &&& colors.accent != colors.on_accent
    &&& colors.addition_soft != colors.addition
    &&& colors.deletion_soft != colors.deletion
    &&& radii.small <= radii.medium
    &&& radii.medium <= radii.large
}

/// Every theme defines its tokens.
pub proof fn every_theme_is_complete(kind: ThemeKind)
    ensures
        theme_is_complete(theme_colors(kind), theme_radii(kind)),
{
}

} // verus!
