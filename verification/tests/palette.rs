use delray::palette::{
    palette_for, resolve, selection_style_for, tier_from_env, ColorTier, PaletteChoice, PaletteColor,
};

// --- detection ---

#[test]
fn no_color_overrides_everything() {
    // A set NO_COLOR wins over COLORTERM and a 256-color TERM.
    assert_eq!(
        tier_from_env(Some("truecolor"), "xterm-256color", Some("1")),
        ColorTier::Monochrome,
    );
}

#[test]
fn empty_no_color_is_ignored() {
    assert_eq!(tier_from_env(None, "xterm", Some("")), ColorTier::Sixteen);
}

#[test]
fn colorterm_truecolor_wins_over_term() {
    assert_eq!(tier_from_env(Some("truecolor"), "linux", None), ColorTier::Truecolor);
    assert_eq!(tier_from_env(Some("24bit"), "linux", None), ColorTier::Truecolor);
    // Case-insensitive match.
    assert_eq!(tier_from_env(Some("TrueColor"), "xterm", None), ColorTier::Truecolor);
}

#[test]
fn unknown_colorterm_value_falls_through() {
    assert_eq!(tier_from_env(Some("ansi256"), "xterm", None), ColorTier::Sixteen);
}

#[test]
fn term_256color_is_truecolor() {
    assert_eq!(tier_from_env(None, "xterm-256color", None), ColorTier::Truecolor);
    assert_eq!(tier_from_env(None, "screen-256color", None), ColorTier::Truecolor);
    assert_eq!(tier_from_env(None, "tmux-256color", None), ColorTier::Truecolor);
}

#[test]
fn basic_terms_resolve_to_sixteen() {
    assert_eq!(tier_from_env(None, "xterm", None), ColorTier::Sixteen);
    assert_eq!(tier_from_env(None, "linux", None), ColorTier::Sixteen);
    assert_eq!(tier_from_env(None, "vt220", None), ColorTier::Sixteen);
    assert_eq!(tier_from_env(None, "screen", None), ColorTier::Sixteen);
}

#[test]
fn dumb_empty_and_unknown_terms_fallback_to_sixteen() {
    assert_eq!(tier_from_env(None, "dumb", None), ColorTier::Sixteen);
    assert_eq!(tier_from_env(None, "", None), ColorTier::Sixteen);
    assert_eq!(tier_from_env(None, "totally-unknown-term", None), ColorTier::Sixteen);
}

#[test]
fn colorterm_is_trimmed_and_term_case_is_ignored() {
    assert_eq!(tier_from_env(Some("  24BIT\t"), "linux", None), ColorTier::Truecolor);
    assert_eq!(tier_from_env(None, "XTERM-256COLOR", None), ColorTier::Truecolor);
    assert_eq!(tier_from_env(Some("true color"), "linux", None), ColorTier::Sixteen);
}

// --- resolve ---

#[test]
fn auto_follows_detected_tier() {
    assert_eq!(resolve(PaletteChoice::Auto, ColorTier::Monochrome), ColorTier::Monochrome);
    assert_eq!(resolve(PaletteChoice::Auto, ColorTier::Sixteen), ColorTier::Sixteen);
    assert_eq!(resolve(PaletteChoice::Auto, ColorTier::Truecolor), ColorTier::Truecolor);
}

#[test]
fn explicit_choice_overrides_detected() {
    assert_eq!(resolve(PaletteChoice::Truecolor, ColorTier::Monochrome), ColorTier::Truecolor);
    assert_eq!(resolve(PaletteChoice::SixteenColor, ColorTier::Truecolor), ColorTier::Sixteen);
    assert_eq!(resolve(PaletteChoice::Monochrome, ColorTier::Truecolor), ColorTier::Monochrome);
}

// --- palette mappings ---

#[test]
fn truecolor_palette_keeps_original_rgb() {
    let p = palette_for(ColorTier::Truecolor);
    assert_eq!(p.bg, PaletteColor::Rgb(9, 13, 20));
    assert_eq!(p.text, PaletteColor::Rgb(216, 224, 232));
    assert_eq!(p.accent, PaletteColor::Rgb(255, 183, 3));
    assert_eq!(p.inbound, PaletteColor::Rgb(255, 191, 36));
}

#[test]
fn sixteen_palette_maps_traffic_categories_to_distinct_hues() {
    let p = palette_for(ColorTier::Sixteen);
    assert_eq!(p.inbound, PaletteColor::Yellow);
    assert_eq!(p.outbound, PaletteColor::Cyan);
    assert_eq!(p.violet, PaletteColor::Magenta);
    assert_eq!(p.coral, PaletteColor::Red);
}

#[test]
fn sixteen_palette_follows_terminal_background() {
    let p = palette_for(ColorTier::Sixteen);
    assert_eq!(p.bg, PaletteColor::Reset);
    assert_eq!(p.text, PaletteColor::Reset);
    assert_eq!(p.muted, PaletteColor::DarkGray);
}

#[test]
fn monochrome_palette_is_all_reset() {
    let m = palette_for(ColorTier::Monochrome);
    let fields = [
        m.bg,
        m.text,
        m.strong,
        m.muted,
        m.border,
        m.accent,
        m.accent_dim,
        m.inbound,
        m.outbound,
        m.violet,
        m.coral,
        m.inbound_border,
        m.outbound_border,
        m.violet_border,
        m.overview_highlight,
        m.warn,
    ];
    assert!(fields.iter().all(|&c| c == PaletteColor::Reset));
}

#[test]
fn selection_style_reverses_below_truecolor() {
    let tc = selection_style_for(ColorTier::Truecolor);
    assert_eq!(tc.bg, Some(PaletteColor::Rgb(23, 43, 60)));
    assert!(!tc.reversed);

    let sixteen = selection_style_for(ColorTier::Sixteen);
    assert!(sixteen.reversed);
    assert_eq!(sixteen.bg, None);

    let mono = selection_style_for(ColorTier::Monochrome);
    assert!(mono.reversed);
}

#[test]
fn stored_tier_reads_back_as_the_same_tier() {
    for tier in [ColorTier::Monochrome, ColorTier::Sixteen, ColorTier::Truecolor] {
        assert_eq!(ColorTier::from_code(tier.code()), tier);
    }
    assert_eq!(ColorTier::from_code(200), ColorTier::Truecolor);
}
