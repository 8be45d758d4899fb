//! Terminal colour depth and the colour palettes of the traffic display.
//!
//! The display names a fixed set of colour roles. Each role resolves to a
//! concrete colour through one of three palettes, chosen by the colour
//! capability of the terminal.

use vstd::prelude::*;
use crate::text::{
    ascii_lower, ascii_lower_chars, chars_of, contains_chars, contains_seq, same_chars, trim,
    trim_chars,
};

verus! {

/// Colour capability of a terminal, in three tiers.
#[derive(Clone, Copy, Debug, PartialEq, Eq, Structural)]
pub enum ColorTier {
    /// No colour: emphasis through text attributes only.
    Monochrome,
    /// The 8/16 ANSI base colours.
    Sixteen,
    /// 24-bit colour (256-colour terminals count as this tier too).
    Truecolor,
}

/// The palette a user asked for.
#[derive(Clone, Copy, Debug, PartialEq, Eq, Structural)]
pub enum PaletteChoice {
    /// Follow the detected tier.
    Auto,
    /// Force 24-bit colour.
    Truecolor,
    /// Force the 16 ANSI colours.
    SixteenColor,
    /// Force the monochrome palette.
    Monochrome,
}

/// The tier a choice gives on a terminal of the detected tier.
pub open spec fn spec_resolve(choice: PaletteChoice, detected: ColorTier) -> ColorTier {
    match choice {
        PaletteChoice::Auto => detected,
        PaletteChoice::Truecolor => ColorTier::Truecolor,
        PaletteChoice::SixteenColor => ColorTier::Sixteen,
        PaletteChoice::Monochrome => ColorTier::Monochrome,
    }
}

/// The effective tier for a palette choice and a detected tier.
pub fn resolve(choice: PaletteChoice, detected: ColorTier) -> (r: ColorTier)
    ensures
        r == spec_resolve(choice, detected),
{
    match choice {
        PaletteChoice::Auto => detected,
        PaletteChoice::Truecolor => ColorTier::Truecolor,
        PaletteChoice::SixteenColor => ColorTier::Sixteen,
        PaletteChoice::Monochrome => ColorTier::Monochrome,
    }
}

/// Whether an environment value is present and not empty.
pub open spec fn is_set(value: Option<Seq<char>>) -> bool {
    value is Some && value->0.len() > 0
}

/// The tier named by the terminal environment: a set `NO_COLOR` wins, then a
/// `COLORTERM` of `truecolor` or `24bit` (trimmed, any case), then a `TERM`
/// holding `256color` (any case); every other terminal gets sixteen colours.
pub open spec fn spec_tier_from_env(
    colorterm: Option<Seq<char>>,
    term: Seq<char>,
    no_color: Option<Seq<char>>,
) -> ColorTier {
    if is_set(no_color) {
        ColorTier::Monochrome
    } else if colorterm is Some && (ascii_lower(trim(colorterm->0)) == "truecolor"@
        || ascii_lower(trim(colorterm->0)) == "24bit"@) {
        ColorTier::Truecolor
    } else if contains_seq(ascii_lower(term), "256color"@) {
        ColorTier::Truecolor
    } else {
        ColorTier::Sixteen
    }
}

/// The view of an optional string slice.
pub open spec fn opt_view(value: Option<&str>) -> Option<Seq<char>> {
    match value {
        Some(v) => Some(v@),
        None => None,
    }
}

/// The colour tier for the values of `COLORTERM`, `TERM` and `NO_COLOR`.
pub fn tier_from_env(colorterm: Option<&str>, term: &str, no_color: Option<&str>) -> (r: ColorTier)
    ensures
        r == spec_tier_from_env(opt_view(colorterm), term@, opt_view(no_color)),
{
    if let Some(v) = no_color {
        if v.unicode_len() > 0 {
            return ColorTier::Monochrome;
        }
    }
    if let Some(ct) = colorterm {
        let chars = chars_of(ct);
        let trimmed = trim_chars(&chars);
        let lower = ascii_lower_chars(&trimmed);
        let truecolor = chars_of("truecolor");
        let bits = chars_of("24bit");
        if same_chars(&lower, &truecolor) || same_chars(&lower, &bits) {
            return ColorTier::Truecolor;
        }
    }
    let term_chars = chars_of(term);
    let term_lower = ascii_lower_chars(&term_chars);
    let marker = chars_of("256color");
    if contains_chars(&term_lower, &marker) {
        return ColorTier::Truecolor;
    }
    ColorTier::Sixteen
}

/// Law: `Auto` follows the detected tier; any other choice forces its own
/// tier, whatever was detected.
pub proof fn auto_follows_detection_and_choices_force_their_tier(
    choice: PaletteChoice,
    detected: ColorTier,
    other: ColorTier,
)
    ensures
        spec_resolve(PaletteChoice::Auto, detected) == detected,
        choice != PaletteChoice::Auto ==> spec_resolve(choice, detected) == spec_resolve(
            choice,
            other,
        ),
{
}

/// Law: a set (non-empty) `NO_COLOR` gives the monochrome tier, whatever
/// `COLORTERM` and `TERM` say.
pub proof fn set_no_color_wins(colorterm: Option<Seq<char>>, term: Seq<char>, no_color: Seq<char>)
    requires
        no_color.len() > 0,
    ensures
        spec_tier_from_env(colorterm, term, Some(no_color)) == ColorTier::Monochrome,
{
}

/// The number a tier is stored as.
pub open spec fn spec_tier_code(tier: ColorTier) -> u8 {
    match tier {
        ColorTier::Monochrome => 0,
        ColorTier::Sixteen => 1,
        ColorTier::Truecolor => 2,
    }
}

/// The tier a stored number stands for; an unknown number reads as true colour.
pub open spec fn spec_tier_of_code(code: u8) -> ColorTier {
    if code == 0 {
        ColorTier::Monochrome
    } else if code == 1 {
        ColorTier::Sixteen
    } else {
        ColorTier::Truecolor
    }
}

impl ColorTier {
    /// The number this tier is stored as while it is the active one.
    pub fn code(self) -> (r: u8)
        ensures
            r == spec_tier_code(self),
    {
        match self {
            ColorTier::Monochrome => 0,
            ColorTier::Sixteen => 1,
            ColorTier::Truecolor => 2,
        }
    }

    /// The tier stored as `code`.
    pub fn from_code(code: u8) -> (r: ColorTier)
        ensures
            r == spec_tier_of_code(code),
    {
        if code == 0 {
            ColorTier::Monochrome
        } else if code == 1 {
            ColorTier::Sixteen
        } else {
            ColorTier::Truecolor
        }
    }
}

/// A tier read back after it was stored is the tier that was stored.
pub proof fn stored_tier_reads_back(tier: ColorTier)
    ensures
        spec_tier_of_code(spec_tier_code(tier)) == tier,
{
}

/// A concrete terminal colour.
#[derive(Clone, Copy, Debug, PartialEq, Eq, Structural)]
pub enum PaletteColor {
    /// The terminal's own default colour.
    Reset,
    Yellow,
    Cyan,
    Magenta,
    Red,
    DarkGray,
    /// A 24-bit colour.
    Rgb(u8, u8, u8),
}

/// One concrete colour for each role of the display.
#[derive(Clone, Copy, Debug, PartialEq, Eq, Structural)]
pub struct Palette {
    pub bg: PaletteColor,
    pub text: PaletteColor,
    pub strong: PaletteColor,
    pub muted: PaletteColor,
    pub border: PaletteColor,
    pub accent: PaletteColor,
    pub accent_dim: PaletteColor,
    pub inbound: PaletteColor,
    pub outbound: PaletteColor,
    pub violet: PaletteColor,
    pub coral: PaletteColor,
    pub inbound_border: PaletteColor,
    pub outbound_border: PaletteColor,
    pub violet_border: PaletteColor,
    pub overview_highlight: PaletteColor,
    pub warn: PaletteColor,
}

/// The 24-bit palette.
pub open spec fn truecolor_palette() -> Palette {
    Palette {
        bg: PaletteColor::Rgb(9, 13, 20),
        text: PaletteColor::Rgb(216, 224, 232),
        strong: PaletteColor::Rgb(244, 247, 250),
        muted: PaletteColor::Rgb(116, 129, 145),
        border: PaletteColor::Rgb(37, 53, 68),
        accent: PaletteColor::Rgb(255, 183, 3),
        accent_dim: PaletteColor::Rgb(154, 111, 8),
        inbound: PaletteColor::Rgb(255, 191, 36),
        outbound: PaletteColor::Rgb(41, 197, 246),
        violet: PaletteColor::Rgb(167, 139, 250),
        coral: PaletteColor::Rgb(251, 113, 133),
        inbound_border: PaletteColor::Rgb(102, 80, 30),
        outbound_border: PaletteColor::Rgb(29, 86, 108),
        violet_border: PaletteColor::Rgb(76, 65, 111),
        overview_highlight: PaletteColor::Rgb(43, 37, 15),
        warn: PaletteColor::Yellow,
    }
}

/// The 16-colour palette: ANSI base colours by hue, the background left to
/// the terminal.
pub open spec fn sixteen_palette() -> Palette {
    Palette {
        bg: PaletteColor::Reset,
        text: PaletteColor::Reset,
        strong: PaletteColor::Reset,
        muted: PaletteColor::DarkGray,
        border: PaletteColor::DarkGray,
        accent: PaletteColor::Yellow,
        accent_dim: PaletteColor::DarkGray,
        inbound: PaletteColor::Yellow,
        outbound: PaletteColor::Cyan,
        violet: PaletteColor::Magenta,
        coral: PaletteColor::Red,
        inbound_border: PaletteColor::DarkGray,
        outbound_border: PaletteColor::DarkGray,
        violet_border: PaletteColor::DarkGray,
        overview_highlight: PaletteColor::DarkGray,
        warn: PaletteColor::Yellow,
    }
}

/// The monochrome palette: every role keeps the terminal's own colour.
pub open spec fn monochrome_palette() -> Palette {
    Palette {
        bg: PaletteColor::Reset,
        text: PaletteColor::Reset,
        strong: PaletteColor::Reset,
        muted: PaletteColor::Reset,
        border: PaletteColor::Reset,
        accent: PaletteColor::Reset,
        accent_dim: PaletteColor::Reset,
        inbound: PaletteColor::Reset,
        outbound: PaletteColor::Reset,
        violet: PaletteColor::Reset,
        coral: PaletteColor::Reset,
        inbound_border: PaletteColor::Reset,
        outbound_border: PaletteColor::Reset,
        violet_border: PaletteColor::Reset,
        overview_highlight: PaletteColor::Reset,
        warn: PaletteColor::Reset,
    }
}

/// The palette of a tier.
pub open spec fn spec_palette(tier: ColorTier) -> Palette {
    match tier {
        ColorTier::Monochrome => monochrome_palette(),
        ColorTier::Sixteen => sixteen_palette(),
        ColorTier::Truecolor => truecolor_palette(),
    }
}

/// The palette that resolves the colour roles on a terminal of `tier`.
pub fn palette_for(tier: ColorTier) -> (p: Palette)
    ensures
        p == spec_palette(tier),
{
    match tier {
        ColorTier::Monochrome => Palette {
            bg: PaletteColor::Reset,
            text: PaletteColor::Reset,
            strong: PaletteColor::Reset,
            muted: PaletteColor::Reset,
            border: PaletteColor::Reset,
            accent: PaletteColor::Reset,
            accent_dim: PaletteColor::Reset,
            inbound: PaletteColor::Reset,
            outbound: PaletteColor::Reset,
            violet: PaletteColor::Reset,
            coral: PaletteColor::Reset,
            inbound_border: PaletteColor::Reset,
            outbound_border: PaletteColor::Reset,
            violet_border: PaletteColor::Reset,
            overview_highlight: PaletteColor::Reset,
            warn: PaletteColor::Reset,
        },
        ColorTier::Sixteen => Palette {
            bg: PaletteColor::Reset,
            text: PaletteColor::Reset,
            strong: PaletteColor::Reset,
            muted: PaletteColor::DarkGray,
            border: PaletteColor::DarkGray,
            accent: PaletteColor::Yellow,
            accent_dim: PaletteColor::DarkGray,
            inbound: PaletteColor::Yellow,
            outbound: PaletteColor::Cyan,
            violet: PaletteColor::Magenta,
            coral: PaletteColor::Red,
            inbound_border: PaletteColor::DarkGray,
            outbound_border: PaletteColor::DarkGray,
            violet_border: PaletteColor::DarkGray,
            overview_highlight: PaletteColor::DarkGray,
            warn: PaletteColor::Yellow,
        },
        ColorTier::Truecolor => Palette {
            bg: PaletteColor::Rgb(9, 13, 20),
            text: PaletteColor::Rgb(216, 224, 232),
            strong: PaletteColor::Rgb(244, 247, 250),
            muted: PaletteColor::Rgb(116, 129, 145),
            border: PaletteColor::Rgb(37, 53, 68),
            accent: PaletteColor::Rgb(255, 183, 3),
            accent_dim: PaletteColor::Rgb(154, 111, 8),
            inbound: PaletteColor::Rgb(255, 191, 36),
            outbound: PaletteColor::Rgb(41, 197, 246),
            violet: PaletteColor::Rgb(167, 139, 250),
            coral: PaletteColor::Rgb(251, 113, 133),
            inbound_border: PaletteColor::Rgb(102, 80, 30),
            outbound_border: PaletteColor::Rgb(29, 86, 108),
            violet_border: PaletteColor::Rgb(76, 65, 111),
            overview_highlight: PaletteColor::Rgb(43, 37, 15),
            warn: PaletteColor::Yellow,
        },
    }
}

/// Law: a palette with colours keeps the traffic categories apart. Above
/// the monochrome tier inbound, outbound, violet and coral traffic are drawn
/// in four different colours, none of them the terminal's default (in 24-bit
/// colour amber inbound and cyan-blue outbound); the monochrome palette
/// leaves all four to the terminal.
pub proof fn colour_palettes_tell_traffic_apart(tier: ColorTier)
    ensures
        ({
            let p = spec_palette(tier);
            &&& tier != ColorTier::Monochrome ==> {
                &&& p.inbound != p.outbound
                &&& p.inbound != p.violet
                &&& p.inbound != p.coral
                &&& p.outbound != p.violet
                &&& p.outbound != p.coral
                &&& p.violet != p.coral
                &&& p.inbound != PaletteColor::Reset
                &&& p.outbound != PaletteColor::Reset
                &&& p.violet != PaletteColor::Reset
                &&& p.coral != PaletteColor::Reset
            }
            &&& tier == ColorTier::Truecolor ==> p.inbound == PaletteColor::Rgb(255, 191, 36)
                && p.outbound == PaletteColor::Rgb(41, 197, 246)
            &&& tier == ColorTier::Monochrome ==> p.inbound == PaletteColor::Reset && p.outbound
                == PaletteColor::Reset && p.violet == PaletteColor::Reset && p.coral
                == PaletteColor::Reset
        }),
{
}

/// Law: below 24-bit colour the display leaves its background and its plain
/// text to the terminal's own colours, and the monochrome palette leaves
/// every role to them; a selected row is filled with a colour in 24-bit
/// colour and drawn in reversed video otherwise, never both.
pub proof fn lower_tiers_follow_the_terminal(tier: ColorTier)
    ensures
        tier != ColorTier::Truecolor ==> spec_palette(tier).bg == PaletteColor::Reset
            && spec_palette(tier).text == PaletteColor::Reset,
        tier == ColorTier::Truecolor ==> spec_palette(tier).bg != PaletteColor::Reset,
        tier == ColorTier::Monochrome ==> ({
            let p = spec_palette(tier);
            &&& p.strong == PaletteColor::Reset && p.muted == PaletteColor::Reset
            &&& p.border == PaletteColor::Reset && p.accent == PaletteColor::Reset
            &&& p.accent_dim == PaletteColor::Reset && p.inbound_border == PaletteColor::Reset
            &&& p.outbound_border == PaletteColor::Reset && p.violet_border == PaletteColor::Reset
            &&& p.overview_highlight == PaletteColor::Reset && p.warn == PaletteColor::Reset
        }),
        (spec_selection_style(tier).bg is Some) == (tier == ColorTier::Truecolor),
        spec_selection_style(tier).reversed == (spec_selection_style(tier).bg is None),
{
}

/// How a selected row is highlighted.
#[derive(Clone, Copy, Debug, PartialEq, Eq, Structural)]
pub struct SelectionStyle {
    /// The background fill, if any.
    pub bg: Option<PaletteColor>,
    /// Whether foreground and background are swapped.
    pub reversed: bool,
}

/// The selection style of a tier: a dark blue fill in 24-bit colour, reversed
/// video below it, where a fill would clash with the terminal's own palette.
pub open spec fn spec_selection_style(tier: ColorTier) -> SelectionStyle {
    match tier {
        ColorTier::Truecolor => SelectionStyle { bg: Some(PaletteColor::Rgb(23, 43, 60)), reversed: false },
        _ => SelectionStyle { bg: None, reversed: true },
    }
}

/// The selection highlight for a terminal of `tier`.
pub fn selection_style_for(tier: ColorTier) -> (s: SelectionStyle)
    ensures
        s == spec_selection_style(tier),
{
    match tier {
        ColorTier::Truecolor => SelectionStyle { bg: Some(PaletteColor::Rgb(23, 43, 60)), reversed: false },
        ColorTier::Sixteen | ColorTier::Monochrome => SelectionStyle { bg: None, reversed: true },
    }
}

} // verus!
