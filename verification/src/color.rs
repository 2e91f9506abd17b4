//! Color palettes: the xterm-256 ANSI sequences used for each intensity
//! level of galaxy cells and each brightness class of stars.

use vstd::prelude::*;
use crate::terminal::is_csi_sequence;

verus! {

/// Color palette for procedural art.
#[derive(Debug, Clone, Copy, PartialEq, Eq, Structural)]
pub enum ColorPalette {
    /// The standard AstroFetch color scheme.
    Nebula,
    /// Color-vision-friendly ramp inspired by Cividis.
    Cividis,
    /// Warm monochromatic-style ramp.
    Amber,
    /// Grayscale ramp.
    Mono,
}

pub const RESET: &'static str = "\x1b[0m";

/// Number of galaxy intensity levels (`0..=6`).
pub const LEVEL_COUNT: usize = 7;

/// Foreground sequence of a galaxy cell at intensity `level` (levels past 6
/// use the brightest entry).
pub open spec fn galaxy_foreground_spec(palette: ColorPalette, level: usize) -> Seq<char> {
    match palette {
        ColorPalette::Nebula => if level == 0 {
            "\x1b[2;38;5;17m"@
        } else if level == 1 {
            "\x1b[2;38;5;24m"@
        } else if level == 2 {
            "\x1b[38;5;30m"@
        } else if level == 3 {
            "\x1b[38;5;65m"@
        } else if level == 4 {
            "\x1b[38;5;136m"@
        } else if level == 5 {
            "\x1b[38;5;130m"@
        } else {
            "\x1b[38;5;255m"@
        },
        ColorPalette::Cividis => if level == 0 {
            "\x1b[2;38;5;17m"@
        } else if level == 1 {
            "\x1b[2;38;5;24m"@
        } else if level == 2 {
            "\x1b[38;5;60m"@
        } else if level == 3 {
            "\x1b[38;5;66m"@
        } else if level == 4 {
            "\x1b[38;5;101m"@
        } else if level == 5 {
            "\x1b[38;5;143m"@
        } else {
            "\x1b[38;5;228m"@
        },
        ColorPalette::Amber => if level == 0 {
            "\x1b[2;38;5;52m"@
        } else if level == 1 {
            "\x1b[2;38;5;88m"@
        } else if level == 2 {
            "\x1b[38;5;130m"@
        } else if level == 3 {
            "\x1b[38;5;166m"@
        } else if level == 4 {
            "\x1b[38;5;202m"@
        } else if level == 5 {
            "\x1b[38;5;214m"@
        } else {
            "\x1b[38;5;230m"@
        },
        ColorPalette::Mono => if level == 0 {
            "\x1b[2;38;5;236m"@
        } else if level == 1 {
            "\x1b[2;38;5;239m"@
        } else if level == 2 {
            "\x1b[38;5;242m"@
        } else if level == 3 {
            "\x1b[38;5;245m"@
        } else if level == 4 {
            "\x1b[38;5;248m"@
        } else if level == 5 {
            "\x1b[38;5;252m"@
        } else {
            "\x1b[38;5;255m"@
        },
    }
}

/// Background sequence of a galaxy cell at intensity `level`.
pub open spec fn galaxy_background_spec(palette: ColorPalette, level: usize) -> Seq<char> {
    match palette {
        ColorPalette::Nebula => if level == 0 {
            "\x1b[48;5;17m"@
        } else if level == 1 {
            "\x1b[48;5;24m"@
        } else if level == 2 {
            "\x1b[48;5;30m"@
        } else if level == 3 {
            "\x1b[48;5;65m"@
        } else if level == 4 {
            "\x1b[48;5;136m"@
        } else if level == 5 {
            "\x1b[48;5;130m"@
        } else {
            "\x1b[48;5;255m"@
        },
        ColorPalette::Cividis => if level == 0 {
            "\x1b[48;5;17m"@
        } else if level == 1 {
            "\x1b[48;5;24m"@
        } else if level == 2 {
            "\x1b[48;5;60m"@
        } else if level == 3 {
            "\x1b[48;5;66m"@
        } else if level == 4 {
            "\x1b[48;5;101m"@
        } else if level == 5 {
            "\x1b[48;5;143m"@
        } else {
            "\x1b[48;5;228m"@
        },
        ColorPalette::Amber => if level == 0 {
            "\x1b[48;5;52m"@
        } else if level == 1 {
            "\x1b[48;5;88m"@
        } else if level == 2 {
            "\x1b[48;5;130m"@
        } else if level == 3 {
            "\x1b[48;5;166m"@
        } else if level == 4 {
            "\x1b[48;5;202m"@
        } else if level == 5 {
            "\x1b[48;5;214m"@
        } else {
            "\x1b[48;5;230m"@
        },
        ColorPalette::Mono => if level == 0 {
            "\x1b[48;5;236m"@
        } else if level == 1 {
            "\x1b[48;5;239m"@
        } else if level == 2 {
            "\x1b[48;5;242m"@
        } else if level == 3 {
            "\x1b[48;5;245m"@
        } else if level == 4 {
            "\x1b[48;5;248m"@
        } else if level == 5 {
            "\x1b[48;5;252m"@
        } else {
            "\x1b[48;5;255m"@
        },
    }
}

pub fn galaxy_foreground_nebula(level: usize) -> (s: &'static str)
    ensures
        s@ == galaxy_foreground_spec(ColorPalette::Nebula, level),
{
    match level {
        0 => "\x1b[2;38;5;17m",
        1 => "\x1b[2;38;5;24m",
        2 => "\x1b[38;5;30m",
        3 => "\x1b[38;5;65m",
        4 => "\x1b[38;5;136m",
        5 => "\x1b[38;5;130m",
        _ => "\x1b[38;5;255m",
    }
}

pub fn galaxy_background_nebula(level: usize) -> (s: &'static str)
    ensures
        s@ == galaxy_background_spec(ColorPalette::Nebula, level),
{
    match level {
        0 => "\x1b[48;5;17m",
        1 => "\x1b[48;5;24m",
        2 => "\x1b[48;5;30m",
        3 => "\x1b[48;5;65m",
        4 => "\x1b[48;5;136m",
        5 => "\x1b[48;5;130m",
        _ => "\x1b[48;5;255m",
    }
}

pub fn galaxy_foreground_cividis(level: usize) -> (s: &'static str)
    ensures
        s@ == galaxy_foreground_spec(ColorPalette::Cividis, level),
{
    match level {
        0 => "\x1b[2;38;5;17m",
        1 => "\x1b[2;38;5;24m",
        2 => "\x1b[38;5;60m",
        3 => "\x1b[38;5;66m",
        4 => "\x1b[38;5;101m",
        5 => "\x1b[38;5;143m",
        _ => "\x1b[38;5;228m",
    }
}

pub fn galaxy_background_cividis(level: usize) -> (s: &'static str)
    ensures
        s@ == galaxy_background_spec(ColorPalette::Cividis, level),
{
    match level {
        0 => "\x1b[48;5;17m",
        1 => "\x1b[48;5;24m",
        2 => "\x1b[48;5;60m",
        3 => "\x1b[48;5;66m",
        4 => "\x1b[48;5;101m",
        5 => "\x1b[48;5;143m",
        _ => "\x1b[48;5;228m",
    }
}

pub fn galaxy_foreground_amber(level: usize) -> (s: &'static str)
    ensures
        s@ == galaxy_foreground_spec(ColorPalette::Amber, level),
{
    match level {
        0 => "\x1b[2;38;5;52m",
        1 => "\x1b[2;38;5;88m",
        2 => "\x1b[38;5;130m",
        3 => "\x1b[38;5;166m",
        4 => "\x1b[38;5;202m",
        5 => "\x1b[38;5;214m",
        _ => "\x1b[38;5;230m",
    }
}

pub fn galaxy_background_amber(level: usize) -> (s: &'static str)
    ensures
        s@ == galaxy_background_spec(ColorPalette::Amber, level),
{
    match level {
        0 => "\x1b[48;5;52m",
        1 => "\x1b[48;5;88m",
        2 => "\x1b[48;5;130m",
        3 => "\x1b[48;5;166m",
        4 => "\x1b[48;5;202m",
        5 => "\x1b[48;5;214m",
        _ => "\x1b[48;5;230m",
    }
}

pub fn galaxy_foreground_mono(level: usize) -> (s: &'static str)
    ensures
        s@ == galaxy_foreground_spec(ColorPalette::Mono, level),
{
    match level {
        0 => "\x1b[2;38;5;236m",
        1 => "\x1b[2;38;5;239m",
        2 => "\x1b[38;5;242m",
        3 => "\x1b[38;5;245m",
        4 => "\x1b[38;5;248m",
        5 => "\x1b[38;5;252m",
        _ => "\x1b[38;5;255m",
    }
}

pub fn galaxy_background_mono(level: usize) -> (s: &'static str)
    ensures
        s@ == galaxy_background_spec(ColorPalette::Mono, level),
{
    match level {
        0 => "\x1b[48;5;236m",
        1 => "\x1b[48;5;239m",
        2 => "\x1b[48;5;242m",
        3 => "\x1b[48;5;245m",
        4 => "\x1b[48;5;248m",
        5 => "\x1b[48;5;252m",
        _ => "\x1b[48;5;255m",
    }
}

/// Galaxy foreground sequence for an intensity level.
pub fn galaxy_foreground_for_level(palette: ColorPalette, level: usize) -> (s: &'static str)
    ensures
        s@ == galaxy_foreground_spec(palette, level),
{
    match palette {
        ColorPalette::Nebula => galaxy_foreground_nebula(level),
        ColorPalette::Cividis => galaxy_foreground_cividis(level),
        ColorPalette::Amber => galaxy_foreground_amber(level),
        ColorPalette::Mono => galaxy_foreground_mono(level),
    }
}

/// Galaxy background sequence for an intensity level.
pub fn galaxy_background_for_level(palette: ColorPalette, level: usize) -> (s: &'static str)
    ensures
        s@ == galaxy_background_spec(palette, level),
{
    match palette {
        ColorPalette::Nebula => galaxy_background_nebula(level),
        ColorPalette::Cividis => galaxy_background_cividis(level),
        ColorPalette::Amber => galaxy_background_amber(level),
        ColorPalette::Mono => galaxy_background_mono(level),
    }
}

/// Brightness class of a background star.
#[derive(Debug, Clone, Copy, PartialEq, Eq)]
pub enum StarBrightness {
    Faint,
    Medium,
    Bright,
}

/// Hue class of a star: low, middle or high hue.
#[derive(Debug, Clone, Copy, PartialEq, Eq)]
pub enum StarHue {
    Low,
    Middle,
    High,
}

pub open spec fn starfield_faint_spec(palette: ColorPalette) -> Seq<char> {
    match palette {
        ColorPalette::Nebula => "\x1b[2;37m"@,
        ColorPalette::Cividis => "\x1b[2;38;5;240m"@,
        ColorPalette::Amber => "\x1b[2;38;5;239m"@,
        ColorPalette::Mono => "\x1b[2;38;5;240m"@,
    }
}

/// Star foreground sequence: faint stars are gray whatever the hue; medium
/// stars distinguish low hue from the rest; bright stars use all three hue
/// classes.
pub open spec fn starfield_foreground_spec(
    palette: ColorPalette,
    brightness: StarBrightness,
    hue: StarHue,
) -> Seq<char> {
    match brightness {
        StarBrightness::Faint => starfield_faint_spec(palette),
        StarBrightness::Medium => {
            let low = hue == StarHue::Low;
            match palette {
                ColorPalette::Nebula => if low {
                    "\x1b[38;5;67m"@
                } else {
                    "\x1b[38;5;109m"@
                },
                ColorPalette::Cividis => if low {
                    "\x1b[38;5;24m"@
                } else {
                    "\x1b[38;5;66m"@
                },
                ColorPalette::Amber => if low {
                    "\x1b[38;5;94m"@
                } else {
                    "\x1b[38;5;130m"@
                },
                ColorPalette::Mono => if low {
                    "\x1b[38;5;245m"@
                } else {
                    "\x1b[38;5;248m"@
                },
            }
        },
        StarBrightness::Bright => match (palette, hue) {
            (ColorPalette::Nebula, StarHue::Low) => "\x1b[38;5;250m"@,
            (ColorPalette::Nebula, StarHue::Middle) => "\x1b[38;5;180m"@,
            (ColorPalette::Nebula, StarHue::High) => "\x1b[38;5;167m"@,
            (ColorPalette::Cividis, StarHue::Low) => "\x1b[38;5;252m"@,
            (ColorPalette::Cividis, StarHue::Middle) => "\x1b[38;5;186m"@,
            (ColorPalette::Cividis, StarHue::High) => "\x1b[38;5;228m"@,
            (ColorPalette::Amber, StarHue::Low) => "\x1b[38;5;214m"@,
            (ColorPalette::Amber, StarHue::Middle) => "\x1b[38;5;220m"@,
            (ColorPalette::Amber, StarHue::High) => "\x1b[38;5;230m"@,
            (ColorPalette::Mono, StarHue::Low) => "\x1b[38;5;250m"@,
            (ColorPalette::Mono, StarHue::Middle) => "\x1b[38;5;253m"@,
            (ColorPalette::Mono, StarHue::High) => "\x1b[38;5;255m"@,
        },
    }
}

pub fn starfield_faint_nebula() -> (s: &'static str)
    ensures
        s@ == starfield_faint_spec(ColorPalette::Nebula),
{
    "\x1b[2;37m"
}

pub fn starfield_faint_cividis() -> (s: &'static str)
    ensures
        s@ == starfield_faint_spec(ColorPalette::Cividis),
{
    "\x1b[2;38;5;240m"
}

pub fn starfield_faint_amber() -> (s: &'static str)
    ensures
        s@ == starfield_faint_spec(ColorPalette::Amber),
{
    "\x1b[2;38;5;239m"
}

pub fn starfield_faint_mono() -> (s: &'static str)
    ensures
        s@ == starfield_faint_spec(ColorPalette::Mono),
{
    "\x1b[2;38;5;240m"
}

/// Faint-star sequence of a palette.
pub fn starfield_faint_ansi(palette: ColorPalette) -> (s: &'static str)
    ensures
        s@ == starfield_faint_spec(palette),
{
    match palette {
        ColorPalette::Nebula => starfield_faint_nebula(),
        ColorPalette::Cividis => starfield_faint_cividis(),
        ColorPalette::Amber => starfield_faint_amber(),
        ColorPalette::Mono => starfield_faint_mono(),
    }
}

/// Seed of the per-star hue hash.
pub const STAR_HUE_SEED: u64 = 0x51a7_f17e_d00d_cafe;

/// `hash >> 11` below this value is a low hue for a medium star (0.50
/// scaled by 2^53).
pub const MEDIUM_LOW_HUE_LIMIT: u64 = 4503599627370496;

/// `hash >> 11` below this value is a low hue for a bright star (0.58
/// scaled by 2^53).
pub const BRIGHT_LOW_HUE_LIMIT: u64 = 5224175567749775;

/// `hash >> 11` below this value (and not low) is a middle hue for a
/// bright star (0.84 scaled by 2^53).
pub const BRIGHT_MIDDLE_HUE_LIMIT: u64 = 7566047373982433;

/// Hue class of a star from its hue hash: the top 53 bits of the hash, read
/// as a fraction of one, split medium stars at 0.50 and bright stars at
/// 0.58 and 0.84 (the limits are those fractions scaled by 2^53, so the
/// integer comparison is exact); faint stars have one color whatever the
/// hue.
pub open spec fn star_hue_spec(brightness: StarBrightness, hash: u64) -> StarHue {
    let k = hash >> 11u64;
    match brightness {
        StarBrightness::Faint => StarHue::Low,
        StarBrightness::Medium => if k < MEDIUM_LOW_HUE_LIMIT {
            StarHue::Low
        } else {
            StarHue::High
        },
        StarBrightness::Bright => if k < BRIGHT_LOW_HUE_LIMIT {
            StarHue::Low
        } else if k < BRIGHT_MIDDLE_HUE_LIMIT {
            StarHue::Middle
        } else {
            StarHue::High
        },
    }
}

/// The hue class a star of the given brightness draws from its hue hash.
pub fn star_hue_for_hash(brightness: StarBrightness, hash: u64) -> (hue: StarHue)
    ensures
        hue == star_hue_spec(brightness, hash),
{
    let k = hash >> 11u64;
    match brightness {
        StarBrightness::Faint => StarHue::Low,
        StarBrightness::Medium => if k < MEDIUM_LOW_HUE_LIMIT {
            StarHue::Low
        } else {
            StarHue::High
        },
        StarBrightness::Bright => if k < BRIGHT_LOW_HUE_LIMIT {
            StarHue::Low
        } else if k < BRIGHT_MIDDLE_HUE_LIMIT {
            StarHue::Middle
        } else {
            StarHue::High
        },
    }
}

/// Star foreground sequence for a brightness and hue class.
pub fn starfield_foreground_for(palette: ColorPalette, brightness: StarBrightness, hue: StarHue) -> (s:
    &'static str)
    ensures
        s@ == starfield_foreground_spec(palette, brightness, hue),
{
    match brightness {
        StarBrightness::Faint => starfield_faint_ansi(palette),
        StarBrightness::Medium => {
            let low = match hue {
                StarHue::Low => true,
                _ => false,
            };
            match palette {
                ColorPalette::Nebula => if low {
                    "\x1b[38;5;67m"
                } else {
                    "\x1b[38;5;109m"
                },
                ColorPalette::Cividis => if low {
                    "\x1b[38;5;24m"
                } else {
                    "\x1b[38;5;66m"
                },
                ColorPalette::Amber => if low {
                    "\x1b[38;5;94m"
                } else {
                    "\x1b[38;5;130m"
                },
                ColorPalette::Mono => if low {
                    "\x1b[38;5;245m"
                } else {
                    "\x1b[38;5;248m"
                },
            }
        },
        StarBrightness::Bright => match (palette, hue) {
            (ColorPalette::Nebula, StarHue::Low) => "\x1b[38;5;250m",
            (ColorPalette::Nebula, StarHue::Middle) => "\x1b[38;5;180m",
            (ColorPalette::Nebula, StarHue::High) => "\x1b[38;5;167m",
            (ColorPalette::Cividis, StarHue::Low) => "\x1b[38;5;252m",
            (ColorPalette::Cividis, StarHue::Middle) => "\x1b[38;5;186m",
            (ColorPalette::Cividis, StarHue::High) => "\x1b[38;5;228m",
            (ColorPalette::Amber, StarHue::Low) => "\x1b[38;5;214m",
            (ColorPalette::Amber, StarHue::Middle) => "\x1b[38;5;220m",
            (ColorPalette::Amber, StarHue::High) => "\x1b[38;5;230m",
            (ColorPalette::Mono, StarHue::Low) => "\x1b[38;5;250m",
            (ColorPalette::Mono, StarHue::Middle) => "\x1b[38;5;253m",
            (ColorPalette::Mono, StarHue::High) => "\x1b[38;5;255m",
        },
    }
}

proof fn lemma_csi_literals_0()
    ensures
        is_csi_sequence("\x1b[2;38;5;17m"@),
        is_csi_sequence("\x1b[2;38;5;24m"@),
        is_csi_sequence("\x1b[38;5;30m"@),
        is_csi_sequence("\x1b[38;5;65m"@),
        is_csi_sequence("\x1b[38;5;136m"@),
        is_csi_sequence("\x1b[38;5;130m"@),
        is_csi_sequence("\x1b[38;5;255m"@),
        is_csi_sequence("\x1b[38;5;60m"@),
        is_csi_sequence("\x1b[38;5;66m"@),
        is_csi_sequence("\x1b[38;5;101m"@),
        is_csi_sequence("\x1b[38;5;143m"@),
        is_csi_sequence("\x1b[38;5;228m"@),
{
    reveal_strlit("\x1b[2;38;5;17m");
    reveal_strlit("\x1b[2;38;5;24m");
    reveal_strlit("\x1b[38;5;30m");
    reveal_strlit("\x1b[38;5;65m");
    reveal_strlit("\x1b[38;5;136m");
    reveal_strlit("\x1b[38;5;130m");
    reveal_strlit("\x1b[38;5;255m");
    reveal_strlit("\x1b[38;5;60m");
    reveal_strlit("\x1b[38;5;66m");
    reveal_strlit("\x1b[38;5;101m");
    reveal_strlit("\x1b[38;5;143m");
    reveal_strlit("\x1b[38;5;228m");
}

proof fn lemma_csi_literals_1()
    ensures
        is_csi_sequence("\x1b[2;38;5;52m"@),
        is_csi_sequence("\x1b[2;38;5;88m"@),
        is_csi_sequence("\x1b[38;5;166m"@),
        is_csi_sequence("\x1b[38;5;202m"@),
        is_csi_sequence("\x1b[38;5;214m"@),
        is_csi_sequence("\x1b[38;5;230m"@),
        is_csi_sequence("\x1b[2;38;5;236m"@),
        is_csi_sequence("\x1b[2;38;5;239m"@),
        is_csi_sequence("\x1b[38;5;242m"@),
        is_csi_sequence("\x1b[38;5;245m"@),
        is_csi_sequence("\x1b[38;5;248m"@),
        is_csi_sequence("\x1b[38;5;252m"@),
{
    reveal_strlit("\x1b[2;38;5;52m");
    reveal_strlit("\x1b[2;38;5;88m");
    reveal_strlit("\x1b[38;5;166m");
    reveal_strlit("\x1b[38;5;202m");
    reveal_strlit("\x1b[38;5;214m");
    reveal_strlit("\x1b[38;5;230m");
    reveal_strlit("\x1b[2;38;5;236m");
    reveal_strlit("\x1b[2;38;5;239m");
    reveal_strlit("\x1b[38;5;242m");
    reveal_strlit("\x1b[38;5;245m");
    reveal_strlit("\x1b[38;5;248m");
    reveal_strlit("\x1b[38;5;252m");
}

proof fn lemma_csi_literals_2()
    ensures
        is_csi_sequence("\x1b[48;5;17m"@),
        is_csi_sequence("\x1b[48;5;24m"@),
        is_csi_sequence("\x1b[48;5;30m"@),
        is_csi_sequence("\x1b[48;5;65m"@),
        is_csi_sequence("\x1b[48;5;136m"@),
        is_csi_sequence("\x1b[48;5;130m"@),
        is_csi_sequence("\x1b[48;5;255m"@),
        is_csi_sequence("\x1b[48;5;60m"@),
        is_csi_sequence("\x1b[48;5;66m"@),
        is_csi_sequence("\x1b[48;5;101m"@),
        is_csi_sequence("\x1b[48;5;143m"@),
        is_csi_sequence("\x1b[48;5;228m"@),
{
    reveal_strlit("\x1b[48;5;17m");
    reveal_strlit("\x1b[48;5;24m");
    reveal_strlit("\x1b[48;5;30m");
    reveal_strlit("\x1b[48;5;65m");
    reveal_strlit("\x1b[48;5;136m");
    reveal_strlit("\x1b[48;5;130m");
    reveal_strlit("\x1b[48;5;255m");
    reveal_strlit("\x1b[48;5;60m");
    reveal_strlit("\x1b[48;5;66m");
    reveal_strlit("\x1b[48;5;101m");
    reveal_strlit("\x1b[48;5;143m");
    reveal_strlit("\x1b[48;5;228m");
}

proof fn lemma_csi_literals_3()
    ensures
        is_csi_sequence("\x1b[48;5;52m"@),
        is_csi_sequence("\x1b[48;5;88m"@),
        is_csi_sequence("\x1b[48;5;166m"@),
        is_csi_sequence("\x1b[48;5;202m"@),
        is_csi_sequence("\x1b[48;5;214m"@),
        is_csi_sequence("\x1b[48;5;230m"@),
        is_csi_sequence("\x1b[48;5;236m"@),
        is_csi_sequence("\x1b[48;5;239m"@),
        is_csi_sequence("\x1b[48;5;242m"@),
        is_csi_sequence("\x1b[48;5;245m"@),
        is_csi_sequence("\x1b[48;5;248m"@),
        is_csi_sequence("\x1b[48;5;252m"@),
{
    reveal_strlit("\x1b[48;5;52m");
    reveal_strlit("\x1b[48;5;88m");
    reveal_strlit("\x1b[48;5;166m");
    reveal_strlit("\x1b[48;5;202m");
    reveal_strlit("\x1b[48;5;214m");
    reveal_strlit("\x1b[48;5;230m");
    reveal_strlit("\x1b[48;5;236m");
    reveal_strlit("\x1b[48;5;239m");
    reveal_strlit("\x1b[48;5;242m");
    reveal_strlit("\x1b[48;5;245m");
    reveal_strlit("\x1b[48;5;248m");
    reveal_strlit("\x1b[48;5;252m");
}

proof fn lemma_csi_literals_4()
    ensures
        is_csi_sequence("\x1b[2;37m"@),
        is_csi_sequence("\x1b[2;38;5;240m"@),
        is_csi_sequence("\x1b[38;5;67m"@),
        is_csi_sequence("\x1b[38;5;109m"@),
        is_csi_sequence("\x1b[38;5;24m"@),
        is_csi_sequence("\x1b[38;5;94m"@),
        is_csi_sequence("\x1b[38;5;250m"@),
        is_csi_sequence("\x1b[38;5;180m"@),
        is_csi_sequence("\x1b[38;5;167m"@),
        is_csi_sequence("\x1b[38;5;186m"@),
        is_csi_sequence("\x1b[38;5;220m"@),
        is_csi_sequence("\x1b[38;5;253m"@),
{
    reveal_strlit("\x1b[2;37m");
    reveal_strlit("\x1b[2;38;5;240m");
    reveal_strlit("\x1b[38;5;67m");
    reveal_strlit("\x1b[38;5;109m");
    reveal_strlit("\x1b[38;5;24m");
    reveal_strlit("\x1b[38;5;94m");
    reveal_strlit("\x1b[38;5;250m");
    reveal_strlit("\x1b[38;5;180m");
    reveal_strlit("\x1b[38;5;167m");
    reveal_strlit("\x1b[38;5;186m");
    reveal_strlit("\x1b[38;5;220m");
    reveal_strlit("\x1b[38;5;253m");
}

/// Every style sequence of the palettes, and RESET, is a complete CSI
/// sequence.
pub proof fn lemma_styles_are_csi(palette: ColorPalette, level: usize, brightness: StarBrightness, hue: StarHue)
    ensures
        is_csi_sequence(galaxy_foreground_spec(palette, level)),
        is_csi_sequence(galaxy_background_spec(palette, level)),
        is_csi_sequence(starfield_foreground_spec(palette, brightness, hue)),
        is_csi_sequence(RESET@),
{
    lemma_csi_literals_0();
    lemma_csi_literals_1();
    lemma_csi_literals_2();
    lemma_csi_literals_3();
    lemma_csi_literals_4();
    reveal_strlit("\x1b[0m");
}

} // verus!
