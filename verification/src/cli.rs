//! Command-line options, as plain values, and their validation rules.

use vstd::prelude::*;
use crate::setup_shell::SetupShell;
use crate::text::{chars_of, extend_chars, string_of};

verus! {

/// Requested art model.
#[derive(Debug, Clone, Copy, PartialEq, Eq, Structural)]
pub enum ArtModel {
    /// Choose randomly from the available models.
    Random,
    /// Elliptical galaxy.
    Elliptical,
    /// Spiral galaxy.
    Spiral,
    /// Stellar cluster.
    Cluster,
    /// Simple starfield.
    Starfield,
}

/// Layout choice for combining art and information.
#[derive(Debug, Clone, Copy, PartialEq, Eq, Structural)]
pub enum LayoutChoice {
    Auto,
    SideBySide,
    Stacked,
}

/// Requested renderer.
#[derive(Debug, Clone, Copy, PartialEq, Eq, Structural)]
pub enum RendererChoice {
    Auto,
    HalfBlock,
    Shade,
    Ascii,
    Quadrant,
}

/// Requested color palette.
#[derive(Debug, Clone, Copy, PartialEq, Eq, Structural)]
pub enum PaletteChoice {
    Auto,
    Nebula,
    Cividis,
    Amber,
    Mono,
}

/// Arguments for explicit shell startup integration.
#[derive(Debug, Clone)]
pub struct SetupShellArgs {
    /// Shell startup file to update.
    pub shell: Option<SetupShell>,
    /// Use `astrofetch --compact` in the managed startup block.
    pub compact: bool,
    /// Print the target and managed block without writing any files.
    pub dry_run: bool,
    /// Replace an existing managed AstroFetch block.
    pub force: bool,
    /// Override of the startup file path.
    pub target_path: Option<String>,
}

/// Arguments for explicitly removing shell startup integration.
#[derive(Debug, Clone)]
pub struct UninstallShellArgs {
    /// Shell startup file to update.
    pub shell: Option<SetupShell>,
    /// Print what would be removed without writing any files.
    pub dry_run: bool,
    /// Override of the startup file path.
    pub target_path: Option<String>,
}

/// Explicit subcommands.
#[derive(Debug, Clone)]
pub enum Command {
    /// Safely add AstroFetch to a shell startup file.
    SetupShell(SetupShellArgs),
    /// Safely remove AstroFetch from a shell startup file.
    UninstallShell(UninstallShellArgs),
}

/// Command-line arguments of AstroFetch.
#[derive(Debug, Clone)]
pub struct Args {
    /// Optional command to run instead of the default fetch display.
    pub command: Option<Command>,
    /// Art model to render.
    pub model: ArtModel,
    /// Width of the art area.
    pub width: Option<usize>,
    /// Height of the art area.
    pub height: Option<usize>,
    /// Seed for deterministic art generation.
    pub seed: Option<u64>,
    /// Disable ANSI color output.
    pub no_color: bool,
    /// Print only the art.
    pub logo_only: bool,
    /// Print only system information.
    pub info_only: bool,
    /// Play the short intro animation.
    pub animate: bool,
    /// Print the compact field set.
    pub compact: bool,
    /// Show per-filesystem disk usage details.
    pub disk_details: bool,
    /// Layout for combining art and information.
    pub layout: LayoutChoice,
    /// Renderer for the art.
    pub renderer: RendererChoice,
    /// Color palette for the art.
    pub palette: PaletteChoice,
    /// Skip the passive update check.
    pub no_update_check: bool,
}

/// The value of a run of ASCII decimal digits.
pub open spec fn digits_value(s: Seq<char>) -> nat
    decreases s.len(),
{
    if s.len() == 0 {
        0
    } else {
        digits_value(s.drop_last()) * 10 + (s.last() as nat - '0' as nat) as nat
    }
}

pub open spec fn all_digits(s: Seq<char>) -> bool {
    forall|i: int| 0 <= i < s.len() ==> '0' <= #[trigger] s[i] <= '9'
}

/// What `usize::from_str` accepts: an optional `+` and at least one ASCII
/// digit, with a value that fits.
pub open spec fn parse_usize_spec(s: Seq<char>) -> Option<usize> {
    let digits = if s.len() > 0 && s[0] == '+' {
        s.skip(1)
    } else {
        s
    };
    if digits.len() > 0 && all_digits(digits) && digits_value(digits) <= usize::MAX {
        Some(digits_value(digits) as usize)
    } else {
        None
    }
}

/// Parses a decimal `usize` the way `usize::from_str` does.
pub fn parse_usize(s: &str) -> (r: Option<usize>)
    ensures
        r == parse_usize_spec(s@),
{
    let v = chars_of(s);
    let start: usize = if v.len() > 0 && v[0] == '+' { 1 } else { 0 };
    let ghost digits = if v@.len() > 0 && v@[0] == '+' {
        v@.skip(1)
    } else {
        v@
    };
    assert(digits =~= v@.skip(start as int));
    if start >= v.len() {
        return None;
    }
    let mut value: usize = 0;
    let mut i = start;
    while i < v.len()
        invariant
            v@ == s@,
            start <= i <= v@.len(),
            digits == v@.skip(start as int),
            digits == (if v@.len() > 0 && v@[0] == '+' {
                v@.skip(1)
            } else {
                v@
            }),
            all_digits(v@.subrange(start as int, i as int)),
            value == digits_value(v@.subrange(start as int, i as int)),
        decreases v@.len() - i,
    {
        let c = v[i];
        assert(v@.subrange(start as int, i + 1).drop_last() =~= v@.subrange(start as int, i as int));
        if !('0' <= c && c <= '9') {
            assert(digits[(i - start) as int] == c);
            assert(!all_digits(digits));
            return None;
        }
        let d = (c as u32 - '0' as u32) as usize;
        let ghost k = (i + 1 - start) as int;
        assert(digits.take(k) =~= v@.subrange(start as int, i + 1));
        assert(digits_value(digits.take(k)) == value * 10 + d);
        match value.checked_mul(10) {
            Some(m) => match m.checked_add(d) {
                Some(n) => {
                    value = n;
                },
                None => {
                    proof {
                        lemma_digits_prefix_bound(digits, (i + 1 - start) as int);
                    }
                    return None;
                },
            },
            None => {
                proof {
                    lemma_digits_prefix_bound(digits, (i + 1 - start) as int);
                }
                return None;
            },
        }
        i = i + 1;
    }
    assert(v@.subrange(start as int, v@.len() as int) =~= digits);
    Some(value)
}

/// A digit run's value is at least the value of any of its prefixes.
proof fn lemma_digits_prefix_bound(s: Seq<char>, k: int)
    requires
        0 <= k <= s.len(),
    ensures
        digits_value(s.take(k)) <= digits_value(s),
    decreases s.len() - k,
{
    if k < s.len() {
        lemma_digits_prefix_bound(s, k + 1);
        assert(s.take(k + 1).drop_last() =~= s.take(k));
        assert(digits_value(s.take(k)) <= digits_value(s.take(k)) * 10) by (nonlinear_arith);
    } else {
        assert(s.take(k) =~= s);
    }
}

pub open spec fn not_a_usize_message(s: Seq<char>) -> Seq<char> {
    "'"@ + s + "' is not a valid usize"@
}

fn not_a_usize(s: &str) -> (m: String)
    ensures
        m@ == not_a_usize_message(s@),
{
    let mut v = chars_of("'");
    let body = chars_of(s);
    extend_chars(&mut v, &body);
    let tail = chars_of("' is not a valid usize");
    extend_chars(&mut v, &tail);
    string_of(&v)
}

/// Validates an art width (1 to 200).
pub fn validate_width(s: &str) -> (r: Result<usize, String>)
    ensures
        match parse_usize_spec(s@) {
            None => r matches Err(m) && m@ == not_a_usize_message(s@),
            Some(v) => if 1 <= v <= 200 {
                r == Ok::<usize, String>(v)
            } else {
                r matches Err(m) && m@ == "width must be between 1 and 200"@
            },
        },
{
    let val = match parse_usize(s) {
        Some(v) => v,
        None => {
            return Err(not_a_usize(s));
        },
    };
    if !(1 <= val && val <= 200) {
        let m = chars_of("width must be between 1 and 200");
        return Err(string_of(&m));
    }
    Ok(val)
}

/// Validates an art height (1 to 100).
pub fn validate_height(s: &str) -> (r: Result<usize, String>)
    ensures
        match parse_usize_spec(s@) {
            None => r matches Err(m) && m@ == not_a_usize_message(s@),
            Some(v) => if 1 <= v <= 100 {
                r == Ok::<usize, String>(v)
            } else {
                r matches Err(m) && m@ == "height must be between 1 and 100"@
            },
        },
{
    let val = match parse_usize(s) {
        Some(v) => v,
        None => {
            return Err(not_a_usize(s));
        },
    };
    if !(1 <= val && val <= 100) {
        let m = chars_of("height must be between 1 and 100");
        return Err(string_of(&m));
    }
    Ok(val)
}

} // verus!
