//! Display planning: the art dimensions and the layout used to combine the
//! art with the information block.

use vstd::prelude::*;
use crate::cli::LayoutChoice;
use crate::terminal::TerminalDimensions;

verus! {

/// The final display plan with layout choice.
#[derive(Debug, Clone, Copy, PartialEq, Eq)]
pub enum DisplayPlan {
    /// Only art, no information.
    LogoOnly { art: ArtPlan },
    /// Both art and information with a chosen layout.
    Combined { art: ArtPlan, layout: LayoutKind },
}

/// Plan for the art dimensions.
#[derive(Debug, Clone, Copy, PartialEq, Eq)]
pub struct ArtPlan {
    pub width: usize,
    pub height: usize,
}

/// Layout kind for combining art and information.
#[derive(Debug, Clone, Copy, PartialEq, Eq)]
pub enum LayoutKind {
    SideBySide,
    Stacked,
}

/// Input of the display planner.
#[derive(Debug, Clone, Copy)]
pub struct PlannerRequest {
    /// Terminal dimensions (`None` when not a TTY).
    pub terminal_dimensions: Option<TerminalDimensions>,
    /// Requested art width (`None` means automatic).
    pub requested_width: Option<usize>,
    /// Requested art height (`None` means automatic).
    pub requested_height: Option<usize>,
    /// Requested layout choice.
    pub requested_layout: LayoutChoice,
    /// Output mode.
    pub output_mode: OutputMode,
    /// Measured information visible width.
    pub info_visible_width: usize,
    /// Measured information line count.
    pub info_line_count: usize,
}

/// Output mode for the planner.
#[derive(Debug, Clone, Copy, PartialEq, Eq)]
pub enum OutputMode {
    /// Art and information.
    Combined,
    /// Art only.
    LogoOnly,
}

pub const FALLBACK_WIDTH: usize = 40;

pub const FALLBACK_HEIGHT: usize = 20;

pub const PREFERRED_SIDE_MIN_WIDTH: usize = 20;

pub const GAP: usize = 2;

/// The display planner.
pub struct DisplayPlanner;

/// Preferred art dimensions and which of them are automatic.
pub struct PreferredArt {
    pub width: usize,
    pub height: usize,
    pub width_is_automatic: bool,
    pub height_is_automatic: bool,
}

pub open spec fn min(a: int, b: int) -> int {
    if a <= b {
        a
    } else {
        b
    }
}

pub open spec fn max(a: int, b: int) -> int {
    if a >= b {
        a
    } else {
        b
    }
}

/// `ceil(v / 2)`.
pub open spec fn half_up(v: int) -> int {
    (v + 1) / 2
}

pub open spec fn sat_usize(v: int) -> int {
    if v > usize::MAX {
        usize::MAX as int
    } else {
        v
    }
}

/// Preferred (width, height, width automatic, height automatic): explicit
/// values are kept, a missing one derives from the other at a 2:1 ratio,
/// and with neither the fallback 40×20 is used.
pub open spec fn preferred_spec(rw: Option<usize>, rh: Option<usize>) -> (int, int, bool, bool) {
    match (rw, rh) {
        (Some(w), Some(h)) => (w as int, h as int, false, false),
        (Some(w), None) => (w as int, half_up(w as int), false, true),
        (None, Some(h)) => (sat_usize(2 * h), h as int, true, false),
        (None, None) => (FALLBACK_WIDTH as int, FALLBACK_HEIGHT as int, true, true),
    }
}

/// Art plan for logo-only output.
pub open spec fn logo_only_spec(
    rw: Option<usize>,
    rh: Option<usize>,
    dims: Option<TerminalDimensions>,
) -> (int, int) {
    let (pw, ph, w_auto, h_auto) = preferred_spec(rw, rh);
    let width = if w_auto {
        match dims {
            Some(d) => min(pw, max(d.width as int, 1)),
            None => pw,
        }
    } else {
        pw
    };
    let height = if h_auto {
        match dims {
            Some(d) => min(half_up(width), max(d.height as int, 1)),
            None => min(half_up(width), ph),
        }
    } else {
        ph
    };
    (width, height)
}

/// Columns left for the art beside the information block and the gap.
pub open spec fn available_for_art(terminal_width: usize, info_width: usize) -> int {
    max(terminal_width - sat_usize(GAP + info_width), 0)
}

/// Automatic layout: side by side unless a terminal is known and the art
/// (the explicit width, or at least 20 columns) does not fit beside the
/// information.
pub open spec fn auto_layout_spec(
    dims: Option<TerminalDimensions>,
    rw: Option<usize>,
    info_width: usize,
) -> LayoutKind {
    match dims {
        None => LayoutKind::SideBySide,
        Some(d) => {
            let available = available_for_art(d.width, info_width);
            match rw {
                Some(w) => if w <= available {
                    LayoutKind::SideBySide
                } else {
                    LayoutKind::Stacked
                },
                None => if available >= PREFERRED_SIDE_MIN_WIDTH {
                    LayoutKind::SideBySide
                } else {
                    LayoutKind::Stacked
                },
            }
        },
    }
}

pub open spec fn layout_spec(
    choice: LayoutChoice,
    dims: Option<TerminalDimensions>,
    rw: Option<usize>,
    info_width: usize,
) -> LayoutKind {
    match choice {
        LayoutChoice::Auto => auto_layout_spec(dims, rw, info_width),
        LayoutChoice::SideBySide => LayoutKind::SideBySide,
        LayoutChoice::Stacked => LayoutKind::Stacked,
    }
}

/// Art plan beside the information block.
pub open spec fn side_by_side_spec(
    rw: Option<usize>,
    rh: Option<usize>,
    dims: Option<TerminalDimensions>,
    info_width: usize,
) -> (int, int) {
    let (pw, ph, w_auto, h_auto) = preferred_spec(rw, rh);
    let width = if w_auto {
        match dims {
            Some(d) => min(pw, max(available_for_art(d.width, info_width), 1)),
            None => pw,
        }
    } else {
        pw
    };
    let height = if h_auto {
        match dims {
            Some(d) => min(half_up(width), max(d.height as int, 1)),
            None => half_up(width),
        }
    } else {
        ph
    };
    (max(width, 1), max(height, 1))
}

/// Art plan above the information block: the height leaves room for the
/// information lines and one separator line.
pub open spec fn stacked_spec(
    rw: Option<usize>,
    rh: Option<usize>,
    dims: Option<TerminalDimensions>,
    info_lines: usize,
) -> (int, int) {
    let (pw, ph, w_auto, h_auto) = preferred_spec(rw, rh);
    let width = if w_auto {
        match dims {
            Some(d) => min(pw, max(d.width as int, 1)),
            None => pw,
        }
    } else {
        pw
    };
    let height = if h_auto {
        let reserved = if info_lines > 0 {
            sat_usize(info_lines + 1)
        } else {
            0
        };
        match dims {
            Some(d) => {
                let available = d.height - reserved;
                if available >= 1 {
                    min(half_up(width), available)
                } else {
                    1
                }
            },
            None => half_up(width),
        }
    } else {
        ph
    };
    (width, height)
}

pub open spec fn art_of(dims: (int, int)) -> ArtPlan {
    ArtPlan { width: dims.0 as usize, height: dims.1 as usize }
}

/// The display plan for a request.
pub open spec fn plan_spec(request: PlannerRequest) -> DisplayPlan {
    match request.output_mode {
        OutputMode::LogoOnly => DisplayPlan::LogoOnly {
            art: art_of(
                logo_only_spec(
                    request.requested_width,
                    request.requested_height,
                    request.terminal_dimensions,
                ),
            ),
        },
        OutputMode::Combined => {
            let layout = layout_spec(
                request.requested_layout,
                request.terminal_dimensions,
                request.requested_width,
                request.info_visible_width,
            );
            let art = match layout {
                LayoutKind::SideBySide => side_by_side_spec(
                    request.requested_width,
                    request.requested_height,
                    request.terminal_dimensions,
                    request.info_visible_width,
                ),
                LayoutKind::Stacked => stacked_spec(
                    request.requested_width,
                    request.requested_height,
                    request.terminal_dimensions,
                    request.info_line_count,
                ),
            };
            DisplayPlan::Combined { art: art_of(art), layout }
        },
    }
}

fn div_ceil2(v: usize) -> (r: usize)
    ensures
        r == half_up(v as int),
{
    v / 2 + v % 2
}

fn min_usize(a: usize, b: usize) -> (r: usize)
    ensures
        r == min(a as int, b as int),
{
    if a <= b {
        a
    } else {
        b
    }
}

fn max1(a: usize) -> (r: usize)
    ensures
        r == max(a as int, 1),
{
    if a >= 1 {
        a
    } else {
        1
    }
}

impl DisplayPlanner {
    /// Creates a new display planner.
    pub fn new() -> Self {
        DisplayPlanner
    }

    /// Plans the display for a request.
    pub fn plan(&self, request: PlannerRequest) -> (plan: DisplayPlan)
        ensures
            plan == plan_spec(request),
    {
        match request.output_mode {
            OutputMode::LogoOnly => {
                let art = self.plan_art_for_logo_only(
                    request.requested_width,
                    request.requested_height,
                    request.terminal_dimensions,
                );
                DisplayPlan::LogoOnly { art }
            },
            OutputMode::Combined => {
                let terminal_dims = request.terminal_dimensions;
                let info_width = request.info_visible_width;
                let info_lines = request.info_line_count;
                let layout = self.plan_layout(
                    request.requested_layout,
                    terminal_dims,
                    request.requested_width,
                    info_width,
                );
                let art = self.plan_art_for_layout(
                    request.requested_width,
                    request.requested_height,
                    terminal_dims,
                    info_width,
                    info_lines,
                    layout,
                );
                DisplayPlan::Combined { art, layout }
            },
        }
    }

    /// Art dimensions for logo-only output, adapted to the terminal.
    fn plan_art_for_logo_only(
        &self,
        requested_width: Option<usize>,
        requested_height: Option<usize>,
        terminal_dims: Option<TerminalDimensions>,
    ) -> (art: ArtPlan)
        ensures
            art == art_of(logo_only_spec(requested_width, requested_height, terminal_dims)),
    {
        let preferred = Self::derive_preferred_dimensions(requested_width, requested_height);
        let width = if preferred.width_is_automatic {
            match terminal_dims {
                Some(d) => min_usize(preferred.width, max1(d.width)),
                None => preferred.width,
            }
        } else {
            preferred.width
        };
        let height = if preferred.height_is_automatic {
            let derived_height = div_ceil2(width);
            match terminal_dims {
                Some(d) => min_usize(derived_height, max1(d.height)),
                None => min_usize(derived_height, preferred.height),
            }
        } else {
            preferred.height
        };
        ArtPlan { width, height }
    }

    /// Chooses the layout.
    fn plan_layout(
        &self,
        requested_layout: LayoutChoice,
        terminal_dims: Option<TerminalDimensions>,
        requested_width: Option<usize>,
        info_width: usize,
    ) -> (layout: LayoutKind)
        ensures
            layout == layout_spec(requested_layout, terminal_dims, requested_width, info_width),
    {
        match requested_layout {
            LayoutChoice::Auto => self.plan_auto_layout(terminal_dims, requested_width, info_width),
            LayoutChoice::SideBySide => LayoutKind::SideBySide,
            LayoutChoice::Stacked => LayoutKind::Stacked,
        }
    }

    /// Automatic layout from the terminal width.
    fn plan_auto_layout(
        &self,
        terminal_dims: Option<TerminalDimensions>,
        requested_width: Option<usize>,
        info_width: usize,
    ) -> (layout: LayoutKind)
        ensures
            layout == auto_layout_spec(terminal_dims, requested_width, info_width),
    {
        let terminal_width = match terminal_dims {
            Some(d) => d.width,
            None => {
                return LayoutKind::SideBySide;
            },
        };
        let occupied_by_info = GAP.saturating_add(info_width);
        let available_for_art = terminal_width.saturating_sub(occupied_by_info);
        if let Some(w) = requested_width {
            if w <= available_for_art {
                return LayoutKind::SideBySide;
            }
            return LayoutKind::Stacked;
        }
        if FALLBACK_WIDTH <= available_for_art {
            return LayoutKind::SideBySide;
        }
        if available_for_art >= PREFERRED_SIDE_MIN_WIDTH {
            return LayoutKind::SideBySide;
        }
        LayoutKind::Stacked
    }

    /// Art dimensions for the chosen layout.
    fn plan_art_for_layout(
        &self,
        requested_width: Option<usize>,
        requested_height: Option<usize>,
        terminal_dims: Option<TerminalDimensions>,
        info_width: usize,
        info_line_count: usize,
        layout: LayoutKind,
    ) -> (art: ArtPlan)
        ensures
            art == art_of(
                match layout {
                    LayoutKind::SideBySide => side_by_side_spec(
                        requested_width,
                        requested_height,
                        terminal_dims,
                        info_width,
                    ),
                    LayoutKind::Stacked => stacked_spec(
                        requested_width,
                        requested_height,
                        terminal_dims,
                        info_line_count,
                    ),
                },
            ),
    {
        match layout {
            LayoutKind::SideBySide => {
                let preferred = Self::derive_preferred_dimensions(
                    requested_width,
                    requested_height,
                );
                let final_width = if preferred.width_is_automatic {
                    match terminal_dims {
                        Some(d) => {
                            let available = d.width.saturating_sub(GAP.saturating_add(info_width));
                            min_usize(preferred.width, max1(available))
                        },
                        None => preferred.width,
                    }
                } else {
                    preferred.width
                };
                let derived_height = if preferred.height_is_automatic {
                    div_ceil2(final_width)
                } else {
                    preferred.height
                };
                let final_height = if preferred.height_is_automatic {
                    match terminal_dims {
                        Some(d) => min_usize(derived_height, max1(d.height)),
                        None => derived_height,
                    }
                } else {
                    preferred.height
                };
                ArtPlan { width: max1(final_width), height: max1(final_height) }
            },
            LayoutKind::Stacked => {
                self.plan_art_for_stacked(
                    requested_width,
                    requested_height,
                    terminal_dims,
                    info_line_count,
                )
            },
        }
    }

    /// Art dimensions for the stacked layout, leaving vertical room for the
    /// information.
    fn plan_art_for_stacked(
        &self,
        requested_width: Option<usize>,
        requested_height: Option<usize>,
        terminal_dims: Option<TerminalDimensions>,
        info_line_count: usize,
    ) -> (art: ArtPlan)
        ensures
            art == art_of(
                stacked_spec(requested_width, requested_height, terminal_dims, info_line_count),
            ),
    {
        let preferred = Self::derive_preferred_dimensions(requested_width, requested_height);
        let width = if preferred.width_is_automatic {
            match terminal_dims {
                Some(d) => min_usize(preferred.width, max1(d.width)),
                None => preferred.width,
            }
        } else {
            preferred.width
        };
        let preferred_height = div_ceil2(width);
        let height = if preferred.height_is_automatic {
            let reserved = if info_line_count > 0 {
                info_line_count.saturating_add(1)
            } else {
                0
            };
            match terminal_dims {
                Some(d) => {
                    let available_art_height = d.height.saturating_sub(reserved);
                    if available_art_height >= 1 {
                        min_usize(preferred_height, available_art_height)
                    } else {
                        1
                    }
                },
                None => min_usize(preferred_height, preferred_height),
            }
        } else {
            preferred.height
        };
        ArtPlan { width, height }
    }

    /// Preferred dimensions and which of them are automatic.
    fn derive_preferred_dimensions(
        requested_width: Option<usize>,
        requested_height: Option<usize>,
    ) -> (p: PreferredArt)
        ensures
            preferred_spec(requested_width, requested_height) == (
                p.width as int,
                p.height as int,
                p.width_is_automatic,
                p.height_is_automatic,
            ),
    {
        match (requested_width, requested_height) {
            (Some(w), Some(h)) => PreferredArt {
                width: w,
                height: h,
                width_is_automatic: false,
                height_is_automatic: false,
            },
            (Some(w), None) => PreferredArt {
                width: w,
                height: div_ceil2(w),
                width_is_automatic: false,
                height_is_automatic: true,
            },
            (None, Some(h)) => {
                let width = match h.checked_mul(2) {
                    Some(v) => v,
                    None => usize::MAX,
                };
                PreferredArt {
                    width,
                    height: h,
                    width_is_automatic: true,
                    height_is_automatic: false,
                }
            },
            (None, None) => PreferredArt {
                width: FALLBACK_WIDTH,
                height: FALLBACK_HEIGHT,
                width_is_automatic: true,
                height_is_automatic: true,
            },
        }
    }
}

/// The logo-only plan depends only on the terminal and the requested
/// dimensions: the information block and the requested layout never change
/// it.
pub proof fn lemma_logo_only_ignores_info(a: PlannerRequest, b: PlannerRequest)
    requires
        a.output_mode == OutputMode::LogoOnly,
        b.output_mode == OutputMode::LogoOnly,
        a.terminal_dimensions == b.terminal_dimensions,
        a.requested_width == b.requested_width,
        a.requested_height == b.requested_height,
    ensures
        plan_spec(a) == plan_spec(b),
{
}

/// The art of a plan.
pub open spec fn plan_art(plan: DisplayPlan) -> ArtPlan {
    match plan {
        DisplayPlan::LogoOnly { art } => art,
        DisplayPlan::Combined { art, .. } => art,
    }
}

/// An explicit (non-zero) width or height is used exactly, whatever the
/// terminal, the layout or the information block.
pub proof fn lemma_explicit_dimensions_honored(request: PlannerRequest)
    ensures
        request.requested_width matches Some(w) ==> (w >= 1 ==> plan_art(plan_spec(request)).width
            == w),
        request.requested_height matches Some(h) ==> (h >= 1 ==> plan_art(
            plan_spec(request),
        ).height == h),
{
}

/// With automatic or non-zero requested dimensions the art is never empty.
pub proof fn lemma_art_never_empty(request: PlannerRequest)
    requires
        request.requested_width matches Some(w) ==> w >= 1,
        request.requested_height matches Some(h) ==> h >= 1,
    ensures
        plan_art(plan_spec(request)).width >= 1,
        plan_art(plan_spec(request)).height >= 1,
{
}

/// Automatic dimensions never exceed what the terminal offers: an automatic
/// width fits the terminal (beside the information block when side by
/// side), an automatic height fits the terminal height (minus the
/// information block and its separator when stacked, as long as one row is
/// left), and an automatic height keeps the 2:1 cell aspect ratio as an
/// upper bound.
pub proof fn lemma_automatic_dimensions_fit(request: PlannerRequest, d: TerminalDimensions)
    requires
        request.terminal_dimensions == Some(d),
    ensures
        ({
            let art = plan_art(plan_spec(request));
            let side_by_side = request.output_mode == OutputMode::Combined && layout_spec(
                request.requested_layout,
                request.terminal_dimensions,
                request.requested_width,
                request.info_visible_width,
            ) == LayoutKind::SideBySide;
            &&& request.requested_width is None && !side_by_side ==> art.width <= max(
                d.width as int,
                1,
            )
            &&& request.requested_width is None && side_by_side ==> art.width <= max(
                available_for_art(d.width, request.info_visible_width),
                1,
            )
            &&& request.requested_height is None && (request.output_mode == OutputMode::LogoOnly
                || side_by_side) ==> art.height <= max(d.height as int, 1)
            &&& request.requested_height is None ==> art.height <= max(half_up(art.width as int), 1)
        }),
{
}

/// Without a terminal, the automatic layout is side by side.
pub proof fn lemma_no_terminal_side_by_side(rw: Option<usize>, info_width: usize)
    ensures
        auto_layout_spec(None, rw, info_width) == LayoutKind::SideBySide,
{
}

/// Without a known terminal, an automatic art height keeps the 2:1 cell
/// aspect ratio exactly: it is half the planned width, rounded up, in every
/// output mode and layout, whatever the information block holds.
pub proof fn lemma_no_terminal_height_is_half_width(request: PlannerRequest)
    requires
        request.terminal_dimensions is None,
        request.requested_height is None,
    ensures
        ({
            let art = plan_art(plan_spec(request));
            2 * art.height == art.width || 2 * art.height == art.width + 1
        }),
{
}

/// A stacked plan with an automatic height on a known terminal that has
/// room below the art for the information lines and their separator line
/// uses that room: the art plus the reserved lines never exceed the
/// terminal height, and the art is either half its width tall (rounded up)
/// or exactly as tall as the room left.
pub proof fn lemma_stacked_height_uses_room(request: PlannerRequest, d: TerminalDimensions)
    requires
        request.terminal_dimensions == Some(d),
        request.requested_height is None,
        request.output_mode == OutputMode::Combined,
        plan_spec(request) matches DisplayPlan::Combined { layout: LayoutKind::Stacked, .. },
        request.info_line_count > 0 ==> d.height > request.info_line_count + 1,
        request.info_line_count == 0 ==> d.height >= 1,
        request.requested_width matches Some(w) ==> w >= 1,
    ensures
        ({
            let art = plan_art(plan_spec(request));
            let reserved: int = if request.info_line_count > 0 {
                request.info_line_count + 1
            } else {
                0
            };
            &&& art.height >= 1
            &&& art.height + reserved <= d.height
            &&& (2 * art.height == art.width || 2 * art.height == art.width + 1 || art.height
                + reserved == d.height)
        }),
{
}

} // verus!
