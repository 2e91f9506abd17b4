//! Application decisions: which path a run takes, which renderer and palette
//! a request resolves to, the frame contexts of the intro, and the text of
//! the system-information column.

use vstd::prelude::*;
use crate::animation::IntroOutcome;
use crate::cli::{Args, ArtModel as CliModel, Command, PaletteChoice, RendererChoice};
use crate::color::ColorPalette;
use crate::display_plan::{OutputMode, PlannerRequest};
use crate::engine::ArtModel;
use crate::error::AppError;
use crate::render::{EffectiveRenderer, StarTwinkleFrame};
use crate::color::RESET;
use crate::ansi::str_eq;
use crate::layout::{spaces, views};
use crate::terminal::{
    ends_ground, is_csi_sequence, lemma_csi_sequence, lemma_plain_ground, lemma_plain_width,
    lemma_width_concat, visible_width, visible_width_spec, Terminal, TerminalDimensions,
};
use crate::text::{push_char, push_str};

verus! {

/// The palette a palette choice resolves to: `Auto` is `Nebula`, every
/// other choice is itself.
pub open spec fn palette_spec(requested: PaletteChoice) -> ColorPalette {
    match requested {
        PaletteChoice::Auto | PaletteChoice::Nebula => ColorPalette::Nebula,
        PaletteChoice::Cividis => ColorPalette::Cividis,
        PaletteChoice::Amber => ColorPalette::Amber,
        PaletteChoice::Mono => ColorPalette::Mono,
    }
}

/// Resolves the effective color palette from the CLI palette choice.
pub fn resolve_color_palette(requested: PaletteChoice) -> (palette: ColorPalette)
    ensures
        palette == palette_spec(requested),
{
    match requested {
        PaletteChoice::Auto | PaletteChoice::Nebula => ColorPalette::Nebula,
        PaletteChoice::Cividis => ColorPalette::Cividis,
        PaletteChoice::Amber => ColorPalette::Amber,
        PaletteChoice::Mono => ColorPalette::Mono,
    }
}

/// Which system fields are collected.
#[derive(Debug, Clone, Copy, PartialEq, Eq)]
pub enum CollectionProfile {
    /// Every field, with the `user@host` header.
    Full,
    /// The short field set, without header.
    Compact,
}

/// The engine model of a requested CLI model.
pub open spec fn engine_model_spec(model: CliModel) -> ArtModel {
    match model {
        CliModel::Random => ArtModel::Random,
        CliModel::Elliptical => ArtModel::Elliptical,
        CliModel::Spiral => ArtModel::Spiral,
        CliModel::Cluster => ArtModel::Cluster,
        CliModel::Starfield => ArtModel::Starfield,
    }
}

/// Maps the requested CLI model to the engine model of the same name.
pub fn engine_model_for(model: CliModel) -> (m: ArtModel)
    ensures
        m == engine_model_spec(model),
{
    match model {
        CliModel::Random => ArtModel::Random,
        CliModel::Elliptical => ArtModel::Elliptical,
        CliModel::Spiral => ArtModel::Spiral,
        CliModel::Cluster => ArtModel::Cluster,
        CliModel::Starfield => ArtModel::Starfield,
    }
}

/// Message of a quadrant request for a model other than the spiral.
pub const QUADRANT_SPIRAL_ONLY_MESSAGE: &'static str =
    "the quadrant renderer currently supports the spiral model only; use --model spiral with --renderer quadrant";

/// Message of a renderer selection that receives an unresolved model.
pub const UNRESOLVED_RANDOM_MESSAGE: &'static str =
    "unresolved Random model reached renderer selection (internal error)";

/// Message of a quadrant request for the random model.
pub const RANDOM_QUADRANT_MESSAGE: &'static str =
    "the quadrant renderer cannot be combined with the random model; choose a concrete model (e.g. --model spiral)";

/// Message of a starfield density handed to a galaxy renderer.
pub const STARFIELD_DENSITY_MESSAGE: &'static str =
    "Starfield density cannot be rendered with galaxy renderers";

/// Message of a galaxy density handed to the starfield renderer.
pub const GALAXY_DENSITY_MESSAGE: &'static str =
    "Galaxy density cannot be rendered with starfield renderer";

/// The renderer a request resolves to for a resolved model, or the error
/// it is refused with: `Auto` picks the starfield renderer for the
/// starfield and half blocks for the galaxies; half blocks, shades and
/// ASCII work for every model; the quadrant renderer works for the spiral
/// only; an unresolved random model is an internal error.
pub open spec fn effective_renderer_spec(requested: RendererChoice, model: ArtModel) -> Result<
    EffectiveRenderer,
    (bool, Seq<char>),
> {
    if model == ArtModel::Random {
        Err((false, UNRESOLVED_RANDOM_MESSAGE@))
    } else {
        match requested {
            RendererChoice::Auto => if model == ArtModel::Starfield {
                Ok(EffectiveRenderer::Starfield)
            } else {
                Ok(EffectiveRenderer::HalfBlock)
            },
            RendererChoice::HalfBlock => Ok(EffectiveRenderer::HalfBlock),
            RendererChoice::Shade => Ok(EffectiveRenderer::Shade),
            RendererChoice::Ascii => Ok(EffectiveRenderer::Ascii),
            RendererChoice::Quadrant => if model == ArtModel::Spiral {
                Ok(EffectiveRenderer::Quadrant)
            } else {
                Err((true, QUADRANT_SPIRAL_ONLY_MESSAGE@))
            },
        }
    }
}

/// An `AppError` matches an error description: a CLI error when the flag
/// is set, a render error otherwise, with the given text.
pub open spec fn error_matches(e: AppError, expected: (bool, Seq<char>)) -> bool {
    if expected.0 {
        e matches AppError::Cli(m) && m@ == expected.1
    } else {
        e matches AppError::Render(m) && m@ == expected.1
    }
}

/// The main application: its parsed arguments and terminal capabilities.
pub struct App {
    args: Args,
    terminal: Terminal,
}

impl App {
    /// The arguments of this run.
    pub closed spec fn spec_args(&self) -> Args {
        self.args
    }

    /// The terminal capabilities of this run.
    pub closed spec fn spec_terminal(&self) -> Terminal {
        self.terminal
    }

    /// An application for parsed arguments and detected capabilities.
    pub fn from_parts(args: Args, terminal: Terminal) -> (app: Self)
        ensures
            app.spec_args() == args,
            app.spec_terminal() == terminal,
    {
        App { args, terminal }
    }

    /// The parsed arguments.
    pub fn args(&self) -> (a: &Args)
        ensures
            *a == self.spec_args(),
    {
        &self.args
    }

    /// The detected terminal capabilities.
    pub fn terminal(&self) -> (t: Terminal)
        ensures
            t == self.spec_terminal(),
    {
        self.terminal
    }

    /// Compact output collects the compact field set, every other run the
    /// full one.
    pub fn collection_profile(&self) -> (p: CollectionProfile)
        ensures
            p == (if self.spec_args().compact {
                CollectionProfile::Compact
            } else {
                CollectionProfile::Full
            }),
    {
        if self.args.compact {
            CollectionProfile::Compact
        } else {
            CollectionProfile::Full
        }
    }

    /// Colors are written unless `--no-color` is given or the terminal
    /// does not support them.
    pub fn info_colors_enabled(&self) -> (b: bool)
        ensures
            b == (!self.spec_args().no_color && self.spec_terminal().colors_enabled),
    {
        !self.args.no_color && self.terminal.colors_enabled()
    }

    /// The terminal the output is written with: the detected one, with
    /// colors switched off by `--no-color`.
    pub fn output_terminal(&self) -> (t: Terminal)
        ensures
            t.is_tty == self.spec_terminal().is_tty,
            t.colors_enabled == (!self.spec_args().no_color && self.spec_terminal().colors_enabled),
    {
        let colors_enabled = if self.args.no_color {
            false
        } else {
            self.terminal.colors_enabled()
        };
        Terminal { is_tty: self.terminal.is_tty, colors_enabled }
    }

    /// Resolves the effective renderer from the requested renderer choice
    /// and the resolved model.
    pub fn resolve_effective_renderer(requested: RendererChoice, resolved_model: ArtModel) -> (r: Result<
        EffectiveRenderer,
        AppError,
    >)
        ensures
            match effective_renderer_spec(requested, resolved_model) {
                Ok(e) => r == Ok::<EffectiveRenderer, AppError>(e),
                Err(d) => r matches Err(e) && error_matches(e, d),
            },
    {
        match (resolved_model, requested) {
            (ArtModel::Random, _) => Err(AppError::Render(UNRESOLVED_RANDOM_MESSAGE.to_owned())),
            (ArtModel::Starfield, RendererChoice::Auto) => Ok(EffectiveRenderer::Starfield),
            (_, RendererChoice::Auto) => Ok(EffectiveRenderer::HalfBlock),
            (_, RendererChoice::HalfBlock) => Ok(EffectiveRenderer::HalfBlock),
            (_, RendererChoice::Shade) => Ok(EffectiveRenderer::Shade),
            (_, RendererChoice::Ascii) => Ok(EffectiveRenderer::Ascii),
            (ArtModel::Spiral, RendererChoice::Quadrant) => Ok(EffectiveRenderer::Quadrant),
            (_, RendererChoice::Quadrant) => Err(Self::quadrant_unsupported_model_error()),
        }
    }

    /// The error for an explicit quadrant request on a model other than the
    /// spiral.
    pub fn quadrant_unsupported_model_error() -> (e: AppError)
        ensures
            e matches AppError::Cli(m) && m@ == QUADRANT_SPIRAL_ONLY_MESSAGE@,
    {
        AppError::Cli(QUADRANT_SPIRAL_ONLY_MESSAGE.to_owned())
    }

    /// A quadrant request for the random model is refused before the scene
    /// is resolved, whatever model the seed would pick.
    pub fn check_random_quadrant(&self, engine_model: ArtModel) -> (r: Result<(), AppError>)
        ensures
            engine_model == ArtModel::Random && self.spec_args().renderer == RendererChoice::Quadrant
                ==> (r matches Err(AppError::Cli(m)) && m@ == RANDOM_QUADRANT_MESSAGE@),
            !(engine_model == ArtModel::Random && self.spec_args().renderer == RendererChoice::Quadrant)
                ==> r is Ok,
    {
        if engine_model == ArtModel::Random && self.args.renderer == RendererChoice::Quadrant {
            Err(AppError::Cli(RANDOM_QUADRANT_MESSAGE.to_owned()))
        } else {
            Ok(())
        }
    }

    /// The path this run takes.
    pub fn execution_path(&self) -> (p: ExecutionPath)
        ensures
            p == execution_path_spec(self.spec_args()),
    {
        match &self.args.command {
            Some(Command::SetupShell(_)) => ExecutionPath::SetupShell,
            Some(Command::UninstallShell(_)) => ExecutionPath::UninstallShell,
            None => {
                if self.args.info_only {
                    ExecutionPath::InfoOnly
                } else if self.args.logo_only {
                    ExecutionPath::LogoOnly
                } else {
                    ExecutionPath::Combined
                }
            },
        }
    }

    /// Builds the information column: the `user@host` header (full output
    /// only), the collected fields of the field set in display order, the
    /// disk details after the `Disk` line when requested, every value
    /// aligned one column after the widest label.
    pub fn build_info_lines(&self, system: &SystemSnapshot) -> (lines: Vec<String>)
        ensures
            views(lines@) == info_lines_spec(
                self.spec_args(),
                !self.spec_args().no_color && self.spec_terminal().colors_enabled,
                system.spec_user_host(),
                system.spec_fields(),
                system.spec_disk_details(),
            ),
    {
        let colors_enabled = self.info_colors_enabled();
        let mut lines: Vec<String> = Vec::new();
        if !self.args.compact {
            lines.push(format_header(system.user_host(), colors_enabled));
        }
        let ghost header = views(lines@);
        let listed = display_fields(system, self.args.compact);
        let all = if self.args.disk_details {
            let details = system.disk_detail_lines();
            splice_disk_detail_lines(listed, details)
        } else {
            listed
        };
        let width = label_width(all.as_slice());
        let ghost av = info_views(all@);
        let mut i: usize = 0;
        while i < all.len()
            invariant
                i <= all@.len(),
                av == info_views(all@),
                width == max_label_width(av),
                views(lines@) == header + Seq::new(
                    i as nat,
                    |j: int| info_line_spec(av[j].0, av[j].1, width as nat, colors_enabled),
                ),
            decreases all@.len() - i,
        {
            let line = format_info_line(&all[i], width, colors_enabled);
            let ghost before = lines@;
            lines.push(line);
            proof {
                assert(views(lines@) =~= views(before).push(line@));
                assert(views(lines@) =~= header + Seq::new(
                    (i + 1) as nat,
                    |j: int| info_line_spec(av[j].0, av[j].1, width as nat, colors_enabled),
                ));
            }
            i = i + 1;
        }
        proof {
            assert(views(lines@) =~= info_lines_spec(
                self.args,
                colors_enabled,
                system.spec_user_host(),
                system.spec_fields(),
                system.spec_disk_details(),
            ));
        }
        lines
    }

    /// The planner request of a logo-only or combined run, given the
    /// terminal size and the information lines shown beside the art.
    pub fn planner_request(
        &self,
        terminal_dimensions: Option<TerminalDimensions>,
        output_mode: OutputMode,
        info_lines: &[String],
    ) -> (request: PlannerRequest)
        ensures
            request.terminal_dimensions == terminal_dimensions,
            request.requested_width == self.spec_args().width,
            request.requested_height == self.spec_args().height,
            request.requested_layout == self.spec_args().layout,
            request.output_mode == output_mode,
            request.info_visible_width == max_visible_width(info_lines@),
            request.info_line_count == info_lines@.len(),
    {
        PlannerRequest {
            terminal_dimensions,
            requested_width: self.args.width,
            requested_height: self.args.height,
            requested_layout: self.args.layout,
            output_mode,
            info_visible_width: visible_width_max(info_lines),
            info_line_count: info_lines.len(),
        }
    }
}


/// Header color of the `user@host` line.
pub const HEADER_COLOR: &'static str = "\x1b[93m";

/// Color of the field labels.
pub const LABEL_COLOR: &'static str = "\x1b[94m";

/// Color of the field values.
pub const VALUE_COLOR: &'static str = "\x1b[97m";

/// Labels of the full field set, in display order.
pub const FULL_FIELD_ORDER: [&'static str; 16] = [
    "OS",
    "Kernel",
    "Uptime",
    "Packages",
    "Shell",
    "Resolution",
    "DE",
    "WM",
    "WM Theme",
    "GTK Theme",
    "Icon Theme",
    "Font",
    "Disk",
    "CPU",
    "GPU",
    "RAM",
];

/// Labels of the compact field set, in display order.
pub const COMPACT_FIELD_ORDER: [&'static str; 6] = ["OS", "Kernel", "Uptime", "Disk", "CPU", "RAM"];

/// Label after which the per-filesystem disk details are listed.
pub const DISK_LABEL: &'static str = "Disk";

/// The value recorded last for `label`, if any.
pub open spec fn field_value(fields: Seq<(String, String)>, label: Seq<char>) -> Option<Seq<char>>
    decreases fields.len(),
{
    if fields.len() == 0 {
        None
    } else if fields.last().0@ == label {
        Some(fields.last().1@)
    } else {
        field_value(fields.drop_last(), label)
    }
}

/// Collected system information: the `user@host` header, the named fields,
/// and the per-filesystem disk details.
pub struct SystemSnapshot {
    user_host: String,
    fields: Vec<(String, String)>,
    disk_details: Vec<(String, String)>,
}

/// The views of label/value pairs.
pub open spec fn pair_views(pairs: Seq<(String, String)>) -> Seq<(Seq<char>, Seq<char>)> {
    Seq::new(pairs.len(), |i: int| (pairs[i].0@, pairs[i].1@))
}

impl SystemSnapshot {
    /// The `user@host` header.
    pub closed spec fn spec_user_host(&self) -> Seq<char> {
        self.user_host@
    }

    /// The `user@host` header.
    pub fn user_host(&self) -> (s: &str)
        ensures
            s@ == self.spec_user_host(),
    {
        self.user_host.as_str()
    }

    /// The recorded fields, in recording order.
    pub closed spec fn spec_fields(&self) -> Seq<(String, String)> {
        self.fields@
    }

    /// The per-filesystem disk details, in order.
    pub closed spec fn spec_disk_details(&self) -> Seq<(Seq<char>, Seq<char>)> {
        pair_views(self.disk_details@)
    }

    /// The value of a field, if it was collected.
    pub open spec fn value_of(&self, label: Seq<char>) -> Option<Seq<char>> {
        field_value(self.spec_fields(), label)
    }

    /// A snapshot with a header and no field.
    pub fn new(user_host: String) -> (s: Self)
        ensures
            s.spec_user_host() == user_host@,
            forall|label: Seq<char>| #[trigger] s.value_of(label) is None,
            s.spec_disk_details() == Seq::<(Seq<char>, Seq<char>)>::empty(),
    {
        let s = SystemSnapshot { user_host, fields: Vec::new(), disk_details: Vec::new() };
        assert(s.spec_disk_details() =~= Seq::<(Seq<char>, Seq<char>)>::empty());
        s
    }

    /// Records the value of a field, replacing an earlier one.
    pub fn insert(&mut self, label: String, value: String)
        ensures
            final(self).value_of(label@) == Some(value@),
            forall|other: Seq<char>| other != label@ ==> #[trigger] final(self).value_of(other) == old(
                self,
            ).value_of(other),
            final(self).spec_user_host() == old(self).spec_user_host(),
            final(self).spec_disk_details() == old(self).spec_disk_details(),
    {
        let ghost before = self.fields@;
        self.fields.push((label, value));
        proof {
            assert(self.fields@.drop_last() =~= before);
        }
    }

    /// Appends one per-filesystem disk detail.
    pub fn push_disk_detail(&mut self, label: String, value: String)
        ensures
            final(self).spec_disk_details() == old(self).spec_disk_details().push((label@, value@)),
            final(self).spec_fields() == old(self).spec_fields(),
            final(self).spec_user_host() == old(self).spec_user_host(),
    {
        let ghost before = self.disk_details@;
        self.disk_details.push((label, value));
        proof {
            assert(pair_views(self.disk_details@) =~= pair_views(before).push((label@, value@)));
        }
    }

    /// The value of a field, if it was collected.
    pub fn get(&self, label: &str) -> (v: Option<String>)
        ensures
            match v {
                Some(s) => self.value_of(label@) == Some(s@),
                None => self.value_of(label@) is None,
            },
    {
        let mut i = self.fields.len();
        proof {
            assert(self.fields@.take(i as int) =~= self.fields@);
        }
        while i > 0
            invariant
                i <= self.fields@.len(),
                field_value(self.fields@, label@) == field_value(self.fields@.take(i as int), label@),
            decreases i,
        {
            let ghost prefix = self.fields@.take(i as int);
            proof {
                assert(prefix.drop_last() =~= self.fields@.take(i - 1));
            }
            if str_eq(self.fields[i - 1].0.as_str(), label) {
                return Some(self.fields[i - 1].1.clone());
            }
            i = i - 1;
        }
        None
    }

    /// The per-filesystem disk details as information lines.
    pub fn disk_detail_lines(&self) -> (lines: Vec<InfoLine>)
        ensures
            info_views(lines@) == self.spec_disk_details(),
    {
        let mut lines: Vec<InfoLine> = Vec::new();
        let mut i: usize = 0;
        while i < self.disk_details.len()
            invariant
                i <= self.disk_details@.len(),
                info_views(lines@) == pair_views(self.disk_details@).take(i as int),
            decreases self.disk_details@.len() - i,
        {
            let label = self.disk_details[i].0.clone();
            let value = self.disk_details[i].1.clone();
            assert(label@ == self.disk_details@[i as int].0@);
            assert(value@ == self.disk_details@[i as int].1@);
            let ghost before = lines@;
            lines.push(InfoLine { label, value });
            proof {
                assert(info_views(lines@) =~= info_views(before).push(pair_views(self.disk_details@)[i as int]));
                assert(pair_views(self.disk_details@).take(i + 1) =~= pair_views(self.disk_details@).take(
                    i as int,
                ).push(pair_views(self.disk_details@)[i as int]));
            }
            i = i + 1;
        }
        proof {
            assert(pair_views(self.disk_details@).take(i as int) =~= pair_views(self.disk_details@));
        }
        lines
    }
}

/// One line of the information column.
#[derive(Debug)]
pub struct InfoLine {
    pub label: String,
    pub value: String,
}

/// The views of information lines.
pub open spec fn info_views(lines: Seq<InfoLine>) -> Seq<(Seq<char>, Seq<char>)> {
    Seq::new(lines.len(), |i: int| (lines[i].label@, lines[i].value@))
}

/// The labels of a field set, in display order.
pub open spec fn field_order(compact: bool) -> Seq<Seq<char>> {
    if compact {
        COMPACT_FIELD_ORDER@.map_values(|l: &'static str| l@)
    } else {
        FULL_FIELD_ORDER@.map_values(|l: &'static str| l@)
    }
}

/// The fields of `order` that were collected, in that order, with their
/// values.
pub open spec fn present_fields(order: Seq<Seq<char>>, fields: Seq<(String, String)>) -> Seq<
    (Seq<char>, Seq<char>),
>
    decreases order.len(),
{
    if order.len() == 0 {
        Seq::empty()
    } else {
        let rest = present_fields(order.drop_last(), fields);
        match field_value(fields, order.last()) {
            Some(v) => rest.push((order.last(), v)),
            None => rest,
        }
    }
}

/// Index of the first line labelled `label`.
pub open spec fn first_label_index(lines: Seq<(Seq<char>, Seq<char>)>, label: Seq<char>) -> Option<int>
    decreases lines.len(),
{
    if lines.len() == 0 {
        None
    } else {
        match first_label_index(lines.drop_last(), label) {
            Some(k) => Some(k),
            None => if lines.last().0 == label {
                Some(lines.len() - 1)
            } else {
                None
            },
        }
    }
}

/// The disk details listed right after the `Disk` line, or at the end
/// when there is none.
pub open spec fn splice_disk_details(
    lines: Seq<(Seq<char>, Seq<char>)>,
    details: Seq<(Seq<char>, Seq<char>)>,
) -> Seq<(Seq<char>, Seq<char>)> {
    if details.len() == 0 {
        lines
    } else {
        match first_label_index(lines, DISK_LABEL@) {
            Some(k) => lines.take(k + 1) + details + lines.skip(k + 1),
            None => lines + details,
        }
    }
}

/// Largest visible width of the labels, `0` when there is none.
pub open spec fn max_label_width(lines: Seq<(Seq<char>, Seq<char>)>) -> nat
    decreases lines.len(),
{
    if lines.len() == 0 {
        0
    } else {
        let rest = max_label_width(lines.drop_last());
        let w = visible_width_spec(lines.last().0);
        if w > rest {
            w
        } else {
            rest
        }
    }
}

/// The `user@host` header, colored when colors are on.
pub open spec fn header_spec(text: Seq<char>, colors_enabled: bool) -> Seq<char> {
    if colors_enabled {
        HEADER_COLOR@ + text + RESET@
    } else {
        text
    }
}

/// One information line: the label and a colon, padding that aligns the
/// values one column after the widest label, then the value.
pub open spec fn info_line_spec(label: Seq<char>, value: Seq<char>, label_width: nat, colors_enabled: bool) -> Seq<
    char,
> {
    let pad = spaces(
        ((if label_width >= visible_width_spec(label) {
            label_width - visible_width_spec(label)
        } else {
            0
        }) + 1) as nat,
    );
    if colors_enabled {
        LABEL_COLOR@ + label + ":"@ + RESET@ + pad + VALUE_COLOR@ + value + RESET@
    } else {
        label + ":"@ + pad + value
    }
}

/// The information column of a run.
pub open spec fn info_lines_spec(
    args: Args,
    colors_enabled: bool,
    user_host: Seq<char>,
    fields: Seq<(String, String)>,
    details: Seq<(Seq<char>, Seq<char>)>,
) -> Seq<Seq<char>> {
    let header = if args.compact {
        Seq::<Seq<char>>::empty()
    } else {
        seq![header_spec(user_host, colors_enabled)]
    };
    let all = info_entries(args, fields, details);
    let w = max_label_width(all);
    header + Seq::new(all.len(), |i: int| info_line_spec(all[i].0, all[i].1, w, colors_enabled))
}

/// The labelled entries of the information column: the present fields in
/// display order, with the disk details spliced in when requested.
pub open spec fn info_entries(
    args: Args,
    fields: Seq<(String, String)>,
    details: Seq<(Seq<char>, Seq<char>)>,
) -> Seq<(Seq<char>, Seq<char>)> {
    let listed = present_fields(field_order(args.compact), fields);
    if args.disk_details {
        splice_disk_details(listed, details)
    } else {
        listed
    }
}

/// The `user@host` header line.
pub fn format_header(text: &str, colors_enabled: bool) -> (s: String)
    ensures
        s@ == header_spec(text@, colors_enabled),
{
    let mut s = String::new();
    if colors_enabled {
        push_str(&mut s, HEADER_COLOR);
        push_str(&mut s, text);
        push_str(&mut s, RESET);
    } else {
        push_str(&mut s, text);
    }
    s
}

/// One formatted information line.
pub fn format_info_line(line: &InfoLine, label_width: usize, colors_enabled: bool) -> (s: String)
    ensures
        s@ == info_line_spec(line.label@, line.value@, label_width as nat, colors_enabled),
{
    let lw = visible_width(line.label.as_str());
    let pad_len: usize = if label_width >= lw {
        label_width - lw
    } else {
        0
    };
    let mut pad = String::new();
    let mut k: usize = 0;
    while k < pad_len
        invariant
            k <= pad_len,
            pad@ == spaces(k as nat),
        decreases pad_len - k,
    {
        push_char(&mut pad, ' ');
        proof {
            assert(pad@ =~= spaces((k + 1) as nat));
        }
        k = k + 1;
    }
    push_char(&mut pad, ' ');
    proof {
        assert(pad@ =~= spaces((pad_len + 1) as nat));
    }
    let mut s = String::new();
    if colors_enabled {
        push_str(&mut s, LABEL_COLOR);
        push_str(&mut s, line.label.as_str());
        push_str(&mut s, ":");
        push_str(&mut s, RESET);
        push_str(&mut s, pad.as_str());
        push_str(&mut s, VALUE_COLOR);
        push_str(&mut s, line.value.as_str());
        push_str(&mut s, RESET);
    } else {
        push_str(&mut s, line.label.as_str());
        push_str(&mut s, ":");
        push_str(&mut s, pad.as_str());
        push_str(&mut s, line.value.as_str());
    }
    s
}

/// The collected fields of a field set, in display order.
pub fn display_fields(system: &SystemSnapshot, compact: bool) -> (lines: Vec<InfoLine>)
    ensures
        info_views(lines@) == present_fields(field_order(compact), system.spec_fields()),
{
    let order: &[&'static str] = if compact {
        COMPACT_FIELD_ORDER.as_slice()
    } else {
        FULL_FIELD_ORDER.as_slice()
    };
    let ghost ord = field_order(compact);
    assert(order@.map_values(|l: &'static str| l@) =~= ord);
    let mut lines: Vec<InfoLine> = Vec::new();
    let mut i: usize = 0;
    while i < order.len()
        invariant
            i <= order@.len(),
            ord == order@.map_values(|l: &'static str| l@),
            info_views(lines@) == present_fields(ord.take(i as int), system.spec_fields()),
        decreases order@.len() - i,
    {
        let label = order[i];
        proof {
            assert(ord.take(i + 1).drop_last() =~= ord.take(i as int));
            assert(ord.take(i + 1).last() == label@);
        }
        match system.get(label) {
            Some(value) => {
                lines.push(InfoLine { label: label.to_owned(), value });
                proof {
                    assert(info_views(lines@) =~= present_fields(ord.take(i + 1), system.spec_fields()));
                }
            },
            None => {},
        }
        i = i + 1;
    }
    proof {
        assert(ord.take(order@.len() as int) =~= ord);
    }
    lines
}

/// A first match in a prefix is the first match of the whole sequence.
proof fn lemma_first_label_index_prefix(lines: Seq<(Seq<char>, Seq<char>)>, label: Seq<char>, j: int)
    requires
        0 <= j <= lines.len(),
        first_label_index(lines.take(j), label) is Some,
    ensures
        first_label_index(lines, label) == first_label_index(lines.take(j), label),
    decreases lines.len() - j,
{
    if j < lines.len() {
        assert(lines.take(j + 1).drop_last() =~= lines.take(j));
        lemma_first_label_index_prefix(lines, label, j + 1);
    } else {
        assert(lines.take(j) =~= lines);
    }
}

/// Lists the disk details right after the `Disk` line (at the end when
/// there is none).
pub fn splice_disk_detail_lines(lines: Vec<InfoLine>, details: Vec<InfoLine>) -> (r: Vec<InfoLine>)
    ensures
        info_views(r@) == splice_disk_details(info_views(lines@), info_views(details@)),
{
    if details.len() == 0 {
        proof {
            assert(info_views(details@) =~= Seq::<(Seq<char>, Seq<char>)>::empty());
        }
        return lines;
    }
    let ghost lv = info_views(lines@);
    let ghost dv = info_views(details@);
    let mut k: usize = 0;
    let mut found = false;
    while k < lines.len() && !found
        invariant
            k <= lines@.len(),
            lv == info_views(lines@),
            !found ==> first_label_index(lv.take(k as int), DISK_LABEL@) is None,
            found ==> k < lines@.len() && first_label_index(lv, DISK_LABEL@) == Some(k as int),
        decreases lines@.len() - k + (if found { 0int } else { 1int }),
    {
        proof {
            assert(lv.take(k + 1).drop_last() =~= lv.take(k as int));
        }
        if str_eq(lines[k].label.as_str(), DISK_LABEL) {
            found = true;
            proof {
                lemma_first_label_index_prefix(lv, DISK_LABEL@, k + 1);
            }
        } else {
            k = k + 1;
        }
    }
    proof {
        if !found {
            assert(lv.take(lines@.len() as int) =~= lv);
        }
    }
    let split = if found {
        k + 1
    } else {
        lines.len()
    };
    let mut head = lines;
    let mut tail = head.split_off(split);
    let mut details = details;
    head.append(&mut details);
    head.append(&mut tail);
    proof {
        assert(info_views(head@) =~= splice_disk_details(lv, dv));
    }
    head
}

/// Largest visible width of the labels, `0` when there is none.
pub fn label_width(lines: &[InfoLine]) -> (w: usize)
    ensures
        w == max_label_width(info_views(lines@)),
{
    let ghost lv = info_views(lines@);
    let mut best: usize = 0;
    let mut i: usize = 0;
    while i < lines.len()
        invariant
            i <= lines@.len(),
            lv == info_views(lines@),
            best == max_label_width(lv.take(i as int)),
        decreases lines@.len() - i,
    {
        proof {
            assert(lv.take(i + 1).drop_last() =~= lv.take(i as int));
        }
        let w = visible_width(lines[i].label.as_str());
        if w > best {
            best = w;
        }
        i = i + 1;
    }
    proof {
        assert(lv.take(lines@.len() as int) =~= lv);
    }
    best
}

/// The path a run takes.
#[derive(Debug, Clone, Copy, PartialEq, Eq)]
pub enum ExecutionPath {
    /// Add the startup block to a shell startup file.
    SetupShell,
    /// Remove the startup blocks from a shell startup file.
    UninstallShell,
    /// Print the system information only.
    InfoOnly,
    /// Print the art only.
    LogoOnly,
    /// Print the art and the system information together.
    Combined,
}

/// A subcommand takes precedence, then `--info-only`, then `--logo-only`;
/// every other run combines art and information.
pub open spec fn execution_path_spec(args: Args) -> ExecutionPath {
    match args.command {
        Some(Command::SetupShell(_)) => ExecutionPath::SetupShell,
        Some(Command::UninstallShell(_)) => ExecutionPath::UninstallShell,
        None => if args.info_only {
            ExecutionPath::InfoOnly
        } else if args.logo_only {
            ExecutionPath::LogoOnly
        } else {
            ExecutionPath::Combined
        },
    }
}

/// Largest visible width of the lines, `0` when there is none.
pub open spec fn max_visible_width(lines: Seq<String>) -> nat
    decreases lines.len(),
{
    if lines.len() == 0 {
        0
    } else {
        let rest = max_visible_width(lines.drop_last());
        let w = visible_width_spec(lines.last()@);
        if w > rest {
            w
        } else {
            rest
        }
    }
}

/// Largest visible width of the lines, `0` when there is none.
pub fn visible_width_max(lines: &[String]) -> (w: usize)
    ensures
        w == max_visible_width(lines@),
{
    let mut best: usize = 0;
    let mut i: usize = 0;
    while i < lines.len()
        invariant
            i <= lines@.len(),
            best == max_visible_width(lines@.take(i as int)),
        decreases lines@.len() - i,
    {
        proof {
            assert(lines@.take(i + 1).drop_last() =~= lines@.take(i as int));
        }
        let w = visible_width(lines[i].as_str());
        if w > best {
            best = w;
        }
        i = i + 1;
    }
    proof {
        assert(lines@.take(lines@.len() as int) =~= lines@);
    }
    best
}

/// What to do after the intro ran: `Ok(true)` when the output is complete,
/// `Ok(false)` when the static output must still be printed.
pub open spec fn intro_emission_spec(outcome: IntroOutcome) -> Option<bool> {
    match outcome {
        IntroOutcome::Completed => Some(true),
        IntroOutcome::Skipped => Some(false),
        IntroOutcome::Interrupted => None,
    }
}

/// Decides what follows an intro: a completed intro is the output, a
/// skipped one falls back to the static output, an interrupted one ends the
/// run with the interrupted error.
pub fn intro_emission(outcome: IntroOutcome) -> (r: Result<bool, AppError>)
    ensures
        match intro_emission_spec(outcome) {
            Some(done) => r == Ok::<bool, AppError>(done),
            None => r matches Err(AppError::Interrupted),
        },
{
    match outcome {
        IntroOutcome::Completed => Ok(true),
        IntroOutcome::Skipped => Ok(false),
        IntroOutcome::Interrupted => Err(AppError::Interrupted),
    }
}

/// The frame context of intro frame `frame_index` of `frame_count`: none
/// for the two static endpoints, a twinkle frame otherwise.
pub open spec fn frame_context_spec(scene_seed: u64, frame_index: u32, frame_count: u32) -> Option<
    StarTwinkleFrame,
> {
    if frame_index == 0 || frame_index + 1 == frame_count {
        None
    } else {
        Some(StarTwinkleFrame { scene_seed, frame_index, frame_count })
    }
}

/// The frame contexts of the intro of a scene: the first and the last
/// frame are the static render, the frames between them twinkle.
pub fn animation_frame_contexts(scene_seed: u64) -> (contexts: Vec<Option<StarTwinkleFrame>>)
    ensures
        contexts@.len() == crate::animation::intro_schedule_count(),
        forall|i: int|
            0 <= i < contexts@.len() ==> #[trigger] contexts@[i] == frame_context_spec(
                scene_seed,
                i as u32,
                crate::animation::intro_schedule_count() as u32,
            ),
        contexts@[0] is None,
        contexts@[contexts@.len() - 1] is None,
{
    let schedule = crate::animation::intro_schedule();
    let count = schedule.frame_count;
    let mut contexts: Vec<Option<StarTwinkleFrame>> = Vec::new();
    let mut frame_index: u32 = 0;
    while frame_index < count
        invariant
            count == crate::animation::intro_schedule_count(),
            frame_index <= count,
            contexts@.len() == frame_index,
            forall|i: int|
                0 <= i < frame_index ==> #[trigger] contexts@[i] == frame_context_spec(
                    scene_seed,
                    i as u32,
                    count,
                ),
        decreases count - frame_index,
    {
        let is_static_endpoint = frame_index == 0 || frame_index == count - 1;
        let frame = if is_static_endpoint {
            None
        } else {
            Some(StarTwinkleFrame { scene_seed, frame_index, frame_count: count })
        };
        contexts.push(frame);
        frame_index = frame_index + 1;
    }
    contexts
}

/// A prepared density can only be drawn by the renderer family it was
/// prepared for: a starfield density by the starfield renderer, a galaxy
/// density by every other renderer.
pub fn check_density_renderer(starfield_density: bool, renderer: EffectiveRenderer) -> (r: Result<
    (),
    AppError,
>)
    ensures
        starfield_density && renderer != EffectiveRenderer::Starfield ==> (r matches Err(
            AppError::Render(m),
        ) && m@ == STARFIELD_DENSITY_MESSAGE@),
        !starfield_density && renderer == EffectiveRenderer::Starfield ==> (r matches Err(
            AppError::Render(m),
        ) && m@ == GALAXY_DENSITY_MESSAGE@),
        (starfield_density == (renderer == EffectiveRenderer::Starfield)) ==> r is Ok,
{
    if starfield_density && renderer != EffectiveRenderer::Starfield {
        Err(AppError::Render(STARFIELD_DENSITY_MESSAGE.to_owned()))
    } else if !starfield_density && renderer == EffectiveRenderer::Starfield {
        Err(AppError::Render(GALAXY_DENSITY_MESSAGE.to_owned()))
    } else {
        Ok(())
    }
}

/// `Auto` never selects the quadrant renderer, and every renderer other
/// than the quadrant works with every concrete model.
pub proof fn lemma_renderer_resolution_matrix(requested: RendererChoice, model: ArtModel)
    requires
        model != ArtModel::Random,
    ensures
        requested == RendererChoice::Auto ==> effective_renderer_spec(requested, model) != Ok::<
            EffectiveRenderer,
            (bool, Seq<char>),
        >(EffectiveRenderer::Quadrant),
        requested != RendererChoice::Quadrant ==> effective_renderer_spec(requested, model) is Ok,
        requested == RendererChoice::Quadrant ==> (effective_renderer_spec(requested, model) is Ok
            <==> model == ArtModel::Spiral),
{
}

/// The part of an information line before its value: label, colon and
/// padding (with the label and value colors when colors are on).
pub open spec fn info_line_prefix(label: Seq<char>, label_width: nat, colors_enabled: bool) -> Seq<char> {
    let pad = spaces(
        ((if label_width >= visible_width_spec(label) {
            label_width - visible_width_spec(label)
        } else {
            0
        }) + 1) as nat,
    );
    if colors_enabled {
        LABEL_COLOR@ + label + ":"@ + RESET@ + pad + VALUE_COLOR@
    } else {
        label + ":"@ + pad
    }
}

proof fn lemma_info_colors_are_csi()
    ensures
        is_csi_sequence(LABEL_COLOR@),
        is_csi_sequence(VALUE_COLOR@),
        is_csi_sequence(RESET@),
        ":"@ == seq![':'],
{
    reveal_strlit("\x1b[94m");
    reveal_strlit("\x1b[97m");
    reveal_strlit("\x1b[0m");
    reveal_strlit(":");
}

/// Every value of an information line starts one column past the widest
/// label and its colon, with or without colors (for a label no wider than
/// that and that does not end inside an escape sequence): the values of
/// the information column are aligned.
pub proof fn lemma_info_value_column(label: Seq<char>, value: Seq<char>, label_width: nat, colors_enabled: bool)
    requires
        visible_width_spec(label) <= label_width,
        ends_ground(label),
    ensures
        info_line_spec(label, value, label_width, colors_enabled) == info_line_prefix(
            label,
            label_width,
            colors_enabled,
        ) + value + (if colors_enabled {
            RESET@
        } else {
            Seq::<char>::empty()
        }),
        visible_width_spec(info_line_prefix(label, label_width, colors_enabled)) == label_width + 2,
{
    lemma_info_colors_are_csi();
    let n = (label_width - visible_width_spec(label) + 1) as nat;
    let pad = spaces(n);
    let colon = ":"@;
    assert forall|i: int| 0 <= i < pad.len() implies pad[i] != '\u{1b}' by {}
    assert forall|i: int| 0 <= i < colon.len() implies colon[i] != '\u{1b}' by {}
    lemma_plain_width(pad);
    lemma_plain_ground(pad);
    lemma_plain_width(colon);
    lemma_plain_ground(colon);
    if colors_enabled {
        lemma_csi_sequence(LABEL_COLOR@);
        lemma_csi_sequence(VALUE_COLOR@);
        lemma_csi_sequence(RESET@);
        let a = LABEL_COLOR@;
        lemma_width_concat(a, label);
        lemma_width_concat(a + label, colon);
        lemma_width_concat(a + label + colon, RESET@);
        lemma_width_concat(a + label + colon + RESET@, pad);
        lemma_width_concat(a + label + colon + RESET@ + pad, VALUE_COLOR@);
    } else {
        lemma_width_concat(label, colon);
        lemma_width_concat(label + colon, pad);
        assert(label + colon + pad + value + Seq::<char>::empty() =~= label + colon + pad + value);
    }
}

proof fn lemma_max_label_width_bounds(lines: Seq<(Seq<char>, Seq<char>)>, i: int)
    requires
        0 <= i < lines.len(),
    ensures
        visible_width_spec(lines[i].0) <= max_label_width(lines),
    decreases lines.len(),
{
    if i < lines.len() - 1 {
        lemma_max_label_width_bounds(lines.drop_last(), i);
        assert(lines.drop_last()[i] == lines[i]);
    }
}

/// Every value of the information column of a run starts at the same
/// terminal column, two past the widest label, with or without colors (for
/// labels that do not end inside an escape sequence).
pub proof fn lemma_info_column_values_aligned(
    args: Args,
    colors_enabled: bool,
    user_host: Seq<char>,
    fields: Seq<(String, String)>,
    details: Seq<(Seq<char>, Seq<char>)>,
    i: int,
)
    requires
        0 <= i < info_entries(args, fields, details).len(),
        forall|k: int|
            0 <= k < info_entries(args, fields, details).len() ==> ends_ground(
                #[trigger] info_entries(args, fields, details)[k].0,
            ),
    ensures
        ({
            let all = info_entries(args, fields, details);
            let w = max_label_width(all);
            let h: int = if args.compact {
                0
            } else {
                1
            };
            let lines = info_lines_spec(args, colors_enabled, user_host, fields, details);
            &&& lines.len() == h + all.len()
            &&& lines[h + i] == info_line_prefix(all[i].0, w, colors_enabled) + all[i].1 + (
            if colors_enabled {
                RESET@
            } else {
                Seq::<char>::empty()
            })
            &&& visible_width_spec(info_line_prefix(all[i].0, w, colors_enabled)) == w + 2
        }),
{
    let all = info_entries(args, fields, details);
    let w = max_label_width(all);
    lemma_max_label_width_bounds(all, i);
    lemma_info_value_column(all[i].0, all[i].1, w, colors_enabled);
}

/// `s` holds no escape character.
pub open spec fn lacks_escape(s: Seq<char>) -> bool {
    forall|k: int| 0 <= k < s.len() ==> s[k] != '\u{1b}'
}

/// Without colors the information column is plain text: no line holds an
/// escape character unless the header, a label or a value brings one.
pub proof fn lemma_plain_info_lines(
    args: Args,
    user_host: Seq<char>,
    fields: Seq<(String, String)>,
    details: Seq<(Seq<char>, Seq<char>)>,
)
    requires
        lacks_escape(user_host),
        forall|k: int|
            0 <= k < info_entries(args, fields, details).len() ==> lacks_escape(
                #[trigger] info_entries(args, fields, details)[k].0,
            ) && lacks_escape(info_entries(args, fields, details)[k].1),
    ensures
        forall|i: int|
            0 <= i < info_lines_spec(args, false, user_host, fields, details).len() ==> lacks_escape(
                #[trigger] info_lines_spec(args, false, user_host, fields, details)[i],
            ),
{
    lemma_info_colors_are_csi();
    let lines = info_lines_spec(args, false, user_host, fields, details);
    let all = info_entries(args, fields, details);
    let w = max_label_width(all);
    let h: int = if args.compact {
        0
    } else {
        1
    };
    assert forall|i: int| 0 <= i < lines.len() implies lacks_escape(#[trigger] lines[i]) by {
        if i < h {
            assert(lines[i] == user_host);
        } else {
            let j = i - h;
            let label = all[j].0;
            let value = all[j].1;
            assert(lacks_escape(label) && lacks_escape(value));
            let line = info_line_spec(label, value, w, false);
            assert(lines[i] == line);
            let pad = spaces(
                ((if w >= visible_width_spec(label) {
                    w - visible_width_spec(label)
                } else {
                    0
                }) + 1) as nat,
            );
            assert(line == label + ":"@ + pad + value);
            assert forall|k: int| 0 <= k < line.len() implies line[k] != '\u{1b}' by {
                if k < label.len() {
                    assert(line[k] == label[k]);
                } else if k < label.len() + 1 {
                    assert(line[k] == ':');
                } else if k < label.len() + 1 + pad.len() {
                    assert(line[k] == ' ');
                } else {
                    assert(line[k] == value[k - label.len() - 1 - pad.len()]);
                }
            }
        }
    }
}

} // verus!
