//! Decisions of the opt-in `--animate` intro: whether it runs, whether the
//! prepared frames fit the terminal, what each frame writes, the interrupt
//! lifecycle, and the replay state machine that the frame loop follows.
//!
//! The loop itself (terminal queries, writes, sleeps and the Ctrl+C handler)
//! runs outside this module; it performs the actions that
//! [`replay_step`] returns and reports back what happened.

use vstd::prelude::*;
use crate::terminal::{
    ends_ground, is_csi_final, is_csi_sequence, lemma_csi_sequence, lemma_csi_sequence_text,
    lemma_single_char, lemma_single_char_text, lemma_visible_text_concat, lemma_width_concat,
    visible_text, visible_width, visible_width_spec, TerminalDimensions,
};
use crate::text::{push_char, push_str};

verus! {

/// Fixed schedule of the intro: a short sequence of prepared frames.
///
/// The intro sleeps for `(frame_count - 1) * frame_interval_ms`
/// milliseconds in total.
#[derive(Debug, Clone, Copy, PartialEq, Eq)]
pub struct IntroSchedule {
    /// Number of frames to draw.
    pub frame_count: u32,
    /// Pause between consecutive frames, in milliseconds.
    pub frame_interval_ms: u64,
}

/// Number of frames of the intro.
pub open spec fn intro_schedule_count() -> u32 {
    6
}

/// Returns the fixed intro schedule: 6 frames, 120 ms apart (600 ms of
/// pauses in total).
pub fn intro_schedule() -> (s: IntroSchedule)
    ensures
        s.frame_count == intro_schedule_count(),
        s.frame_interval_ms == 120,
        s.frame_count >= 2,
        0 < s.frame_interval_ms <= 250,
        400 <= (s.frame_count - 1) * s.frame_interval_ms <= 800,
{
    IntroSchedule { frame_count: 6, frame_interval_ms: 120 }
}

/// The intro is strictly opt-in and only runs when stdout is an
/// interactive terminal.
pub fn should_animate(animate: bool, is_tty: bool) -> (b: bool)
    ensures
        b == (animate && is_tty),
{
    animate && is_tty
}

/// `lines` fit `size` without wrapping or scrolling: fewer lines than
/// terminal rows, and every line visibly narrower than the terminal.
pub open spec fn frame_fits_spec(lines: Seq<String>, size: TerminalDimensions) -> bool {
    &&& lines.len() < size.height
    &&& forall|i: int| 0 <= i < lines.len() ==> visible_width_spec(#[trigger] lines[i]@) < size.width
}

/// Whether `lines` fit `size` without wrapping or vertical scrolling.
///
/// A line whose visible width reaches the terminal width would wrap, and a
/// frame whose line count reaches the terminal height would scroll; escape
/// sequences do not count toward the visible width.
pub fn frame_fits(lines: &[String], size: TerminalDimensions) -> (b: bool)
    ensures
        b == frame_fits_spec(lines@, size),
{
    if lines.len() >= size.height {
        return false;
    }
    let mut i: usize = 0;
    while i < lines.len()
        invariant
            i <= lines@.len(),
            forall|j: int| 0 <= j < i ==> visible_width_spec(#[trigger] lines@[j]@) < size.width,
        decreases lines@.len() - i,
    {
        if visible_width(lines[i].as_str()) >= size.width {
            return false;
        }
        i = i + 1;
    }
    true
}

/// All frames have the first frame's shape (line count and visible width
/// of every line) and each fits `size`; an empty sequence never fits.
pub open spec fn frame_sequence_fits_spec(frames: Seq<Vec<String>>, size: TerminalDimensions) -> bool {
    &&& frames.len() > 0
    &&& forall|k: int|
        #![trigger frames[k]]
        0 <= k < frames.len() ==> {
            &&& frames[k]@.len() == frames[0]@.len()
            &&& forall|i: int|
                0 <= i < frames[k]@.len() ==> visible_width_spec(#[trigger] frames[k]@[i]@)
                    == visible_width_spec(frames[0]@[i]@)
            &&& frame_fits_spec(frames[k]@, size)
        }
}

/// Whether every prepared frame shares the same safe terminal geometry.
pub fn frame_sequence_fits(frames: &[Vec<String>], size: TerminalDimensions) -> (b: bool)
    ensures
        b == frame_sequence_fits_spec(frames@, size),
{
    if frames.len() == 0 {
        return false;
    }
    let first = &frames[0];
    let mut k: usize = 0;
    while k < frames.len()
        invariant
            0 < frames@.len(),
            *first == frames@[0],
            k <= frames@.len(),
            forall|k2: int|
                #![trigger frames@[k2]]
                0 <= k2 < k ==> {
                    &&& frames@[k2]@.len() == frames@[0]@.len()
                    &&& forall|i: int|
                        0 <= i < frames@[k2]@.len() ==> visible_width_spec(#[trigger] frames@[k2]@[i]@)
                            == visible_width_spec(frames@[0]@[i]@)
                    &&& frame_fits_spec(frames@[k2]@, size)
                },
        decreases frames@.len() - k,
    {
        let frame = &frames[k];
        if frame.len() != first.len() {
            return false;
        }
        let mut i: usize = 0;
        while i < frame.len()
            invariant
                k < frames@.len(),
                *frame == frames@[k as int],
                *first == frames@[0],
                frame@.len() == first@.len(),
                i <= frame@.len(),
                forall|j: int|
                    0 <= j < i ==> visible_width_spec(#[trigger] frame@[j]@) == visible_width_spec(first@[j]@),
            decreases frame@.len() - i,
        {
            if visible_width(frame[i].as_str()) != visible_width(first[i].as_str()) {
                proof {
                    let fk = frames@[k as int];
                    assert(visible_width_spec(fk@[i as int]@) != visible_width_spec(frames@[0]@[i as int]@));
                }
                return false;
            }
            i = i + 1;
        }
        if !frame_fits(frame.as_slice(), size) {
            return false;
        }
        k = k + 1;
    }
    true
}

/// The size the intro starts with: the current size when it is known and
/// every frame fits it; `None` means the intro is skipped.
pub fn intro_start_size(frames: &[Vec<String>], size: Option<TerminalDimensions>) -> (r: Option<
    TerminalDimensions,
>)
    ensures
        r == (match size {
            Some(s) => if frame_sequence_fits_spec(frames@, s) {
                Some(s)
            } else {
                None
            },
            None => None,
        }),
{
    match size {
        Some(s) => if frame_sequence_fits(frames, s) {
            Some(s)
        } else {
            None
        },
        None => None,
    }
}

/// Decimal digits of `n`, most significant first.
pub open spec fn decimal(n: nat) -> Seq<char>
    decreases n,
{
    if n < 10 {
        seq![(n + 48) as char]
    } else {
        decimal(n / 10).push((n % 10 + 48) as char)
    }
}

/// The escape sequence that moves the cursor up `rows` rows.
pub open spec fn move_up_spec(rows: u16) -> Seq<char> {
    seq!['\u{1b}', '['] + decimal(rows as nat) + seq!['A']
}

/// The escape sequence that clears the current line.
pub open spec fn clear_line_spec() -> Seq<char> {
    seq!['\u{1b}', '[', '2', 'K']
}

/// `crossterm::cursor::MoveUp(rows)` written as ANSI text.
///
/// Trusted: crossterm writes `ESC [`, the row count in decimal, and `A`.
#[verifier::external_body]
fn move_up_sequence(rows: u16) -> (s: String)
    ensures
        s@ == move_up_spec(rows),
{
    let mut s = String::new();
    let _ = crossterm::Command::write_ansi(&crossterm::cursor::MoveUp(rows), &mut s);
    s
}

/// `crossterm::terminal::Clear(ClearType::CurrentLine)` written as ANSI text.
///
/// Trusted: crossterm writes `ESC [ 2 K`.
#[verifier::external_body]
fn clear_line_sequence() -> (s: String)
    ensures
        s@ == clear_line_spec(),
{
    let mut s = String::new();
    let _ = crossterm::Command::write_ansi(
        &crossterm::terminal::Clear(crossterm::terminal::ClearType::CurrentLine),
        &mut s,
    );
    s
}

/// The escape sequence that hides the cursor.
pub open spec fn hide_cursor_spec() -> Seq<char> {
    seq!['\u{1b}', '[', '?', '2', '5', 'l']
}

/// The escape sequence that shows the cursor again.
pub open spec fn show_cursor_spec() -> Seq<char> {
    seq!['\u{1b}', '[', '?', '2', '5', 'h']
}

/// `crossterm::cursor::Hide` written as ANSI text.
///
/// Trusted: crossterm writes `ESC [ ? 2 5 l`.
#[verifier::external_body]
fn hide_cursor_sequence() -> (s: String)
    ensures
        s@ == hide_cursor_spec(),
{
    let mut s = String::new();
    let _ = crossterm::Command::write_ansi(&crossterm::cursor::Hide, &mut s);
    s
}

/// `crossterm::cursor::Show` written as ANSI text.
///
/// Trusted: crossterm writes `ESC [ ? 2 5 h`.
#[verifier::external_body]
fn show_cursor_sequence() -> (s: String)
    ensures
        s@ == show_cursor_spec(),
{
    let mut s = String::new();
    let _ = crossterm::Command::write_ansi(&crossterm::cursor::Show, &mut s);
    s
}

/// The text that hides the cursor for the duration of the intro.
pub fn hide_cursor() -> (s: String)
    ensures
        s@ == hide_cursor_spec(),
{
    hide_cursor_sequence()
}

/// The text that restores cursor visibility after the intro.
pub fn show_cursor() -> (s: String)
    ensures
        s@ == show_cursor_spec(),
{
    show_cursor_sequence()
}

/// Each line, preceded by a line clear on a replay, followed by a newline.
pub open spec fn frame_body(lines: Seq<String>, first_frame: bool) -> Seq<char>
    decreases lines.len(),
{
    if lines.len() == 0 {
        Seq::empty()
    } else {
        let prefix = frame_body(lines.drop_last(), first_frame);
        let clear = if first_frame {
            Seq::<char>::empty()
        } else {
            clear_line_spec()
        };
        prefix + clear + lines.last()@ + seq!['\n']
    }
}

/// Rows to move up before a replay: the line count, saturated to `u16`.
pub open spec fn replay_rows(n: nat) -> u16 {
    if n > 0xffff {
        0xffff
    } else {
        n as u16
    }
}

/// Text of one intro frame.
pub open spec fn frame_text_spec(lines: Seq<String>, first_frame: bool) -> Seq<char> {
    let up = if !first_frame && lines.len() > 0 {
        move_up_spec(replay_rows(lines.len()))
    } else {
        Seq::<char>::empty()
    };
    up + frame_body(lines, first_frame)
}

/// The text that draws one intro frame.
///
/// The first frame is written exactly like the static output (each line
/// followed by a newline). A replay first moves the cursor back to the top
/// of the previous frame and clears each line before redrawing it, so the
/// frame is replaced in place without touching the rest of the terminal.
pub fn frame_text(lines: &[String], first_frame: bool) -> (s: String)
    ensures
        s@ == frame_text_spec(lines@, first_frame),
{
    let mut out = String::new();
    if !first_frame && lines.len() > 0 {
        let rows: u16 = if lines.len() > 0xffff {
            0xffff
        } else {
            lines.len() as u16
        };
        let up = move_up_sequence(rows);
        push_str(&mut out, up.as_str());
    }
    let ghost up_text = out@;
    let mut i: usize = 0;
    while i < lines.len()
        invariant
            i <= lines@.len(),
            up_text == (if !first_frame && lines@.len() > 0 {
                move_up_spec(replay_rows(lines@.len()))
            } else {
                Seq::<char>::empty()
            }),
            out@ == up_text + frame_body(lines@.take(i as int), first_frame),
        decreases lines@.len() - i,
    {
        proof {
            assert(lines@.take(i + 1).drop_last() =~= lines@.take(i as int));
        }
        if !first_frame {
            let clear = clear_line_sequence();
            push_str(&mut out, clear.as_str());
        }
        push_str(&mut out, lines[i].as_str());
        push_char(&mut out, '\n');
        i = i + 1;
    }
    proof {
        assert(lines@.take(lines@.len() as int) =~= lines@);
    }
    out
}

proof fn lemma_decimal_digits(n: nat)
    ensures
        decimal(n).len() >= 1,
        forall|i: int| 0 <= i < decimal(n).len() ==> '0' <= #[trigger] decimal(n)[i] <= '9',
    decreases n,
{
    if n >= 10 {
        lemma_decimal_digits(n / 10);
        assert forall|i: int| 0 <= i < decimal(n).len() implies '0' <= #[trigger] decimal(n)[i] <= '9' by {
            if i < decimal(n / 10).len() {
                assert(decimal(n)[i] == decimal(n / 10)[i]);
            }
        }
    }
}

/// The cursor movement and the line clear of a replay are complete CSI
/// sequences.
proof fn lemma_replay_sequences_are_csi(rows: u16)
    ensures
        is_csi_sequence(move_up_spec(rows)),
        is_csi_sequence(clear_line_spec()),
{
    lemma_decimal_digits(rows as nat);
    let s = move_up_spec(rows);
    let d = decimal(rows as nat);
    assert forall|i: int| 2 <= i < s.len() - 1 implies !is_csi_final(#[trigger] s[i]) by {
        assert(s[i] == d[i - 2]);
    }
}

proof fn lemma_frame_body_text(lines: Seq<String>, first_frame: bool)
    requires
        forall|i: int| 0 <= i < lines.len() ==> ends_ground(#[trigger] lines[i]@),
    ensures
        visible_text(frame_body(lines, first_frame)) == visible_text(frame_body(lines, true)),
        ends_ground(frame_body(lines, first_frame)),
        ends_ground(frame_body(lines, true)),
    decreases lines.len(),
{
    if lines.len() == 0 {
        assert(ends_ground(Seq::<char>::empty()));
    } else {
        let rest = lines.drop_last();
        assert forall|i: int| 0 <= i < rest.len() implies ends_ground(#[trigger] rest[i]@) by {
            assert(rest[i] == lines[i]);
        }
        lemma_frame_body_text(rest, first_frame);
        let line = lines.last()@;
        assert(lines.last() == lines[lines.len() - 1]);
        lemma_replay_sequences_are_csi(0);
        lemma_single_char('\n');
        lemma_single_char_text('\n');
        lemma_csi_sequence(clear_line_spec());
        lemma_csi_sequence_text(clear_line_spec());
        assert(ends_ground(Seq::<char>::empty()));
        assert(visible_text(Seq::<char>::empty()) == Seq::<char>::empty());
        let nl = seq!['\n'];
        let empty = Seq::<char>::empty();
        let p_any = frame_body(rest, first_frame);
        let p_first = frame_body(rest, true);
        let clear = if first_frame {
            empty
        } else {
            clear_line_spec()
        };
        lemma_width_concat(p_any, clear);
        lemma_visible_text_concat(p_any, clear);
        lemma_width_concat(p_any + clear, line);
        lemma_visible_text_concat(p_any + clear, line);
        lemma_width_concat(p_any + clear + line, nl);
        lemma_visible_text_concat(p_any + clear + line, nl);
        lemma_width_concat(p_first, empty);
        lemma_visible_text_concat(p_first, empty);
        lemma_width_concat(p_first + empty, line);
        lemma_visible_text_concat(p_first + empty, line);
        lemma_width_concat(p_first + empty + line, nl);
        lemma_visible_text_concat(p_first + empty + line, nl);
        assert(visible_text(p_any) + empty =~= visible_text(p_any));
        assert(visible_text(p_first) + empty =~= visible_text(p_first));
    }
}

/// A replayed frame shows exactly what the first drawing of the same lines
/// shows: the cursor movement and the line clears are invisible (for lines
/// that do not end inside an escape sequence).
pub proof fn lemma_replay_shows_same_text(lines: Seq<String>)
    requires
        forall|i: int| 0 <= i < lines.len() ==> ends_ground(#[trigger] lines[i]@),
    ensures
        visible_text(frame_text_spec(lines, false)) == visible_text(frame_text_spec(lines, true)),
{
    lemma_frame_body_text(lines, false);
    let body = frame_body(lines, false);
    let empty = Seq::<char>::empty();
    assert(ends_ground(empty));
    assert(visible_text(empty) == empty);
    assert(empty + frame_body(lines, true) =~= frame_body(lines, true));
    if lines.len() > 0 {
        let up = move_up_spec(replay_rows(lines.len()));
        lemma_replay_sequences_are_csi(replay_rows(lines.len()));
        lemma_csi_sequence(up);
        lemma_csi_sequence_text(up);
        lemma_visible_text_concat(up, body);
        assert(empty + visible_text(body) =~= visible_text(body));
    } else {
        lemma_visible_text_concat(empty, body);
        assert(empty + visible_text(body) =~= visible_text(body));
    }
}

/// Signal state shared by the Ctrl+C handling and the frame loop.
#[derive(Debug)]
pub struct IntroState {
    /// True while the intro runs; a Ctrl+C then only records a request.
    active: bool,
    /// Set once an interruption has been requested.
    interrupted: bool,
}

/// What a Ctrl+C does at a given point of the lifecycle.
#[derive(Debug, Clone, Copy, PartialEq, Eq)]
pub enum InterruptResponse {
    /// The intro is running: the request was recorded and the loop stops.
    Recorded,
    /// The intro is not running: the process terminates with the
    /// conventional interrupted exit code.
    Terminate,
}

/// Conventional exit code of a process interrupted by Ctrl+C (128 + SIGINT).
pub const INTERRUPTED_EXIT_CODE: i32 = 130;

impl IntroState {
    /// The intro is running.
    pub closed spec fn spec_active(&self) -> bool {
        self.active
    }

    /// An interruption has been requested.
    pub closed spec fn spec_interrupted(&self) -> bool {
        self.interrupted
    }

    /// Creates a new, inactive, non-interrupted state.
    pub fn new() -> (s: Self)
        ensures
            !s.spec_active(),
            !s.spec_interrupted(),
    {
        IntroState { active: false, interrupted: false }
    }

    /// Makes a Ctrl+C record an interruption instead of terminating.
    pub fn activate(&mut self)
        ensures
            final(self).spec_active(),
            final(self).spec_interrupted() == old(self).spec_interrupted(),
    {
        self.active = true;
    }

    /// Ends the intro window: from now on a Ctrl+C terminates the process.
    /// An interruption already requested stays requested.
    pub fn deactivate(&mut self)
        ensures
            !final(self).spec_active(),
            final(self).spec_interrupted() == old(self).spec_interrupted(),
    {
        self.active = false;
    }

    /// True while the intro runs.
    pub fn is_active(&self) -> (b: bool)
        ensures
            b == self.spec_active(),
    {
        self.active
    }

    /// True once Ctrl+C has been requested during the intro.
    pub fn is_interrupted(&self) -> (b: bool)
        ensures
            b == self.spec_interrupted(),
    {
        self.interrupted
    }

    /// Records an interruption request (idempotent).
    pub fn mark_interrupted(&mut self)
        ensures
            final(self).spec_interrupted(),
            final(self).spec_active() == old(self).spec_active(),
    {
        self.interrupted = true;
    }

    /// What a Ctrl+C does: while the intro runs it only records the request;
    /// otherwise the process must terminate.
    pub fn on_interrupt(&mut self) -> (r: InterruptResponse)
        ensures
            old(self).spec_active() ==> r == InterruptResponse::Recorded && final(self).spec_interrupted(),
            !old(self).spec_active() ==> r == InterruptResponse::Terminate && final(self).spec_interrupted()
                == old(self).spec_interrupted(),
            final(self).spec_active() == old(self).spec_active(),
    {
        if self.active {
            self.mark_interrupted();
            InterruptResponse::Recorded
        } else {
            InterruptResponse::Terminate
        }
    }
}

impl Default for IntroState {
    fn default() -> (s: Self)
        ensures
            !s.spec_active(),
            !s.spec_interrupted(),
    {
        IntroState::new()
    }
}

/// Outcome of an intro run.
#[derive(Debug, Clone, Copy, PartialEq, Eq, Structural)]
pub enum IntroOutcome {
    /// Every frame was drawn and the final frame is frozen on screen.
    Completed,
    /// Ctrl+C was requested; the caller must exit with interrupted semantics.
    Interrupted,
    /// No frame was drawn because the frames do not fit the terminal (or its
    /// size is unknown); the caller falls back to static output.
    Skipped,
}

/// What the frame loop does next.
#[derive(Debug, Clone, Copy, PartialEq, Eq)]
pub enum ReplayAction {
    /// Query the terminal size and report it with [`ReplayEvent::Probed`].
    ProbeSize,
    /// Write `frame_text` of frame `index` (as the first frame when
    /// `first`), flush, and report [`ReplayEvent::Drawn`].
    Draw { index: usize, first: bool },
    /// Sleep for the frame interval, waking early on an interruption, and
    /// report [`ReplayEvent::Slept`].
    Sleep,
    /// Stop with this outcome.
    Finish(IntroOutcome),
}

/// What happened since the last action.
#[derive(Debug, Clone, Copy, PartialEq, Eq)]
pub enum ReplayEvent {
    /// The loop starts.
    Start,
    /// The terminal size was queried (`None`: it could not be determined).
    Probed(Option<TerminalDimensions>),
    /// The requested frame was written and flushed.
    Drawn,
    /// The pause between frames is over.
    Slept,
}

/// Progress of a replay.
#[derive(Debug, Clone, Copy, PartialEq, Eq)]
pub struct ReplayState {
    /// Index of the next frame to draw.
    pub next_frame: usize,
    /// Number of frames to draw.
    pub frame_count: usize,
    /// Terminal size captured when the intro started.
    pub initial_size: TerminalDimensions,
}

/// Number of frames a replay draws: the schedule's count, capped by the
/// number of prepared frames.
pub open spec fn replay_frame_count_spec(schedule: IntroSchedule, frames_len: nat) -> nat {
    if schedule.frame_count as nat <= frames_len {
        schedule.frame_count as nat
    } else {
        frames_len
    }
}

impl ReplayState {
    /// A replay of the prepared frames under `schedule`, nothing drawn yet.
    pub fn new(schedule: IntroSchedule, frames_len: usize, initial_size: TerminalDimensions) -> (s: Self)
        ensures
            s.next_frame == 0,
            s.frame_count == replay_frame_count_spec(schedule, frames_len as nat),
            s.initial_size == initial_size,
    {
        let count = schedule.frame_count as usize;
        let frame_count = if count <= frames_len {
            count
        } else {
            frames_len
        };
        ReplayState { next_frame: 0, frame_count, initial_size }
    }
}

/// The outcome of a stop: interrupted when an interruption is pending.
pub open spec fn stop_outcome(interrupted: bool) -> IntroOutcome {
    if interrupted {
        IntroOutcome::Interrupted
    } else {
        IntroOutcome::Completed
    }
}

/// One decision of the frame loop, given the event and whether an
/// interruption is pending.
///
/// - `Start`: nothing to draw completes at once; a pending interruption
///   stops; otherwise frame 0 is drawn as the first frame.
/// - `Drawn`: the frame counts as drawn; the loop stops after the last
///   frame or on an interruption, and pauses otherwise.
/// - `Slept`: an interruption stops; otherwise the size is checked again.
/// - `Probed`: a size that differs from the initial one (or is unknown)
///   stops without drawing; otherwise the next frame is replayed.
pub open spec fn replay_step_spec(
    state: ReplayState,
    event: ReplayEvent,
    interrupted: bool,
) -> (ReplayState, ReplayAction) {
    match event {
        ReplayEvent::Start => if state.frame_count == 0 {
            (state, ReplayAction::Finish(IntroOutcome::Completed))
        } else if interrupted {
            (ReplayState { next_frame: 0, ..state }, ReplayAction::Finish(IntroOutcome::Interrupted))
        } else {
            (ReplayState { next_frame: 0, ..state }, ReplayAction::Draw { index: 0, first: true })
        },
        ReplayEvent::Drawn => {
            let next = if state.next_frame < state.frame_count {
                (state.next_frame + 1) as usize
            } else {
                state.frame_count
            };
            let s = ReplayState { next_frame: next, ..state };
            if interrupted || next >= state.frame_count {
                (s, ReplayAction::Finish(stop_outcome(interrupted)))
            } else {
                (s, ReplayAction::Sleep)
            }
        },
        ReplayEvent::Slept => if interrupted {
            (state, ReplayAction::Finish(IntroOutcome::Interrupted))
        } else {
            (state, ReplayAction::ProbeSize)
        },
        ReplayEvent::Probed(size) => if size != Some(state.initial_size) || state.next_frame
            >= state.frame_count {
            (state, ReplayAction::Finish(stop_outcome(interrupted)))
        } else {
            (state, ReplayAction::Draw { index: state.next_frame, first: state.next_frame == 0 })
        },
    }
}

/// Decides the next action of the frame loop.
pub fn replay_step(state: ReplayState, event: ReplayEvent, interrupted: bool) -> (r: (
    ReplayState,
    ReplayAction,
))
    ensures
        r == replay_step_spec(state, event, interrupted),
{
    match event {
        ReplayEvent::Start => {
            if state.frame_count == 0 {
                (state, ReplayAction::Finish(IntroOutcome::Completed))
            } else if interrupted {
                (ReplayState { next_frame: 0, ..state }, ReplayAction::Finish(IntroOutcome::Interrupted))
            } else {
                (ReplayState { next_frame: 0, ..state }, ReplayAction::Draw { index: 0, first: true })
            }
        },
        ReplayEvent::Drawn => {
            let next = if state.next_frame < state.frame_count {
                state.next_frame + 1
            } else {
                state.frame_count
            };
            let s = ReplayState { next_frame: next, ..state };
            if interrupted || next >= state.frame_count {
                let outcome = if interrupted {
                    IntroOutcome::Interrupted
                } else {
                    IntroOutcome::Completed
                };
                (s, ReplayAction::Finish(outcome))
            } else {
                (s, ReplayAction::Sleep)
            }
        },
        ReplayEvent::Slept => {
            if interrupted {
                (state, ReplayAction::Finish(IntroOutcome::Interrupted))
            } else {
                (state, ReplayAction::ProbeSize)
            }
        },
        ReplayEvent::Probed(size) => {
            let same = match size {
                Some(s) => s.width == state.initial_size.width && s.height == state.initial_size.height,
                None => false,
            };
            if !same || state.next_frame >= state.frame_count {
                let outcome = if interrupted {
                    IntroOutcome::Interrupted
                } else {
                    IntroOutcome::Completed
                };
                (state, ReplayAction::Finish(outcome))
            } else {
                (state, ReplayAction::Draw { index: state.next_frame, first: state.next_frame == 0 })
            }
        },
    }
}

/// Every replay step keeps the replay's frame count and initial size, never
/// moves past the last frame, only ever asks to draw an existing frame, and
/// draws frame 0 (and only frame 0) as the first frame.
pub proof fn lemma_replay_draws_existing_frames(state: ReplayState, event: ReplayEvent, interrupted: bool)
    requires
        state.next_frame <= state.frame_count,
    ensures
        ({
            let (s, a) = replay_step_spec(state, event, interrupted);
            &&& s.frame_count == state.frame_count
            &&& s.initial_size == state.initial_size
            &&& s.next_frame <= s.frame_count
            &&& (a matches ReplayAction::Draw { index, first } ==> index < state.frame_count && index
                == s.next_frame && (first <==> index == 0))
        }),
{
}

/// A pending interruption always stops the replay as interrupted, except
/// that a replay with no frame completes at once and a matching size probe
/// still redraws.
pub proof fn lemma_interruption_stops_replay(state: ReplayState, event: ReplayEvent)
    requires
        event != ReplayEvent::Start || state.frame_count > 0,
        !(event matches ReplayEvent::Probed(_)),
    ensures
        ({
            let (s, a) = replay_step_spec(state, event, true);
            a == ReplayAction::Finish(IntroOutcome::Interrupted)
        }),
{
}

/// A terminal size that differs from the initial one, or is unknown, stops
/// the replay without drawing anything more.
pub proof fn lemma_geometry_change_stops_replay(
    state: ReplayState,
    size: Option<TerminalDimensions>,
    interrupted: bool,
)
    requires
        size != Some(state.initial_size),
    ensures
        replay_step_spec(state, ReplayEvent::Probed(size), interrupted).1 == ReplayAction::Finish(
            stop_outcome(interrupted),
        ),
{
}

/// A drawn frame advances the replay by exactly one frame.
pub proof fn lemma_frames_drawn_in_order(state: ReplayState, interrupted: bool)
    requires
        state.next_frame < state.frame_count,
    ensures
        replay_step_spec(state, ReplayEvent::Drawn, interrupted).0.next_frame == state.next_frame + 1,
{
}

/// The event a terminal that never changes size reports after an action
/// (a finished replay gets no further event).
pub open spec fn steady_response(action: ReplayAction, size: TerminalDimensions) -> ReplayEvent {
    match action {
        ReplayAction::ProbeSize => ReplayEvent::Probed(Some(size)),
        ReplayAction::Draw { .. } => ReplayEvent::Drawn,
        ReplayAction::Sleep => ReplayEvent::Slept,
        ReplayAction::Finish(_) => ReplayEvent::Start,
    }
}

/// The actions of at most `steps` decisions of a replay that is never
/// interrupted, on a terminal that keeps its initial size, starting from
/// `state` and `event`.
pub open spec fn steady_run(state: ReplayState, event: ReplayEvent, steps: nat) -> Seq<ReplayAction>
    decreases steps,
{
    if steps == 0 {
        Seq::empty()
    } else {
        let (s, a) = replay_step_spec(state, event, false);
        if a is Finish {
            seq![a]
        } else {
            seq![a] + steady_run(s, steady_response(a, s.initial_size), (steps - 1) as nat)
        }
    }
}

/// What follows the drawing of frame `i` of `count`: a pause, a size check
/// and the next frame, until the last frame, then completion.
pub open spec fn steady_tail(i: nat, count: nat) -> Seq<ReplayAction>
    decreases count - i,
{
    if i + 1 >= count {
        seq![ReplayAction::Finish(IntroOutcome::Completed)]
    } else {
        seq![
            ReplayAction::Sleep,
            ReplayAction::ProbeSize,
            ReplayAction::Draw { index: (i + 1) as usize, first: false },
        ] + steady_tail(i + 1, count)
    }
}

proof fn lemma_steady_tail(state: ReplayState, steps: nat)
    requires
        state.next_frame < state.frame_count,
        steps >= 3 * (state.frame_count - state.next_frame) as nat,
    ensures
        steady_run(state, ReplayEvent::Drawn, steps) == steady_tail(
            state.next_frame as nat,
            state.frame_count as nat,
        ),
    decreases state.frame_count - state.next_frame,
{
    let (s1, a1) = replay_step_spec(state, ReplayEvent::Drawn, false);
    if state.next_frame + 1 < state.frame_count {
        let (s2, a2) = replay_step_spec(s1, ReplayEvent::Slept, false);
        let (s3, a3) = replay_step_spec(s2, ReplayEvent::Probed(Some(s2.initial_size)), false);
        assert(a1 == ReplayAction::Sleep);
        assert(a2 == ReplayAction::ProbeSize);
        assert(a3 == ReplayAction::Draw { index: s1.next_frame, first: false });
        lemma_steady_tail(s3, (steps - 3) as nat);
        assert(steady_run(s2, ReplayEvent::Probed(Some(s2.initial_size)), (steps - 2) as nat) == seq![a3]
            + steady_run(s3, ReplayEvent::Drawn, (steps - 3) as nat));
        assert(steady_run(s1, ReplayEvent::Slept, (steps - 1) as nat) == seq![a2] + steady_run(
            s2,
            ReplayEvent::Probed(Some(s2.initial_size)),
            (steps - 2) as nat,
        ));
        assert(seq![a1] + (seq![a2] + (seq![a3] + steady_tail(s3.next_frame as nat, state.frame_count as nat)))
            =~= seq![a1, a2, a3] + steady_tail(s3.next_frame as nat, state.frame_count as nat));
    }
}

/// A replay that is never interrupted, on a terminal that keeps its initial
/// size, draws every frame once and in order (frame 0 as the first frame),
/// pausing and checking the size between two frames, and then completes;
/// a replay with no frame completes at once.
pub proof fn lemma_steady_replay_draws_all_frames(state: ReplayState)
    requires
        state.next_frame <= state.frame_count,
    ensures
        steady_run(state, ReplayEvent::Start, 3 * state.frame_count as nat + 1) == if state.frame_count
            == 0 {
            seq![ReplayAction::Finish(IntroOutcome::Completed)]
        } else {
            seq![ReplayAction::Draw { index: 0, first: true }] + steady_tail(0, state.frame_count as nat)
        },
{
    if state.frame_count > 0 {
        let (s0, a0) = replay_step_spec(state, ReplayEvent::Start, false);
        lemma_steady_tail(s0, 3 * state.frame_count as nat);
    }
}

} // verus!
