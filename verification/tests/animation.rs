use astrofetch::animation::{
    frame_fits, frame_sequence_fits, frame_text, hide_cursor, intro_schedule, show_cursor, intro_start_size, replay_step,
    should_animate, InterruptResponse, IntroOutcome, IntroSchedule, IntroState, ReplayAction,
    ReplayEvent, ReplayState,
};
use astrofetch::terminal::{visible_width, TerminalDimensions};
use std::time::Duration;
use std::cell::Cell;

/// Drives the library's replay state machine against an in-memory writer,
/// answering size probes with `size_probe`; pauses take no time here.
fn replay_frames(
    w: &mut Vec<u8>,
    lines: &[String],
    state: &IntroState,
    initial_size: TerminalDimensions,
    schedule: IntroSchedule,
    size_probe: &dyn Fn() -> Option<TerminalDimensions>,
) -> std::io::Result<IntroOutcome> {
    let frames = vec![lines.to_vec(); schedule.frame_count as usize];
    let mut replay = ReplayState::new(schedule, frames.len(), initial_size);
    let mut event = ReplayEvent::Start;
    loop {
        let (next, action) = replay_step(replay, event, state.is_interrupted());
        replay = next;
        match action {
            ReplayAction::ProbeSize => event = ReplayEvent::Probed(size_probe()),
            ReplayAction::Draw { index, first } => {
                w.extend_from_slice(frame_text(&frames[index], first).as_bytes());
                event = ReplayEvent::Drawn;
            }
            ReplayAction::Sleep => event = ReplayEvent::Slept,
            ReplayAction::Finish(outcome) => return Ok(outcome),
        }
    }
}

#[test]
fn test_should_animate_matrix() {
    assert!(!should_animate(false, false));
    assert!(!should_animate(false, true));
    assert!(
        !should_animate(true, false),
        "non-TTY stdout must fall back to static output"
    );
    assert!(should_animate(true, true));
}

#[test]
fn test_intro_schedule_is_short() {
    let schedule = intro_schedule();
    let interval = Duration::from_millis(schedule.frame_interval_ms);
    assert!(schedule.frame_count >= 2);
    assert!(interval > Duration::ZERO);
    assert!(interval <= Duration::from_millis(250));
    let total = interval * (schedule.frame_count - 1);
    assert!(total >= Duration::from_millis(400));
    assert!(total <= Duration::from_millis(800));
}

#[test]
fn test_intro_state_lifecycle() {
    let mut state = IntroState::new();
    assert!(!state.is_active());
    assert!(!state.is_interrupted());

    state.activate();
    assert!(state.is_active());
    assert!(!state.is_interrupted());

    state.mark_interrupted();
    assert!(state.is_interrupted());
    state.mark_interrupted();
    assert!(state.is_interrupted());

    state.deactivate();
    assert!(!state.is_active());
    assert!(state.is_interrupted());
}

#[test]
fn interrupt_is_recorded_only_while_active() {
    let mut state = IntroState::new();
    assert_eq!(state.on_interrupt(), InterruptResponse::Terminate);
    assert!(!state.is_interrupted());

    state.activate();
    assert_eq!(state.on_interrupt(), InterruptResponse::Recorded);
    assert!(state.is_interrupted());

    state.deactivate();
    assert_eq!(state.on_interrupt(), InterruptResponse::Terminate);
    assert!(state.is_interrupted());
}

#[test]
fn test_draw_first_frame_matches_static_output_bytes() {
    let lines = vec!["line one".to_string(), "line two".to_string()];
    assert_eq!(frame_text(&lines, true).as_bytes(), b"line one\nline two\n");
}

#[test]
fn test_draw_first_frame_preserves_ansi_colors() {
    let lines = vec![String::from("\x1b[93mhello\x1b[0m")];
    assert_eq!(frame_text(&lines, true).as_bytes(), b"\x1b[93mhello\x1b[0m\n");
}

#[test]
fn test_draw_frame_replay_moves_cursor_and_clears_lines() {
    let lines = vec!["abc".to_string(), "def".to_string(), "ghi".to_string()];
    let mut out = frame_text(&lines, true);
    out.push_str(&frame_text(&lines, false));

    assert!(out.contains("\x1b[3A"), "must move up by the frame height");
    assert_eq!(
        out.matches("\x1b[2K").count(),
        3,
        "must clear each line in place"
    );
    assert!(!out.contains("\x1b[2J"), "must never clear the full screen");
    assert!(!out.contains("\x1b[?1049"), "must not use the alternate screen");
    assert!(!out.contains("\x1b[?47"), "must not use the alternate screen");
    assert!(
        !out.contains("\x1b[?25"),
        "frame payload must not touch cursor visibility"
    );
}

#[test]
fn replay_frame_text_is_exact() {
    let lines = vec!["ab".to_string(), "c".to_string()];
    assert_eq!(frame_text(&lines, false), "\x1b[2A\x1b[2Kab\n\x1b[2Kc\n");
    let many: Vec<String> = (0..12).map(|i| i.to_string()).collect();
    assert!(frame_text(&many, false).starts_with("\x1b[12A\x1b[2K0\n"));
}

#[test]
fn test_draw_frame_empty_lines_is_noop() {
    assert!(frame_text(&[], true).is_empty());
    assert!(frame_text(&[], false).is_empty());
}

#[test]
fn test_frame_fits_safely() {
    let lines = vec!["short".to_string(), "a bit longer line".to_string()];
    assert!(frame_fits(
        &lines,
        TerminalDimensions {
            width: 80,
            height: 24
        }
    ));
    assert!(frame_fits(
        &[],
        TerminalDimensions {
            width: 1,
            height: 1
        }
    ));
}

#[test]
fn test_frame_rejects_line_exactly_terminal_width() {
    let lines = vec!["0123456789".to_string()];
    assert!(!frame_fits(
        &lines,
        TerminalDimensions {
            width: 10,
            height: 24
        }
    ));
    assert!(frame_fits(
        &lines,
        TerminalDimensions {
            width: 11,
            height: 24
        }
    ));
}

#[test]
fn test_frame_rejects_line_wider_than_terminal() {
    let lines = vec!["0123456789x".to_string()];
    assert!(!frame_fits(
        &lines,
        TerminalDimensions {
            width: 10,
            height: 24
        }
    ));
}

#[test]
fn test_frame_rejects_height_exactly_terminal_height() {
    let lines = vec!["a".to_string(), "b".to_string(), "c".to_string()];
    assert!(!frame_fits(
        &lines,
        TerminalDimensions {
            width: 80,
            height: 3
        }
    ));
    assert!(frame_fits(
        &lines,
        TerminalDimensions {
            width: 80,
            height: 4
        }
    ));
}

#[test]
fn test_frame_fits_ignores_ansi_sequences() {
    let line = "\x1b[1;31mabcd\x1b[0m";
    assert_eq!(visible_width(line), 4);
    assert!(frame_fits(
        &[line.to_string()],
        TerminalDimensions {
            width: 5,
            height: 24
        }
    ));
    assert!(!frame_fits(
        &[line.to_string()],
        TerminalDimensions {
            width: 4,
            height: 24
        }
    ));
}

#[test]
fn frame_sequence_requires_identical_geometry() {
    let size = TerminalDimensions {
        width: 80,
        height: 24,
    };
    let a = vec!["abc".to_string(), "\x1b[31mde\x1b[0m".to_string()];
    let b = vec!["xyz".to_string(), "fg".to_string()];
    let c = vec!["xyz".to_string(), "fgh".to_string()];
    assert!(frame_sequence_fits(&[a.clone(), b.clone()], size));
    assert!(!frame_sequence_fits(&[a.clone(), c], size));
    assert!(!frame_sequence_fits(&[a.clone(), vec!["abc".to_string()]], size));
    assert!(!frame_sequence_fits(&[], size));
    assert_eq!(intro_start_size(&[a.clone(), b], Some(size)), Some(size));
    assert_eq!(intro_start_size(&[a.clone()], None), None);
    let tiny = TerminalDimensions {
        width: 3,
        height: 24,
    };
    assert_eq!(intro_start_size(&[a], Some(tiny)), None);
}

#[test]
fn test_geometry_change_stops_replay() {

    let lines = vec!["first".to_string(), "second".to_string()];
    let initial = TerminalDimensions {
        width: 80,
        height: 24,
    };
    let size = Cell::new(Some(initial));
    let schedule = IntroSchedule {
        frame_count: 4,
        frame_interval_ms: 1,
    };
    let state = IntroState::new();
    let mut buf: Vec<u8> = Vec::new();

    let outcome = replay_frames(&mut buf, &lines, &state, initial, schedule, &|| {
        size.set(Some(TerminalDimensions {
            width: 40,
            height: 12,
        }));
        size.get()
    })
    .unwrap();

    assert_eq!(outcome, IntroOutcome::Completed);
    assert_eq!(buf, b"first\nsecond\n");
    assert!(
        !buf.contains(&0x1b),
        "no control sequences may follow a resize"
    );
}

#[test]
fn test_unknown_size_stops_replay() {
    let lines = vec!["first".to_string(), "second".to_string()];
    let initial = TerminalDimensions {
        width: 80,
        height: 24,
    };
    let schedule = IntroSchedule {
        frame_count: 4,
        frame_interval_ms: 1,
    };
    let state = IntroState::new();
    let mut buf: Vec<u8> = Vec::new();

    let outcome = replay_frames(&mut buf, &lines, &state, initial, schedule, &|| None).unwrap();

    assert_eq!(outcome, IntroOutcome::Completed);
    assert_eq!(buf, b"first\nsecond\n");
}

#[test]
fn test_stable_geometry_replays_all_frames() {
    let lines = vec!["aaa".to_string(), "bbb".to_string()];
    let initial = TerminalDimensions {
        width: 80,
        height: 24,
    };
    let schedule = IntroSchedule {
        frame_count: 3,
        frame_interval_ms: 1,
    };
    let state = IntroState::new();
    let mut buf: Vec<u8> = Vec::new();

    let outcome = replay_frames(&mut buf, &lines, &state, initial, schedule, &|| {
        Some(initial)
    })
    .unwrap();

    assert_eq!(outcome, IntroOutcome::Completed);
    let out = String::from_utf8(buf).unwrap();
    assert_eq!(out.matches("\x1b[2A").count(), 2);
    assert_eq!(out.matches("\x1b[2K").count(), 4);
    assert!(!out.contains("\x1b[2J"));
}

#[test]
fn interrupted_replay_stops_after_current_frame() {
    let lines = vec!["aaa".to_string()];
    let initial = TerminalDimensions {
        width: 80,
        height: 24,
    };
    let schedule = intro_schedule();
    let mut state = IntroState::new();
    state.activate();
    state.mark_interrupted();
    let mut buf: Vec<u8> = Vec::new();
    let outcome = replay_frames(&mut buf, &lines, &state, initial, schedule, &|| Some(initial)).unwrap();
    assert_eq!(outcome, IntroOutcome::Interrupted);
    assert!(buf.is_empty());
}

#[test]
fn empty_replay_completes_without_drawing() {
    let initial = TerminalDimensions {
        width: 80,
        height: 24,
    };
    let replay = ReplayState::new(intro_schedule(), 0, initial);
    let (_, action) = replay_step(replay, ReplayEvent::Start, false);
    assert_eq!(action, ReplayAction::Finish(IntroOutcome::Completed));
}

/// The characters a terminal shows: everything but CSI escape sequences.
fn strip_ansi(s: &str) -> String {
    let mut out = String::new();
    let mut chars = s.chars().peekable();
    while let Some(c) = chars.next() {
        if c == '\x1b' && chars.peek() == Some(&'[') {
            chars.next();
            for param in chars.by_ref() {
                if ('\u{40}'..='\u{7e}').contains(&param) {
                    break;
                }
            }
        } else {
            out.push(c);
        }
    }
    out
}

#[test]
fn test_replayed_frames_keep_identical_content() {
    let lines = vec!["aaa".to_string(), "bbb".to_string()];
    let schedule = intro_schedule();
    let mut buf = frame_text(&lines, true);
    for _ in 1..schedule.frame_count {
        buf.push_str(&frame_text(&lines, false));
    }
    let visible = strip_ansi(&buf);
    assert_eq!(visible, "aaa\nbbb\n".repeat(schedule.frame_count as usize));
}

#[test]
fn replayed_colored_frame_shows_the_first_frame_text() {
    let lines = vec!["\x1b[38;5;65m▀▄\x1b[0m info".to_string(), "plain".to_string()];
    assert_eq!(strip_ansi(&frame_text(&lines, false)), strip_ansi(&frame_text(&lines, true)));
    assert_eq!(strip_ansi(&frame_text(&lines, true)), "▀▄ info\nplain\n");
}

#[test]
fn test_hide_show_cursor_sequences() {
    assert_eq!(hide_cursor().as_bytes(), b"\x1b[?25l");
    assert_eq!(show_cursor().as_bytes(), b"\x1b[?25h");
}

#[test]
fn steady_replay_draws_every_frame_in_order_then_completes() {
    let size = TerminalDimensions { width: 80, height: 24 };
    let schedule = intro_schedule();
    let mut state = ReplayState::new(schedule, schedule.frame_count as usize, size);
    let mut event = ReplayEvent::Start;
    let mut actions = Vec::new();
    loop {
        let (next, action) = replay_step(state, event, false);
        state = next;
        actions.push(action);
        event = match action {
            ReplayAction::ProbeSize => ReplayEvent::Probed(Some(size)),
            ReplayAction::Draw { .. } => ReplayEvent::Drawn,
            ReplayAction::Sleep => ReplayEvent::Slept,
            ReplayAction::Finish(_) => break,
        };
    }
    let k = schedule.frame_count as usize;
    let mut expected = vec![ReplayAction::Draw { index: 0, first: true }];
    for i in 1..k {
        expected.push(ReplayAction::Sleep);
        expected.push(ReplayAction::ProbeSize);
        expected.push(ReplayAction::Draw { index: i, first: false });
    }
    expected.push(ReplayAction::Finish(IntroOutcome::Completed));
    assert_eq!(actions, expected);
}
