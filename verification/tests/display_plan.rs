use astrofetch::cli::LayoutChoice;
use astrofetch::display_plan::{
    DisplayPlan, DisplayPlanner, LayoutKind, OutputMode, PlannerRequest, FALLBACK_HEIGHT,
    FALLBACK_WIDTH,
};
use astrofetch::terminal::TerminalDimensions;


fn planner() -> DisplayPlanner {
    DisplayPlanner::new()
}

fn terminal_dims(width: usize, height: usize) -> TerminalDimensions {
    TerminalDimensions { width, height }
}

#[test]
fn test_plan_logo_only() {
    let request = PlannerRequest {
        terminal_dimensions: None,
        requested_width: None,
        requested_height: None,
        requested_layout: LayoutChoice::Auto,
        output_mode: OutputMode::LogoOnly,
        info_visible_width: 30,
        info_line_count: 10,
    };

    let plan = planner().plan(request);
    match plan {
        DisplayPlan::LogoOnly { art } => {
            assert_eq!(art.width, FALLBACK_WIDTH);
            assert_eq!(art.height, FALLBACK_HEIGHT);
        }
        _ => panic!("Expected LogoOnly"),
    }
}

#[test]
fn test_plan_combined_no_terminal_uses_fallback() {
    let request = PlannerRequest {
        terminal_dimensions: None,
        requested_width: None,
        requested_height: None,
        requested_layout: LayoutChoice::Auto,
        output_mode: OutputMode::Combined,
        info_visible_width: 30,
        info_line_count: 10,
    };

    let plan = planner().plan(request);
    match plan {
        DisplayPlan::Combined { art, layout } => {
            assert_eq!(art.width, FALLBACK_WIDTH);
            assert_eq!(art.height, FALLBACK_HEIGHT);
            assert_eq!(layout, LayoutKind::SideBySide);
        }
        _ => panic!("Expected Combined"),
    }
}

#[test]
fn test_plan_combined_wide_terminal_uses_side_by_side() {
    let request = PlannerRequest {
        terminal_dimensions: Some(terminal_dims(120, 40)),
        requested_width: None,
        requested_height: None,
        requested_layout: LayoutChoice::Auto,
        output_mode: OutputMode::Combined,
        info_visible_width: 30,
        info_line_count: 10,
    };

    let plan = planner().plan(request);
    match plan {
        DisplayPlan::Combined { art, layout } => {
            assert_eq!(art.width, FALLBACK_WIDTH);
            assert_eq!(art.height, FALLBACK_HEIGHT);
            assert_eq!(layout, LayoutKind::SideBySide);
        }
        _ => panic!("Expected Combined"),
    }
}

#[test]
fn test_plan_explicit_width_is_not_shrunk() {
    let request = PlannerRequest {
        terminal_dimensions: Some(terminal_dims(55, 40)),
        requested_width: Some(40),
        requested_height: None,
        requested_layout: LayoutChoice::Auto,
        output_mode: OutputMode::Combined,
        info_visible_width: 30,
        info_line_count: 10,
    };

    let plan = planner().plan(request);
    match plan {
        DisplayPlan::Combined { art, layout } => {
            assert_eq!(art.width, 40);
            assert_eq!(layout, LayoutKind::Stacked);
        }
        _ => panic!("Expected Combined"),
    }
}

#[test]
fn test_plan_explicit_stacked_is_honored() {
    let request = PlannerRequest {
        terminal_dimensions: Some(terminal_dims(120, 40)),
        requested_width: None,
        requested_height: None,
        requested_layout: LayoutChoice::Stacked,
        output_mode: OutputMode::Combined,
        info_visible_width: 30,
        info_line_count: 10,
    };

    let plan = planner().plan(request);
    match plan {
        DisplayPlan::Combined { art: _, layout } => {
            assert_eq!(layout, LayoutKind::Stacked);
        }
        _ => panic!("Expected Combined"),
    }
}

#[test]
fn test_plan_explicit_side_by_side_is_honored() {
    let request = PlannerRequest {
        terminal_dimensions: Some(terminal_dims(60, 40)),
        requested_width: None,
        requested_height: None,
        requested_layout: LayoutChoice::SideBySide,
        output_mode: OutputMode::Combined,
        info_visible_width: 30,
        info_line_count: 10,
    };

    let plan = planner().plan(request);
    match plan {
        DisplayPlan::Combined { art: _, layout } => {
            assert_eq!(layout, LayoutKind::SideBySide);
        }
        _ => panic!("Expected Combined"),
    }
}

#[test]
fn test_plan_width_only_derives_height() {
    let request = PlannerRequest {
        terminal_dimensions: None,
        requested_width: Some(40),
        requested_height: None,
        requested_layout: LayoutChoice::Auto,
        output_mode: OutputMode::Combined,
        info_visible_width: 30,
        info_line_count: 10,
    };

    let plan = planner().plan(request);
    match plan {
        DisplayPlan::Combined { art, .. } => {
            assert_eq!(art.width, 40);
            assert_eq!(art.height, 20);
        }
        _ => panic!("Expected Combined"),
    }
}

#[test]
fn test_plan_height_only_derives_width() {
    let request = PlannerRequest {
        terminal_dimensions: None,
        requested_width: None,
        requested_height: Some(20),
        requested_layout: LayoutChoice::Auto,
        output_mode: OutputMode::Combined,
        info_visible_width: 30,
        info_line_count: 10,
    };

    let plan = planner().plan(request);
    match plan {
        DisplayPlan::Combined { art, .. } => {
            assert_eq!(art.width, 40);
            assert_eq!(art.height, 20);
        }
        _ => panic!("Expected Combined"),
    }
}

#[test]
fn test_plan_logo_only_does_not_depend_on_info_dimensions() {
    let request = PlannerRequest {
        terminal_dimensions: None,
        requested_width: None,
        requested_height: None,
        requested_layout: LayoutChoice::Auto,
        output_mode: OutputMode::LogoOnly,
        info_visible_width: 100,
        info_line_count: 50,
    };

    let plan = planner().plan(request);
    match plan {
        DisplayPlan::LogoOnly { art } => {
            assert_eq!(art.width, FALLBACK_WIDTH);
            assert_eq!(art.height, FALLBACK_HEIGHT);
        }
        _ => panic!("Expected LogoOnly"),
    }
}

#[test]
fn test_plan_auto_height_respects_terminal_height() {
    let request = PlannerRequest {
        terminal_dimensions: Some(terminal_dims(80, 30)),
        requested_width: None,
        requested_height: None,
        requested_layout: LayoutChoice::Auto,
        output_mode: OutputMode::Combined,
        info_visible_width: 30,
        info_line_count: 10,
    };

    let plan = planner().plan(request);
    match plan {
        DisplayPlan::Combined { art, .. } => {
            assert_eq!(art.height, 20);
        }
        _ => panic!("Expected Combined"),
    }
}

#[test]
fn test_automatic_vs_explicit_width_behavior() {
    let request_automatic = PlannerRequest {
        terminal_dimensions: Some(terminal_dims(55, 30)),
        requested_width: None,
        requested_height: None,
        requested_layout: LayoutChoice::Auto,
        output_mode: OutputMode::Combined,
        info_visible_width: 20,
        info_line_count: 10,
    };

    let request_explicit = PlannerRequest {
        terminal_dimensions: Some(terminal_dims(55, 30)),
        requested_width: Some(40),
        requested_height: None,
        requested_layout: LayoutChoice::Auto,
        output_mode: OutputMode::Combined,
        info_visible_width: 20,
        info_line_count: 10,
    };

    let planner = DisplayPlanner::new();
    let plan_automatic = planner.plan(request_automatic);
    let plan_explicit = planner.plan(request_explicit);

    match (plan_automatic, plan_explicit) {
        (
            DisplayPlan::Combined {
                art: art_auto,
                layout: layout_auto,
                ..
            },
            DisplayPlan::Combined {
                art: art_exp,
                layout: layout_exp,
                ..
            },
        ) => {
            assert_eq!(layout_auto, LayoutKind::SideBySide);
            assert_eq!(art_auto.width, 33);
            assert_eq!(layout_exp, LayoutKind::Stacked);
            assert_eq!(art_exp.width, 40);
        }
        _ => panic!("Expected Combined"),
    }
}

#[test]
fn test_automatic_layout_stacked_when_info_wider_than_terminal() {
    let request = PlannerRequest {
        terminal_dimensions: Some(terminal_dims(20, 40)),
        requested_width: None,
        requested_height: None,
        requested_layout: LayoutChoice::Auto,
        output_mode: OutputMode::Combined,
        info_visible_width: 30,
        info_line_count: 10,
    };

    let plan = planner().plan(request);
    match plan {
        DisplayPlan::Combined { layout, .. } => {
            assert_eq!(layout, LayoutKind::Stacked);
        }
        _ => panic!("Expected Combined"),
    }
}

#[test]
fn test_logo_only_wide_terminal_adapts() {
    let request = PlannerRequest {
        terminal_dimensions: Some(terminal_dims(120, 40)),
        requested_width: None,
        requested_height: None,
        requested_layout: LayoutChoice::Auto,
        output_mode: OutputMode::LogoOnly,
        info_visible_width: 0,
        info_line_count: 0,
    };

    let plan = planner().plan(request);
    match plan {
        DisplayPlan::LogoOnly { art } => {
            assert_eq!(art.width, 40);
            assert_eq!(art.height, 20);
        }
        _ => panic!("Expected LogoOnly"),
    }
}

#[test]
fn test_logo_only_no_terminal_uses_fallback() {
    let request = PlannerRequest {
        terminal_dimensions: None,
        requested_width: None,
        requested_height: None,
        requested_layout: LayoutChoice::Auto,
        output_mode: OutputMode::LogoOnly,
        info_visible_width: 0,
        info_line_count: 0,
    };

    let plan = planner().plan(request);
    match plan {
        DisplayPlan::LogoOnly { art } => {
            assert_eq!(art.width, FALLBACK_WIDTH);
            assert_eq!(art.height, FALLBACK_HEIGHT);
        }
        _ => panic!("Expected LogoOnly"),
    }
}

#[test]
fn test_logo_only_explicit_dimensions() {
    let request = PlannerRequest {
        terminal_dimensions: Some(terminal_dims(30, 12)),
        requested_width: Some(50),
        requested_height: Some(25),
        requested_layout: LayoutChoice::Auto,
        output_mode: OutputMode::LogoOnly,
        info_visible_width: 0,
        info_line_count: 0,
    };

    let plan = planner().plan(request);
    match plan {
        DisplayPlan::LogoOnly { art } => {
            assert_eq!(art.width, 50);
            assert_eq!(art.height, 25);
        }
        _ => panic!("Expected LogoOnly"),
    }
}

#[test]
fn test_side_by_side_auto_height_uses_terminal_height() {
    let request = PlannerRequest {
        terminal_dimensions: Some(terminal_dims(120, 10)),
        requested_width: None,
        requested_height: None,
        requested_layout: LayoutChoice::Auto,
        output_mode: OutputMode::Combined,
        info_visible_width: 30,
        info_line_count: 10,
    };

    let plan = planner().plan(request);
    match plan {
        DisplayPlan::Combined { art, layout } => {
            assert_eq!(layout, LayoutKind::SideBySide);
            assert_eq!(art.height, 10);
        }
        _ => panic!("Expected Combined"),
    }
}

#[test]
fn test_side_by_side_explicit_width_auto_height() {
    let request = PlannerRequest {
        terminal_dimensions: Some(terminal_dims(80, 10)),
        requested_width: Some(40),
        requested_height: None,
        requested_layout: LayoutChoice::SideBySide,
        output_mode: OutputMode::Combined,
        info_visible_width: 30,
        info_line_count: 10,
    };

    let plan = planner().plan(request);
    match plan {
        DisplayPlan::Combined { art, layout } => {
            assert_eq!(layout, LayoutKind::SideBySide);
            assert_eq!(art.width, 40);
            assert_eq!(art.height, 10);
        }
        _ => panic!("Expected Combined"),
    }
}

#[test]
fn test_height_only_no_terminal() {
    let request = PlannerRequest {
        terminal_dimensions: None,
        requested_width: None,
        requested_height: Some(30),
        requested_layout: LayoutChoice::Auto,
        output_mode: OutputMode::Combined,
        info_visible_width: 30,
        info_line_count: 10,
    };

    let plan = planner().plan(request);
    match plan {
        DisplayPlan::Combined { art, .. } => {
            assert_eq!(art.width, 60);
            assert_eq!(art.height, 30);
        }
        _ => panic!("Expected Combined"),
    }
}

#[test]
fn test_auto_height_preserves_2_1_ratio_after_width_shrinking() {
    let request = PlannerRequest {
        terminal_dimensions: Some(terminal_dims(60, 40)),
        requested_width: None,
        requested_height: None,
        requested_layout: LayoutChoice::Auto,
        output_mode: OutputMode::Combined,
        info_visible_width: 30,
        info_line_count: 10,
    };

    let plan = planner().plan(request);
    match plan {
        DisplayPlan::Combined { art, layout } => {
            assert_eq!(art.width, 28);
            assert_eq!(art.height, 14);
            assert_eq!(layout, LayoutKind::SideBySide);
        }
        _ => panic!("Expected Combined"),
    }
}

#[test]
fn test_medium_terminal_explicit_width_uses_stacked() {
    let request = PlannerRequest {
        terminal_dimensions: Some(terminal_dims(55, 30)),
        requested_width: Some(40),
        requested_height: None,
        requested_layout: LayoutChoice::Auto,
        output_mode: OutputMode::Combined,
        info_visible_width: 20,
        info_line_count: 10,
    };

    let plan = planner().plan(request);
    match plan {
        DisplayPlan::Combined { art, layout } => {
            assert_eq!(layout, LayoutKind::Stacked);
            assert_eq!(art.width, 40);
        }
        _ => panic!("Expected Combined"),
    }
}

#[test]
fn test_stacked_vertical_planning_with_info_lines() {
    let request = PlannerRequest {
        terminal_dimensions: Some(terminal_dims(40, 20)),
        requested_width: None,
        requested_height: None,
        requested_layout: LayoutChoice::Stacked,
        output_mode: OutputMode::Combined,
        info_visible_width: 20,
        info_line_count: 10,
    };

    let plan = planner().plan(request);
    match plan {
        DisplayPlan::Combined { art, layout } => {
            assert_eq!(layout, LayoutKind::Stacked);
            assert_eq!(art.width, 40);
            assert_eq!(art.height, 9);
        }
        _ => panic!("Expected Combined"),
    }
}

#[test]
fn test_stacked_insufficient_height() {
    let request = PlannerRequest {
        terminal_dimensions: Some(terminal_dims(40, 8)),
        requested_width: None,
        requested_height: None,
        requested_layout: LayoutChoice::Stacked,
        output_mode: OutputMode::Combined,
        info_visible_width: 20,
        info_line_count: 10,
    };

    let plan = planner().plan(request);
    match plan {
        DisplayPlan::Combined { art, layout } => {
            assert_eq!(layout, LayoutKind::Stacked);
            assert_eq!(art.width, 40);
            assert_eq!(art.height, 1);
        }
        _ => panic!("Expected Combined"),
    }
}

#[test]
fn test_stacked_explicit_height() {
    let request = PlannerRequest {
        terminal_dimensions: Some(terminal_dims(40, 8)),
        requested_width: None,
        requested_height: Some(25),
        requested_layout: LayoutChoice::Stacked,
        output_mode: OutputMode::Combined,
        info_visible_width: 20,
        info_line_count: 10,
    };

    let plan = planner().plan(request);
    match plan {
        DisplayPlan::Combined { art, layout } => {
            assert_eq!(layout, LayoutKind::Stacked);
            assert_eq!(art.width, 40);
            assert_eq!(art.height, 25);
        }
        _ => panic!("Expected Combined"),
    }
}

#[test]
fn test_height_only_with_terminal() {
    let request = PlannerRequest {
        terminal_dimensions: Some(terminal_dims(40, 20)),
        requested_width: None,
        requested_height: Some(30),
        requested_layout: LayoutChoice::Auto,
        output_mode: OutputMode::Combined,
        info_visible_width: 20,
        info_line_count: 10,
    };

    let plan = planner().plan(request);
    match plan {
        DisplayPlan::Combined { art, .. } => {
            assert_eq!(art.width, 40);
            assert_eq!(art.height, 30);
        }
        _ => panic!("Expected Combined"),
    }
}

#[test]
fn test_width_only_with_terminal() {
    let request = PlannerRequest {
        terminal_dimensions: Some(terminal_dims(40, 20)),
        requested_width: Some(60),
        requested_height: None,
        requested_layout: LayoutChoice::Auto,
        output_mode: OutputMode::Combined,
        info_visible_width: 20,
        info_line_count: 10,
    };

    let plan = planner().plan(request);
    match plan {
        DisplayPlan::Combined { art, .. } => {
            assert_eq!(art.width, 60);
            assert_eq!(art.height, 9);
        }
        _ => panic!("Expected Combined"),
    }
}

#[test]
fn test_stacked_empty_info_lines() {
    let request = PlannerRequest {
        terminal_dimensions: Some(terminal_dims(40, 20)),
        requested_width: None,
        requested_height: None,
        requested_layout: LayoutChoice::Stacked,
        output_mode: OutputMode::Combined,
        info_visible_width: 0,
        info_line_count: 0,
    };

    let plan = planner().plan(request);
    match plan {
        DisplayPlan::Combined { art, layout } => {
            assert_eq!(layout, LayoutKind::Stacked);
            assert_eq!(art.width, 40);
            assert_eq!(art.height, 20);
        }
        _ => panic!("Expected Combined"),
    }
}

fn combined(dims: Option<TerminalDimensions>, layout: LayoutChoice, info_width: usize, info_lines: usize) -> DisplayPlan {
    planner().plan(PlannerRequest {
        terminal_dimensions: dims,
        requested_width: None,
        requested_height: None,
        requested_layout: layout,
        output_mode: OutputMode::Combined,
        info_visible_width: info_width,
        info_line_count: info_lines,
    })
}

#[test]
fn side_by_side_art_fills_the_room_beside_the_information() {
    match combined(Some(terminal_dims(60, 40)), LayoutChoice::SideBySide, 30, 10) {
        DisplayPlan::Combined { art, layout } => {
            assert_eq!(layout, LayoutKind::SideBySide);
            assert_eq!((art.width, art.height), (28, 14));
        }
        _ => panic!("Expected Combined"),
    }
}

#[test]
fn stacked_art_leaves_room_for_the_information_lines() {
    for (height, expected) in [(20, (40, 9)), (8, (40, 1))] {
        match combined(Some(terminal_dims(40, height)), LayoutChoice::Stacked, 30, 10) {
            DisplayPlan::Combined { art, layout } => {
                assert_eq!(layout, LayoutKind::Stacked);
                assert_eq!((art.width, art.height), expected);
            }
            _ => panic!("Expected Combined"),
        }
    }
}

#[test]
fn automatic_layout_needs_twenty_columns_beside_the_information() {
    let layout_of = |width: usize| match combined(Some(terminal_dims(width, 40)), LayoutChoice::Auto, 30, 10) {
        DisplayPlan::Combined { layout, .. } => layout,
        _ => panic!("Expected Combined"),
    };
    assert_eq!(layout_of(52), LayoutKind::SideBySide);
    assert_eq!(layout_of(51), LayoutKind::Stacked);
    assert_eq!(layout_of(10), LayoutKind::Stacked);
    match combined(None, LayoutChoice::Auto, 300, 10) {
        DisplayPlan::Combined { layout, .. } => assert_eq!(layout, LayoutKind::SideBySide),
        _ => panic!("Expected Combined"),
    }
}
