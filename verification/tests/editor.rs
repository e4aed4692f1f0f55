use sixel_playground::editor::{
    adjust_selected_value, build_render_args, handle_key, param_label, param_max,
    parameter_line, parameter_lines, selected_value_mut, AppCommand, KeyCode, PAGE_STEP,
};
use sixel_playground::envelope::{parse_args, EnvParams};

#[test]
fn build_render_args_round_trips_through_parse_args() {
    let params = EnvParams {
        ar: 31,
        d1r: 24,
        d1l: 10,
        d2r: 7,
        rr: 15,
    };

    let parsed = parse_args(&build_render_args(&params));

    assert_eq!(parsed.ar, params.ar);
    assert_eq!(parsed.d1r, params.d1r);
    assert_eq!(parsed.d1l, params.d1l);
    assert_eq!(parsed.d2r, params.d2r);
    assert_eq!(parsed.rr, params.rr);
}

#[test]
fn adjust_selected_value_clamps_to_field_range() {
    let mut params = EnvParams::default();

    assert!(adjust_selected_value(&mut params, 0, 100));
    assert_eq!(params.ar, param_max(0));

    assert!(adjust_selected_value(&mut params, 4, -100));
    assert_eq!(params.rr, 0);
}

#[test]
fn handle_key_updates_selection_and_page_steps() {
    let mut params = EnvParams::default();
    let mut selected = 0usize;

    assert!(matches!(
        handle_key(KeyCode::Down, &mut selected, &mut params),
        AppCommand::Continue
    ));
    assert_eq!(selected, 1);

    assert!(matches!(
        handle_key(KeyCode::PageUp, &mut selected, &mut params),
        AppCommand::RefreshImage
    ));
    assert_eq!(params.d1r, EnvParams::default().d1r + PAGE_STEP as u32);

    assert!(matches!(
        handle_key(KeyCode::PageDown, &mut selected, &mut params),
        AppCommand::RefreshImage
    ));
    assert_eq!(params.d1r, EnvParams::default().d1r);
}

#[test]
fn build_render_args_writes_program_name_and_decimal_values() {
    let params = EnvParams {
        ar: 31,
        d1r: 0,
        d1l: 10,
        d2r: 7,
        rr: 15,
    };
    let args = build_render_args(&params);
    assert_eq!(
        args,
        vec![
            "ym2151-envelope-ratatui".to_string(),
            "31".to_string(),
            "0".to_string(),
            "10".to_string(),
            "7".to_string(),
            "15".to_string(),
        ]
    );
}

#[test]
fn adjust_selected_value_reports_unchanged_at_range_end() {
    let mut params = EnvParams::default();
    params.d1l = 15;
    assert!(!adjust_selected_value(&mut params, 2, 1));
    assert_eq!(params.d1l, 15);
    assert!(!adjust_selected_value(&mut params, 2, 0));
    assert!(adjust_selected_value(&mut params, 2, -1));
    assert_eq!(params.d1l, 14);
}

#[test]
fn adjust_selected_value_reads_large_values_as_negative_i32() {
    // 0x8000_0000 read as an i32 is i32::MIN, so any small step clamps to 0.
    let mut params = EnvParams::default();
    params.ar = 0x8000_0000;
    assert!(adjust_selected_value(&mut params, 0, 5));
    assert_eq!(params.ar, 0);
    // A value above the range but below i32::MAX clamps down to the maximum.
    params.rr = 100;
    assert!(adjust_selected_value(&mut params, 4, 1));
    assert_eq!(params.rr, 15);
}

#[test]
fn handle_key_moves_cursor_within_bounds_and_quits() {
    let mut params = EnvParams::default();
    let mut selected = 0usize;
    assert_eq!(handle_key(KeyCode::Up, &mut selected, &mut params), AppCommand::Continue);
    assert_eq!(selected, 0);
    for _ in 0..10 {
        handle_key(KeyCode::Down, &mut selected, &mut params);
    }
    assert_eq!(selected, 4);
    assert_eq!(handle_key(KeyCode::Right, &mut selected, &mut params), AppCommand::RefreshImage);
    assert_eq!(params.rr, 9);
    assert_eq!(handle_key(KeyCode::Left, &mut selected, &mut params), AppCommand::RefreshImage);
    assert_eq!(params.rr, 8);
    assert_eq!(handle_key(KeyCode::Char('x'), &mut selected, &mut params), AppCommand::Continue);
    assert_eq!(handle_key(KeyCode::Other, &mut selected, &mut params), AppCommand::Continue);
    assert_eq!(params, EnvParams::default());
    assert_eq!(handle_key(KeyCode::Char('q'), &mut selected, &mut params), AppCommand::Quit);
    assert_eq!(selected, 4);
}

#[test]
fn page_down_from_small_value_clamps_to_zero() {
    let mut params = EnvParams::default();
    let mut selected = 3usize; // D2R = 2
    assert_eq!(handle_key(KeyCode::PageDown, &mut selected, &mut params), AppCommand::RefreshImage);
    assert_eq!(params.d2r, 0);
    assert_eq!(handle_key(KeyCode::PageDown, &mut selected, &mut params), AppCommand::Continue);
    assert_eq!(params.d2r, 0);
}

#[test]
fn selected_value_mut_points_at_the_selected_register() {
    let mut params = EnvParams::default();
    {
        let (value, max) = selected_value_mut(&mut params, 2);
        assert_eq!(*value, 4);
        assert_eq!(max, 15);
        *value = 9;
    }
    assert_eq!(params.d1l, 9);
    assert_eq!(params.ar, 28);
}

#[test]
fn parameter_lines_format_and_highlight() {
    let params = EnvParams::default();
    assert_eq!(parameter_line(&params, 0, 0), "> AR  28 / 31");
    assert_eq!(parameter_line(&params, 1, 0), "  D1R 12 / 31");
    assert_eq!(parameter_line(&params, 2, 0), "  D1L  4 / 15");
    let lines = parameter_lines(&params, 4);
    assert_eq!(lines.len(), 5);
    assert_eq!(lines[4].text, "> RR   8 / 15");
    assert!(lines[4].highlighted);
    assert!(!lines[0].highlighted);
    assert_eq!(param_label(3), "D2R");
}
