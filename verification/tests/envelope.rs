use sixel_playground::decimal::parse_u32;
use sixel_playground::editor::parameter_line;
use sixel_playground::envelope::{parse_args, EnvParams};

fn args(list: &[&str]) -> Vec<String> {
    list.iter().map(|s| s.to_string()).collect()
}

#[test]
fn parse_args_uses_defaults_when_missing() {
    let p = parse_args(&args(&["prog"]));
    assert_eq!(p, EnvParams::default());
    assert_eq!(p, EnvParams { ar: 28, d1r: 12, d1l: 4, d2r: 2, rr: 8 });
    let empty: Vec<String> = Vec::new();
    assert_eq!(parse_args(&empty), EnvParams::default());
}

#[test]
fn parse_args_reads_and_clamps_values() {
    let p = parse_args(&args(&["prog", "31", "10", "8", "4", "8"]));
    assert_eq!(p, EnvParams { ar: 31, d1r: 10, d1l: 8, d2r: 4, rr: 8 });
    let p = parse_args(&args(&["prog", "99", "32", "16", "1000", "4294967295"]));
    assert_eq!(p, EnvParams { ar: 31, d1r: 31, d1l: 15, d2r: 31, rr: 15 });
}

#[test]
fn parse_args_falls_back_on_invalid_values() {
    let p = parse_args(&args(&["prog", "x", "-1", " 3", "4294967296", "+7"]));
    assert_eq!(p, EnvParams { ar: 28, d1r: 12, d1l: 4, d2r: 2, rr: 7 });
}

#[test]
fn parse_u32_matches_std_parse() {
    for s in ["", "+", "-", "0", "+0", "007", "12a", "4294967295", "4294967296", "-0", "１", " 1", "+-1"] {
        assert_eq!(parse_u32(s), s.parse::<u32>().ok(), "input {s:?}");
    }
}

#[test]
fn values_are_written_in_base_ten() {
    let p = EnvParams { ar: 0, d1r: 7, d1l: 15, d2r: 31, rr: 3 };
    assert_eq!(parameter_line(&p, 0, 9), "  AR   0 / 31");
    assert_eq!(parameter_line(&p, 3, 3), "> D2R 31 / 31");
    let wide = EnvParams { ar: 4294967295, ..p };
    assert_eq!(parameter_line(&wide, 0, 0), "> AR  4294967295 / 31");
}
