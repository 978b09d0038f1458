use worker_supervisor::ports::{has_flag, parse_port_arg, parse_u16};

fn args(v: &[&str]) -> Vec<String> {
    v.iter().map(|s| s.to_string()).collect()
}

#[test]
fn backend_port_space_syntax() {
    assert_eq!(parse_port_arg(&args(&["--backend-port", "9999"]), "--backend-port", 38081), 9999);
}

#[test]
fn backend_port_equals_syntax() {
    assert_eq!(parse_port_arg(&args(&["--backend-port=9999"]), "--backend-port", 38081), 9999);
}

#[test]
fn backend_port_non_numeric_ignored() {
    assert_eq!(parse_port_arg(&args(&["--backend-port", "abc"]), "--backend-port", 38081), 38081);
}

#[test]
fn backend_port_empty_args_default() {
    assert_eq!(parse_port_arg(&args(&[]), "--backend-port", 38081), 38081);
}

#[test]
fn backend_port_last_occurrence_wins() {
    let a = args(&["--backend-port", "1", "--backend-port", "2"]);
    assert_eq!(parse_port_arg(&a, "--backend-port", 38081), 2);
}

#[test]
fn backend_port_last_occurrence_wins_mixed_syntax() {
    let a = args(&["--backend-port=1", "--backend-port", "2"]);
    assert_eq!(parse_port_arg(&a, "--backend-port", 38081), 2);
    let b = args(&["--backend-port", "1", "--backend-port=2"]);
    assert_eq!(parse_port_arg(&b, "--backend-port", 38081), 2);
}

#[test]
fn backend_port_malformed_occurrence_does_not_override() {
    let a = args(&["--backend-port", "1", "--backend-port", "abc"]);
    assert_eq!(parse_port_arg(&a, "--backend-port", 38081), 1);
}

#[test]
fn backend_port_out_of_range_ignored() {
    assert_eq!(parse_port_arg(&args(&["--backend-port", "65536"]), "--backend-port", 38081), 38081);
    assert_eq!(parse_port_arg(&args(&["--backend-port=70000"]), "--backend-port", 38081), 38081);
}

#[test]
fn backend_port_flag_without_value_ignored() {
    assert_eq!(parse_port_arg(&args(&["--backend-port"]), "--backend-port", 38081), 38081);
    assert_eq!(parse_port_arg(&args(&["--backend-port="]), "--backend-port", 38081), 38081);
}

#[test]
fn frontend_port_independent_of_backend_flag() {
    let a = args(&["--backend-port", "1234", "--frontend-port", "5678"]);
    assert_eq!(parse_port_arg(&a, "--backend-port", 38081), 1234);
    assert_eq!(parse_port_arg(&a, "--frontend-port", 38080), 5678);
}

#[test]
fn with_console_flag_detection() {
    assert!(has_flag(&args(&["--backend-port", "1", "--with-console"]), "--with-console"));
    assert!(!has_flag(&args(&["--with-console=1"]), "--with-console"));
    assert!(!has_flag(&args(&[]), "--with-console"));
}

#[test]
fn parse_u16_bounds() {
    assert_eq!(parse_u16("65535"), Some(65535));
    assert_eq!(parse_u16("65536"), None);
    assert_eq!(parse_u16("0"), Some(0));
    assert_eq!(parse_u16("007"), Some(7));
}

#[test]
fn parse_u16_sign_and_garbage() {
    assert_eq!(parse_u16("+123"), Some(123));
    assert_eq!(parse_u16("+"), None);
    assert_eq!(parse_u16(""), None);
    assert_eq!(parse_u16("abc"), None);
    assert_eq!(parse_u16("12a"), None);
    assert_eq!(parse_u16("-1"), None);
}

#[test]
fn parse_u16_huge_input_rejected() {
    assert_eq!(parse_u16("12345678901234567890123456789"), None);
}
