use ether_pinger::cli::{parse_args, parse_port, same_text, starts_with_dashes, CliEnd, DEFAULT_PORT};
use ether_pinger::stats::AppMode;

fn args(words: &[&str]) -> Vec<String> {
    words.iter().map(|w| w.to_string()).collect()
}

#[test]
fn no_arguments_give_the_defaults() {
    for line in [args(&["monitor"]), args(&[])] {
        let r = parse_args(&line);
        assert_eq!(r.mode, AppMode::Icmp);
        assert_eq!(r.port, 80);
        assert_eq!(r.xml_path, "output.xml");
        assert!(r.invalid_ports.is_empty());
        assert!(matches!(r.end, CliEnd::Run));
    }
    assert_eq!(DEFAULT_PORT, 80);
}

#[test]
fn http_port_and_path() {
    let r = parse_args(&args(&["monitor", "--http", "--port", "443", "scan_results.xml"]));
    assert_eq!(r.mode, AppMode::Http);
    assert_eq!(r.port, 443);
    assert_eq!(r.xml_path, "scan_results.xml");
    assert!(r.invalid_ports.is_empty());
    assert!(matches!(r.end, CliEnd::Run));
}

#[test]
fn the_last_path_wins() {
    let r = parse_args(&args(&["monitor", "a.xml", "-x", "b.xml"]));
    assert_eq!(r.xml_path, "b.xml");
    let r = parse_args(&args(&["monitor", "a.xml", "-"]));
    assert_eq!(r.xml_path, "-");
    let r = parse_args(&args(&["monitor", ""]));
    assert_eq!(r.xml_path, "");
}

#[test]
fn help_ends_the_reading() {
    let r = parse_args(&args(&["monitor", "--http", "--help", "--bogus"]));
    assert!(matches!(r.end, CliEnd::Help));
    assert_eq!(r.mode, AppMode::Http);
    let r = parse_args(&args(&["monitor", "-h"]));
    assert!(matches!(r.end, CliEnd::Help));
}

#[test]
fn an_invalid_port_falls_back_to_the_default() {
    let r = parse_args(&args(&["monitor", "--port", "8080", "--port", "http", "x.xml"]));
    assert_eq!(r.port, 80);
    assert_eq!(r.invalid_ports, vec!["http".to_string()]);
    assert_eq!(r.xml_path, "x.xml");
    assert!(matches!(r.end, CliEnd::Run));
    let r = parse_args(&args(&["monitor", "--port", "--http"]));
    assert_eq!(r.port, 80);
    assert_eq!(r.mode, AppMode::Icmp);
    assert_eq!(r.invalid_ports, vec!["--http".to_string()]);
}

#[test]
fn a_port_without_value_ends_the_reading() {
    let r = parse_args(&args(&["monitor", "--http", "--port"]));
    assert!(matches!(r.end, CliEnd::MissingPortValue));
    assert_eq!(r.mode, AppMode::Http);
}

#[test]
fn an_unknown_option_ends_the_reading() {
    let r = parse_args(&args(&["monitor", "--https", "x.xml"]));
    match r.end {
        CliEnd::UnknownOption(option) => assert_eq!(option, "--https"),
        _ => panic!("the option is unknown"),
    }
    assert_eq!(r.xml_path, "output.xml");
    let r = parse_args(&args(&["monitor", "--"]));
    assert!(matches!(r.end, CliEnd::UnknownOption(_)));
}

#[test]
fn ports_are_decimal_numbers_up_to_65535() {
    assert_eq!(parse_port("0"), Some(0));
    assert_eq!(parse_port("80"), Some(80));
    assert_eq!(parse_port("0080"), Some(80));
    assert_eq!(parse_port("+80"), Some(80));
    assert_eq!(parse_port("65535"), Some(65_535));
    assert_eq!(parse_port("65536"), None);
    assert_eq!(parse_port("99999999999999999999"), None);
    assert_eq!(parse_port(""), None);
    assert_eq!(parse_port("+"), None);
    assert_eq!(parse_port("-1"), None);
    assert_eq!(parse_port("++1"), None);
    assert_eq!(parse_port("8o"), None);
    assert_eq!(parse_port(" 80"), None);
    assert_eq!(parse_port("80 "), None);
    assert_eq!(parse_port("\u{0668}\u{0660}"), None);
}

#[test]
fn ports_agree_with_the_standard_parser() {
    for text in ["0", "7", "+7", "007", "65535", "65536", "", "+", "-", "-0", "1e3", "0x10", "12a"] {
        assert_eq!(parse_port(text), text.parse::<u16>().ok());
    }
}

#[test]
fn text_comparisons() {
    assert!(same_text("--http", "--http"));
    assert!(!same_text("--http", "--https"));
    assert!(!same_text("--http", "--htt"));
    assert!(same_text("", ""));
    assert!(starts_with_dashes("--x"));
    assert!(starts_with_dashes("--"));
    assert!(!starts_with_dashes("-x"));
    assert!(!starts_with_dashes("-"));
    assert!(!starts_with_dashes(""));
    assert!(!starts_with_dashes("\u{2014}-"));
}
