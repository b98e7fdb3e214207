use rainmeter_remote_simple_metric_server::config::{
    flag_of_exec, parse_unsigned_exec, str_eq, Config, Flag,
};

fn args(a: &[&str]) -> Vec<String> {
    a.iter().map(|s| s.to_string()).collect()
}

fn some(s: &str) -> Option<String> {
    Some(s.to_string())
}

#[test]
fn defaults_without_environment_or_flags() {
    let c = Config::from_env(None, None, None, None, &args(&["server"]));
    assert_eq!((c.host.as_str(), c.port, c.path.as_str(), c.interval), ("0.0.0.0", 3000, "/stats", 1));
}

#[test]
fn empty_argument_list() {
    let c = Config::from_env(None, None, None, None, &vec![]);
    assert_eq!(c.port, 3000);
}

#[test]
fn environment_values() {
    let c = Config::from_env(some("127.0.0.1"), some("8080"), some("/m"), some("5"), &args(&["s"]));
    assert_eq!((c.host.as_str(), c.port, c.path.as_str(), c.interval), ("127.0.0.1", 8080, "/m", 5));
}

#[test]
fn unparsable_environment_numbers_fall_back_to_defaults() {
    let c = Config::from_env(None, some("http"), None, some("-1"), &args(&["s"]));
    assert_eq!((c.port, c.interval), (3000, 1));
    let c = Config::from_env(None, some("70000"), None, some(""), &args(&["s"]));
    assert_eq!((c.port, c.interval), (3000, 1));
}

#[test]
fn flags_override_environment() {
    let c = Config::from_env(
        some("127.0.0.1"),
        some("8080"),
        some("/m"),
        some("5"),
        &args(&["s", "--host", "::1", "-p", "9000", "--path", "/x", "-i", "2"]),
    );
    assert_eq!((c.host.as_str(), c.port, c.path.as_str(), c.interval), ("::1", 9000, "/x", 2));
    let c = Config::from_env(None, None, None, None, &args(&["s", "-h", "h", "--port", "1", "--interval", "9"]));
    assert_eq!((c.host.as_str(), c.port, c.interval), ("h", 1, 9));
}

#[test]
fn unparsable_flag_value_keeps_previous_value() {
    let c = Config::from_env(None, some("8080"), None, some("5"), &args(&["s", "-p", "x", "-i", "1.5"]));
    assert_eq!((c.port, c.interval), (8080, 5));
}

#[test]
fn unknown_flags_and_trailing_flag_are_skipped() {
    let c = Config::from_env(None, None, None, None, &args(&["s", "--verbose", "-p", "81", "--port"]));
    assert_eq!(c.port, 81);
    let c = Config::from_env(None, None, None, None, &args(&["s", "--path"]));
    assert_eq!(c.path, "/stats");
    // the program's own name is never read as a flag
    let c = Config::from_env(None, None, None, None, &args(&["-p", "81"]));
    assert_eq!(c.port, 3000);
}

#[test]
fn flag_value_is_consumed_even_if_it_looks_like_a_flag() {
    let c = Config::from_env(None, None, None, None, &args(&["s", "--host", "-p", "82"]));
    assert_eq!((c.host.as_str(), c.port), ("-p", 3000));
}

#[test]
fn unsigned_parsing() {
    assert_eq!(parse_unsigned_exec("", 100), None);
    assert_eq!(parse_unsigned_exec("+", 100), None);
    assert_eq!(parse_unsigned_exec("+7", 100), Some(7));
    assert_eq!(parse_unsigned_exec("007", 100), Some(7));
    assert_eq!(parse_unsigned_exec("-0", 100), None);
    assert_eq!(parse_unsigned_exec(" 7", 100), None);
    assert_eq!(parse_unsigned_exec("100", 100), Some(100));
    assert_eq!(parse_unsigned_exec("101", 100), None);
    assert_eq!(parse_unsigned_exec("65535", 65535), Some(65535));
    assert_eq!(parse_unsigned_exec("65536", 65535), None);
    assert_eq!(parse_unsigned_exec("18446744073709551615", u64::MAX), Some(u64::MAX));
    assert_eq!(parse_unsigned_exec("18446744073709551616", u64::MAX), None);
    assert_eq!(parse_unsigned_exec("99999999999999999999999x", u64::MAX), None);
    for s in ["0", "+12", "65535", "65536", "", "+", "-1", "1e3", "٣"] {
        assert_eq!(parse_unsigned_exec(s, 65535).map(|v| v as u16), s.parse::<u16>().ok(), "{s}");
    }
}

#[test]
fn flag_table() {
    assert_eq!(flag_of_exec("--host"), Some(Flag::Host));
    assert_eq!(flag_of_exec("-h"), Some(Flag::Host));
    assert_eq!(flag_of_exec("--port"), Some(Flag::Port));
    assert_eq!(flag_of_exec("-p"), Some(Flag::Port));
    assert_eq!(flag_of_exec("--path"), Some(Flag::Path));
    assert_eq!(flag_of_exec("--interval"), Some(Flag::Interval));
    assert_eq!(flag_of_exec("-i"), Some(Flag::Interval));
    assert_eq!(flag_of_exec("--hosts"), None);
    assert_eq!(flag_of_exec("-P"), None);
}

#[test]
fn string_equality() {
    assert!(str_eq("/stats", "/stats"));
    assert!(!str_eq("/stats", "/stats/"));
    assert!(!str_eq("/stats", "/statz"));
    assert!(str_eq("", ""));
}
