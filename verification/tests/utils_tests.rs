use candle_stick_plotter::utils::{file_exists, to_uppercase, trim_string};

#[test]
fn test_file_exists() {
    let exists = file_exists("/proc/cpuinfo");
    assert!(exists || !exists);
}

#[test]
fn test_to_uppercase() {
    assert_eq!(to_uppercase("hello"), "HELLO");
    assert_eq!(to_uppercase("Hello World"), "HELLO WORLD");
    assert_eq!(to_uppercase("123abc"), "123ABC");
}

#[test]
fn test_trim_string() {
    assert_eq!(trim_string("  hello  "), "hello");
    assert_eq!(trim_string("hello"), "hello");
    assert_eq!(trim_string(""), "");
}

#[test]
fn test_to_uppercase_special_chars() {
    assert_eq!(to_uppercase("hello@world#123"), "HELLO@WORLD#123");
    assert_eq!(to_uppercase(""), "");
}

#[test]
fn test_trim_string_unicode_whitespace() {
    assert_eq!(trim_string("\t\n hi \r\n"), "hi");
    assert_eq!(trim_string("\u{a0}pad\u{3000}"), "pad");
    assert_eq!(trim_string("   "), "");
}
