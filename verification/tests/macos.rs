use minal::macos::applescript_quote;

#[test]
fn test_applescript_quote() {
    assert_eq!(applescript_quote("hello"), "\"hello\"");
    assert_eq!(applescript_quote("he\"llo"), "\"he\\\"llo\"");
    assert_eq!(applescript_quote("he\\llo"), "\"he\\\\llo\"");
    assert_eq!(applescript_quote(""), "\"\"");
}

#[test]
fn applescript_quote_escapes_mixed_text() {
    assert_eq!(applescript_quote("a\\\"b"), "\"a\\\\\\\"b\"");
    assert_eq!(applescript_quote("日本"), "\"日本\"");
}

#[test]
fn notification_script_quotes_title_and_body() {
    assert_eq!(
        minal::macos::notification_script("Build \"done\"", "C:\\tmp"),
        "display notification \"C:\\\\tmp\" with title \"Build \\\"done\\\"\""
    );
}
