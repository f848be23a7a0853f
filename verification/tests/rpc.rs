use tauri_ipc::error::Error;
use tauri_ipc::rpc::{
    answer_script, check_json_len, escape_json_parse, failure_script, format_callback,
    format_callback_result, settle, MAX_JSON_STR_LEN, MIN_JSON_PARSE_LEN,
};

#[test]
fn rpc_test_escape_json_parse() {
    let dangerous_json = String::from(
        r#"{"test":"don\\🚀🐱‍👤\\'t forget to escape me!🚀🐱‍👤","te🚀🐱‍👤st2":"don't forget to escape me!","test3":"\\🚀🐱‍👤\\\\'''\\\\🚀🐱‍👤\\\\🚀🐱‍👤\\'''''"}"#,
    );

    let definitely_escaped_dangerous_json = format!(
        "JSON.parse('{}')",
        dangerous_json.replace('\\', "\\\\").replace('\'', "\\'")
    );
    let escape_single_quoted_json_test = escape_json_parse(&dangerous_json);

    let result = r#"JSON.parse('{"test":"don\\\\🚀🐱‍👤\\\\\'t forget to escape me!🚀🐱‍👤","te🚀🐱‍👤st2":"don\'t forget to escape me!","test3":"\\\\🚀🐱‍👤\\\\\\\\\'\'\'\\\\\\\\🚀🐱‍👤\\\\\\\\🚀🐱‍👤\\\\\'\'\'\'\'"}')"#;
    assert_eq!(definitely_escaped_dangerous_json, result);
    assert_eq!(escape_single_quoted_json_test, result);
}

fn read_literal(body: &str) -> String {
    let mut out = String::new();
    let mut chars = body.chars();
    while let Some(c) = chars.next() {
        if c == '\\' {
            let next = chars.next().unwrap();
            assert!(next == '\\' || next == '\'');
            out.push(next);
        } else {
            assert_ne!(c, '\'');
            out.push(c);
        }
    }
    out
}

#[test]
fn escaped_text_reads_back_unchanged() {
    for s in ["", "plain", "'", "\\", "\\'\\\\''", "🚀\\🐱‍👤'x", "{\"a\":\"it's\"}"] {
        let wrapped = escape_json_parse(s);
        let body = wrapped
            .strip_prefix("JSON.parse('")
            .unwrap()
            .strip_suffix("')")
            .unwrap();
        assert_eq!(read_literal(body), s);
    }
}

#[test]
fn escape_json_parse_changes_nothing_else() {
    assert_eq!(escape_json_parse("{}"), "JSON.parse('{}')");
    assert_eq!(escape_json_parse("[1,\"\n\"]"), "JSON.parse('[1,\"\n\"]')");
}

#[test]
fn format_callback_gives_the_whole_script() {
    let cb = format_callback("cb", "5").unwrap();
    let expected = "\n          if (window[\"cb\"]) {\n            window[\"cb\"](5)\n          } else {\n            console.warn(\"[TAURI] Couldn't find callback id cb in window. This happens when the app is reloaded while Rust is running an asynchronous operation.\")\n          }\n        ";
    assert_eq!(cb, expected);
}

#[test]
fn format_callback_inlines_primitives() {
    for json in ["true", "false", "null", "12.5", "-3", "\"the string response\""] {
        let cb = format_callback("callback-function-name", json).unwrap();
        assert!(cb.contains(&format!("window[\"callback-function-name\"]({})", json)));
        assert!(!cb.contains("JSON.parse"));
    }
}

#[test]
fn format_callback_wraps_arrays_and_objects() {
    let cb = format_callback("callback-function-name", r#"{"value":"some value"}"#).unwrap();
    assert!(cb.contains(
        r#"window["callback-function-name"](JSON.parse('{"value":"some value"}'))"#
    ));
    let cb = format_callback("f", "[1,2,'3']").unwrap();
    assert!(cb.contains(r#"window["f"](JSON.parse('[1,2,\'3\']'))"#));
    let cb = format_callback("f", "[]").unwrap();
    assert!(cb.contains(r#"window["f"](JSON.parse('[]'))"#));
}

#[test]
fn format_callback_flips_at_the_threshold() {
    let under = format!("\"{}\"", "a".repeat(MIN_JSON_PARSE_LEN - 3));
    assert_eq!(under.len(), MIN_JSON_PARSE_LEN - 1);
    let cb = format_callback("cb", &under).unwrap();
    assert!(!cb.contains("JSON.parse"));
    assert!(cb.contains(&format!("window[\"cb\"]({})", under)));

    let at = format!("\"{}\"", "a".repeat(10_238));
    assert_eq!(at.len(), 10_240);
    let cb = format_callback("cb", &at).unwrap();
    assert!(cb.contains(&format!(r#"window["cb"](JSON.parse('"{}"'))"#, "a".repeat(10_238))));
}

#[test]
fn format_callback_counts_bytes_not_characters() {
    let text = format!("\"{}\"", "\u{e9}".repeat((MIN_JSON_PARSE_LEN - 2) / 2));
    assert!(text.chars().count() < MIN_JSON_PARSE_LEN);
    assert_eq!(text.len(), MIN_JSON_PARSE_LEN);
    let cb = format_callback("f", &text).unwrap();
    assert!(cb.contains("JSON.parse('"));
}

#[test]
fn format_callback_takes_an_empty_text_as_it_is() {
    let cb = format_callback("f", "").unwrap();
    assert!(cb.contains("window[\"f\"]()"));
}

#[test]
fn check_json_len_rejects_the_ceiling() {
    assert_eq!(MAX_JSON_STR_LEN, usize::pow(2, 30) - 2);
    assert_eq!(MIN_JSON_PARSE_LEN, 10_240);
    assert_eq!(check_json_len(0), Ok(()));
    assert_eq!(check_json_len(MAX_JSON_STR_LEN - 1), Ok(()));
    assert_eq!(check_json_len(MAX_JSON_STR_LEN), Err(Error::PayloadTooLarge));
    assert_eq!(check_json_len(usize::MAX), Err(Error::PayloadTooLarge));
}

#[test]
fn format_callback_result_picks_the_callback() {
    let cb = format_callback_result(Ok("5"), "success_cb", "error_cb").unwrap();
    assert!(cb.contains(r#"window["success_cb"](5)"#));
    assert!(!cb.contains(r#"window["error_cb"]("#));
    let cb =
        format_callback_result(Err("\"error message here\""), "success_cb", "error_cb").unwrap();
    assert!(cb.contains(r#"window["error_cb"]("error message here")"#));
    assert!(!cb.contains(r#"window["success_cb"]("#));
}

#[test]
fn an_answer_that_cannot_be_formatted_goes_to_the_error_callback() {
    let script = failure_script("err1", &Error::PayloadTooLarge);
    assert_eq!(script, format_callback("err1", "\"payload too large\"").unwrap());
    assert!(script.contains("window[\"err1\"](\"payload too large\")"));
    assert!(failure_script("e", &Error::Json).contains("(\"message cannot be written as JSON\")"));
    assert!(failure_script("e", &Error::UnknownPermission("x".to_string()))
        .contains("(\"invalid configuration\")"));
    assert_eq!(settle(Ok("script".to_string()), "err1"), "script");
    assert_eq!(settle(Err(Error::PayloadTooLarge), "err1"), script);
    assert_eq!(answer_script(Ok("5"), "cb", "err"), format_callback("cb", "5").unwrap());
    assert_eq!(answer_script(Err("6"), "cb", "err"), format_callback("err", "6").unwrap());
}
