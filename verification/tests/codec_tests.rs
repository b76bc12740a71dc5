use plugin_host::codec::{
    build_introspection_script, build_invocation_script, decode_output, escape_embedded,
    unescape_embedded,
};
use plugin_host::errors::PluginError;

fn round_trip(s: &str) {
    let escaped = escape_embedded(s);
    let back = unescape_embedded(&escaped);
    assert_eq!(back, s);
}

#[test]
fn escape_round_trips_simple_text() {
    round_trip("hello world");
    round_trip("");
    round_trip("no specials at all 123");
}

#[test]
fn escape_round_trips_adversarial_text() {
    round_trip("back\\slash");
    round_trip("single ' quote");
    round_trip("double \" quote");
    round_trip("line\nfeed");
    round_trip("carriage\rreturn");
    round_trip("all of them: \\ ' \" \n \r together");
    round_trip("nested 'quotes \"inside' quotes\"");
    round_trip("\\\\\\'");
    round_trip("trailing backslash \\");
}

#[test]
fn escape_round_trips_unicode() {
    round_trip("caf\u{e9} na\u{ef}ve \u{4f60}\u{597d} \u{1f600}");
    round_trip("mixed \u{4f60}'\u{597d}\"\n\\\u{1f600}\r");
}

#[test]
fn escape_round_trips_large_payload() {
    let unit = "payload with \\ and ' and \" and \n and \r inside; ";
    let mut big = String::new();
    while big.len() < 2 * 1024 * 1024 {
        big.push_str(unit);
    }
    round_trip(&big);
}

#[test]
fn escape_produces_expected_text() {
    assert_eq!(escape_embedded("a\"b"), "a\\\"b");
    assert_eq!(escape_embedded("a'b"), "a\\'b");
    assert_eq!(escape_embedded("a\\b"), "a\\\\b");
    assert_eq!(escape_embedded("a\nb"), "a\\nb");
    assert_eq!(escape_embedded("a\rb"), "a\\rb");
}

#[test]
fn invocation_script_embeds_escaped_args() {
    let script = build_invocation_script("/tmp/p.ts", "greet", "{\"name\":\"a\\\"b\"}");
    assert!(script.contains("import('file:///tmp/p.ts')"));
    assert!(script.contains("plugin['greet']"));
    // the JSON text of the arguments, escaped once more for the literal
    assert!(script.contains("JSON.parse('{\\\"name\\\":\\\"a\\\\\\\"b\\\"}')"));
    assert!(script.contains("JSON.stringify({ result:"));
}

#[test]
fn introspection_script_imports_the_plugin() {
    let script = build_introspection_script("/tmp/q.ts");
    assert!(script.contains("import('file:///tmp/q.ts')"));
    assert!(script.contains("plugin.default.tools"));
    assert!(script.contains("JSON.stringify"));
}

#[test]
fn decode_output_reads_result_field() {
    let r = decode_output("{\"result\": 42}").unwrap();
    assert_eq!(r, serde_json::Value::from(42));
}

#[test]
fn decode_output_maps_error_field_to_plugin_failure() {
    let r = decode_output("{\"error\": \"boom\"}");
    match r {
        Err(PluginError::PluginRuntimeError(m)) => assert_eq!(m, "boom"),
        _ => panic!("expected a plugin runtime failure"),
    }
}

#[test]
fn decode_output_keeps_nonstring_error_as_json_text() {
    let r = decode_output("{\"error\": {\"code\": 3}}");
    match r {
        Err(PluginError::PluginRuntimeError(m)) => assert_eq!(m, "{\"code\":3}"),
        _ => panic!("expected a plugin runtime failure"),
    }
}

#[test]
fn decode_output_takes_last_nonempty_line() {
    let raw = "some log line\n{\"result\": 1}\n{\"result\": \"final\"}\n   \n";
    let r = decode_output(raw).unwrap();
    assert_eq!(r, serde_json::Value::from("final"));
}

#[test]
fn decode_output_rejects_text_that_is_not_json() {
    let raw = "plain words, no json here";
    match decode_output(raw) {
        Err(PluginError::Json(m)) => assert_eq!(m, raw),
        _ => panic!("expected a json decode error carrying the raw text"),
    }
}

#[test]
fn decode_output_rejects_empty_output() {
    match decode_output("  \n \n") {
        Err(PluginError::Json(_)) => {},
        _ => panic!("expected a json decode error"),
    }
}

#[test]
fn decode_output_returns_other_json_whole() {
    let r = decode_output("{\"name\": \"p\", \"tools\": []}").unwrap();
    let expected: serde_json::Value = serde_json::from_str("{\"name\":\"p\",\"tools\":[]}").unwrap();
    assert_eq!(r, expected);
}

#[test]
fn greet_scenario_round_trips_quoted_argument() {
    // the facade serializes {"name": "a\"b"}, the codec escapes it into the
    // wrapper, the target's literal parser undoes the escaping exactly, and
    // the printed result line decodes to the greeting
    let args: serde_json::Value = serde_json::from_str("{\"name\":\"a\\\"b\"}").unwrap();
    let args_json = serde_json::to_string(&args).unwrap();
    let escaped = escape_embedded(&args_json);
    let inside_plugin = unescape_embedded(&escaped);
    assert_eq!(inside_plugin, args_json);
    let parsed_back: serde_json::Value = serde_json::from_str(&inside_plugin).unwrap();
    assert_eq!(parsed_back, args);

    let name = parsed_back.get("name").unwrap().as_str().unwrap();
    assert_eq!(name, "a\"b");
    let greeting = format!("hello, {}", name);
    // build the result line the wrapper prints
    let mut result_obj = serde_json::Map::new();
    result_obj.insert("result".to_string(), serde_json::Value::from(greeting));
    let line = serde_json::to_string(&serde_json::Value::Object(result_obj)).unwrap();
    let decoded = decode_output(&line).unwrap();
    assert_eq!(decoded, serde_json::Value::from("hello, a\"b"));
}
