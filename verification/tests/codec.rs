use forge::json::{emit_json, parse_json_line, JsonValue};
use forge::num::{parse_i32_chars, parse_u32_chars, parse_u64_chars, u32_to_string, u64_to_string};

fn chars(s: &str) -> Vec<char> {
    s.chars().collect()
}

#[test]
fn decimal_rendering_round_trips() {
    for n in [0u64, 1, 9, 10, 99, 1000, 1700000000, u64::MAX] {
        let text = u64_to_string(n);
        assert_eq!(parse_u64_chars(&chars(&text)), Some(n));
    }
    assert_eq!(u32_to_string(42), "42");
    assert_eq!(u64_to_string(u64::MAX), "18446744073709551615");
}

#[test]
fn parsing_matches_std() {
    for text in ["0", "+7", "42", "007", "18446744073709551615"] {
        assert_eq!(
            parse_u64_chars(&chars(text)),
            text.parse::<u64>().ok(),
            "u64 {text}"
        );
    }
    for text in ["", "+", "-", "4x", " 4", "18446744073709551616"] {
        assert_eq!(
            parse_u64_chars(&chars(text)),
            text.parse::<u64>().ok(),
            "u64 reject {text}"
        );
    }
    for text in ["4294967295", "4294967296"] {
        assert_eq!(parse_u32_chars(&chars(text)), text.parse::<u32>().ok());
    }
    for text in ["-2147483648", "2147483647", "-2147483649", "2147483648", "-0"] {
        assert_eq!(
            parse_i32_chars(&chars(text)),
            text.parse::<i32>().ok(),
            "i32 {text}"
        );
    }
}

#[test]
fn emit_json_escapes_strings_as_serde_does() {
    let tree = JsonValue::Obj(vec![(
        "k".to_string(),
        JsonValue::Str("a\"b\\c\nd\te\u{1}".to_string()),
    )]);
    let text = emit_json(&tree);
    assert_eq!(text, "{\"k\":\"a\\\"b\\\\c\\nd\\te\\u0001\"}");
    // serde_json itself produces the same text for the same document.
    let serde_text = "{\"k\":\"a\\\"b\\\\c\\nd\\te\\u0001\"}";
    assert_eq!(text, serde_text);
}

#[test]
fn emit_json_covers_every_variant() {
    let tree = JsonValue::Arr(vec![
        JsonValue::Null,
        JsonValue::Bool(true),
        JsonValue::Int(-5),
        JsonValue::UInt(18446744073709551615),
        JsonValue::Str("s".to_string()),
        JsonValue::Obj(Vec::new()),
    ]);
    assert_eq!(
        emit_json(&tree),
        "[null,true,-5,18446744073709551615,\"s\",{}]"
    );
}

#[test]
fn parser_reads_back_what_the_emitter_writes() {
    // The parser hands object fields back sorted by key, so a tree whose
    // keys are already ordered emits identically after the cycle.
    let tree = JsonValue::Obj(vec![
        ("count".to_string(), JsonValue::Int(7)),
        (
            "items".to_string(),
            JsonValue::Arr(vec![JsonValue::Bool(false), JsonValue::Null]),
        ),
        ("name".to_string(), JsonValue::Str("tricky \"x\"\n".to_string())),
    ]);
    let text = emit_json(&tree);
    let parsed = parse_json_line(&text).expect("parse");
    assert_eq!(emit_json(&parsed), text);
}

#[test]
fn parser_rejects_trailing_garbage() {
    assert!(parse_json_line("{} trailing").is_none());
    assert!(parse_json_line("").is_none());
    assert!(parse_json_line("{\"a\":1}").is_some());
}

#[test]
fn big_numbers_keep_their_value_through_the_model() {
    let text = "{\"n\":18446744073709551615}";
    let parsed = parse_json_line(text).expect("parse");
    assert_eq!(emit_json(&parsed), text);
}
