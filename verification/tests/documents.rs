use clipygo_plugin_relay::json::{parse, render, render_pretty, Fields, Json};
use serde_json::Value;

#[test]
fn documents_are_written() {
    let document = Fields::new()
        .with("none", Json::Null)
        .with("yes", Json::Bool(true))
        .with_text("quote", "\"\\\u{1}é")
        .with("list", Json::text_list(&["a", "b"]))
        .with("empty", Fields::new().object())
        .object();
    assert_eq!(
        render(&document),
        "{\"none\":null,\"yes\":true,\"quote\":\"\\\"\\\\\\u0001é\",\"list\":[\"a\",\"b\"],\"empty\":{}}"
    );
    assert_eq!(render_pretty(&Json::text_list(&["a"])), "[\n  \"a\"\n]");
}

#[test]
fn documents_are_read() {
    assert_eq!(parse("null"), Some(Json::Null));
    assert_eq!(parse(" [true, \"x\"] "), Some(Json::List(vec![Json::Bool(true), Json::text("x")])));
    assert_eq!(
        parse("{\"b\":\"1\",\"a\":\"2\"}"),
        Some(Fields::new().with_text("b", "1").with_text("a", "2").object())
    );
    assert_eq!(parse("12"), Some(Json::from_value(Value::from(12u64))));
    for text in ["", "{", "{}}", "tru", "'x'"] {
        assert_eq!(parse(text), None);
    }
}

#[test]
fn what_was_written_is_read() {
    let document = Fields::new().with_text("name", "\u{0}\n🔐").with_text("id", "").object();
    assert_eq!(parse(&render(&document)), Some(document));

    let nested = || {
        Fields::new()
            .with("list", Json::List(vec![Json::Null, Fields::new().with("flag", Json::Bool(true)).object()]))
            .with("number", Json::from_value(Value::from(u64::MAX)))
            .object()
    };
    assert_eq!(parse(&render(&nested())), Some(nested()));
    assert_eq!(parse(&render_pretty(&nested())), Some(nested()));
}

#[test]
fn members_are_found_by_name() {
    let document = parse("{\"text\":\"t\",\"flag\":false,\"twice\":1,\"twice\":\"last\"}").unwrap();
    assert_eq!(document.text_member("text"), Some("t".to_string()));
    assert_eq!(document.bool_member("flag"), Some(false));
    assert_eq!(document.text_member("flag"), None);
    assert_eq!(document.bool_member("text"), None);
    assert_eq!(document.text_member("twice"), Some("last".to_string()));
    assert_eq!(document.member("missing"), None);
    assert_eq!(Json::List(vec![]).member("text"), None);
}

#[test]
fn reading_goes_a_hundred_and_twenty_seven_deep() {
    let nested = |depth: usize| {
        let mut document = Json::Null;
        for _ in 0..depth {
            document = Json::List(vec![document]);
        }
        document
    };
    assert_eq!(parse(&render(&nested(127))), Some(nested(127)));
    assert_eq!(parse(&render(&nested(128))), None);
}
