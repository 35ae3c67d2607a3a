use devlog::logs::{render, DevLogFieldFormatter, ErrorValue, FieldValue, LogField};
use devlog::sink::TextSink;

fn generic(name: &str, text: &str) -> LogField {
    LogField {
        name: String::from(name),
        value: FieldValue::Generic { text: String::from(text) },
    }
}

fn error_field(name: &str, display: &str, causes: &[&str]) -> LogField {
    LogField {
        name: String::from(name),
        value: FieldValue::ErrorLike {
            error: ErrorValue {
                display: String::from(display),
                causes: causes.iter().map(|c| String::from(*c)).collect(),
            },
        },
    }
}

fn render_to_string(fields: &Vec<LogField>, ansi: bool) -> (String, bool) {
    let (sink, result) = render(fields, TextSink::new(ansi));
    (sink.text, result.is_ok())
}

fn strip_ansi(s: &str) -> String {
    let mut out = String::new();
    let mut in_esc = false;
    for c in s.chars() {
        if in_esc {
            if c == 'm' {
                in_esc = false;
            }
        } else if c == '\x1b' {
            in_esc = true;
        } else {
            out.push(c);
        }
    }
    out
}

#[test]
fn message_and_plain_fields() {
    let fields = vec![
        generic("message", "Something went wrong"),
        generic("reason", "\"Bad things\""),
        generic("severity", "\"BAD\""),
    ];
    let (text, ok) = render_to_string(&fields, false);
    assert!(ok);
    assert_eq!(text, "Something went wrong\n  reason: \"Bad things\"\n  severity: \"BAD\"");
}

#[test]
fn message_and_error_chain() {
    let fields = vec![
        generic("message", "Request failed"),
        error_field("cause", "connect timed out", &["network unreachable"]),
    ];
    let (text, ok) = render_to_string(&fields, false);
    assert!(ok);
    assert_eq!(text, "Request failed\n  cause:\n    - connect timed out\n    - network unreachable");
}

#[test]
fn message_only() {
    let fields = vec![generic("message", "Nothing else to say")];
    let (text, ok) = render_to_string(&fields, false);
    assert!(ok);
    assert_eq!(text, "Nothing else to say");
}

#[test]
fn zero_fields() {
    let fields: Vec<LogField> = vec![];
    let (text, ok) = render_to_string(&fields, false);
    assert!(ok);
    assert_eq!(text, "");
}

#[test]
fn empty_field_value() {
    let fields = vec![generic("message", "msg"), generic("detail", "")];
    let (text, ok) = render_to_string(&fields, false);
    assert!(ok);
    assert_eq!(text, "msg\n  detail: ");
}

#[test]
fn long_cause_chain() {
    let fields = vec![
        generic("message", "m"),
        error_field("cause", "e0", &["e1", "e2", "e3", "e4"]),
    ];
    let (text, ok) = render_to_string(&fields, false);
    assert!(ok);
    assert_eq!(text, "m\n  cause:\n    - e0\n    - e1\n    - e2\n    - e3\n    - e4");
}

#[test]
fn no_cause_error_collapses_to_plain_string() {
    let with_error = vec![generic("message", "m"), error_field("cause", "boom", &[])];
    let as_string = vec![generic("message", "m"), generic("cause", "boom")];
    let (text_error, ok) = render_to_string(&with_error, false);
    assert!(ok);
    let (text_string, _) = render_to_string(&as_string, false);
    assert_eq!(text_error, "m\n  cause: boom");
    assert_eq!(text_error, text_string);
}

#[test]
fn colored_field_names() {
    let fields = vec![generic("message", "msg"), generic("reason", "\"why\"")];
    let (text, ok) = render_to_string(&fields, true);
    assert!(ok);
    assert_eq!(text, "msg\n  \x1b[36mreason\x1b[37m:\x1b[0m \"why\"");
}

#[test]
fn colored_cause_list() {
    let fields = vec![generic("message", "msg"), error_field("cause", "outer", &["inner"])];
    let (text, ok) = render_to_string(&fields, true);
    assert!(ok);
    assert_eq!(
        text,
        "msg\n  \x1b[36mcause\x1b[37m:\x1b[0m\n    \x1b[37m-\x1b[0m outer\n    \x1b[37m-\x1b[0m inner"
    );
}

#[test]
fn color_toggle_same_text_modulo_escapes() {
    let fields = vec![
        generic("message", "Something went wrong"),
        generic("reason", "\"Bad things\""),
        error_field("cause", "connect timed out", &["network unreachable"]),
    ];
    let (plain, _) = render_to_string(&fields, false);
    let (colored, _) = render_to_string(&fields, true);
    assert_ne!(plain, colored);
    assert_eq!(strip_ansi(&colored), plain);
}

#[test]
fn rendering_twice_is_identical() {
    let fields = vec![generic("message", "m"), generic("k", "\"v\""), generic("k", "\"v\"")];
    let (first, _) = render_to_string(&fields, false);
    let (second, _) = render_to_string(&fields, false);
    assert_eq!(first, "m\n  k: \"v\"\n  k: \"v\"");
    assert_eq!(first, second);
}

#[test]
fn closed_sink_latches_single_failure() {
    let fields = vec![generic("message", "m"), generic("k", "\"v\"")];
    let (sink, result) = render(&fields, TextSink::closed(false));
    assert!(result.is_err());
    assert_eq!(sink.text, "");
}

#[test]
fn closed_sink_empty_event_is_ok() {
    let fields: Vec<LogField> = vec![];
    let (sink, result) = render(&fields, TextSink::closed(false));
    assert!(result.is_ok());
    assert_eq!(sink.text, "");
}

#[test]
fn visitor_records_fields_one_by_one() {
    let formatter = DevLogFieldFormatter::new();
    let mut visitor = formatter.make_visitor(TextSink::new(false));
    visitor.record_debug("message", "Something went wrong");
    visitor.record_debug("reason", "\"Bad things\"");
    visitor.record_error(
        "cause",
        &ErrorValue { display: String::from("outer"), causes: vec![String::from("inner")] },
    );
    assert_eq!(
        visitor.writer().text,
        "Something went wrong\n  reason: \"Bad things\"\n  cause:\n    - outer\n    - inner"
    );
    assert!(visitor.finish().is_ok());
}

#[test]
fn error_kind_first_field_keeps_first_flag() {
    // The message-first invariant says this should not happen, but the
    // renderer must behave predictably when it does: an error-kind field in
    // first position takes neither delimiter nor message role, so the next
    // generic field still becomes the bare message.
    let fields = vec![error_field("cause", "boom", &[]), generic("message", "hi")];
    let (text, ok) = render_to_string(&fields, false);
    assert!(ok);
    assert_eq!(text, "cause: boomhi");
}
