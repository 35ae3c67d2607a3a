use devlog::logs::{log_error, render, ErrorValue, FieldValue};
use devlog::sink::TextSink;

fn error_value(display: &str, causes: &[&str]) -> ErrorValue {
    ErrorValue {
        display: String::from(display),
        causes: causes.iter().map(|c| String::from(*c)).collect(),
    }
}

#[test]
fn log_error_without_cause() {
    let fields = log_error(&error_value("oops", &[]));
    assert_eq!(fields.len(), 1);
    assert_eq!(fields[0].name, "message");
    match &fields[0].value {
        FieldValue::Generic { text } => assert_eq!(text, "oops"),
        FieldValue::ErrorLike { .. } => panic!("message field must be generic"),
    }
}

#[test]
fn log_error_with_cause_chain() {
    let fields = log_error(&error_value("request failed", &["timed out", "unreachable"]));
    assert_eq!(fields.len(), 2);
    assert_eq!(fields[0].name, "message");
    assert_eq!(fields[1].name, "cause");
    match &fields[1].value {
        FieldValue::ErrorLike { error } => {
            assert_eq!(error.display, "timed out");
            assert_eq!(error.causes, vec![String::from("unreachable")]);
        },
        FieldValue::Generic { .. } => panic!("cause field must be error-kind"),
    }
}

#[test]
fn log_error_event_renders_the_whole_chain() {
    let fields = log_error(&error_value("request failed", &["timed out", "unreachable"]));
    let (sink, result) = render(&fields, TextSink::new(false));
    assert!(result.is_ok());
    assert_eq!(sink.text, "request failed\n  cause:\n    - timed out\n    - unreachable");
}

#[test]
fn log_error_single_cause_collapses_inline() {
    let fields = log_error(&error_value("request failed", &["timed out"]));
    let (sink, result) = render(&fields, TextSink::new(false));
    assert!(result.is_ok());
    assert_eq!(sink.text, "request failed\n  cause: timed out");
}
