use adk_python::content::{Content, Event, LlmResponse, Part, UNSUPPORTED_PART_TEXT};
use adk_python::context::last_user_content;

fn call_part(name: &str) -> Part {
    Part::FunctionCall { name: name.to_string(), args: serde_json::Value::Null, id: None }
}

#[test]
fn text_part_reports_its_text() {
    let p = Part::text("hello".to_string());
    assert!(p.is_text());
    assert!(!p.is_function_call());
    assert_eq!(p.get_text(), Some("hello".to_string()));
    assert_eq!(p.get_function_name(), None);
}

#[test]
fn function_call_part_reports_its_name() {
    let p = call_part("lookup");
    assert!(!p.is_text());
    assert!(p.is_function_call());
    assert_eq!(p.get_text(), None);
    assert_eq!(p.get_function_name(), Some("lookup".to_string()));
}

#[test]
fn unsupported_part_is_marker_text() {
    let p = Part::unsupported();
    assert_eq!(p.get_text(), Some("[unsupported part type]".to_string()));
    assert_eq!(UNSUPPORTED_PART_TEXT, "[unsupported part type]");
}

#[test]
fn content_text_skips_non_text_parts() {
    let c = Content::new(
        "model".to_string(),
        Some(vec![Part::text("Hello, ".to_string()), call_part("f"), Part::text("world".to_string())]),
    );
    assert_eq!(c.get_text(), "Hello, world");
    assert_eq!(c.role, "model");
}

#[test]
fn content_without_parts_has_empty_text() {
    let c = Content::new("user".to_string(), None);
    assert!(c.parts.is_empty());
    assert_eq!(c.get_text(), "");
}

#[test]
fn user_and_model_contents() {
    let u = Content::user("hi".to_string());
    assert_eq!(u.role, "user");
    assert_eq!(u.parts.len(), 1);
    assert_eq!(u.get_text(), "hi");
    let m = Content::model("yo".to_string());
    assert_eq!(m.role, "model");
    assert_eq!(m.get_text(), "yo");
}

#[test]
fn add_part_appends() {
    let mut c = Content::user("a".to_string());
    c.add_part(Part::text("b".to_string()));
    assert_eq!(c.parts.len(), 2);
    assert_eq!(c.get_text(), "ab");
}

#[test]
fn complete_response_is_final() {
    let r = LlmResponse::complete(Content::model("done".to_string()));
    assert!(!r.partial);
    assert!(r.turn_complete);
    assert_eq!(r.get_text(), Some("done".to_string()));
}

#[test]
fn final_response_needs_complete_non_partial_event() {
    let mk = |partial: bool, turn_complete: bool| Event {
        author: "a".to_string(),
        content: None,
        partial,
        turn_complete,
    };
    assert!(mk(false, true).is_final_response());
    assert!(!mk(true, true).is_final_response());
    assert!(!mk(false, false).is_final_response());
    assert_eq!(mk(false, true).get_text(), None);
}

#[test]
fn last_user_message_is_found_from_the_end() {
    let history = vec![
        Content::user("first".to_string()),
        Content::model("reply".to_string()),
        Content::user("second".to_string()),
        Content::model("again".to_string()),
    ];
    let c = last_user_content(&history).expect("a user message");
    assert_eq!(c.get_text(), "second");
}

#[test]
fn no_user_message_gives_none() {
    let history = vec![Content::model("reply".to_string())];
    assert!(last_user_content(&history).is_none());
    assert!(last_user_content(&Vec::new()).is_none());
}

#[test]
fn tool_parts_are_detected() {
    let mut c = Content::model("text".to_string());
    assert!(!c.has_tool_parts());
    c.add_part(Part::FunctionResponse { name: "f".to_string(), response: serde_json::Value::Null, id: None });
    assert!(c.has_tool_parts());
}
