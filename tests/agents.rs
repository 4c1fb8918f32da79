use adk_python::callbacks::{
    before_model_outcome, content_override, response_override, AfterModelValue, BeforeModelResult,
    BeforeModelValue, HookValue, ModelCallChoice,
};
use adk_python::conditional::{select_branch, Branch, ConditionalAgent};
use adk_python::content::{Content, LlmResponse};
use adk_python::custom::{
    handler_reply, handler_text, CustomAgentBuilder, CustomBuildError, HandlerFailure, HandlerValue,
};

#[test]
fn predicate_true_takes_if_branch() {
    assert_eq!(select_branch(Some(true), true), Branch::If);
    assert_eq!(select_branch(Some(true), false), Branch::If);
}

#[test]
fn predicate_false_takes_else_or_nothing() {
    assert_eq!(select_branch(Some(false), true), Branch::Else);
    assert_eq!(select_branch(Some(false), false), Branch::Empty);
}

#[test]
fn failed_predicate_counts_as_false() {
    assert_eq!(select_branch(None, true), Branch::Else);
    assert_eq!(select_branch(None, false), Branch::Empty);
}

#[test]
fn conditional_agent_targets() {
    let with_else = ConditionalAgent::new("c".to_string(), "A", Some("B"), None);
    assert_eq!(with_else.target(Some(true)), Some(&"A"));
    assert_eq!(with_else.target(Some(false)), Some(&"B"));
    assert_eq!(with_else.target(None), Some(&"B"));
    assert_eq!(with_else.description(), "");
    let without_else = ConditionalAgent::new("c".to_string(), "A", None, Some("d".to_string()));
    assert_eq!(without_else.target(Some(false)), None);
    assert_eq!(without_else.branch(Some(false)), Branch::Empty);
    assert_eq!(without_else.name(), "c");
    assert_eq!(without_else.description(), "d");
}

#[test]
fn hook_text_becomes_model_message() {
    let c = content_override(HookValue::Text("blocked".to_string())).expect("an override");
    assert_eq!(c.role, "model");
    assert_eq!(c.get_text(), "blocked");
}

#[test]
fn hook_message_is_kept() {
    let c = content_override(HookValue::Message(Content::user("x".to_string()))).expect("an override");
    assert_eq!(c.role, "user");
    assert_eq!(c.get_text(), "x");
}

#[test]
fn hook_failure_or_nothing_has_no_effect() {
    assert!(content_override(HookValue::Raised).is_none());
    assert!(content_override(HookValue::Nothing).is_none());
    assert!(content_override(HookValue::Unrecognized).is_none());
}

#[test]
fn skip_choice_skips_the_model() {
    let out = before_model_outcome(BeforeModelValue::Choice(ModelCallChoice::skip("cached".to_string())), 7u32);
    match out {
        BeforeModelResult::Skip(resp) => {
            assert_eq!(resp.get_text(), Some("cached".to_string()));
            assert!(resp.turn_complete);
            assert!(!resp.partial);
        }
        BeforeModelResult::Continue(_) => panic!("the model must not be called"),
    }
}

#[test]
fn text_from_before_model_hook_skips_the_model() {
    match before_model_outcome(BeforeModelValue::Text("short answer".to_string()), 7u32) {
        BeforeModelResult::Skip(resp) => assert_eq!(resp.get_text(), Some("short answer".to_string())),
        BeforeModelResult::Continue(_) => panic!("the model must not be called"),
    }
}

#[test]
fn before_model_continue_keeps_request() {
    let values = vec![
        BeforeModelValue::Choice(ModelCallChoice::cont()),
        BeforeModelValue::Nothing,
        BeforeModelValue::Raised,
        BeforeModelValue::Unrecognized,
    ];
    for v in values {
        match before_model_outcome(v, 42u32) {
            BeforeModelResult::Continue(r) => assert_eq!(r, 42),
            BeforeModelResult::Skip(_) => panic!("expected the request to go on"),
        }
    }
}

#[test]
fn model_call_choice_accessors() {
    let s = ModelCallChoice::skip("t".to_string());
    assert!(s.is_skip());
    assert_eq!(s.response_text(), Some(&"t".to_string()));
    let c = ModelCallChoice::cont();
    assert!(!c.is_skip());
    assert_eq!(c.response_text(), None);
}

#[test]
fn after_model_hook_replaces_only_with_response() {
    let r = response_override(AfterModelValue::Response(LlmResponse::complete(Content::model("new".to_string()))));
    assert_eq!(r.expect("a replacement").get_text(), Some("new".to_string()));
    assert!(response_override(AfterModelValue::Nothing).is_none());
    assert!(response_override(AfterModelValue::Raised).is_none());
    assert!(response_override(AfterModelValue::Unrecognized).is_none());
}

#[test]
fn handler_text_yields_one_final_event() {
    let e = handler_reply("greeter", Ok(HandlerValue::Text("Hello, ada!".to_string()))).expect("an event");
    assert_eq!(e.author, "greeter");
    assert_eq!(e.get_text(), Some("Hello, ada!".to_string()));
    assert!(e.turn_complete);
    assert!(!e.partial);
    assert_eq!(e.content.as_ref().map(|c| c.role.clone()), Some("model".to_string()));
}

#[test]
fn handler_message_and_other_values_become_text() {
    let msg = Content::new(
        "model".to_string(),
        Some(vec![adk_python::content::Part::text("a".to_string()), adk_python::content::Part::text("b".to_string())]),
    );
    assert_eq!(handler_text(HandlerValue::Message(msg)), "ab");
    assert_eq!(handler_text(HandlerValue::Other("42".to_string())), "42");
}

#[test]
fn raising_handler_yields_error_and_no_event() {
    let r = handler_reply("greeter", Err(HandlerFailure::Raised("ValueError: bad".to_string())));
    assert_eq!(r.unwrap_err(), "Python handler error: ValueError: bad");
    let r = handler_reply("greeter", Err(HandlerFailure::Aborted("panicked".to_string())));
    assert_eq!(r.unwrap_err(), "Handler task failed: panicked");
}

#[test]
fn custom_agent_needs_handler() {
    let b: CustomAgentBuilder<u8, u8> = CustomAgentBuilder::new("x".to_string());
    match b.build() {
        Err(e) => {
            assert_eq!(e, CustomBuildError::MissingHandler);
            assert_eq!(e.message(), "CustomAgent requires a handler");
        }
        Ok(_) => panic!("a handler is required"),
    }
}

#[test]
fn custom_agent_builds_and_replies() {
    let mut b: CustomAgentBuilder<u8, &str> = CustomAgentBuilder::new("echo".to_string());
    b.description("echoes".to_string());
    b.handler(1);
    b.sub_agent("helper");
    let agent = b.build().ok().expect("built");
    assert_eq!(agent.name(), "echo");
    assert_eq!(agent.description(), "echoes");
    assert_eq!(*agent.handler(), 1);
    assert_eq!(agent.sub_agents(), &vec!["helper"]);
    let e = agent.reply(Ok(HandlerValue::Text("T".to_string()))).expect("an event");
    assert_eq!(e.get_text(), Some("T".to_string()));
    assert_eq!(e.author, "echo");
}

#[test]
fn model_call_choice_describes_itself() {
    assert_eq!(ModelCallChoice::skip("hi".to_string()).describe(), "BeforeModelResult.skip('hi')");
    assert_eq!(ModelCallChoice::cont().describe(), "BeforeModelResult.cont()");
}
