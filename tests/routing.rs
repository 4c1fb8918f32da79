use adk_python::router::{
    announce, classification_prompt, normalize_label, BuildError, Dispatch, LlmRouter, LlmRouterBuilder,
};
use adk_python::router_run::{RouterInput, RouterOutput, RouterPhase, RouterRun};
use adk_python::routing::RouteTable;
use adk_python::content::{Content, Part};

fn billing_tech(default: Option<&'static str>) -> LlmRouter<&'static str, &'static str> {
    let mut b = LlmRouterBuilder::new("router".to_string(), "classifier");
    b.instruction("Answer with billing or tech.".to_string());
    b.route("billing", "A");
    b.route("tech", "B");
    if let Some(d) = default {
        b.default_route(d);
    }
    b.build().ok().expect("a valid router")
}

/// Feeds a classifier answer to a fresh run and returns all outputs.
fn resolve(router: &LlmRouter<&'static str, &'static str>, answer: &str) -> Vec<RouterOutput<u32, String>> {
    let mut run = RouterRun::new();
    let mut outs = run.step(router, RouterInput::Begin(Content::user("help me".to_string())));
    outs.extend(run.step(router, RouterInput::Fragment(Some(Content::model(answer.to_string())))));
    outs.extend(run.step(router, RouterInput::Finished));
    outs
}

fn emitted_text(o: &RouterOutput<u32, String>) -> String {
    match o {
        RouterOutput::Emit(e) => e.get_text().expect("text"),
        _ => panic!("expected an event"),
    }
}

#[test]
fn table_lowercases_labels_and_keeps_order() {
    let mut t = RouteTable::new();
    t.insert("Billing", 1u8);
    t.insert("TECH", 2u8);
    t.insert("billing", 3u8);
    assert_eq!(t.len(), 2);
    assert_eq!(t.label(0), "billing");
    assert_eq!(t.label(1), "tech");
    assert_eq!(*t.target(0), 3);
    assert_eq!(*t.target(1), 2);
}

#[test]
fn table_first_match_wins() {
    let mut t = RouteTable::new();
    t.insert("bill", 1u8);
    t.insert("billing", 2u8);
    assert_eq!(t.find("a billing issue"), Some(0));
    assert_eq!(t.find("nothing here"), None);
    assert!(RouteTable::<u8>::new().is_empty());
}

#[test]
fn label_is_trimmed_and_lowercased() {
    assert_eq!(normalize_label("  BILLING \n"), "billing");
    assert_eq!(normalize_label("Tech"), "tech");
}

#[test]
fn prompt_joins_user_text_parts_with_spaces() {
    let user = Content::new(
        "user".to_string(),
        Some(vec![
            Part::text("my card".to_string()),
            Part::FunctionCall { name: "f".to_string(), args: serde_json::Value::Null, id: None },
            Part::text("was charged".to_string()),
        ]),
    );
    assert_eq!(
        classification_prompt("Classify.", &user),
        "Classify.\n\nUser input: my card was charged"
    );
}

#[test]
fn announce_event_names_the_label() {
    let e = announce("router", "billing");
    assert_eq!(e.author, "router");
    assert_eq!(e.get_text(), Some("[Routing to: billing]".to_string()));
    assert!(!e.partial);
    assert!(!e.turn_complete);
}

#[test]
fn builder_requires_instruction() {
    let mut b: LlmRouterBuilder<u8, u8> = LlmRouterBuilder::new("r".to_string(), 0);
    b.route("x", 1);
    assert_eq!(b.build().err(), Some(BuildError::MissingInstruction));
    let mut b: LlmRouterBuilder<u8, u8> = LlmRouterBuilder::new("r".to_string(), 0);
    b.route("x", 1);
    b.instruction(String::new());
    assert_eq!(b.build().err(), Some(BuildError::MissingInstruction));
    assert_eq!(BuildError::MissingInstruction.message(), "Instruction is required for LlmConditionalAgent");
}

#[test]
fn builder_requires_a_route() {
    let mut b: LlmRouterBuilder<u8, u8> = LlmRouterBuilder::new("r".to_string(), 0);
    b.instruction("go".to_string());
    assert_eq!(b.build().err(), Some(BuildError::NoRoutes));
    assert_eq!(BuildError::NoRoutes.message(), "At least one route is required for LlmConditionalAgent");
}

#[test]
fn built_router_keeps_its_configuration() {
    let mut b = LlmRouterBuilder::new("r".to_string(), 9u8);
    b.description("routes".to_string());
    b.instruction("go".to_string());
    b.route("x", 1u8);
    let r = b.build().ok().expect("built");
    assert_eq!(r.name(), "r");
    assert_eq!(r.description(), "routes");
    assert_eq!(*r.model(), 9);
    assert_eq!(r.instruction(), "go");
    assert_eq!(r.routes().len(), 1);
    assert_eq!(*r.default_route(), None);
}

#[test]
fn billing_issue_goes_to_billing_route() {
    let router = billing_tech(Some("D"));
    let outs = resolve(&router, "This is a BILLING issue");
    assert_eq!(outs.len(), 3);
    match &outs[0] {
        RouterOutput::Classify(c) => {
            assert_eq!(c.role, "user");
            assert_eq!(c.get_text(), "Answer with billing or tech.\n\nUser input: help me");
        }
        _ => panic!("expected the classification request first"),
    }
    assert_eq!(emitted_text(&outs[1]), "[Routing to: this is a billing issue]");
    match &outs[2] {
        RouterOutput::Delegate(i) => assert_eq!(*router.routes().target(*i), "A"),
        _ => panic!("expected delegation to the billing route"),
    }
    assert_eq!(router.dispatch("this is a billing issue"), Dispatch::Route(0));
}

#[test]
fn unknown_label_goes_to_default() {
    let router = billing_tech(Some("D"));
    let outs = resolve(&router, "unknown");
    assert_eq!(outs.len(), 3);
    assert_eq!(emitted_text(&outs[1]), "[Routing to: unknown]");
    assert!(matches!(outs[2], RouterOutput::DelegateDefault));
    assert_eq!(*router.default_route(), Some("D"));
}

#[test]
fn unknown_label_without_default_explains() {
    let router = billing_tech(None);
    let mut run = RouterRun::new();
    let mut outs: Vec<RouterOutput<u32, String>> = run.step(&router, RouterInput::Begin(Content::user("help me".to_string())));
    outs.extend(run.step(&router, RouterInput::Fragment(Some(Content::model("unknown".to_string())))));
    outs.extend(run.step(&router, RouterInput::<u32, String>::Finished));
    assert_eq!(outs.len(), 3);
    assert_eq!(emitted_text(&outs[1]), "[Routing to: unknown]");
    assert_eq!(
        emitted_text(&outs[2]),
        "No route found for classification 'unknown'. Available routes: [\"billing\", \"tech\"]"
    );
    assert!(outs.iter().all(|o| !matches!(o, RouterOutput::Delegate(_) | RouterOutput::DelegateDefault)));
    assert_eq!(run.phase(), RouterPhase::Done);
    assert!(run.step(&router, RouterInput::<u32, String>::Delegated(1)).is_empty());
}

#[test]
fn route_list_quotes_labels() {
    let mut b = LlmRouterBuilder::new("r".to_string(), 0u8);
    b.instruction("go".to_string());
    b.route("say \"hi\"", 1u8);
    let r = b.build().ok().expect("built");
    assert_eq!(r.route_list(), "[\"say \\\"hi\\\"\"]");
}

#[test]
fn case_of_answer_does_not_matter() {
    let router = billing_tech(None);
    let upper = resolve(&router, "BILLING");
    let lower = resolve(&router, "billing");
    assert_eq!(emitted_text(&upper[1]), emitted_text(&lower[1]));
    assert!(matches!(upper[2], RouterOutput::Delegate(0)));
    assert!(matches!(lower[2], RouterOutput::Delegate(0)));
}

#[test]
fn case_of_route_label_does_not_matter() {
    let mut b = LlmRouterBuilder::new("r".to_string(), 0u8);
    b.instruction("go".to_string());
    b.route("BILLING", "A");
    let upper = b.build().ok().expect("built");
    assert_eq!(upper.dispatch("billing"), Dispatch::Route(0));
    assert_eq!(upper.routes().label(0), "billing");
}

#[test]
fn announcement_precedes_relayed_events() {
    let router = billing_tech(None);
    let mut run = RouterRun::new();
    let mut outs: Vec<RouterOutput<u32, String>> = run.step(&router, RouterInput::Begin(Content::user("q".to_string())));
    outs.extend(run.step(&router, RouterInput::Fragment(Some(Content::model("  Tech ".to_string())))));
    outs.extend(run.step(&router, RouterInput::Fragment(None)));
    outs.extend(run.step(&router, RouterInput::Finished));
    assert_eq!(run.phase(), RouterPhase::Relaying);
    outs.extend(run.step(&router, RouterInput::Delegated(10u32)));
    outs.extend(run.step(&router, RouterInput::Delegated(11u32)));
    outs.extend(run.step(&router, RouterInput::Finished));
    assert_eq!(run.phase(), RouterPhase::Done);
    assert_eq!(emitted_text(&outs[1]), "[Routing to: tech]");
    assert!(matches!(outs[2], RouterOutput::Delegate(1)));
    assert!(matches!(outs[3], RouterOutput::Forward(10)));
    assert!(matches!(outs[4], RouterOutput::Forward(11)));
    assert_eq!(outs.len(), 5);
}

#[test]
fn classifier_failure_ends_with_one_error() {
    let router = billing_tech(Some("D"));
    let mut run = RouterRun::new();
    run.step(&router, RouterInput::<u32, String>::Begin(Content::user("q".to_string())));
    let outs = run.step(&router, RouterInput::<u32, String>::Failed("timeout".to_string()));
    assert_eq!(outs.len(), 1);
    assert!(matches!(&outs[0], RouterOutput::Fail(m) if m == "timeout"));
    assert_eq!(run.phase(), RouterPhase::Done);
    assert!(run.step(&router, RouterInput::<u32, String>::Finished).is_empty());
}

#[test]
fn delegate_start_failure_ends_with_error() {
    let router = billing_tech(None);
    let mut run = RouterRun::new();
    run.step(&router, RouterInput::<u32, String>::Begin(Content::user("q".to_string())));
    run.step(&router, RouterInput::<u32, String>::Fragment(Some(Content::model("tech".to_string()))));
    run.step(&router, RouterInput::<u32, String>::Finished);
    let outs = run.step(&router, RouterInput::<u32, String>::Failed("no agent".to_string()));
    assert!(matches!(&outs[0], RouterOutput::Fail(m) if m == "no agent"));
    assert_eq!(run.phase(), RouterPhase::Done);
}
