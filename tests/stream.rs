use adk_python::content::{Content, Event};
use adk_python::stream::{
    final_response_text, Collector, FinalTextCollector, Producer, ProducerAction, ProducerEvent,
    ProducerPhase, EVENT_CHANNEL_CAPACITY,
};

fn ev(text: &str, partial: bool, turn_complete: bool) -> Event {
    Event { author: "a".to_string(), content: Some(Content::model(text.to_string())), partial, turn_complete }
}

#[test]
fn channel_capacity_is_bounded() {
    assert_eq!(EVENT_CHANNEL_CAPACITY, 32);
}

type Ev = ProducerEvent<u8, String>;

#[test]
fn producer_forwards_all_items_then_closes() {
    let mut p = Producer::new();
    assert_eq!(p.phase(), ProducerPhase::Starting);
    assert!(matches!(p.step(Ev::Started), ProducerAction::Pull));
    let mut sent = Vec::new();
    for item in [1u8, 2, 3] {
        match p.step(Ev::Pulled(Some(Ok(item)))) {
            ProducerAction::Send(Ok(x)) => sent.push(x),
            _ => panic!("expected a send"),
        }
        assert!(matches!(p.step(Ev::Sent), ProducerAction::Pull));
    }
    assert!(matches!(p.step(Ev::Pulled(None)), ProducerAction::Close));
    assert!(p.is_closed());
    assert_eq!(sent, vec![1, 2, 3]);
}

#[test]
fn producer_stops_when_consumer_is_gone() {
    let mut p = Producer::new();
    p.step(Ev::Started);
    assert!(matches!(p.step(Ev::Pulled(Some(Ok(1)))), ProducerAction::Send(Ok(1))));
    assert!(matches!(p.step(Ev::Sent), ProducerAction::Pull));
    assert!(matches!(p.step(Ev::Pulled(Some(Ok(2)))), ProducerAction::Send(Ok(2))));
    assert!(matches!(p.step(Ev::Rejected), ProducerAction::Close));
    assert!(p.is_closed());
    assert!(matches!(p.step(Ev::Pulled(Some(Ok(3)))), ProducerAction::Close));
}

#[test]
fn producer_stops_after_forwarding_an_error() {
    let mut p = Producer::new();
    p.step(Ev::Started);
    assert!(matches!(p.step(Ev::Pulled(Some(Ok(1)))), ProducerAction::Send(Ok(1))));
    assert!(matches!(p.step(Ev::Sent), ProducerAction::Pull));
    match p.step(Ev::Pulled(Some(Err("model failed".to_string())))) {
        ProducerAction::Send(Err(e)) => assert_eq!(e, "model failed"),
        _ => panic!("expected the error to be sent"),
    }
    assert_eq!(p.phase(), ProducerPhase::Closing);
    assert!(matches!(p.step(Ev::Sent), ProducerAction::Close));
    assert!(p.is_closed());
    assert!(matches!(p.step(Ev::Pulled(Some(Ok(2)))), ProducerAction::Close));
}

#[test]
fn producer_reports_failed_start() {
    let mut p = Producer::new();
    match p.step(Ev::StartFailed("no session".to_string())) {
        ProducerAction::Send(Err(e)) => assert_eq!(e, "no session"),
        _ => panic!("expected the failure to be sent"),
    }
    assert_eq!(p.phase(), ProducerPhase::Closing);
    assert!(matches!(p.step(Ev::Sent), ProducerAction::Close));
    assert!(p.is_closed());
}

#[test]
fn collector_gathers_until_first_error() {
    let mut c = Collector::new();
    assert!(c.absorb::<String>(Ok(1u8)).is_none());
    assert!(c.absorb::<String>(Ok(2u8)).is_none());
    assert_eq!(c.absorb(Err("boom".to_string())), Some("boom".to_string()));
    assert_eq!(c.into_items(), vec![1, 2]);
}

#[test]
fn final_text_skips_partial_and_intermediate_events() {
    let mut c = FinalTextCollector::new();
    assert!(c.absorb::<String>(Ok(ev("Hel", true, false))).is_none());
    assert!(c.absorb::<String>(Ok(ev("tool", false, false))).is_none());
    assert!(c.absorb::<String>(Ok(ev("Hello", false, true))).is_none());
    assert!(c.absorb::<String>(Ok(ev(" world", false, true))).is_none());
    assert_eq!(c.text(), "Hello world");
    assert_eq!(c.absorb(Err("late".to_string())), Some("late".to_string()));
    assert_eq!(c.into_text(), "Hello world");
}

#[test]
fn final_text_of_whole_stream() {
    let events = vec![ev("x", true, true), ev("a", false, true), ev("y", false, false), ev("b", false, true)];
    assert_eq!(final_response_text(&events), "ab");
    assert_eq!(final_response_text(&Vec::new()), "");
}

fn tool_event(text: &str) -> Event {
    let mut c = Content::model(text.to_string());
    c.add_part(adk_python::content::Part::FunctionCall {
        name: "lookup".to_string(),
        args: serde_json::Value::Null,
        id: None,
    });
    Event { author: "a".to_string(), content: Some(c), partial: false, turn_complete: true }
}

#[test]
fn final_text_skips_tool_events() {
    let mut c = FinalTextCollector::new();
    assert!(c.absorb::<String>(Ok(tool_event("calling a tool"))).is_none());
    assert!(c.absorb::<String>(Ok(ev("Done.", false, true))).is_none());
    assert_eq!(c.into_text(), "Done.");
    assert_eq!(final_response_text(&vec![tool_event("x"), ev("y", false, true)]), "y");
}

#[test]
fn tool_event_is_not_a_final_response() {
    assert!(!tool_event("x").is_final_response());
    assert!(ev("x", false, true).is_final_response());
}
