//! The custom agent: a script handler's value becomes the agent's one event.

use vstd::prelude::*;
use vstd::string::*;
use crate::content::{text_content, text_of, Content, Event, EventView};

verus! {

/// The value a handler resolved to, as the host runtime told it apart.
pub enum HandlerValue {
    /// A text value.
    Text(String),
    /// A structured message.
    Message(Content),
    /// Anything else, in its generic string form.
    Other(String),
}

/// Why a handler gave no value.
pub enum HandlerFailure {
    /// The handler raised, or its deferred result failed; the message says why.
    Raised(String),
    /// The worker that ran the handler did not complete.
    Aborted(String),
}

/// The text of a handler's value: a text as it is, a message's text parts laid
/// end to end, anything else in its string form.
pub open spec fn handler_text_of(v: HandlerValue) -> Seq<char> {
    match v {
        HandlerValue::Text(s) => s@,
        HandlerValue::Message(c) => text_of(c@),
        HandlerValue::Other(s) => s@,
    }
}

/// The one event of a custom agent whose handler produced `text`.
pub open spec fn reply_event(author: Seq<char>, text: Seq<char>) -> EventView {
    EventView {
        author,
        content: Some(text_content("model"@, text)),
        partial: false,
        turn_complete: true,
    }
}

pub open spec fn failure_message(f: HandlerFailure) -> Seq<char> {
    match f {
        HandlerFailure::Raised(e) => "Python handler error: "@ + e@,
        HandlerFailure::Aborted(e) => "Handler task failed: "@ + e@,
    }
}

/// What a custom agent's stream is for a handler outcome: the one reply event
/// for a value, the error for a failure.
pub open spec fn reply_meaning(author: Seq<char>, outcome: Result<HandlerValue, HandlerFailure>, r: Result<Event, String>) -> bool {
    match outcome {
        Ok(v) => r matches Ok(e) && e@ == reply_event(author, handler_text_of(v)),
        Err(f) => r matches Err(m) && m@ == failure_message(f),
    }
}

pub fn handler_text(v: HandlerValue) -> (r: String)
    ensures
        r@ == handler_text_of(v),
{
    match v {
        HandlerValue::Text(s) => s,
        HandlerValue::Message(c) => c.get_text(),
        HandlerValue::Other(s) => s,
    }
}

/// The agent's stream for a handler outcome: one final event holding the text
/// of the value, or, when the handler failed, the error that ends the stream.
pub fn handler_reply(agent_name: &str, outcome: Result<HandlerValue, HandlerFailure>) -> (r: Result<Event, String>)
    ensures
        reply_meaning(agent_name@, outcome, r),
{
    match outcome {
        Ok(v) => {
            let text = handler_text(v);
            Ok(Event {
                author: String::from_str(agent_name),
                content: Some(Content::model(text)),
                partial: false,
                turn_complete: true,
            })
        },
        Err(HandlerFailure::Raised(e)) => {
            let mut m = String::from_str("Python handler error: ");
            m.append(e.as_str());
            Err(m)
        },
        Err(HandlerFailure::Aborted(e)) => {
            let mut m = String::from_str("Handler task failed: ");
            m.append(e.as_str());
            Err(m)
        },
    }
}

/// Why a custom agent could not be built.
#[derive(PartialEq, Eq, Structural, Debug, Clone, Copy)]
pub enum CustomBuildError {
    MissingHandler,
}

impl CustomBuildError {
    pub fn message(&self) -> (r: String)
        ensures
            r@ == "CustomAgent requires a handler"@,
    {
        String::from_str("CustomAgent requires a handler")
    }
}

/// Builds a custom agent from a name, a handler and optional sub-agents.
#[derive(Clone)]
pub struct CustomAgentBuilder<H, A> {
    name: String,
    description: Option<String>,
    handler: Option<H>,
    sub_agents: Vec<A>,
}

/// A leaf agent whose body is a script handler.
pub struct CustomAgent<H, A> {
    name: String,
    description: String,
    handler: H,
    sub_agents: Vec<A>,
}

impl<H, A> CustomAgentBuilder<H, A> {
    pub closed spec fn spec_name(&self) -> Seq<char> {
        self.name@
    }

    pub closed spec fn spec_description(&self) -> Option<Seq<char>> {
        crate::content::opt_str_view(self.description)
    }

    pub closed spec fn spec_handler(&self) -> Option<H> {
        self.handler
    }

    pub closed spec fn spec_sub_agents(&self) -> Seq<A> {
        self.sub_agents@
    }

    pub fn new(name: String) -> (r: Self)
        ensures
            r.spec_name() == name@,
            r.spec_description() is None,
            r.spec_handler() is None,
            r.spec_sub_agents() == Seq::<A>::empty(),
    {
        CustomAgentBuilder { name, description: None, handler: None, sub_agents: Vec::new() }
    }

    pub fn description(&mut self, desc: String)
        ensures
            final(self).spec_description() == Some(desc@),
            final(self).spec_name() == old(self).spec_name(),
            final(self).spec_handler() == old(self).spec_handler(),
            final(self).spec_sub_agents() == old(self).spec_sub_agents(),
    {
        self.description = Some(desc);
    }

    pub fn handler(&mut self, handler: H)
        ensures
            final(self).spec_handler() == Some(handler),
            final(self).spec_name() == old(self).spec_name(),
            final(self).spec_description() == old(self).spec_description(),
            final(self).spec_sub_agents() == old(self).spec_sub_agents(),
    {
        self.handler = Some(handler);
    }

    pub fn sub_agent(&mut self, agent: A)
        ensures
            final(self).spec_sub_agents() == old(self).spec_sub_agents().push(agent),
            final(self).spec_name() == old(self).spec_name(),
            final(self).spec_description() == old(self).spec_description(),
            final(self).spec_handler() == old(self).spec_handler(),
    {
        self.sub_agents.push(agent);
    }

    /// The agent, unless no handler was set.
    pub fn build(self) -> (r: Result<CustomAgent<H, A>, CustomBuildError>)
        ensures
            match self.spec_handler() {
                None => r == Err::<CustomAgent<H, A>, CustomBuildError>(CustomBuildError::MissingHandler),
                Some(h) => r matches Ok(agent)
                    && agent.spec_name() == self.spec_name()
                    && agent.spec_description() == (match self.spec_description() {
                        Some(d) => d,
                        None => Seq::<char>::empty(),
                    })
                    && agent.spec_handler() == h
                    && agent.spec_sub_agents() == self.spec_sub_agents(),
            },
    {
        let handler = match self.handler {
            Some(h) => h,
            None => {
                return Err(CustomBuildError::MissingHandler);
            },
        };
        let description = match self.description {
            Some(d) => d,
            None => String::new(),
        };
        Ok(CustomAgent { name: self.name, description, handler, sub_agents: self.sub_agents })
    }
}

impl<H, A> CustomAgent<H, A> {
    pub closed spec fn spec_name(&self) -> Seq<char> {
        self.name@
    }

    pub closed spec fn spec_description(&self) -> Seq<char> {
        self.description@
    }

    pub closed spec fn spec_handler(&self) -> H {
        self.handler
    }

    pub closed spec fn spec_sub_agents(&self) -> Seq<A> {
        self.sub_agents@
    }

    pub fn name(&self) -> (r: &String)
        ensures
            r@ == self.spec_name(),
    {
        &self.name
    }

    pub fn description(&self) -> (r: &String)
        ensures
            r@ == self.spec_description(),
    {
        &self.description
    }

    pub fn handler(&self) -> (r: &H)
        ensures
            *r == self.spec_handler(),
    {
        &self.handler
    }

    pub fn sub_agents(&self) -> (r: &Vec<A>)
        ensures
            r@ == self.spec_sub_agents(),
    {
        &self.sub_agents
    }

    /// The agent's stream for its handler's outcome.
    pub fn reply(&self, outcome: Result<HandlerValue, HandlerFailure>) -> (r: Result<Event, String>)
        ensures
            reply_meaning(self.spec_name(), outcome, r),
    {
        handler_reply(self.name.as_str(), outcome)
    }
}

/// A handler that returns the text `t` yields exactly one event: authored by the
/// agent, a model message holding exactly `t`, turn-completing and not partial.
/// A handler that fails yields an error and no event.
pub proof fn lemma_handler_reply(author: Seq<char>, outcome: Result<HandlerValue, HandlerFailure>, r: Result<Event, String>)
    requires
        reply_meaning(author, outcome, r),
    ensures
        outcome matches Ok(HandlerValue::Text(t)) ==> (r matches Ok(e) && e@.content == Some(
            text_content("model"@, t@),
        ) && e@.turn_complete && !e@.partial && e@.author == author),
        outcome is Err ==> r is Err,
{
}

} // verus!
