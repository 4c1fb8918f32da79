//! What a script hook's value means to the core. Whatever goes wrong in a hook
//! degrades to "no effect": a hook can never abort a run.

use vstd::prelude::*;
use vstd::string::*;
use crate::content::{opt_content_view, text_content, Content, ContentView, LlmResponse};

verus! {

/// What a content-returning hook (before or after an agent or a tool) gave back.
pub enum HookValue {
    /// The hook raised, or its deferred result could not be driven to completion.
    Raised,
    /// The hook returned no value.
    Nothing,
    /// The hook returned a structured message.
    Message(Content),
    /// The hook returned plain text.
    Text(String),
    /// The hook returned something else.
    Unrecognized,
}

/// The content that replaces the normal outcome, if any.
pub open spec fn override_of(v: HookValue) -> Option<ContentView> {
    match v {
        HookValue::Message(c) => Some(c@),
        HookValue::Text(t) => Some(text_content("model"@, t@)),
        _ => None,
    }
}

/// The override content for a hook's value: a message as it is, text as a model
/// message; anything else, a failure included, has no effect.
pub fn content_override(v: HookValue) -> (r: Option<Content>)
    ensures
        opt_content_view(r) == override_of(v),
{
    match v {
        HookValue::Message(c) => Some(c),
        HookValue::Text(t) => Some(Content::model(t)),
        _ => None,
    }
}

/// The result a script builds for a before-model hook: go on, or skip the model
/// and answer with a text.
#[derive(Clone, Debug)]
pub struct ModelCallChoice {
    skip: bool,
    response_text: Option<String>,
}

impl ModelCallChoice {
    pub closed spec fn spec_skip(&self) -> bool {
        self.skip
    }

    pub closed spec fn spec_response_text(&self) -> Option<Seq<char>> {
        crate::content::opt_str_view(self.response_text)
    }

    /// Go on with the model call.
    pub fn cont() -> (r: ModelCallChoice)
        ensures
            !r.spec_skip(),
            r.spec_response_text() is None,
    {
        ModelCallChoice { skip: false, response_text: None }
    }

    /// Skip the model call and answer with `response_text`.
    pub fn skip(response_text: String) -> (r: ModelCallChoice)
        ensures
            r.spec_skip(),
            r.spec_response_text() == Some(response_text@),
    {
        ModelCallChoice { skip: true, response_text: Some(response_text) }
    }

    pub fn is_skip(&self) -> (r: bool)
        ensures
            r == self.spec_skip(),
    {
        self.skip
    }

    /// How the choice reads to script code.
    pub fn describe(&self) -> (r: String)
        ensures
            r@ == (if self.spec_skip() {
                "BeforeModelResult.skip('"@ + match self.spec_response_text() {
                    Some(t) => t,
                    None => Seq::<char>::empty(),
                } + "')"@
            } else {
                "BeforeModelResult.cont()"@
            }),
    {
        if self.skip {
            let mut out = String::from_str("BeforeModelResult.skip('");
            match &self.response_text {
                Some(t) => out.append(t.as_str()),
                None => {},
            }
            out.append("')");
            out
        } else {
            String::from_str("BeforeModelResult.cont()")
        }
    }

    pub fn response_text(&self) -> (r: Option<&String>)
        ensures
            match r {
                Some(t) => self.spec_response_text() == Some(t@),
                None => self.spec_response_text() is None,
            },
    {
        match &self.response_text {
            Some(t) => Some(t),
            None => None,
        }
    }
}

/// What a before-model hook gave back.
pub enum BeforeModelValue {
    Raised,
    Nothing,
    Choice(ModelCallChoice),
    Text(String),
    Unrecognized,
}

/// Whether the model is called for this turn: with the request, or not at all,
/// the given response standing in for its answer.
pub enum BeforeModelResult<R> {
    Continue(R),
    Skip(LlmResponse),
}

/// The answer text a before-model value asks for in place of the model's, if it
/// asks to skip the model.
pub open spec fn skip_text_of(v: BeforeModelValue) -> Option<Seq<char>> {
    match v {
        BeforeModelValue::Choice(c) => if c.spec_skip() {
            Some(
                match c.spec_response_text() {
                    Some(t) => t,
                    None => Seq::<char>::empty(),
                },
            )
        } else {
            None
        },
        BeforeModelValue::Text(t) => Some(t@),
        _ => None,
    }
}

/// A complete model answer of one text part.
pub open spec fn skip_response(r: LlmResponse, text: Seq<char>) -> bool {
    &&& opt_content_view(r.content) == Some(text_content("model"@, text))
    &&& !r.partial
    &&& r.turn_complete
}

/// What a before-model result means for a hook's value: a skip with the asked-for
/// text as a complete model answer, or the request unchanged.
pub open spec fn before_model_meaning<R>(v: BeforeModelValue, request: R, r: BeforeModelResult<R>) -> bool {
    match skip_text_of(v) {
        Some(t) => r matches BeforeModelResult::Skip(resp) && skip_response(resp, t),
        None => r == BeforeModelResult::<R>::Continue(request),
    }
}

/// The request a before-model result hands on to the model, if any.
pub open spec fn request_for_model<R>(r: BeforeModelResult<R>) -> Option<R> {
    match r {
        BeforeModelResult::Continue(req) => Some(req),
        BeforeModelResult::Skip(_) => None,
    }
}

/// The before-model result for a hook's value: a skip choice or plain text skips
/// the model with that text as the answer; anything else, a failure included,
/// goes on with the request unchanged.
pub fn before_model_outcome<R>(v: BeforeModelValue, request: R) -> (r: BeforeModelResult<R>)
    ensures
        before_model_meaning(v, request, r),
{
    let text = match v {
        BeforeModelValue::Choice(c) => if c.skip {
            match c.response_text {
                Some(t) => Some(t),
                None => Some(String::new()),
            }
        } else {
            None
        },
        BeforeModelValue::Text(t) => Some(t),
        _ => None,
    };
    match text {
        Some(t) => BeforeModelResult::Skip(LlmResponse::complete(Content::model(t))),
        None => BeforeModelResult::Continue(request),
    }
}

/// What an after-model hook gave back.
pub enum AfterModelValue {
    Raised,
    Nothing,
    Response(LlmResponse),
    Unrecognized,
}

/// The response that replaces the model's: only a response value replaces it.
pub fn response_override(v: AfterModelValue) -> (r: Option<LlmResponse>)
    ensures
        match v {
            AfterModelValue::Response(resp) => r == Some(resp),
            _ => r is None,
        },
{
    match v {
        AfterModelValue::Response(resp) => Some(resp),
        _ => None,
    }
}

/// A before-model hook that asks to skip, by a skip choice or by plain text,
/// keeps the model from being called for the turn: the result hands no request
/// on. Any other value hands the request on unchanged.
pub proof fn lemma_skip_withholds_request<R>(v: BeforeModelValue, request: R, r: BeforeModelResult<R>)
    requires
        before_model_meaning(v, request, r),
    ensures
        ((v matches BeforeModelValue::Choice(c) && c.spec_skip()) || v is Text)
            ==> request_for_model(r) is None,
        !((v matches BeforeModelValue::Choice(c) && c.spec_skip()) || v is Text)
            ==> request_for_model(r) == Some(request),
{
}

} // verus!
