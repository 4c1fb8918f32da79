//! The classifier router: its configuration, its builder, and the decision of
//! where a classifier's answer leads.

use vstd::prelude::*;
use vstd::string::*;
use crate::content::{
    join, join_text_parts, texts_of, text_content, Content, Event, EventView,
};
use crate::routing::{first_match, inserted, RouteTable};
use crate::text::{debug_quoted, lower_of, quoted, to_lowercase, trim, trim_ws};

verus! {

/// Why a router configuration was refused.
#[derive(PartialEq, Eq, Structural, Debug, Clone, Copy)]
pub enum BuildError {
    /// No classification instruction, or an empty one.
    MissingInstruction,
    /// No route was added.
    NoRoutes,
}

impl BuildError {
    pub fn message(&self) -> (r: String)
        ensures
            r@ == (match self {
                BuildError::MissingInstruction => "Instruction is required for LlmConditionalAgent"@,
                BuildError::NoRoutes => "At least one route is required for LlmConditionalAgent"@,
            }),
    {
        match self {
            BuildError::MissingInstruction => String::from_str(
                "Instruction is required for LlmConditionalAgent",
            ),
            BuildError::NoRoutes => String::from_str(
                "At least one route is required for LlmConditionalAgent",
            ),
        }
    }
}

/// Where a classification leads.
#[derive(PartialEq, Eq, Structural, Debug, Clone, Copy)]
pub enum Dispatch {
    /// The route at this position of the table.
    Route(usize),
    /// The default route.
    Default,
    /// Nowhere: no label matched and there is no default route.
    Unrouted,
}

/// The dispatch for a normalized label: the first route, in table order, whose
/// label occurs in it; else the default route when there is one.
pub open spec fn dispatch_of(labels: Seq<Seq<char>>, has_default: bool, label: Seq<char>) -> Dispatch {
    match first_match(labels, label) {
        Some(i) => Dispatch::Route(i as usize),
        None => if has_default {
            Dispatch::Default
        } else {
            Dispatch::Unrouted
        },
    }
}

/// A classifier's raw answer as a route label: trimmed, then lower-cased.
pub open spec fn label_of(raw: Seq<char>) -> Seq<char> {
    lower_of(trim_ws(raw))
}

pub open spec fn announce_text(label: Seq<char>) -> Seq<char> {
    "[Routing to: "@ + label + "]"@
}

/// The event that states the resolved label before anything is delegated.
pub open spec fn announcement(author: Seq<char>, label: Seq<char>) -> EventView {
    EventView {
        author,
        content: Some(text_content("model"@, announce_text(label))),
        partial: false,
        turn_complete: false,
    }
}

/// The known labels as a list: each quoted, separated by a comma and a space,
/// in brackets.
pub open spec fn route_list(labels: Seq<Seq<char>>) -> Seq<char> {
    "["@ + join(labels.map_values(|l: Seq<char>| debug_quoted(l)), ", "@) + "]"@
}

pub open spec fn unrouted_text(label: Seq<char>, labels: Seq<Seq<char>>) -> Seq<char> {
    "No route found for classification '"@ + label + "'. Available routes: "@ + route_list(labels)
}

/// The event that explains that a label led nowhere.
pub open spec fn unrouted_notice(author: Seq<char>, label: Seq<char>, labels: Seq<Seq<char>>) -> EventView {
    EventView {
        author,
        content: Some(text_content("model"@, unrouted_text(label, labels))),
        partial: false,
        turn_complete: false,
    }
}

/// The text sent to the classifier: the instruction, a blank line, and the
/// user's text parts joined with single spaces.
pub open spec fn prompt_text(instruction: Seq<char>, user_parts: Seq<crate::content::PartView>) -> Seq<char> {
    instruction + "\n\nUser input: "@ + join(texts_of(user_parts), " "@)
}

/// Trims a classifier's answer and lower-cases it.
pub fn normalize_label(raw: &str) -> (r: String)
    ensures
        r@ == label_of(raw@),
{
    let t = trim(raw);
    to_lowercase(t)
}

/// The text sent to the classifier for `user`'s message.
pub fn classification_prompt(instruction: &str, user: &Content) -> (r: String)
    ensures
        r@ == prompt_text(instruction@, user@.parts),
{
    let mut out = String::from_str(instruction);
    out.append("\n\nUser input: ");
    let joined = join_text_parts(&user.parts, " ");
    out.append(joined.as_str());
    out
}

/// A model-authored event of one text part, neither partial nor turn-completing.
fn notice(author: &str, text: String) -> (r: Event)
    ensures
        r@ == (EventView {
            author: author@,
            content: Some(text_content("model"@, text@)),
            partial: false,
            turn_complete: false,
        }),
{
    Event {
        author: String::from_str(author),
        content: Some(Content::model(text)),
        partial: false,
        turn_complete: false,
    }
}

/// The announcement event of `author` for `label`.
pub fn announce(author: &str, label: &str) -> (r: Event)
    ensures
        r@ == announcement(author@, label@),
{
    let mut text = String::from_str("[Routing to: ");
    text.append(label);
    text.append("]");
    notice(author, text)
}

/// Builds a router: a name, a classifier model, an instruction, routes and an
/// optional default route.
#[derive(Clone)]
pub struct LlmRouterBuilder<M, A> {
    name: String,
    description: Option<String>,
    model: M,
    instruction: Option<String>,
    routes: RouteTable<A>,
    default_route: Option<A>,
}

/// Routes each invocation to one of its sub-agents by the label a classifier
/// model gives the user's message.
pub struct LlmRouter<M, A> {
    name: String,
    description: String,
    model: M,
    instruction: String,
    routes: RouteTable<A>,
    default_route: Option<A>,
}

impl<M, A> LlmRouterBuilder<M, A> {
    pub closed spec fn spec_name(&self) -> Seq<char> {
        self.name@
    }

    pub closed spec fn spec_description(&self) -> Option<Seq<char>> {
        crate::content::opt_str_view(self.description)
    }

    pub closed spec fn spec_model(&self) -> M {
        self.model
    }

    pub closed spec fn spec_instruction(&self) -> Option<Seq<char>> {
        crate::content::opt_str_view(self.instruction)
    }

    pub closed spec fn spec_routes(&self) -> RouteTable<A> {
        self.routes
    }

    pub closed spec fn spec_default_route(&self) -> Option<A> {
        self.default_route
    }

    /// The route table is well formed.
    pub open spec fn wf(&self) -> bool {
        self.spec_routes().wf()
    }

    pub fn new(name: String, model: M) -> (r: Self)
        ensures
            r.wf(),
            r.spec_name() == name@,
            r.spec_description() is None,
            r.spec_model() == model,
            r.spec_instruction() is None,
            r.spec_routes().labels().len() == 0,
            r.spec_default_route() is None,
    {
        LlmRouterBuilder {
            name,
            description: None,
            model,
            instruction: None,
            routes: RouteTable::new(),
            default_route: None,
        }
    }

    pub fn description(&mut self, desc: String)
        ensures
            final(self).spec_description() == Some(desc@),
            final(self).spec_name() == old(self).spec_name(),
            final(self).spec_model() == old(self).spec_model(),
            final(self).spec_instruction() == old(self).spec_instruction(),
            final(self).spec_routes() == old(self).spec_routes(),
            final(self).spec_default_route() == old(self).spec_default_route(),
            final(self).wf() == old(self).wf(),
    {
        self.description = Some(desc);
    }

    /// Sets the instruction that tells the classifier to answer with a label.
    pub fn instruction(&mut self, instruction: String)
        ensures
            final(self).spec_instruction() == Some(instruction@),
            final(self).spec_name() == old(self).spec_name(),
            final(self).spec_description() == old(self).spec_description(),
            final(self).spec_model() == old(self).spec_model(),
            final(self).spec_routes() == old(self).spec_routes(),
            final(self).spec_default_route() == old(self).spec_default_route(),
            final(self).wf() == old(self).wf(),
    {
        self.instruction = Some(instruction);
    }

    /// Maps `label`, lower-cased, to `agent`; an existing label gets the new agent.
    pub fn route(&mut self, label: &str, agent: A)
        requires
            old(self).wf(),
        ensures
            final(self).wf(),
            inserted(old(self).spec_routes(), lower_of(label@), agent, final(self).spec_routes()),
            final(self).spec_name() == old(self).spec_name(),
            final(self).spec_description() == old(self).spec_description(),
            final(self).spec_model() == old(self).spec_model(),
            final(self).spec_instruction() == old(self).spec_instruction(),
            final(self).spec_default_route() == old(self).spec_default_route(),
    {
        self.routes.insert(label, agent);
    }

    /// Sets the agent that takes a label no route matches.
    pub fn default_route(&mut self, agent: A)
        ensures
            final(self).spec_default_route() == Some(agent),
            final(self).spec_name() == old(self).spec_name(),
            final(self).spec_description() == old(self).spec_description(),
            final(self).spec_model() == old(self).spec_model(),
            final(self).spec_instruction() == old(self).spec_instruction(),
            final(self).spec_routes() == old(self).spec_routes(),
            final(self).wf() == old(self).wf(),
    {
        self.default_route = Some(agent);
    }

    /// The router, unless the instruction is missing or empty, or no route was added.
    pub fn build(self) -> (r: Result<LlmRouter<M, A>, BuildError>)
        requires
            self.wf(),
        ensures
            match self.spec_instruction() {
                None => r == Err::<LlmRouter<M, A>, BuildError>(BuildError::MissingInstruction),
                Some(i) => if i.len() == 0 {
                    r == Err::<LlmRouter<M, A>, BuildError>(BuildError::MissingInstruction)
                } else if self.spec_routes().labels().len() == 0 {
                    r == Err::<LlmRouter<M, A>, BuildError>(BuildError::NoRoutes)
                } else {
                    r matches Ok(router) && router.wf()
                        && router.spec_name() == self.spec_name()
                        && router.spec_description() == (match self.spec_description() {
                            Some(d) => d,
                            None => Seq::<char>::empty(),
                        })
                        && router.spec_model() == self.spec_model()
                        && router.spec_instruction() == i
                        && router.spec_routes() == self.spec_routes()
                        && router.spec_default_route() == self.spec_default_route()
                },
            },
    {
        let instruction = match self.instruction {
            Some(i) => i,
            None => {
                return Err(BuildError::MissingInstruction);
            },
        };
        if instruction.as_str().is_empty() {
            return Err(BuildError::MissingInstruction);
        }
        if self.routes.is_empty() {
            return Err(BuildError::NoRoutes);
        }
        let description = match self.description {
            Some(d) => d,
            None => String::new(),
        };
        Ok(LlmRouter {
            name: self.name,
            description,
            model: self.model,
            instruction,
            routes: self.routes,
            default_route: self.default_route,
        })
    }
}

impl<M, A> LlmRouter<M, A> {
    pub closed spec fn spec_name(&self) -> Seq<char> {
        self.name@
    }

    pub closed spec fn spec_description(&self) -> Seq<char> {
        self.description@
    }

    pub closed spec fn spec_model(&self) -> M {
        self.model
    }

    pub closed spec fn spec_instruction(&self) -> Seq<char> {
        self.instruction@
    }

    pub closed spec fn spec_routes(&self) -> RouteTable<A> {
        self.routes
    }

    pub closed spec fn spec_default_route(&self) -> Option<A> {
        self.default_route
    }

    /// The labels of the routes, in table order.
    pub open spec fn labels(&self) -> Seq<Seq<char>> {
        self.spec_routes().labels()
    }

    /// A built router: unique labels, at least one route, a non-empty instruction.
    pub open spec fn wf(&self) -> bool {
        &&& self.spec_routes().wf()
        &&& self.labels().len() > 0
        &&& self.spec_instruction().len() > 0
    }

    pub fn name(&self) -> (r: &String)
        ensures
            r@ == self.spec_name(),
    {
        &self.name
    }

    pub fn description(&self) -> (r: &String)
        ensures
            r@ == self.spec_description(),
    {
        &self.description
    }

    pub fn model(&self) -> (r: &M)
        ensures
            *r == self.spec_model(),
    {
        &self.model
    }

    pub fn instruction(&self) -> (r: &String)
        ensures
            r@ == self.spec_instruction(),
    {
        &self.instruction
    }

    pub fn routes(&self) -> (r: &RouteTable<A>)
        ensures
            *r == self.spec_routes(),
    {
        &self.routes
    }

    pub fn default_route(&self) -> (r: &Option<A>)
        ensures
            *r == self.spec_default_route(),
    {
        &self.default_route
    }

    /// Where the normalized label `label` leads.
    pub fn dispatch(&self, label: &str) -> (r: Dispatch)
        ensures
            r == dispatch_of(self.labels(), self.spec_default_route() is Some, label@),
    {
        match self.routes.find(label) {
            Some(i) => Dispatch::Route(i),
            None => if self.default_route.is_some() {
                Dispatch::Default
            } else {
                Dispatch::Unrouted
            },
        }
    }

    /// The route labels as a list, each quoted, in table order.
    pub fn route_list(&self) -> (r: String)
        ensures
            r@ == route_list(self.labels()),
    {
        let ghost labels = self.labels();
        let ghost quoted_all = labels.map_values(|l: Seq<char>| debug_quoted(l));
        let mut body = String::new();
        let mut i: usize = 0;
        while i < self.routes.len()
            invariant
                i <= labels.len(),
                labels == self.labels(),
                quoted_all == labels.map_values(|l: Seq<char>| debug_quoted(l)),
                body@ == join(quoted_all.take(i as int), ", "@),
            decreases labels.len() - i,
        {
            let q = quoted(self.routes.label(i).as_str());
            proof {
                assert(quoted_all.take(i as int + 1).drop_last() =~= quoted_all.take(i as int));
            }
            if i > 0 {
                body.append(", ");
            }
            body.append(q.as_str());
            i = i + 1;
        }
        assert(quoted_all.take(i as int) =~= quoted_all);
        let mut out = String::from_str("[");
        out.append(body.as_str());
        out.append("]");
        out
    }

    /// The event that explains that `label` matched no route.
    pub fn unrouted(&self, label: &str) -> (r: Event)
        ensures
            r@ == unrouted_notice(self.spec_name(), label@, self.labels()),
    {
        let mut text = String::from_str("No route found for classification '");
        text.append(label);
        text.append("'. Available routes: ");
        let list = self.route_list();
        text.append(list.as_str());
        notice(self.name.as_str(), text)
    }
}

} // verus!
