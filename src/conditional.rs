//! The rule-based conditional agent: one predicate, evaluated once, picks the
//! branch that runs.

use vstd::prelude::*;

verus! {

/// The branch a conditional agent takes.
#[derive(PartialEq, Eq, Structural, Debug, Clone, Copy)]
pub enum Branch {
    /// The predicate held: the if-agent runs.
    If,
    /// The predicate did not hold and there is an else-agent: it runs.
    Else,
    /// The predicate did not hold and there is no else-agent: nothing runs.
    Empty,
}

/// The branch for a predicate outcome. `None` stands for an evaluation that
/// failed or gave no boolean, which counts as false.
pub open spec fn branch_of(predicate: Option<bool>, has_else: bool) -> Branch {
    if predicate == Some(true) {
        Branch::If
    } else if has_else {
        Branch::Else
    } else {
        Branch::Empty
    }
}

pub fn select_branch(predicate: Option<bool>, has_else: bool) -> (r: Branch)
    ensures
        r == branch_of(predicate, has_else),
        (r == Branch::If) == (predicate == Some(true)),
        (r == Branch::Else) == (predicate != Some(true) && has_else),
        (r == Branch::Empty) == (predicate != Some(true) && !has_else),
{
    match predicate {
        Some(true) => Branch::If,
        _ => if has_else {
            Branch::Else
        } else {
            Branch::Empty
        },
    }
}

/// Runs `if_agent` when its predicate holds, else `else_agent` if there is one,
/// else nothing.
pub struct ConditionalAgent<A> {
    name: String,
    description: String,
    if_agent: A,
    else_agent: Option<A>,
}

impl<A> ConditionalAgent<A> {
    pub closed spec fn spec_name(&self) -> Seq<char> {
        self.name@
    }

    pub closed spec fn spec_description(&self) -> Seq<char> {
        self.description@
    }

    pub closed spec fn spec_if_agent(&self) -> A {
        self.if_agent
    }

    pub closed spec fn spec_else_agent(&self) -> Option<A> {
        self.else_agent
    }

    pub fn new(name: String, if_agent: A, else_agent: Option<A>, description: Option<String>) -> (r: Self)
        ensures
            r.spec_name() == name@,
            r.spec_description() == (match description {
                Some(d) => d@,
                None => Seq::<char>::empty(),
            }),
            r.spec_if_agent() == if_agent,
            r.spec_else_agent() == else_agent,
    {
        let description = match description {
            Some(d) => d,
            None => String::new(),
        };
        ConditionalAgent { name, description, if_agent, else_agent }
    }

    pub fn name(&self) -> (r: &String)
        ensures
            r@ == self.spec_name(),
    {
        &self.name
    }

    pub fn description(&self) -> (r: &String)
        ensures
            r@ == self.spec_description(),
    {
        &self.description
    }

    /// The branch taken for a predicate outcome.
    pub fn branch(&self, predicate: Option<bool>) -> (r: Branch)
        ensures
            r == branch_of(predicate, self.spec_else_agent() is Some),
    {
        select_branch(predicate, self.else_agent.is_some())
    }

    /// The agent that runs for a predicate outcome; `None` means an empty stream.
    pub fn target(&self, predicate: Option<bool>) -> (r: Option<&A>)
        ensures
            match branch_of(predicate, self.spec_else_agent() is Some) {
                Branch::If => r == Some(&self.spec_if_agent()),
                Branch::Else => r == Some(&self.spec_else_agent().unwrap()),
                Branch::Empty => r is None,
            },
    {
        match self.branch(predicate) {
            Branch::If => Some(&self.if_agent),
            Branch::Else => match &self.else_agent {
                Some(a) => Some(a),
                None => None,
            },
            Branch::Empty => None,
        }
    }
}

/// Exactly one of the three branches is taken, and which one depends on the
/// predicate's outcome and on whether there is an else-agent, nothing else.
pub proof fn lemma_exactly_one_branch(predicate: Option<bool>, has_else: bool)
    ensures
        ({
            let b = branch_of(predicate, has_else);
            &&& (b == Branch::If) as int + (b == Branch::Else) as int + (b == Branch::Empty) as int == 1
            &&& (b == Branch::If <==> predicate == Some(true))
        }),
{
}

} // verus!
