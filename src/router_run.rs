//! One run of the classifier router, as a state machine: the caller performs
//! each output (asks the model, yields an event, starts a sub-agent) and feeds
//! back what happened.

use vstd::prelude::*;
use vstd::string::*;
use crate::content::{
    opt_content_view, text_content, text_of, Content, ContentView, Event, EventView,
};
use crate::text::{lower_of, trim_ws};
use crate::router::{
    announce, announcement, classification_prompt, dispatch_of, label_of, normalize_label,
    prompt_text, unrouted_notice, unrouted_text, announce_text, Dispatch, LlmRouter,
};

verus! {

/// What happened since the last step.
pub enum RouterInput<T, E> {
    /// The run starts on the user's message.
    Begin(Content),
    /// The classifier sent a fragment of its answer.
    Fragment(Option<Content>),
    /// The classifier, or the chosen sub-agent, failed with this error.
    Failed(E),
    /// The classifier's answer, or the chosen sub-agent's stream, is complete.
    Finished,
    /// The chosen sub-agent yielded an item.
    Delegated(T),
}

/// What the caller does next, in order.
pub enum RouterOutput<T, E> {
    /// Ask the classifier, non-streaming, with this one message.
    Classify(Content),
    /// Yield this event.
    Emit(Event),
    /// Run the route at this position and feed back its items.
    Delegate(usize),
    /// Run the default route and feed back its items.
    DelegateDefault,
    /// Yield this item of the sub-agent's stream unchanged.
    Forward(T),
    /// Yield this error; the stream ends.
    Fail(E),
}

#[derive(PartialEq, Eq, Structural, Debug, Clone, Copy)]
pub enum RouterPhase {
    Idle,
    Classifying,
    Relaying,
    Done,
}

pub ghost enum RouterInputView<T, E> {
    Begin(ContentView),
    Fragment(Option<ContentView>),
    Failed(E),
    Finished,
    Delegated(T),
}

pub ghost enum RouterOutputView<T, E> {
    Classify(ContentView),
    Emit(EventView),
    Delegate(usize),
    DelegateDefault,
    Forward(T),
    Fail(E),
}

impl<T, E> View for RouterInput<T, E> {
    type V = RouterInputView<T, E>;

    open spec fn view(&self) -> RouterInputView<T, E> {
        match self {
            RouterInput::Begin(c) => RouterInputView::Begin(c@),
            RouterInput::Fragment(c) => RouterInputView::Fragment(opt_content_view(*c)),
            RouterInput::Failed(e) => RouterInputView::Failed(*e),
            RouterInput::Finished => RouterInputView::Finished,
            RouterInput::Delegated(t) => RouterInputView::Delegated(*t),
        }
    }
}

impl<T, E> View for RouterOutput<T, E> {
    type V = RouterOutputView<T, E>;

    open spec fn view(&self) -> RouterOutputView<T, E> {
        match self {
            RouterOutput::Classify(c) => RouterOutputView::Classify(c@),
            RouterOutput::Emit(e) => RouterOutputView::Emit(e@),
            RouterOutput::Delegate(i) => RouterOutputView::Delegate(*i),
            RouterOutput::DelegateDefault => RouterOutputView::DelegateDefault,
            RouterOutput::Forward(t) => RouterOutputView::Forward(*t),
            RouterOutput::Fail(e) => RouterOutputView::Fail(*e),
        }
    }
}

pub open spec fn output_views<T, E>(outs: Seq<RouterOutput<T, E>>) -> Seq<RouterOutputView<T, E>> {
    outs.map_values(|o: RouterOutput<T, E>| o@)
}

/// What a run needs to know of its router.
pub ghost struct RouterSpec {
    pub name: Seq<char>,
    pub instruction: Seq<char>,
    pub labels: Seq<Seq<char>>,
    pub has_default: bool,
}

impl<M, A> LlmRouter<M, A> {
    pub open spec fn spec_config(&self) -> RouterSpec {
        RouterSpec {
            name: self.spec_name(),
            instruction: self.spec_instruction(),
            labels: self.labels(),
            has_default: self.spec_default_route() is Some,
        }
    }
}

/// One step of a run: the next phase, the classifier's answer so far, and the
/// outputs, in order.
pub open spec fn router_step<T, E>(
    cfg: RouterSpec,
    phase: RouterPhase,
    answer: Seq<char>,
    input: RouterInputView<T, E>,
) -> (RouterPhase, Seq<char>, Seq<RouterOutputView<T, E>>) {
    match (phase, input) {
        (RouterPhase::Idle, RouterInputView::Begin(user)) => (
            RouterPhase::Classifying,
            Seq::empty(),
            seq![RouterOutputView::Classify(text_content("user"@, prompt_text(cfg.instruction, user.parts)))],
        ),
        (RouterPhase::Classifying, RouterInputView::Fragment(fragment)) => (
            RouterPhase::Classifying,
            match fragment {
                Some(c) => answer + text_of(c),
                None => answer,
            },
            Seq::empty(),
        ),
        (RouterPhase::Classifying, RouterInputView::Failed(e)) => (
            RouterPhase::Done,
            answer,
            seq![RouterOutputView::Fail(e)],
        ),
        (RouterPhase::Classifying, RouterInputView::Finished) => {
            let label = label_of(answer);
            let ann = RouterOutputView::Emit(announcement(cfg.name, label));
            match dispatch_of(cfg.labels, cfg.has_default, label) {
                Dispatch::Route(i) => (RouterPhase::Relaying, answer, seq![ann, RouterOutputView::Delegate(i)]),
                Dispatch::Default => (RouterPhase::Relaying, answer, seq![ann, RouterOutputView::DelegateDefault]),
                Dispatch::Unrouted => (
                    RouterPhase::Done,
                    answer,
                    seq![ann, RouterOutputView::Emit(unrouted_notice(cfg.name, label, cfg.labels))],
                ),
            }
        },
        (RouterPhase::Relaying, RouterInputView::Delegated(t)) => (
            RouterPhase::Relaying,
            answer,
            seq![RouterOutputView::Forward(t)],
        ),
        (RouterPhase::Relaying, RouterInputView::Failed(e)) => (
            RouterPhase::Done,
            answer,
            seq![RouterOutputView::Fail(e)],
        ),
        (RouterPhase::Relaying, RouterInputView::Finished) => (RouterPhase::Done, answer, Seq::empty()),
        _ => (phase, answer, Seq::empty()),
    }
}

/// All outputs of a run that starts in `phase` with `answer` and is fed `inputs`.
pub open spec fn router_trace<T, E>(
    cfg: RouterSpec,
    phase: RouterPhase,
    answer: Seq<char>,
    inputs: Seq<RouterInputView<T, E>>,
) -> Seq<RouterOutputView<T, E>>
    decreases inputs.len(),
{
    if inputs.len() == 0 {
        Seq::empty()
    } else {
        let (p, a, out) = router_step(cfg, phase, answer, inputs[0]);
        out + router_trace(cfg, p, a, inputs.drop_first())
    }
}

/// An output that hands control to a sub-agent or relays its items.
pub open spec fn is_delegation<T, E>(o: RouterOutputView<T, E>) -> bool {
    o is Delegate || o is DelegateDefault || o is Forward
}

/// The announcement of some label by `name`.
pub open spec fn is_announcement<T, E>(name: Seq<char>, o: RouterOutputView<T, E>) -> bool {
    exists|label: Seq<char>| o == RouterOutputView::<T, E>::Emit(#[trigger] announcement(name, label))
}

/// Every delegation in `trace` comes after an announcement by `name`.
pub open spec fn announced_first<T, E>(name: Seq<char>, trace: Seq<RouterOutputView<T, E>>) -> bool {
    forall|k: int|
        0 <= k < trace.len() && is_delegation(#[trigger] trace[k]) ==> exists|j: int|
            0 <= j < k && is_announcement(name, #[trigger] trace[j])
}

/// A finished run stays finished and silent.
pub proof fn lemma_done_is_silent<T, E>(cfg: RouterSpec, answer: Seq<char>, inputs: Seq<RouterInputView<T, E>>)
    ensures
        router_trace(cfg, RouterPhase::Done, answer, inputs) == Seq::<RouterOutputView<T, E>>::empty(),
        router_state(cfg, RouterPhase::Done, answer, inputs) == (RouterPhase::Done, answer),
    decreases inputs.len(),
{
    if inputs.len() > 0 {
        lemma_done_is_silent(cfg, answer, inputs.drop_first());
    }
}

proof fn lemma_announced_first_from<T, E>(
    cfg: RouterSpec,
    phase: RouterPhase,
    answer: Seq<char>,
    inputs: Seq<RouterInputView<T, E>>,
)
    requires
        phase == RouterPhase::Idle || phase == RouterPhase::Classifying,
    ensures
        announced_first(cfg.name, router_trace(cfg, phase, answer, inputs)),
    decreases inputs.len(),
{
    if inputs.len() > 0 {
        let (p, a, out) = router_step(cfg, phase, answer, inputs[0]);
        let rest = router_trace(cfg, p, a, inputs.drop_first());
        let trace = router_trace(cfg, phase, answer, inputs);
        assert(trace == out + rest);
        if p == RouterPhase::Idle || p == RouterPhase::Classifying {
            lemma_announced_first_from(cfg, p, a, inputs.drop_first());
            assert forall|k: int|
                0 <= k < trace.len() && is_delegation(#[trigger] trace[k]) implies exists|j: int|
                    0 <= j < k && is_announcement(cfg.name, #[trigger] trace[j]) by {
                assert(k >= out.len());
                assert(trace[k] == rest[k - out.len()]);
                let j0 = choose|j: int| 0 <= j < k - out.len() && is_announcement(cfg.name, #[trigger] rest[j]);
                assert(trace[j0 + out.len()] == rest[j0]);
            }
        } else if p == RouterPhase::Done {
            lemma_done_is_silent(cfg, a, inputs.drop_first());
            assert(trace =~= out);
        } else {
            assert(is_announcement(cfg.name, trace[0]));
            assert forall|k: int|
                0 <= k < trace.len() && is_delegation(#[trigger] trace[k]) implies exists|j: int|
                    0 <= j < k && is_announcement(cfg.name, #[trigger] trace[j]) by {
                assert(k > 0);
            }
        }
    }
}

/// From the start of a run, nothing is delegated or relayed before the event
/// that announces the resolved label.
pub proof fn lemma_announcement_precedes_delegation<T, E>(cfg: RouterSpec, inputs: Seq<RouterInputView<T, E>>)
    ensures
        announced_first(cfg.name, router_trace(cfg, RouterPhase::Idle, Seq::empty(), inputs)),
{
    lemma_announced_first_from(cfg, RouterPhase::Idle, Seq::empty(), inputs);
}

/// When the classifier's answer ends, or fails, the run yields at least one event
/// or error at once, and the first is an announcement or an error.
pub proof fn lemma_classification_end_yields<T, E>(cfg: RouterSpec, answer: Seq<char>, input: RouterInputView<T, E>)
    requires
        input is Finished || input is Failed,
    ensures
        ({
            let (p, a, out) = router_step(cfg, RouterPhase::Classifying, answer, input);
            &&& out.len() > 0
            &&& (is_announcement(cfg.name, out[0]) || out[0] is Fail)
            &&& (p == RouterPhase::Relaying || p == RouterPhase::Done)
        }),
{
    let (p, a, out) = router_step(cfg, RouterPhase::Classifying, answer, input);
    if input is Finished {
        let label = label_of(answer);
        assert(out[0] == RouterOutputView::<T, E>::Emit(announcement(cfg.name, label)));
    }
}

/// Resolution is case-insensitive and deterministic: two classifier answers
/// whose trimmed texts have the same lower-case form are resolved, announced
/// and dispatched alike.
pub proof fn lemma_resolution_ignores_case<T, E>(cfg: RouterSpec, answer1: Seq<char>, answer2: Seq<char>)
    requires
        lower_of(trim_ws(answer1)) == lower_of(trim_ws(answer2)),
    ensures
        router_step(cfg, RouterPhase::Classifying, answer1, RouterInputView::<T, E>::Finished).0
            == router_step(cfg, RouterPhase::Classifying, answer2, RouterInputView::<T, E>::Finished).0,
        router_step(cfg, RouterPhase::Classifying, answer1, RouterInputView::<T, E>::Finished).2
            == router_step(cfg, RouterPhase::Classifying, answer2, RouterInputView::<T, E>::Finished).2,
{
}

/// The phase and the classifier's answer after a run that starts in `phase`
/// with `answer` and is fed `inputs`.
pub open spec fn router_state<T, E>(
    cfg: RouterSpec,
    phase: RouterPhase,
    answer: Seq<char>,
    inputs: Seq<RouterInputView<T, E>>,
) -> (RouterPhase, Seq<char>)
    decreases inputs.len(),
{
    if inputs.len() == 0 {
        (phase, answer)
    } else {
        let (p, a, out) = router_step(cfg, phase, answer, inputs[0]);
        router_state(cfg, p, a, inputs.drop_first())
    }
}

proof fn lemma_run_concat<T, E>(
    cfg: RouterSpec,
    phase: RouterPhase,
    answer: Seq<char>,
    s1: Seq<RouterInputView<T, E>>,
    s2: Seq<RouterInputView<T, E>>,
)
    ensures
        ({
            let (p, a) = router_state(cfg, phase, answer, s1);
            &&& router_trace(cfg, phase, answer, s1 + s2) == router_trace(cfg, phase, answer, s1)
                + router_trace(cfg, p, a, s2)
            &&& router_state(cfg, phase, answer, s1 + s2) == router_state(cfg, p, a, s2)
        }),
    decreases s1.len(),
{
    if s1.len() == 0 {
        assert(s1 + s2 =~= s2);
        assert(router_trace(cfg, phase, answer, s1) == Seq::<RouterOutputView<T, E>>::empty());
        assert(Seq::<RouterOutputView<T, E>>::empty() + router_trace(cfg, phase, answer, s2)
            =~= router_trace(cfg, phase, answer, s2));
    } else {
        let (p, a, out) = router_step(cfg, phase, answer, s1[0]);
        assert((s1 + s2)[0] == s1[0]);
        assert((s1 + s2).drop_first() =~= s1.drop_first() + s2);
        lemma_run_concat(cfg, p, a, s1.drop_first(), s2);
        let (q, b) = router_state(cfg, p, a, s1.drop_first());
        let t1 = router_trace(cfg, p, a, s1.drop_first());
        let t2 = router_trace(cfg, q, b, s2);
        assert(out + (t1 + t2) =~= (out + t1) + t2);
    }
}

/// The inputs that feed these fragments of the classifier's answer.
pub open spec fn fragment_inputs<T, E>(frags: Seq<Option<ContentView>>) -> Seq<RouterInputView<T, E>> {
    frags.map_values(|f: Option<ContentView>| RouterInputView::<T, E>::Fragment(f))
}

/// The inputs that feed these items of the chosen sub-agent's stream.
pub open spec fn relayed_inputs<T, E>(items: Seq<T>) -> Seq<RouterInputView<T, E>> {
    items.map_values(|t: T| RouterInputView::<T, E>::Delegated(t))
}

proof fn lemma_fragments_silent<T, E>(cfg: RouterSpec, answer: Seq<char>, frags: Seq<Option<ContentView>>)
    ensures
        router_trace(cfg, RouterPhase::Classifying, answer, fragment_inputs::<T, E>(frags))
            == Seq::<RouterOutputView<T, E>>::empty(),
        router_state(cfg, RouterPhase::Classifying, answer, fragment_inputs::<T, E>(frags)).0
            == RouterPhase::Classifying,
    decreases frags.len(),
{
    if frags.len() > 0 {
        let ins = fragment_inputs::<T, E>(frags);
        assert(ins[0] == RouterInputView::<T, E>::Fragment(frags[0]));
        assert(ins.drop_first() =~= fragment_inputs::<T, E>(frags.drop_first()));
        let (p, a, out) = router_step(cfg, RouterPhase::Classifying, answer, ins[0]);
        lemma_fragments_silent::<T, E>(cfg, a, frags.drop_first());
        assert(out + Seq::<RouterOutputView<T, E>>::empty() =~= Seq::<RouterOutputView<T, E>>::empty());
    }
}

proof fn lemma_relay_forwards<T, E>(cfg: RouterSpec, answer: Seq<char>, items: Seq<T>)
    ensures
        router_trace(cfg, RouterPhase::Relaying, answer, relayed_inputs::<T, E>(items))
            == items.map_values(|t: T| RouterOutputView::<T, E>::Forward(t)),
        router_state(cfg, RouterPhase::Relaying, answer, relayed_inputs::<T, E>(items))
            == (RouterPhase::Relaying, answer),
    decreases items.len(),
{
    let ins = relayed_inputs::<T, E>(items);
    if items.len() == 0 {
        assert(items.map_values(|t: T| RouterOutputView::<T, E>::Forward(t)) =~= Seq::<RouterOutputView<T, E>>::empty());
    } else {
        assert(ins[0] == RouterInputView::<T, E>::Delegated(items[0]));
        assert(ins.drop_first() =~= relayed_inputs::<T, E>(items.drop_first()));
        lemma_relay_forwards::<T, E>(cfg, answer, items.drop_first());
        assert(seq![RouterOutputView::<T, E>::Forward(items[0])]
            + items.drop_first().map_values(|t: T| RouterOutputView::<T, E>::Forward(t))
            =~= items.map_values(|t: T| RouterOutputView::<T, E>::Forward(t)));
    }
}

proof fn lemma_single_input<T, E>(cfg: RouterSpec, phase: RouterPhase, answer: Seq<char>, input: RouterInputView<T, E>)
    ensures
        ({
            let (p, a, out) = router_step(cfg, phase, answer, input);
            &&& router_trace(cfg, phase, answer, seq![input]) == out
            &&& router_state(cfg, phase, answer, seq![input]) == (p, a)
        }),
{
    let (p, a, out) = router_step(cfg, phase, answer, input);
    let s = seq![input];
    assert(s[0] == input);
    assert(s.drop_first() =~= Seq::<RouterInputView<T, E>>::empty());
    assert(router_trace(cfg, p, a, s.drop_first()) == Seq::<RouterOutputView<T, E>>::empty());
    assert(router_state(cfg, p, a, s.drop_first()) == (p, a));
    assert(out + Seq::<RouterOutputView<T, E>>::empty() =~= out);
}

/// A whole run: the user's message, the classifier's fragments, the end of the
/// classifier's answer (complete or failed), the chosen sub-agent's items and
/// the end of its stream (complete, or failed, a sub-agent that could not start
/// included).
pub open spec fn complete_run<T, E>(
    user: ContentView,
    frags: Seq<Option<ContentView>>,
    end: RouterInputView<T, E>,
    items: Seq<T>,
    last: RouterInputView<T, E>,
) -> Seq<RouterInputView<T, E>> {
    seq![RouterInputView::<T, E>::Begin(user)] + fragment_inputs(frags) + seq![end] + relayed_inputs(items)
        + seq![last]
}

/// Every run whose classifier and sub-agent streams end, or fail, terminates:
/// it reaches its end, and after the classification request it yields at least
/// one item: the announcement when the classifier answered, else its error.
pub proof fn lemma_run_terminates<T, E>(
    cfg: RouterSpec,
    user: ContentView,
    frags: Seq<Option<ContentView>>,
    end: RouterInputView<T, E>,
    items: Seq<T>,
    last: RouterInputView<T, E>,
)
    requires
        end is Finished || end is Failed,
        last is Finished || last is Failed,
    ensures
        router_state(cfg, RouterPhase::Idle, Seq::empty(), complete_run(user, frags, end, items, last)).0
            == RouterPhase::Done,
        ({
            let tr = router_trace(cfg, RouterPhase::Idle, Seq::empty(), complete_run(user, frags, end, items, last));
            &&& tr.len() >= 2
            &&& tr[0] is Classify
            &&& (end is Finished ==> is_announcement(cfg.name, tr[1]))
            &&& (end is Failed ==> tr[1] is Fail)
        }),
{
    let e = Seq::<char>::empty();
    let a1 = seq![RouterInputView::<T, E>::Begin(user)];
    let b1 = fragment_inputs::<T, E>(frags);
    let c1 = seq![end];
    let d1 = relayed_inputs::<T, E>(items);
    let f1 = seq![last];
    let x2 = a1 + b1;
    let x3 = x2 + c1;
    let x4 = x3 + d1;
    assert(complete_run(user, frags, end, items, last) == x4 + f1);

    lemma_single_input(cfg, RouterPhase::Idle, e, a1[0]);
    assert(a1 =~= seq![a1[0]]);
    let (p1, ans1) = router_state(cfg, RouterPhase::Idle, e, a1);
    let t1 = router_trace(cfg, RouterPhase::Idle, e, a1);
    assert(p1 == RouterPhase::Classifying);
    assert(t1.len() == 1 && t1[0] is Classify);

    lemma_run_concat(cfg, RouterPhase::Idle, e, a1, b1);
    lemma_fragments_silent::<T, E>(cfg, ans1, frags);
    let (p2, ans2) = router_state(cfg, RouterPhase::Idle, e, x2);
    let t2 = router_trace(cfg, RouterPhase::Idle, e, x2);
    assert(p2 == RouterPhase::Classifying);
    assert(t2 =~= t1);

    lemma_run_concat(cfg, RouterPhase::Idle, e, x2, c1);
    lemma_single_input(cfg, p2, ans2, end);
    lemma_classification_end_yields(cfg, ans2, end);
    let (p3, ans3) = router_state(cfg, RouterPhase::Idle, e, x3);
    let t3 = router_trace(cfg, RouterPhase::Idle, e, x3);
    let out3 = router_step(cfg, p2, ans2, end).2;
    assert(t3 == t2 + out3);
    assert(p3 == RouterPhase::Relaying || p3 == RouterPhase::Done);

    lemma_run_concat(cfg, RouterPhase::Idle, e, x3, d1);
    lemma_run_concat(cfg, RouterPhase::Idle, e, x4, f1);
    if p3 == RouterPhase::Relaying {
        lemma_relay_forwards::<T, E>(cfg, ans3, items);
        lemma_single_input(cfg, RouterPhase::Relaying, ans3, f1[0]);
        assert(f1 =~= seq![f1[0]]);
    } else {
        lemma_done_is_silent(cfg, ans3, d1);
        lemma_single_input(cfg, RouterPhase::Done, ans3, f1[0]);
        assert(f1 =~= seq![f1[0]]);
    }
    let tr = router_trace(cfg, RouterPhase::Idle, e, x4 + f1);
    assert(tr[0] == t3[0]);
    assert(tr[1] == t3[1]);
    assert(t3[1] == out3[0]);
    if end is Finished {
        let label = label_of(ans2);
        assert(out3[0] == RouterOutputView::<T, E>::Emit(announcement(cfg.name, label)));
    }
}

/// How many announcements by `name` a trace holds.
pub open spec fn announcements<T, E>(name: Seq<char>, trace: Seq<RouterOutputView<T, E>>) -> nat
    decreases trace.len(),
{
    if trace.len() == 0 {
        0
    } else {
        (if is_announcement(name, trace[0]) { 1nat } else { 0nat }) + announcements(name, trace.drop_first())
    }
}

proof fn lemma_announcements_concat<T, E>(name: Seq<char>, a: Seq<RouterOutputView<T, E>>, b: Seq<RouterOutputView<T, E>>)
    ensures
        announcements(name, a + b) == announcements(name, a) + announcements(name, b),
    decreases a.len(),
{
    if a.len() == 0 {
        assert(a + b =~= b);
    } else {
        assert((a + b)[0] == a[0]);
        assert((a + b).drop_first() =~= a.drop_first() + b);
        lemma_announcements_concat(name, a.drop_first(), b);
    }
}

proof fn lemma_announcements_short<T, E>(name: Seq<char>, out: Seq<RouterOutputView<T, E>>)
    requires
        out.len() <= 2,
    ensures
        announcements(name, out) == (if out.len() > 0 && is_announcement(name, out[0]) { 1nat } else { 0nat })
            + (if out.len() > 1 && is_announcement(name, out[1]) { 1nat } else { 0nat }),
{
    if out.len() > 0 {
        let rest = out.drop_first();
        let first: nat = if is_announcement(name, out[0]) { 1nat } else { 0nat };
        assert(announcements(name, out) == first + announcements(name, rest));
        if rest.len() > 0 {
            assert(rest[0] == out[1]);
            assert(rest.drop_first().len() == 0);
            assert(announcements(name, rest.drop_first()) == 0);
            let second: nat = if is_announcement(name, rest[0]) { 1nat } else { 0nat };
            assert(announcements(name, rest) == second + announcements(name, rest.drop_first()));
        } else {
            assert(announcements(name, rest) == 0);
        }
    }
}

/// The notice of an unmatched label is no announcement: their texts begin
/// differently.
proof fn lemma_unrouted_is_not_announcement<T, E>(name: Seq<char>, label: Seq<char>, labels: Seq<Seq<char>>)
    ensures
        !is_announcement::<T, E>(name, RouterOutputView::Emit(unrouted_notice(name, label, labels))),
{
    if is_announcement::<T, E>(name, RouterOutputView::Emit(unrouted_notice(name, label, labels))) {
        let l = choose|l: Seq<char>|
            RouterOutputView::<T, E>::Emit(unrouted_notice(name, label, labels))
                == RouterOutputView::<T, E>::Emit(#[trigger] announcement(name, l));
        let u = unrouted_text(label, labels);
        let a = announce_text(l);
        assert(text_content("model"@, u).parts[0] == text_content("model"@, a).parts[0]);
        assert(u == a);
        reveal_strlit("[Routing to: ");
        reveal_strlit("No route found for classification '");
        assert(a[0] == "[Routing to: "@[0]);
        assert(u[0] == "No route found for classification '"@[0]);
        assert(false);
    }
}

proof fn lemma_step_announcements<T, E>(cfg: RouterSpec, phase: RouterPhase, answer: Seq<char>, input: RouterInputView<T, E>)
    ensures
        ({
            let (p, a, out) = router_step(cfg, phase, answer, input);
            &&& out.len() <= 2
            &&& announcements(cfg.name, out) <= 1
            &&& (phase == RouterPhase::Relaying || phase == RouterPhase::Done) ==> announcements(cfg.name, out) == 0
                && (p == RouterPhase::Relaying || p == RouterPhase::Done)
            &&& (phase == RouterPhase::Idle || phase == RouterPhase::Classifying) && announcements(cfg.name, out) == 1
                ==> (p == RouterPhase::Relaying || p == RouterPhase::Done)
        }),
{
    let (p, a, out) = router_step(cfg, phase, answer, input);
    lemma_announcements_short(cfg.name, out);
    if phase == RouterPhase::Classifying && input is Finished {
        let label = label_of(answer);
        if dispatch_of(cfg.labels, cfg.has_default, label) is Unrouted {
            lemma_unrouted_is_not_announcement::<T, E>(cfg.name, label, cfg.labels);
        }
    }
}

proof fn lemma_silent_after_dispatch<T, E>(cfg: RouterSpec, phase: RouterPhase, answer: Seq<char>, inputs: Seq<RouterInputView<T, E>>)
    requires
        phase == RouterPhase::Relaying || phase == RouterPhase::Done,
    ensures
        announcements(cfg.name, router_trace(cfg, phase, answer, inputs)) == 0,
    decreases inputs.len(),
{
    if inputs.len() > 0 {
        let (p, a, out) = router_step(cfg, phase, answer, inputs[0]);
        lemma_step_announcements(cfg, phase, answer, inputs[0]);
        lemma_silent_after_dispatch(cfg, p, a, inputs.drop_first());
        lemma_announcements_concat(cfg.name, out, router_trace(cfg, p, a, inputs.drop_first()));
    }
}

/// A run announces at most once: after the announcement only relayed items,
/// the no-route notice or an error follow.
pub proof fn lemma_at_most_one_announcement<T, E>(
    cfg: RouterSpec,
    phase: RouterPhase,
    answer: Seq<char>,
    inputs: Seq<RouterInputView<T, E>>,
)
    ensures
        announcements(cfg.name, router_trace(cfg, phase, answer, inputs)) <= 1,
    decreases inputs.len(),
{
    if phase == RouterPhase::Relaying || phase == RouterPhase::Done {
        lemma_silent_after_dispatch(cfg, phase, answer, inputs);
    } else if inputs.len() > 0 {
        let (p, a, out) = router_step(cfg, phase, answer, inputs[0]);
        lemma_step_announcements(cfg, phase, answer, inputs[0]);
        lemma_announcements_concat(cfg.name, out, router_trace(cfg, p, a, inputs.drop_first()));
        if announcements(cfg.name, out) == 1 {
            lemma_silent_after_dispatch(cfg, p, a, inputs.drop_first());
        } else {
            lemma_at_most_one_announcement(cfg, p, a, inputs.drop_first());
        }
    }
}

proof fn lemma_announcement_counted<T, E>(name: Seq<char>, trace: Seq<RouterOutputView<T, E>>, k: int)
    requires
        0 <= k < trace.len(),
        is_announcement(name, trace[k]),
    ensures
        announcements(name, trace) >= 1,
    decreases trace.len(),
{
    if k > 0 {
        assert(trace.drop_first()[k - 1] == trace[k]);
        lemma_announcement_counted(name, trace.drop_first(), k - 1);
    }
}

/// A whole run whose classifier answered announces exactly once.
pub proof fn lemma_exactly_one_announcement<T, E>(
    cfg: RouterSpec,
    user: ContentView,
    frags: Seq<Option<ContentView>>,
    items: Seq<T>,
    last: RouterInputView<T, E>,
)
    requires
        last is Finished || last is Failed,
    ensures
        announcements(
            cfg.name,
            router_trace(
                cfg,
                RouterPhase::Idle,
                Seq::empty(),
                complete_run(user, frags, RouterInputView::<T, E>::Finished, items, last),
            ),
        ) == 1,
{
    let inputs = complete_run(user, frags, RouterInputView::<T, E>::Finished, items, last);
    lemma_run_terminates(cfg, user, frags, RouterInputView::<T, E>::Finished, items, last);
    lemma_at_most_one_announcement(cfg, RouterPhase::Idle, Seq::empty(), inputs);
    lemma_announcement_counted(cfg.name, router_trace(cfg, RouterPhase::Idle, Seq::empty(), inputs), 1);
}

/// A run of the classifier router.
pub struct RouterRun {
    phase: RouterPhase,
    answer: String,
}

impl RouterRun {
    pub closed spec fn spec_phase(&self) -> RouterPhase {
        self.phase
    }

    /// The classifier's answer gathered so far.
    pub closed spec fn spec_answer(&self) -> Seq<char> {
        self.answer@
    }

    pub fn new() -> (r: RouterRun)
        ensures
            r.spec_phase() == RouterPhase::Idle,
            r.spec_answer() == Seq::<char>::empty(),
    {
        RouterRun { phase: RouterPhase::Idle, answer: String::new() }
    }

    pub fn phase(&self) -> (r: RouterPhase)
        ensures
            r == self.spec_phase(),
    {
        self.phase
    }

    /// Takes in what happened and says what to do next.
    pub fn step<M, A, T, E>(&mut self, router: &LlmRouter<M, A>, input: RouterInput<T, E>) -> (r: Vec<RouterOutput<T, E>>)
        ensures
            (final(self).spec_phase(), final(self).spec_answer(), output_views(r@))
                == router_step(router.spec_config(), old(self).spec_phase(), old(self).spec_answer(), input@),
    {
        let ghost cfg = router.spec_config();
        let ghost input_view = input@;
        let mut out: Vec<RouterOutput<T, E>> = Vec::new();
        match (self.phase, input) {
            (RouterPhase::Idle, RouterInput::Begin(user)) => {
                let prompt = classification_prompt(router.instruction().as_str(), &user);
                out.push(RouterOutput::Classify(Content::user(prompt)));
                self.phase = RouterPhase::Classifying;
                self.answer = String::new();
            },
            (RouterPhase::Classifying, RouterInput::Fragment(fragment)) => {
                match fragment {
                    Some(c) => {
                        let t = c.get_text();
                        self.answer.append(t.as_str());
                    },
                    None => {},
                }
            },
            (RouterPhase::Classifying, RouterInput::Failed(e)) => {
                out.push(RouterOutput::Fail(e));
                self.phase = RouterPhase::Done;
            },
            (RouterPhase::Classifying, RouterInput::Finished) => {
                let label = normalize_label(self.answer.as_str());
                out.push(RouterOutput::Emit(announce(router.name().as_str(), label.as_str())));
                match router.dispatch(label.as_str()) {
                    Dispatch::Route(i) => {
                        out.push(RouterOutput::Delegate(i));
                        self.phase = RouterPhase::Relaying;
                    },
                    Dispatch::Default => {
                        out.push(RouterOutput::DelegateDefault);
                        self.phase = RouterPhase::Relaying;
                    },
                    Dispatch::Unrouted => {
                        out.push(RouterOutput::Emit(router.unrouted(label.as_str())));
                        self.phase = RouterPhase::Done;
                    },
                }
            },
            (RouterPhase::Relaying, RouterInput::Delegated(t)) => {
                out.push(RouterOutput::Forward(t));
            },
            (RouterPhase::Relaying, RouterInput::Failed(e)) => {
                out.push(RouterOutput::Fail(e));
                self.phase = RouterPhase::Done;
            },
            (RouterPhase::Relaying, RouterInput::Finished) => {
                self.phase = RouterPhase::Done;
            },
            _ => {},
        }
        assert(output_views(out@) =~= router_step(cfg, old(self).phase, old(self).answer@, input_view).2);
        out
    }
}

} // verus!
