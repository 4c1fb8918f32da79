//! Messages exchanged with the core: parts, contents, events and model responses.

use vstd::prelude::*;
use vstd::string::*;

verus! {

#[verifier::external_type_specification]
#[verifier::external_body]
pub struct ExJsonValue(serde_json::Value);

/// Relies on the derived `Clone` of `serde_json::Value`: a copy of the same value.
pub assume_specification[ <serde_json::Value as Clone>::clone ](v: &serde_json::Value) -> (r: serde_json::Value)
    ensures
        r == *v,
;

/// The text that stands in for a part kind this library does not model.
pub const UNSUPPORTED_PART_TEXT: &'static str = "[unsupported part type]";

/// One piece of a message.
#[derive(Clone, Debug)]
pub enum Part {
    Text { text: String },
    FunctionCall { name: String, args: serde_json::Value, id: Option<String> },
    FunctionResponse { name: String, response: serde_json::Value, id: Option<String> },
}

/// The mathematical value of a [`Part`].
pub ghost enum PartView {
    Text { text: Seq<char> },
    FunctionCall { name: Seq<char>, args: serde_json::Value, id: Option<Seq<char>> },
    FunctionResponse { name: Seq<char>, response: serde_json::Value, id: Option<Seq<char>> },
}

pub open spec fn opt_str_view(o: Option<String>) -> Option<Seq<char>> {
    match o {
        Some(s) => Some(s@),
        None => None,
    }
}

impl View for Part {
    type V = PartView;

    open spec fn view(&self) -> PartView {
        match self {
            Part::Text { text } => PartView::Text { text: text@ },
            Part::FunctionCall { name, args, id } => PartView::FunctionCall {
                name: name@,
                args: *args,
                id: opt_str_view(*id),
            },
            Part::FunctionResponse { name, response, id } => PartView::FunctionResponse {
                name: name@,
                response: *response,
                id: opt_str_view(*id),
            },
        }
    }
}

/// The texts of the text parts, in order; other parts are skipped.
pub open spec fn texts_of(parts: Seq<PartView>) -> Seq<Seq<char>>
    decreases parts.len(),
{
    if parts.len() == 0 {
        Seq::empty()
    } else {
        let rest = texts_of(parts.drop_last());
        match parts.last() {
            PartView::Text { text } => rest.push(text),
            _ => rest,
        }
    }
}

/// The items laid end to end with `sep` between each two neighbours.
pub open spec fn join(items: Seq<Seq<char>>, sep: Seq<char>) -> Seq<char>
    decreases items.len(),
{
    if items.len() == 0 {
        Seq::empty()
    } else if items.len() == 1 {
        items[0]
    } else {
        join(items.drop_last(), sep) + sep + items.last()
    }
}

/// The views of a sequence of parts.
pub open spec fn part_views(parts: Seq<Part>) -> Seq<PartView> {
    parts.map_values(|p: Part| p@)
}

impl Part {
    /// A text part.
    pub fn text(content: String) -> (r: Part)
        ensures
            r@ == (PartView::Text { text: content@ }),
    {
        Part::Text { text: content }
    }

    /// The text part that stands for a part kind the library does not model.
    pub fn unsupported() -> (r: Part)
        ensures
            r@ == (PartView::Text { text: UNSUPPORTED_PART_TEXT@ }),
    {
        Part::Text { text: String::from_str(UNSUPPORTED_PART_TEXT) }
    }

    pub fn is_text(&self) -> (r: bool)
        ensures
            r == (self@ is Text),
    {
        match self {
            Part::Text { .. } => true,
            _ => false,
        }
    }

    pub fn is_function_call(&self) -> (r: bool)
        ensures
            r == (self@ is FunctionCall),
    {
        match self {
            Part::FunctionCall { .. } => true,
            _ => false,
        }
    }

    /// The text of a text part.
    pub fn get_text(&self) -> (r: Option<String>)
        ensures
            opt_str_view(r) == (match self@ {
                PartView::Text { text } => Some(text),
                _ => None,
            }),
    {
        match self {
            Part::Text { text } => Some(text.clone()),
            _ => None,
        }
    }

    /// The function name of a function call part.
    pub fn get_function_name(&self) -> (r: Option<String>)
        ensures
            opt_str_view(r) == (match self@ {
                PartView::FunctionCall { name, .. } => Some(name),
                _ => None,
            }),
    {
        match self {
            Part::FunctionCall { name, .. } => Some(name.clone()),
            _ => None,
        }
    }
}

proof fn lemma_texts_of_step(parts: Seq<Part>, i: int)
    requires
        0 <= i < parts.len(),
    ensures
        texts_of(part_views(parts.take(i + 1))) == (match parts[i]@ {
            PartView::Text { text } => texts_of(part_views(parts.take(i))).push(text),
            _ => texts_of(part_views(parts.take(i))),
        }),
{
    assert(part_views(parts.take(i + 1)).drop_last() =~= part_views(parts.take(i)));
}

proof fn lemma_join_push(items: Seq<Seq<char>>, t: Seq<char>, sep: Seq<char>)
    ensures
        join(items.push(t), sep) == (if items.len() == 0 {
            t
        } else {
            join(items, sep) + sep + t
        }),
{
    assert(items.push(t).drop_last() =~= items);
}

/// The texts of the text parts joined with `sep`, other parts skipped.
pub fn join_text_parts(parts: &Vec<Part>, sep: &str) -> (r: String)
    ensures
        r@ == join(texts_of(part_views(parts@)), sep@),
{
    let mut out = String::new();
    let mut any = false;
    let mut i: usize = 0;
    while i < parts.len()
        invariant
            i <= parts.len(),
            any == (texts_of(part_views(parts@.take(i as int))).len() > 0),
            out@ == join(texts_of(part_views(parts@.take(i as int))), sep@),
        decreases parts.len() - i,
    {
        proof {
            lemma_texts_of_step(parts@, i as int);
        }
        match &parts[i] {
            Part::Text { text } => {
                proof {
                    lemma_join_push(texts_of(part_views(parts@.take(i as int))), text@, sep@);
                }
                if any {
                    out.append(sep);
                }
                out.append(text.as_str());
                any = true;
            },
            _ => {},
        }
        i = i + 1;
    }
    assert(parts@.take(parts.len() as int) =~= parts@);
    out
}

/// A message: a role and its parts, in order.
#[derive(Clone, Debug)]
pub struct Content {
    pub role: String,
    pub parts: Vec<Part>,
}

pub ghost struct ContentView {
    pub role: Seq<char>,
    pub parts: Seq<PartView>,
}

impl View for Content {
    type V = ContentView;

    open spec fn view(&self) -> ContentView {
        ContentView { role: self.role@, parts: part_views(self.parts@) }
    }
}

/// A content of one text part.
pub open spec fn text_content(role: Seq<char>, text: Seq<char>) -> ContentView {
    ContentView { role, parts: seq![PartView::Text { text }] }
}

/// The texts of all text parts laid end to end.
pub open spec fn text_of(c: ContentView) -> Seq<char> {
    join(texts_of(c.parts), Seq::empty())
}

pub open spec fn opt_content_view(o: Option<Content>) -> Option<ContentView> {
    match o {
        Some(c) => Some(c@),
        None => None,
    }
}

impl Content {
    pub fn new(role: String, parts: Option<Vec<Part>>) -> (r: Content)
        ensures
            r.role@ == role@,
            r.parts@ == (match parts {
                Some(v) => v@,
                None => Seq::empty(),
            }),
    {
        let parts = match parts {
            Some(v) => v,
            None => Vec::new(),
        };
        Content { role, parts }
    }

    /// A content of `role` holding the one text part `text`.
    pub fn with_text(role: &str, text: String) -> (r: Content)
        ensures
            r@ == text_content(role@, text@),
    {
        let mut parts = Vec::new();
        parts.push(Part::Text { text });
        let r = Content { role: String::from_str(role), parts };
        assert(r@.parts =~= seq![PartView::Text { text: text@ }]);
        r
    }

    /// A user message of one text part.
    pub fn user(text: String) -> (r: Content)
        ensures
            r@ == text_content("user"@, text@),
    {
        Content::with_text("user", text)
    }

    /// A model message of one text part.
    pub fn model(text: String) -> (r: Content)
        ensures
            r@ == text_content("model"@, text@),
    {
        Content::with_text("model", text)
    }

    pub fn add_part(&mut self, part: Part)
        ensures
            final(self)@.role == old(self)@.role,
            final(self)@.parts == old(self)@.parts.push(part@),
    {
        self.parts.push(part);
        assert(part_views(self.parts@) =~= part_views(old(self).parts@).push(part@));
    }

    /// Whether a part is a function call or a function response.
    pub fn has_tool_parts(&self) -> (r: bool)
        ensures
            r == has_tool_parts(self@),
    {
        let mut i: usize = 0;
        while i < self.parts.len()
            invariant
                i <= self.parts.len(),
                forall|j: int| 0 <= j < i ==> !is_tool_part(#[trigger] self@.parts[j]),
            decreases self.parts.len() - i,
        {
            match &self.parts[i] {
                Part::Text { .. } => {},
                _ => {
                    assert(is_tool_part(self@.parts[i as int]));
                    return true;
                },
            }
            i = i + 1;
        }
        false
    }

    /// The texts of all text parts laid end to end.
    pub fn get_text(&self) -> (r: String)
        ensures
            r@ == text_of(self@),
    {
        proof {
            reveal_strlit("");
        }
        assert(""@ =~= Seq::<char>::empty());
        join_text_parts(&self.parts, "")
    }
}

/// What a model answers: optional content and the two stream flags.
#[derive(Clone, Debug)]
pub struct LlmResponse {
    pub content: Option<Content>,
    pub partial: bool,
    pub turn_complete: bool,
}

impl LlmResponse {
    /// A complete, non-streamed answer holding `content`.
    pub fn complete(content: Content) -> (r: LlmResponse)
        ensures
            opt_content_view(r.content) == Some(content@),
            !r.partial,
            r.turn_complete,
    {
        LlmResponse { content: Some(content), partial: false, turn_complete: true }
    }

    /// The text of the content, if there is content.
    pub fn get_text(&self) -> (r: Option<String>)
        ensures
            opt_str_view(r) == (match self.content {
                Some(c) => Some(text_of(c@)),
                None => None,
            }),
    {
        match &self.content {
            Some(c) => Some(c.get_text()),
            None => None,
        }
    }
}

/// What an event says: who wrote it, its content and its stream flags. The core
/// stamps identifiers and times when it records the event.
#[derive(Clone, Debug)]
pub struct Event {
    pub author: String,
    pub content: Option<Content>,
    pub partial: bool,
    pub turn_complete: bool,
}

pub ghost struct EventView {
    pub author: Seq<char>,
    pub content: Option<ContentView>,
    pub partial: bool,
    pub turn_complete: bool,
}

/// A function call or a function response.
pub open spec fn is_tool_part(p: PartView) -> bool {
    p is FunctionCall || p is FunctionResponse
}

/// Whether a content holds a function call or a function response.
pub open spec fn has_tool_parts(c: ContentView) -> bool {
    exists|i: int| 0 <= i < c.parts.len() && is_tool_part(#[trigger] c.parts[i])
}

/// A turn's final response: complete, not a fragment, and no part of it a
/// function call or a function response.
pub open spec fn is_final(e: EventView) -> bool {
    &&& !e.partial
    &&& e.turn_complete
    &&& match e.content {
        Some(c) => !has_tool_parts(c),
        None => true,
    }
}

impl View for Event {
    type V = EventView;

    open spec fn view(&self) -> EventView {
        EventView {
            author: self.author@,
            content: opt_content_view(self.content),
            partial: self.partial,
            turn_complete: self.turn_complete,
        }
    }
}

impl Event {
    /// An event that is a turn's final response: complete, not a fragment, and
    /// not a tool call or a tool result.
    pub open spec fn spec_is_final_response(&self) -> bool {
        is_final(self@)
    }

    #[verifier::when_used_as_spec(spec_is_final_response)]
    pub fn is_final_response(&self) -> (r: bool)
        ensures
            r == self.spec_is_final_response(),
    {
        !self.partial && self.turn_complete && match &self.content {
            Some(c) => !c.has_tool_parts(),
            None => true,
        }
    }

    /// The text of the content, if there is content.
    pub fn get_text(&self) -> (r: Option<String>)
        ensures
            opt_str_view(r) == (match self.content {
                Some(c) => Some(text_of(c@)),
                None => None,
            }),
    {
        match &self.content {
            Some(c) => Some(c.get_text()),
            None => None,
        }
    }
}

} // verus!
