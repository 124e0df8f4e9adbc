//! What is sent to the browser's protocol and what is read from its replies.
use crate::a11y::{GET_NODE_PATH_FUNCTION, TAG_NAME_FUNCTION};
use crate::json::{
    field_of, quote_json, quoted, signed_in, text_of, whole_number, with_member, Json, JsonObject,
    JsonValue, Members,
};
use crate::logging::{note_models, note_plain, plain_note, LogLevel, Note, NoteModel};
use crate::text::{opt_view, views};
use std::collections::HashSet;
use vstd::prelude::*;
use vstd::string::*;

verus! {

/// The parameters `{ "backendNodeId": id }`.
pub fn resolve_node_params(backend_id: i64) -> (out: JsonValue)
    ensures
        out@ == Json::Members(
            with_member(
                Members::empty(),
                "backendNodeId"@,
                Json::Number(whole_number(backend_id)),
            ),
        ),
{
    let mut params = JsonObject::new();
    params.insert("backendNodeId", JsonValue::signed(backend_id));
    JsonValue::object(params)
}

/// The parameters of a call of `declaration` on an object, which gives its value.
pub open spec fn call_on(object_id: Seq<char>, declaration: Seq<char>) -> Json {
    Json::Members(
        with_member(
            with_member(
                with_member(Members::empty(), "objectId"@, Json::Text(object_id)),
                "functionDeclaration"@,
                Json::Text(declaration),
            ),
            "returnByValue"@,
            Json::Bool(true),
        ),
    )
}

fn call_params(object_id: &str, declaration: &str) -> (out: JsonValue)
    ensures
        out@ == call_on(object_id@, declaration@),
{
    let mut params = JsonObject::new();
    params.insert("objectId", JsonValue::text(object_id));
    params.insert("functionDeclaration", JsonValue::text(declaration));
    params.insert("returnByValue", JsonValue::boolean(true));
    JsonValue::object(params)
}

/// The parameters that ask an object for the name of its tag.
pub fn tag_name_params(object_id: &str) -> (out: JsonValue)
    ensures
        out@ == call_on(object_id@, TAG_NAME_FUNCTION@),
{
    call_params(object_id, TAG_NAME_FUNCTION)
}

/// The parameters that ask an object for its path in the document.
pub fn node_path_params(object_id: &str) -> (out: JsonValue)
    ensures
        out@ == call_on(
            object_id@,
            "function() { "@ + GET_NODE_PATH_FUNCTION@ + " return getNodePath(this); }"@,
        ),
{
    let mut declaration = "function() { ".to_owned();
    declaration.append(GET_NODE_PATH_FUNCTION);
    declaration.append(" return getNodePath(this); }");
    call_params(object_id, declaration.as_str())
}

/// The parameters `{ "objectId": id }`.
pub fn describe_node_params(object_id: &str) -> (out: JsonValue)
    ensures
        out@ == Json::Members(
            with_member(Members::empty(), "objectId"@, Json::Text(object_id@)),
        ),
{
    let mut params = JsonObject::new();
    params.insert("objectId", JsonValue::text(object_id));
    JsonValue::object(params)
}

/// The parameters of an evaluation whose result stays in the page.
pub fn evaluate_params(expression: &str) -> (out: JsonValue)
    ensures
        out@ == Json::Members(
            with_member(
                with_member(
                    with_member(Members::empty(), "expression"@, Json::Text(expression@)),
                    "returnByValue"@,
                    Json::Bool(false),
                ),
                "awaitPromise"@,
                Json::Bool(false),
            ),
        ),
{
    let mut params = JsonObject::new();
    params.insert("expression", JsonValue::text(expression));
    params.insert("returnByValue", JsonValue::boolean(false));
    params.insert("awaitPromise", JsonValue::boolean(false));
    JsonValue::object(params)
}

/// The value under `inner` of the object under `outer`.
pub open spec fn nested(value: Json, outer: Seq<char>, inner: Seq<char>) -> Option<Json> {
    match field_of(value, outer) {
        Some(object) => field_of(object, inner),
        None => None,
    }
}

/// The text under `inner` of the object under `outer`.
pub open spec fn nested_text(value: Json, outer: Seq<char>, inner: Seq<char>) -> Option<
    Seq<char>,
> {
    match nested(value, outer, inner) {
        Some(found) => text_of(found),
        None => None,
    }
}

/// The whole number under `inner` of the object under `outer`.
pub open spec fn nested_number(value: Json, outer: Seq<char>, inner: Seq<char>) -> Option<i64> {
    match nested(value, outer, inner) {
        Some(found) => signed_in(found),
        None => None,
    }
}

/// Reads the text under `inner` of the object under `outer`.
pub fn read_nested_text(value: &JsonValue, outer: &str, inner: &str) -> (out: Option<String>)
    ensures
        opt_view(out) == nested_text(value@, outer@, inner@),
{
    match value.get(outer) {
        Some(object) => match object.get(inner) {
            Some(found) => match found.as_str() {
                Some(text) => Some(text.clone()),
                None => None,
            },
            None => None,
        },
        None => None,
    }
}

/// The object that a node was resolved to.
pub fn resolved_object_id(reply: &JsonValue) -> (out: Option<String>)
    ensures
        opt_view(out) == nested_text(reply@, "object"@, "objectId"@),
{
    read_nested_text(reply, "object", "objectId")
}

/// The object that an expression evaluated to.
pub fn evaluated_object_id(reply: &JsonValue) -> (out: Option<String>)
    ensures
        opt_view(out) == nested_text(reply@, "result"@, "objectId"@),
{
    read_nested_text(reply, "result", "objectId")
}

/// The element that a description names.
pub fn described_backend_id(reply: &JsonValue) -> (out: Option<i64>)
    ensures
        out == nested_number(reply@, "node"@, "backendNodeId"@),
{
    match reply.get("node") {
        Some(object) => match object.get("backendNodeId") {
            Some(found) => found.as_i64(),
            None => None,
        },
        None => None,
    }
}

/// What `str::to_lowercase` gives for a text.
pub uninterp spec fn unicode_lower(text: Seq<char>) -> Seq<char>;

/// `str::to_lowercase` puts a text in lower case, as Unicode defines it.
#[verifier::external_body]
fn to_unicode_lower(text: &str) -> (out: String)
    ensures
        out@ == unicode_lower(text@),
{
    text.to_lowercase()
}

/// The role that the reply to the question for a tag gives: the name of the tag
/// in lower case.
pub fn role_from_tag_reply(reply: &JsonValue) -> (out: Option<String>)
    ensures
        opt_view(out) == (match nested_text(reply@, "result"@, "value"@) {
            Some(tag) => Some(unicode_lower(tag)),
            None => None,
        }),
{
    match read_nested_text(reply, "result", "value") {
        Some(tag) => Some(to_unicode_lower(tag.as_str())),
        None => None,
    }
}

/// The path that the reply to the question for a path gives; empty where it
/// gives none.
pub fn path_from_reply(reply: Option<&JsonValue>) -> (out: String)
    ensures
        out@ == (match reply {
            Some(reply) => match nested_text(reply@, "result"@, "value"@) {
                Some(path) => path,
                None => Seq::empty(),
            },
            None => Seq::empty(),
        }),
{
    match reply {
        Some(reply) => match read_nested_text(reply, "result", "value") {
            Some(path) => path,
            None => String::new(),
        },
        None => String::new(),
    }
}

/// The expression that finds the first node on a path.
pub open spec fn find_expression(xpath: Seq<char>) -> Seq<char> {
    "(function() { try { const res = document.evaluate("@ + quoted(xpath)
        + ", document, null, XPathResult.FIRST_ORDERED_NODE_TYPE, null); return res.singleNodeValue; } catch (e) { console.error('Error evaluating XPath:', "@
        + quoted(xpath) + ", e); return null; } })()"@
}

/// The texts among the items of a list; items of another kind are left out.
pub open spec fn texts_among(items: Seq<Json>) -> Seq<Seq<char>>
    decreases items.len(),
{
    if items.len() == 0 {
        seq![]
    } else {
        match text_of(items.last()) {
            Some(text) => texts_among(items.drop_last()).push(text),
            None => texts_among(items.drop_last()),
        }
    }
}

/// How far a search for scrollable elements has come.
#[derive(Clone, Copy, Debug, PartialEq, Eq, Structural)]
pub enum ScrollPhase {
    Injecting,
    Listing,
    Opening,
    Evaluating,
    Describing,
    Detaching,
    Finished,
}

/// What a search for scrollable elements needs next.
#[derive(Clone, Debug, PartialEq)]
pub enum ScrollAction {
    /// Make sure the page has the helper script.
    EnsureInjection,
    /// Ask the page for the paths of its scrollable elements.
    ListXpaths,
    /// Open a protocol session.
    OpenSession,
    /// Evaluate the expression and give the reply back.
    Evaluate(String),
    /// Describe the object and give the reply back.
    Describe(String),
    /// Close the session.
    Detach,
    /// Nothing more.
    Done,
}

/// What an action stands for.
pub enum ScrollAsk {
    Inject,
    List,
    Open,
    Evaluate(Seq<char>),
    Describe(Seq<char>),
    Detach,
    Done,
}

impl View for ScrollAction {
    type V = ScrollAsk;

    open spec fn view(&self) -> ScrollAsk {
        match self {
            ScrollAction::EnsureInjection => ScrollAsk::Inject,
            ScrollAction::ListXpaths => ScrollAsk::List,
            ScrollAction::OpenSession => ScrollAsk::Open,
            ScrollAction::Evaluate(expression) => ScrollAsk::Evaluate(expression@),
            ScrollAction::Describe(object_id) => ScrollAsk::Describe(object_id@),
            ScrollAction::Detach => ScrollAsk::Detach,
            ScrollAction::Done => ScrollAsk::Done,
        }
    }
}

/// A search for the elements of a page that can be scrolled.
#[derive(Debug)]
pub struct ScrollScan {
    phase: ScrollPhase,
    xpaths: Vec<String>,
    next: usize,
    current: String,
    ids: HashSet<i64>,
}

/// What a search stands for: its phase, the path that is looked at, the paths still
/// to be looked at and the elements found.
pub struct ScrollState {
    pub phase: ScrollPhase,
    pub current: Seq<char>,
    pub left: Seq<Seq<char>>,
    pub ids: Set<i64>,
}

impl View for ScrollScan {
    type V = ScrollState;

    closed spec fn view(&self) -> ScrollState {
        ScrollState {
            phase: self.phase,
            current: self.current@,
            left: views(self.xpaths@).skip(self.next as int),
            ids: self.ids@,
        }
    }
}

/// The search goes on with the first path that is not empty.
pub open spec fn scroll_on(left: Seq<Seq<char>>, ids: Set<i64>) -> (ScrollState, ScrollAsk)
    decreases left.len(),
{
    if left.len() == 0 {
        (ScrollState { phase: ScrollPhase::Detaching, current: seq![], left, ids }, ScrollAsk::Detach)
    } else if left[0].len() == 0 {
        scroll_on(left.skip(1), ids)
    } else {
        (
            ScrollState {
                phase: ScrollPhase::Evaluating,
                current: left[0],
                left: left.skip(1),
                ids,
            },
            ScrollAsk::Evaluate(find_expression(left[0])),
        )
    }
}

/// The search is over.
pub open spec fn scroll_end(state: ScrollState) -> (ScrollState, ScrollAsk) {
    (ScrollState { phase: ScrollPhase::Finished, ..state }, ScrollAsk::Done)
}

/// What follows from the reply to the last action; there is none where it failed.
pub open spec fn scroll_step(state: ScrollState, reply: Option<Json>) -> (ScrollState, ScrollAsk) {
    match state.phase {
        ScrollPhase::Injecting => if reply is Some {
            (ScrollState { phase: ScrollPhase::Listing, ..state }, ScrollAsk::List)
        } else {
            scroll_end(state)
        },
        ScrollPhase::Listing => match reply {
            Some(Json::List(items)) if texts_among(items).len() > 0 => (
                ScrollState { phase: ScrollPhase::Opening, left: texts_among(items), ..state },
                ScrollAsk::Open,
            ),
            Some(Json::List(items)) => scroll_end(
                ScrollState { left: texts_among(items), ..state },
            ),
            _ => scroll_end(state),
        },
        ScrollPhase::Opening => if reply is Some {
            scroll_on(state.left, state.ids)
        } else {
            scroll_end(state)
        },
        ScrollPhase::Evaluating => match reply {
            Some(value) => match nested_text(value, "result"@, "objectId"@) {
                Some(object_id) => (
                    ScrollState { phase: ScrollPhase::Describing, ..state },
                    ScrollAsk::Describe(object_id),
                ),
                None => scroll_on(state.left, state.ids),
            },
            None => scroll_on(state.left, state.ids),
        },
        ScrollPhase::Describing => match reply {
            Some(value) => match nested_number(value, "node"@, "backendNodeId"@) {
                Some(id) => scroll_on(state.left, state.ids.insert(id)),
                None => scroll_on(state.left, state.ids),
            },
            None => scroll_on(state.left, state.ids),
        },
        ScrollPhase::Detaching => scroll_end(state),
        ScrollPhase::Finished => scroll_end(state),
    }
}

/// What an action came to: a value, or why it failed.
pub open spec fn outcome_of(reply: Result<&JsonValue, &str>) -> Result<Json, Seq<char>> {
    match reply {
        Ok(value) => Ok(value@),
        Err(why) => Err(why@),
    }
}

/// The reply in an outcome.
pub open spec fn reply_in(outcome: Result<Json, Seq<char>>) -> Option<Json> {
    match outcome {
        Ok(value) => Some(value),
        Err(_) => None,
    }
}

/// What is logged of a failure in the search.
pub open spec fn scroll_failure(state: ScrollState, why: Seq<char>) -> Option<Seq<char>> {
    match state.phase {
        ScrollPhase::Injecting => Some(
            "Error ensuring DOM injection before querying scrollable elements: "@ + why,
        ),
        ScrollPhase::Listing => Some(
            "Error calling window.getScrollableElementXpaths: "@ + why,
        ),
        ScrollPhase::Opening => Some("Error creating CDP session: "@ + why),
        ScrollPhase::Evaluating => Some(
            "Error evaluating xpath "@ + state.current + ": "@ + why,
        ),
        ScrollPhase::Describing => Some(
            "Error describing node for xpath "@ + state.current + ": "@ + why,
        ),
        ScrollPhase::Detaching => Some("Error detaching CDP session: "@ + why),
        ScrollPhase::Finished => None,
    }
}

/// What is logged of the outcome of the last action: a failure, or that the page
/// gave no list of paths.
pub open spec fn scroll_notes(state: ScrollState, outcome: Result<Json, Seq<char>>) -> Seq<
    NoteModel,
> {
    match outcome {
        Ok(value) => if state.phase == ScrollPhase::Listing && !(value is List) {
            seq![
                NoteModel {
                    level: LogLevel::Debug,
                    message: "window.getScrollableElementXpaths() did not return a list."@,
                    category: "a11y"@,
                    auxiliary: Some(
                        Json::Members(with_member(Members::empty(), "result"@, value)),
                    ),
                },
            ]
        } else {
            seq![]
        },
        Err(why) => match scroll_failure(state, why) {
            Some(message) => seq![plain_note(LogLevel::Debug, "a11y"@, message)],
            None => seq![],
        },
    }
}

/// The model of a reply that may be absent.
pub open spec fn opt_reply(reply: Option<&JsonValue>) -> Option<Json> {
    match reply {
        Some(reply) => Some(reply@),
        None => None,
    }
}

fn list_texts(items: &Vec<JsonValue>) -> (out: Vec<String>)
    ensures
        views(out@) == texts_among(crate::json::models(items@)),
{
    let mut out: Vec<String> = Vec::new();
    let mut i: usize = 0;
    assert(views(out@) =~= texts_among(crate::json::models(items@.take(0))));
    while i < items.len()
        invariant
            i <= items.len(),
            views(out@) == texts_among(crate::json::models(items@.take(i as int))),
        decreases items.len() - i,
    {
        let ghost before = views(out@);
        proof {
            assert(crate::json::models(items@.take(i + 1)).drop_last() =~= crate::json::models(
                items@.take(i as int),
            ));
        }
        if let Some(text) = items[i].as_str() {
            out.push(text.clone());
            assert(views(out@) =~= before.push(text@));
        }
        i += 1;
    }
    assert(items@.take(i as int) =~= items@);
    out
}

impl ScrollScan {
    #[verifier::type_invariant]
    spec fn in_range(self) -> bool {
        self.next <= self.xpaths@.len()
    }

    /// A search that has not begun, with the first thing it needs.
    pub fn begin() -> (out: (ScrollScan, ScrollAction))
        ensures
            out.0@.phase == ScrollPhase::Injecting,
            out.0@.current == Seq::<char>::empty(),
            out.0@.left == Seq::<Seq<char>>::empty(),
            out.0@.ids == Set::<i64>::empty(),
            out.1@ == ScrollAsk::Inject,
    {
        broadcast use vstd::std_specs::hash::group_hash_axioms;

        let scan = ScrollScan {
            phase: ScrollPhase::Injecting,
            xpaths: Vec::new(),
            next: 0,
            current: String::new(),
            ids: HashSet::new(),
        };
        assert(scan@.left =~= Seq::<Seq<char>>::empty());
        assert(scan@.current =~= Seq::<char>::empty());
        (scan, ScrollAction::EnsureInjection)
    }

    /// The elements found so far.
    pub fn ids(&self) -> (out: &HashSet<i64>)
        ensures
            out@ == self@.ids,
    {
        &self.ids
    }

    fn go_on(&mut self) -> (out: ScrollAction)
        ensures
            (final(self)@, out@) == scroll_on(old(self)@.left, old(self)@.ids),
    {
        proof {
            use_type_invariant(&*self);
        }
        let ghost start = scroll_on(self@.left, self@.ids);
        let ghost all = views(self.xpaths@);
        while self.next < self.xpaths.len()
            invariant
                self.next <= self.xpaths@.len(),
                all == views(self.xpaths@),
                self@.left == all.skip(self.next as int),
                start == scroll_on(old(self)@.left, old(self)@.ids),
                start == scroll_on(self@.left, self@.ids),
            decreases self.xpaths@.len() - self.next,
        {
            assert(self@.left.skip(1) =~= all.skip(self.next + 1));
            assert(self@.left[0] == self.xpaths@[self.next as int]@);
            let at: usize = self.next;
            self.next = at + 1;
            if !self.xpaths[at].as_str().is_empty() {
                if let Ok(path) = quote_json(self.xpaths[at].as_str()) {
                    let mut expression = "(function() { try { const res = document.evaluate(".to_owned();
                    expression.append(path.as_str());
                    expression.append(
                        ", document, null, XPathResult.FIRST_ORDERED_NODE_TYPE, null); return res.singleNodeValue; } catch (e) { console.error('Error evaluating XPath:', ",
                    );
                    expression.append(path.as_str());
                    expression.append(", e); return null; } })()");
                    self.phase = ScrollPhase::Evaluating;
                    self.current = self.xpaths[at].clone();
                    assert(expression@ =~= find_expression(self.xpaths@[at as int]@));
                    return ScrollAction::Evaluate(expression);
                }
            }
        }
        assert(self@.left =~= Seq::<Seq<char>>::empty());
        self.phase = ScrollPhase::Detaching;
        self.current = String::new();
        assert(self@.current =~= Seq::<char>::empty());
        ScrollAction::Detach
    }

    fn failure_message(&self, why: &str) -> (out: Option<String>)
        ensures
            opt_view(out) == scroll_failure(self@, why@),
    {
        let mut message: String = match self.phase {
            ScrollPhase::Injecting =>
                "Error ensuring DOM injection before querying scrollable elements: ".to_owned(),
            ScrollPhase::Listing => "Error calling window.getScrollableElementXpaths: ".to_owned(),
            ScrollPhase::Opening => "Error creating CDP session: ".to_owned(),
            ScrollPhase::Evaluating => {
                let mut message = "Error evaluating xpath ".to_owned();
                message.append(self.current.as_str());
                message.append(": ");
                message
            },
            ScrollPhase::Describing => {
                let mut message = "Error describing node for xpath ".to_owned();
                message.append(self.current.as_str());
                message.append(": ");
                message
            },
            ScrollPhase::Detaching => "Error detaching CDP session: ".to_owned(),
            ScrollPhase::Finished => return None,
        };
        message.append(why);
        Some(message)
    }

    fn note(&self, reply: Result<&JsonValue, &str>, notes: &mut Vec<Note>)
        ensures
            note_models(final(notes)@) == note_models(old(notes)@) + scroll_notes(
                self@,
                outcome_of(reply),
            ),
    {
        let ghost before = note_models(notes@);
        assert(before + Seq::<NoteModel>::empty() =~= before);
        match reply {
            Ok(value) => {
                if self.phase == ScrollPhase::Listing && value.as_array().is_none() {
                    let mut object = JsonObject::new();
                    object.insert("result", value.copy());
                    let note = Note {
                        level: LogLevel::Debug,
                        message: "window.getScrollableElementXpaths() did not return a list.".to_owned(),
                        category: "a11y".to_owned(),
                        auxiliary: Some(JsonValue::object(object)),
                    };
                    let ghost added = note@;
                    notes.push(note);
                    assert(note_models(notes@) =~= before + seq![added]);
                }
            },
            Err(why) => {
                if let Some(message) = self.failure_message(why) {
                    note_plain(notes, LogLevel::Debug, "a11y", message);
                }
            },
        }
    }

    /// Takes what the last action came to and says what is needed next. A failure is
    /// noted, and that the page gave no list of paths.
    pub fn step(&mut self, outcome: Result<&JsonValue, &str>, notes: &mut Vec<Note>) -> (out:
        ScrollAction)
        ensures
            (final(self)@, out@) == scroll_step(old(self)@, reply_in(outcome_of(outcome))),
            note_models(final(notes)@) == note_models(old(notes)@) + scroll_notes(
                old(self)@,
                outcome_of(outcome),
            ),
    {
        broadcast use vstd::std_specs::hash::group_hash_axioms;

        proof {
            use_type_invariant(&*self);
        }
        self.note(outcome, notes);
        let reply: Option<&JsonValue> = match outcome {
            Ok(value) => Some(value),
            Err(_) => None,
        };
        match self.phase {
            ScrollPhase::Injecting => {
                if reply.is_some() {
                    self.phase = ScrollPhase::Listing;
                    return ScrollAction::ListXpaths;
                }
            },
            ScrollPhase::Listing => {
                if let Some(value) = reply {
                    if let Some(items) = value.as_array() {
                        let found = list_texts(items);
                        self.next = 0;
                        self.xpaths = found;
                        assert(self@.left =~= views(self.xpaths@));
                        if self.xpaths.len() > 0 {
                            self.phase = ScrollPhase::Opening;
                            return ScrollAction::OpenSession;
                        }
                    }
                }
            },
            ScrollPhase::Opening => {
                if reply.is_some() {
                    return self.go_on();
                }
            },
            ScrollPhase::Evaluating => {
                if let Some(value) = reply {
                    if let Some(object_id) = evaluated_object_id(value) {
                        self.phase = ScrollPhase::Describing;
                        return ScrollAction::Describe(object_id);
                    }
                }
                return self.go_on();
            },
            ScrollPhase::Describing => {
                if let Some(value) = reply {
                    if let Some(id) = described_backend_id(value) {
                        let mut ids: HashSet<i64> = HashSet::new();
                        std::mem::swap(&mut ids, &mut self.ids);
                        ids.insert(id);
                        self.ids = ids;
                    }
                }
                return self.go_on();
            },
            _ => {},
        }
        self.phase = ScrollPhase::Finished;
        ScrollAction::Done
    }
}

/// An element once found stays found, and only a description adds one.
pub proof fn law_scroll_ids_grow(state: ScrollState, reply: Option<Json>)
    ensures
        state.ids.subset_of(scroll_step(state, reply).0.ids),
        state.phase != ScrollPhase::Describing ==> scroll_step(state, reply).0.ids == state.ids,
{
    lemma_scroll_on_ids(state.left, state.ids);
    if let Some(value) = reply {
        if let Some(id) = nested_number(value, "node"@, "backendNodeId"@) {
            lemma_scroll_on_ids(state.left, state.ids.insert(id));
        }
    }
}

proof fn lemma_scroll_on_ids(left: Seq<Seq<char>>, ids: Set<i64>)
    ensures
        scroll_on(left, ids).0.ids == ids,
        scroll_on(left, ids).0.left.len() <= left.len(),
        scroll_on(left, ids).1 is Evaluate ==> scroll_on(left, ids).0.left.len() < left.len(),
    decreases left.len(),
{
    if left.len() > 0 && left[0].len() == 0 {
        lemma_scroll_on_ids(left.skip(1), ids);
    }
}

/// Each path is evaluated at most once: every evaluation leaves fewer paths.
pub proof fn law_scroll_ends(state: ScrollState, reply: Option<Json>)
    requires
        state.phase != ScrollPhase::Listing,
    ensures
        scroll_step(state, reply).0.left.len() <= state.left.len(),
        scroll_step(state, reply).1 is Evaluate ==> scroll_step(state, reply).0.left.len()
            < state.left.len(),
{
    lemma_scroll_on_ids(state.left, state.ids);
    if let Some(value) = reply {
        if let Some(id) = nested_number(value, "node"@, "backendNodeId"@) {
            lemma_scroll_on_ids(state.left, state.ids.insert(id));
        }
    }
}

} // verus!
