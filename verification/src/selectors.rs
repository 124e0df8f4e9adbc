//! Finding the selectors of the elements that the language model named.
use crate::cdp::{nested_text, resolved_object_id};
use crate::json::{Json, JsonValue};
use crate::observe::{attach_selector, element_models, selector_target};
use crate::types::page::{ElementModel, FoundModel, ObserveElementSchema, ObserveResult};
use vstd::prelude::*;
use vstd::string::*;

verus! {

/// What is needed next to find the selectors.
#[derive(Debug, PartialEq, Eq)]
pub enum SelectorAsk {
    /// The object of this node has to be resolved.
    Resolve(i64),
    /// The path of this object has to be asked for.
    Path(String),
    /// Nothing: every element was looked at.
    Done,
}

/// What is needed next, as characters.
pub enum Ask {
    Resolve(i64),
    Path(Seq<char>),
    Done,
}

impl View for SelectorAsk {
    type V = Ask;

    open spec fn view(&self) -> Ask {
        match self {
            SelectorAsk::Resolve(id) => Ask::Resolve(*id),
            SelectorAsk::Path(object_id) => Ask::Path(object_id@),
            SelectorAsk::Done => Ask::Done,
        }
    }
}

/// Where the search stands: the elements that are left, the first of which is being
/// looked at, and what was found.
#[verifier::ext_equal]
pub struct Search {
    pub left: Seq<ElementModel>,
    pub found: Seq<FoundModel>,
}

/// A search for selectors.
#[derive(Debug)]
pub struct SelectorScan {
    elements: Vec<ObserveElementSchema>,
    next: usize,
    results: Vec<ObserveResult>,
}

/// The models of found elements.
pub open spec fn found_models(results: Seq<ObserveResult>) -> Seq<FoundModel> {
    results.map_values(|result: ObserveResult| result@)
}

/// The element with a selector.
pub open spec fn with_selector(element: ElementModel, path: Seq<char>) -> FoundModel {
    FoundModel {
        selector: "xpath="@ + path,
        description: element.description,
        backend_node_id: Some(element.element_id),
        method: Some(element.method),
        arguments: if element.arguments.len() == 0 {
            None
        } else {
            Some(element.arguments)
        },
    }
}

/// The elements from the first on whose id is positive.
pub open spec fn from_valid(left: Seq<ElementModel>) -> Seq<ElementModel>
    decreases left.len(),
{
    if left.len() == 0 || left[0].element_id > 0 {
        left
    } else {
        from_valid(left.skip(1))
    }
}

/// What is needed for the elements that are left.
pub open spec fn ask_for(left: Seq<ElementModel>) -> Ask {
    if left.len() == 0 {
        Ask::Done
    } else {
        Ask::Resolve(left[0].element_id)
    }
}

/// The search after the first element was dealt with, with what is needed next.
pub open spec fn gone_on(search: Search) -> (Search, Ask) {
    let left = from_valid(search.left);
    (Search { left, ..search }, ask_for(left))
}

/// The search after the object of the first element was asked for. One without an
/// object is passed over.
pub open spec fn after_resolve(search: Search, reply: Json) -> (Search, Ask) {
    match nested_text(reply, "object"@, "objectId"@) {
        Some(object_id) => (search, Ask::Path(object_id)),
        None => gone_on(Search { left: search.left.skip(1), ..search }),
    }
}

/// The search after the path of the first element was asked for. One without a path
/// is passed over.
pub open spec fn after_path(search: Search, path: Seq<char>) -> (Search, Ask) {
    gone_on(
        Search {
            left: search.left.skip(1),
            found: if path.len() == 0 {
                search.found
            } else {
                search.found.push(with_selector(search.left[0], path))
            },
        },
    )
}

impl SelectorScan {
    #[verifier::type_invariant]
    spec fn in_range(self) -> bool {
        self.next <= self.elements@.len()
    }

    /// Where the search stands.
    pub closed spec fn search(&self) -> Search {
        Search {
            left: element_models(self.elements@).skip(self.next as int),
            found: found_models(self.results@),
        }
    }

    /// A search for the selectors of the elements, with what is needed first.
    pub fn begin(elements: Vec<ObserveElementSchema>) -> (out: (SelectorScan, SelectorAsk))
        ensures
            (out.0.search(), out.1@) == gone_on(
                Search { left: element_models(elements@), found: Seq::empty() },
            ),
    {
        let mut scan = SelectorScan { elements, next: 0, results: Vec::new() };
        assert(scan.search().left =~= element_models(elements@));
        assert(scan.search().found =~= Seq::<FoundModel>::empty());
        let ask = scan.go_on();
        (scan, ask)
    }

    fn go_on(&mut self) -> (out: SelectorAsk)
        ensures
            (final(self).search(), out@) == gone_on(old(self).search()),
    {
        proof {
            use_type_invariant(&*self);
        }
        let ghost start = self.search();
        let ghost all = element_models(self.elements@);
        while self.next < self.elements.len()
            invariant
                self.next <= self.elements@.len(),
                all == element_models(self.elements@),
                start == old(self).search(),
                self.search().left == all.skip(self.next as int),
                self.search().found == start.found,
                from_valid(start.left) == from_valid(self.search().left),
            decreases self.elements@.len() - self.next,
        {
            let at: usize = self.next;
            assert(self.search().left[0] == self.elements@[at as int]@);
            assert(self.search().left.skip(1) =~= all.skip(at + 1));
            if let Some(id) = selector_target(&self.elements[at]) {
                return SelectorAsk::Resolve(id);
            }
            self.next = at + 1;
        }
        assert(self.search().left.len() == 0);
        SelectorAsk::Done
    }

    fn pass(&mut self)
        requires
            old(self).search().left.len() > 0,
        ensures
            final(self).search() == (Search {
                left: old(self).search().left.skip(1),
                ..old(self).search()
            }),
    {
        proof {
            use_type_invariant(&*self);
        }
        let ghost before = self.search();
        let at: usize = self.next;
        if at < self.elements.len() {
            self.next = at + 1;
        }
        assert(self.search().left =~= before.left.skip(1));
    }

    /// Takes the reply to the question for the object of an element.
    pub fn on_resolved(&mut self, reply: &JsonValue) -> (out: SelectorAsk)
        requires
            old(self).search().left.len() > 0,
        ensures
            (final(self).search(), out@) == after_resolve(old(self).search(), reply@),
    {
        match resolved_object_id(reply) {
            Some(object_id) => SelectorAsk::Path(object_id),
            None => {
                self.pass();
                self.go_on()
            },
        }
    }

    /// Takes the path of an element; it is empty where there is none.
    pub fn on_path(&mut self, path: &str) -> (out: SelectorAsk)
        requires
            old(self).search().left.len() > 0,
        ensures
            (final(self).search(), out@) == after_path(old(self).search(), path@),
    {
        proof {
            use_type_invariant(&*self);
        }
        let ghost before = self.search();
        assert(before.left[0] == self.elements@[self.next as int]@);
        if let Some(result) = attach_selector(&self.elements[self.next], path) {
            let ghost added = result@;
            let mut results: Vec<ObserveResult> = Vec::new();
            std::mem::swap(&mut results, &mut self.results);
            results.push(result);
            self.results = results;
            assert(self.search().found =~= before.found.push(added));
        }
        self.pass();
        self.go_on()
    }

    /// Gives the elements that were found.
    pub fn finish(self) -> (out: Vec<ObserveResult>)
        ensures
            found_models(out@) == self.search().found,
    {
        self.results
    }
}

proof fn lemma_from_valid(left: Seq<ElementModel>)
    ensures
        from_valid(left).len() <= left.len(),
        from_valid(left).len() > 0 ==> from_valid(left)[0].element_id > 0,
    decreases left.len(),
{
    if left.len() > 0 && left[0].element_id <= 0 {
        lemma_from_valid(left.skip(1));
    }
}

/// Only elements with a positive id are looked at, each path leaves fewer of them,
/// and what was found stays found.
pub proof fn law_search_goes_on(search: Search, path: Seq<char>)
    requires
        search.left.len() > 0,
    ensures
        after_path(search, path).0.left.len() < search.left.len(),
        search.found.is_prefix_of(after_path(search, path).0.found),
        after_path(search, path).1 matches Ask::Resolve(id) ==> id > 0,
{
    lemma_from_valid(search.left.skip(1));
}

} // verus!
