//! How elements get their selectors.
use crate::json::{field_of, Json};
use crate::selectors::{after_path, after_resolve, from_valid, gone_on, Ask, Search};
use crate::types::page::ElementModel;
use vstd::prelude::*;
use vstd::string::*;

verus! {

/// The next element with a number above zero is asked about, and those before it are
/// passed over; when none is left, the search is done. What was found stays.
pub proof fn law_next_element_is_asked_about(search: Search, k: int)
    requires
        0 <= k <= search.left.len(),
        forall|i: int| 0 <= i < k ==> (#[trigger] search.left[i]).element_id <= 0,
        k < search.left.len() ==> search.left[k].element_id > 0,
    ensures
        gone_on(search).0.left == search.left.skip(k),
        gone_on(search).0.found == search.found,
        k < search.left.len() ==> gone_on(search).1 == Ask::Resolve(search.left[k].element_id),
        k == search.left.len() ==> gone_on(search).1 == Ask::Done,
    decreases k,
{
    lemma_from_valid(search.left, k);
    assert(search.left.skip(0) =~= search.left);
}

proof fn lemma_from_valid(left: Seq<ElementModel>, k: int)
    requires
        0 <= k <= left.len(),
        forall|i: int| 0 <= i < k ==> (#[trigger] left[i]).element_id <= 0,
        k < left.len() ==> left[k].element_id > 0,
    ensures
        from_valid(left) == left.skip(k),
    decreases k,
{
    if k == 0 {
        assert(left.skip(0) =~= left);
    } else {
        let rest = left.skip(1);
        assert forall|i: int| 0 <= i < k - 1 implies (#[trigger] rest[i]).element_id <= 0 by {
            assert(rest[i] == left[i + 1]);
        }
        assert(left[0].element_id <= 0);
        lemma_from_valid(rest, k - 1);
        assert(rest.skip(k - 1) =~= left.skip(k));
    }
}

/// The object of an element is asked for its path; an element without one is passed
/// over.
pub proof fn law_object_is_asked_for_its_path(search: Search, reply: Json, id: Seq<char>)
    ensures
        (field_of(reply, "object"@) matches Some(object) && field_of(object, "objectId"@) == Some(
            Json::Text(id),
        )) ==> after_resolve(search, reply) == (search, Ask::Path(id)),
        field_of(reply, "object"@) is None ==> after_resolve(search, reply) == gone_on(
            Search { left: search.left.skip(1), found: search.found },
        ),
{
}

/// An element with a path is found, behind all that were found before it, with that
/// path and all that was said of it; one without a path is not, and either way the
/// search goes on with the next.
pub proof fn law_element_is_found_with_its_path(search: Search, path: Seq<char>)
    requires
        search.left.len() > 0,
    ensures
        path.len() == 0 ==> after_path(search, path) == gone_on(
            Search { left: search.left.skip(1), found: search.found },
        ),
        path.len() > 0 ==> {
            let element = search.left[0];
            let found = after_path(search, path).0.found;
            &&& found.len() == search.found.len() + 1
            &&& found.drop_last() == search.found
            &&& found.last().selector == "xpath="@ + path
            &&& found.last().description == element.description
            &&& found.last().backend_node_id == Some(element.element_id)
            &&& found.last().method == Some(element.method)
            &&& element.arguments.len() > 0 ==> found.last().arguments == Some(element.arguments)
            &&& element.arguments.len() == 0 ==> found.last().arguments is None
            &&& after_path(search, path).0.left == from_valid(search.left.skip(1))
        },
{
    if path.len() > 0 {
        assert(after_path(search, path).0.found.drop_last() =~= search.found);
    }
}

/// A search in which each element has an object and a path.
pub open spec fn searched(search: Search, paths: Seq<Seq<char>>) -> Search
    decreases paths.len(),
{
    if paths.len() == 0 || search.left.len() == 0 {
        search
    } else {
        searched(after_path(search, paths[0]).0, paths.skip(1))
    }
}

/// Where every element has a number above zero and a path, every element is found, in
/// order, each with its own path.
pub proof fn law_every_element_is_found(search: Search, paths: Seq<Seq<char>>, i: int)
    requires
        paths.len() == search.left.len(),
        0 <= i < search.left.len(),
        forall|k: int| 0 <= k < search.left.len() ==> (#[trigger] search.left[k]).element_id > 0,
        forall|k: int| 0 <= k < paths.len() ==> (#[trigger] paths[k]).len() > 0,
    ensures
        searched(search, paths).left.len() == 0,
        searched(search, paths).found.len() == search.found.len() + paths.len(),
        searched(search, paths).found.take(search.found.len() as int) == search.found,
        searched(search, paths).found[search.found.len() + i].selector == "xpath="@ + paths[i],
        searched(search, paths).found[search.found.len() + i].backend_node_id == Some(
            search.left[i].element_id,
        ),
        searched(search, paths).found[search.found.len() + i].description
            == search.left[i].description,
    decreases paths.len(),
{
    let next = after_path(search, paths[0]).0;
    let rest = search.left.skip(1);
    assert(paths[0].len() > 0);
    law_element_is_found_with_its_path(search, paths[0]);
    if rest.len() > 0 {
        assert(rest[0] == search.left[1]);
        assert(rest[0].element_id > 0);
    }
    assert(from_valid(rest) == rest);
    assert(next.left == rest);
    let later = paths.skip(1);
    if later.len() == 0 {
        assert(searched(next, later) == next);
        assert(next.found.take(search.found.len() as int) =~= search.found);
    } else {
        assert forall|k: int| 0 <= k < rest.len() implies (#[trigger] rest[k]).element_id > 0 by {
            assert(rest[k] == search.left[k + 1]);
        }
        assert forall|k: int| 0 <= k < later.len() implies (#[trigger] later[k]).len() > 0 by {
            assert(later[k] == paths[k + 1]);
        }
        let j = if i == 0 {
            0
        } else {
            i - 1
        };
        law_every_element_is_found(next, later, j);
        let done = searched(next, later).found;
        assert(done.take(next.found.len() as int) == next.found);
        assert(done.take(search.found.len() as int) =~= search.found) by {
            assert forall|k: int| 0 <= k < search.found.len() implies done[k] == search.found[k] by {
                assert(done[k] == done.take(next.found.len() as int)[k]);
                assert(search.found[k] == next.found.drop_last()[k]);
            }
        }
        if i == 0 {
            assert(done[search.found.len() as int] == done.take(
                next.found.len() as int,
            )[search.found.len() as int]);
            assert(next.found.last() == next.found[search.found.len() as int]);
        } else {
            assert(later[j] == paths[i] && rest[j] == search.left[i]);
        }
    }
}

} // verus!
