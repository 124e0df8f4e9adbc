//! Merging JSON objects, one laid over the other.
use crate::json::{
    keys_ascend, law_insert_then_get, member_of, with_member, Json, JsonObject, JsonValue, Members,
};
use crate::text::lemma_lex_total;
use vstd::prelude::*;

verus! {

/// `overlay` laid over `base`: objects are merged member by member, anything else
/// is replaced.
pub open spec fn laid_over(base: Json, overlay: Json) -> Json
    decreases overlay,
{
    match (base, overlay) {
        (Json::Members(below), Json::Members(above)) => Json::Members(
            members_over(below, above),
        ),
        _ => overlay,
    }
}

/// The members of an object with those of `overlay` laid over them.
pub open spec fn members_over(base: Members, overlay: Members) -> Members
    decreases overlay,
{
    if overlay.len() == 0 {
        base
    } else {
        let below = members_over(base, overlay.drop_last());
        let key = overlay.last().0;
        match member_of(below, key) {
            Some(existing) => with_member(below, key, laid_over(existing, overlay.last().1)),
            None => with_member(below, key, overlay.last().1),
        }
    }
}

/// Lays `overlay` over `base`.
pub fn merge_json_values(base: &mut JsonValue, overlay: &JsonValue)
    ensures
        final(base)@ == laid_over(old(base)@, overlay@),
    decreases overlay,
{
    let merged = match (base.as_object(), overlay.as_object()) {
        (Some(below), Some(above)) => {
            let mut result = below.copy();
            let total: usize = above.len();
            let mut i: usize = 0;
            assert(above@.take(0) =~= Members::empty());
            while i < total
                invariant
                    i <= total,
                    total == above@.len(),
                    decreases_to!(overlay => above),
                    result@ == members_over(below@, above@.take(i as int)),
                decreases total - i,
            {
                assert(above@.take(i + 1).drop_last() =~= above@.take(i as int));
                let key = above.key_at(i);
                let value = above.value_at(i);
                let existing = match result.get(key.as_str()) {
                    Some(existing) => Some(existing.copy()),
                    None => None,
                };
                match existing {
                    Some(slot) => {
                        let mut slot = slot;
                        merge_json_values(&mut slot, value);
                        result.insert(key.as_str(), slot);
                    },
                    None => result.insert(key.as_str(), value.copy()),
                }
                i += 1;
            }
            assert(above@.take(i as int) =~= above@);
            JsonValue::object(result)
        },
        _ => overlay.copy(),
    };
    *base = merged;
}

/// Lays the members of `overlay` over those of `base`.
pub fn merge_json_objects(base: JsonObject, overlay: &JsonObject) -> (out: JsonObject)
    ensures
        out@ == members_over(base@, overlay@),
{
    let mut slot = JsonValue::object(base);
    merge_json_values(&mut slot, &JsonValue::object(overlay.copy()));
    match slot.as_object() {
        Some(merged) => merged.copy(),
        None => JsonObject::new(),
    }
}

proof fn lemma_member_of_push(members: Members, key: Seq<char>, value: Json, other: Seq<char>)
    ensures
        member_of(members.push((key, value)), other) == (match member_of(members, other) {
            Some(found) => Some(found),
            None => if other == key {
                Some(value)
            } else {
                None
            },
        }),
    decreases members.len(),
{
    let all = members.push((key, value));
    if members.len() > 0 {
        assert(all.skip(1) =~= members.skip(1).push((key, value)));
        assert(all[0] == members[0]);
        lemma_member_of_push(members.skip(1), key, value, other);
    } else {
        assert(all.skip(1) =~= Members::empty());
        assert(member_of(Members::empty(), other) is None);
    }
}

proof fn lemma_absent(members: Members, key: Seq<char>)
    requires
        forall|i: int| 0 <= i < members.len() ==> (#[trigger] members[i]).0 != key,
    ensures
        member_of(members, key) is None,
    decreases members.len(),
{
    if members.len() > 0 {
        assert forall|i: int| 0 <= i < members.skip(1).len() implies (#[trigger] members.skip(
            1,
        )[i]).0 != key by {
            assert(members.skip(1)[i] == members[i + 1]);
        }
        lemma_absent(members.skip(1), key);
    }
}

/// What stands under a key after merging: what only one of the two has stays as it
/// is, and what both have is laid one over the other.
pub proof fn law_merge_by_key(base: Members, overlay: Members, key: Seq<char>)
    requires
        keys_ascend(overlay),
    ensures
        member_of(members_over(base, overlay), key) == (match (
            member_of(base, key),
            member_of(overlay, key),
        ) {
            (below, None) => below,
            (None, Some(above)) => Some(above),
            (Some(below), Some(above)) => Some(laid_over(below, above)),
        }),
    decreases overlay.len(),
{
    if overlay.len() > 0 {
        let front = overlay.drop_last();
        let last = overlay.last();
        assert(overlay =~= front.push(last));
        assert forall|i: int, j: int| 0 <= i < j < front.len() implies crate::text::lex_less(
            (#[trigger] front[i]).0,
            (#[trigger] front[j]).0,
        ) by {
            assert(front[i] == overlay[i] && front[j] == overlay[j]);
        }
        law_merge_by_key(base, front, key);
        law_merge_by_key(base, front, last.0);
        lemma_member_of_push(front, last.0, last.1, key);
        assert forall|i: int| 0 <= i < front.len() implies (#[trigger] front[i]).0 != last.0 by {
            assert(front[i] == overlay[i]);
            assert(overlay[overlay.len() - 1] == last);
            lemma_lex_total(front[i].0, last.0);
        }
        lemma_absent(front, last.0);
        let below = members_over(base, front);
        match member_of(below, last.0) {
            Some(existing) => law_insert_then_get(
                below,
                last.0,
                laid_over(existing, last.1),
                key,
            ),
            None => law_insert_then_get(below, last.0, last.1, key),
        }
    }
}

/// An empty object laid over another changes nothing, and merging two objects
/// gives an object.
pub proof fn law_merge_keeps_objects(base: Members, overlay: Members)
    ensures
        members_over(base, Members::empty()) == base,
        laid_over(Json::Members(base), Json::Members(overlay)) is Members,
{
}

} // verus!
