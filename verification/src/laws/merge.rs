//! How one value is laid over another.
use crate::json::{keys_ascend, member_of, Json, Members};
use crate::merge::{laid_over, law_merge_by_key};
use vstd::prelude::*;

verus! {

/// The value that keys lead to, one inside the other.
pub open spec fn value_at(value: Json, keys: Seq<Seq<char>>) -> Option<Json>
    decreases keys.len(),
{
    if keys.len() == 0 {
        Some(value)
    } else {
        match value {
            Json::Members(members) => match member_of(members, keys[0]) {
                Some(inner) => value_at(inner, keys.skip(1)),
                None => None,
            },
            _ => None,
        }
    }
}

/// Whether the keys of a value, and of every value in it that keys lead to, ascend.
pub open spec fn is_ordered(value: Json, keys: Seq<Seq<char>>) -> bool
    decreases keys.len(),
{
    match value {
        Json::Members(members) => keys_ascend(members) && (keys.len() == 0 || (member_of(
            members,
            keys[0],
        ) matches Some(inner) ==> is_ordered(inner, keys.skip(1)))),
        _ => true,
    }
}

/// What the upper value has stands in the result, wherever it is, unless it is an
/// object.
pub proof fn law_upper_value_wins(base: Json, overlay: Json, keys: Seq<Seq<char>>, value: Json)
    requires
        is_ordered(overlay, keys),
        value_at(overlay, keys) == Some(value),
        !(value is Members),
    ensures
        value_at(laid_over(base, overlay), keys) == Some(value),
    decreases keys.len(),
{
    if keys.len() > 0 {
        let above = overlay->Members_0;
        let rest = keys.skip(1);
        let inner = member_of(above, keys[0])->0;
        if let Json::Members(below) = base {
            law_merge_by_key(below, above, keys[0]);
            if let Some(old) = member_of(below, keys[0]) {
                law_upper_value_wins(old, inner, rest, value);
            }
        }
    }
}

/// What the upper value says nothing about stays as it was: where it has no member, the
/// lower value's stands in the result.
pub proof fn law_lower_value_stays(base: Members, overlay: Members, key: Seq<char>)
    requires
        keys_ascend(overlay),
        member_of(overlay, key) is None,
    ensures
        laid_over(Json::Members(base), Json::Members(overlay)) matches Json::Members(both)
            && member_of(both, key) == member_of(base, key),
{
    law_merge_by_key(base, overlay, key);
}

/// Unless both are objects, the upper value takes the place of the lower one.
pub proof fn law_only_objects_are_merged(base: Json, overlay: Json)
    requires
        !(base is Members) || !(overlay is Members),
    ensures
        laid_over(base, overlay) == overlay,
{
}

} // verus!
