//! How keys and the values under them change case.
use crate::json::{law_insert_then_get, member_of, Json, Members};
use crate::keys::{
    camel_of, camel_prefix, is_lower, is_upper, key_in, recased, recased_list, recased_members,
    snake_of, snake_prefix, KeyCase,
};
use crate::text::{ascii_lower, ascii_upper, is_digit, lower_of};
use vstd::prelude::*;

verus! {

proof fn lemma_snake_front(a: Seq<char>, b: Seq<char>, n: nat)
    requires
        n <= a.len(),
        b.len() == 0 || !is_lower(b[0]) || (a.len() > 0 && !is_upper(a.last())) || a.len() == 0,
    ensures
        snake_prefix(a + b, n) == snake_prefix(a, n),
    decreases n,
{
    if n > 0 {
        lemma_snake_front(a, b, (n - 1) as nat);
        let s = a + b;
        assert(s[n - 1] == a[n - 1]);
        if n > 1 {
            assert(s[n - 2] == a[n - 2]);
        }
        if n < a.len() {
            assert(s[n as int] == a[n as int]);
        } else if b.len() > 0 {
            assert(s[n as int] == b[0]);
        }
    }
}

proof fn lemma_snake_back(a: Seq<char>, b: Seq<char>, front: Seq<char>, n: nat)
    requires
        1 <= n <= b.len(),
        b[0] != '-',
        snake_prefix(a + b, a.len() + 1) == front + snake_prefix(b, 1),
    ensures
        snake_prefix(b, n).len() > 0,
        snake_prefix(a + b, a.len() + n) == front + snake_prefix(b, n),
    decreases n,
{
    if n > 1 {
        let m = (n - 1) as nat;
        lemma_snake_back(a, b, front, m);
        let s = a + b;
        assert(s[a.len() + n - 1] == b[n - 1]);
        assert(s[a.len() + n - 2] == b[n - 2]);
        if n < b.len() {
            assert(s[(a.len() + n) as int] == b[n as int]);
        }
        let own = snake_prefix(b, m);
        let whole = snake_prefix(s, a.len() + m);
        assert(whole.last() == own.last());
        assert((a.len() + n - 1) as nat == a.len() + m);
        let c = b[n - 1];
        assert(whole.push('_').push(ascii_lower(c)) =~= front + own.push('_').push(ascii_lower(c)));
        assert(whole.push(ascii_lower(c)) =~= front + own.push(ascii_lower(c)));
        assert(whole.push('_') =~= front + own.push('_'));
        assert(whole.push(c) =~= front + own.push(c));
    } else {
        assert(snake_prefix(b, 0) =~= Seq::<char>::empty());
    }
}

/// A capital letter begins a new word behind a small letter or a digit, and where a
/// small letter follows it: the words are put one behind the other with an underscore
/// between them.
pub proof fn law_capitals_begin_words(a: Seq<char>, b: Seq<char>)
    requires
        a.len() > 0,
        b.len() > 0,
        is_upper(b[0]),
        snake_of(a).len() > 0,
        snake_of(a).last() != '_',
        is_lower(a.last()) || is_digit(a.last()) || (b.len() > 1 && is_lower(b[1])),
    ensures
        snake_of(a + b) == snake_of(a) + seq!['_'] + snake_of(b),
{
    let s = a + b;
    let front = snake_of(a) + seq!['_'];
    lemma_snake_front(a, b, a.len());
    assert(s[a.len() as int] == b[0]);
    assert(s[a.len() - 1] == a.last());
    if b.len() > 1 {
        assert(s[a.len() as int + 1] == b[1]);
    }
    assert(snake_prefix(b, 0) =~= Seq::<char>::empty());
    assert(snake_prefix(b, 1) =~= seq![ascii_lower(b[0])]);
    assert((a.len() + 1 - 1) as nat == a.len());
    assert(snake_prefix(s, a.len() + 1) =~= front + snake_prefix(b, 1));
    lemma_snake_back(a, b, front, b.len());
}

/// A capital letter begins no new word behind another character where no small letter
/// follows it.
pub proof fn law_capitals_in_a_row_stay_together(a: Seq<char>, b: Seq<char>)
    requires
        a.len() > 0,
        b.len() > 0,
        is_upper(b[0]),
        !is_lower(a.last()),
        !is_digit(a.last()),
        b.len() == 1 || !is_lower(b[1]),
    ensures
        snake_of(a + b) == snake_of(a) + snake_of(b),
{
    let s = a + b;
    let front = snake_of(a);
    lemma_snake_front(a, b, a.len());
    assert(s[a.len() as int] == b[0]);
    assert(s[a.len() - 1] == a.last());
    if b.len() > 1 {
        assert(s[a.len() as int + 1] == b[1]);
    }
    assert(snake_prefix(b, 0) =~= Seq::<char>::empty());
    assert(snake_prefix(b, 1) =~= seq![ascii_lower(b[0])]);
    assert((a.len() + 1 - 1) as nat == a.len());
    assert(snake_prefix(s, a.len() + 1) =~= front + snake_prefix(b, 1));
    lemma_snake_back(a, b, front, b.len());
}

/// Hyphens in a row are one.
pub proof fn law_hyphens_in_a_row_are_one(a: Seq<char>)
    ensures
        snake_of(a + seq!['-', '-']) == snake_of(a + seq!['-']),
{
    let one = a + seq!['-'];
    let two = one + seq!['-'];
    assert(a + seq!['-', '-'] =~= two);
    lemma_snake_front(one, seq!['-'], one.len());
    lemma_snake_front(a, seq!['-'], a.len());
    assert(one[a.len() as int] == '-' && two[one.len() as int] == '-');
    assert((two.len() - 1) as nat == one.len());
    assert((one.len() - 1) as nat == a.len());
}

/// A hyphen becomes an underscore between the words around it.
pub proof fn law_hyphens_become_underscores(a: Seq<char>, b: Seq<char>)
    requires
        b.len() > 0,
        b[0] != '-',
        snake_of(a).len() == 0 || snake_of(a).last() != '_',
    ensures
        snake_of(a + seq!['-'] + b) == snake_of(a) + seq!['_'] + snake_of(b),
{
    let joint = a + seq!['-'];
    let s = joint + b;
    let front = snake_of(a) + seq!['_'];
    lemma_snake_front(a, seq!['-'], a.len());
    assert(joint[a.len() as int] == '-');
    assert((joint.len() - 1) as nat == a.len());
    assert(snake_of(joint) =~= front);
    assert(!is_upper(joint.last()));
    lemma_snake_front(joint, b, joint.len());
    assert(s[joint.len() as int] == b[0]);
    assert(snake_prefix(b, 0) =~= Seq::<char>::empty());
    assert((joint.len() + 1 - 1) as nat == joint.len());
    assert(front.last() == '_');
    assert(snake_prefix(s, joint.len() + 1) =~= front + snake_prefix(b, 1));
    lemma_snake_back(joint, b, front, b.len());
}

/// Other characters stand as they are behind what stands before them.
pub proof fn law_other_characters_stay(a: Seq<char>, b: Seq<char>)
    requires
        a.len() == 0 || !is_upper(a.last()),
        forall|i: int| 0 <= i < b.len() ==> !is_upper(#[trigger] b[i]) && b[i] != '-',
    ensures
        snake_of(a + b) == snake_of(a) + b,
    decreases b.len(),
{
    if b.len() == 0 {
        assert(a + b =~= a);
        assert(snake_of(a) + b =~= snake_of(a));
    } else {
        let less = b.drop_last();
        assert forall|i: int| 0 <= i < less.len() implies !is_upper(#[trigger] less[i]) && less[i]
            != '-' by {
            assert(less[i] == b[i]);
        }
        law_other_characters_stay(a, less);
        let s = a + b;
        assert(!is_upper(b[b.len() - 1]));
        assert(a + b =~= (a + less) + seq![b.last()]);
        if less.len() > 0 {
            assert((a + less).last() == less.last());
            assert(!is_upper(less[less.len() - 1]));
        } else {
            assert(a + less =~= a);
        }
        lemma_snake_front(a + less, seq![b.last()], (a + less).len());
        assert(s[s.len() - 1] == b.last());
        assert((s.len() - 1) as nat == (a + less).len());
        assert(snake_of(s) =~= snake_of(a) + b);
    }
}

proof fn lemma_camel_front(a: Seq<char>, b: Seq<char>, n: nat)
    requires
        n <= a.len(),
    ensures
        camel_prefix(a + b, n) == camel_prefix(a, n),
    decreases n,
{
    if n > 0 {
        lemma_camel_front(a, b, (n - 1) as nat);
        let s = a + b;
        assert(s[n - 1] == a[n - 1]);
        assert(s.take(n - 1) =~= a.take(n - 1));
        if n > 1 {
            assert(s[n - 2] == a[n - 2]);
        } else {
            assert(s.take(0) =~= Seq::<char>::empty());
        }
    }
}

/// What stands behind an underscore is put behind what stands before it, with a capital
/// letter in front and small ones behind.
pub proof fn law_underscores_begin_capitals(a: Seq<char>, b: Seq<char>)
    requires
        b.len() > 0,
        !b.contains('_'),
    ensures
        camel_of(a + seq!['_'] + b) == camel_of(a) + seq![ascii_upper(b[0])] + lower_of(b.skip(1)),
    decreases b.len(),
{
    let joint = a + seq!['_'];
    let s = joint + b;
    assert(b.contains(b.last()));
    if b.len() == 1 {
        lemma_camel_front(a, seq!['_'], a.len());
        assert(joint[a.len() as int] == '_');
        assert((joint.len() - 1) as nat == a.len());
        assert(camel_of(joint) == camel_of(a));
        lemma_camel_front(joint, b, joint.len());
        assert(s[joint.len() as int] == b[0]);
        assert(s[joint.len() - 1] == '_');
        assert(s.take(s.len() - 1) =~= joint);
        assert(joint.contains('_'));
        assert((s.len() - 1) as nat == joint.len());
        assert(lower_of(b.skip(1)) =~= Seq::<char>::empty());
        assert(camel_of(s) =~= camel_of(a) + seq![ascii_upper(b[0])] + lower_of(b.skip(1)));
    } else {
        let less = b.drop_last();
        assert forall|i: int| 0 <= i < less.len() implies less[i] != '_' by {
            assert(b.contains(b[i]));
        }
        law_underscores_begin_capitals(a, less);
        let shorter = joint + less;
        assert(s =~= shorter + seq![b.last()]);
        lemma_camel_front(shorter, seq![b.last()], shorter.len());
        assert(s[s.len() - 2] == b[b.len() - 2]);
        assert(b.contains(b[b.len() - 2]));
        assert(s.take(s.len() - 1) =~= shorter);
        assert(shorter[a.len() as int] == '_');
        assert(shorter.contains('_'));
        assert((s.len() - 1) as nat == shorter.len());
        assert(b.skip(1) =~= less.skip(1).push(b.last()));
        assert(lower_of(b.skip(1)) =~= lower_of(less.skip(1)).push(ascii_lower(b.last())));
        assert(camel_of(s) =~= camel_of(a) + seq![ascii_upper(b[0])] + lower_of(b.skip(1)));
    }
}

/// In a list every item changes, each in its place; a value that is neither a list nor
/// an object stays.
pub proof fn law_every_item_changes(case: KeyCase, items: Seq<Json>, i: int)
    requires
        0 <= i < items.len(),
    ensures
        recased(case, Json::List(items)) matches Json::List(changed) && changed.len()
            == items.len() && changed[i] == recased(case, items[i]),
        !(items[i] is List) && !(items[i] is Members) ==> recased(case, items[i]) == items[i],
    decreases items.len(),
{
    lemma_list_length(case, items);
    if i < items.len() - 1 {
        law_every_item_changes(case, items.drop_last(), i);
        lemma_list_length(case, items.drop_last());
    } else {
        lemma_list_length(case, items.drop_last());
    }
}

proof fn lemma_list_length(case: KeyCase, items: Seq<Json>)
    ensures
        recased_list(case, items).len() == items.len(),
    decreases items.len(),
{
    if items.len() > 0 {
        lemma_list_length(case, items.drop_last());
    }
}

/// In an object every key changes and every value with it; where two keys become the
/// same, the last counts.
pub proof fn law_every_member_changes(case: KeyCase, members: Members, i: int)
    requires
        0 <= i < members.len(),
        forall|j: int|
            i < j < members.len() ==> key_in(case, (#[trigger] members[j]).0) != key_in(
                case,
                members[i].0,
            ),
    ensures
        recased(case, Json::Members(members)) matches Json::Members(changed) && member_of(
            changed,
            key_in(case, members[i].0),
        ) == Some(recased(case, members[i].1)),
    decreases members.len(),
{
    let less = members.drop_last();
    let before = recased_members(case, less);
    let key = key_in(case, members[i].0);
    law_insert_then_get(
        before,
        key_in(case, members.last().0),
        recased(case, members.last().1),
        key,
    );
    if i < members.len() - 1 {
        assert forall|j: int| i < j < less.len() implies key_in(case, (#[trigger] less[j]).0)
            != key_in(case, less[i].0) by {
            assert(less[j] == members[j]);
        }
        law_every_member_changes(case, less, i);
        assert(key_in(case, members[members.len() - 1].0) != key);
    }
}

/// No other keys come into an object.
pub proof fn law_no_member_is_added(case: KeyCase, members: Members, key: Seq<char>) -> (i: int)
    requires
        member_of(recased_members(case, members), key) is Some,
    ensures
        0 <= i < members.len(),
        key_in(case, members[i].0) == key,
        member_of(recased_members(case, members), key) == Some(recased(case, members[i].1)),
    decreases members.len(),
{
    if members.len() == 0 {
        0
    } else {
        let less = members.drop_last();
        law_insert_then_get(
            recased_members(case, less),
            key_in(case, members.last().0),
            recased(case, members.last().1),
            key,
        );
        if key_in(case, members.last().0) == key {
            members.len() - 1
        } else {
            law_no_member_is_added(case, less, key)
        }
    }
}

} // verus!
