//! What the operations on text do.
use crate::text::{
    begins_with, decimal, decimal_int, has_text, is_blank, is_white_space, joined, lex_less,
    lower_of, read_digits, replaced, signed_of, trim_end_char_of, trim_end_of, trim_of,
    trim_start_char_of, trim_start_of, unsigned_of, upper_of, words_of, NumberError,
};
use vstd::prelude::*;

verus! {

/// Whether a text is white space only.
pub open spec fn all_white(s: Seq<char>) -> bool {
    forall|i: int| 0 <= i < s.len() ==> is_white_space(#[trigger] s[i])
}

/// Whether a text is one character only, as often as it may be.
pub open spec fn all_of(s: Seq<char>, c: char) -> bool {
    forall|i: int| 0 <= i < s.len() ==> #[trigger] s[i] == c
}

proof fn lemma_trim_start(s: Seq<char>) -> (front: Seq<char>)
    ensures
        all_white(front),
        s == front + trim_start_of(s),
        trim_start_of(s).len() > 0 ==> !is_white_space(trim_start_of(s)[0]),
    decreases s.len(),
{
    if s.len() > 0 && is_white_space(s.first()) {
        let rest = lemma_trim_start(s.drop_first());
        let front = seq![s.first()] + rest;
        assert(s =~= seq![s.first()] + s.drop_first());
        assert(s =~= front + trim_start_of(s));
        front
    } else {
        assert(s =~= Seq::<char>::empty() + s);
        seq![]
    }
}

proof fn lemma_trim_end(s: Seq<char>) -> (back: Seq<char>)
    ensures
        all_white(back),
        s == trim_end_of(s) + back,
        trim_end_of(s).len() > 0 ==> !is_white_space(trim_end_of(s).last()),
    decreases s.len(),
{
    if s.len() > 0 && is_white_space(s.last()) {
        let rest = lemma_trim_end(s.drop_last());
        let back = rest.push(s.last());
        assert(s =~= s.drop_last().push(s.last()));
        assert(s =~= trim_end_of(s) + back);
        back
    } else {
        assert(s =~= s + Seq::<char>::empty());
        seq![]
    }
}

/// Trimming takes white space off both ends, all of it and nothing else.
pub proof fn law_trim_takes_white_space_off(s: Seq<char>) -> (ends: (Seq<char>, Seq<char>))
    ensures
        all_white(ends.0),
        all_white(ends.1),
        s == ends.0 + trim_of(s) + ends.1,
        trim_of(s).len() > 0 ==> !is_white_space(trim_of(s)[0]) && !is_white_space(
            trim_of(s).last(),
        ),
        is_blank(s) <==> all_white(s),
{
    let front = lemma_trim_start(s);
    let back = lemma_trim_end(trim_start_of(s));
    assert(s =~= front + trim_of(s) + back);
    if trim_of(s).len() > 0 {
        assert(trim_start_of(s)[0] == trim_of(s)[0]);
        assert(s[front.len() as int] == trim_of(s)[0]);
    } else {
        assert forall|i: int| 0 <= i < s.len() implies is_white_space(#[trigger] s[i]) by {
            if i < front.len() {
                assert(s[i] == front[i]);
            } else {
                assert(s[i] == back[i - front.len()]);
            }
        }
    }
    (front, back)
}

/// A character is taken off one end as often as it stands there, and nothing else.
pub proof fn law_characters_are_taken_off(s: Seq<char>, c: char) -> (ends: (Seq<char>, Seq<char>))
    ensures
        all_of(ends.0, c),
        s == ends.0 + trim_start_char_of(s, c),
        trim_start_char_of(s, c).len() > 0 ==> trim_start_char_of(s, c)[0] != c,
        all_of(ends.1, c),
        s == trim_end_char_of(s, c) + ends.1,
        trim_end_char_of(s, c).len() > 0 ==> trim_end_char_of(s, c).last() != c,
    decreases s.len(),
{
    let front = if s.len() > 0 && s.first() == c {
        let rest = law_characters_are_taken_off(s.drop_first(), c).0;
        assert(s =~= seq![c] + s.drop_first());
        assert(s =~= seq![c] + rest + trim_start_char_of(s, c));
        seq![c] + rest
    } else {
        assert(s =~= Seq::<char>::empty() + s);
        seq![]
    };
    let back = if s.len() > 0 && s.last() == c {
        let rest = law_characters_are_taken_off(s.drop_last(), c).1;
        assert(s =~= s.drop_last().push(c));
        assert(s =~= trim_end_char_of(s, c) + rest.push(c));
        rest.push(c)
    } else {
        assert(s =~= s + Seq::<char>::empty());
        seq![]
    };
    (front, back)
}

/// Whether a text stands nowhere in front of a position.
pub open spec fn stands_not_before(s: Seq<char>, what: Seq<char>, end: int) -> bool {
    forall|i: int| 0 <= i < end ==> !begins_with(#[trigger] s.skip(i), what)
}

/// The first place where a text stands is replaced, and behind it all others are.
pub proof fn law_every_place_is_replaced(
    front: Seq<char>,
    from: Seq<char>,
    back: Seq<char>,
    to: Seq<char>,
)
    requires
        from.len() > 0,
        stands_not_before(front + from + back, from, front.len() as int),
    ensures
        replaced(front + from + back, from, to) == front + to + replaced(back, from, to),
    decreases front.len(),
{
    let s = front + from + back;
    if front.len() == 0 {
        assert(s.take(from.len() as int) =~= from);
        assert(s.skip(from.len() as int) =~= back);
        assert(front + to + replaced(back, from, to) =~= to + replaced(back, from, to));
    } else {
        let rest = front.skip(1);
        let less = rest + from + back;
        assert(s.skip(1) =~= less);
        assert(s.skip(0) =~= s);
        assert(!begins_with(s.skip(0), from));
        assert forall|i: int| 0 <= i < rest.len() implies !begins_with(
            #[trigger] less.skip(i),
            from,
        ) by {
            assert(less.skip(i) =~= s.skip(i + 1));
        }
        law_every_place_is_replaced(rest, from, back, to);
        assert(seq![s[0]] + (rest + to + replaced(back, from, to)) =~= front + to + replaced(
            back,
            from,
            to,
        ));
    }
}

/// Where a text stands nowhere, nothing is replaced.
pub proof fn law_nothing_else_is_replaced(s: Seq<char>, from: Seq<char>, to: Seq<char>)
    requires
        !has_text(s, from),
    ensures
        replaced(s, from, to) == s,
    decreases s.len(),
{
    if s.len() > 0 {
        let less = s.skip(1);
        assert(s.skip(0) =~= s);
        assert(!begins_with(s.skip(0), from));
        if has_text(less, from) {
            let i = choose|i: int| 0 <= i <= less.len() && begins_with(#[trigger] less.skip(i), from);
            assert(less.skip(i) =~= s.skip(i + 1));
            assert(begins_with(s.skip(i + 1), from));
        }
        law_nothing_else_is_replaced(less, from, to);
        assert(seq![s[0]] + less =~= s);
    }
}

/// Joined texts stand one behind the other with the separator between them.
pub proof fn law_joined_in_order(
    front: Seq<Seq<char>>,
    back: Seq<Seq<char>>,
    sep: Seq<char>,
    part: Seq<char>,
)
    requires
        front.len() > 0,
        back.len() > 0,
    ensures
        joined(front + back, sep) == joined(front, sep) + sep + joined(back, sep),
        joined(seq![part], sep) == part,
        joined(seq![], sep) == Seq::<char>::empty(),
    decreases back.len(),
{
    let all = front + back;
    assert(all.drop_last() =~= front + back.drop_last());
    assert(all.last() == back.last());
    if back.len() == 1 {
        assert(front + back.drop_last() =~= front);
    } else {
        law_joined_in_order(front, back.drop_last(), sep, part);
        assert(joined(all, sep) =~= joined(front, sep) + sep + joined(back, sep));
    }
}

/// White space parts words: what stands before it and what stands behind it are read
/// each by itself, and text without white space is one word.
pub proof fn law_white_space_parts_words(front: Seq<char>, space: char, back: Seq<char>)
    requires
        is_white_space(space),
    ensures
        words_of(front + seq![space] + back) == words_of(front) + words_of(back),
    decreases back.len(),
{
    let s = front + seq![space] + back;
    if back.len() == 0 {
        assert(s.drop_last() =~= front);
        assert(s.last() == space);
        assert(words_of(front) + words_of(back) =~= words_of(front));
    } else {
        let less = back.drop_last();
        let c = back.last();
        law_white_space_parts_words(front, space, less);
        assert(s.drop_last() =~= front + seq![space] + less);
        assert(s.last() == c);
        if !is_white_space(c) {
            assert(s[s.len() - 2] == (if back.len() == 1 {
                space
            } else {
                back[back.len() - 2]
            }));
            let before = words_of(front) + words_of(less);
            if back.len() == 1 || is_white_space(back[back.len() - 2]) {
                assert(before.push(seq![c]) =~= words_of(front) + words_of(less).push(seq![c]));
            } else {
                lemma_last_word(less);
                assert(before.drop_last().push(before.last().push(c)) =~= words_of(front) + words_of(
                    less,
                ).drop_last().push(words_of(less).last().push(c)));
            }
        }
    }
}

proof fn lemma_last_word(s: Seq<char>)
    requires
        s.len() > 0,
        !is_white_space(s.last()),
    ensures
        words_of(s).len() > 0,
    decreases s.len(),
{
    if s.len() > 1 && !is_white_space(s[s.len() - 2]) {
        lemma_last_word(s.drop_last());
    }
}

/// Text without white space is one word; no text is none.
pub proof fn law_unbroken_text_is_one_word(s: Seq<char>)
    requires
        forall|i: int| 0 <= i < s.len() ==> !is_white_space(#[trigger] s[i]),
    ensures
        s.len() > 0 ==> words_of(s) == seq![s],
        s.len() == 0 ==> words_of(s) == Seq::<Seq<char>>::empty(),
    decreases s.len(),
{
    if s.len() > 0 {
        let less = s.drop_last();
        assert forall|i: int| 0 <= i < less.len() implies !is_white_space(#[trigger] less[i]) by {
            assert(less[i] == s[i]);
        }
        law_unbroken_text_is_one_word(less);
        assert(!is_white_space(s[s.len() - 1]));
        if s.len() == 1 {
            assert(s =~= seq![s.last()]);
            assert(words_of(less) =~= Seq::<Seq<char>>::empty());
        } else {
            assert(!is_white_space(s[s.len() - 2]));
            assert(less.push(s.last()) =~= s);
        }
        assert(words_of(s) =~= seq![s]);
    }
}

/// The characters that can be seen are no white space, and a line break, a tab and a
/// space are.
pub proof fn law_visible_characters_are_no_white_space(c: char)
    ensures
        '!' <= c <= '~' ==> !is_white_space(c),
        c == ' ' || c == '\n' || c == '\t' || c == '\r' ==> is_white_space(c),
        c < '\t' ==> !is_white_space(c),
        '\r' < c && c < ' ' ==> !is_white_space(c),
{
}

/// The number that digits stand for.
pub open spec fn number_of(digits: Seq<char>) -> nat
    decreases digits.len(),
{
    if digits.len() == 0 {
        0
    } else {
        (number_of(digits.drop_last()) * 10 + (digits.last() as int - '0' as int)) as nat
    }
}

/// Whether a text is digits only.
pub open spec fn all_digits(s: Seq<char>) -> bool {
    forall|i: int| 0 <= i < s.len() ==> '0' <= #[trigger] s[i] <= '9'
}

spec fn number_from(seen: nat, digits: Seq<char>) -> nat
    decreases digits.len(),
{
    if digits.len() == 0 {
        seen
    } else {
        (number_from(seen, digits.drop_last()) * 10 + (digits.last() as int - '0' as int)) as nat
    }
}

proof fn lemma_number_from(seen: nat, digits: Seq<char>)
    requires
        digits.len() > 0,
    ensures
        number_from(seen, digits) == number_from(
            (seen * 10 + (digits[0] as int - '0' as int)) as nat,
            digits.skip(1),
        ),
    decreases digits.len(),
{
    let next = (seen * 10 + (digits[0] as int - '0' as int)) as nat;
    if digits.len() == 1 {
        assert(digits.drop_last() =~= Seq::<char>::empty());
        assert(digits.skip(1) =~= Seq::<char>::empty());
        assert(number_from(seen, digits.drop_last()) == seen);
    } else {
        lemma_number_from(seen, digits.drop_last());
        assert(digits.drop_last().skip(1) =~= digits.skip(1).drop_last());
        assert(digits.drop_last()[0] == digits[0]);
        assert(digits.skip(1).last() == digits.last());
    }
}

proof fn lemma_number_grows(seen: nat, digits: Seq<char>)
    requires
        all_digits(digits),
    ensures
        number_from(seen, digits) >= seen,
    decreases digits.len(),
{
    if digits.len() > 0 {
        let less = digits.drop_last();
        assert forall|i: int| 0 <= i < less.len() implies '0' <= #[trigger] less[i] <= '9' by {
            assert(less[i] == digits[i]);
        }
        lemma_number_grows(seen, less);
        assert('0' <= digits[digits.len() - 1] <= '9');
    }
}

proof fn lemma_read(s: Seq<char>, seen: nat, limit: nat, over: NumberError)
    requires
        all_digits(s),
        seen <= limit,
    ensures
        number_from(seen, s) <= limit ==> read_digits(s, seen, limit, over) == Ok::<
            nat,
            NumberError,
        >(number_from(seen, s)),
        number_from(seen, s) > limit ==> read_digits(s, seen, limit, over) == Err::<
            nat,
            NumberError,
        >(over),
    decreases s.len(),
{
    if s.len() > 0 {
        let next = (seen * 10 + (s[0] as int - 48)) as nat;
        let rest = s.skip(1);
        assert forall|i: int| 0 <= i < rest.len() implies '0' <= #[trigger] rest[i] <= '9' by {
            assert(rest[i] == s[i + 1]);
        }
        assert('0' <= s[0] <= '9');
        lemma_number_from(seen, s);
        lemma_number_grows(next, rest);
        if next <= limit {
            lemma_read(rest, next, limit, over);
        }
    }
}

proof fn lemma_number_is(digits: Seq<char>)
    ensures
        number_from(0, digits) == number_of(digits),
    decreases digits.len(),
{
    if digits.len() > 0 {
        lemma_number_is(digits.drop_last());
    }
}

proof fn lemma_read_stops(s: Seq<char>, seen: nat, limit: nat, over: NumberError, n: int)
    requires
        0 <= n < s.len(),
        !('0' <= s[n] <= '9'),
        forall|i: int| 0 <= i < n ==> '0' <= #[trigger] s[i] <= '9',
    ensures
        read_digits(s, seen, limit, over) is Err,
        number_from(seen, s.take(n)) <= limit && seen <= limit ==> read_digits(s, seen, limit, over)
            == Err::<nat, NumberError>(NumberError::InvalidDigit),
    decreases s.len(),
{
    if n > 0 {
        let rest = s.skip(1);
        let next = (seen * 10 + (s[0] as int - 48)) as nat;
        assert('0' <= s[0] <= '9');
        assert(rest[n - 1] == s[n]);
        assert forall|i: int| 0 <= i < n - 1 implies '0' <= #[trigger] rest[i] <= '9' by {
            assert(rest[i] == s[i + 1]);
        }
        lemma_read_stops(rest, next, limit, over, n - 1);
        let front = s.take(n);
        assert(front.skip(1) =~= rest.take(n - 1));
        lemma_number_from(seen, front);
        assert forall|i: int| 0 <= i < rest.take(n - 1).len() implies '0' <= #[trigger] rest.take(
            n - 1,
        )[i] <= '9' by {
            assert(rest.take(n - 1)[i] == s[i + 1]);
        }
        lemma_number_grows(next, rest.take(n - 1));
    }
}

/// Digits are read as the number that they stand for, with or without a plus sign, where
/// it is within the limit; a larger number is too large, no text is no number, and any
/// other character is no digit.
pub proof fn law_numbers_are_read(digits: Seq<char>, limit: nat)
    requires
        digits.len() > 0,
        all_digits(digits),
    ensures
        number_of(digits) <= limit ==> unsigned_of(digits, limit) == Ok::<nat, NumberError>(
            number_of(digits),
        ) && unsigned_of(seq!['+'] + digits, limit) == Ok::<nat, NumberError>(number_of(digits)),
        number_of(digits) > limit ==> unsigned_of(digits, limit) == Err::<nat, NumberError>(
            NumberError::PosOverflow,
        ) && unsigned_of(seq!['+'] + digits, limit) == Err::<nat, NumberError>(
            NumberError::PosOverflow,
        ),
        unsigned_of(seq![], limit) == Err::<nat, NumberError>(NumberError::Empty),
{
    assert('0' <= digits[0] <= '9');
    lemma_read(digits, 0, limit, NumberError::PosOverflow);
    lemma_number_is(digits);
    assert((seq!['+'] + digits).skip(1) =~= digits);
}

/// The same holds of numbers with a sign, within what sixty-four bits can hold.
pub proof fn law_signed_numbers_are_read(digits: Seq<char>)
    requires
        digits.len() > 0,
        all_digits(digits),
    ensures
        number_of(digits) <= i64::MAX ==> signed_of(digits) == Ok::<int, NumberError>(
            number_of(digits) as int,
        ),
        number_of(digits) > i64::MAX ==> signed_of(digits) == Err::<int, NumberError>(
            NumberError::PosOverflow,
        ),
        number_of(digits) <= -i64::MIN ==> signed_of(seq!['-'] + digits) == Ok::<int, NumberError>(
            -(number_of(digits) as int),
        ),
        number_of(digits) > -i64::MIN ==> signed_of(seq!['-'] + digits) == Err::<int, NumberError>(
            NumberError::NegOverflow,
        ),
{
    law_numbers_are_read(digits, 0x7fff_ffff_ffff_ffff);
    assert('0' <= digits[0] <= '9');
    lemma_read(digits, 0, 0x8000_0000_0000_0000, NumberError::NegOverflow);
    lemma_number_is(digits);
    assert((seq!['-'] + digits).skip(1) =~= digits);
}

/// A text with another character in it than digits, but for a sign in front of others,
/// is no number.
pub proof fn law_other_texts_are_no_numbers(s: Seq<char>, n: int, limit: nat)
    requires
        0 <= n < s.len(),
        !('0' <= s[n] <= '9'),
        n > 0 || (s[0] != '+' && s[0] != '-') || s.len() == 1,
    ensures
        unsigned_of(s, limit) is Err,
        signed_of(s) is Err,
    decreases n,
{
    if n > 0 && exists|i: int| 1 <= i < n && !('0' <= #[trigger] s[i] <= '9') {
        let i = choose|i: int| 1 <= i < n && !('0' <= #[trigger] s[i] <= '9');
        law_other_texts_are_no_numbers(s, i, limit);
    } else {
        let rest = s.skip(1);
        if n > 0 {
            assert forall|i: int| 0 <= i < n - 1 implies '0' <= #[trigger] rest[i] <= '9' by {
                assert(rest[i] == s[i + 1]);
            }
            assert(rest[n - 1] == s[n]);
            lemma_read_stops(rest, 0, limit, NumberError::PosOverflow, n - 1);
            lemma_read_stops(rest, 0, 0x7fff_ffff_ffff_ffff, NumberError::PosOverflow, n - 1);
            lemma_read_stops(rest, 0, 0x8000_0000_0000_0000, NumberError::NegOverflow, n - 1);
        }
        if '0' <= s[0] <= '9' {
            lemma_read_stops(s, 0, limit, NumberError::PosOverflow, n);
            lemma_read_stops(s, 0, 0x7fff_ffff_ffff_ffff, NumberError::PosOverflow, n);
        } else {
            lemma_read_stops(s, 0, limit, NumberError::PosOverflow, 0);
            lemma_read_stops(s, 0, 0x7fff_ffff_ffff_ffff, NumberError::PosOverflow, 0);
        }
    }
}

proof fn lemma_decimal(n: nat)
    ensures
        decimal(n).len() > 0,
        all_digits(decimal(n)),
        number_of(decimal(n)) == n,
    decreases n,
{
    if n < 10 {
        assert(decimal(n).drop_last() =~= Seq::<char>::empty());
        assert(number_of(Seq::<char>::empty()) == 0);
    } else {
        lemma_decimal(n / 10);
        let front = decimal(n / 10);
        assert(decimal(n).drop_last() =~= front);
        assert(n == (n / 10) * 10 + n % 10);
        assert forall|i: int| 0 <= i < decimal(n).len() implies '0' <= #[trigger] decimal(n)[i]
            <= '9' by {
            if i < front.len() {
                assert(decimal(n)[i] == front[i]);
            }
        }
    }
}

/// A number is written in digits, without zeros in front, and read back as itself.
pub proof fn law_written_numbers_are_read_back(n: nat, limit: nat)
    ensures
        all_digits(decimal(n)),
        number_of(decimal(n)) == n,
        decimal(n).len() > 1 ==> decimal(n)[0] != '0',
        n <= limit ==> unsigned_of(decimal(n), limit) == Ok::<nat, NumberError>(n),
    decreases n,
{
    lemma_decimal(n);
    law_numbers_are_read(decimal(n), limit);
    if n >= 10 {
        law_written_numbers_are_read_back(n / 10, limit);
        lemma_decimal(n / 10);
        assert(decimal(n)[0] == decimal(n / 10)[0]);
        if n / 10 < 10 {
            assert(0 < n / 10 < 10);
            assert(decimal(n / 10)[0] as int == 48 + n / 10);
        } else {
            lemma_decimal(n / 10 / 10);
            assert(decimal(n / 10).len() > 1);
        }
    }
}

/// A number with a sign is read back as itself.
pub proof fn law_written_signed_numbers_are_read_back(n: i64)
    ensures
        signed_of(decimal_int(n as int)) == Ok::<int, NumberError>(n as int),
{
    let size = (if n < 0 {
        -(n as int)
    } else {
        n as int
    }) as nat;
    lemma_decimal(size);
    law_signed_numbers_are_read(decimal(size));
}

/// Only capital letters become small ones, and only small ones capital, each in its
/// place.
pub proof fn law_letters_change_case(s: Seq<char>, i: int)
    requires
        0 <= i < s.len(),
    ensures
        lower_of(s).len() == s.len(),
        upper_of(s).len() == s.len(),
        'A' <= s[i] <= 'Z' ==> lower_of(s)[i] as int - 'a' as int == s[i] as int - 'A' as int,
        !('A' <= s[i] <= 'Z') ==> lower_of(s)[i] == s[i],
        'a' <= s[i] <= 'z' ==> upper_of(s)[i] as int - 'A' as int == s[i] as int - 'a' as int,
        !('a' <= s[i] <= 'z') ==> upper_of(s)[i] == s[i],
{
}

/// Texts are ordered by the first character in which they differ; one that ends there
/// comes first.
pub proof fn law_first_difference_orders(a: Seq<char>, b: Seq<char>, n: int)
    requires
        0 <= n <= a.len(),
        n <= b.len(),
        a.take(n) == b.take(n),
        n == a.len() || n == b.len() || a[n] != b[n],
    ensures
        lex_less(a, b) <==> n < b.len() && (n == a.len() || a[n] < b[n]),
    decreases n,
{
    if n > 0 {
        assert(a.take(n)[0] == b.take(n)[0]);
        assert(a.skip(1).take(n - 1) =~= a.take(n).skip(1));
        assert(b.skip(1).take(n - 1) =~= b.take(n).skip(1));
        assert(a[0] == b[0]) by {
            assert(a[0] == a.take(n)[0] && b[0] == b.take(n)[0]);
        }
        law_first_difference_orders(a.skip(1), b.skip(1), n - 1);
    }
}

} // verus!
