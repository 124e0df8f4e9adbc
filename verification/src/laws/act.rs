//! What variables do to arguments, and how a request to act goes on.
use crate::act::{
    failure, heal_command, heal_notes, retried, second_command, substituted, success, token,
    Attempt,
};
use crate::logging::{plain_note, LogLevel};
use crate::text::{
    begins_with, has_text, is_blank, is_white_space, lower_of, replaced, trim_end_of, trim_of,
    trim_start_of,
};
use crate::types::page::FoundModel;
use vstd::prelude::*;
use vstd::string::*;

verus! {

/// Whether a text has no percent sign.
pub open spec fn is_free(text: Seq<char>) -> bool {
    !text.contains('%')
}

/// Tokens with the text behind each, where the tokens of the variables `done` have
/// given way to their values.
pub open spec fn tokens_text(
    parts: Seq<(Seq<char>, Seq<char>)>,
    done: Seq<Seq<char>>,
    values: Map<Seq<char>, Seq<char>>,
) -> Seq<char>
    decreases parts.len(),
{
    if parts.len() == 0 {
        seq![]
    } else {
        (if done.contains(parts[0].0) {
            values[parts[0].0]
        } else {
            seq!['%'] + parts[0].0 + seq!['%']
        }) + parts[0].1 + tokens_text(parts.skip(1), done, values)
    }
}

/// The text between two tokens, where all tokens between them have given way to
/// their values.
pub open spec fn between(
    parts: Seq<(Seq<char>, Seq<char>)>,
    i: int,
    j: int,
    values: Map<Seq<char>, Seq<char>>,
) -> Seq<char>
    decreases j - i,
{
    if i >= j {
        parts[i].1
    } else {
        parts[i].1 + values[parts[i + 1].0] + between(parts, i + 1, j, values)
    }
}

/// Whether no text between two tokens reads like a token of its own, neither as it
/// stands nor with values put in.
pub open spec fn keeps_apart(
    parts: Seq<(Seq<char>, Seq<char>)>,
    names: Seq<Seq<char>>,
    values: Map<Seq<char>, Seq<char>>,
) -> bool {
    forall|i: int, j: int|
        0 <= i <= j < parts.len() - 1 && (forall|m: int|
            i < m <= j ==> names.contains((#[trigger] parts[m]).0)) ==> !names.contains(
            #[trigger] between(parts, i, j, values),
        )
}

/// Whether no name, value or text in or between the tokens has a percent sign.
pub open spec fn all_free(
    parts: Seq<(Seq<char>, Seq<char>)>,
    names: Seq<Seq<char>>,
    values: Map<Seq<char>, Seq<char>>,
) -> bool {
    &&& forall|i: int|
        0 <= i < parts.len() ==> is_free((#[trigger] parts[i]).0) && is_free(parts[i].1)
    &&& forall|i: int|
        0 <= i < names.len() ==> is_free(#[trigger] names[i]) && is_free(values[names[i]])
}

proof fn lemma_free_front(front: Seq<char>, back: Seq<char>, name: Seq<char>, value: Seq<char>)
    requires
        is_free(front),
    ensures
        replaced(front + back, token(name), value) == front + replaced(back, token(name), value),
    decreases front.len(),
{
    let text = front + back;
    if front.len() == 0 {
        assert(text =~= back);
        assert(front + replaced(back, token(name), value) =~= replaced(back, token(name), value));
    } else {
        let rest = front.skip(1);
        assert(front.contains(front[0]));
        assert forall|i: int| 0 <= i < rest.len() implies rest[i] != '%' by {
            assert(front.contains(front[i + 1]));
        }
        lemma_free_front(rest, back, name, value);
        assert(text.skip(1) =~= rest + back);
        if begins_with(text, token(name)) {
            assert(text.take(token(name).len() as int)[0] == token(name)[0]);
        }
        assert(replaced(text, token(name), value) =~= front + replaced(back, token(name), value));
    }
}

proof fn lemma_other_token(
    other: Seq<char>,
    run: Seq<char>,
    rest: Seq<char>,
    name: Seq<char>,
    value: Seq<char>,
)
    requires
        is_free(other),
        is_free(run),
        is_free(name),
        other != name,
        rest.len() == 0 || (rest[0] == '%' && run != name),
    ensures
        replaced(token(other) + (run + rest), token(name), value) == token(other) + replaced(
            run + rest,
            token(name),
            value,
        ),
{
    let behind = run + rest;
    let whole = token(other) + behind;
    let wanted = token(name);
    if begins_with(whole, wanted) {
        let front = whole.take(wanted.len() as int);
        assert(front == wanted);
        if name.len() < other.len() {
            assert(front[name.len() as int + 1] == wanted[name.len() as int + 1]);
            assert(whole[name.len() as int + 1] == other[name.len() as int]);
            assert(other.contains(other[name.len() as int]));
        } else if name.len() > other.len() {
            assert(front[other.len() as int + 1] == wanted[other.len() as int + 1]);
            assert(whole[other.len() as int + 1] == '%');
            assert(wanted[other.len() as int + 1] == name[other.len() as int]);
            assert(name.contains(name[other.len() as int]));
        } else {
            assert forall|i: int| 0 <= i < name.len() implies name[i] == other[i] by {
                assert(front[i + 1] == wanted[i + 1]);
            }
            assert(name =~= other);
        }
    }
    let second = seq!['%'] + behind;
    assert(whole.skip(1) =~= other + second);
    lemma_free_front(other, second, name, value);
    if begins_with(second, wanted) {
        let front = second.take(wanted.len() as int);
        assert(front == wanted);
        assert(front[name.len() as int + 1] == '%');
        assert(second[name.len() as int + 1] == behind[name.len() as int]);
        if name.len() < run.len() {
            assert(run.contains(run[name.len() as int]));
        } else if name.len() > run.len() {
            assert(front[run.len() as int + 1] == wanted[run.len() as int + 1]);
            assert(wanted[run.len() as int + 1] == name[run.len() as int]);
            assert(name.contains(name[run.len() as int]));
        } else {
            assert forall|i: int| 0 <= i < name.len() implies name[i] == run[i] by {
                assert(front[i + 1] == wanted[i + 1]);
            }
            assert(name =~= run);
        }
    }
    assert(second.skip(1) =~= behind);
    assert(whole[0] == '%');
    assert(replaced(whole, wanted, value) =~= token(other) + replaced(behind, wanted, value));
}

/// The text behind the first token, up to the next one that has not given way.
spec fn run_of(
    parts: Seq<(Seq<char>, Seq<char>)>,
    done: Seq<Seq<char>>,
    values: Map<Seq<char>, Seq<char>>,
) -> Seq<char>
    decreases parts.len(),
{
    if parts.len() > 1 && done.contains(parts[1].0) {
        parts[0].1 + values[parts[1].0] + run_of(parts.skip(1), done, values)
    } else {
        parts[0].1
    }
}

/// What stands behind that text.
spec fn rest_of(
    parts: Seq<(Seq<char>, Seq<char>)>,
    done: Seq<Seq<char>>,
    values: Map<Seq<char>, Seq<char>>,
) -> Seq<char>
    decreases parts.len(),
{
    if parts.len() > 1 && done.contains(parts[1].0) {
        rest_of(parts.skip(1), done, values)
    } else {
        tokens_text(parts.skip(1), done, values)
    }
}

proof fn lemma_between_behind(
    parts: Seq<(Seq<char>, Seq<char>)>,
    i: int,
    j: int,
    values: Map<Seq<char>, Seq<char>>,
)
    requires
        0 <= i <= j < parts.len() - 1,
    ensures
        between(parts.skip(1), i, j, values) == between(parts, i + 1, j + 1, values),
    decreases j - i,
{
    if i < j {
        lemma_between_behind(parts, i + 1, j, values);
    }
}

proof fn lemma_run(
    parts: Seq<(Seq<char>, Seq<char>)>,
    done: Seq<Seq<char>>,
    names: Seq<Seq<char>>,
    values: Map<Seq<char>, Seq<char>>,
) -> (j: int)
    requires
        parts.len() > 0,
        all_free(parts, names, values),
        forall|i: int| 0 <= i < done.len() ==> names.contains(#[trigger] done[i]),
    ensures
        0 <= j < parts.len(),
        run_of(parts, done, values) == between(parts, 0, j, values),
        forall|m: int| 0 < m <= j ==> names.contains((#[trigger] parts[m]).0),
        is_free(run_of(parts, done, values)),
        rest_of(parts, done, values).len() > 0 ==> j < parts.len() - 1,
        rest_of(parts, done, values).len() > 0 ==> rest_of(parts, done, values)[0] == '%',
        parts[0].1 + tokens_text(parts.skip(1), done, values) == run_of(parts, done, values)
            + rest_of(parts, done, values),
    decreases parts.len(),
{
    let rest = parts.skip(1);
    assert(is_free(parts[0].1));
    if parts.len() > 1 && done.contains(parts[1].0) {
        assert forall|i: int| 0 <= i < rest.len() implies is_free((#[trigger] rest[i]).0)
            && is_free(rest[i].1) by {
            assert(rest[i] == parts[i + 1]);
        }
        let k = lemma_run(rest, done, names, values);
        lemma_between_behind(parts, 0, k, values);
        let name = parts[1].0;
        assert(names.contains(name));
        let value = values[name];
        assert(is_free(value)) by {
            let n = choose|n: int| 0 <= n < names.len() && names[n] == name;
            assert(is_free(values[names[n]]));
        }
        assert forall|m: int| 0 < m <= k + 1 implies names.contains((#[trigger] parts[m]).0) by {
            if m > 1 {
                assert(rest[m - 1] == parts[m]);
            }
        }
        lemma_free_sum(parts[0].1, value);
        lemma_free_sum(parts[0].1 + value, run_of(rest, done, values));
        assert(parts[0].1 + tokens_text(rest, done, values) =~= (parts[0].1 + value) + (rest[0].1
            + tokens_text(rest.skip(1), done, values)));
        assert(parts[0].1 + tokens_text(rest, done, values) =~= run_of(parts, done, values)
            + rest_of(parts, done, values));
        k + 1
    } else {
        let text = tokens_text(rest, done, values);
        if rest.len() > 0 {
            assert(rest[0] == parts[1]);
            assert(text[0] == '%');
        }
        0
    }
}

proof fn lemma_free_sum(a: Seq<char>, b: Seq<char>)
    requires
        is_free(a),
        is_free(b),
    ensures
        is_free(a + b),
{
    assert forall|i: int| 0 <= i < (a + b).len() implies (a + b)[i] != '%' by {
        if i < a.len() {
            assert(a.contains(a[i]));
        } else {
            assert(b.contains(b[i - a.len()]));
        }
    }
}

proof fn lemma_one_name(
    parts: Seq<(Seq<char>, Seq<char>)>,
    done: Seq<Seq<char>>,
    name: Seq<char>,
    names: Seq<Seq<char>>,
    values: Map<Seq<char>, Seq<char>>,
)
    requires
        all_free(parts, names, values),
        keeps_apart(parts, names, values),
        names.contains(name),
        forall|i: int| 0 <= i < done.len() ==> names.contains(#[trigger] done[i]),
    ensures
        replaced(tokens_text(parts, done, values), token(name), values[name]) == tokens_text(
            parts,
            done.push(name),
            values,
        ),
    decreases parts.len(),
{
    let before = tokens_text(parts, done, values);
    let value = values[name];
    let wanted = token(name);
    if parts.len() > 0 {
        let rest = parts.skip(1);
        let first = parts[0].0;
        let piece = parts[0].1;
        let behind = tokens_text(rest, done, values);
        let after = tokens_text(rest, done.push(name), values);
        assert forall|i: int| 0 <= i < rest.len() implies is_free((#[trigger] rest[i]).0)
            && is_free(rest[i].1) by {
            assert(rest[i] == parts[i + 1]);
        }
        assert(keeps_apart(rest, names, values)) by {
            assert forall|i: int, j: int|
                0 <= i <= j < rest.len() - 1 && (forall|m: int|
                    i < m <= j ==> names.contains(
                        (#[trigger] rest[m]).0,
                    )) implies !names.contains(#[trigger] between(rest, i, j, values)) by {
                lemma_between_behind(parts, i, j, values);
                assert forall|m: int| i + 1 < m <= j + 1 implies names.contains(
                    (#[trigger] parts[m]).0,
                ) by {
                    assert(rest[m - 1] == parts[m]);
                }
                assert(!names.contains(between(parts, i + 1, j + 1, values)));
            }
        }
        lemma_one_name(rest, done, name, names, values);
        assert(is_free(parts[0].1) && is_free(parts[0].0));
        lemma_free_front(piece, behind, name, value);
        assert(done.push(name).contains(first) <==> done.contains(first) || first == name) by {
            if done.contains(first) {
                let n = choose|n: int| 0 <= n < done.len() && done[n] == first;
                assert(done.push(name)[n] == first);
            }
            assert(done.push(name)[done.len() as int] == name);
        }
        let shown = if done.contains(first) {
            values[first]
        } else {
            token(first)
        };
        assert(before =~= shown + (piece + behind));
        if done.contains(first) {
            assert(names.contains(first));
            let n = choose|n: int| 0 <= n < names.len() && names[n] == first;
            assert(is_free(values[names[n]]));
            lemma_free_front(shown, piece + behind, name, value);
            assert(tokens_text(parts, done.push(name), values) =~= shown + (piece + after));
        } else if first == name {
            assert((wanted + (piece + behind)).take(wanted.len() as int) =~= wanted);
            assert((wanted + (piece + behind)).skip(wanted.len() as int) =~= piece + behind);
            assert(tokens_text(parts, done.push(name), values) =~= value + (piece + after));
        } else {
            let j = lemma_run(parts, done, names, values);
            let run = run_of(parts, done, values);
            let tail = rest_of(parts, done, values);
            if tail.len() > 0 {
                assert(!names.contains(between(parts, 0, j, values)));
            }
            let n = choose|n: int| 0 <= n < names.len() && names[n] == name;
            assert(is_free(names[n]));
            lemma_other_token(first, run, tail, name, value);
            assert(tokens_text(parts, done.push(name), values) =~= shown + (piece + after));
        }
    }
}

/// In an argument made of tokens and text between them, without other percent signs,
/// every token of a variable gives way to the value of that variable, wherever it
/// stands and whatever other tokens there are; tokens of other names and all text
/// stay. Left out are arguments in which the text between two tokens reads like a
/// token itself.
pub proof fn law_every_token_gives_way(
    lead: Seq<char>,
    parts: Seq<(Seq<char>, Seq<char>)>,
    names: Seq<Seq<char>>,
    values: Map<Seq<char>, Seq<char>>,
)
    requires
        is_free(lead),
        all_free(parts, names, values),
        keeps_apart(parts, names, values),
    ensures
        substituted(lead + tokens_text(parts, seq![], values), names, values) == lead
            + tokens_text(parts, names, values),
    decreases names.len(),
{
    let argument = lead + tokens_text(parts, seq![], values);
    if names.len() == 0 {
        assert(names =~= Seq::<Seq<char>>::empty());
    } else {
        let fewer = names.drop_last();
        let name = names.last();
        assert forall|i: int| 0 <= i < fewer.len() implies is_free(#[trigger] fewer[i])
            && is_free(values[fewer[i]]) by {
            assert(names[i] == fewer[i]);
        }
        assert forall|some: Seq<char>| #[trigger] fewer.contains(some) implies names.contains(
            some,
        ) by {
            let n = choose|n: int| 0 <= n < fewer.len() && fewer[n] == some;
            assert(names[n] == some);
        }
        assert(keeps_apart(parts, fewer, values)) by {
            assert forall|i: int, j: int|
                0 <= i <= j < parts.len() - 1 && (forall|m: int|
                    i < m <= j ==> fewer.contains(
                        (#[trigger] parts[m]).0,
                    )) implies !fewer.contains(#[trigger] between(parts, i, j, values)) by {
                assert forall|m: int| i < m <= j implies names.contains(
                    (#[trigger] parts[m]).0,
                ) by {}
                assert(!names.contains(between(parts, i, j, values)));
            }
        }
        law_every_token_gives_way(lead, parts, fewer, values);
        assert forall|i: int| 0 <= i < fewer.len() implies names.contains(#[trigger] fewer[i]) by {
            assert(fewer.contains(fewer[i]));
        }
        assert(names.contains(name)) by {
            assert(names[names.len() - 1] == name);
        }
        lemma_one_name(parts, fewer, name, names, values);
        lemma_free_front(lead, tokens_text(parts, fewer, values), name, values[name]);
        assert(fewer.push(name) =~= names);
    }
}

proof fn lemma_filled_is_free(
    parts: Seq<(Seq<char>, Seq<char>)>,
    names: Seq<Seq<char>>,
    values: Map<Seq<char>, Seq<char>>,
)
    requires
        all_free(parts, names, values),
        forall|i: int| 0 <= i < parts.len() ==> names.contains((#[trigger] parts[i]).0),
    ensures
        is_free(tokens_text(parts, names, values)),
    decreases parts.len(),
{
    if parts.len() > 0 {
        let rest = parts.skip(1);
        assert forall|i: int| 0 <= i < rest.len() implies is_free((#[trigger] rest[i]).0)
            && is_free(rest[i].1) && names.contains(rest[i].0) by {
            assert(rest[i] == parts[i + 1]);
        }
        lemma_filled_is_free(rest, names, values);
        assert(names.contains(parts[0].0));
        let n = choose|n: int| 0 <= n < names.len() && names[n] == parts[0].0;
        assert(is_free(values[names[n]]));
        lemma_free_sum(values[parts[0].0], parts[0].1);
        lemma_free_sum(values[parts[0].0] + parts[0].1, tokens_text(rest, names, values));
    }
}

/// Where every token of such an argument is that of a variable, none is left: the
/// token of no name stands in the result.
pub proof fn law_no_token_is_left(
    lead: Seq<char>,
    parts: Seq<(Seq<char>, Seq<char>)>,
    names: Seq<Seq<char>>,
    values: Map<Seq<char>, Seq<char>>,
    name: Seq<char>,
)
    requires
        is_free(lead),
        all_free(parts, names, values),
        keeps_apart(parts, names, values),
        forall|i: int| 0 <= i < parts.len() ==> names.contains((#[trigger] parts[i]).0),
    ensures
        !has_text(
            substituted(lead + tokens_text(parts, seq![], values), names, values),
            seq!['%'] + name + seq!['%'],
        ),
{
    law_every_token_gives_way(lead, parts, names, values);
    lemma_filled_is_free(parts, names, values);
    let text = lead + tokens_text(parts, names, values);
    lemma_free_sum(lead, tokens_text(parts, names, values));
    let wanted = seq!['%'] + name + seq!['%'];
    if has_text(text, wanted) {
        let i = choose|i: int| 0 <= i <= text.len() && begins_with(#[trigger] text.skip(i), wanted);
        assert(text.skip(i).take(wanted.len() as int)[0] == '%');
        assert(text.contains(text[i]));
    }
}

/// An argument with two tokens becomes the argument with both values: none is left
/// because the other was put in. Left out is only that the text between the tokens is
/// itself the name of a variable.
pub proof fn law_both_tokens_give_way(
    before: Seq<char>,
    first: Seq<char>,
    middle: Seq<char>,
    second: Seq<char>,
    after: Seq<char>,
    names: Seq<Seq<char>>,
    values: Map<Seq<char>, Seq<char>>,
)
    requires
        is_free(before) && is_free(middle) && is_free(after),
        forall|i: int|
            0 <= i < names.len() ==> is_free(#[trigger] names[i]) && is_free(values[names[i]]),
        names.contains(first),
        names.contains(second),
        !names.contains(middle),
    ensures
        substituted(
            before + (seq!['%'] + first + seq!['%']) + middle + (seq!['%'] + second + seq!['%'])
                + after,
            names,
            values,
        ) == before + values[first] + middle + values[second] + after,
{
    let parts = seq![(first, middle), (second, after)];
    let n = choose|n: int| 0 <= n < names.len() && names[n] == first;
    let k = choose|k: int| 0 <= k < names.len() && names[k] == second;
    assert(is_free(names[n]) && is_free(names[k]));
    assert(keeps_apart(parts, names, values)) by {
        assert forall|i: int, j: int|
            0 <= i <= j < parts.len() - 1 && (forall|m: int|
                i < m <= j ==> names.contains((#[trigger] parts[m]).0)) implies !names.contains(
            #[trigger] between(parts, i, j, values),
        ) by {
            assert(between(parts, 0, 0, values) == middle);
        }
    }
    law_every_token_gives_way(before, parts, names, values);
    reveal_with_fuel(tokens_text, 3);
    assert(parts.skip(1)[0] == (second, after));
    assert(parts.skip(1).skip(1).len() == 0);
    assert(before + tokens_text(parts, seq![], values) =~= before + (seq!['%'] + first + seq!['%'])
        + middle + (seq!['%'] + second + seq!['%']) + after);
    assert(before + tokens_text(parts, names, values) =~= before + values[first] + middle
        + values[second] + after);
}

/// An argument without percent signs stays as it is.
pub proof fn law_free_argument_stays(
    argument: Seq<char>,
    names: Seq<Seq<char>>,
    values: Map<Seq<char>, Seq<char>>,
)
    requires
        is_free(argument),
    ensures
        substituted(argument, names, values) == argument,
    decreases names.len(),
{
    if names.len() > 0 {
        law_free_argument_stays(argument, names.drop_last(), values);
        let name = names.last();
        lemma_free_front(argument, seq![], name, values[name]);
        assert(argument + Seq::<char>::empty() =~= argument);
    }
}

proof fn lemma_trimmed_start(text: Seq<char>)
    ensures
        trim_start_of(text).len() > 0 ==> !is_white_space(trim_start_of(text).first()),
    decreases text.len(),
{
    if text.len() > 0 && is_white_space(text.first()) {
        lemma_trimmed_start(text.drop_first());
    }
}

proof fn lemma_trimmed_end(text: Seq<char>)
    ensures
        trim_end_of(text).len() > 0 ==> !is_white_space(trim_end_of(text).last())
            && trim_end_of(text).first() == text.first(),
    decreases text.len(),
{
    if text.len() > 0 && is_white_space(text.last()) {
        lemma_trimmed_end(text.drop_last());
        if trim_end_of(text).len() > 0 {
            assert(text.drop_last().len() > 0) by {
                if text.drop_last().len() == 0 {
                    assert(trim_end_of(text.drop_last()).len() == 0);
                }
            }
        }
    }
}

proof fn lemma_trimmed_ends(text: Seq<char>)
    ensures
        trim_of(text).len() > 0 ==> !is_white_space(trim_of(text).first()) && !is_white_space(
            trim_of(text).last(),
        ),
{
    lemma_trimmed_start(text);
    lemma_trimmed_end(trim_start_of(text));
    if trim_of(text).len() > 0 && trim_start_of(text).len() == 0 {
        assert(trim_end_of(trim_start_of(text)).len() == 0);
    }
}

/// The command after a failure is the description, or the method with the description
/// behind it where the description does not already begin with the method. Where one
/// of them is blank it is the other, and there is none where both are.
pub proof fn law_heal_command(found: FoundModel)
    ensures
        ({
            let description = trim_of(found.description);
            let method = trim_of(
                match found.method {
                    Some(method) => method,
                    None => seq![],
                },
            );
            &&& method.len() == 0 && description.len() == 0 <==> heal_command(found) is None
            &&& method.len() == 0 && description.len() > 0 ==> heal_command(found) == Some(
                description,
            )
            &&& method.len() > 0 && description.len() > 0 && begins_with(
                lower_of(description),
                lower_of(method),
            ) ==> heal_command(found) == Some(description)
            &&& method.len() > 0 && description.len() > 0 && !begins_with(
                lower_of(description),
                lower_of(method),
            ) ==> heal_command(found) == Some(method + seq![' '] + description)
            &&& method.len() > 0 && description.len() == 0 ==> heal_command(found) == Some(method)
        }),
{
    let description = trim_of(found.description);
    let raw = match found.method {
        Some(method) => method,
        None => seq![],
    };
    let method = trim_of(raw);
    lemma_trimmed_ends(found.description);
    lemma_trimmed_ends(raw);
    let both = method + seq![' '] + description;
    if method.len() > 0 && description.len() > 0 {
        assert(both.first() == method.first());
        assert(both.last() == description.last());
        assert(trim_start_of(both) == both);
        assert(trim_end_of(both) == both);
    } else if method.len() > 0 {
        assert(both =~= method.push(' '));
        assert(both.first() == method.first());
        assert(trim_start_of(both) == both);
        assert(both.drop_last() =~= method);
        assert(is_white_space(' '));
        assert(trim_end_of(both) == trim_end_of(method));
        assert(trim_end_of(method) == method);
    }
}

/// A failed first attempt is followed by a second one whenever that is allowed and a
/// command can be made that is not the action asked for; the second attempt asks for
/// that command and keeps the action asked for.
pub proof fn law_failure_is_tried_again(attempt: Attempt, found: FoundModel, command: Seq<char>)
    requires
        attempt.self_heal,
        attempt.failed == 0,
        heal_command(found) == Some(command),
        lower_of(trim_of(command)) != lower_of(trim_of(attempt.original)),
    ensures
        second_command(attempt, found) == Some(command),
        retried(attempt, command).current == command,
        retried(attempt, command).original == attempt.original,
        retried(attempt, command).failed == 1,
        retried(attempt, command).self_heal,
        retried(attempt, command).healed,
        heal_notes(attempt, found) == seq![
            plain_note(
                LogLevel::Info,
                "act"@,
                "Attempting self-heal with command: '"@ + command + "'"@,
            ),
        ],
{
}

/// No second attempt follows where none is allowed, where one has failed before, where
/// no command can be made, and where the command is the action asked for, in small or
/// capital letters.
pub proof fn law_nothing_is_tried_for_nothing(attempt: Attempt, found: FoundModel)
    ensures
        !attempt.self_heal ==> second_command(attempt, found) is None,
        attempt.failed > 0 ==> second_command(attempt, found) is None,
        heal_command(found) is None ==> second_command(attempt, found) is None,
        (heal_command(found) matches Some(command) && lower_of(trim_of(command)) == lower_of(
            trim_of(attempt.original),
        )) ==> second_command(attempt, found) is None,
{
}

/// Nothing is logged of a second attempt where none is allowed; where none can be
/// made, the reason is.
pub proof fn law_given_up_attempts_are_logged(attempt: Attempt, found: FoundModel)
    ensures
        !attempt.self_heal || attempt.failed > 0 ==> heal_notes(attempt, found).len() == 0,
        attempt.self_heal && attempt.failed == 0 && heal_command(found) is None ==> heal_notes(
            attempt,
            found,
        ) == seq![
            plain_note(
                LogLevel::Error,
                "act"@,
                "Self-heal attempt aborted: could not construct a fallback command"@,
            ),
        ],
        attempt.self_heal && attempt.failed == 0 && (heal_command(found) matches Some(command)
            && lower_of(trim_of(command)) == lower_of(trim_of(attempt.original))) ==> heal_notes(
            attempt,
            found,
        ) == seq![
            plain_note(
                LogLevel::Error,
                "act"@,
                "Self-heal attempt aborted: fallback command matches original action"@,
            ),
        ],
{
}

/// A request that went well says what was done to which element; one that failed says
/// why, and names the action asked for.
pub proof fn law_results_say_what_happened(attempt: Attempt, found: FoundModel, why: Seq<char>)
    ensures
        !failure(attempt, why).success,
        failure(attempt, why).message == "Failed to perform act: "@ + why,
        failure(attempt, why).action == attempt.original,
        success(found).success,
        found.method matches Some(method) ==> success(found).message == "Action ["@ + method
            + "] performed successfully on selector: "@ + found.selector,
        found.method is None ==> success(found).message == "Action ["@ + "unknown"@
            + "] performed successfully on selector: "@ + found.selector,
        !is_blank(found.description) ==> success(found).action == found.description,
        is_blank(found.description) ==> success(found).action == "observe action"@,
{
}

} // verus!
