//! What the listings of sessions and panes promise, in terms of what zellij printed.
use crate::json::{json_document, node_model, value_model, Json, JsonModel, JsonNode};
use crate::number::{decimal_spec, parse_u64_spec, NumberError};
use crate::panes::{
    entry_is, law_pane_id_names_its_pane, listing_shows, or_false, pane_id, pane_id_text,
    pane_is_listed, pane_named, pane_of, panes_of, parse_pane, parse_pane_id, parse_panes,
};
use crate::schema::{outcome, PaneSummary, SessionModel, SessionSummary};
use crate::sessions::{
    age_component, age_seconds, age_sum, age_unit, is_blank, parse_age_seconds,
    parse_session_line, parse_sessions, session_line, session_lines, sessions_of, sessions_on,
    total_seconds,
};
use crate::text::{
    is_whitespace, lines_spec, split_once_spec, strip_prefix_spec,
    strip_suffix_spec, trim_spec, words_spec,
};
use crate::text_laws::{
    all_space, law_contains_is_being_a_part, law_lines_end_at_line_feeds,
    law_split_is_around_the_leftmost, law_strip_prefix_undoes_prefixing,
    law_strip_suffix_undoes_suffixing, law_trim_takes_whitespace_from_the_ends,
    law_words_end_at_whitespace,
};
use vstd::prelude::*;

verus! {

/// Whether `line` holds no line feed.
pub open spec fn one_line(line: Seq<char>) -> bool {
    forall|i: int| 0 <= i < line.len() ==> #[trigger] line[i] != '\n'
}

/// `first` and then the sessions of `rest`.
pub open spec fn session_then(
    first: Result<SessionModel, Seq<char>>,
    rest: Result<Seq<SessionModel>, Seq<char>>,
) -> Result<Seq<SessionModel>, Seq<char>> {
    match (first, rest) {
        (Err(e), _) => Err(e),
        (Ok(_), Err(e)) => Err(e),
        (Ok(session), Ok(sessions)) => Ok(seq![session] + sessions),
    }
}

proof fn lemma_filter_cons(x: Seq<char>, s: Seq<Seq<char>>, p: spec_fn(Seq<char>) -> bool)
    ensures
        (seq![x] + s).filter(p) == if p(x) {
            seq![x] + s.filter(p)
        } else {
            s.filter(p)
        },
    decreases s.len(),
{
    reveal(Seq::filter);
    let whole = seq![x] + s;
    if s.len() == 0 {
        assert(whole.drop_last() =~= Seq::<Seq<char>>::empty());
        assert(Seq::<Seq<char>>::empty().filter(p) =~= Seq::<Seq<char>>::empty());
        assert(s.filter(p) =~= Seq::<Seq<char>>::empty());
        assert(whole.last() == x);
        assert(whole.filter(p) =~= if p(x) {
            seq![x] + s.filter(p)
        } else {
            s.filter(p)
        });
    } else {
        lemma_filter_cons(x, s.drop_last(), p);
        assert(whole.drop_last() =~= seq![x] + s.drop_last());
        assert(whole.last() == s.last());
        if p(x) && p(s.last()) {
            assert((seq![x] + s.drop_last().filter(p)).push(s.last()) =~= seq![x]
                + s.drop_last().filter(p).push(s.last()));
        }
    }
}

proof fn lemma_sessions_cons(line: Seq<char>, lines: Seq<Seq<char>>)
    ensures
        sessions_on(seq![line] + lines) == session_then(session_line(line), sessions_on(lines)),
    decreases lines.len(),
{
    let whole = seq![line] + lines;
    if lines.len() == 0 {
        assert(whole.drop_last() =~= Seq::<Seq<char>>::empty());
        assert(whole.last() == line);
        reveal_with_fuel(sessions_on, 2);
        if let Ok(session) = session_line(line) {
            assert(Seq::<SessionModel>::empty().push(session) =~= seq![session] + Seq::<
                SessionModel,
            >::empty());
        }
    } else {
        lemma_sessions_cons(line, lines.drop_last());
        assert(whole.drop_last() =~= seq![line] + lines.drop_last());
        assert(whole.last() == lines.last());
        if let Ok(first) = session_line(line) {
            if let Ok(sessions) = sessions_on(lines.drop_last()) {
                if let Ok(last) = session_line(lines.last()) {
                    assert((seq![first] + sessions).push(last) =~= seq![first] + sessions.push(
                        last,
                    ));
                }
            }
        }
    }
}

proof fn lemma_first_line(line: Seq<char>, rest: Seq<char>, raw: Seq<char>)
    requires
        lines_spec(raw) == seq![line] + lines_spec(rest),
    ensures
        sessions_of(raw) == if all_space(line) {
            sessions_of(rest)
        } else {
            session_then(session_line(line), sessions_of(rest))
        },
{
    let p = |line: Seq<char>| !is_blank(line);
    law_trim_takes_whitespace_from_the_ends(line);
    lemma_filter_cons(line, lines_spec(rest), p);
    assert(session_lines(raw) == lines_spec(raw).filter(p));
    assert(session_lines(rest) == lines_spec(rest).filter(p));
    lemma_sessions_cons(line, session_lines(rest));
}

/// A listing is read line by line. A first line that is all whitespace is passed over; any
/// other gives its session before those of the lines after its line feed, and an error of its
/// own before theirs.
pub proof fn law_listing_is_read_line_by_line(line: Seq<char>, rest: Seq<char>)
    requires
        one_line(line),
    ensures
        sessions_of(line) == if all_space(line) {
            Ok::<Seq<SessionModel>, Seq<char>>(seq![])
        } else {
            session_then(session_line(line), Ok(seq![]))
        },
        sessions_of(line + seq!['\r', '\n'] + rest) == if all_space(line) {
            sessions_of(rest)
        } else {
            session_then(session_line(line), sessions_of(rest))
        },
        line.len() == 0 || line.last() != '\r' ==> sessions_of(line + seq!['\n'] + rest)
            == if all_space(line) {
            sessions_of(rest)
        } else {
            session_then(session_line(line), sessions_of(rest))
        },
{
    law_lines_end_at_line_feeds(line, rest);
    lemma_first_line(line, rest, line + seq!['\r', '\n'] + rest);
    if line.len() == 0 || line.last() != '\r' {
        lemma_first_line(line, rest, line + seq!['\n'] + rest);
    }
    let empty = Seq::<char>::empty();
    law_lines_end_at_line_feeds(empty, empty);
    reveal(Seq::filter);
    assert(session_lines(empty) =~= Seq::<Seq<char>>::empty());
    assert(sessions_of(empty) == Ok::<Seq<SessionModel>, Seq<char>>(seq![]));
    if line.len() > 0 {
        assert(lines_spec(line) =~= seq![line] + lines_spec(empty));
        lemma_first_line(line, empty, line);
    } else {
        assert(line =~= empty);
    }
}

/// Two lines that each hold more than whitespace give two sessions.
pub proof fn law_no_session_is_left_out(
    a: Seq<char>,
    b: Seq<char>,
    x: SessionModel,
    y: SessionModel,
)
    requires
        one_line(a),
        one_line(b),
        !all_space(a),
        !all_space(b),
        a.last() != '\r',
        session_line(a) == Ok::<SessionModel, Seq<char>>(x),
        session_line(b) == Ok::<SessionModel, Seq<char>>(y),
    ensures
        sessions_of(a + seq!['\n'] + b) == Ok::<Seq<SessionModel>, Seq<char>>(seq![x, y]),
{
    law_listing_is_read_line_by_line(a, b);
    law_listing_is_read_line_by_line(b, seq![]);
    assert(a.len() > 0);
    assert(seq![x] + (seq![y] + Seq::<SessionModel>::empty()) =~= seq![x, y]);
}

/// What a line says beside the age: the name before the brackets, and in the text after them
/// whether the session is current or exited.
pub open spec fn line_result(
    name: Seq<char>,
    age: Result<int, Seq<char>>,
    marks: Seq<char>,
    result: Result<SessionModel, Seq<char>>,
) -> bool {
    match age {
        Err(e) => result == Err::<SessionModel, Seq<char>>(e),
        Ok(seconds) => {
            &&& result is Ok
            &&& result->Ok_0.name == trim_spec(name)
            &&& result->Ok_0.created_age_seconds == seconds
            &&& result->Ok_0.is_attached <==> exists|l: Seq<char>, r: Seq<char>|
                marks == #[trigger] (l + "(current)"@ + r)
            &&& result->Ok_0.is_exited <==> exists|l: Seq<char>, r: Seq<char>|
                marks == #[trigger] (l + "EXITED"@ + r)
        },
    }
}

proof fn lemma_split_here(s: Seq<char>, left: Seq<char>, pattern: Seq<char>, right: Seq<char>)
    requires
        s == left + pattern + right,
        forall|other: Seq<char>, rest: Seq<char>|
            s == #[trigger] (other + pattern + rest) ==> other.len() >= left.len(),
    ensures
        split_once_spec(s, pattern) == Some((left, right)),
{
    law_split_is_around_the_leftmost(s, pattern);
    match split_once_spec(s, pattern) {
        Some((l, r)) => {
            assert(s == l + pattern + r);
            assert(l.len() == left.len());
            assert(s.take(l.len() as int) =~= l);
            assert(s.take(l.len() as int) =~= left);
            assert(s.skip(l.len() + pattern.len() as int) =~= r);
            assert(s.skip(l.len() + pattern.len() as int) =~= right);
        },
        None => {
            assert(s != left + pattern + right);
        },
    }
}

/// A line is read around its first ` [Created ` and the first closing bracket after it. What
/// stands before is the name, what stands between is the age, with or without ` ago`, and what
/// stands after says whether the session is current and whether it has exited.
pub proof fn law_session_line_parts(
    name: Seq<char>,
    created: Seq<char>,
    marks: Seq<char>,
    age: Seq<char>,
)
    requires
        forall|other: Seq<char>, rest: Seq<char>|
            name + " [Created "@ + (created + "]"@ + marks) == #[trigger] (other + " [Created "@
                + rest) ==> other.len() >= name.len(),
        !created.contains(']'),
        created == age + " ago"@ || (created == age && forall|shorter: Seq<char>|
            created != #[trigger] (shorter + " ago"@)),
    ensures
        line_result(
            name,
            age_seconds(trim_spec(age)),
            marks,
            session_line(name + " [Created "@ + (created + "]"@ + marks)),
        ),
{
    reveal_strlit("]");
    let rest = created + "]"@ + marks;
    let line = name + " [Created "@ + rest;
    lemma_split_here(line, name, " [Created "@, rest);
    assert forall|other: Seq<char>, more: Seq<char>|
        rest == #[trigger] (other + "]"@ + more) implies other.len() >= created.len() by {
        if other.len() < created.len() {
            assert(rest[other.len() as int] == ']');
            assert(created[other.len() as int] == ']');
        }
    }
    lemma_split_here(rest, created, "]"@, marks);
    law_strip_suffix_undoes_suffixing(created, " ago"@, age);
    if created != age + " ago"@ {
        if let Some(shorter) = strip_suffix_spec(created, " ago"@) {
            law_strip_suffix_undoes_suffixing(created, " ago"@, shorter);
        }
    }
    law_contains_is_being_a_part(marks, "(current)"@);
    law_contains_is_being_a_part(marks, "EXITED"@);
}

/// A line without ` [Created `, or without a closing bracket after it, is an error that quotes
/// the line.
pub proof fn law_session_line_without_brackets(
    line: Seq<char>,
    name: Seq<char>,
    rest: Seq<char>,
)
    ensures
        (forall|l: Seq<char>, r: Seq<char>| line != #[trigger] (l + " [Created "@ + r))
            ==> session_line(line) == Err::<SessionModel, Seq<char>>(
            "failed to parse session line `"@ + line + "`: missing `[Created ...]`"@,
        ),
        line == name + " [Created "@ + rest && (forall|other: Seq<char>, more: Seq<char>|
            line == #[trigger] (other + " [Created "@ + more) ==> other.len() >= name.len())
            && !rest.contains(']') ==> session_line(line) == Err::<SessionModel, Seq<char>>(
            "failed to parse session line `"@ + line + "`: missing closing `]`"@,
        ),
{
    law_split_is_around_the_leftmost(line, " [Created "@);
    if line == name + " [Created "@ + rest && (forall|other: Seq<char>, more: Seq<char>|
        line == #[trigger] (other + " [Created "@ + more) ==> other.len() >= name.len())
        && !rest.contains(']') {
        lemma_split_here(line, name, " [Created "@, rest);
        law_split_is_around_the_leftmost(rest, "]"@);
        reveal_strlit("]");
        if let Some((l, r)) = split_once_spec(rest, "]"@) {
            assert(rest[l.len() as int] == ']');
            assert(rest.contains(']'));
        }
    }
}

/// The words of a number that cannot be read.
pub open spec fn number_words(e: NumberError) -> Seq<char> {
    match e {
        NumberError::Empty => "cannot parse integer from empty string"@,
        NumberError::InvalidDigit => "invalid digit found in string"@,
        NumberError::TooLarge => "number too large to fit in target type"@,
    }
}

/// Whether `result` is what the component `part` of an age comes to, which is `number` and a
/// letter: `seconds`, unless the number cannot be read or is larger than `most`.
pub open spec fn component_result(
    number: Seq<char>,
    part: Seq<char>,
    most: int,
    seconds: int,
    result: Result<int, Seq<char>>,
) -> bool {
    match parse_u64_spec(number) {
        Err(e) => result == Err::<int, Seq<char>>(
            "invalid age component `"@ + part + "`: "@ + number_words(e),
        ),
        Ok(value) => if value > most {
            result == Err::<int, Seq<char>>("age component `"@ + part + "` overflowed"@)
        } else {
            result == Ok::<int, Seq<char>>(seconds)
        },
    }
}

/// A component of an age counts hours of 3600 seconds, minutes of 60 or seconds, as its last
/// letter says; any other last letter is an error.
pub proof fn law_age_component_counts_its_unit(number: Seq<char>, other: char)
    requires
        other != 'h' && other != 'm' && other != 's',
    ensures
        ({
            let value = parse_u64_spec(number)->Ok_0;
            &&& component_result(
                number,
                number.push('h'),
                u64::MAX as int / 3600,
                3600 * value,
                age_component(number.push('h')),
            )
            &&& component_result(
                number,
                number.push('m'),
                u64::MAX as int / 60,
                60 * value,
                age_component(number.push('m')),
            )
            &&& component_result(
                number,
                number.push('s'),
                u64::MAX as int,
                value,
                age_component(number.push('s')),
            )
        }),
        age_component(number.push(other)) == Err::<int, Seq<char>>(
            "unsupported age component `"@ + number.push(other) + "`"@,
        ),
        age_component(seq![]) == Err::<int, Seq<char>>("unsupported age component `"@ + seq![] + "`"@),
{
    reveal_strlit("h");
    reveal_strlit("m");
    reveal_strlit("s");
    assert("h"@ =~= seq!['h']);
    assert("m"@ =~= seq!['m']);
    assert("s"@ =~= seq!['s']);
    lemma_last_letter(number, 'h', 'h');
    lemma_last_letter(number, 'm', 'h');
    lemma_last_letter(number, 'm', 'm');
    lemma_last_letter(number, 's', 'h');
    lemma_last_letter(number, 's', 'm');
    lemma_last_letter(number, 's', 's');
    lemma_last_letter(number, other, 'h');
    lemma_last_letter(number, other, 'm');
    lemma_last_letter(number, other, 's');
    assert(age_unit(seq![]) is None);
    if let Ok(value) = parse_u64_spec(number) {
        assert(value > u64::MAX as int / 3600 <==> 3600 * value > u64::MAX);
        assert(value > u64::MAX as int / 60 <==> 60 * value > u64::MAX);
    }
}

proof fn lemma_last_letter(number: Seq<char>, last: char, letter: char)
    ensures
        strip_suffix_spec(number.push(last), seq![letter]) == if last == letter {
            Some(number)
        } else {
            None
        },
{
    let part = number.push(last);
    law_strip_suffix_undoes_suffixing(part, seq![letter], number);
    assert(part =~= number + seq![last]);
    if let Some(rest) = strip_suffix_spec(part, seq![letter]) {
        law_strip_suffix_undoes_suffixing(part, seq![letter], rest);
        assert((rest + seq![letter]).last() == letter);
    }
}

/// The first component of an age that cannot be read, or that carries the sum past 64 bits,
/// decides the error.
pub proof fn law_age_first_problem_decides(age: Seq<char>, n: int)
    requires
        0 <= n < words_spec(age).len(),
        forall|i: int| 0 <= i < n ==> age_component(#[trigger] words_spec(age)[i]) is Ok,
        forall|m: int|
            0 <= m <= n ==> total_seconds(#[trigger] words_spec(age).take(m)) <= u64::MAX,
    ensures
        age_component(words_spec(age)[n]) matches Err(e) ==> age_seconds(age) == Err::<
            int,
            Seq<char>,
        >(e),
        age_component(words_spec(age)[n]) matches Ok(seconds) ==> (total_seconds(
            words_spec(age).take(n),
        ) + seconds > u64::MAX ==> age_seconds(age) == Err::<int, Seq<char>>(
            "age total overflowed"@,
        )),
{
    let parts = words_spec(age);
    lemma_age_sum_reaches(parts, n);
    assert(parts.skip(n)[0] == parts[n]);
}

/// An age without components is an error.
pub proof fn law_age_without_components(age: Seq<char>)
    requires
        words_spec(age).len() == 0,
    ensures
        age_seconds(age) == Err::<int, Seq<char>>("age was empty"@),
{
}

proof fn lemma_age_sum_reaches(parts: Seq<Seq<char>>, n: int)
    requires
        0 <= n <= parts.len(),
        forall|i: int| 0 <= i < n ==> age_component(#[trigger] parts[i]) is Ok,
        forall|m: int| 0 <= m <= n ==> total_seconds(#[trigger] parts.take(m)) <= u64::MAX,
    ensures
        age_sum(parts, 0) == age_sum(parts.skip(n), total_seconds(parts.take(n))),
    decreases n,
{
    if n == 0 {
        assert(parts.skip(0) =~= parts);
        assert(parts.take(0).len() == 0);
    } else {
        lemma_age_sum_reaches(parts, n - 1);
        let rest = parts.skip(n - 1);
        assert(rest[0] == parts[n - 1]);
        assert(rest.drop_first() =~= parts.skip(n));
        lemma_total_push(parts.take(n - 1), parts[n - 1]);
        assert(parts.take(n - 1).push(parts[n - 1]) =~= parts.take(n));
        assert(total_seconds(parts.take(n)) <= u64::MAX);
    }
}

proof fn lemma_total_push(parts: Seq<Seq<char>>, part: Seq<char>)
    ensures
        total_seconds(parts.push(part)) == total_seconds(parts) + age_component(part)->Ok_0,
    decreases parts.len(),
{
    let whole = parts.push(part);
    if parts.len() == 0 {
        assert(whole.drop_first() =~= Seq::<Seq<char>>::empty());
        assert(total_seconds(whole.drop_first()) == 0);
    } else {
        lemma_total_push(parts.drop_first(), part);
        assert(whole.drop_first() =~= parts.drop_first().push(part));
        assert(whole[0] == parts[0]);
    }
}

/// Whether `entry` is an object whose first field of the key `key` has the value `value`.
pub open spec fn has_field(entry: JsonModel, key: Seq<char>, value: JsonModel) -> bool {
    &&& entry is Object
    &&& exists|i: int|
        0 <= i < entry->Object_0.len() && #[trigger] entry->Object_0[i] == (key, value) && forall|
            j: int,
        |
            0 <= j < i ==> (#[trigger] entry->Object_0[j]).0 != key
}

/// Whether `entry` has no field of the key `key`.
pub open spec fn lacks_field(entry: JsonModel, key: Seq<char>) -> bool {
    entry is Object ==> forall|i: int|
        0 <= i < entry->Object_0.len() ==> (#[trigger] entry->Object_0[i]).0 != key
}

/// A field is found by its key: the first of that key, and none where there is none.
pub proof fn law_field_is_found_by_its_key(entry: JsonModel, key: Seq<char>, value: JsonModel)
    ensures
        entry.get(key) == Some(value) <==> has_field(entry, key, value),
        entry.get(key) is None <==> lacks_field(entry, key),
{
    if let JsonModel::Object(fields) = entry {
        lemma_lookup_from(fields, 0, key);
        assert(fields.skip(0) =~= fields);
        if let Some(found) = entry.get(key) {
            let i = choose|i: int|
                0 <= i < fields.len() && #[trigger] fields[i] == (key, found) && forall|j: int|
                    0 <= j < i ==> (#[trigger] fields[j]).0 != key;
            assert(has_field(entry, key, found));
            if has_field(entry, key, value) {
                let k = choose|k: int|
                    0 <= k < fields.len() && #[trigger] fields[k] == (key, value) && forall|j: int|
                        0 <= j < k ==> (#[trigger] fields[j]).0 != key;
                assert(fields[i].0 == key);
                assert(fields[k].0 == key);
                assert(i == k);
            }
        }
    }
}

proof fn lemma_lookup_from(fields: Seq<(Seq<char>, JsonModel)>, at: int, key: Seq<char>)
    requires
        0 <= at <= fields.len(),
        forall|j: int| 0 <= j < at ==> (#[trigger] fields[j]).0 != key,
    ensures
        match crate::json::lookup(fields.skip(at), key) {
            Some(found) => exists|i: int|
                0 <= i < fields.len() && #[trigger] fields[i] == (key, found) && forall|j: int|
                    0 <= j < i ==> (#[trigger] fields[j]).0 != key,
            None => forall|i: int| 0 <= i < fields.len() ==> (#[trigger] fields[i]).0 != key,
        },
    decreases fields.len() - at,
{
    let rest = fields.skip(at);
    if at < fields.len() {
        assert(rest[0] == fields[at]);
        assert(rest.drop_first() =~= fields.skip(at + 1));
        if fields[at].0 == key {
            assert(fields[at] == (key, fields[at].1));
        } else {
            lemma_lookup_from(fields, at + 1, key);
        }
    }
}

/// Whether `shown` is the truth value that `entry` has under `key`, or false where it has
/// none.
pub open spec fn shows_bool(entry: JsonModel, key: Seq<char>, shown: bool) -> bool {
    shown <==> has_field(entry, key, JsonModel::Bool(true))
}

/// Whether `shown` is the number that `entry` has under `key`, or zero where it has none.
pub open spec fn shows_number(entry: JsonModel, key: Seq<char>, shown: u64) -> bool {
    ||| has_field(entry, key, JsonModel::Number(Some(shown)))
    ||| shown == 0 && forall|n: u64|
        !#[trigger] has_field(entry, key, JsonModel::Number(Some(n)))
}

/// Whether `shown` is the string that `entry` has under `key`, or nothing where it has none.
pub open spec fn shows_text(entry: JsonModel, key: Seq<char>, shown: Option<Seq<char>>) -> bool {
    match shown {
        Some(s) => has_field(entry, key, JsonModel::Text(s)),
        None => forall|s: Seq<char>| !#[trigger] has_field(entry, key, JsonModel::Text(s)),
    }
}

proof fn lemma_shows(entry: JsonModel, key: Seq<char>)
    ensures
        shows_bool(entry, key, or_false(entry.bool_field(key))),
        shows_number(entry, key, crate::panes::or_zero(entry.u64_field(key))),
        shows_text(entry, key, entry.str_field(key)),
        entry.u64_field(key) matches Some(n) ==> has_field(entry, key, JsonModel::Number(Some(n))),
        forall|n: u64| #[trigger]
            has_field(entry, key, JsonModel::Number(Some(n))) ==> entry.u64_field(key) == Some(n),
{
    assert forall|value: JsonModel| #[trigger]
        has_field(entry, key, value) implies entry.get(key) == Some(value) by {
        law_field_is_found_by_its_key(entry, key, value);
    }
    if let Some(value) = entry.get(key) {
        law_field_is_found_by_its_key(entry, key, value);
    }
}

/// A summary shows each field of its entry under that field's own key and no other. A field
/// that is missing or of another type shows as its default. The command is that of the pane
/// where the entry has one, be it a string or not, and else that of the terminal.
pub proof fn law_pane_shows_its_own_fields(
    value: Json,
    entry: JsonModel,
    pane: PaneSummary,
    number: u64,
)
    requires
        call_ensures(parse_pane, (&value,), pane),
        entry == value@,
        shows_number(entry, "id"@, number),
    ensures
        shows_bool(entry, "is_plugin"@, pane.is_plugin),
        shows_bool(entry, "is_focused"@, pane.is_focused),
        shows_bool(entry, "is_floating"@, pane.is_floating),
        shows_bool(entry, "exited"@, pane.exited),
        shows_number(entry, "tab_id"@, pane.tab_id),
        pane.title@.len() > 0 ==> shows_text(entry, "title"@, Some(pane.title@)),
        forall|s: Seq<char>| #[trigger]
            has_field(entry, "title"@, JsonModel::Text(s)) ==> pane.title@ == s,
        pane.tab_name@.len() > 0 ==> shows_text(entry, "tab_name"@, Some(pane.tab_name@)),
        forall|s: Seq<char>| #[trigger]
            has_field(entry, "tab_name"@, JsonModel::Text(s)) ==> pane.tab_name@ == s,
        shows_text(entry, "pane_cwd"@, pane.cwd.deep_view()),
        lacks_field(entry, "pane_command"@) ==> shows_text(
            entry,
            "terminal_command"@,
            pane.command.deep_view(),
        ),
        !lacks_field(entry, "pane_command"@) ==> shows_text(
            entry,
            "pane_command"@,
            pane.command.deep_view(),
        ),
        pane.id@ == (if pane.is_plugin {
            "plugin_"@
        } else {
            "terminal_"@
        }) + decimal_spec(number as nat),
{
    lemma_shows(entry, "is_plugin"@);
    lemma_shows(entry, "is_focused"@);
    lemma_shows(entry, "is_floating"@);
    lemma_shows(entry, "exited"@);
    lemma_shows(entry, "tab_id"@);
    lemma_shows(entry, "id"@);
    lemma_text_default(entry, "title"@);
    lemma_text_default(entry, "tab_name"@);
    lemma_shows(entry, "pane_cwd"@);
    lemma_shows(entry, "pane_command"@);
    lemma_shows(entry, "terminal_command"@);
    law_field_is_found_by_its_key(entry, "pane_command"@, JsonModel::Null);
    law_pane_id_spelling(pane.is_plugin, number);
}

proof fn lemma_text_default(entry: JsonModel, key: Seq<char>)
    ensures
        ({
            let shown = crate::panes::or_empty(entry.str_field(key));
            &&& shown.len() > 0 ==> shows_text(entry, key, Some(shown))
            &&& forall|s: Seq<char>| #[trigger]
                has_field(entry, key, JsonModel::Text(s)) ==> shown == s
        }),
{
    lemma_shows(entry, key);
    assert forall|s: Seq<char>| #[trigger]
        has_field(entry, key, JsonModel::Text(s)) implies entry.str_field(key) == Some(s) by {
        law_field_is_found_by_its_key(entry, key, JsonModel::Text(s));
    }
}

/// A field of a summary depends on nothing but the entry's field of its own key: two entries
/// that agree on that key agree on that field of their summaries, whatever else they hold.
pub proof fn law_pane_field_depends_on_its_key(
    v: Json,
    w: Json,
    key: Seq<char>,
    x: PaneSummary,
    y: PaneSummary,
)
    requires
        call_ensures(parse_pane, (&v,), x),
        call_ensures(parse_pane, (&w,), y),
        forall|value: JsonModel| #[trigger]
            has_field(v@, key, value) <==> has_field(w@, key, value),
    ensures
        key == "title"@ ==> x.title@ == y.title@,
        key == "is_focused"@ ==> x.is_focused == y.is_focused,
        key == "is_plugin"@ ==> x.is_plugin == y.is_plugin,
        key == "is_floating"@ ==> x.is_floating == y.is_floating,
        key == "exited"@ ==> x.exited == y.exited,
        key == "tab_id"@ ==> x.tab_id == y.tab_id,
        key == "tab_name"@ ==> x.tab_name@ == y.tab_name@,
        key == "pane_cwd"@ ==> x.cwd.deep_view() == y.cwd.deep_view(),
        key == "pane_command"@ && !lacks_field(v@, key) ==> x.command.deep_view()
            == y.command.deep_view(),
{
    let a = v@;
    let b = w@;
    assert(a.get(key) == b.get(key)) by {
        if let Some(value) = a.get(key) {
            law_field_is_found_by_its_key(a, key, value);
            law_field_is_found_by_its_key(b, key, value);
        } else if let Some(value) = b.get(key) {
            law_field_is_found_by_its_key(a, key, value);
            law_field_is_found_by_its_key(b, key, value);
        }
    }
    law_field_is_found_by_its_key(a, key, JsonModel::Null);
}

/// The id of a pane is spelled `terminal_` or `plugin_` and its number.
pub proof fn law_pane_id_spelling(is_plugin: bool, id: u64)
    ensures
        pane_id_text(is_plugin, id) == (if is_plugin {
            "plugin_"@
        } else {
            "terminal_"@
        }) + decimal_spec(id as nat),
{
    reveal_strlit("terminal");
    reveal_strlit("plugin");
    reveal_strlit("_");
    reveal_strlit("terminal_");
    reveal_strlit("plugin_");
    assert("plugin"@ + "_"@ =~= "plugin_"@);
    assert("terminal"@ + "_"@ =~= "terminal_"@);
}

/// A listing has one summary for each entry, in order, and a document that is no array has
/// none.
pub proof fn law_one_pane_per_entry(document: JsonModel)
    ensures
        document matches JsonModel::Array(entries) ==> {
            &&& panes_of(document) is Some
            &&& panes_of(document)->0.len() == entries.len()
            &&& forall|i: int|
                0 <= i < entries.len() ==> #[trigger] panes_of(document)->0[i] == pane_of(
                    entries[i],
                )
        },
        document !is Array ==> panes_of(document) is None,
{
}

/// A text names a pane exactly when it is a number, or `terminal_` or `plugin_` before one.
pub proof fn law_pane_names(text: Seq<char>, is_plugin: bool, id: u64)
    ensures
        pane_named(text) == Some((is_plugin, id)) <==> exists|number: Seq<char>| #[trigger]
            parse_u64_spec(number) == Ok::<int, NumberError>(id as int) && (if is_plugin {
                text == "plugin_"@ + number
            } else {
                text == "terminal_"@ + number || text == number
            }),
{
    reveal_strlit("terminal_");
    reveal_strlit("plugin_");
    assert forall|number: Seq<char>|
        #![trigger parse_u64_spec(number)]
        parse_u64_spec(number) is Ok implies strip_prefix_spec(number, "terminal_"@) is None
        && strip_prefix_spec(number, "plugin_"@) is None && 0 <= parse_u64_spec(number)->Ok_0
        <= u64::MAX by {
        lemma_number_has_no_name(number);
    }
    if let Some(number) = strip_prefix_spec(text, "terminal_"@) {
        law_strip_prefix_undoes_prefixing(text, "terminal_"@, number);
        assert(text[0] == 't');
    } else if let Some(number) = strip_prefix_spec(text, "plugin_"@) {
        law_strip_prefix_undoes_prefixing(text, "plugin_"@, number);
        assert(text[0] == 'p');
    }
    assert forall|number: Seq<char>|
        #![trigger parse_u64_spec(number)]
        parse_u64_spec(number) is Ok && text == "terminal_"@ + number implies strip_prefix_spec(
        text,
        "terminal_"@,
    ) == Some(number) by {
        law_strip_prefix_undoes_prefixing(text, "terminal_"@, number);
    }
    assert forall|number: Seq<char>|
        #![trigger parse_u64_spec(number)]
        parse_u64_spec(number) is Ok && text == "plugin_"@ + number implies strip_prefix_spec(
        text,
        "plugin_"@,
    ) == Some(number) && strip_prefix_spec(text, "terminal_"@) is None by {
        law_strip_prefix_undoes_prefixing(text, "plugin_"@, number);
        assert(text[0] == 'p');
        if let Some(rest) = strip_prefix_spec(text, "terminal_"@) {
            law_strip_prefix_undoes_prefixing(text, "terminal_"@, rest);
            assert(text[0] == 't');
        }
    }
    if pane_named(text) == Some((is_plugin, id)) {
        if let Some(number) = strip_prefix_spec(text, "terminal_"@) {
            assert(parse_u64_spec(number) == Ok::<int, NumberError>(id as int));
        } else if let Some(number) = strip_prefix_spec(text, "plugin_"@) {
            assert(parse_u64_spec(number) == Ok::<int, NumberError>(id as int));
        } else {
            assert(parse_u64_spec(text) == Ok::<int, NumberError>(id as int));
        }
    }
}

proof fn lemma_number_has_no_name(number: Seq<char>)
    requires
        parse_u64_spec(number) is Ok,
    ensures
        strip_prefix_spec(number, "terminal_"@) is None,
        strip_prefix_spec(number, "plugin_"@) is None,
        0 <= parse_u64_spec(number)->Ok_0 <= u64::MAX,
{
    reveal_strlit("terminal_");
    reveal_strlit("plugin_");
    if let Some(rest) = strip_prefix_spec(number, "terminal_"@) {
        law_strip_prefix_undoes_prefixing(number, "terminal_"@, rest);
        assert(number[0] == 't');
    }
    if let Some(rest) = strip_prefix_spec(number, "plugin_"@) {
        law_strip_prefix_undoes_prefixing(number, "plugin_"@, rest);
        assert(number[0] == 'p');
    }
    crate::number::law_parse_u64_is_numeral_value(number, parse_u64_spec(number)->Ok_0);
    let digits = crate::number::unsigned_part(number);
    crate::number::lemma_value_grows(digits, digits.len() as int);
}

/// A listing shows a pane exactly when it is an array in which an entry has the number of that
/// pane and is a plugin or not as that pane is. What is no JSON, or no array, is an error.
pub proof fn law_listing_shows(raw: Seq<char>, is_plugin: bool, id: u64)
    ensures
        match json_document(raw) {
            Ok(JsonModel::Array(entries)) => {
                &&& listing_shows(raw, (is_plugin, id)) is Ok
                &&& listing_shows(raw, (is_plugin, id))->Ok_0 <==> exists|i: int|
                    0 <= i < entries.len() && has_field(
                        #[trigger] entries[i],
                        "id"@,
                        JsonModel::Number(Some(id)),
                    ) && shows_bool(entries[i], "is_plugin"@, is_plugin)
            },
            Ok(_) => listing_shows(raw, (is_plugin, id)) == Err::<bool, Seq<char>>(
                "zellij list-panes output was not a JSON array"@,
            ),
            Err(e) => listing_shows(raw, (is_plugin, id)) == Err::<bool, Seq<char>>(
                "failed to parse zellij list-panes JSON: "@ + e,
            ),
        },
{
    if let Ok(JsonModel::Array(entries)) = json_document(raw) {
        assert forall|i: int| 0 <= i < entries.len() implies (entry_is(
            #[trigger] entries[i],
            (is_plugin, id),
        ) <==> has_field(entries[i], "id"@, JsonModel::Number(Some(id))) && shows_bool(
            entries[i],
            "is_plugin"@,
            is_plugin,
        )) by {
            lemma_shows(entries[i], "id"@);
            lemma_shows(entries[i], "is_plugin"@);
        }
    }
}

/// A model says what its value holds, field by field.
pub proof fn law_summaries_say_what_they_hold(session: SessionSummary, pane: PaneSummary)
    ensures
        session.deep_view().name == session.name@,
        session.deep_view().created_age_seconds == session.created_age_seconds,
        session.deep_view().is_attached == session.is_attached,
        session.deep_view().is_exited == session.is_exited,
        pane.deep_view().id == pane.id@,
        pane.deep_view().title == pane.title@,
        pane.deep_view().is_focused == pane.is_focused,
        pane.deep_view().is_plugin == pane.is_plugin,
        pane.deep_view().is_floating == pane.is_floating,
        pane.deep_view().exited == pane.exited,
        pane.deep_view().tab_id == pane.tab_id,
        pane.deep_view().tab_name == pane.tab_name@,
        pane.deep_view().command == pane.command.deep_view(),
        pane.deep_view().cwd == pane.cwd.deep_view(),
{
}

/// A value of a document stands for itself: a truth value, a number or a string for what it
/// holds, an array for its items and an object for its fields, in order.
pub proof fn law_json_says_what_it_holds(value: Json)
    ensures
        value matches Json::Bool(b) ==> value@ == JsonModel::Bool(b),
        value matches Json::Number(n) ==> value@ == JsonModel::Number(n),
        value matches Json::Text(s) ==> value@ == JsonModel::Text(s@),
        value is Null ==> value@ == JsonModel::Null,
        value matches Json::Array(items) ==> {
            &&& value@ is Array
            &&& value@->Array_0.len() == items@.len()
            &&& forall|i: int|
                0 <= i < items@.len() ==> #[trigger] value@->Array_0[i] == items@[i]@
        },
        value matches Json::Object(fields) ==> {
            &&& value@ is Object
            &&& value@->Object_0.len() == fields@.len()
            &&& forall|i: int|
                0 <= i < fields@.len() ==> #[trigger] value@->Object_0[i] == (
                    fields@[i].0@,
                    fields@[i].1@,
                )
        },
{
}

/// A listing of panes gives one summary for each of its items, that of the item, in order. A
/// document that is no array gives none.
pub proof fn law_panes_are_those_of_the_items(
    document: Json,
    r: Option<Vec<PaneSummary>>,
    i: int,
    pane: PaneSummary,
)
    requires
        call_ensures(parse_panes, (&document,), r),
        document is Array && 0 <= i < document->Array_0@.len() ==> call_ensures(
            parse_pane,
            (&document->Array_0@[i],),
            pane,
        ),
    ensures
        document is Array <==> r is Some,
        document is Array ==> r->0@.len() == document->Array_0@.len(),
        document is Array && 0 <= i < document->Array_0@.len() ==> r->0@[i].deep_view()
            == pane.deep_view(),
{
    if document is Array {
        let panes = r.deep_view()->0;
        assert(panes.len() == r->0@.len());
        if 0 <= i < document->Array_0@.len() {
            assert(panes[i] == r->0@[i].deep_view());
            assert(document@->Array_0[i] == document->Array_0@[i]@);
        }
    }
}

/// A text is read as the id of a pane exactly when it is a number, which names a terminal, or
/// `terminal_` or `plugin_` before one.
pub proof fn law_pane_id_is_read(text: &str, r: Option<(bool, u64)>, is_plugin: bool, id: u64)
    requires
        call_ensures(parse_pane_id, (text,), r),
    ensures
        r == Some((is_plugin, id)) <==> exists|number: Seq<char>| #[trigger]
            parse_u64_spec(number) == Ok::<int, NumberError>(id as int) && (if is_plugin {
                text@ == "plugin_"@ + number
            } else {
                text@ == "terminal_"@ + number || text@ == number
            }),
{
    law_pane_names(text@, is_plugin, id);
}

/// The id of a pane is written as `terminal_` or `plugin_` and its number, and is read back as
/// that pane.
pub proof fn law_pane_id_is_written(
    is_plugin: bool,
    id: u64,
    text: String,
    same: &str,
    read: Option<(bool, u64)>,
)
    requires
        call_ensures(pane_id, (is_plugin, id), text),
        same@ == text@,
        call_ensures(parse_pane_id, (same,), read),
    ensures
        read == Some((is_plugin, id)),
        text@ == (if is_plugin {
            "plugin_"@
        } else {
            "terminal_"@
        }) + decimal_spec(id as nat),
{
    law_pane_id_spelling(is_plugin, id);
    law_pane_id_names_its_pane(is_plugin, id);
}

/// Whether a pane is listed is read off the printed text: it is in a listing exactly when the
/// text is an array with an entry of its number and kind.
pub proof fn law_listed_pane_is_found(
    raw: &str,
    is_plugin: bool,
    id: u64,
    r: Result<bool, String>,
)
    requires
        call_ensures(pane_is_listed, (raw, (is_plugin, id)), r),
    ensures
        match json_document(raw@) {
            Ok(JsonModel::Array(entries)) => {
                &&& r is Ok
                &&& r->Ok_0 <==> exists|i: int|
                    0 <= i < entries.len() && has_field(
                        #[trigger] entries[i],
                        "id"@,
                        JsonModel::Number(Some(id)),
                    ) && shows_bool(entries[i], "is_plugin"@, is_plugin)
            },
            Ok(_) => r matches Err(e) && e@ == "zellij list-panes output was not a JSON array"@,
            Err(why) => r matches Err(e) && e@ == "failed to parse zellij list-panes JSON: "@ + why,
        },
{
    law_listing_shows(raw@, is_plugin, id);
}

/// What a line, and the listing after it, come to in the whole listing: a line that is all
/// whitespace is passed over, and any other gives its session, or its error, first.
pub proof fn law_sessions_are_read_line_by_line(
    line: &str,
    rest: &str,
    whole: &str,
    first: Result<SessionSummary, String>,
    others: Result<Vec<SessionSummary>, String>,
    all: Result<Vec<SessionSummary>, String>,
)
    requires
        call_ensures(parse_session_line, (line,), first),
        call_ensures(parse_sessions, (rest,), others),
        call_ensures(parse_sessions, (whole,), all),
        one_line(line@),
        ({
            ||| whole@ == line@ + seq!['\n'] + rest@ && (line@.len() == 0 || line@.last() != '\r')
            ||| whole@ == line@ + seq!['\r', '\n'] + rest@
            ||| whole@ == line@ && rest@ == Seq::<char>::empty()
        }),
    ensures
        rest@.len() == 0 ==> (others matches Ok(none) && none@.len() == 0),
        if all_space(line@) {
            outcome(all) == outcome(others)
        } else {
            match (first, others) {
                (Err(e), _) => all matches Err(found) && found@ == e@,
                (Ok(_), Err(e)) => all matches Err(found) && found@ == e@,
                (Ok(session), Ok(sessions)) => all matches Ok(found) && found.deep_view() == seq![
                    session.deep_view(),
                ] + sessions.deep_view(),
            }
        },
{
    law_listing_is_read_line_by_line(line@, rest@);
    law_listing_is_read_line_by_line(seq![], seq![]);
    if rest@.len() == 0 {
        assert(rest@ =~= Seq::<char>::empty());
        assert(outcome(others)->Ok_0.len() == 0);
    }
}

/// Two lines that each hold more than whitespace, and are each read, give two sessions in the
/// order of the lines.
pub proof fn law_two_lines_give_two_sessions(
    a: &str,
    b: &str,
    whole: &str,
    x: SessionSummary,
    y: SessionSummary,
    r: Result<Vec<SessionSummary>, String>,
)
    requires
        call_ensures(parse_session_line, (a,), Ok::<SessionSummary, String>(x)),
        call_ensures(parse_session_line, (b,), Ok::<SessionSummary, String>(y)),
        call_ensures(parse_sessions, (whole,), r),
        one_line(a@),
        one_line(b@),
        !all_space(a@),
        !all_space(b@),
        a@.last() != '\r',
        whole@ == a@ + seq!['\n'] + b@,
    ensures
        r matches Ok(sessions) && sessions.deep_view() == seq![x.deep_view(), y.deep_view()],
{
    law_no_session_is_left_out(a@, b@, x.deep_view(), y.deep_view());
}

/// What a line is read as, where `age` is the text of its age: the name is what stands before
/// ` [Created `, the age what stands between that and the closing bracket, and what follows
/// says whether the session is current and whether it has exited.
pub proof fn law_session_line_is_read_in_parts(
    line: &str,
    name: Seq<char>,
    created: Seq<char>,
    marks: Seq<char>,
    age: &str,
    untrimmed: Seq<char>,
    seconds: Result<u64, String>,
    r: Result<SessionSummary, String>,
)
    requires
        call_ensures(parse_session_line, (line,), r),
        call_ensures(parse_age_seconds, (age,), seconds),
        line@ == name + " [Created "@ + (created + "]"@ + marks),
        forall|other: Seq<char>, rest: Seq<char>|
            line@ == #[trigger] (other + " [Created "@ + rest) ==> other.len() >= name.len(),
        !created.contains(']'),
        created == untrimmed + " ago"@ || (created == untrimmed && forall|shorter: Seq<char>|
            created != #[trigger] (shorter + " ago"@)),
        age@ == trim_spec(untrimmed),
    ensures
        match seconds {
            Err(e) => r matches Err(found) && found@ == e@,
            Ok(seconds) => {
                &&& r is Ok
                &&& r->Ok_0.name@ == trim_spec(name)
                &&& r->Ok_0.created_age_seconds == seconds
                &&& r->Ok_0.is_attached <==> exists|l: Seq<char>, t: Seq<char>|
                    marks == #[trigger] (l + "(current)"@ + t)
                &&& r->Ok_0.is_exited <==> exists|l: Seq<char>, t: Seq<char>|
                    marks == #[trigger] (l + "EXITED"@ + t)
            },
        },
{
    law_session_line_parts(name, created, marks, untrimmed);
}

proof fn lemma_age_sum_from(parts: Seq<Seq<char>>, total: int, more: int)
    requires
        age_sum(parts, total) is Ok,
        more >= 0,
        total <= u64::MAX,
        total + more <= u64::MAX,
    ensures
        age_sum(parts, total)->Ok_0 + more > u64::MAX ==> age_sum(parts, total + more) == Err::<
            int,
            Seq<char>,
        >("age total overflowed"@),
        age_sum(parts, total)->Ok_0 + more <= u64::MAX ==> age_sum(parts, total + more) == Ok::<
            int,
            Seq<char>,
        >(age_sum(parts, total)->Ok_0 + more),
    decreases parts.len(),
{
    if parts.len() > 0 {
        let seconds = age_component(parts[0])->Ok_0;
        lemma_age_sum_grows(parts.drop_first(), total + seconds);
        if total + more + seconds <= u64::MAX {
            lemma_age_sum_from(parts.drop_first(), total + seconds, more);
            assert(total + seconds + more == total + more + seconds);
        }
    }
}

proof fn lemma_age_sum_grows(parts: Seq<Seq<char>>, total: int)
    requires
        age_sum(parts, total) is Ok,
    ensures
        age_sum(parts, total)->Ok_0 >= total,
    decreases parts.len(),
{
    if parts.len() > 0 {
        lemma_component_bounds(parts[0]);
        lemma_age_sum_grows(parts.drop_first(), total + age_component(parts[0])->Ok_0);
    }
}

proof fn lemma_component_bounds(part: Seq<char>)
    ensures
        age_component(part) matches Ok(seconds) ==> 0 <= seconds <= u64::MAX,
{
    if let Some((number, unit)) = age_unit(part) {
        if parse_u64_spec(number) is Ok {
            lemma_number_has_no_name(number);
        }
    }
}

/// An age is read component by component: the first counts first, the whole is the sum of the
/// first and the rest, and an error of the first is that of the whole.
pub proof fn law_age_adds_up(
    word: &str,
    space: char,
    rest: &str,
    whole: &str,
    first: Result<u64, String>,
    others: Result<u64, String>,
    all: Result<u64, String>,
)
    requires
        word@.len() > 0,
        forall|i: int| 0 <= i < word@.len() ==> !is_whitespace(#[trigger] word@[i]),
        is_whitespace(space),
        whole@ == word@ + seq![space] + rest@,
        call_ensures(parse_age_seconds, (word,), first),
        call_ensures(parse_age_seconds, (rest,), others),
        call_ensures(parse_age_seconds, (whole,), all),
    ensures
        match first {
            Err(e) => all matches Err(found) && found@ == e@,
            Ok(x) => {
                &&& others matches Ok(y) ==> if x + y <= u64::MAX {
                    all matches Ok(sum) && sum == x + y
                } else {
                    all matches Err(e) && e@ == "age total overflowed"@
                }
                &&& words_spec(rest@).len() == 0 ==> all == first
            },
        },
{
    law_words_end_at_whitespace(word@, space, rest@);
    let parts = words_spec(whole@);
    let tail = words_spec(rest@);
    assert(parts =~= seq![word@] + tail);
    assert(parts[0] == word@);
    assert(parts.drop_first() =~= tail);
    assert(words_spec(word@) =~= seq![word@]);
    assert(words_spec(word@).drop_first() =~= Seq::<Seq<char>>::empty());
    lemma_component_bounds(word@);
    reveal_with_fuel(age_sum, 2);
    if let Ok(x) = first {
        assert(age_component(word@) == Ok::<int, Seq<char>>(x as int));
        if let Ok(y) = others {
            lemma_age_sum_from(tail, 0, x as int);
        }
    }
}

/// An age of one component counts hours, minutes or seconds, as its last letter says.
pub proof fn law_age_of_one_component(
    number: Seq<char>,
    age: &str,
    r: Result<u64, String>,
    value: u64,
)
    requires
        call_ensures(parse_age_seconds, (age,), r),
        forall|i: int| 0 <= i < age@.len() ==> !is_whitespace(#[trigger] age@[i]),
        parse_u64_spec(number) == Ok::<int, NumberError>(value as int),
    ensures
        age@ == number.push('h') && 3600 * value <= u64::MAX ==> (r matches Ok(s) && s == 3600
            * value),
        age@ == number.push('m') && 60 * value <= u64::MAX ==> (r matches Ok(s) && s == 60 * value),
        age@ == number.push('s') ==> (r matches Ok(s) && s == value),
{
    law_age_component_counts_its_unit(number, 'x');
    if age@.len() > 0 {
        law_words_end_at_whitespace(age@, ' ', seq![]);
        assert(words_spec(age@) =~= seq![age@]);
        assert(words_spec(age@).drop_first() =~= Seq::<Seq<char>>::empty());
        reveal_with_fuel(age_sum, 2);
    }
}

/// One level of a document stands for itself, and its parts for their contents, in order.
pub proof fn law_json_node_says_what_it_holds(node: JsonNode)
    ensures
        node matches JsonNode::Bool(b) ==> node_model(node) == JsonModel::Bool(b),
        node matches JsonNode::Number(n) ==> node_model(node) == JsonModel::Number(n),
        node matches JsonNode::Text(s) ==> node_model(node) == JsonModel::Text(s@),
        node is Null ==> node_model(node) == JsonModel::Null,
        node matches JsonNode::Array(items) ==> {
            &&& node_model(node) is Array
            &&& node_model(node)->Array_0.len() == items@.len()
            &&& forall|i: int|
                0 <= i < items@.len() ==> #[trigger] node_model(node)->Array_0[i] == value_model(
                    items@[i],
                )
        },
        node matches JsonNode::Object(fields) ==> {
            &&& node_model(node) is Object
            &&& node_model(node)->Object_0.len() == fields@.len()
            &&& forall|i: int|
                0 <= i < fields@.len() ==> #[trigger] node_model(node)->Object_0[i] == (
                    fields@[i].0@,
                    value_model(fields@[i].1),
                )
        },
{
}

} // verus!
