//! The sessions that `zellij list-sessions -n` prints, one to a line.
use crate::number::{
    decimal_spec, digit_value, digits_spec, is_digit, law_decimal_reads_back, lemma_digits_of_decimal,
    parse_u64, parse_u64_spec, unsigned_part,
};
use crate::schema::{outcome, SessionModel, SessionSummary};
use crate::text::{
    contains, contains_spec, first_at, is_whitespace, lemma_leading, lemma_leading_bounds,
    lemma_split_once, lines,
    lines_spec, occurs_at, split_once, split_once_spec, strip_suffix, strip_suffix_spec, trim,
    trim_spec, trim_start_spec, words, words_spec,
};
use vstd::prelude::*;

verus! {

/// The number and the length of the unit of one component of an age, such as `41m`.
pub open spec fn age_unit(part: Seq<char>) -> Option<(Seq<char>, int)> {
    if let Some(number) = strip_suffix_spec(part, "h"@) {
        Some((number, 3600))
    } else if let Some(number) = strip_suffix_spec(part, "m"@) {
        Some((number, 60))
    } else if let Some(number) = strip_suffix_spec(part, "s"@) {
        Some((number, 1))
    } else {
        None
    }
}

/// `value` times the length of a unit: an hour, a minute or a second.
pub open spec fn in_seconds(value: int, unit: int) -> int {
    if unit == 3600 {
        3600 * value
    } else if unit == 60 {
        60 * value
    } else {
        value
    }
}

/// The seconds that one component of an age stands for.
pub open spec fn age_component(part: Seq<char>) -> Result<int, Seq<char>> {
    match age_unit(part) {
        None => Err("unsupported age component `"@ + part + "`"@),
        Some((number, unit)) => match parse_u64_spec(number) {
            Err(e) => Err("invalid age component `"@ + part + "`: "@ + e.message_spec()),
            Ok(value) => if in_seconds(value, unit) > u64::MAX {
                Err("age component `"@ + part + "` overflowed"@)
            } else {
                Ok(in_seconds(value, unit))
            },
        },
    }
}

/// `total` and the seconds of all of `parts`. The first component that cannot be added
/// decides the error.
pub open spec fn age_sum(parts: Seq<Seq<char>>, total: int) -> Result<int, Seq<char>>
    decreases parts.len(),
{
    if parts.len() == 0 {
        Ok(total)
    } else {
        match age_component(parts[0]) {
            Err(e) => Err(e),
            Ok(seconds) => if total + seconds > u64::MAX {
                Err("age total overflowed"@)
            } else {
                age_sum(parts.drop_first(), total + seconds)
            },
        }
    }
}

/// The seconds that an age such as `1h 41m 1s` stands for.
pub open spec fn age_seconds(age: Seq<char>) -> Result<int, Seq<char>> {
    let parts = words_spec(age);
    if parts.len() == 0 {
        Err("age was empty"@)
    } else {
        age_sum(parts, 0)
    }
}

/// The age in the text between `[Created ` and `]`.
pub open spec fn age_text(created: Seq<char>) -> Seq<char> {
    match strip_suffix_spec(created, " ago"@) {
        Some(age) => trim_spec(age),
        None => trim_spec(created),
    }
}

/// The session that one line describes.
pub open spec fn session_line(line: Seq<char>) -> Result<SessionModel, Seq<char>> {
    match split_once_spec(line, " [Created "@) {
        None => Err("failed to parse session line `"@ + line + "`: missing `[Created ...]`"@),
        Some((name, rest)) => match split_once_spec(rest, "]"@) {
            None => Err("failed to parse session line `"@ + line + "`: missing closing `]`"@),
            Some((created, suffix)) => match age_seconds(age_text(created)) {
                Err(e) => Err(e),
                Ok(seconds) => Ok(
                    SessionModel {
                        name: trim_spec(name),
                        created_age_seconds: seconds,
                        is_attached: contains_spec(suffix, "(current)"@),
                        is_exited: contains_spec(suffix, "EXITED"@),
                    },
                ),
            },
        },
    }
}

/// Whether a line holds nothing but whitespace.
pub open spec fn is_blank(line: Seq<char>) -> bool {
    trim_spec(line).len() == 0
}

/// The lines of `raw` that describe sessions.
pub open spec fn session_lines(raw: Seq<char>) -> Seq<Seq<char>> {
    lines_spec(raw).filter(|line: Seq<char>| !is_blank(line))
}

/// Reads an age such as `1h 41m 1s` in seconds.
pub fn parse_age_seconds(age: &str) -> (r: Result<u64, String>)
    ensures
        match r {
            Ok(seconds) => age_seconds(age@) == Ok::<int, Seq<char>>(seconds as int),
            Err(e) => age_seconds(age@) == Err::<int, Seq<char>>(e@),
        },
{
    let parts = words(age);
    let ghost all = parts.deep_view();
    let n: usize = parts.len();
    let mut total: u64 = 0;
    let mut parsed_any = false;
    let mut i: usize = 0;
    assert(all.skip(0) =~= all);
    while i < n
        invariant
            n == parts@.len(),
            i <= n,
            all == parts.deep_view(),
            all == words_spec(age@),
            parsed_any == (i > 0),
            age_sum(all, 0) == age_sum(all.skip(i as int), total as int),
        decreases n - i,
    {
        let part: &str = parts[i];
        let ghost rest = all.skip(i as int);
        assert(rest[0] == part@);
        assert(rest.drop_first() =~= all.skip(i + 1));
        let unit: (&str, u64) = if let Some(number) = strip_suffix(part, "h") {
            (number, 3600)
        } else if let Some(number) = strip_suffix(part, "m") {
            (number, 60)
        } else if let Some(number) = strip_suffix(part, "s") {
            (number, 1)
        } else {
            let mut message = "unsupported age component `".to_owned();
            message.append(part);
            message.append("`");
            return Err(message);
        };
        assert(age_unit(part@) == Some((unit.0@, unit.1 as int)));
        let value: u64 = match parse_u64(unit.0) {
            Ok(value) => value,
            Err(e) => {
                let mut message = "invalid age component `".to_owned();
                message.append(part);
                message.append("`: ");
                message.append(e.message());
                return Err(message);
            },
        };
        assert(value * unit.1 == in_seconds(value as int, unit.1 as int));
        let seconds: u64 = match value.checked_mul(unit.1) {
            Some(seconds) => seconds,
            None => {
                let mut message = "age component `".to_owned();
                message.append(part);
                message.append("` overflowed");
                return Err(message);
            },
        };
        total = match total.checked_add(seconds) {
            Some(sum) => sum,
            None => {
                return Err("age total overflowed".to_owned());
            },
        };
        parsed_any = true;
        i = i + 1;
    }
    if parsed_any {
        assert(all.skip(n as int).len() == 0);
        Ok(total)
    } else {
        Err("age was empty".to_owned())
    }
}

/// Reads one line of the session listing.
pub fn parse_session_line(line: &str) -> (r: Result<SessionSummary, String>)
    ensures
        outcome(r) == session_line(line@),
{
    let (name, after_created) = match split_once(line, " [Created ") {
        Some(sides) => sides,
        None => {
            let mut message = "failed to parse session line `".to_owned();
            message.append(line);
            message.append("`: missing `[Created ...]`");
            return Err(message);
        },
    };
    let (created, suffix) = match split_once(after_created, "]") {
        Some(sides) => sides,
        None => {
            let mut message = "failed to parse session line `".to_owned();
            message.append(line);
            message.append("`: missing closing `]`");
            return Err(message);
        },
    };
    let age = match strip_suffix(created, " ago") {
        Some(age) => trim(age),
        None => trim(created),
    };
    match parse_age_seconds(age) {
        Ok(seconds) => Ok(
            SessionSummary {
                name: trim(name).to_owned(),
                created_age_seconds: seconds,
                is_attached: contains(suffix, "(current)"),
                is_exited: contains(suffix, "EXITED"),
            },
        ),
        Err(e) => Err(e),
    }
}

/// The sessions that `lines` describe, in order. The first line that describes none decides
/// the error.
pub open spec fn sessions_on(lines: Seq<Seq<char>>) -> Result<Seq<SessionModel>, Seq<char>>
    decreases lines.len(),
{
    if lines.len() == 0 {
        Ok(seq![])
    } else {
        match sessions_on(lines.drop_last()) {
            Err(e) => Err(e),
            Ok(sessions) => match session_line(lines.last()) {
                Err(e) => Err(e),
                Ok(session) => Ok(sessions.push(session)),
            },
        }
    }
}

/// The sessions of a listing, one for each line that is not blank.
pub open spec fn sessions_of(raw: Seq<char>) -> Result<Seq<SessionModel>, Seq<char>> {
    sessions_on(session_lines(raw))
}

/// Reads the session listing. Every line that is not blank gives one session, in order;
/// where a line cannot be read, the first such line decides the error.
pub fn parse_sessions(raw: &str) -> (r: Result<Vec<SessionSummary>, String>)
    ensures
        outcome(r) == sessions_of(raw@),
{
    let all = lines(raw);
    let ghost lines = all.deep_view();
    let ghost wanted = |line: Seq<char>| !is_blank(line);
    let n: usize = all.len();
    let mut sessions: Vec<SessionSummary> = Vec::new();
    let mut i: usize = 0;
    proof {
        reveal(Seq::filter);
        assert(lines.take(0).filter(wanted) =~= seq![]);
        assert(sessions.deep_view() =~= seq![]);
    }
    while i < n
        invariant
            n == all@.len(),
            i <= n,
            lines == all.deep_view(),
            lines == lines_spec(raw@),
            wanted == (|line: Seq<char>| !is_blank(line)),
            sessions_on(lines.take(i as int).filter(wanted)) == Ok::<
                Seq<SessionModel>,
                Seq<char>,
            >(sessions.deep_view()),
        decreases n - i,
    {
        let line: &str = all[i];
        let ghost done = lines.take(i as int).filter(wanted);
        let ghost before = sessions.deep_view();
        proof {
            assert(lines.take(i + 1).drop_last() =~= lines.take(i as int));
            assert(lines.take(i + 1).last() == line@);
            reveal(Seq::filter);
            assert(lines.take(i + 1).filter(wanted) == if wanted(line@) {
                done.push(line@)
            } else {
                done
            });
            assert(done.push(line@).drop_last() =~= done);
        }
        if !trim(line).is_empty() {
            match parse_session_line(line) {
                Ok(session) => {
                    sessions.push(session);
                    assert(sessions.deep_view() =~= before.push(session.deep_view()));
                },
                Err(e) => {
                    proof {
                        lemma_filter_prefix(lines, wanted, i + 1);
                        lemma_first_error_decides(
                            session_lines(raw@),
                            lines.take(i + 1).filter(wanted),
                        );
                    }
                    return Err(e);
                },
            }
        }
        i = i + 1;
    }
    assert(lines.take(n as int) =~= lines);
    Ok(sessions)
}

/// What a filter keeps of a prefix is a prefix of what it keeps of the whole.
proof fn lemma_filter_prefix(s: Seq<Seq<char>>, p: spec_fn(Seq<char>) -> bool, n: int)
    requires
        0 <= n <= s.len(),
    ensures
        s.take(n).filter(p).is_prefix_of(s.filter(p)),
    decreases s.len() - n,
{
    if n == s.len() {
        assert(s.take(n) =~= s);
    } else {
        lemma_filter_prefix(s, p, n + 1);
        reveal(Seq::filter);
        assert(s.take(n + 1).drop_last() =~= s.take(n));
        assert(s.take(n).filter(p).is_prefix_of(s.take(n + 1).filter(p)));
    }
}

/// An error among the first lines is the error of all of them.
proof fn lemma_first_error_decides(lines: Seq<Seq<char>>, first: Seq<Seq<char>>)
    requires
        first.is_prefix_of(lines),
        sessions_on(first) is Err,
    ensures
        sessions_on(lines) == sessions_on(first),
    decreases lines.len(),
{
    if first.len() < lines.len() {
        assert(first.is_prefix_of(lines.drop_last()));
        lemma_first_error_decides(lines.drop_last(), first);
    } else {
        assert(first =~= lines);
    }
}

/// A listing is read exactly when each of its lines that are not blank is, and then gives one
/// session for each of them, in order.
pub proof fn law_one_session_per_line(raw: Seq<char>, sessions: Seq<SessionModel>)
    ensures
        sessions_of(raw) == Ok::<Seq<SessionModel>, Seq<char>>(sessions) <==> {
            &&& sessions.len() == session_lines(raw).len()
            &&& forall|i: int|
                0 <= i < sessions.len() ==> session_line(#[trigger] session_lines(raw)[i]) == Ok::<
                    SessionModel,
                    Seq<char>,
                >(sessions[i])
        },
{
    lemma_one_session_per_line(session_lines(raw), sessions);
}

proof fn lemma_one_session_per_line(lines: Seq<Seq<char>>, sessions: Seq<SessionModel>)
    ensures
        sessions_on(lines) == Ok::<Seq<SessionModel>, Seq<char>>(sessions) <==> {
            &&& sessions.len() == lines.len()
            &&& forall|i: int|
                0 <= i < sessions.len() ==> session_line(#[trigger] lines[i]) == Ok::<
                    SessionModel,
                    Seq<char>,
                >(sessions[i])
        },
    decreases lines.len(),
{
    if lines.len() == 0 {
        assert(sessions.len() == 0 ==> sessions =~= seq![]);
    } else {
        let init = lines.drop_last();
        if sessions.len() == lines.len() {
            lemma_one_session_per_line(init, sessions.drop_last());
            assert(sessions =~= sessions.drop_last().push(sessions.last()));
            assert(forall|i: int| 0 <= i < init.len() ==> init[i] == lines[i]);
            assert(sessions_on(init) matches Ok(found) ==> found.push(sessions.last()).drop_last()
                =~= found);
            if forall|i: int|
                0 <= i < sessions.len() ==> session_line(#[trigger] lines[i]) == Ok::<
                    SessionModel,
                    Seq<char>,
                >(sessions[i]) {
                assert forall|i: int| 0 <= i < init.len() implies session_line(#[trigger] init[i])
                    == Ok::<SessionModel, Seq<char>>(sessions.drop_last()[i]) by {
                    assert(init[i] == lines[i]);
                }
                assert(session_line(lines[lines.len() - 1]) is Ok);
            }
            if sessions_on(lines) == Ok::<Seq<SessionModel>, Seq<char>>(sessions) {
                let found = sessions_on(init)->Ok_0;
                assert(found =~= sessions.drop_last());
                assert forall|i: int| 0 <= i < sessions.len() implies session_line(
                    #[trigger] lines[i],
                ) == Ok::<SessionModel, Seq<char>>(sessions[i]) by {
                    if i < init.len() {
                        assert(init[i] == lines[i]);
                        assert(sessions.drop_last()[i] == sessions[i]);
                    }
                }
            }
        } else if sessions_on(lines) is Ok {
            let found = sessions_on(init)->Ok_0;
            lemma_one_session_per_line(init, found);
        }
    }
}

/// Whether `bad` is the first of `lines` that describes no session.
pub open spec fn first_bad_line(lines: Seq<Seq<char>>, bad: int) -> bool {
    &&& 0 <= bad < lines.len()
    &&& session_line(lines[bad]) is Err
    &&& forall|i: int| 0 <= i < bad ==> session_line(#[trigger] lines[i]) is Ok
}

/// Where a line of a listing describes no session, the first such line gives the error.
pub proof fn law_first_bad_line_decides(raw: Seq<char>, bad: int)
    requires
        first_bad_line(session_lines(raw), bad),
    ensures
        sessions_of(raw) == Err::<Seq<SessionModel>, Seq<char>>(
            session_line(session_lines(raw)[bad])->Err_0,
        ),
{
    let lines = session_lines(raw);
    let good = lines.take(bad);
    let sessions = Seq::new(good.len(), |i: int| session_line(good[i])->Ok_0);
    assert forall|i: int| 0 <= i < sessions.len() implies session_line(#[trigger] good[i]) == Ok::<
        SessionModel,
        Seq<char>,
    >(sessions[i]) by {
        assert(good[i] == lines[i]);
    }
    lemma_one_session_per_line(good, sessions);
    let first = lines.take(bad + 1);
    assert(first.drop_last() =~= good);
    assert(first.is_prefix_of(lines));
    lemma_first_error_decides(lines, first);
}

/// The seconds of `parts`, each of which has to stand for some.
pub open spec fn total_seconds(parts: Seq<Seq<char>>) -> int
    decreases parts.len(),
{
    if parts.len() == 0 {
        0
    } else {
        age_component(parts[0])->Ok_0 + total_seconds(parts.drop_first())
    }
}

proof fn lemma_digits_not_negative(s: Seq<char>, high: int)
    requires
        high >= 0,
    ensures
        digits_spec(s, high) matches Ok(value) ==> value >= 0,
    decreases s.len(),
{
    if s.len() > 0 && is_digit(s[0]) {
        lemma_digits_not_negative(
            s.drop_first(),
            high * 10 + digit_value(s[0]),
        );
    }
}

proof fn lemma_component_not_negative(part: Seq<char>)
    ensures
        age_component(part) matches Ok(seconds) ==> 0 <= seconds <= u64::MAX,
{
    if let Some((number, _)) = age_unit(part) {
        lemma_digits_not_negative(unsigned_part(number), 0);
    }
}

proof fn lemma_total_not_negative(parts: Seq<Seq<char>>)
    requires
        forall|i: int| 0 <= i < parts.len() ==> age_component(#[trigger] parts[i]) is Ok,
    ensures
        total_seconds(parts) >= 0,
    decreases parts.len(),
{
    if parts.len() > 0 {
        let rest = parts.drop_first();
        assert forall|i: int| 0 <= i < rest.len() implies age_component(#[trigger] rest[i]) is Ok by {
            assert(rest[i] == parts[i + 1]);
        }
        assert(age_component(parts[0]) is Ok);
        lemma_component_not_negative(parts[0]);
        lemma_total_not_negative(rest);
    }
}

proof fn lemma_age_sum(parts: Seq<Seq<char>>, total: int, seconds: int)
    requires
        0 <= total <= u64::MAX,
    ensures
        age_sum(parts, total) == Ok::<int, Seq<char>>(seconds) <==> {
            &&& forall|i: int| 0 <= i < parts.len() ==> age_component(#[trigger] parts[i]) is Ok
            &&& total + total_seconds(parts) == seconds
            &&& seconds <= u64::MAX
        },
    decreases parts.len(),
{
    if parts.len() > 0 {
        let rest = parts.drop_first();
        assert(forall|i: int| 0 <= i < rest.len() ==> #[trigger] rest[i] == parts[i + 1]);
        lemma_component_not_negative(parts[0]);
        if age_component(parts[0]) is Ok {
            let first = age_component(parts[0])->Ok_0;
            let all_good = forall|i: int|
                0 <= i < parts.len() ==> age_component(#[trigger] parts[i]) is Ok;
            let rest_good = forall|i: int|
                0 <= i < rest.len() ==> age_component(#[trigger] rest[i]) is Ok;
            assert(all_good ==> rest_good);
            assert(rest_good ==> all_good) by {
                if rest_good {
                    assert forall|i: int| 0 <= i < parts.len() implies age_component(
                        #[trigger] parts[i],
                    ) is Ok by {
                        if i > 0 {
                            assert(rest[i - 1] == parts[i]);
                        }
                    }
                }
            }
            if total + first <= u64::MAX {
                lemma_age_sum(rest, total + first, seconds);
            } else if rest_good {
                lemma_total_not_negative(rest);
            }
        } else {
            assert(age_component(parts[0]) is Err);
        }
    }
}

/// An age is read exactly when it has components, each of them stands for some seconds, and
/// their sum fits in 64 bits; the age is that sum.
pub proof fn law_age_is_the_sum_of_its_components(age: Seq<char>, seconds: int)
    ensures
        age_seconds(age) == Ok::<int, Seq<char>>(seconds) <==> {
            let parts = words_spec(age);
            &&& parts.len() > 0
            &&& forall|i: int| 0 <= i < parts.len() ==> age_component(#[trigger] parts[i]) is Ok
            &&& total_seconds(parts) == seconds
            &&& seconds <= u64::MAX
        },
{
    lemma_age_sum(words_spec(age), 0, seconds);
}

/// Whether a text is not empty and holds no whitespace.
pub open spec fn is_word(s: Seq<char>) -> bool {
    s.len() > 0 && forall|i: int| 0 <= i < s.len() ==> !is_whitespace(#[trigger] s[i])
}

proof fn lemma_word_then_rest(word: Seq<char>, rest: Seq<char>)
    requires
        is_word(word),
        rest.len() > 0 ==> rest[0] == ' ',
    ensures
        words_spec(word + rest) == seq![word] + words_spec(rest),
{
    let s = word + rest;
    let space = |c: char| is_whitespace(c);
    let solid = |c: char| !is_whitespace(c);
    assert(s[0] == word[0]);
    lemma_leading(s, space, 0);
    assert(trim_start_spec(s) =~= s);
    lemma_leading(s, solid, word.len() as int);
    assert(s.take(word.len() as int) =~= word);
    assert(s.skip(word.len() as int) =~= rest);
}

proof fn lemma_words_skip_space(rest: Seq<char>)
    ensures
        words_spec(seq![' '] + rest) == words_spec(rest),
{
    let s = seq![' '] + rest;
    let space = |c: char| is_whitespace(c);
    assert(s.drop_first() =~= rest);
    assert(trim_start_spec(s) =~= trim_start_spec(rest)) by {
        lemma_leading_bounds(rest, space);
    }
}

/// One component of an age as zellij prints it: a number and the letter of its unit.
pub open spec fn component_text(n: u64, letter: char) -> Seq<char> {
    decimal_spec(n as nat).push(letter)
}

proof fn lemma_component_reads_back(n: u64, letter: char)
    requires
        letter == 'h' || letter == 'm' || letter == 's',
    ensures
        is_word(component_text(n, letter)),
        ({
            let seconds = in_seconds(
                n as int,
                if letter == 'h' {
                    3600
                } else if letter == 'm' {
                    60
                } else {
                    1
                },
            );
            seconds <= u64::MAX ==> age_component(component_text(n, letter)) == Ok::<
                int,
                Seq<char>,
            >(seconds)
        }),
{
    reveal_strlit("h");
    reveal_strlit("m");
    reveal_strlit("s");
    let text = component_text(n, letter);
    let digits = decimal_spec(n as nat);
    lemma_digits_of_decimal(n as nat, seq![]);
    law_decimal_reads_back(n);
    assert forall|i: int| 0 <= i < text.len() implies !is_whitespace(#[trigger] text[i]) by {
        if i < digits.len() {
            assert(text[i] == digits[i]);
            assert(is_digit(digits[i]));
        }
    }
    assert(text.take(text.len() - 1) =~= digits);
    assert(text.subrange(text.len() - 1, text.len() as int) =~= seq![letter]);
    assert("h"@.is_suffix_of(text) <==> letter == 'h') by {
        assert("h"@ =~= seq!['h']);
        if "h"@.is_suffix_of(text) {
            assert(text.subrange(text.len() - 1, text.len() as int)[0] == "h"@[0]);
        }
    }
    assert("m"@.is_suffix_of(text) <==> letter == 'm') by {
        assert("m"@ =~= seq!['m']);
        if "m"@.is_suffix_of(text) {
            assert(text.subrange(text.len() - 1, text.len() as int)[0] == "m"@[0]);
        }
    }
    assert("s"@.is_suffix_of(text) <==> letter == 's') by {
        assert("s"@ =~= seq!['s']);
        if "s"@.is_suffix_of(text) {
            assert(text.subrange(text.len() - 1, text.len() as int)[0] == "s"@[0]);
        }
    }
}

/// An age in hours, minutes and seconds is read back in seconds.
pub proof fn law_age_reads_back(hours: u64, minutes: u64, seconds: u64)
    requires
        3600 * hours + 60 * minutes + seconds <= u64::MAX,
    ensures
        age_seconds(
            component_text(hours, 'h') + seq![' '] + component_text(minutes, 'm') + seq![' ']
                + component_text(seconds, 's'),
        ) == Ok::<int, Seq<char>>(3600 * hours + 60 * minutes + seconds),
{
    let h = component_text(hours, 'h');
    let m = component_text(minutes, 'm');
    let s = component_text(seconds, 's');
    lemma_component_reads_back(hours, 'h');
    lemma_component_reads_back(minutes, 'm');
    lemma_component_reads_back(seconds, 's');
    let empty: Seq<char> = seq![];
    lemma_leading(empty, |c: char| is_whitespace(c), 0);
    assert(words_spec(empty) =~= seq![]);
    lemma_word_then_rest(s, empty);
    assert(s + empty =~= s);
    let tail = seq![' '] + s;
    lemma_words_skip_space(s);
    lemma_word_then_rest(m, tail);
    let middle = seq![' '] + (m + tail);
    lemma_words_skip_space(m + tail);
    lemma_word_then_rest(h, middle);
    assert(h + seq![' '] + m + seq![' '] + s =~= h + middle);
    let parts = words_spec(h + middle);
    assert(parts =~= seq![h, m, s]);
    assert(parts.drop_first() =~= seq![m, s]);
    assert(parts.drop_first().drop_first() =~= seq![s]);
    assert(parts.drop_first().drop_first().drop_first() =~= seq![]);
    reveal_with_fuel(age_sum, 4);
}

/// A line that gives a name, an age in brackets and marks is read as the session of that name
/// and age, current or exited as the marks say. The name may hold anything but an earlier
/// beginning of the brackets, and the age anything but a closing bracket.
pub proof fn law_session_line_reads_back(
    name: Seq<char>,
    age: Seq<char>,
    marks: Seq<char>,
    seconds: int,
)
    requires
        first_at(
            name + " [Created "@ + age + " ago]"@ + marks,
            " [Created "@,
            name.len() as int,
        ),
        !age.contains(']'),
        age_seconds(trim_spec(age)) == Ok::<int, Seq<char>>(seconds),
    ensures
        session_line(name + " [Created "@ + age + " ago]"@ + marks) == Ok::<
            SessionModel,
            Seq<char>,
        >(
            (SessionModel {
                name: trim_spec(name),
                created_age_seconds: seconds,
                is_attached: contains_spec(marks, "(current)"@),
                is_exited: contains_spec(marks, "EXITED"@),
            }),
        ),
{
    reveal_strlit(" ago]");
    reveal_strlit(" ago");
    reveal_strlit("]");
    let opening = " [Created "@;
    let line = name + opening + age + " ago]"@ + marks;
    lemma_split_once(line, opening, name.len() as int);
    let rest = age + " ago]"@ + marks;
    assert(line.take(name.len() as int) =~= name);
    assert(line.skip((name.len() + opening.len()) as int) =~= rest);
    let at: int = age.len() + 4int;
    assert(rest.subrange(at, at + 1) =~= "]"@);
    assert forall|before: int| 0 <= before < at implies !occurs_at(rest, "]"@, before) by {
        if occurs_at(rest, "]"@, before) {
            assert(rest.subrange(before, before + 1)[0] == "]"@[0]);
            assert(rest[before] == ']');
            if before < age.len() {
                assert(age[before] == ']');
            } else {
                assert(rest[before] == " ago]"@[before - age.len()]);
            }
        }
    }
    assert(first_at(rest, "]"@, at));
    lemma_split_once(rest, "]"@, at);
    let created = age + " ago"@;
    assert(rest.take(at) =~= created);
    assert(rest.skip(at + 1) =~= marks);
    assert(" ago"@.is_suffix_of(created));
    assert(created.take(created.len() - " ago"@.len()) =~= age);
}

} // verus!
