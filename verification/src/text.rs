//! Text as sequences of characters: trimming, searching and splitting.
use vstd::prelude::*;

verus! {

/// Whether `c` has the Unicode property `White_Space`.
pub open spec fn is_whitespace(c: char) -> bool {
    let point: u32 = c as u32;
    ||| 0x09 <= point <= 0x0d
    ||| point == 0x20
    ||| point == 0x85
    ||| point == 0xa0
    ||| point == 0x1680
    ||| 0x2000 <= point <= 0x200a
    ||| 0x2028 <= point <= 0x2029
    ||| point == 0x202f
    ||| point == 0x205f
    ||| point == 0x3000
}

/// The length of the longest prefix of `s` whose characters all satisfy `p`.
pub open spec fn leading(s: Seq<char>, p: spec_fn(char) -> bool) -> int
    decreases s.len(),
{
    if s.len() > 0 && p(s[0]) {
        1 + leading(s.drop_first(), p)
    } else {
        0
    }
}

/// The length of the longest suffix of `s` whose characters all satisfy `p`.
pub open spec fn trailing(s: Seq<char>, p: spec_fn(char) -> bool) -> int
    decreases s.len(),
{
    if s.len() > 0 && p(s.last()) {
        1 + trailing(s.drop_last(), p)
    } else {
        0
    }
}

/// `s` without the whitespace at its start.
pub open spec fn trim_start_spec(s: Seq<char>) -> Seq<char> {
    s.skip(leading(s, |c: char| is_whitespace(c)))
}

/// `s` without the whitespace at its end.
pub open spec fn trim_end_spec(s: Seq<char>) -> Seq<char> {
    s.take(s.len() - trailing(s, |c: char| is_whitespace(c)))
}

/// `s` without the whitespace at either end.
pub open spec fn trim_spec(s: Seq<char>) -> Seq<char> {
    trim_end_spec(trim_start_spec(s))
}

/// Whether `pattern` stands in `s` at position `at`.
pub open spec fn occurs_at(s: Seq<char>, pattern: Seq<char>, at: int) -> bool {
    &&& 0 <= at
    &&& at + pattern.len() <= s.len()
    &&& s.subrange(at, at + pattern.len()) == pattern
}

/// Whether `pattern` stands anywhere in `s`.
pub open spec fn contains_spec(s: Seq<char>, pattern: Seq<char>) -> bool {
    exists|at: int| occurs_at(s, pattern, at)
}

/// Whether `at` is the first position at which `pattern` stands in `s`.
pub open spec fn first_at(s: Seq<char>, pattern: Seq<char>, at: int) -> bool {
    &&& occurs_at(s, pattern, at)
    &&& forall|before: int| 0 <= before < at ==> !occurs_at(s, pattern, before)
}

/// The two sides of the first occurrence of `pattern` in `s`, if there is one.
pub open spec fn split_once_spec(s: Seq<char>, pattern: Seq<char>) -> Option<
    (Seq<char>, Seq<char>),
> {
    if contains_spec(s, pattern) {
        let at = choose|at: int| first_at(s, pattern, at);
        Some((s.take(at), s.skip(at + pattern.len())))
    } else {
        None
    }
}

/// What follows `prefix` in `s`, if `s` begins with it.
pub open spec fn strip_prefix_spec(s: Seq<char>, prefix: Seq<char>) -> Option<Seq<char>> {
    if prefix.is_prefix_of(s) {
        Some(s.skip(prefix.len() as int))
    } else {
        None
    }
}

/// What precedes `suffix` in `s`, if `s` ends with it.
pub open spec fn strip_suffix_spec(s: Seq<char>, suffix: Seq<char>) -> Option<Seq<char>> {
    if suffix.is_suffix_of(s) {
        Some(s.take(s.len() - suffix.len()))
    } else {
        None
    }
}

/// A line without the carriage return that may precede its line feed.
pub open spec fn without_return(line: Seq<char>) -> Seq<char> {
    if line.len() > 0 && line.last() == '\r' {
        line.drop_last()
    } else {
        line
    }
}

/// The lines of `s`. A line feed, or a carriage return and a line feed, ends a line;
/// the last line needs no ending.
pub open spec fn lines_spec(s: Seq<char>) -> Seq<Seq<char>>
    decreases s.len(),
{
    let n = leading(s, |c: char| c != '\n');
    if s.len() == 0 {
        seq![]
    } else if n == s.len() {
        seq![s]
    } else {
        proof {
            lemma_leading_bounds(s, |c: char| c != '\n');
        }
        seq![without_return(s.take(n))] + lines_spec(s.skip(n + 1))
    }
}

/// The maximal runs of characters of `s` that hold no whitespace, in order.
pub open spec fn words_spec(s: Seq<char>) -> Seq<Seq<char>>
    decreases s.len(),
{
    let rest = trim_start_spec(s);
    let n = leading(rest, |c: char| !is_whitespace(c));
    if rest.len() == 0 {
        seq![]
    } else {
        proof {
            lemma_leading_bounds(s, |c: char| is_whitespace(c));
            lemma_leading_bounds(rest, |c: char| !is_whitespace(c));
        }
        seq![rest.take(n)] + words_spec(rest.skip(n))
    }
}

/// A prefix that satisfies `p`, and whose next character does not, is the longest one.
pub proof fn lemma_leading(s: Seq<char>, p: spec_fn(char) -> bool, n: int)
    requires
        0 <= n <= s.len(),
        forall|i: int| 0 <= i < n ==> p(#[trigger] s[i]),
        n < s.len() ==> !p(s[n]),
    ensures
        leading(s, p) == n,
    decreases s.len(),
{
    if n > 0 {
        assert(p(s[0]));
        assert forall|i: int| 0 <= i < n - 1 implies p(#[trigger] s.drop_first()[i]) by {
            assert(s.drop_first()[i] == s[i + 1]);
        }
        lemma_leading(s.drop_first(), p, n - 1);
    }
}

/// The longest prefix that satisfies `p` lies in `s` and ends before a character that does
/// not.
pub proof fn lemma_leading_bounds(s: Seq<char>, p: spec_fn(char) -> bool)
    ensures
        0 <= leading(s, p) <= s.len(),
        forall|i: int| 0 <= i < leading(s, p) ==> p(#[trigger] s[i]),
        leading(s, p) < s.len() ==> !p(s[leading(s, p)]),
    decreases s.len(),
{
    if s.len() > 0 && p(s[0]) {
        let rest = s.drop_first();
        lemma_leading_bounds(rest, p);
        assert forall|i: int| 0 <= i < leading(s, p) implies p(#[trigger] s[i]) by {
            if i > 0 {
                assert(s[i] == rest[i - 1]);
            }
        }
    }
}

/// A suffix that satisfies `p`, and which a character that does not precedes, is the longest
/// one.
proof fn lemma_trailing(s: Seq<char>, p: spec_fn(char) -> bool, n: int)
    requires
        0 <= n <= s.len(),
        forall|i: int| s.len() - n <= i < s.len() ==> p(#[trigger] s[i]),
        n < s.len() ==> !p(s[s.len() - n - 1]),
    ensures
        trailing(s, p) == n,
    decreases s.len(),
{
    if n > 0 {
        assert(p(s[s.len() - 1]));
        lemma_trailing(s.drop_last(), p, n - 1);
    }
}

/// Whether `c` is whitespace.
pub fn is_space(c: char) -> (r: bool)
    ensures
        r == is_whitespace(c),
{
    let point: u32 = c as u32;
    (0x09 <= point && point <= 0x0d) || point == 0x20 || point == 0x85 || point == 0xa0 || point
        == 0x1680 || (0x2000 <= point && point <= 0x200a) || (0x2028 <= point && point <= 0x2029)
        || point == 0x202f || point == 0x205f || point == 0x3000
}

/// The characters of `s`.
pub fn chars_of(s: &str) -> (r: Vec<char>)
    ensures
        r@ == s@,
{
    let mut out: Vec<char> = Vec::new();
    for c in it: s.chars()
        invariant
            out@ == it.seq().take(it.index() as int),
            it.seq() == s@,
    {
        out.push(c);
    }
    out
}

/// `s` without the whitespace at either end.
pub fn trim(s: &str) -> (r: &str)
    ensures
        r@ == trim_spec(s@),
{
    let chars = chars_of(s);
    let n: usize = chars.len();
    let ghost p = |c: char| is_whitespace(c);
    let mut from: usize = 0;
    while from < n && is_space(chars[from])
        invariant
            n == chars@.len(),
            from <= n,
            forall|i: int| 0 <= i < from ==> is_whitespace(#[trigger] chars@[i]),
        decreases n - from,
    {
        from = from + 1;
    }
    proof {
        lemma_leading(s@, p, from as int);
    }
    let mut to: usize = n;
    while to > from && is_space(chars[to - 1])
        invariant
            n == chars@.len(),
            from <= to <= n,
            forall|i: int| to <= i < n ==> is_whitespace(#[trigger] chars@[i]),
        decreases to,
    {
        to = to - 1;
    }
    proof {
        let rest = s@.skip(from as int);
        assert forall|i: int| rest.len() - (n - to) <= i < rest.len() implies p(#[trigger] rest[i]) by {
            assert(rest[i] == chars@[i + from]);
        }
        lemma_trailing(rest, p, n - to);
        assert(s@.subrange(from as int, to as int) =~= trim_spec(s@));
    }
    s.substring_char(from, to)
}

/// Whether `pattern` stands in `s` at position `at`.
fn stands_at(s: &Vec<char>, pattern: &Vec<char>, at: usize) -> (r: bool)
    ensures
        r == occurs_at(s@, pattern@, at as int),
{
    if at > s.len() || pattern.len() > s.len() - at {
        return false;
    }
    let mut i: usize = 0;
    while i < pattern.len()
        invariant
            i <= pattern.len(),
            at + pattern.len() <= s.len(),
            forall|j: int| 0 <= j < i ==> s@[at + j] == #[trigger] pattern@[j],
        decreases pattern.len() - i,
    {
        if s[at + i] != pattern[i] {
            assert(s@.subrange(at as int, at + pattern@.len())[i as int] != pattern@[i as int]);
            return false;
        }
        i = i + 1;
    }
    assert(s@.subrange(at as int, at + pattern@.len()) =~= pattern@);
    true
}

/// The first position at which `pattern` stands in `s`.
fn find(s: &Vec<char>, pattern: &Vec<char>) -> (r: Option<usize>)
    ensures
        r is Some <==> contains_spec(s@, pattern@),
        r matches Some(at) ==> first_at(s@, pattern@, at as int),
{
    let mut at: usize = 0;
    while at <= s.len()
        invariant
            at <= s.len() + 1,
            forall|before: int| 0 <= before < at ==> !occurs_at(s@, pattern@, before),
        decreases s.len() + 1 - at,
    {
        if stands_at(s, pattern, at) {
            return Some(at);
        }
        if at == s.len() {
            return None;
        }
        at = at + 1;
    }
    None
}

/// Whether `pattern` stands anywhere in `s`.
pub fn contains(s: &str, pattern: &str) -> (r: bool)
    ensures
        r == contains_spec(s@, pattern@),
{
    find(&chars_of(s), &chars_of(pattern)).is_some()
}

/// The first occurrence of `pattern` is the one that `s` is split at.
pub proof fn lemma_split_once(s: Seq<char>, pattern: Seq<char>, at: int)
    requires
        first_at(s, pattern, at),
    ensures
        split_once_spec(s, pattern) == Some((s.take(at), s.skip(at + pattern.len()))),
{
    assert(occurs_at(s, pattern, at));
    let other = choose|other: int| first_at(s, pattern, other);
    assert(first_at(s, pattern, other));
    assert(other == at);
}

/// The two sides of the first occurrence of `pattern` in `s`, if there is one.
pub fn split_once<'a>(s: &'a str, pattern: &str) -> (r: Option<(&'a str, &'a str)>)
    ensures
        r.deep_view() == split_once_spec(s@, pattern@),
{
    let chars = chars_of(s);
    let wanted = chars_of(pattern);
    let n: usize = chars.len();
    match find(&chars, &wanted) {
        Some(at) => {
            proof {
                lemma_split_once(s@, pattern@, at as int);
                assert(s@.subrange(0, at as int) =~= s@.take(at as int));
                assert(s@.subrange(at + pattern@.len(), s@.len() as int) =~= s@.skip(
                    at + pattern@.len(),
                ));
            }
            Some((s.substring_char(0, at), s.substring_char(at + wanted.len(), n)))
        },
        None => None,
    }
}

/// What follows `prefix` in `s`, if `s` begins with it.
pub fn strip_prefix<'a>(s: &'a str, prefix: &str) -> (r: Option<&'a str>)
    ensures
        r.deep_view() == strip_prefix_spec(s@, prefix@),
{
    let chars = chars_of(s);
    let wanted = chars_of(prefix);
    if stands_at(&chars, &wanted, 0) {
        assert(prefix@.is_prefix_of(s@));
        assert(s@.subrange(prefix@.len() as int, s@.len() as int) =~= s@.skip(
            prefix@.len() as int,
        ));
        Some(s.substring_char(wanted.len(), chars.len()))
    } else {
        assert(!prefix@.is_prefix_of(s@)) by {
            if prefix@.is_prefix_of(s@) {
                assert(s@.subrange(0, prefix@.len() as int) =~= prefix@);
            }
        }
        None
    }
}

/// What precedes `suffix` in `s`, if `s` ends with it.
pub fn strip_suffix<'a>(s: &'a str, suffix: &str) -> (r: Option<&'a str>)
    ensures
        r.deep_view() == strip_suffix_spec(s@, suffix@),
{
    let chars = chars_of(s);
    let wanted = chars_of(suffix);
    if wanted.len() <= chars.len() && stands_at(&chars, &wanted, chars.len() - wanted.len()) {
        assert(suffix@.is_suffix_of(s@));
        assert(s@.subrange(0, s@.len() - suffix@.len()) =~= s@.take(s@.len() - suffix@.len()));
        Some(s.substring_char(0, chars.len() - wanted.len()))
    } else {
        assert(!suffix@.is_suffix_of(s@)) by {
            if suffix@.is_suffix_of(s@) {
                assert(s@.subrange(s@.len() - suffix@.len(), s@.len() as int) =~= suffix@);
            }
        }
        None
    }
}

/// The lines of `s`. A line feed, or a carriage return and a line feed, ends a line;
/// the last line needs no ending.
pub fn lines(s: &str) -> (r: Vec<&str>)
    ensures
        r.deep_view() == lines_spec(s@),
{
    let chars = chars_of(s);
    let n: usize = chars.len();
    let ghost p = |c: char| c != '\n';
    let mut out: Vec<&str> = Vec::new();
    let mut from: usize = 0;
    assert(s@.skip(0) =~= s@);
    assert(out.deep_view() + lines_spec(s@) =~= lines_spec(s@));
    while from < n
        invariant
            n == chars@.len(),
            chars@ == s@,
            from <= n,
            p == (|c: char| c != '\n'),
            out.deep_view() + lines_spec(s@.skip(from as int)) == lines_spec(s@),
        decreases n - from,
    {
        let ghost rest = s@.skip(from as int);
        let ghost before = out.deep_view();
        let mut to: usize = from;
        while to < n && chars[to] != '\n'
            invariant
                n == chars@.len(),
                from <= to <= n,
                forall|i: int| from <= i < to ==> #[trigger] chars@[i] != '\n',
            decreases n - to,
        {
            to = to + 1;
        }
        proof {
            assert forall|i: int| 0 <= i < to - from implies p(#[trigger] rest[i]) by {
                assert(rest[i] == chars@[i + from]);
            }
            lemma_leading(rest, p, to - from);
        }
        if to == n {
            proof {
                assert(s@.subrange(from as int, n as int) =~= rest);
                assert(lines_spec(rest) == seq![rest]);
            }
            out.push(s.substring_char(from, n));
            proof {
                assert(s@.skip(n as int).len() == 0);
                assert(lines_spec(s@.skip(n as int)) =~= seq![]);
                assert(out.deep_view() =~= before.push(rest));
                assert(before.push(rest) + lines_spec(s@.skip(n as int)) =~= before + seq![rest]);
            }
            from = n;
        } else {
            let end: usize = if to > from && chars[to - 1] == '\r' {
                to - 1
            } else {
                to
            };
            proof {
                assert(rest.take(to - from).len() == to - from);
                assert(s@.subrange(from as int, end as int) =~= without_return(
                    rest.take(to - from),
                ));
                assert(rest.skip(to - from + 1) =~= s@.skip(to + 1));
            }
            out.push(s.substring_char(from, end));
            proof {
                let line = without_return(rest.take(to - from));
                assert(out.deep_view() =~= before.push(line));
                assert(before + (seq![line] + lines_spec(s@.skip(to + 1))) =~= before.push(line)
                    + lines_spec(s@.skip(to + 1)));
            }
            from = to + 1;
        }
    }
    assert(s@.skip(n as int).len() == 0);
    assert(out.deep_view() + lines_spec(s@.skip(n as int)) =~= out.deep_view());
    out
}

/// The maximal runs of characters of `s` that hold no whitespace, in order.
pub fn words(s: &str) -> (r: Vec<&str>)
    ensures
        r.deep_view() == words_spec(s@),
{
    let chars = chars_of(s);
    let n: usize = chars.len();
    let ghost space = |c: char| is_whitespace(c);
    let ghost solid = |c: char| !is_whitespace(c);
    let mut out: Vec<&str> = Vec::new();
    let mut from: usize = 0;
    assert(s@.skip(0) =~= s@);
    assert(out.deep_view() + words_spec(s@) =~= words_spec(s@));
    while from < n
        invariant
            n == chars@.len(),
            chars@ == s@,
            from <= n,
            space == (|c: char| is_whitespace(c)),
            solid == (|c: char| !is_whitespace(c)),
            out.deep_view() + words_spec(s@.skip(from as int)) == words_spec(s@),
        decreases n - from,
    {
        let ghost rest = s@.skip(from as int);
        let ghost before = out.deep_view();
        let mut start: usize = from;
        while start < n && is_space(chars[start])
            invariant
                n == chars@.len(),
                from <= start <= n,
                forall|i: int| from <= i < start ==> is_whitespace(#[trigger] chars@[i]),
            decreases n - start,
        {
            start = start + 1;
        }
        let mut to: usize = start;
        while to < n && !is_space(chars[to])
            invariant
                n == chars@.len(),
                start <= to <= n,
                forall|i: int| start <= i < to ==> !is_whitespace(#[trigger] chars@[i]),
            decreases n - to,
        {
            to = to + 1;
        }
        let ghost tail = s@.skip(start as int);
        proof {
            assert forall|i: int| 0 <= i < start - from implies space(#[trigger] rest[i]) by {
                assert(rest[i] == chars@[i + from]);
            }
            lemma_leading(rest, space, start - from);
            assert(trim_start_spec(rest) =~= tail);
            assert forall|i: int| 0 <= i < to - start implies solid(#[trigger] tail[i]) by {
                assert(tail[i] == chars@[i + start]);
            }
            lemma_leading(tail, solid, to - start);
        }
        if start < n {
            let ghost word = tail.take(to - start);
            proof {
                assert(s@.subrange(start as int, to as int) =~= word);
                assert(tail.skip(to - start) =~= s@.skip(to as int));
            }
            out.push(s.substring_char(start, to));
            proof {
                assert(out.deep_view() =~= before.push(word));
                assert(before + (seq![word] + words_spec(s@.skip(to as int))) =~= before.push(word)
                    + words_spec(s@.skip(to as int)));
            }
        } else {
            proof {
                assert(words_spec(rest) =~= seq![]);
                assert(s@.skip(to as int) =~= tail);
                assert(trim_start_spec(tail) =~= tail);
                assert(words_spec(tail) =~= seq![]);
            }
        }
        from = to;
    }
    proof {
        let tail = s@.skip(n as int);
        assert(tail.len() == 0);
        assert(trim_start_spec(tail).len() == 0);
        assert(out.deep_view() + words_spec(tail) =~= out.deep_view());
    }
    out
}

/// Whether `a` and `b` hold the same characters.
pub fn same(a: &str, b: &str) -> (r: bool)
    ensures
        r == (a@ == b@),
{
    let left = chars_of(a);
    let right = chars_of(b);
    assert(left@.subrange(0, left@.len() as int) =~= left@);
    left.len() == right.len() && stands_at(&left, &right, 0)
}

} // verus!
