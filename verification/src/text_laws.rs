//! What the text and number functions promise, in terms of the characters alone.
use crate::number::{
    decimal_spec, digit_value, digits_spec, is_digit, parse_u64_spec, signed_decimal_spec,
    unsigned_part, NumberError,
};
use crate::outside::{ascii_lowercase_char, lowercase, text_of, unicode_lowercase};
use crate::text::{
    contains_spec, first_at, is_whitespace, leading, lemma_leading, lemma_leading_bounds,
    lemma_split_once, lines_spec, occurs_at, split_once_spec, strip_prefix_spec,
    strip_suffix_spec, trailing, trim_spec, trim_start_spec, without_return, words_spec,
};
use vstd::prelude::*;
use vstd::utf8::{decode_utf8, encode_utf8, is_ascii_chars, valid_utf8};

verus! {

/// Whether a text holds nothing but whitespace.
pub open spec fn all_space(s: Seq<char>) -> bool {
    forall|i: int| 0 <= i < s.len() ==> is_whitespace(#[trigger] s[i])
}

proof fn lemma_trailing_bounds(s: Seq<char>, p: spec_fn(char) -> bool)
    ensures
        0 <= trailing(s, p) <= s.len(),
        forall|i: int| s.len() - trailing(s, p) <= i < s.len() ==> p(#[trigger] s[i]),
        trailing(s, p) < s.len() ==> !p(s[s.len() - trailing(s, p) - 1]),
    decreases s.len(),
{
    if s.len() > 0 && p(s.last()) {
        let init = s.drop_last();
        lemma_trailing_bounds(init, p);
        assert forall|i: int| s.len() - trailing(s, p) <= i < s.len() implies p(#[trigger] s[i]) by {
            if i < s.len() - 1 {
                assert(s[i] == init[i]);
            }
        }
    }
}

/// Trimming takes whitespace from both ends and nothing else: what is left neither begins nor
/// ends with whitespace.
pub proof fn law_trim_takes_whitespace_from_the_ends(s: Seq<char>)
    ensures
        exists|before: Seq<char>, after: Seq<char>|
            all_space(before) && all_space(after) && s == #[trigger] (before + trim_spec(s)
                + after),
        trim_spec(s).len() > 0 ==> !is_whitespace(trim_spec(s).first()) && !is_whitespace(
            trim_spec(s).last(),
        ),
        trim_spec(s).len() == 0 <==> all_space(s),
{
    let p = |c: char| is_whitespace(c);
    lemma_leading_bounds(s, p);
    let rest = trim_start_spec(s);
    lemma_trailing_bounds(rest, p);
    let n = leading(s, p);
    let m = rest.len() - trailing(rest, p);
    let before = s.take(n);
    let after = rest.skip(m);
    assert(trim_spec(s) == rest.take(m));
    assert(s =~= before + trim_spec(s) + after);
    assert forall|i: int| 0 <= i < before.len() implies is_whitespace(#[trigger] before[i]) by {
        assert(p(s[i]));
    }
    assert forall|i: int| 0 <= i < after.len() implies is_whitespace(#[trigger] after[i]) by {
        assert(p(rest[i + m]));
    }
    if trim_spec(s).len() > 0 {
        assert(rest[0] == s[n]);
        assert(!p(s[n]));
        assert(!p(rest[m - 1]));
    } else {
        assert forall|i: int| 0 <= i < s.len() implies is_whitespace(#[trigger] s[i]) by {
            if i < n {
                assert(p(s[i]));
            } else {
                assert(p(rest[i - n]));
            }
        }
    }
    if all_space(s) && trim_spec(s).len() > 0 {
        assert(is_whitespace(s[n]));
    }
}

/// A text contains exactly what it can be written around.
pub proof fn law_contains_is_being_a_part(s: Seq<char>, pattern: Seq<char>)
    ensures
        contains_spec(s, pattern) <==> exists|left: Seq<char>, right: Seq<char>|
            s == #[trigger] (left + pattern + right),
{
    if contains_spec(s, pattern) {
        let at = choose|at: int| occurs_at(s, pattern, at);
        assert(s =~= s.take(at) + pattern + s.skip(at + pattern.len())) by {
            assert forall|i: int| 0 <= i < pattern.len() implies s[at + i] == #[trigger] pattern[i] by {
                assert(s.subrange(at, at + pattern.len())[i] == pattern[i]);
            }
        }
    }
    if exists|left: Seq<char>, right: Seq<char>| s == #[trigger] (left + pattern + right) {
        let (left, right) = choose|left: Seq<char>, right: Seq<char>|
            s == #[trigger] (left + pattern + right);
        assert(s.subrange(left.len() as int, left.len() + pattern.len() as int) =~= pattern);
        assert(occurs_at(s, pattern, left.len() as int));
    }
}

/// A text is split around the leftmost place at which the pattern stands, and not at all where
/// it stands nowhere.
pub proof fn law_split_is_around_the_leftmost(s: Seq<char>, pattern: Seq<char>)
    ensures
        match split_once_spec(s, pattern) {
            Some((left, right)) => {
                &&& s == left + pattern + right
                &&& forall|other: Seq<char>, rest: Seq<char>|
                    s == #[trigger] (other + pattern + rest) ==> other.len() >= left.len()
            },
            None => forall|left: Seq<char>, right: Seq<char>|
                s != #[trigger] (left + pattern + right),
        },
{
    law_contains_is_being_a_part(s, pattern);
    if contains_spec(s, pattern) {
        let some = choose|at: int| occurs_at(s, pattern, at);
        lemma_first_exists(s, pattern, some);
        let at = choose|at: int| first_at(s, pattern, at);
        assert(first_at(s, pattern, at));
        lemma_split_once(s, pattern, at);
        assert(s =~= s.take(at) + pattern + s.skip(at + pattern.len())) by {
            assert forall|i: int| 0 <= i < pattern.len() implies s[at + i] == #[trigger] pattern[i] by {
                assert(s.subrange(at, at + pattern.len())[i] == pattern[i]);
            }
        }
        assert forall|other: Seq<char>, rest: Seq<char>|
            s == #[trigger] (other + pattern + rest) implies other.len() >= at by {
            assert(s.subrange(other.len() as int, other.len() + pattern.len() as int) =~= pattern);
            assert(occurs_at(s, pattern, other.len() as int));
        }
    }
}

proof fn lemma_first_exists(s: Seq<char>, pattern: Seq<char>, at: int)
    requires
        occurs_at(s, pattern, at),
    ensures
        exists|first: int| first_at(s, pattern, first),
    decreases at,
{
    if exists|before: int| 0 <= before < at && occurs_at(s, pattern, before) {
        let before = choose|before: int| 0 <= before < at && occurs_at(s, pattern, before);
        lemma_first_exists(s, pattern, before);
    } else {
        assert(first_at(s, pattern, at));
    }
}

/// Stripping a prefix gives what follows it, exactly where the text begins with it.
pub proof fn law_strip_prefix_undoes_prefixing(s: Seq<char>, prefix: Seq<char>, rest: Seq<char>)
    ensures
        strip_prefix_spec(s, prefix) == Some(rest) <==> s == prefix + rest,
{
    if s == prefix + rest {
        assert(prefix.is_prefix_of(s));
        assert(s.skip(prefix.len() as int) =~= rest);
    }
    if strip_prefix_spec(s, prefix) == Some(rest) {
        assert(s =~= prefix + rest) by {
            assert(s.subrange(0, prefix.len() as int) =~= prefix);
            assert forall|i: int| 0 <= i < prefix.len() implies s[i] == #[trigger] prefix[i] by {
                assert(s.subrange(0, prefix.len() as int)[i] == prefix[i]);
            }
        }
    }
}

/// Stripping a suffix gives what precedes it, exactly where the text ends with it.
pub proof fn law_strip_suffix_undoes_suffixing(s: Seq<char>, suffix: Seq<char>, rest: Seq<char>)
    ensures
        strip_suffix_spec(s, suffix) == Some(rest) <==> s == rest + suffix,
{
    if s == rest + suffix {
        assert(suffix.is_suffix_of(s));
        assert(s.take(s.len() - suffix.len()) =~= rest);
    }
    if strip_suffix_spec(s, suffix) == Some(rest) {
        let n = s.len() - suffix.len();
        assert(s =~= rest + suffix) by {
            assert forall|i: int| 0 <= i < suffix.len() implies s[n + i] == #[trigger] suffix[i] by {
                assert(s.subrange(n, s.len() as int)[i] == suffix[i]);
            }
        }
    }
}

/// The lines of a text are those of its first line and those after its first line feed. A
/// carriage return before the line feed belongs to the ending, and the last line needs no
/// ending.
pub proof fn law_lines_end_at_line_feeds(line: Seq<char>, rest: Seq<char>)
    requires
        forall|i: int| 0 <= i < line.len() ==> #[trigger] line[i] != '\n',
    ensures
        lines_spec(line) == if line.len() == 0 {
            Seq::<Seq<char>>::empty()
        } else {
            seq![line]
        },
        lines_spec(line + seq!['\r', '\n'] + rest) == seq![line] + lines_spec(rest),
        line.len() == 0 || line.last() != '\r' ==> lines_spec(line + seq!['\n'] + rest) == seq![line]
            + lines_spec(rest),
{
    let p = |c: char| c != '\n';
    lemma_leading(line, p, line.len() as int);
    let returned = line + seq!['\r', '\n'] + rest;
    lemma_leading(returned, p, line.len() + 1int);
    assert(returned.take(line.len() + 1int) =~= line.push('\r'));
    assert(line.push('\r').drop_last() =~= line);
    assert(without_return(line.push('\r')) == line);
    assert(returned.skip(line.len() + 2int) =~= rest);
    let plain = line + seq!['\n'] + rest;
    lemma_leading(plain, p, line.len() as int);
    assert(plain.take(line.len() as int) =~= line);
    assert(plain.skip(line.len() + 1int) =~= rest);
}

/// The words of a text: whitespace before a word is skipped, and whitespace or the end of the
/// text ends it.
pub proof fn law_words_end_at_whitespace(word: Seq<char>, space: char, rest: Seq<char>)
    requires
        is_whitespace(space),
    ensures
        words_spec(seq![]) == Seq::<Seq<char>>::empty(),
        words_spec(seq![space] + rest) == words_spec(rest),
        word.len() > 0 && (forall|i: int|
            0 <= i < word.len() ==> !is_whitespace(#[trigger] word[i])) ==> words_spec(word)
            == seq![word] && words_spec(word + seq![space] + rest) == seq![word] + words_spec(rest),
{
    let blank = |c: char| is_whitespace(c);
    let solid = |c: char| !is_whitespace(c);
    let empty = Seq::<char>::empty();
    lemma_leading(empty, blank, 0);
    assert(words_spec(empty) =~= seq![]);
    assert(seq![] =~= empty);
    let spaced = seq![space] + rest;
    assert(spaced.drop_first() =~= rest);
    lemma_leading_bounds(rest, blank);
    assert(trim_start_spec(spaced) =~= trim_start_spec(rest));
    assert(words_spec(spaced) == words_spec(rest));
    if word.len() > 0 && (forall|i: int|
        0 <= i < word.len() ==> !is_whitespace(#[trigger] word[i])) {
        lemma_leading(word, blank, 0);
        assert(trim_start_spec(word) =~= word);
        lemma_leading(word, solid, word.len() as int);
        assert(word.take(word.len() as int) =~= word);
        assert(word.skip(word.len() as int) =~= empty);
        assert(words_spec(word) =~= seq![word]);
        let s = word + seq![space] + rest;
        assert(s[0] == word[0]);
        lemma_leading(s, blank, 0);
        assert(trim_start_spec(s) =~= s);
        lemma_leading(s, solid, word.len() as int);
        assert(s.take(word.len() as int) =~= word);
        assert(s.skip(word.len() as int) =~= spaced);
        assert(words_spec(s) == seq![word] + words_spec(spaced));
    }
}

/// Whether a text holds nothing but the digits `0` to `9`.
pub open spec fn all_digits(s: Seq<char>) -> bool {
    forall|i: int| 0 <= i < s.len() ==> 48 <= #[trigger] s[i] as int <= 57
}

/// What decimal digits are worth, most significant first.
pub open spec fn worth(s: Seq<char>) -> int
    decreases s.len(),
{
    if s.len() == 0 {
        0
    } else {
        10 * worth(s.drop_last()) + (s.last() as int - 48)
    }
}

/// Whether `digits` is what follows the plus sign, which may be absent, of `s`.
pub open spec fn is_unsigned_part(s: Seq<char>, digits: Seq<char>) -> bool {
    s == digits || s == seq!['+'] + digits
}

proof fn lemma_worth_grows(s: Seq<char>, at: int)
    requires
        0 <= at <= s.len(),
        all_digits(s),
    ensures
        0 <= worth(s.take(at)) <= worth(s),
    decreases s.len() + at,
{
    if at < s.len() {
        let shorter = s.drop_last();
        assert(all_digits(shorter)) by {
            assert forall|i: int| 0 <= i < shorter.len() implies 48 <= #[trigger] shorter[i] as int
                <= 57 by {
                assert(shorter[i] == s[i]);
            }
        }
        lemma_worth_grows(shorter, at);
        assert(shorter.take(at) =~= s.take(at));
        assert(48 <= s[s.len() - 1] as int <= 57);
    } else {
        assert(s.take(at) =~= s);
        if s.len() > 0 {
            let shorter = s.drop_last();
            assert(all_digits(shorter)) by {
                assert forall|i: int| 0 <= i < shorter.len() implies 48
                    <= #[trigger] shorter[i] as int <= 57 by {
                    assert(shorter[i] == s[i]);
                }
            }
            lemma_worth_grows(shorter, shorter.len() as int);
            assert(48 <= s[s.len() - 1] as int <= 57);
        }
    }
}

/// Whether the first digits of `s`, before anything else, are worth more than 64 bits hold.
pub open spec fn overflows(s: Seq<char>) -> bool {
    exists|n: int|
        0 <= n <= s.len() && #[trigger] all_digits(s.take(n)) && worth(s.take(n)) > u64::MAX
}

proof fn lemma_digits_outcome(s: Seq<char>, at: int)
    requires
        0 <= at <= s.len(),
        all_digits(s.take(at)),
        0 <= worth(s.take(at)) <= u64::MAX,
    ensures
        match digits_spec(s.skip(at), worth(s.take(at))) {
            Ok(value) => all_digits(s) && worth(s) == value && 0 <= value <= u64::MAX,
            Err(NumberError::TooLarge) => overflows(s),
            Err(NumberError::InvalidDigit) => !all_digits(s) && !overflows(s),
            Err(NumberError::Empty) => false,
        },
    decreases s.len() - at,
{
    let high = worth(s.take(at));
    if at == s.len() {
        assert(s.take(at) =~= s);
    } else {
        let rest = s.skip(at);
        let next = s.take(at + 1);
        assert(rest[0] == s[at]);
        assert(rest.drop_first() =~= s.skip(at + 1));
        assert(next.drop_last() =~= s.take(at));
        assert(next.last() == s[at]);
        if is_digit(s[at]) {
            assert(all_digits(next)) by {
                assert forall|i: int| 0 <= i < next.len() implies 48 <= #[trigger] next[i] as int
                    <= 57 by {
                    if i < at {
                        assert(next[i] == s.take(at)[i]);
                    }
                }
            }
            assert(worth(next) == high * 10 + digit_value(s[at]));
            if high * 10 + digit_value(s[at]) <= u64::MAX {
                lemma_digits_outcome(s, at + 1);
            }
        } else {
            if overflows(s) {
                let n = choose|n: int|
                    0 <= n <= s.len() && #[trigger] all_digits(s.take(n)) && worth(s.take(n))
                        > u64::MAX;
                if n <= at {
                    assert(s.take(at).take(n) =~= s.take(n));
                    lemma_worth_grows(s.take(at), n);
                } else {
                    assert(s.take(n)[at] == s[at]);
                }
            }
        }
    }
}

/// A text is a number exactly when it is digits, at least one, after a plus sign that may be
/// absent, and they are worth what 64 bits can hold; the number is what they are worth.
pub proof fn law_number_is_what_its_digits_are_worth(s: Seq<char>, digits: Seq<char>)
    requires
        is_unsigned_part(s, digits),
        digits.len() > 0,
        all_digits(digits),
    ensures
        worth(digits) <= u64::MAX ==> parse_u64_spec(s) == Ok::<int, NumberError>(worth(digits)),
        worth(digits) > u64::MAX ==> parse_u64_spec(s) == Err::<int, NumberError>(
            NumberError::TooLarge,
        ),
{
    assert(48 <= digits[0] as int <= 57);
    assert((seq!['+'] + digits).drop_first() =~= digits);
    assert(unsigned_part(s) == digits);
    assert(digits.take(0) =~= seq![]);
    assert(digits.skip(0) =~= digits);
    lemma_digits_outcome(digits, 0);
    if worth(digits) <= u64::MAX && overflows(digits) {
        let n = choose|n: int|
            0 <= n <= digits.len() && #[trigger] all_digits(digits.take(n)) && worth(
                digits.take(n),
            ) > u64::MAX;
        lemma_worth_grows(digits, n);
    }
}

/// Any other text is no number: it is empty, or its first digits are worth too much, or else a
/// character is no digit where a digit has to stand.
pub proof fn law_other_texts_are_no_numbers(s: Seq<char>)
    requires
        forall|digits: Seq<char>|
            #[trigger] is_unsigned_part(s, digits) ==> digits.len() == 0 || !all_digits(digits),
    ensures
        s.len() == 0 <==> parse_u64_spec(s) == Err::<int, NumberError>(NumberError::Empty),
        s.len() > 0 && (exists|digits: Seq<char>| #[trigger]
            is_unsigned_part(s, digits) && overflows(digits)) <==> parse_u64_spec(s) == Err::<
            int,
            NumberError,
        >(NumberError::TooLarge),
        parse_u64_spec(s) is Err,
{
    if s.len() > 0 {
        let digits = unsigned_part(s);
        assert(is_unsigned_part(s, digits)) by {
            if s.len() > 1 && s[0] == '+' {
                assert(s =~= seq!['+'] + s.drop_first());
            }
        }
        assert(digits.take(0) =~= seq![]);
        assert(digits.skip(0) =~= digits);
        lemma_digits_outcome(digits, 0);
        assert forall|other: Seq<char>| #[trigger]
            is_unsigned_part(s, other) && overflows(other) implies overflows(digits) by {
            let n = choose|n: int|
                0 <= n <= other.len() && #[trigger] all_digits(other.take(n)) && worth(
                    other.take(n),
                ) > u64::MAX;
            assert(n > 0);
            assert(48 <= other.take(n)[0] as int <= 57);
            assert(other[0] == other.take(n)[0]);
            if s == seq!['+'] + other {
                assert(s.drop_first() =~= other);
            }
            assert(other == digits);
        }
    } else {
        let empty = Seq::<char>::empty();
        assert(s =~= empty);
    }
}

/// A number is written in the digits that are worth it, without leading zeros; a minus sign
/// stands before the digits of a negative one.
pub proof fn law_decimal_is_worth_the_number(n: nat, i: int)
    ensures
        decimal_spec(n).len() > 0,
        all_digits(decimal_spec(n)),
        worth(decimal_spec(n)) == n,
        decimal_spec(n).len() > 1 ==> decimal_spec(n)[0] != '0',
        i >= 0 ==> signed_decimal_spec(i) == decimal_spec(i as nat),
        i < 0 ==> signed_decimal_spec(i) == seq!['-'] + decimal_spec((-i) as nat),
{
    lemma_decimal_worth(n);
    reveal_strlit("-");
    assert("-"@ =~= seq!['-']);
}

proof fn lemma_decimal_worth(n: nat)
    ensures
        decimal_spec(n).len() > 0,
        all_digits(decimal_spec(n)),
        worth(decimal_spec(n)) == n,
        decimal_spec(n).len() > 1 ==> decimal_spec(n)[0] != '0',
        n > 0 ==> decimal_spec(n)[0] != '0',
    decreases n,
{
    let text = decimal_spec(n);
    if n < 10 {
        assert(text.drop_last() =~= seq![]);
        assert(worth(text.drop_last()) == 0);
    } else {
        let head = decimal_spec(n / 10);
        lemma_decimal_worth(n / 10);
        assert(text.drop_last() =~= head);
        assert(text[0] == head[0]);
        assert forall|i: int| 0 <= i < text.len() implies 48 <= #[trigger] text[i] as int <= 57 by {
            if i < head.len() {
                assert(text[i] == head[i]);
            }
        }
    }
}

proof fn lemma_char_bounds(c: char)
    ensures
        0 <= c as int,
        '\0' <= c,
{
}

/// Lowercase changes the letters `A` to `Z` of a text in ASCII to `a` to `z`, and nothing else
/// of it; any other text takes the Unicode case mapping.
pub proof fn law_lowercase_changes_letters_alone(s: Seq<char>)
    ensures
        (forall|i: int| 0 <= i < s.len() ==> #[trigger] s[i] as int <= 127) ==> {
            &&& lowercase(s).len() == s.len()
            &&& forall|i: int|
                #![trigger s[i]]
                0 <= i < s.len() ==> lowercase(s)[i] as int == if 65 <= s[i] as int <= 90 {
                    s[i] as int + 32
                } else {
                    s[i] as int
                }
        },
        (exists|i: int| 0 <= i < s.len() && #[trigger] s[i] as int > 127) ==> lowercase(s)
            == unicode_lowercase(s),
{
    if forall|i: int| 0 <= i < s.len() ==> #[trigger] s[i] as int <= 127 {
        assert forall|i: int| 0 <= i < s.len() implies '\0' <= #[trigger] s[i] <= '\u{7f}' by {
            lemma_char_bounds(s[i]);
            assert(s[i] as int <= 127);
        }
        assert(is_ascii_chars(s));
        assert forall|i: int| 0 <= i < s.len() implies lowercase(s)[i] as int == if 65
            <= #[trigger] s[i] as int <= 90 {
            s[i] as int + 32
        } else {
            s[i] as int
        } by {
            assert(lowercase(s)[i] == ascii_lowercase_char(s[i]));
        }
    }
}

/// The characters that count as whitespace, by their numbers: the tab to the carriage return,
/// the space, the next line, the no-break space, and the spaces and separators of Unicode.
pub proof fn law_whitespace_characters(c: char)
    ensures
        is_whitespace(c) <==> {
            let n = c as int;
            ||| 9 <= n <= 13
            ||| n == 32
            ||| n == 133
            ||| n == 160
            ||| n == 5760
            ||| 8192 <= n <= 8202
            ||| n == 8232
            ||| n == 8233
            ||| n == 8239
            ||| n == 8287
            ||| n == 12288
        },
{
}

/// Well-formed bytes are read as the text that they encode, all of it.
pub proof fn law_bytes_are_decoded(bytes: Seq<u8>)
    requires
        valid_utf8(bytes),
    ensures
        text_of(bytes) == decode_utf8(bytes),
        encode_utf8(text_of(bytes)) == bytes,
{
    vstd::utf8::decode_utf8_encode_utf8(bytes);
}

} // verus!
