//! Settings given as text.

use vstd::prelude::*;

use crate::drift::QuarantineThreshold;
use crate::files::{ascii_lower, to_ascii_lower};
use crate::names::chars_of;
use crate::text::{decimal_digits, digit_char};

verus! {

/// Lanes per networked upstream where nothing else is asked for.
pub const DEFAULT_UPSTREAM_POOL_SIZE: usize = 4;

/// White space in the sense of Unicode.
pub open spec fn white_space(c: char) -> bool {
    ||| '\u{9}' <= c <= '\u{d}'
    ||| c == ' '
    ||| c == '\u{85}'
    ||| c == '\u{a0}'
    ||| c == '\u{1680}'
    ||| '\u{2000}' <= c <= '\u{200a}'
    ||| c == '\u{2028}'
    ||| c == '\u{2029}'
    ||| c == '\u{202f}'
    ||| c == '\u{205f}'
    ||| c == '\u{3000}'
}

fn is_white_space(c: char) -> (b: bool)
    ensures
        b == white_space(c),
{
    ('\u{9}' <= c && c <= '\u{d}') || c == ' ' || c == '\u{85}' || c == '\u{a0}' || c == '\u{1680}'
        || ('\u{2000}' <= c && c <= '\u{200a}') || c == '\u{2028}' || c == '\u{2029}' || c
        == '\u{202f}' || c == '\u{205f}' || c == '\u{3000}'
}

/// The text without white space at either end.
pub open spec fn trimmed(text: Seq<char>) -> Seq<char>
    decreases text.len(),
{
    if text.len() == 0 {
        text
    } else if white_space(text[0]) {
        trimmed(text.drop_first())
    } else if white_space(text.last()) {
        trimmed(text.drop_last())
    } else {
        text
    }
}

fn trim(text: &str) -> (r: Vec<char>)
    ensures
        r@ == trimmed(text@),
{
    let all = chars_of(text);
    let mut from: usize = 0;
    let mut to: usize = all.len();
    proof {
        assert(all@.subrange(0, all@.len() as int) =~= all@);
    }
    while from < to && is_white_space(all[from])
        invariant
            from <= to,
            to == all.len(),
            trimmed(all@) == trimmed(all@.subrange(from as int, to as int)),
        decreases to - from,
    {
        proof {
            let here = all@.subrange(from as int, to as int);
            assert(here[0] == all@[from as int]);
            assert(here.drop_first() =~= all@.subrange(from + 1, to as int));
        }
        from = from + 1;
    }
    while to > from && is_white_space(all[to - 1])
        invariant
            from <= to <= all.len(),
            from < to ==> !white_space(all@[from as int]),
            trimmed(all@) == trimmed(all@.subrange(from as int, to as int)),
        decreases to - from,
    {
        proof {
            let here = all@.subrange(from as int, to as int);
            assert(here[0] == all@[from as int]);
            assert(here.last() == all@[to - 1]);
            assert(here.drop_last() =~= all@.subrange(from as int, to - 1));
            if from == to - 1 {
                assert(here[0] == here.last());
            }
        }
        to = to - 1;
    }
    let mut out: Vec<char> = Vec::new();
    let mut i: usize = from;
    while i < to
        invariant
            from <= i <= to <= all.len(),
            out@ =~= all@.subrange(from as int, i as int),
        decreases to - i,
    {
        out.push(all[i]);
        i = i + 1;
    }
    proof {
        let rest = all@.subrange(from as int, to as int);
        if rest.len() > 0 {
            assert(rest[0] == all@[from as int]);
            assert(rest.last() == all@[to - 1]);
        }
        assert(trimmed(rest) == rest);
    }
    out
}

/// The text is this word, but for the case of ASCII letters.
pub open spec fn spells(text: Seq<char>, word: Seq<char>) -> bool {
    text.map_values(|c: char| ascii_lower(c)) == word
}

fn reads(text: &Vec<char>, word: &str) -> (b: bool)
    ensures
        b == spells(text@, word@),
{
    let letters = chars_of(word);
    let ghost lower = text@.map_values(|c: char| ascii_lower(c));
    if letters.len() != text.len() {
        return false;
    }
    let mut i: usize = 0;
    while i < text.len()
        invariant
            i <= text.len(),
            letters.len() == text.len(),
            letters@ == word@,
            lower == text@.map_values(|c: char| ascii_lower(c)),
            forall|j: int| 0 <= j < i ==> lower[j] == word@[j],
        decreases text.len() - i,
    {
        if to_ascii_lower(text[i]) != letters[i] {
            proof {
                assert(lower[i as int] != word@[i as int]);
            }
            return false;
        }
        i = i + 1;
    }
    proof {
        assert(lower =~= word@);
    }
    true
}

/// The threshold a setting asks for; unset and unknown values ask for none.
pub open spec fn threshold_of(value: Option<Seq<char>>) -> QuarantineThreshold {
    match value {
        None => QuarantineThreshold::Off,
        Some(text) => if spells(trimmed(text), "high"@) {
            QuarantineThreshold::High
        } else if spells(trimmed(text), "medium"@) {
            QuarantineThreshold::Medium
        } else if spells(trimmed(text), "all"@) {
            QuarantineThreshold::All
        } else {
            QuarantineThreshold::Off
        },
    }
}

pub fn parse_quarantine_threshold(value: Option<&str>) -> (r: QuarantineThreshold)
    ensures
        r == threshold_of(value.deep_view()),
{
    let text = match value {
        Some(value) => trim(value),
        None => return QuarantineThreshold::Off,
    };
    if reads(&text, "high") {
        QuarantineThreshold::High
    } else if reads(&text, "medium") {
        QuarantineThreshold::Medium
    } else if reads(&text, "all") {
        QuarantineThreshold::All
    } else {
        QuarantineThreshold::Off
    }
}

/// Whether a tool without an approved version is refused: only `true` and `1`
/// ask for it.
pub fn parse_strict_pending_approval(value: Option<&str>) -> (b: bool)
    ensures
        b == (value is Some && (spells(trimmed(value->0@), "true"@) || spells(
            trimmed(value->0@),
            "1"@,
        ))),
{
    match value {
        Some(value) => {
            let text = trim(value);
            reads(&text, "true") || reads(&text, "1")
        },
        None => false,
    }
}

/// The value of a decimal digit.
pub open spec fn digit_value(c: char) -> Option<nat> {
    if c == '0' { Some(0) } else if c == '1' { Some(1) } else if c == '2' { Some(2) }
    else if c == '3' { Some(3) } else if c == '4' { Some(4) } else if c == '5' { Some(5) }
    else if c == '6' { Some(6) } else if c == '7' { Some(7) } else if c == '8' { Some(8) }
    else if c == '9' { Some(9) } else { None }
}

/// The number that a row of decimal digits stands for.
pub open spec fn digits_value(digits: Seq<char>) -> Option<nat>
    decreases digits.len(),
{
    if digits.len() == 0 {
        Some(0)
    } else {
        match (digits_value(digits.drop_last()), digit_value(digits.last())) {
            (Some(high), Some(low)) => Some(10 * high + low),
            _ => None,
        }
    }
}

/// The number a text stands for: decimal digits, at least one, after an optional
/// plus sign, and no larger than a machine word.
pub open spec fn number_of(text: Seq<char>) -> Option<nat> {
    let digits = if text.len() > 0 && text[0] == '+' {
        text.drop_first()
    } else {
        text
    };
    match digits_value(digits) {
        Some(n) if digits.len() > 0 && n <= usize::MAX => Some(n),
        _ => None,
    }
}

fn digit(c: char) -> (r: Option<usize>)
    ensures
        match r {
            Some(d) => d < 10 && digit_value(c) == Some(d as nat),
            None => digit_value(c) is None,
        },
{
    match c {
        '0' => Some(0),
        '1' => Some(1),
        '2' => Some(2),
        '3' => Some(3),
        '4' => Some(4),
        '5' => Some(5),
        '6' => Some(6),
        '7' => Some(7),
        '8' => Some(8),
        '9' => Some(9),
        _ => None,
    }
}

/// A row of digits stands for at least as much as any longer row divided down.
proof fn lemma_digits_prefix(digits: Seq<char>, n: int)
    requires
        0 <= n <= digits.len(),
        digits_value(digits) is Some,
    ensures
        digits_value(digits.take(n)) is Some,
        digits_value(digits.take(n))->0 <= digits_value(digits)->0,
    decreases digits.len() - n,
{
    if n == digits.len() {
        assert(digits.take(n) =~= digits);
    } else {
        lemma_digits_prefix(digits, n + 1);
        assert(digits.take(n + 1).drop_last() =~= digits.take(n));
    }
}

fn parse_number(text: &Vec<char>) -> (r: Option<usize>)
    ensures
        match r {
            Some(n) => number_of(text@) == Some(n as nat),
            None => number_of(text@) is None,
        },
{
    let start: usize = if text.len() > 0 && text[0] == '+' {
        1
    } else {
        0
    };
    let ghost digits = text@.skip(start as int);
    proof {
        if start == 1 {
            assert(digits =~= text@.drop_first());
        } else {
            assert(digits =~= text@);
        }
    }
    if text.len() == start {
        return None;
    }
    let mut n: usize = 0;
    let mut i: usize = start;
    proof {
        assert(digits.take(0) =~= Seq::empty());
        assert(digits.take(digits.len() as int) =~= digits);
    }
    while i < text.len()
        invariant
            start <= i <= text.len(),
            digits == text@.skip(start as int),
            number_of(text@) == match digits_value(digits) {
                Some(n) if digits.len() > 0 && n <= usize::MAX => Some(n),
                _ => None,
            },
            digits_value(digits.take(i - start)) == Some(n as nat),
        decreases text.len() - i,
    {
        proof {
            let next = digits.take(i - start + 1);
            assert(next.drop_last() =~= digits.take(i - start));
            assert(next.last() == text@[i as int]);
            if digits_value(digits) is Some {
                lemma_digits_prefix(digits, i - start + 1);
            }
        }
        let d: usize = match digit(text[i]) {
            Some(d) => d,
            None => return None,
        };
        let shifted: usize = match n.checked_mul(10) {
            Some(shifted) => shifted,
            None => return None,
        };
        n = match shifted.checked_add(d) {
            Some(sum) => sum,
            None => return None,
        };
        i = i + 1;
    }
    proof {
        assert(digits.take(text.len() - start) =~= digits);
    }
    Some(n)
}

/// The number of lanes a setting asks for: at least one, and the default where
/// it is unset or no number.
pub open spec fn pool_size_of(value: Option<Seq<char>>) -> nat {
    match value {
        None => DEFAULT_UPSTREAM_POOL_SIZE as nat,
        Some(text) => match number_of(trimmed(text)) {
            None => DEFAULT_UPSTREAM_POOL_SIZE as nat,
            Some(n) => if n == 0 {
                1
            } else {
                n
            },
        },
    }
}

pub fn parse_pool_size(value: Option<&str>) -> (n: usize)
    ensures
        n == pool_size_of(value.deep_view()),
        n >= 1,
{
    let text = match value {
        Some(value) => trim(value),
        None => return DEFAULT_UPSTREAM_POOL_SIZE,
    };
    match parse_number(&text) {
        Some(n) => if n == 0 {
            1
        } else {
            n
        },
        None => DEFAULT_UPSTREAM_POOL_SIZE,
    }
}

/// Trimming takes white space from both ends and nothing else: white space before
/// a text or behind it makes no difference, a text that begins and ends with
/// something else stays as it is, and what is left begins and ends so.
pub proof fn trimming_takes_white_space_from_the_ends(text: Seq<char>, c: char)
    ensures
        trimmed(Seq::empty()).len() == 0,
        white_space(c) ==> trimmed(seq![c] + text) == trimmed(text),
        white_space(c) ==> trimmed(text.push(c)) == trimmed(text),
        text.len() > 0 && !white_space(text[0]) && !white_space(text.last()) ==> trimmed(text)
            == text,
        trimmed(text).len() > 0 ==> !white_space(trimmed(text)[0]) && !white_space(
            trimmed(text).last(),
        ),
    decreases text.len(),
{
    assert((seq![c] + text).drop_first() =~= text);
    assert(text.push(c).drop_last() =~= text);
    if text.len() > 0 {
        if white_space(text[0]) {
            assert(text.push(c).drop_first() =~= text.drop_first().push(c));
            trimming_takes_white_space_from_the_ends(text.drop_first(), c);
        } else if white_space(text.last()) {
            trimming_takes_white_space_from_the_ends(text.drop_last(), c);
        }
    } else if white_space(c) {
        assert(text.push(c).drop_first() =~= text);
    }
}

/// Blanks, tabs and line ends are white space, no visible character of ASCII is,
/// and beyond ASCII the spaces and separators of Unicode are.
pub proof fn visible_characters_are_not_white_space(c: char)
    ensures
        white_space(' ') && white_space('\t') && white_space('\n') && white_space('\r'),
        '!' <= c <= '~' ==> !white_space(c),
        white_space(c) <==> ({
            let code = c as int;
            9 <= code <= 13 || code == 32 || code == 133 || code == 160 || code == 5760 || 8192
                <= code <= 8202 || code == 8232 || code == 8233 || code == 8239 || code == 8287
                || code == 12288
        }),
{
}

/// A text spells a word where it is the word but for capital letters.
pub proof fn words_are_spelled_in_either_case(text: Seq<char>, word: Seq<char>)
    ensures
        spells(text, word) <==> text.len() == word.len() && forall|i: int|
            0 <= i < text.len() ==> ascii_lower(#[trigger] text[i]) == word[i],
{
    let lower = text.map_values(|c: char| ascii_lower(c));
    if spells(text, word) {
        assert forall|i: int| 0 <= i < text.len() implies ascii_lower(#[trigger] text[i])
            == word[i] by {
            assert(lower[i] == word[i]);
        }
    }
    if text.len() == word.len() && forall|i: int|
        0 <= i < text.len() ==> ascii_lower(#[trigger] text[i]) == word[i] {
        assert(lower =~= word);
    }
}

/// The threshold is the one whose name the setting spells, with white space
/// around it or not; nothing is quarantined where it is absent or spells none.
pub proof fn thresholds_are_spelled_out(text: Seq<char>)
    ensures
        threshold_of(None) == QuarantineThreshold::Off,
        spells(trimmed(text), "high"@) ==> threshold_of(Some(text)) == QuarantineThreshold::High,
        spells(trimmed(text), "medium"@) ==> threshold_of(Some(text))
            == QuarantineThreshold::Medium,
        spells(trimmed(text), "all"@) ==> threshold_of(Some(text)) == QuarantineThreshold::All,
        !spells(trimmed(text), "high"@) && !spells(trimmed(text), "medium"@) && !spells(
            trimmed(text),
            "all"@,
        ) ==> threshold_of(Some(text)) == QuarantineThreshold::Off,
{
    reveal_strlit("high");
    reveal_strlit("medium");
    reveal_strlit("all");
    words_are_spelled_in_either_case(trimmed(text), "high"@);
    words_are_spelled_in_either_case(trimmed(text), "medium"@);
    words_are_spelled_in_either_case(trimmed(text), "all"@);
    assert("high"@.len() == 4 && "medium"@.len() == 6 && "all"@.len() == 3);
}

proof fn lemma_decimal_value(n: nat)
    ensures
        digits_value(decimal_digits(n)) == Some(n),
        decimal_digits(n).len() > 0,
        forall|i: int|
            0 <= i < decimal_digits(n).len() ==> '0' <= #[trigger] decimal_digits(n)[i] <= '9',
    decreases n,
{
    let digits = decimal_digits(n);
    if n < 10 {
        assert(digits.drop_last() =~= Seq::empty());
        assert(digits_value(Seq::<char>::empty()) == Some(0nat));
        assert(digits.last() == digit_char(n));
        assert(digit_value(digit_char(n)) == Some(n));
    } else {
        lemma_decimal_value(n / 10);
        assert(digits.drop_last() =~= decimal_digits(n / 10));
        assert(digits.last() == digit_char(n % 10));
        assert(digit_value(digit_char(n % 10)) == Some(n % 10));
        assert(10 * (n / 10) + n % 10 == n);
    }
}

/// A number written out in decimal is read back as itself, with a plus before it
/// or not, and any number of lanes that fits is the pool size that is asked for.
pub proof fn written_numbers_are_read_back(n: nat)
    requires
        n <= usize::MAX,
    ensures
        number_of(decimal_digits(n)) == Some(n),
        number_of(seq!['+'] + decimal_digits(n)) == Some(n),
        n > 0 ==> pool_size_of(Some(decimal_digits(n))) == n,
        n == 0 ==> pool_size_of(Some(decimal_digits(n))) == 1,
{
    let digits = decimal_digits(n);
    lemma_decimal_value(n);
    assert('0' <= digits[0] <= '9');
    let signed = seq!['+'] + digits;
    assert(signed.drop_first() =~= digits);
    assert(digits.last() == digits[digits.len() - 1]);
    trimming_takes_white_space_from_the_ends(digits, ' ');
}

/// A text with no digits, with a character that is none, or with a value beyond
/// what fits is no number.
pub proof fn only_digits_make_a_number(digits: Seq<char>, c: char)
    ensures
        number_of(Seq::empty()) is None,
        digit_value(c) is None ==> digits_value(digits.push(c)) is None,
        digits_value(digits) is None ==> digits_value(digits.push(c)) is None,
        digits_value(digits) is Some && digit_value(c) is Some ==> digits_value(digits.push(c))
            == Some(10 * digits_value(digits)->0 + digit_value(c)->0),
        digit_value(c) is Some <==> '0' <= c <= '9',
        digit_value(c) is Some ==> digit_value(c)->0 == c as int - '0' as int,
        number_of(digits) is Some ==> number_of(digits)->0 <= usize::MAX,
{
    assert(digits.push(c).drop_last() =~= digits);
}

/// A pool size that is absent or is no number is the default; it is never zero.
pub proof fn pool_sizes_have_a_default(text: Seq<char>)
    ensures
        pool_size_of(None) == 4,
        number_of(trimmed(text)) is None ==> pool_size_of(Some(text)) == 4,
        number_of(trimmed(text)) == Some(0nat) ==> pool_size_of(Some(text)) == 1,
        number_of(trimmed(text)) is Some && number_of(trimmed(text))->0 > 0 ==> pool_size_of(
            Some(text),
        ) == number_of(trimmed(text))->0,
{
}

} // verus!
