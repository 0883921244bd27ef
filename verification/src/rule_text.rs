//! The textual form of a rule: birth counts, the separator `s`, survival counts.
//!
//! A rule is written as in `b3s23`. The text up to the first `s` carries the
//! birth counts and the text between the first `s` and the second one (or the
//! end) carries the survival counts. In both parts every digit `0`..`8` is
//! one count, a number of neighbours that a cell can have, and every
//! character that is no numeral is skipped. A numeral that is no such count
//! makes the text ill-formed: the digit `9`, and every numeral from outside
//! ASCII.

use vstd::prelude::*;

verus! {

/// Why a text is no rule.
#[derive(Clone, Copy, Debug, PartialEq, Eq)]
pub enum RuleTextError {
    /// The text holds no `s`.
    MissingSeparator,
    /// One of the two parts holds a numeral from outside ASCII.
    ForeignNumeral,
    /// One of the two parts holds the digit 9: no cell has nine neighbours.
    CountOutOfRange,
}

/// What `char::is_numeric` answers for a character.
pub uninterp spec fn char_is_numeric(c: char) -> bool;

/// Calls `char::is_numeric`, which tells whether the character is in one of
/// Unicode's general categories for numbers. Nothing is proved of the outcome:
/// the contract only gives it its name.
#[verifier::external_body]
fn is_numeric(c: char) -> (numeric: bool)
    ensures
        numeric == char_is_numeric(c),
{
    c.is_numeric()
}

/// A digit that is a count: a cell has between zero and eight neighbours.
pub open spec fn is_count_digit(c: char) -> bool {
    '0' <= c <= '8'
}

/// The count that a digit stands for.
pub open spec fn digit_value(c: char) -> i32 {
    (c as u32 - '0' as u32) as i32
}

/// A numeral that cannot be read as a count.
pub open spec fn is_foreign_numeral(c: char) -> bool {
    c as u32 >= 128 && char_is_numeric(c)
}

/// The number of characters in front of the first `s`; the length of the
/// text if it holds none.
pub open spec fn separator_offset(text: Seq<char>) -> int
    decreases text.len(),
{
    if text.len() == 0 || text[0] == 's' {
        0
    } else {
        1 + separator_offset(text.drop_first())
    }
}

pub open spec fn has_separator(text: Seq<char>) -> bool {
    separator_offset(text) < text.len()
}

/// The part that carries the birth counts.
pub open spec fn born_part(text: Seq<char>) -> Seq<char> {
    text.take(separator_offset(text))
}

/// The part that carries the survival counts, for a text with a separator.
pub open spec fn stay_part(text: Seq<char>) -> Seq<char> {
    let rest = text.skip(separator_offset(text) + 1);
    rest.take(separator_offset(rest))
}

/// The counts that a part spells, in the order of the text.
pub open spec fn counts_of(part: Seq<char>) -> Seq<i32>
    decreases part.len(),
{
    if part.len() == 0 {
        Seq::empty()
    } else if is_count_digit(part.last()) {
        counts_of(part.drop_last()).push(digit_value(part.last()))
    } else {
        counts_of(part.drop_last())
    }
}

/// The digit that is no count.
pub open spec fn is_nine(c: char) -> bool {
    c == '9'
}

/// Whether a part holds a numeral from outside ASCII.
pub open spec fn has_foreign_numeral(part: Seq<char>) -> bool {
    exists|i: int| 0 <= i < part.len() && is_foreign_numeral(#[trigger] part[i])
}

/// Whether a part holds the digit 9.
pub open spec fn has_nine(part: Seq<char>) -> bool {
    exists|i: int| 0 <= i < part.len() && is_nine(#[trigger] part[i])
}

/// What is wrong with a text, if anything. A missing separator is told
/// first, then a numeral from outside ASCII, then the digit 9.
pub open spec fn rule_text_error(text: Seq<char>) -> Option<RuleTextError> {
    if !has_separator(text) {
        Some(RuleTextError::MissingSeparator)
    } else if has_foreign_numeral(born_part(text)) || has_foreign_numeral(stay_part(text)) {
        Some(RuleTextError::ForeignNumeral)
    } else if has_nine(born_part(text)) || has_nine(stay_part(text)) {
        Some(RuleTextError::CountOutOfRange)
    } else {
        None
    }
}

/// The texts that spell a rule.
pub open spec fn is_rule_text(text: Seq<char>) -> bool {
    rule_text_error(text) is None
}

pub open spec fn born_counts(text: Seq<char>) -> Seq<i32> {
    counts_of(born_part(text))
}

pub open spec fn stay_counts(text: Seq<char>) -> Seq<i32> {
    counts_of(stay_part(text))
}

/// A position in front of which no `s` stands, and at which one stands or
/// the text ends, is the separator's offset.
pub proof fn lemma_separator_offset(text: Seq<char>, k: int)
    requires
        0 <= k <= text.len(),
        forall|j: int| 0 <= j < k ==> text[j] != 's',
        k < text.len() ==> text[k] == 's',
    ensures
        separator_offset(text) == k,
    decreases k,
{
    if k > 0 {
        let rest = text.drop_first();
        assert forall|j: int| 0 <= j < k - 1 implies rest[j] != 's' by {
            assert(rest[j] == text[j + 1]);
        }
        lemma_separator_offset(rest, k - 1);
    }
}

proof fn lemma_foreign_numeral_step(part: Seq<char>, longer: Seq<char>, c: char)
    requires
        longer == part.push(c),
    ensures
        has_foreign_numeral(longer) == (has_foreign_numeral(part) || is_foreign_numeral(c)),
{
    if has_foreign_numeral(longer) {
        let i = choose|i: int| 0 <= i < longer.len() && is_foreign_numeral(#[trigger] longer[i]);
        if i < part.len() {
            assert(is_foreign_numeral(part[i]));
        }
    }
    if has_foreign_numeral(part) {
        let i = choose|i: int| 0 <= i < part.len() && is_foreign_numeral(#[trigger] part[i]);
        assert(is_foreign_numeral(longer[i]));
    }
    if is_foreign_numeral(c) {
        assert(is_foreign_numeral(longer[part.len() as int]));
    }
}

proof fn lemma_nine_step(part: Seq<char>, longer: Seq<char>, c: char)
    requires
        longer == part.push(c),
    ensures
        has_nine(longer) == (has_nine(part) || is_nine(c)),
{
    if has_nine(longer) {
        let i = choose|i: int| 0 <= i < longer.len() && is_nine(#[trigger] longer[i]);
        if i < part.len() {
            assert(is_nine(part[i]));
        }
    }
    if has_nine(part) {
        let i = choose|i: int| 0 <= i < part.len() && is_nine(#[trigger] part[i]);
        assert(is_nine(longer[i]));
    }
    if is_nine(c) {
        assert(is_nine(longer[part.len() as int]));
    }
}

/// Reads a rule's two lists of counts from its text, or says why the text is
/// no rule.
pub fn scan_rule_text(text: &str) -> (scanned: Result<(Vec<i32>, Vec<i32>), RuleTextError>)
    ensures
        match scanned {
            Ok(counts) => is_rule_text(text@) && counts.0@ == born_counts(text@) && counts.1@
                == stay_counts(text@),
            Err(error) => rule_text_error(text@) == Some(error),
        },
{
    let mut borns: Vec<i32> = Vec::new();
    let mut stays: Vec<i32> = Vec::new();
    let mut separators: u8 = 0;
    let mut foreign = false;
    let mut nine = false;
    let ghost mut first: int = 0;
    let ghost mut second: int = 0;
    for c in it: text.chars()
        invariant
            it.seq() == text@,
            separators <= 2,
            separators == 0 ==> {
                &&& forall|j: int| 0 <= j < it.index() ==> text@[j] != 's'
                &&& borns@ == counts_of(text@.take(it.index() as int))
                &&& stays@.len() == 0
                &&& foreign == has_foreign_numeral(text@.take(it.index() as int))
                &&& nine == has_nine(text@.take(it.index() as int))
            },
            separators >= 1 ==> {
                &&& 0 <= first < it.index()
                &&& text@[first] == 's'
                &&& forall|j: int| 0 <= j < first ==> text@[j] != 's'
                &&& borns@ == counts_of(text@.take(first))
            },
            separators == 1 ==> {
                &&& forall|j: int| first < j < it.index() ==> text@[j] != 's'
                &&& stays@ == counts_of(text@.subrange(first + 1, it.index() as int))
                &&& foreign == (has_foreign_numeral(text@.take(first)) || has_foreign_numeral(
                    text@.subrange(first + 1, it.index() as int),
                ))
                &&& nine == (has_nine(text@.take(first)) || has_nine(
                    text@.subrange(first + 1, it.index() as int),
                ))
            },
            separators == 2 ==> {
                &&& first < second < it.index()
                &&& text@[second] == 's'
                &&& forall|j: int| first < j < second ==> text@[j] != 's'
                &&& stays@ == counts_of(text@.subrange(first + 1, second))
                &&& foreign == (has_foreign_numeral(text@.take(first)) || has_foreign_numeral(
                    text@.subrange(first + 1, second),
                ))
                &&& nine == (has_nine(text@.take(first)) || has_nine(
                    text@.subrange(first + 1, second),
                ))
            },
    {
        let ghost i = it.index() as int;
        assert(text@[i] == c);
        if separators < 2 {
            let ghost part = if separators == 0 {
                text@.take(i)
            } else {
                text@.subrange(first + 1, i)
            };
            let ghost longer = if separators == 0 {
                text@.take(i + 1)
            } else {
                text@.subrange(first + 1, i + 1)
            };
            assert(longer == part.push(c));
            assert(longer.drop_last() == part);
            if c == 's' {
                separators = separators + 1;
                proof {
                    if separators == 1 {
                        first = i;
                        assert(text@.subrange(first + 1, i + 1) == Seq::<char>::empty());
                        assert(!has_nine(Seq::<char>::empty()));
                        assert(!has_foreign_numeral(Seq::<char>::empty()));
                    } else {
                        second = i;
                    }
                }
            } else {
                if '0' <= c && c <= '8' {
                    let count: i32 = (c as u32 - 48) as i32;
                    if separators == 0 {
                        borns.push(count);
                    } else {
                        stays.push(count);
                    }
                } else if c == '9' {
                    nine = true;
                } else if c as u32 >= 128 {
                    if is_numeric(c) {
                        foreign = true;
                    }
                }
                proof {
                    lemma_foreign_numeral_step(part, longer, c);
                    lemma_nine_step(part, longer, c);
                }
            }
        }
    }
    proof {
        let len = text@.len() as int;
        assert(text@.take(len) == text@);
        if separators == 0 {
            lemma_separator_offset(text@, len);
        } else {
            lemma_separator_offset(text@, first);
            let rest = text@.skip(first + 1);
            let end = if separators == 1 {
                len
            } else {
                second
            };
            assert forall|j: int| 0 <= j < end - first - 1 implies rest[j] != 's' by {
                assert(rest[j] == text@[first + 1 + j]);
            }
            lemma_separator_offset(rest, end - first - 1);
            assert(rest.take(end - first - 1) == text@.subrange(first + 1, end));
        }
    }
    if separators == 0 {
        Err(RuleTextError::MissingSeparator)
    } else if foreign {
        Err(RuleTextError::ForeignNumeral)
    } else if nine {
        Err(RuleTextError::CountOutOfRange)
    } else {
        Ok((borns, stays))
    }
}

/// Every count that a part spells is a number of neighbours that a cell can
/// have.
pub proof fn lemma_counts_are_in_range(part: Seq<char>)
    ensures
        forall|i: int| 0 <= i < counts_of(part).len() ==> 0 <= #[trigger] counts_of(part)[i] <= 8,
    decreases part.len(),
{
    if part.len() > 0 {
        let front = part.drop_last();
        let last = part.last();
        lemma_counts_are_in_range(front);
        if is_count_digit(last) {
            assert(0 <= digit_value(last) <= 8);
        }
        assert forall|i: int| 0 <= i < counts_of(part).len() implies 0 <= #[trigger] counts_of(
            part,
        )[i] <= 8 by {
            if i < counts_of(front).len() {
                assert(counts_of(part)[i] == counts_of(front)[i]);
            }
        }
    }
}

/// The separator's offset lies within the text or at its end.
pub proof fn lemma_separator_offset_range(text: Seq<char>)
    ensures
        0 <= separator_offset(text) <= text.len(),
    decreases text.len(),
{
    if text.len() > 0 && text[0] != 's' {
        lemma_separator_offset_range(text.drop_first());
    }
}

/// The separator stands at its offset, so a text with an `s` has a
/// separator.
pub proof fn lemma_separator_is_found(text: Seq<char>, k: int)
    requires
        0 <= k < text.len(),
        text[k] == 's',
    ensures
        separator_offset(text) <= k,
        text[separator_offset(text)] == 's',
    decreases text.len(),
{
    if text[0] != 's' {
        let rest = text.drop_first();
        assert(rest[k - 1] == text[k]);
        lemma_separator_is_found(rest, k - 1);
        lemma_separator_offset_range(rest);
        assert(rest[separator_offset(rest)] == text[separator_offset(rest) + 1]);
    }
}

/// Every text of ASCII characters with an `s` in it and without the digit 9
/// is a rule text.
pub proof fn lemma_ascii_text_with_separator_is_rule_text(text: Seq<char>, k: int)
    requires
        forall|i: int| 0 <= i < text.len() ==> (#[trigger] text[i]) as u32 <= 127,
        forall|i: int| 0 <= i < text.len() ==> !is_nine(#[trigger] text[i]),
        0 <= k < text.len(),
        text[k] == 's',
    ensures
        is_rule_text(text),
{
    lemma_separator_is_found(text, k);
    lemma_separator_offset_range(text);
    let rest = text.skip(separator_offset(text) + 1);
    lemma_separator_offset_range(rest);
    assert forall|i: int| 0 <= i < stay_part(text).len() implies !is_foreign_numeral(
        #[trigger] stay_part(text)[i],
    ) && !is_nine(stay_part(text)[i]) by {
        assert(stay_part(text)[i] == text[separator_offset(text) + 1 + i]);
    }
    assert forall|i: int| 0 <= i < born_part(text).len() implies !is_foreign_numeral(
        #[trigger] born_part(text)[i],
    ) && !is_nine(born_part(text)[i]) by {
        assert(born_part(text)[i] == text[i]);
    }
}

} // verus!
