//! Text as a sequence of characters: prefixes, suffixes, parts.

use vstd::prelude::*;
use vstd::string::*;

verus! {

/// Pairs of texts, as the contracts see them.
pub open spec fn pair_views(pairs: Seq<(String, String)>) -> Seq<(Seq<char>, Seq<char>)> {
    pairs.map_values(|pair: (String, String)| (pair.0@, pair.1@))
}

/// A text that may be missing, by its view.
pub open spec fn option_view(text: Option<String>) -> Option<Seq<char>> {
    match text {
        Some(text) => Some(text@),
        None => None,
    }
}

/// A text that may be missing, by its view.
pub open spec fn str_view(text: Option<&str>) -> Option<Seq<char>> {
    match text {
        Some(text) => Some(text@),
        None => None,
    }
}

/// Whether `text` begins with `prefix`.
pub open spec fn has_prefix(text: Seq<char>, prefix: Seq<char>) -> bool {
    text.len() >= prefix.len() && text.subrange(0, prefix.len() as int) == prefix
}

/// Whether `text` ends with `suffix`.
pub open spec fn has_suffix(text: Seq<char>, suffix: Seq<char>) -> bool {
    text.len() >= suffix.len() && text.subrange(text.len() - suffix.len(), text.len() as int)
        == suffix
}

/// Whether `part` stands in `text` at `at`.
pub open spec fn stands_at(text: Seq<char>, part: Seq<char>, at: int) -> bool {
    0 <= at && at + part.len() <= text.len() && text.subrange(at, at + part.len()) == part
}

/// Whether `part` stands somewhere in `text`.
pub open spec fn has_part(text: Seq<char>, part: Seq<char>) -> bool {
    exists|at: int| stands_at(text, part, at)
}

/// How many characters of `text` come before what follows its last `mark`:
/// one more than the place of the last `mark`, or none where there is no
/// `mark`.
pub open spec fn tail_start(text: Seq<char>, mark: char) -> int
    decreases text.len(),
{
    if text.len() == 0 {
        0
    } else if text.last() == mark {
        text.len() as int
    } else {
        tail_start(text.drop_last(), mark)
    }
}

/// What follows the last `mark` in `text`; all of it where there is none.
pub open spec fn last_part(text: Seq<char>, mark: char) -> Seq<char> {
    text.skip(tail_start(text, mark))
}

/// The tail starts inside the text, behind a `mark` if anywhere, and holds
/// no `mark`.
pub proof fn lemma_tail_start(text: Seq<char>, mark: char)
    ensures
        0 <= tail_start(text, mark) <= text.len(),
        tail_start(text, mark) > 0 ==> text[tail_start(text, mark) - 1] == mark,
        forall|i: int| tail_start(text, mark) <= i < text.len() ==> text[i] != mark,
    decreases text.len(),
{
    if text.len() > 0 && text.last() != mark {
        lemma_tail_start(text.drop_last(), mark);
        assert forall|i: int| tail_start(text, mark) <= i < text.len() implies text[i]
            != mark by {
            if i < text.len() - 1 {
                assert(text.drop_last()[i] == text[i]);
            }
        }
    }
}

/// A text in lower case, as `str::to_lowercase` gives it.
pub uninterp spec fn lowercase_form(text: Seq<char>) -> Seq<char>;

/// `str::to_lowercase`: the text with every character replaced by its
/// lowercase form, which may be more than one character. The contract gives
/// the result a name and says nothing of it.
#[verifier::external_body]
pub(crate) fn lowercase(text: &str) -> (lower: String)
    ensures
        lower@ == lowercase_form(text@),
{
    text.to_lowercase()
}

/// The characters of a text.
pub fn to_chars(text: &str) -> (chars: Vec<char>)
    ensures
        chars@ == text@,
{
    let mut chars: Vec<char> = Vec::new();
    for c in it: text.chars()
        invariant
            chars@ == it.seq().take(it.index() as int),
            it.seq() == text@,
    {
        chars.push(c);
    }
    chars
}

/// Whether `part` stands in `text` at `at`.
pub fn part_at(text: &Vec<char>, part: &Vec<char>, at: usize) -> (found: bool)
    ensures
        found == stands_at(text@, part@, at as int),
{
    if at > text.len() || part.len() > text.len() - at {
        return false;
    }
    let mut i: usize = 0;
    while i < part.len()
        invariant
            i <= part.len(),
            at + part.len() <= text.len(),
            forall|j: int| 0 <= j < i ==> text@[at + j] == part@[j],
        decreases part.len() - i,
    {
        if text[at + i] != part[i] {
            assert(text@.subrange(at as int, at + part.len())[i as int] != part@[i as int]);
            return false;
        }
        i += 1;
    }
    assert(text@.subrange(at as int, at + part.len()) =~= part@);
    true
}

/// Whether `text` begins with `prefix`.
pub fn starts_with(text: &Vec<char>, prefix: &Vec<char>) -> (found: bool)
    ensures
        found == has_prefix(text@, prefix@),
{
    part_at(text, prefix, 0)
}

/// Whether `text` ends with `suffix`.
pub fn ends_with(text: &Vec<char>, suffix: &Vec<char>) -> (found: bool)
    ensures
        found == has_suffix(text@, suffix@),
{
    if suffix.len() > text.len() {
        return false;
    }
    part_at(text, suffix, text.len() - suffix.len())
}

/// Whether `part` stands somewhere in `text`.
pub fn contains(text: &Vec<char>, part: &Vec<char>) -> (found: bool)
    ensures
        found == has_part(text@, part@),
{
    if part.len() > text.len() {
        assert(!has_part(text@, part@)) by {
            assert forall|at: int| !stands_at(text@, part@, at) by {}
        }
        return false;
    }
    let last: usize = text.len() - part.len();
    let mut at: usize = 0;
    while at < last
        invariant
            at <= last,
            last == text.len() - part.len(),
            forall|before: int| 0 <= before < at ==> !stands_at(text@, part@, before),
        decreases last - at,
    {
        if part_at(text, part, at) {
            return true;
        }
        at += 1;
    }
    if part_at(text, part, last) {
        return true;
    }
    assert(!has_part(text@, part@)) by {
        assert forall|any: int| !stands_at(text@, part@, any) by {}
    }
    false
}

/// Where the part of `text` behind its last `mark` begins.
pub fn tail_index(text: &Vec<char>, mark: char) -> (start: usize)
    ensures
        start == tail_start(text@, mark),
        start <= text.len(),
{
    let mut end: usize = text.len();
    proof {
        lemma_tail_start(text@, mark);
    }
    assert(text@.take(end as int) == text@);
    while end > 0 && text[end - 1] != mark
        invariant
            end <= text.len(),
            tail_start(text@, mark) == tail_start(text@.take(end as int), mark),
        decreases end,
    {
        proof {
            let shorter = text@.take(end as int);
            assert(shorter.last() == text@[end - 1]);
            assert(shorter.drop_last() == text@.take(end - 1));
        }
        end -= 1;
    }
    proof {
        let shorter = text@.take(end as int);
        if end > 0 {
            assert(shorter.last() == text@[end - 1]);
        }
    }
    end
}

/// The digit for a value below ten.
pub open spec fn digit(n: int) -> char {
    seq!['0', '1', '2', '3', '4', '5', '6', '7', '8', '9'][n]
}

/// A natural number in decimal, without leading zeros.
pub open spec fn digits(n: nat) -> Seq<char>
    decreases n,
{
    if n < 10 {
        seq![digit(n as int)]
    } else {
        digits(n / 10).push(digit((n % 10) as int))
    }
}

/// An integer in decimal, with a minus sign where it is negative.
pub open spec fn number_text(n: int) -> Seq<char> {
    if n < 0 {
        seq!['-'] + digits((-n) as nat)
    } else {
        digits(n as nat)
    }
}

/// The text for a digit.
fn digit_text(n: u8) -> (text: &'static str)
    requires
        n < 10,
    ensures
        text@ == seq![digit(n as int)],
{
    proof {
        reveal_strlit("0");
        reveal_strlit("1");
        reveal_strlit("2");
        reveal_strlit("3");
        reveal_strlit("4");
        reveal_strlit("5");
        reveal_strlit("6");
        reveal_strlit("7");
        reveal_strlit("8");
        reveal_strlit("9");
    }
    let text: &'static str = if n == 0 {
        "0"
    } else if n == 1 {
        "1"
    } else if n == 2 {
        "2"
    } else if n == 3 {
        "3"
    } else if n == 4 {
        "4"
    } else if n == 5 {
        "5"
    } else if n == 6 {
        "6"
    } else if n == 7 {
        "7"
    } else if n == 8 {
        "8"
    } else {
        "9"
    };
    assert(text@ =~= seq![digit(n as int)]);
    text
}

/// Appends a natural number in decimal.
pub fn push_digits(text: &mut String, n: u64)
    ensures
        final(text)@ == old(text)@ + digits(n as nat),
    decreases n,
{
    if n >= 10 {
        push_digits(text, n / 10);
    }
    let ghost before = text@;
    text.append(digit_text((n % 10) as u8));
    assert(text@ =~= old(text)@ + digits(n as nat));
}

/// Appends an integer in decimal.
pub fn push_number(text: &mut String, n: i64)
    ensures
        final(text)@ == old(text)@ + number_text(n as int),
{
    if n < 0 {
        proof {
            reveal_strlit("-");
        }
        text.append("-");
        assert("-"@ =~= seq!['-']);
        let magnitude: u64 = (-(n as i128)) as u64;
        push_digits(text, magnitude);
        assert(text@ =~= old(text)@ + number_text(n as int));
    } else {
        push_digits(text, n as u64);
    }
}

} // verus!
