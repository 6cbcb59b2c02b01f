//! The words of the grammar: blanks, decimal literals and names.

use vstd::prelude::*;
use vstd::string::*;

verus! {

/// Whether std counts the character as alphanumeric (the Unicode classes
/// Alphabetic, Nd, Nl and No).
pub uninterp spec fn alphanumeric(c: char) -> bool;

/// Whether std counts the character as white space (the Unicode property
/// White_Space).
pub uninterp spec fn whitespace(c: char) -> bool;

/// `char::is_alphanumeric`: the result is named, nothing more is claimed of it.
#[verifier::external_body]
pub(crate) fn is_alphanumeric(c: char) -> (r: bool)
    ensures
        r == alphanumeric(c),
{
    c.is_alphanumeric()
}

/// `char::is_whitespace`: the result is named, nothing more is claimed of it.
#[verifier::external_body]
pub(crate) fn is_whitespace(c: char) -> (r: bool)
    ensures
        r == whitespace(c),
{
    c.is_whitespace()
}

/// The characters of a string.
pub fn to_chars(text: &str) -> (r: Vec<char>)
    ensures
        r@ == text@,
{
    let n = text.unicode_len();
    let mut out: Vec<char> = Vec::new();
    let mut i: usize = 0;
    while i < n
        invariant
            n == text@.len(),
            0 <= i <= n,
            out@ == text@.subrange(0, i as int),
        decreases n - i,
    {
        out.push(text.get_char(i));
        assert(out@ =~= text@.subrange(0, i + 1));
        i += 1;
    }
    assert(out@ =~= text@);
    out
}

/// Whether a character is a blank or a tab.
pub open spec fn is_blank(c: char) -> bool {
    c == ' ' || c == '\t'
}

/// Whether a character is a decimal digit.
pub open spec fn is_digit(c: char) -> bool {
    '0' <= c && c <= '9'
}

/// Whether a character can continue a name: alphanumeric or an underscore.
pub open spec fn continues_name(c: char) -> bool {
    alphanumeric(c) || c == '_'
}

/// The first position at or after `pos` that holds no blank.
pub open spec fn skip_blanks(s: Seq<char>, pos: int) -> int
    decreases s.len() - pos,
{
    if 0 <= pos < s.len() && is_blank(s[pos]) {
        skip_blanks(s, pos + 1)
    } else {
        pos
    }
}

/// The first position at or after `pos` that holds no digit.
pub open spec fn skip_digits(s: Seq<char>, pos: int) -> int
    decreases s.len() - pos,
{
    if 0 <= pos < s.len() && is_digit(s[pos]) {
        skip_digits(s, pos + 1)
    } else {
        pos
    }
}

/// Digits are skipped forwards, within the text.
pub proof fn lemma_skip_digits(s: Seq<char>, pos: int)
    requires
        0 <= pos <= s.len(),
    ensures
        pos <= skip_digits(s, pos) <= s.len(),
    decreases s.len() - pos,
{
    if pos < s.len() && is_digit(s[pos]) {
        lemma_skip_digits(s, pos + 1);
    }
}

/// Whether `word` stands in `s` at `pos`.
pub open spec fn has_word(s: Seq<char>, pos: int, word: Seq<char>) -> bool {
    0 <= pos && pos + word.len() <= s.len() && s.subrange(pos, pos + word.len()) == word
}

/// A name at `pos`: the position behind it, or the position where it fails.
/// It fails at `pos` where the word does not stand there, and behind the word
/// where the text goes on with a character that continues a name.
pub open spec fn keyword_spec(s: Seq<char>, pos: int, word: Seq<char>) -> Result<int, int> {
    if !has_word(s, pos, word) {
        Err(pos)
    } else if pos + word.len() < s.len() && continues_name(s[pos + word.len()]) {
        Err(pos + word.len())
    } else {
        Ok(pos + word.len())
    }
}

/// A name is not matched where the text goes on with a character that
/// continues a name: no name is found inside a longer one.
pub proof fn lemma_keyword_boundary(s: Seq<char>, pos: int, word: Seq<char>)
    requires
        0 <= pos,
        pos + word.len() < s.len(),
        continues_name(s[pos + word.len()]),
    ensures
        keyword_spec(s, pos, word) is Err,
{
}

/// A decimal literal at `pos`: digits, optionally followed by a point and
/// further digits, or a point followed by digits. The result is the position
/// behind it, or the position where it fails.
pub open spec fn decimal_literal_spec(s: Seq<char>, pos: int) -> Result<int, int> {
    if 0 <= pos < s.len() && is_digit(s[pos]) {
        let p = skip_digits(s, pos);
        if p < s.len() && s[p] == '.' {
            Ok(skip_digits(s, p + 1))
        } else {
            Ok(p)
        }
    } else if 0 <= pos < s.len() && s[pos] == '.' {
        if pos + 1 < s.len() && is_digit(s[pos + 1]) {
            Ok(skip_digits(s, pos + 1))
        } else {
            Err(pos + 1)
        }
    } else {
        Err(pos)
    }
}

/// Skips blanks and tabs.
pub fn blanks(s: &Vec<char>, pos: usize) -> (r: usize)
    requires
        pos <= s.len(),
    ensures
        r == skip_blanks(s@, pos as int),
        pos <= r <= s.len(),
{
    let mut p = pos;
    while p < s.len() && (s[p] == ' ' || s[p] == '\t')
        invariant
            pos <= p <= s.len(),
            skip_blanks(s@, pos as int) == skip_blanks(s@, p as int),
        decreases s.len() - p,
    {
        p += 1;
    }
    p
}

/// Skips decimal digits.
pub fn digits(s: &Vec<char>, pos: usize) -> (r: usize)
    requires
        pos <= s.len(),
    ensures
        r == skip_digits(s@, pos as int),
        pos <= r <= s.len(),
{
    let mut p = pos;
    while p < s.len() && '0' <= s[p] && s[p] <= '9'
        invariant
            pos <= p <= s.len(),
            skip_digits(s@, pos as int) == skip_digits(s@, p as int),
        decreases s.len() - p,
    {
        p += 1;
    }
    p
}

/// Whether the character `c` stands at `pos`.
pub fn at(s: &Vec<char>, pos: usize, c: char) -> (r: bool)
    ensures
        r == (pos < s.len() && s@[pos as int] == c),
{
    pos < s.len() && s[pos] == c
}

/// Whether `word` stands in `s` at `pos`.
pub fn word_at(s: &Vec<char>, pos: usize, word: &str) -> (r: bool)
    requires
        pos <= s.len(),
    ensures
        r == has_word(s@, pos as int, word@),
{
    let n = word.unicode_len();
    if n > s.len() - pos {
        return false;
    }
    let mut i: usize = 0;
    while i < n
        invariant
            n == word@.len(),
            pos + n <= s.len(),
            0 <= i <= n,
            forall|j: int| 0 <= j < i ==> s@[pos + j] == word@[j],
        decreases n - i,
    {
        if s[pos + i] != word.get_char(i) {
            assert(s@.subrange(pos as int, pos + n)[i as int] != word@[i as int]);
            return false;
        }
        i += 1;
    }
    assert(s@.subrange(pos as int, pos + n) =~= word@);
    true
}

/// Matches a name at `pos`.
pub fn keyword(s: &Vec<char>, pos: usize, word: &str) -> (r: Result<usize, usize>)
    requires
        pos <= s.len(),
    ensures
        match keyword_spec(s@, pos as int, word@) {
            Ok(next) => r == Ok::<usize, usize>(next as usize) && pos <= next <= s.len(),
            Err(e) => r == Err::<usize, usize>(e as usize) && pos <= e <= s.len(),
        },
{
    if !word_at(s, pos, word) {
        return Err(pos);
    }
    let next = pos + word.unicode_len();
    if next < s.len() && (is_alphanumeric(s[next]) || s[next] == '_') {
        Err(next)
    } else {
        Ok(next)
    }
}

/// Matches a decimal literal at `pos`.
pub fn decimal_literal(s: &Vec<char>, pos: usize) -> (r: Result<usize, usize>)
    requires
        pos <= s.len(),
    ensures
        match decimal_literal_spec(s@, pos as int) {
            Ok(next) => r == Ok::<usize, usize>(next as usize) && pos < next <= s.len(),
            Err(e) => r == Err::<usize, usize>(e as usize) && pos <= e <= s.len(),
        },
{
    if pos < s.len() && '0' <= s[pos] && s[pos] <= '9' {
        let p = digits(s, pos);
        proof {
            lemma_skip_digits(s@, pos + 1);
            assert(skip_digits(s@, pos as int) == skip_digits(s@, pos + 1));
        }
        if p < s.len() && s[p] == '.' {
            Ok(digits(s, p + 1))
        } else {
            Ok(p)
        }
    } else if pos < s.len() && s[pos] == '.' {
        if pos + 1 < s.len() && '0' <= s[pos + 1] && s[pos + 1] <= '9' {
            Ok(digits(s, pos + 1))
        } else {
            Err(pos + 1)
        }
    } else {
        Err(pos)
    }
}

} // verus!
