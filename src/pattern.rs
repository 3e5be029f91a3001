//! Target patterns: validation against the base58 alphabet and the prefix
//! predicate, with optional ASCII case folding.

use vstd::prelude::*;
use vstd::string::*;

verus! {

/// Shortest target that validation accepts.
pub const MIN_TARGET_LEN: usize = 2;

/// Whether `c` belongs to the bitcoin base58 alphabet: the digits `1`-`9` and
/// the ASCII letters without `0`, `I`, `O` and `l`.
pub open spec fn is_base58_char(c: char) -> bool {
    let u = c as u32;
    ||| 0x31 <= u <= 0x39
    ||| (0x41 <= u <= 0x5a && u != 0x49 && u != 0x4f)
    ||| (0x61 <= u <= 0x7a && u != 0x6c)
}

/// Executable membership test for the base58 alphabet.
pub fn base58_char(c: char) -> (r: bool)
    ensures
        r == is_base58_char(c),
{
    let u = c as u32;
    (0x31 <= u && u <= 0x39) || (0x41 <= u && u <= 0x5a && u != 0x49 && u != 0x4f) || (0x61 <= u
        && u <= 0x7a && u != 0x6c)
}

/// Why a target was refused.
#[derive(Debug, Clone, Copy, PartialEq, Eq, Structural)]
pub enum PatternError {
    /// The first character that is not in the base58 alphabet.
    InvalidChar(char),
    /// Every character is valid, but there are fewer than `MIN_TARGET_LEN`.
    TooShort,
}

/// Every character of `s` is in the base58 alphabet.
pub open spec fn all_base58(s: Seq<char>) -> bool {
    forall|i: int| 0 <= i < s.len() ==> is_base58_char(#[trigger] s[i])
}

/// `i` is the index of the first character of `s` outside the base58
/// alphabet.
pub open spec fn first_invalid(s: Seq<char>, i: int) -> bool {
    &&& 0 <= i < s.len()
    &&& !is_base58_char(s[i])
    &&& forall|j: int| 0 <= j < i ==> is_base58_char(#[trigger] s[j])
}

/// Checks a target prefix: characters first, in order, then the length.
pub fn validate_target(target: &str) -> (r: Result<(), PatternError>)
    ensures
        r is Ok <==> all_base58(target@) && target@.len() >= MIN_TARGET_LEN,
        r == Err::<(), PatternError>(PatternError::TooShort) <==> all_base58(target@)
            && target@.len() < MIN_TARGET_LEN,
        r matches Err(PatternError::InvalidChar(c)) ==> exists|i: int|
            first_invalid(target@, i) && target@[i] == c,
{
    let n = target.unicode_len();
    let mut i: usize = 0;
    while i < n
        invariant
            n == target@.len(),
            i <= n,
            forall|j: int| 0 <= j < i ==> is_base58_char(#[trigger] target@[j]),
        decreases n - i,
    {
        let c = target.get_char(i);
        if !base58_char(c) {
            assert(first_invalid(target@, i as int));
            return Err(PatternError::InvalidChar(c));
        }
        i += 1;
    }
    if n < MIN_TARGET_LEN {
        Err(PatternError::TooShort)
    } else {
        Ok(())
    }
}

/// A prefix to search for, and whether letters match regardless of case.
pub struct TargetPattern {
    pub text: String,
    pub case_insensitive: bool,
}

/// ASCII case folding of one character, as a code point: `A`-`Z` map to
/// `a`-`z`, everything else to itself.
pub open spec fn fold_case(c: char) -> u32 {
    let u = c as u32;
    if 0x41 <= u <= 0x5a {
        (u + 32) as u32
    } else {
        u
    }
}

/// ASCII upper-casing of one character.
pub open spec fn ascii_upper(c: char) -> char {
    let u = c as u32;
    if 0x61 <= u <= 0x7a {
        (u - 32) as char
    } else {
        c
    }
}

/// ASCII lower-casing of one character.
pub open spec fn ascii_lower(c: char) -> char {
    let u = c as u32;
    if 0x41 <= u <= 0x5a {
        (u + 32) as char
    } else {
        c
    }
}

pub open spec fn upper_text(s: Seq<char>) -> Seq<char> {
    s.map_values(|c: char| ascii_upper(c))
}

pub open spec fn lower_text(s: Seq<char>) -> Seq<char> {
    s.map_values(|c: char| ascii_lower(c))
}

/// Two characters are the same for the pattern: equal, or equal after
/// folding when the pattern ignores case.
pub open spec fn chars_agree(a: char, b: char, case_insensitive: bool) -> bool {
    if case_insensitive {
        fold_case(a) == fold_case(b)
    } else {
        a == b
    }
}

/// `text` is a prefix of `encoded`, character by character.
pub open spec fn is_match(encoded: Seq<char>, text: Seq<char>, case_insensitive: bool) -> bool {
    &&& text.len() <= encoded.len()
    &&& forall|i: int| 0 <= i < text.len() ==> chars_agree(#[trigger] encoded[i], text[i], case_insensitive)
}

impl TargetPattern {
    /// Whether the pattern accepts an encoded identifier.
    pub open spec fn accepts(&self, encoded: Seq<char>) -> bool {
        is_match(encoded, self.text@, self.case_insensitive)
    }
}

fn fold_char(c: char) -> (r: u32)
    ensures
        r == fold_case(c),
{
    let u = c as u32;
    if 0x41 <= u && u <= 0x5a {
        u + 32
    } else {
        u
    }
}

/// Whether `encoded` starts with the pattern's text; with case folding on
/// both sides when the pattern ignores case. Never reads past either string.
pub fn matches(encoded: &str, pattern: &TargetPattern) -> (r: bool)
    ensures
        r == pattern.accepts(encoded@),
{
    let text = pattern.text.as_str();
    let n = encoded.unicode_len();
    let k = text.unicode_len();
    if k > n {
        return false;
    }
    let mut i: usize = 0;
    while i < k
        invariant
            n == encoded@.len(),
            k == text@.len(),
            text@ == pattern.text@,
            k <= n,
            i <= k,
            forall|j: int| 0 <= j < i ==> chars_agree(#[trigger] encoded@[j], text@[j], pattern.case_insensitive),
        decreases k - i,
    {
        let a = encoded.get_char(i);
        let b = text.get_char(i);
        let agree = if pattern.case_insensitive {
            fold_char(a) == fold_char(b)
        } else {
            a == b
        };
        if !agree {
            return false;
        }
        i += 1;
    }
    true
}

/// A target longer than the encoded text never matches it.
pub proof fn lemma_longer_target_never_matches(encoded: Seq<char>, text: Seq<char>, case_insensitive: bool)
    requires
        text.len() > encoded.len(),
    ensures
        !is_match(encoded, text, case_insensitive),
{
}

proof fn lemma_fold_ignores_case(c: char)
    ensures
        fold_case(ascii_upper(c)) == fold_case(c),
        fold_case(ascii_lower(c)) == fold_case(c),
{
}

/// Texts that are equal up to ASCII case match alike under a pattern that
/// ignores case.
pub proof fn lemma_match_up_to_case(e1: Seq<char>, e2: Seq<char>, t1: Seq<char>, t2: Seq<char>)
    requires
        e1.len() == e2.len(),
        t1.len() == t2.len(),
        forall|i: int| 0 <= i < e1.len() ==> fold_case(#[trigger] e1[i]) == fold_case(e2[i]),
        forall|i: int| 0 <= i < t1.len() ==> fold_case(#[trigger] t1[i]) == fold_case(t2[i]),
    ensures
        is_match(e1, t1, true) == is_match(e2, t2, true),
{
    if is_match(e1, t1, true) {
        assert forall|i: int| 0 <= i < t2.len() implies chars_agree(#[trigger] e2[i], t2[i], true) by {
            assert(chars_agree(e1[i], t1[i], true));
        }
    }
    if is_match(e2, t2, true) {
        assert forall|i: int| 0 <= i < t1.len() implies chars_agree(#[trigger] e1[i], t1[i], true) by {
            assert(chars_agree(e2[i], t2[i], true));
        }
    }
}

/// Under a pattern that ignores case, upper- or lower-casing the target or
/// the encoded text, each on its own, does not change whether they match.
pub proof fn lemma_case_insensitive_match(encoded: Seq<char>, text: Seq<char>)
    ensures
        is_match(upper_text(encoded), text, true) == is_match(encoded, text, true),
        is_match(lower_text(encoded), text, true) == is_match(encoded, text, true),
        is_match(encoded, upper_text(text), true) == is_match(encoded, text, true),
        is_match(encoded, lower_text(text), true) == is_match(encoded, text, true),
{
    assert forall|i: int| 0 <= i < encoded.len() implies fold_case(#[trigger] upper_text(encoded)[i])
        == fold_case(encoded[i]) && fold_case(lower_text(encoded)[i]) == fold_case(encoded[i]) by {
        lemma_fold_ignores_case(encoded[i]);
    }
    assert forall|i: int| 0 <= i < text.len() implies fold_case(#[trigger] upper_text(text)[i])
        == fold_case(text[i]) && fold_case(lower_text(text)[i]) == fold_case(text[i]) by {
        lemma_fold_ignores_case(text[i]);
    }
    lemma_match_up_to_case(upper_text(encoded), encoded, text, text);
    lemma_match_up_to_case(lower_text(encoded), encoded, text, text);
    lemma_match_up_to_case(encoded, encoded, upper_text(text), text);
    lemma_match_up_to_case(encoded, encoded, lower_text(text), text);
}

} // verus!
