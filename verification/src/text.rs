//! First-occurrence text search and splicing.
//!
//! The composition engine relies on replacement being *first occurrence
//! only*: a later transition must splice into the earliest open slot. The
//! search is therefore written out as an explicit cursor scan with that
//! guarantee stated, rather than delegated to a library replace.

use vstd::prelude::*;

verus! {

/// `pattern` occurs in `text` starting at position `at`.
pub open spec fn match_at(text: Seq<char>, pattern: Seq<char>, at: int) -> bool {
    &&& 0 <= at
    &&& at + pattern.len() <= text.len()
    &&& text.subrange(at, at + pattern.len()) == pattern
}

/// `pattern` occurs somewhere in `text`.
pub open spec fn occurs(text: Seq<char>, pattern: Seq<char>) -> bool {
    exists|at: int| match_at(text, pattern, at)
}

/// The position of the first occurrence of `pattern` in `text` at or after
/// `from`, scanning left to right; `None` if there is none.
pub open spec fn first_match_from(text: Seq<char>, pattern: Seq<char>, from: int) -> Option<int>
    decreases text.len() - from
        when 0 <= from && 1 <= pattern.len()
{
    if from + pattern.len() > text.len() {
        None
    } else if text.subrange(from, from + pattern.len()) == pattern {
        Some(from)
    } else {
        first_match_from(text, pattern, from + 1)
    }
}

/// The position of the first occurrence of `pattern` in `text`.
pub open spec fn first_match(text: Seq<char>, pattern: Seq<char>) -> Option<int> {
    first_match_from(text, pattern, 0)
}

/// `text` with the first occurrence of `pattern` replaced by `replacement`;
/// `text` unchanged when `pattern` does not occur.
pub open spec fn spec_replace_first(
    text: Seq<char>,
    pattern: Seq<char>,
    replacement: Seq<char>,
) -> Seq<char> {
    match first_match(text, pattern) {
        Some(at) => text.subrange(0, at) + replacement + text.subrange(
            at + pattern.len(),
            text.len() as int,
        ),
        None => text,
    }
}

/// `text` with occurrences of `pattern` deleted, earliest first, until none
/// is left.
pub open spec fn spec_remove_all(text: Seq<char>, pattern: Seq<char>) -> Seq<char>
    decreases text.len()
        when 1 <= pattern.len()
        via spec_remove_all_decreases
{
    match first_match(text, pattern) {
        Some(at) => spec_remove_all(
            text.subrange(0, at) + text.subrange(at + pattern.len(), text.len() as int),
            pattern,
        ),
        None => text,
    }
}

#[via_fn]
proof fn spec_remove_all_decreases(text: Seq<char>, pattern: Seq<char>) {
    match first_match(text, pattern) {
        Some(at) => {
            lemma_first_match_from_some(text, pattern, 0);
        },
        None => {},
    }
}

/// What a hit means: the position found by `first_match_from` carries an
/// occurrence of the pattern, lies at or after `from`, and nothing matches
/// earlier (at or after `from`).
pub proof fn lemma_first_match_from_some(text: Seq<char>, pattern: Seq<char>, from: int)
    requires
        0 <= from,
        1 <= pattern.len(),
    ensures
        first_match_from(text, pattern, from) matches Some(at) ==> {
            &&& from <= at
            &&& match_at(text, pattern, at)
            &&& forall|j: int| from <= j < at ==> !match_at(text, pattern, j)
        },
    decreases text.len() + pattern.len() - from,
{
    if from + pattern.len() > text.len() {
    } else if text.subrange(from, from + pattern.len()) == pattern {
    } else {
        lemma_first_match_from_some(text, pattern, from + 1);
    }
}

/// What a miss means: when `first_match_from` reports no hit, nothing at or
/// after `from` matches.
pub proof fn lemma_first_match_from_none(text: Seq<char>, pattern: Seq<char>, from: int)
    requires
        0 <= from,
        1 <= pattern.len(),
        first_match_from(text, pattern, from) is None,
    ensures
        forall|j: int| from <= j ==> !match_at(text, pattern, j),
    decreases text.len() + pattern.len() - from,
{
    if from + pattern.len() > text.len() {
    } else {
        lemma_first_match_from_none(text, pattern, from + 1);
    }
}

/// `first_match` hits exactly when the pattern occurs at all.
pub proof fn lemma_first_match_occurs(text: Seq<char>, pattern: Seq<char>)
    requires
        1 <= pattern.len(),
    ensures
        occurs(text, pattern) <==> first_match(text, pattern) is Some,
{
    lemma_first_match_from_some(text, pattern, 0);
    if first_match(text, pattern) is None {
        lemma_first_match_from_none(text, pattern, 0);
    }
}

/// Deleting occurrences until none is left indeed leaves none.
pub proof fn lemma_remove_all_no_occurrence(text: Seq<char>, pattern: Seq<char>)
    requires
        1 <= pattern.len(),
    ensures
        !occurs(spec_remove_all(text, pattern), pattern),
    decreases text.len(),
{
    match first_match(text, pattern) {
        Some(at) => {
            lemma_first_match_from_some(text, pattern, 0);
            lemma_remove_all_no_occurrence(
                text.subrange(0, at) + text.subrange(at + pattern.len(), text.len() as int),
                pattern,
            );
        },
        None => {
            lemma_first_match_from_none(text, pattern, 0);
        },
    }
}

/// The final pass is stable: on text with no occurrence of the pattern,
/// deleting occurrences changes nothing.
pub proof fn lemma_remove_all_stable(text: Seq<char>, pattern: Seq<char>)
    requires
        1 <= pattern.len(),
        !occurs(text, pattern),
    ensures
        spec_remove_all(text, pattern) == text,
{
    lemma_first_match_occurs(text, pattern);
}

/// Whether `pattern` occurs in `text` starting exactly at position `at`.
fn matches_at(text: &str, pattern: &str, at: usize) -> (is_match: bool)
    requires
        at + pattern@.len() <= text@.len(),
        text@.len() <= usize::MAX,
    ensures
        is_match == match_at(text@, pattern@, at as int),
{
    let pattern_len = pattern.unicode_len();
    let mut j: usize = 0;
    while j < pattern_len
        invariant
            at + pattern@.len() <= text@.len(),
            text@.len() <= usize::MAX,
            pattern_len == pattern@.len(),
            j <= pattern_len,
            forall|k: int| 0 <= k < j ==> text@[at + k] == pattern@[k],
        decreases pattern_len - j,
    {
        if text.get_char(at + j) != pattern.get_char(j) {
            proof {
                assert(text@.subrange(at as int, at + pattern@.len())[j as int] == text@[at + j]);
            }
            return false;
        }
        j = j + 1;
    }
    proof {
        assert(text@.subrange(at as int, at + pattern@.len()) =~= pattern@);
    }
    true
}

/// The position of the first occurrence of `pattern` in `text`, or `None`.
pub fn find_first(text: &str, pattern: &str) -> (found: Option<usize>)
    requires
        1 <= pattern@.len(),
    ensures
        match found {
            Some(at) => first_match(text@, pattern@) == Some(at as int),
            None => first_match(text@, pattern@) is None,
        },
{
    let text_len = text.unicode_len();
    let pattern_len = pattern.unicode_len();
    if pattern_len > text_len {
        return None;
    }
    let mut i: usize = 0;
    while i <= text_len - pattern_len
        invariant
            1 <= pattern_len == pattern@.len() <= text_len == text@.len() <= usize::MAX,
            i <= text_len - pattern_len + 1,
            first_match(text@, pattern@) == first_match_from(text@, pattern@, i as int),
        decreases text_len - i,
    {
        if matches_at(text, pattern, i) {
            return Some(i);
        }
        i = i + 1;
    }
    None
}

/// `text` with the first occurrence of `pattern` replaced by `replacement`;
/// `text` unchanged when `pattern` does not occur.
pub fn replace_first(text: &str, pattern: &str, replacement: &str) -> (result: String)
    requires
        1 <= pattern@.len(),
    ensures
        result@ == spec_replace_first(text@, pattern@, replacement@),
{
    match find_first(text, pattern) {
        Some(at) => {
            proof {
                lemma_first_match_from_some(text@, pattern@, 0);
            }
            let text_len = text.unicode_len();
            let pattern_len = pattern.unicode_len();
            let mut result = text.substring_char(0, at).to_owned();
            result.append(replacement);
            result.append(text.substring_char(at + pattern_len, text_len));
            result
        },
        None => text.to_owned(),
    }
}

/// `text` with every occurrence of `pattern` deleted, earliest first, until
/// none is left.
pub fn remove_all(text: &str, pattern: &str) -> (result: String)
    requires
        1 <= pattern@.len(),
    ensures
        result@ == spec_remove_all(text@, pattern@),
        !occurs(result@, pattern@),
{
    let pattern_len = pattern.unicode_len();
    let mut result = text.to_owned();
    loop
        invariant
            1 <= pattern_len == pattern@.len(),
            spec_remove_all(result@, pattern@) == spec_remove_all(text@, pattern@),
        decreases result@.len(),
    {
        match find_first(result.as_str(), pattern) {
            Some(at) => {
                proof {
                    lemma_first_match_from_some(result@, pattern@, 0);
                }
                let result_len = result.as_str().unicode_len();
                let mut next = result.as_str().substring_char(0, at).to_owned();
                next.append(result.as_str().substring_char(at + pattern_len, result_len));
                result = next;
            },
            None => {
                proof {
                    lemma_remove_all_no_occurrence(text@, pattern@);
                }
                return result;
            },
        }
    }
}

} // verus!
