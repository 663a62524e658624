//! Character-level helpers shared by the parser, the decoder and the presenter.
//!
//! Every contract here is stated over `Seq<char>`, the view of `str` and
//! `String`: positions are character positions, never byte offsets.

use vstd::prelude::*;
use vstd::string::*;

verus! {

/// `pattern` stands in `text` at character position `at`.
pub open spec fn occurs_at(text: Seq<char>, at: int, pattern: Seq<char>) -> bool {
    &&& 0 <= at
    &&& at + pattern.len() <= text.len()
    &&& text.subrange(at, at + pattern.len()) == pattern
}

/// `pattern` stands somewhere in `text`.
pub open spec fn occurs(text: Seq<char>, pattern: Seq<char>) -> bool {
    exists|at: int| occurs_at(text, at, pattern)
}

/// `at` is the leftmost position at which `pattern` stands in `text`.
pub open spec fn is_first_occurrence(text: Seq<char>, at: int, pattern: Seq<char>) -> bool {
    &&& occurs_at(text, at, pattern)
    &&& forall|j: int| 0 <= j < at ==> !occurs_at(text, j, pattern)
}

/// `at` is the rightmost position at which `pattern` stands in `text`.
pub open spec fn is_last_occurrence(text: Seq<char>, at: int, pattern: Seq<char>) -> bool {
    &&& occurs_at(text, at, pattern)
    &&& forall|j: int| at < j ==> !occurs_at(text, j, pattern)
}

/// The leftmost position of `pattern` in `text`, if it occurs at all.
pub open spec fn first_occurrence(text: Seq<char>, pattern: Seq<char>) -> Option<int> {
    if occurs(text, pattern) {
        Some(choose|at: int| is_first_occurrence(text, at, pattern))
    } else {
        None
    }
}

/// The rightmost position of `pattern` in `text`, if it occurs at all.
pub open spec fn last_occurrence(text: Seq<char>, pattern: Seq<char>) -> Option<int> {
    if occurs(text, pattern) {
        Some(choose|at: int| is_last_occurrence(text, at, pattern))
    } else {
        None
    }
}

/// A leftmost occurrence is the one `first_occurrence` names.
pub proof fn lemma_first_occurrence(text: Seq<char>, at: int, pattern: Seq<char>)
    requires
        is_first_occurrence(text, at, pattern),
    ensures
        first_occurrence(text, pattern) == Some(at),
{
    let chosen = choose|k: int| is_first_occurrence(text, k, pattern);
    assert(is_first_occurrence(text, chosen, pattern));
    if chosen < at {
        assert(!occurs_at(text, chosen, pattern));
    }
    if at < chosen {
        assert(!occurs_at(text, at, pattern));
    }
}

/// A rightmost occurrence is the one `last_occurrence` names.
pub proof fn lemma_last_occurrence(text: Seq<char>, at: int, pattern: Seq<char>)
    requires
        is_last_occurrence(text, at, pattern),
    ensures
        last_occurrence(text, pattern) == Some(at),
{
    let chosen = choose|k: int| is_last_occurrence(text, k, pattern);
    assert(is_last_occurrence(text, chosen, pattern));
    if chosen < at {
        assert(!occurs_at(text, at, pattern));
    }
    if at < chosen {
        assert(!occurs_at(text, chosen, pattern));
    }
}

/// Where a pattern occurs, it has a leftmost occurrence.
proof fn lemma_leftmost_exists(text: Seq<char>, at: int, pattern: Seq<char>)
    requires
        occurs_at(text, at, pattern),
    ensures
        exists|k: int| is_first_occurrence(text, k, pattern),
    decreases at,
{
    if exists|j: int| 0 <= j < at && occurs_at(text, j, pattern) {
        let j = choose|j: int| 0 <= j < at && occurs_at(text, j, pattern);
        lemma_leftmost_exists(text, j, pattern);
    } else {
        assert(is_first_occurrence(text, at, pattern));
    }
}

/// Where a pattern occurs, it has a rightmost occurrence.
proof fn lemma_rightmost_exists(text: Seq<char>, at: int, pattern: Seq<char>)
    requires
        occurs_at(text, at, pattern),
    ensures
        exists|k: int| is_last_occurrence(text, k, pattern),
    decreases text.len() - at,
{
    if exists|j: int| at < j && occurs_at(text, j, pattern) {
        let j = choose|j: int| at < j && occurs_at(text, j, pattern);
        lemma_rightmost_exists(text, j, pattern);
    } else {
        assert(is_last_occurrence(text, at, pattern));
    }
}

/// What `first_occurrence` names is the leftmost occurrence, and it names one
/// wherever the pattern occurs.
pub proof fn lemma_first_occurrence_is_leftmost(text: Seq<char>, pattern: Seq<char>)
    ensures
        match first_occurrence(text, pattern) {
            Some(at) => is_first_occurrence(text, at, pattern),
            None => forall|j: int| !occurs_at(text, j, pattern),
        },
{
    if occurs(text, pattern) {
        let at = choose|at: int| occurs_at(text, at, pattern);
        lemma_leftmost_exists(text, at, pattern);
    }
}

/// What `last_occurrence` names is the rightmost occurrence, and it names one
/// wherever the pattern occurs.
pub proof fn lemma_last_occurrence_is_rightmost(text: Seq<char>, pattern: Seq<char>)
    ensures
        match last_occurrence(text, pattern) {
            Some(at) => is_last_occurrence(text, at, pattern),
            None => forall|j: int| !occurs_at(text, j, pattern),
        },
{
    if occurs(text, pattern) {
        let at = choose|at: int| occurs_at(text, at, pattern);
        lemma_rightmost_exists(text, at, pattern);
    }
}

/// The characters of `text`, in order.
pub fn chars_of(text: &str) -> (chars: Vec<char>)
    ensures
        chars@ == text@,
{
    let mut chars: Vec<char> = Vec::new();
    for c in it: text.chars()
        invariant
            chars@ == it.seq().take(it.index() as int),
    {
        chars.push(c);
    }
    chars
}

/// Whether two character vectors hold the same text.
pub fn same_chars(a: &Vec<char>, b: &Vec<char>) -> (same: bool)
    ensures
        same == (a@ == b@),
{
    if a.len() != b.len() {
        return false;
    }
    let mut i: usize = 0;
    while i < a.len()
        invariant
            a.len() == b.len(),
            i <= a.len(),
            forall|j: int| 0 <= j < i ==> a@[j] == b@[j],
        decreases a.len() - i,
    {
        if a[i] != b[i] {
            return false;
        }
        i += 1;
    }
    assert(a@ =~= b@);
    true
}

/// Whether `chars` spells exactly `text`.
pub fn spells(chars: &Vec<char>, text: &str) -> (same: bool)
    ensures
        same == (chars@ == text@),
{
    let other = chars_of(text);
    same_chars(chars, &other)
}

/// Whether `pattern` stands in `text` at position `at`.
pub fn matches_at(text: &Vec<char>, at: usize, pattern: &Vec<char>) -> (found: bool)
    ensures
        found == occurs_at(text@, at as int, pattern@),
{
    if pattern.len() > text.len() || at > text.len() - pattern.len() {
        return false;
    }
    let mut k: usize = 0;
    while k < pattern.len()
        invariant
            at + pattern.len() <= text.len(),
            k <= pattern.len(),
            forall|j: int| 0 <= j < k ==> text@[at + j] == pattern@[j],
        decreases pattern.len() - k,
    {
        if text[at + k] != pattern[k] {
            assert(text@.subrange(at as int, at + pattern.len())[k as int] != pattern@[k as int]);
            return false;
        }
        k += 1;
    }
    assert(text@.subrange(at as int, at + pattern.len()) =~= pattern@);
    true
}

/// The leftmost position of `pattern` in `text`.
pub fn find_first(text: &Vec<char>, pattern: &Vec<char>) -> (found: Option<usize>)
    ensures
        match found {
            Some(at) => is_first_occurrence(text@, at as int, pattern@),
            None => !occurs(text@, pattern@),
        },
        match found {
            Some(at) => first_occurrence(text@, pattern@) == Some(at as int),
            None => first_occurrence(text@, pattern@) is None,
        },
{
    let mut i: usize = 0;
    loop
        invariant_except_break
            i <= text.len(),
            forall|j: int| 0 <= j < i ==> !occurs_at(text@, j, pattern@),
        ensures
            forall|j: int| 0 <= j <= text.len() ==> !occurs_at(text@, j, pattern@),
        decreases text.len() - i,
    {
        if matches_at(text, i, pattern) {
            proof {
                lemma_first_occurrence(text@, i as int, pattern@);
            }
            return Some(i);
        }
        if i == text.len() {
            break;
        }
        i += 1;
    }
    None
}

/// The rightmost position of `pattern` in `text`.
pub fn find_last(text: &Vec<char>, pattern: &Vec<char>) -> (found: Option<usize>)
    ensures
        match found {
            Some(at) => is_last_occurrence(text@, at as int, pattern@),
            None => !occurs(text@, pattern@),
        },
        match found {
            Some(at) => last_occurrence(text@, pattern@) == Some(at as int),
            None => last_occurrence(text@, pattern@) is None,
        },
{
    let mut i: usize = text.len();
    loop
        invariant_except_break
            i <= text.len(),
            forall|j: int| i < j ==> !occurs_at(text@, j, pattern@),
        ensures
            forall|j: int| 0 <= j ==> !occurs_at(text@, j, pattern@),
        decreases i,
    {
        if matches_at(text, i, pattern) {
            proof {
                lemma_last_occurrence(text@, i as int, pattern@);
            }
            return Some(i);
        }
        if i == 0 {
            break;
        }
        i -= 1;
    }
    None
}

/// Whether the character `wanted` stands anywhere in `text`.
pub fn has_char(text: &Vec<char>, wanted: char) -> (found: bool)
    ensures
        found == text@.contains(wanted),
{
    let mut i: usize = 0;
    while i < text.len()
        invariant
            i <= text.len(),
            forall|j: int| 0 <= j < i ==> text@[j] != wanted,
        decreases text.len() - i,
    {
        if text[i] == wanted {
            return true;
        }
        i += 1;
    }
    false
}

/// The texts of `parts` in one text, with `separator` between each two.
pub open spec fn joined(parts: Seq<Seq<char>>, separator: Seq<char>) -> Seq<char>
    decreases parts.len(),
{
    if parts.len() == 0 {
        Seq::empty()
    } else if parts.len() == 1 {
        parts[0]
    } else {
        joined(parts.drop_last(), separator) + separator + parts.last()
    }
}

/// Joins `parts` into one text, with `separator` between each two.
pub fn join(parts: &Vec<String>, separator: &str) -> (text: String)
    ensures
        text@ == joined(parts.deep_view(), separator@),
{
    let ghost texts = parts.deep_view();
    let mut text = String::new();
    let mut i: usize = 0;
    assert(texts.take(0) =~= Seq::<Seq<char>>::empty());
    while i < parts.len()
        invariant
            i <= parts.len(),
            texts == parts.deep_view(),
            text@ == joined(texts.take(i as int), separator@),
        decreases parts.len() - i,
    {
        assert(texts.take(i + 1).drop_last() =~= texts.take(i as int));
        assert(texts.take(i + 1).last() == parts@[i as int]@);
        if i > 0 {
            text.append(separator);
        }
        text.append(parts[i].as_str());
        assert(text@ =~= joined(texts.take(i + 1), separator@));
        i += 1;
    }
    assert(texts.take(i as int) =~= texts);
    text
}

/// The lowercase form of `text`, as Unicode defines it for whole strings.
pub uninterp spec fn lowercase_of(text: Seq<char>) -> Seq<char>;

/// `str::to_lowercase` of the standard library. The contract only gives the
/// result its name: Unicode's case mapping is too long to restate here, and
/// it is a function of the text alone.
#[verifier::external_body]
pub(crate) fn lowercase(text: &str) -> (lower: String)
    ensures
        lower@ == lowercase_of(text@),
{
    text.to_lowercase()
}

} // verus!
