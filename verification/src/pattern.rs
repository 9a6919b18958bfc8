//! The pattern classifier: decides which of the two migration rules, if any,
//! applies to a piece of source text.
//!
//! The call-chain rule matches any of the three zero-argument conversion
//! suffixes `.pack()`, `.into()`, `.unpack()`; the default rule matches the
//! literal word `Default`. The call-chain rule is checked first and the
//! default rule second, so at most one rule applies to a given text.

use vstd::prelude::*;

verus! {

use vstd::string::StrSliceExecFns;

/// Which migration rule applies to a piece of source text.
#[derive(Clone, Copy, Debug, PartialEq, Eq, Structural)]
pub enum PatternKind {
    /// A redundant conversion-call suffix is present and is to be removed.
    CallChainStrip,
    /// The word `Default` is present and is to be replaced by an explicit type.
    DefaultTypeFill,
    /// Neither rule applies; the text is ignored.
    NoMatch,
}

/// The call-chain suffix `.pack()`.
pub open spec fn pack_pat() -> Seq<char> {
    ".pack()"@
}

/// The call-chain suffix `.into()`.
pub open spec fn into_pat() -> Seq<char> {
    ".into()"@
}

/// The call-chain suffix `.unpack()`.
pub open spec fn unpack_pat() -> Seq<char> {
    ".unpack()"@
}

/// The word the default rule looks for.
pub open spec fn default_pat() -> Seq<char> {
    "Default"@
}

/// `p` occurs in `s` starting at position `i`.
pub open spec fn has_pat_at(s: Seq<char>, p: Seq<char>, i: int) -> bool {
    &&& 0 <= i
    &&& i + p.len() <= s.len()
    &&& forall|k: int| 0 <= k < p.len() ==> s[i + k] == p[k]
}

/// Length of the call-chain suffix starting at position `i` of `s`, or 0 if
/// none starts there. At most one of the three suffixes can start at a given
/// position, since they differ in their second character.
pub open spec fn call_match_len(s: Seq<char>, i: int) -> nat {
    if has_pat_at(s, pack_pat(), i) || has_pat_at(s, into_pat(), i) {
        7
    } else if has_pat_at(s, unpack_pat(), i) {
        9
    } else {
        0
    }
}

/// Some call-chain suffix occurs somewhere in `s`.
pub open spec fn has_call_chain(s: Seq<char>) -> bool {
    exists|i: int| call_match_len(s, i) > 0
}

/// The word `Default` occurs somewhere in `s`.
pub open spec fn has_default(s: Seq<char>) -> bool {
    exists|i: int| has_pat_at(s, default_pat(), i)
}

/// Classification of one piece of source text: the call-chain rule is
/// checked first, the default rule second, and otherwise no rule applies.
pub open spec fn classify_spec(s: Seq<char>) -> PatternKind {
    if has_call_chain(s) {
        PatternKind::CallChainStrip
    } else if has_default(s) {
        PatternKind::DefaultTypeFill
    } else {
        PatternKind::NoMatch
    }
}

/// The lengths of the four pattern words.
pub proof fn lemma_pattern_lens()
    ensures
        pack_pat().len() == 7,
        into_pat().len() == 7,
        unpack_pat().len() == 9,
        default_pat().len() == 7,
{
    reveal_strlit(".pack()");
    reveal_strlit(".into()");
    reveal_strlit(".unpack()");
    reveal_strlit("Default");
}

/// A call-chain match at `i` fits inside `s`: it reaches no further than the
/// end of the text.
pub proof fn lemma_match_in_bounds(s: Seq<char>, i: int)
    requires
        call_match_len(s, i) > 0,
    ensures
        0 <= i,
        i + call_match_len(s, i) <= s.len(),
{
    lemma_pattern_lens();
}

/// Occurrence of a pattern in a suffix of `s`, at a non-negative position,
/// is occurrence in `s` at the shifted position.
pub proof fn lemma_pat_at_skip(s: Seq<char>, p: Seq<char>, d: int, i: int)
    requires
        0 <= d <= s.len(),
        0 <= i,
    ensures
        has_pat_at(s.skip(d), p, i) == has_pat_at(s, p, d + i),
{
    if has_pat_at(s.skip(d), p, i) {
        assert forall|k: int| 0 <= k < p.len() implies s[d + i + k] == p[k] by {
            assert(s.skip(d)[i + k] == p[k]);
        }
        assert(has_pat_at(s, p, d + i));
    }
    if has_pat_at(s, p, d + i) {
        assert forall|k: int| 0 <= k < p.len() implies s.skip(d)[i + k] == p[k] by {
            assert(s[d + i + k] == p[k]);
        }
        assert(has_pat_at(s.skip(d), p, i));
    }
}

/// The call-chain match length in a suffix of `s` equals the match length at
/// the shifted position of `s`.
pub proof fn lemma_match_len_skip(s: Seq<char>, d: int, i: int)
    requires
        0 <= d <= s.len(),
        0 <= i,
    ensures
        call_match_len(s.skip(d), i) == call_match_len(s, d + i),
{
    lemma_pat_at_skip(s, pack_pat(), d, i);
    lemma_pat_at_skip(s, into_pat(), d, i);
    lemma_pat_at_skip(s, unpack_pat(), d, i);
}

/// When both rules could match, the call-chain rule wins: classification
/// checks the call-chain pattern first.
pub proof fn lemma_classify_order(s: Seq<char>)
    requires
        has_call_chain(s),
        has_default(s),
    ensures
        classify_spec(s) == PatternKind::CallChainStrip,
{
}

/// `p` occurs in `s` starting at position `i`.
pub(crate) fn pattern_at(s: &Vec<char>, i: usize, p: &str) -> (b: bool)
    requires
        i <= s@.len(),
    ensures
        b == has_pat_at(s@, p@, i as int),
{
    let n = s.len();
    let plen = p.unicode_len();
    if n - i < plen {
        return false;
    }
    let mut j: usize = 0;
    while j < plen
        invariant
            n == s@.len(),
            i + plen <= n,
            0 <= j <= plen,
            plen == p@.len(),
            forall|k: int| 0 <= k < j ==> s@[i + k] == p@[k],
        decreases plen - j,
    {
        if s[i + j] != p.get_char(j) {
            assert(s@[i + j] != p@[j as int]);
            return false;
        }
        j += 1;
    }
    true
}

/// Length of the call-chain suffix starting at position `i`, or 0.
pub(crate) fn call_match_len_at(s: &Vec<char>, i: usize) -> (l: usize)
    requires
        i <= s@.len(),
    ensures
        l == call_match_len(s@, i as int),
{
    if pattern_at(s, i, ".pack()") || pattern_at(s, i, ".into()") {
        7
    } else if pattern_at(s, i, ".unpack()") {
        9
    } else {
        0
    }
}

/// Whether some call-chain suffix occurs in `s`.
fn scan_call_chain(s: &Vec<char>) -> (b: bool)
    ensures
        b == has_call_chain(s@),
{
    let n = s.len();
    let mut i: usize = 0;
    while i < n
        invariant
            0 <= i <= n,
            n == s@.len(),
            forall|j: int| 0 <= j < i ==> call_match_len(s@, j) == 0,
        decreases n - i,
    {
        if call_match_len_at(s, i) > 0 {
            return true;
        }
        i += 1;
    }
    proof {
        lemma_pattern_lens();
        assert forall|j: int| call_match_len(s@, j) == 0 by {
            if 0 <= j < n {
            } else {
                assert(!has_pat_at(s@, pack_pat(), j));
                assert(!has_pat_at(s@, into_pat(), j));
                assert(!has_pat_at(s@, unpack_pat(), j));
            }
        }
    }
    false
}

/// Whether the word `Default` occurs in `s`.
fn scan_default(s: &Vec<char>) -> (b: bool)
    ensures
        b == has_default(s@),
{
    let n = s.len();
    let mut i: usize = 0;
    while i < n
        invariant
            0 <= i <= n,
            n == s@.len(),
            forall|j: int| 0 <= j < i ==> !has_pat_at(s@, default_pat(), j),
        decreases n - i,
    {
        if pattern_at(s, i, "Default") {
            assert(has_pat_at(s@, default_pat(), i as int));
            return true;
        }
        i += 1;
    }
    proof {
        lemma_pattern_lens();
        assert forall|j: int| !has_pat_at(s@, default_pat(), j) by {
            if 0 <= j < n {
            }
        }
    }
    false
}

/// Classify a text held as its characters.
pub fn classify_chars(s: &Vec<char>) -> (k: PatternKind)
    ensures
        k == classify_spec(s@),
{
    if scan_call_chain(s) {
        PatternKind::CallChainStrip
    } else if scan_default(s) {
        PatternKind::DefaultTypeFill
    } else {
        PatternKind::NoMatch
    }
}

/// Classify one piece of source text.
pub fn classify_line(line: &String) -> (k: PatternKind)
    ensures
        k == classify_spec(line@),
{
    let chars = crate::text::str_to_chars(line.as_str());
    classify_chars(&chars)
}

} // verus!
