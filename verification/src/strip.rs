//! The call-chain strip rule: removing every occurrence of the three
//! conversion suffixes from a line of source text.
//!
//! Occurrences are found by a single left-to-right scan and do not overlap:
//! after a suffix is removed the scan resumes with the text that followed
//! it. Removal can in rare cases splice the surrounding text into a new
//! occurrence, so one application of the rule is not always a fixed point;
//! it is one exactly when its result contains no suffix.

use vstd::prelude::*;

verus! {

use crate::pattern::{call_match_len, has_call_chain, lemma_match_in_bounds, lemma_match_len_skip};
use crate::text::{chars_to_string, str_to_chars};

/// The line with every left-to-right occurrence of `.pack()`, `.into()` and
/// `.unpack()` removed: at each position, a suffix starting there is dropped
/// and the scan resumes after it, and any other character is kept.
pub open spec fn strip_spec(s: Seq<char>) -> Seq<char>
    decreases s.len(),
    via strip_spec_decreases
{
    if s.len() == 0 {
        Seq::empty()
    } else if call_match_len(s, 0) > 0 {
        strip_spec(s.skip(call_match_len(s, 0) as int))
    } else {
        seq![s[0]] + strip_spec(s.skip(1))
    }
}

#[via_fn]
proof fn strip_spec_decreases(s: Seq<char>) {
    if s.len() != 0 && call_match_len(s, 0) > 0 {
        lemma_match_in_bounds(s, 0);
    }
}

/// A text with no call-chain suffix is left exactly as it is.
pub proof fn lemma_strip_clean_identity(s: Seq<char>)
    requires
        !has_call_chain(s),
    ensures
        strip_spec(s) == s,
    decreases s.len(),
{
    if s.len() == 0 {
        assert(strip_spec(s) =~= s);
    } else {
        assert(call_match_len(s, 0) == 0);
        assert forall|i: int| call_match_len(s.skip(1), i) == 0 by {
            if 0 <= i {
                lemma_match_len_skip(s, 1, i);
                assert(call_match_len(s, 1 + i) == 0);
            }
        }
        lemma_strip_clean_identity(s.skip(1));
        assert(strip_spec(s) =~= s);
    }
}

/// Stripping is idempotent whenever its result is clean: applying the rule
/// a second time to a result with no remaining suffix changes nothing.
pub proof fn lemma_strip_idempotent(s: Seq<char>)
    requires
        !has_call_chain(strip_spec(s)),
    ensures
        strip_spec(strip_spec(s)) == strip_spec(s),
{
    lemma_strip_clean_identity(strip_spec(s));
}

/// Remove every call-chain suffix from a text held as its characters.
pub fn strip_chars(s: &Vec<char>) -> (r: Vec<char>)
    ensures
        r@ == strip_spec(s@),
{
    let n = s.len();
    let mut out: Vec<char> = Vec::new();
    let mut i: usize = 0;
    proof {
        assert(s@.skip(0) =~= s@);
        assert(Seq::<char>::empty() + strip_spec(s@) =~= strip_spec(s@));
    }
    while i < n
        invariant
            0 <= i <= n,
            n == s@.len(),
            strip_spec(s@) == out@ + strip_spec(s@.skip(i as int)),
        decreases n - i,
    {
        let l = crate::pattern::call_match_len_at(s, i);
        if l > 0 {
            proof {
                lemma_match_len_skip(s@, i as int, 0);
                lemma_match_in_bounds(s@, i as int);
                assert(s@.skip(i as int).len() > 0);
                assert(s@.skip(i as int).skip(l as int) =~= s@.skip(i + l));
            }
            i += l;
        } else {
            proof {
                lemma_match_len_skip(s@, i as int, 0);
                assert(s@.skip(i as int)[0] == s@[i as int]);
                assert(s@.skip(i as int).skip(1) =~= s@.skip(i + 1));
                assert(strip_spec(s@.skip(i as int)) == seq![s@[i as int]] + strip_spec(
                    s@.skip(i + 1),
                ));
                assert(out@.push(s@[i as int]) + strip_spec(s@.skip(i + 1)) =~= out@ + (seq![
                    s@[i as int],
                ] + strip_spec(s@.skip(i + 1))));
            }
            out.push(s[i]);
            i += 1;
        }
    }
    proof {
        assert(s@.skip(n as int) =~= Seq::empty());
        assert(out@ + strip_spec(s@.skip(n as int)) =~= out@);
    }
    out
}

/// Remove every call-chain suffix from one line of source text.
pub fn strip_call_chain(line: &String) -> (r: String)
    ensures
        r@ == strip_spec(line@),
{
    let chars = str_to_chars(line.as_str());
    let stripped = strip_chars(&chars);
    chars_to_string(&stripped)
}

} // verus!
