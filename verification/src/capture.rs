//! Extraction of the suggested type name from a diagnostic's first child
//! message: the text between an angle-bracket pair.
//!
//! The pair taken is the one a leftmost greedy scan finds: the opening
//! bracket is the first `<` that any pair starts at, and the closing bracket
//! is the furthest `>` reachable from it without crossing a line break.

use vstd::prelude::*;

verus! {

use crate::text::{chars_to_string, str_to_chars};

/// `<` at `i` and `>` at `j` enclose text with no line break.
pub open spec fn angle_pair(s: Seq<char>, i: int, j: int) -> bool {
    &&& 0 <= i < j < s.len()
    &&& s[i] == '<'
    &&& s[j] == '>'
    &&& forall|k: int| i < k < j ==> s[k] != '\n'
}

/// Some angle-bracket pair occurs in `s`.
pub open spec fn has_angle_capture(s: Seq<char>) -> bool {
    exists|i: int, j: int| angle_pair(s, i, j)
}

/// `i` and `j` delimit the captured text: `i` is the leftmost position any
/// pair starts at, and `j` is the furthest partner of `i`.
pub open spec fn capture_bounds(s: Seq<char>, i: int, j: int) -> bool {
    &&& angle_pair(s, i, j)
    &&& forall|i2: int, j2: int| angle_pair(s, i2, j2) ==> i <= i2
    &&& forall|j2: int| angle_pair(s, i, j2) ==> j2 <= j
}

/// The captured text of `s` under given bounds: what stands strictly
/// between the two brackets.
pub open spec fn captured_text(s: Seq<char>, i: int, j: int) -> Seq<char>
    recommends
        capture_bounds(s, i, j),
{
    s.subrange(i + 1, j)
}

/// `t` is the captured text of `s`: the text between the brackets of the
/// leftmost greedy angle-bracket pair.
pub open spec fn capture_result(s: Seq<char>, t: Seq<char>) -> bool {
    exists|i: int, j: int| capture_bounds(s, i, j) && t == captured_text(s, i, j)
}

/// Only one pair of positions can delimit the captured text.
pub proof fn lemma_capture_bounds_unique(s: Seq<char>, i1: int, j1: int, i2: int, j2: int)
    requires
        capture_bounds(s, i1, j1),
        capture_bounds(s, i2, j2),
    ensures
        i1 == i2,
        j1 == j2,
{
    assert(angle_pair(s, i1, j1));
    assert(angle_pair(s, i2, j2));
    assert(i1 <= i2 && i2 <= i1);
    assert(angle_pair(s, i1, j2));
    assert(j2 <= j1 && j1 <= j2);
}

/// The captured text is determined: two capture results of one message are
/// the same text.
pub proof fn lemma_capture_result_unique(s: Seq<char>, t1: Seq<char>, t2: Seq<char>)
    requires
        capture_result(s, t1),
        capture_result(s, t2),
    ensures
        t1 == t2,
{
    let (i1, j1): (int, int) = choose|i: int, j: int|
        capture_bounds(s, i, j) && t1 == captured_text(s, i, j);
    let (i2, j2): (int, int) = choose|i: int, j: int|
        capture_bounds(s, i, j) && t2 == captured_text(s, i, j);
    lemma_capture_bounds_unique(s, i1, j1, i2, j2);
}

/// Find the capture bounds in a text held as its characters.
fn find_capture_bounds(s: &Vec<char>) -> (r: Option<(usize, usize)>)
    ensures
        match r {
            Some(p) => capture_bounds(s@, p.0 as int, p.1 as int),
            None => !has_angle_capture(s@),
        },
{
    let n = s.len();
    let mut i: usize = 0;
    while i < n
        invariant
            0 <= i <= n,
            n == s@.len(),
            forall|i2: int, j2: int| angle_pair(s@, i2, j2) ==> i <= i2,
        decreases n - i,
    {
        if s[i] == '<' {
            // The enclosing text may not cross a line break: find where the
            // segment after `i` ends.
            let mut e: usize = i + 1;
            while e < n && s[e] != '\n'
                invariant
                    i + 1 <= e <= n,
                    n == s@.len(),
                    forall|k: int| i < k < e ==> s@[k] != '\n',
                decreases n - e,
            {
                e += 1;
            }
            // Take the furthest `>` inside the segment, if there is one.
            let mut k: usize = e;
            let mut best: usize = 0;
            let mut found: bool = false;
            while k > i + 1 && !found
                invariant
                    i + 1 <= k <= e <= n,
                    n == s@.len(),
                    i < n,
                    s@[i as int] == '<',
                    forall|m: int| i < m < e ==> s@[m] != '\n',
                    e == n || s@[e as int] == '\n',
                    !found ==> forall|m: int| k <= m < e ==> s@[m] != '>',
                    found ==> i < best < e && s@[best as int] == '>' && (forall|m: int|
                        best < m < e ==> s@[m] != '>'),
                decreases k,
            {
                k -= 1;
                if s[k] == '>' {
                    best = k;
                    found = true;
                }
            }
            if found {
                assert(angle_pair(s@, i as int, best as int));
                assert forall|j2: int| angle_pair(s@, i as int, j2) implies j2 <= best as int by {
                    if j2 > best {
                        if j2 < e {
                            assert(s@[j2] != '>');
                        } else {
                            assert(e < n && s@[e as int] == '\n');
                            if j2 == e {
                                assert(s@[j2] == '\n');
                            } else {
                                assert(i < e < j2 && s@[e as int] != '\n');
                            }
                        }
                    }
                }
                return Some((i, best));
            }
            // No partner for this `<`: no pair starts here.
            assert forall|j2: int| !angle_pair(s@, i as int, j2) by {
                if angle_pair(s@, i as int, j2) {
                    if j2 < e {
                        assert(s@[j2] != '>');
                    } else {
                        assert(e < n && s@[e as int] == '\n');
                        if j2 == e {
                            assert(s@[j2] == '\n');
                        } else {
                            assert(i < e < j2 && s@[e as int] != '\n');
                        }
                    }
                }
            }
        } else {
            assert forall|j2: int| !angle_pair(s@, i as int, j2) by {
                if angle_pair(s@, i as int, j2) {
                    assert(s@[i as int] == '<');
                }
            }
        }
        assert forall|i2: int, j2: int| angle_pair(s@, i2, j2) implies i + 1 <= i2 by {
            if i2 < i + 1 {
                assert(i <= i2);
                assert(!angle_pair(s@, i as int, j2));
            }
        }
        i += 1;
    }
    proof {
        assert forall|i2: int, j2: int| !angle_pair(s@, i2, j2) by {
            if angle_pair(s@, i2, j2) {
                assert(i2 < s@.len());
                assert(n <= i2);
            }
        }
    }
    None
}

/// Extract the suggested type name from a child message: the text between
/// the brackets of the leftmost greedy angle-bracket pair, or nothing when
/// the message holds no such pair.
pub fn extract_angle_capture(msg: &String) -> (r: Option<String>)
    ensures
        match r {
            Some(t) => capture_result(msg@, t@),
            None => !has_angle_capture(msg@),
        },
{
    let chars = str_to_chars(msg.as_str());
    match find_capture_bounds(&chars) {
        Some(p) => {
            let (i, j) = p;
            let mut t: Vec<char> = Vec::new();
            let mut k: usize = i + 1;
            proof {
                assert(t@ =~= chars@.subrange(i + 1, i + 1));
            }
            while k < j
                invariant
                    i + 1 <= k <= j < chars@.len(),
                    t@ == chars@.subrange(i + 1, k as int),
                decreases j - k,
            {
                t.push(chars[k]);
                proof {
                    assert(t@ =~= chars@.subrange(i + 1, k + 1));
                }
                k += 1;
            }
            let out = chars_to_string(&t);
            proof {
                assert(capture_bounds(msg@, i as int, j as int));
                assert(out@ == captured_text(msg@, i as int, j as int));
            }
            Some(out)
        },
        None => None,
    }
}

} // verus!
