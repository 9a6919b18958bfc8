//! The line rewriter: applying the matching rule to one line of source
//! text, using the line's own current text to decide which rule fires.
//!
//! A line matching the call-chain rule has every conversion suffix removed;
//! a line matching the default rule has its first occurrence of `Default`
//! replaced by the type name captured from the diagnostic's first child
//! message; any other line is reproduced unchanged.

use vstd::prelude::*;

verus! {

use crate::capture::{capture_result, extract_angle_capture, has_angle_capture,
    lemma_capture_result_unique};
use crate::diag::DiagnosticRecord;
use crate::errors::MigrateError;
use crate::index::PerFileIndex;
use crate::pattern::{classify_line, classify_spec, default_pat, has_call_chain, has_default,
    has_pat_at, lemma_pattern_lens, PatternKind};
use crate::strip::{strip_call_chain, strip_spec};
use crate::text::{chars_to_string, str_to_chars};

/// `p` occurs at `i` in `s` and nowhere earlier.
pub open spec fn is_first_pat(s: Seq<char>, p: Seq<char>, i: int) -> bool {
    &&& has_pat_at(s, p, i)
    &&& forall|j: int| 0 <= j < i ==> !has_pat_at(s, p, j)
}

/// Only one position can hold the first occurrence of a pattern.
pub proof fn lemma_first_pat_unique(s: Seq<char>, p: Seq<char>, i1: int, i2: int)
    requires
        is_first_pat(s, p, i1),
        is_first_pat(s, p, i2),
    ensures
        i1 == i2,
{
}

/// `out` is `line` with its first occurrence of `Default` replaced by `ty`
/// and every other character kept in place.
pub open spec fn default_filled(line: Seq<char>, ty: Seq<char>, out: Seq<char>) -> bool {
    exists|i: int|
        is_first_pat(line, default_pat(), i) && out == line.take(i) + ty + line.skip(i + 7)
}

/// Append `src[from..to]` to `out`.
fn append_range(out: &mut Vec<char>, src: &Vec<char>, from: usize, to: usize)
    requires
        from <= to <= src@.len(),
    ensures
        final(out)@ == old(out)@ + src@.subrange(from as int, to as int),
{
    let mut k: usize = from;
    proof {
        assert(out@ =~= old(out)@ + src@.subrange(from as int, from as int));
    }
    while k < to
        invariant
            from <= k <= to <= src@.len(),
            out@ == old(out)@ + src@.subrange(from as int, k as int),
        decreases to - k,
    {
        out.push(src[k]);
        proof {
            assert(out@ =~= old(out)@ + src@.subrange(from as int, k + 1));
        }
        k += 1;
    }
}

/// Replace the first occurrence of `Default` in `line` by `ty`; a line
/// without the word is reproduced unchanged.
pub fn replace_first_default(line: &String, ty: &String) -> (r: String)
    ensures
        has_default(line@) ==> default_filled(line@, ty@, r@),
        !has_default(line@) ==> r@ == line@,
{
    let chars = str_to_chars(line.as_str());
    let tychars = str_to_chars(ty.as_str());
    let n = chars.len();
    let mut i: usize = 0;
    while i < n
        invariant
            0 <= i <= n,
            n == chars@.len(),
            chars@ == line@,
            tychars@ == ty@,
            forall|j: int| 0 <= j < i ==> !has_pat_at(line@, default_pat(), j),
        decreases n - i,
    {
        if crate::pattern::pattern_at(&chars, i, "Default") {
            proof {
                lemma_pattern_lens();
                assert(is_first_pat(line@, default_pat(), i as int));
            }
            let mut out: Vec<char> = Vec::new();
            append_range(&mut out, &chars, 0, i);
            append_range(&mut out, &tychars, 0, tychars.len());
            append_range(&mut out, &chars, i + 7, n);
            proof {
                assert(tychars@.subrange(0, ty@.len() as int) =~= ty@);
                assert(out@ =~= line@.take(i as int) + ty@ + line@.skip(i + 7));
            }
            return chars_to_string(&out);
        }
        i += 1;
    }
    proof {
        lemma_pattern_lens();
        assert forall|j: int| !has_pat_at(line@, default_pat(), j) by {
            if 0 <= j < n {
            }
        }
    }
    line.clone()
}

/// The line's diagnostic is usable for it: a default-fill line needs a
/// first child message holding an angle-bracket pair.
pub open spec fn line_rewrite_ok(line: Seq<char>, rec: DiagnosticRecord) -> bool {
    classify_spec(line) == PatternKind::DefaultTypeFill ==> {
        &&& rec.children@.len() > 0
        &&& has_angle_capture(rec.children@[0].message@)
    }
}

/// Which failure a line whose diagnostic is unusable stops the pass with.
pub open spec fn line_rewrite_err(line: Seq<char>, rec: DiagnosticRecord) -> MigrateError
    recommends
        !line_rewrite_ok(line, rec),
{
    if rec.children@.len() == 0 {
        MigrateError::MissingChildMessage
    } else {
        MigrateError::MissingTypeCapture
    }
}

/// `out` is what rewriting `line` under its diagnostic `rec` yields: the
/// stripped line for a call-chain match, the default-filled line for a
/// default match, and the line itself otherwise.
pub open spec fn rewrite_line_rel(line: Seq<char>, rec: DiagnosticRecord, out: Seq<char>) -> bool {
    if has_call_chain(line) {
        out == strip_spec(line)
    } else if has_default(line) {
        exists|t: Seq<char>|
            capture_result(rec.children@[0].message@, t) && default_filled(line, t, out)
    } else {
        out == line
    }
}

/// Rewriting is deterministic: the relation admits one output per line and
/// diagnostic.
pub proof fn lemma_rewrite_line_deterministic(
    line: Seq<char>,
    rec: DiagnosticRecord,
    o1: Seq<char>,
    o2: Seq<char>,
)
    requires
        rewrite_line_rel(line, rec, o1),
        rewrite_line_rel(line, rec, o2),
    ensures
        o1 == o2,
{
    if !has_call_chain(line) && has_default(line) {
        let msg = rec.children@[0].message@;
        let t1 = choose|t: Seq<char>| capture_result(msg, t) && default_filled(line, t, o1);
        let t2 = choose|t: Seq<char>| capture_result(msg, t) && default_filled(line, t, o2);
        lemma_capture_result_unique(msg, t1, t2);
        let i1 = choose|i: int|
            is_first_pat(line, default_pat(), i) && o1 == line.take(i) + t1 + line.skip(i + 7);
        let i2 = choose|i: int|
            is_first_pat(line, default_pat(), i) && o2 == line.take(i) + t2 + line.skip(i + 7);
        lemma_first_pat_unique(line, default_pat(), i1, i2);
    }
}

/// Rewrite one line of source text under its diagnostic. The rule applied
/// is chosen from the line's own current text, which may differ from the
/// excerpt the diagnostic was classified on.
pub fn rewrite_line(line: &String, rec: &DiagnosticRecord) -> (r: Result<String, MigrateError>)
    ensures
        match r {
            Ok(out) => line_rewrite_ok(line@, *rec) && rewrite_line_rel(line@, *rec, out@),
            Err(e) => !line_rewrite_ok(line@, *rec) && e == line_rewrite_err(line@, *rec),
        },
{
    match classify_line(line) {
        PatternKind::CallChainStrip => Ok(strip_call_chain(line)),
        PatternKind::DefaultTypeFill => {
            if rec.children.len() == 0 {
                return Err(MigrateError::MissingChildMessage);
            }
            let msg = &rec.children[0].message;
            match extract_angle_capture(msg) {
                Some(t) => {
                    let out = replace_first_default(line, &t);
                    proof {
                        let (bi, bj): (int, int) = choose|i: int, j: int|
                            crate::capture::capture_bounds(msg@, i, j) && t@
                                == crate::capture::captured_text(msg@, i, j);
                        assert(crate::capture::angle_pair(msg@, bi, bj));
                        assert(has_angle_capture(msg@));
                        assert(capture_result(rec.children@[0].message@, t@) && default_filled(
                            line@,
                            t@,
                            out@,
                        ));
                    }
                    Ok(out)
                },
                None => Err(MigrateError::MissingTypeCapture),
            }
        },
        PatternKind::NoMatch => Ok(line.clone()),
    }
}

/// The output line owed at 0-based position `i` of a file: the rewrite of
/// the line under its retained diagnostic where one is indexed for the
/// 1-based line number `i + 1`, and the line itself where none is.
pub open spec fn file_line_done(
    idx: PerFileIndex,
    file: Seq<char>,
    lines: Seq<String>,
    out: Seq<String>,
    i: int,
) -> bool {
    if idx.contains(file, i + 1) {
        &&& line_rewrite_ok(lines[i]@, idx.record_at(file, i + 1))
        &&& rewrite_line_rel(lines[i]@, idx.record_at(file, i + 1), out[i]@)
    } else {
        out[i]@ == lines[i]@
    }
}

/// Rewrite the lines of one file, 1-based line by line, under the
/// diagnostics the index retains for the file. Lines with no retained
/// diagnostic are reproduced exactly; a tree whose lines match no pattern
/// at all is a fixed point, whatever the index holds.
pub fn rewrite_file_lines(idx: &PerFileIndex, file: &String, lines: &Vec<String>) -> (r: Result<
    Vec<String>,
    MigrateError,
>)
    ensures
        match r {
            Ok(out) => {
                &&& out@.len() == lines@.len()
                &&& forall|i: int|
                    #![trigger out@[i]]
                    0 <= i < lines@.len() ==> file_line_done(*idx, file@, lines@, out@, i)
                &&& (forall|i: int|
                    0 <= i < lines@.len() ==> classify_spec(lines@[i]@) == PatternKind::NoMatch)
                    ==> (forall|i: int|
                    #![trigger out@[i]]
                    0 <= i < lines@.len() ==> out@[i]@ == lines@[i]@)
            },
            Err(e) => exists|i: int|
                #![auto]
                {
                    &&& 0 <= i < lines@.len()
                    &&& idx.contains(file@, i + 1)
                    &&& !line_rewrite_ok(lines@[i]@, idx.record_at(file@, i + 1))
                    &&& e == line_rewrite_err(lines@[i]@, idx.record_at(file@, i + 1))
                    &&& forall|j: int|
                        0 <= j < i && idx.contains(file@, j + 1) ==> line_rewrite_ok(
                            lines@[j]@,
                            idx.record_at(file@, j + 1),
                        )
                },
        },
{
    let n = lines.len();
    let mut out: Vec<String> = Vec::new();
    let mut i: usize = 0;
    while i < n
        invariant
            0 <= i <= n,
            n == lines@.len(),
            out@.len() == i,
            forall|j: int|
                #![trigger out@[j]]
                0 <= j < i ==> file_line_done(*idx, file@, lines@, out@, j),
        decreases n - i,
    {
        let ghost outold = out@;
        let line = &lines[i];
        match idx.get_record(file, i + 1) {
            Some(rec) => {
                match rewrite_line(line, rec) {
                    Ok(newline) => {
                        out.push(newline);
                    },
                    Err(e) => {
                        proof {
                            assert(0 <= i < lines@.len() && idx.contains(file@, i + 1)
                                && !line_rewrite_ok(lines@[i as int]@, idx.record_at(file@, i + 1))
                                && e == line_rewrite_err(
                                lines@[i as int]@,
                                idx.record_at(file@, i + 1),
                            ));
                            assert forall|j: int|
                                0 <= j < i && idx.contains(file@, j + 1) implies line_rewrite_ok(
                                lines@[j]@,
                                idx.record_at(file@, j + 1),
                            ) by {
                                let oj = out@[j];
                                assert(file_line_done(*idx, file@, lines@, out@, j));
                            }
                        }
                        return Err(e);
                    },
                }
            },
            None => {
                out.push(line.clone());
            },
        }
        proof {
            assert(forall|j: int| 0 <= j < outold.len() ==> out@[j] == outold[j]);
            assert forall|j: int| #![trigger out@[j]] 0 <= j < i + 1 implies file_line_done(
                *idx,
                file@,
                lines@,
                out@,
                j,
            ) by {
                if j < i {
                    assert(file_line_done(*idx, file@, lines@, outold, j));
                    assert(out@[j] == outold[j]);
                }
            }
        }
        i += 1;
    }
    proof {
        if forall|j: int| 0 <= j < n ==> classify_spec(lines@[j]@) == PatternKind::NoMatch {
            assert forall|j: int| #![trigger out@[j]] 0 <= j < n implies out@[j]@ == lines@[j]@ by {
                assert(classify_spec(lines@[j]@) == PatternKind::NoMatch);
                assert(file_line_done(*idx, file@, lines@, out@, j));
            }
        }
    }
    Ok(out)
}

} // verus!
