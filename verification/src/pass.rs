//! One migration pass: from the decoded records of a checker invocation to
//! the location index that drives the rewrites, and the early guard that
//! ends a run which found nothing to migrate.
//!
//! The index is rebuilt from scratch every pass; no diagnostic state
//! persists between passes.

use vstd::prelude::*;

verus! {

use crate::diag::{excerpt_text, is_sentinel, span_shape_ok, target_file, target_line,
    DiagnosticRecord};
use crate::errors::MigrateError;
use crate::index::PerFileIndex;
use crate::pattern::{classify_spec, PatternKind};

/// The record drives a rewrite: it is a compiler message of the expected
/// shape whose primary-span excerpt matches one of the two patterns.
pub open spec fn is_target(r: DiagnosticRecord) -> bool {
    &&& is_sentinel(r)
    &&& span_shape_ok(r)
    &&& classify_spec(excerpt_text(r)) != PatternKind::NoMatch
}

/// No earlier record in `rs` targets the same file and line as `rs[k]`.
pub open spec fn first_target_for_key(rs: Seq<DiagnosticRecord>, k: int) -> bool {
    forall|j: int|
        0 <= j < k ==> !(is_target(rs[j]) && target_file(rs[j]) == target_file(rs[k])
            && target_line(rs[j]) == target_line(rs[k]))
}

/// The failure a malformed compiler message stops the pass with.
pub open spec fn shape_err(r: DiagnosticRecord) -> MigrateError
    recommends
        !span_shape_ok(r),
{
    if r.spans@.len() == 0 {
        MigrateError::MissingPrimarySpan
    } else {
        MigrateError::MissingSpanText
    }
}

/// `rs[k]` is the first malformed compiler message and `e` its failure:
/// every earlier compiler message has the expected span shape.
pub open spec fn pass_stops_at(rs: Seq<DiagnosticRecord>, k: int, e: MigrateError) -> bool {
    &&& 0 <= k < rs.len()
    &&& is_sentinel(rs[k])
    &&& !span_shape_ok(rs[k])
    &&& e == shape_err(rs[k])
    &&& forall|j: int| 0 <= j < k ==> (is_sentinel(rs[j]) ==> span_shape_ok(rs[j]))
}

/// Build the location index of one pass from the decoded records, in the
/// order the checker emitted them: compiler messages whose excerpt matches
/// a pattern are retained, at most one per file and line, first seen wins.
/// A compiler message with no span, or whose primary span has no excerpt,
/// stops the pass.
pub fn plan_pass(records: Vec<DiagnosticRecord>) -> (r: Result<PerFileIndex, MigrateError>)
    ensures
        match r {
            Ok(idx) => {
                &&& forall|k: int|
                    0 <= k < records@.len() ==> (is_sentinel(records@[k]) ==> span_shape_ok(
                        records@[k],
                    ))
                &&& forall|f: Seq<char>, l: int|
                    #![trigger idx.contains(f, l)]
                    idx.contains(f, l) <==> exists|k: int|
                        #![auto]
                        0 <= k < records@.len() && is_target(records@[k]) && target_file(
                            records@[k],
                        ) == f && target_line(records@[k]) == l
                &&& forall|k: int|
                    #![trigger first_target_for_key(records@, k)]
                    0 <= k < records@.len() && is_target(records@[k]) && first_target_for_key(
                        records@,
                        k,
                    ) ==> idx.record_at(target_file(records@[k]), target_line(records@[k]))
                        == records@[k]
            },
            Err(e) => exists|k: int| pass_stops_at(records@, k, e),
        },
{
    let ghost orig = records@;
    let mut rest = records;
    let mut idx = PerFileIndex::new();
    let ghost mut i: int = 0;
    proof {
        assert(rest@ =~= orig.skip(0));
    }
    while rest.len() > 0
        invariant
            orig == records@,
            0 <= i <= orig.len(),
            rest@ == orig.skip(i),
            forall|k: int| 0 <= k < i ==> (is_sentinel(orig[k]) ==> span_shape_ok(orig[k])),
            forall|f: Seq<char>, l: int|
                #![trigger idx.contains(f, l)]
                idx.contains(f, l) <==> exists|k: int|
                    #![auto]
                    0 <= k < i && is_target(orig[k]) && target_file(orig[k]) == f && target_line(
                        orig[k],
                    ) == l,
            forall|k: int|
                #![trigger first_target_for_key(orig, k)]
                0 <= k < i && is_target(orig[k]) && first_target_for_key(orig, k)
                    ==> idx.record_at(target_file(orig[k]), target_line(orig[k])) == orig[k],
        decreases rest@.len(),
    {
        let rec = rest.remove(0);
        proof {
            assert(rec == orig.skip(i)[0]);
            assert(rec == orig[i]);
            assert(rest@ =~= orig.skip(i + 1));
        }
        if crate::diag::is_compiler_message(&rec) {
            let nspans = rec.spans.len();
            if nspans == 0 {
                proof {
                    assert(pass_stops_at(orig, i, MigrateError::MissingPrimarySpan));
                }
                return Err(MigrateError::MissingPrimarySpan);
            }
            let has_excerpt = rec.spans[nspans - 1].text.len() > 0;
            if !has_excerpt {
                proof {
                    assert(rec.spans@[nspans - 1] == rec.spans@.last());
                    assert(pass_stops_at(orig, i, MigrateError::MissingSpanText));
                }
                return Err(MigrateError::MissingSpanText);
            }
            let kind = crate::pattern::classify_line(&rec.spans[nspans - 1].text[0].text);
            proof {
                assert(rec.spans@[nspans - 1] == rec.spans@.last());
                assert(kind == classify_spec(excerpt_text(rec)));
                assert(span_shape_ok(rec));
            }
            if kind != PatternKind::NoMatch {
                let fname = rec.spans[nspans - 1].file_name.clone();
                let lineno = rec.spans[nspans - 1].line_start;
                let ghost idxold = idx;
                proof {
                    assert(is_target(orig[i]));
                    assert(fname@ == target_file(orig[i]));
                    assert(lineno as int == target_line(orig[i]));
                }
                idx.insert(fname, lineno, rec);
                proof {
                    let f0 = target_file(orig[i]);
                    let l0 = target_line(orig[i]);
                    assert forall|f: Seq<char>, l: int|
                        #![trigger idx.contains(f, l)]
                        idx.contains(f, l) <==> exists|k: int|
                            #![auto]
                            0 <= k < i + 1 && is_target(orig[k]) && target_file(orig[k]) == f
                                && target_line(orig[k]) == l by {
                        if idxold.contains(f0, l0) {
                            assert(idx == idxold);
                            if idx.contains(f, l) {
                                let k = choose|k: int|
                                    #![auto]
                                    0 <= k < i && is_target(orig[k]) && target_file(orig[k]) == f
                                        && target_line(orig[k]) == l;
                                assert(0 <= k < i + 1 && is_target(orig[k]) && target_file(orig[k])
                                    == f && target_line(orig[k]) == l);
                            }
                            if exists|k: int|
                                #![auto]
                                0 <= k < i + 1 && is_target(orig[k]) && target_file(orig[k]) == f
                                    && target_line(orig[k]) == l {
                                let k = choose|k: int|
                                    #![auto]
                                    0 <= k < i + 1 && is_target(orig[k]) && target_file(orig[k])
                                        == f && target_line(orig[k]) == l;
                                if k == i {
                                    assert(f == f0 && l == l0);
                                    assert(idx.contains(f, l));
                                } else {
                                    assert(idxold.contains(f, l));
                                }
                            }
                        } else {
                            if idx.contains(f, l) {
                                if f == f0 && l == l0 {
                                    assert(0 <= i < i + 1 && is_target(orig[i]) && target_file(
                                        orig[i],
                                    ) == f && target_line(orig[i]) == l);
                                } else {
                                    assert(idxold.contains(f, l));
                                    let k = choose|k: int|
                                        #![auto]
                                        0 <= k < i && is_target(orig[k]) && target_file(orig[k])
                                            == f && target_line(orig[k]) == l;
                                    assert(0 <= k < i + 1 && is_target(orig[k]) && target_file(
                                        orig[k],
                                    ) == f && target_line(orig[k]) == l);
                                }
                            }
                            if exists|k: int|
                                #![auto]
                                0 <= k < i + 1 && is_target(orig[k]) && target_file(orig[k]) == f
                                    && target_line(orig[k]) == l {
                                let k = choose|k: int|
                                    #![auto]
                                    0 <= k < i + 1 && is_target(orig[k]) && target_file(orig[k])
                                        == f && target_line(orig[k]) == l;
                                if k == i {
                                    assert(idx.contains(f, l));
                                } else {
                                    assert(idxold.contains(f, l));
                                    assert(idx.contains(f, l));
                                }
                            }
                        }
                    }
                    assert forall|k: int|
                        #![trigger first_target_for_key(orig, k)]
                        0 <= k < i + 1 && is_target(orig[k]) && first_target_for_key(orig, k)
                            implies idx.record_at(target_file(orig[k]), target_line(orig[k]))
                        == orig[k] by {
                        if k < i {
                            if idxold.contains(f0, l0) {
                                assert(idx == idxold);
                            } else {
                                assert(idxold.contains(target_file(orig[k]), target_line(orig[k])));
                            }
                        } else {
                            assert(k == i);
                            if idxold.contains(f0, l0) {
                                let k2 = choose|k2: int|
                                    #![auto]
                                    0 <= k2 < i && is_target(orig[k2]) && target_file(orig[k2])
                                        == f0 && target_line(orig[k2]) == l0;
                                assert(!first_target_for_key(orig, k));
                            } else {
                                assert(idx.record_at(f0, l0) == orig[i]);
                            }
                        }
                    }
                }
            } else {
                proof {
                    assert(!is_target(orig[i]));
                }
            }
        } else {
            proof {
                assert(!is_target(orig[i]));
            }
        }
        proof {
            i = i + 1;
            assert forall|f: Seq<char>, l: int|
                #![trigger idx.contains(f, l)]
                idx.contains(f, l) <==> exists|k: int|
                    #![auto]
                    0 <= k < i && is_target(orig[k]) && target_file(orig[k]) == f && target_line(
                        orig[k],
                    ) == l by {}
        }
    }
    proof {
        assert(orig.skip(i).len() == 0);
        assert(i == orig.len());
    }
    Ok(idx)
}

/// The early guard of the run: stop before rewriting anything when the very
/// first pass retained no diagnostic at all.
pub fn should_stop_early(idx: &PerFileIndex, pass_number: usize) -> (r: bool)
    ensures
        r == (pass_number == 0 && !(exists|f: Seq<char>, l: int| idx.contains(f, l))),
{
    pass_number == 0 && idx.is_empty()
}

} // verus!
