//! What the synthesized statement does at runtime: matching a pattern
//! against a value either fails, or yields the sub-values that the
//! pattern's bindings receive, in the analyzer's pre-order.
//!
//! The casing heuristic is applied here exactly as in the analyzer: a
//! capital-leading identifier matches only the nullary constructor of that
//! name and binds nothing, any other identifier binds the whole value.

use vstd::prelude::*;
use crate::pattern::{FieldPat, Literal, Pattern, bindings_of, bindings_of_fields, bindings_of_seq, is_constructor_name};
use crate::value::{
    FieldModel, FieldVal, Value, ValueModel, clone_value, fields_model, lemma_fields_model,
    lemma_values_model, value_model, values_model,
};

verus! {

/// Whether a literal pattern accepts a value: same kind, same content.
pub open spec fn lit_matches(l: Literal, v: ValueModel) -> bool {
    match (l, v) {
        (Literal::Int(a), ValueModel::Int(b)) => a == b,
        (Literal::Bool(a), ValueModel::Bool(b)) => a == b,
        (Literal::Str(a), ValueModel::Str(b)) => a@ == b,
        _ => false,
    }
}

/// Whether `v` is the nullary constructor named `name`.
pub open spec fn is_nullary_ctor(name: Seq<char>, v: ValueModel) -> bool {
    &&& v matches ValueModel::Ctor { path, args }
    &&& path == name
    &&& args.len() == 0
}

/// Concatenation of two match results: both must succeed, and their bound
/// values are laid end to end.
pub open spec fn seq_opt_concat(
    a: Option<Seq<ValueModel>>,
    b: Option<Seq<ValueModel>>,
) -> Option<Seq<ValueModel>> {
    match (a, b) {
        (Some(x), Some(y)) => Some(x + y),
        _ => None,
    }
}

/// Matching a pattern against a value: `None` when the value does not fit
/// the pattern, otherwise the sub-values received by the pattern's
/// bindings, one per binding, in the analyzer's pre-order.
pub open spec fn match_vals(p: Pattern, v: ValueModel) -> Option<Seq<ValueModel>>
    decreases p,
{
    match p {
        Pattern::Wild => Some(Seq::empty()),
        Pattern::Lit(l) => if lit_matches(l, v) {
            Some(Seq::empty())
        } else {
            None
        },
        Pattern::Ident { by_ref, mutable, name, sub } => {
            let tail = match sub {
                Some(sp) => match_vals(*sp, v),
                None => Some(Seq::empty()),
            };
            if is_constructor_name(name@) {
                if is_nullary_ctor(name@, v) {
                    tail
                } else {
                    None
                }
            } else {
                match tail {
                    Some(s) => Some(seq![v] + s),
                    None => None,
                }
            }
        },
        Pattern::Tuple { elems } => match v {
            ValueModel::Tuple(vs) => match_seq(elems@, vs),
            _ => None,
        },
        Pattern::TupleStruct { path, elems } => match v {
            ValueModel::Ctor { path: vp, args } => if path@ == vp {
                match_seq(elems@, args)
            } else {
                None
            },
            _ => None,
        },
        Pattern::Struct { path, fields, has_rest } => match v {
            ValueModel::Record { path: vp, fields: vfs } => {
                if path@ == vp && (has_rest || fields@.len() == vfs.len()) {
                    match_fields(fields@, vfs)
                } else {
                    None
                }
            },
            _ => None,
        },
        Pattern::Ref { inner } => match_vals(*inner, v),
        Pattern::Slice { prefix, rest, suffix } => match v {
            ValueModel::List(vs) => {
                let np = prefix@.len() as int;
                let ns = suffix@.len() as int;
                match rest {
                    Some(rp) => {
                        if vs.len() >= np + ns {
                            let first = match_seq(prefix@, vs.subrange(0, np));
                            let mid = match_vals(
                                *rp,
                                ValueModel::List(vs.subrange(np, vs.len() - ns)),
                            );
                            let last = match_seq(
                                suffix@,
                                vs.subrange(vs.len() - ns, vs.len() as int),
                            );
                            seq_opt_concat(seq_opt_concat(first, mid), last)
                        } else {
                            None
                        }
                    },
                    None => {
                        if vs.len() == np + ns {
                            let first = match_seq(prefix@, vs.subrange(0, np));
                            let last = match_seq(
                                suffix@,
                                vs.subrange(vs.len() - ns, vs.len() as int),
                            );
                            seq_opt_concat(first, last)
                        } else {
                            None
                        }
                    },
                }
            },
            _ => None,
        },
        Pattern::Or { alts } => if alts@.len() > 0 {
            match_vals(alts@[0], v)
        } else {
            None
        },
    }
}

/// Matching sibling patterns against sibling values, pairwise; the lengths
/// must agree and every pair must match.
pub open spec fn match_seq(ps: Seq<Pattern>, vs: Seq<ValueModel>) -> Option<Seq<ValueModel>>
    decreases ps,
{
    if ps.len() != vs.len() {
        None
    } else if ps.len() == 0 {
        Some(Seq::empty())
    } else {
        seq_opt_concat(
            match_vals(ps[0], vs[0]),
            match_seq(ps.subrange(1, ps.len() as int), vs.subrange(1, vs.len() as int)),
        )
    }
}

/// The first field of `fs` named `name`, front to back.
pub open spec fn lookup_field(fs: Seq<FieldModel>, name: Seq<char>) -> Option<ValueModel>
    decreases fs,
{
    if fs.len() == 0 {
        None
    } else if fs[0].name == name {
        Some(fs[0].value)
    } else {
        lookup_field(fs.subrange(1, fs.len() as int), name)
    }
}

/// Matching one written record field: the record must have a field of that
/// name and its value must fit the field's sub-pattern.
pub open spec fn match_one_field(f: FieldPat, vfs: Seq<FieldModel>) -> Option<Seq<ValueModel>>
    decreases f,
{
    match lookup_field(vfs, f.name@) {
        None => None,
        Some(v) => match_vals(f.pat, v),
    }
}

/// Matching a record pattern's written fields, in written order, against
/// the record's fields.
pub open spec fn match_fields(fps: Seq<FieldPat>, vfs: Seq<FieldModel>) -> Option<
    Seq<ValueModel>,
>
    decreases fps,
{
    if fps.len() == 0 {
        Some(Seq::empty())
    } else {
        seq_opt_concat(
            match_one_field(fps[0], vfs),
            match_fields(fps.subrange(1, fps.len() as int), vfs),
        )
    }
}

/// Sibling matching splits over concatenation.
pub proof fn lemma_match_seq_concat(
    p1: Seq<Pattern>,
    p2: Seq<Pattern>,
    v1: Seq<ValueModel>,
    v2: Seq<ValueModel>,
)
    requires
        p1.len() == v1.len(),
        p2.len() == v2.len(),
    ensures
        match_seq(p1 + p2, v1 + v2) == seq_opt_concat(match_seq(p1, v1), match_seq(p2, v2)),
    decreases p1.len(),
{
    if p1.len() == 0 {
        assert(p1 + p2 =~= p2);
        assert(v1 + v2 =~= v2);
        match match_seq(p2, v2) {
            Some(s) => {
                assert(Seq::<ValueModel>::empty() + s =~= s);
            },
            None => {},
        }
    } else {
        let pt = p1.subrange(1, p1.len() as int);
        let vt = v1.subrange(1, v1.len() as int);
        lemma_match_seq_concat(pt, p2, vt, v2);
        assert((p1 + p2)[0] == p1[0]);
        assert((v1 + v2)[0] == v1[0]);
        assert((p1 + p2).subrange(1, (p1 + p2).len() as int) =~= pt + p2);
        assert((v1 + v2).subrange(1, (v1 + v2).len() as int) =~= vt + v2);
        match (match_vals(p1[0], v1[0]), match_seq(pt, vt), match_seq(p2, v2)) {
            (Some(a), Some(b), Some(c)) => {
                assert(a + (b + c) =~= (a + b) + c);
            },
            _ => {},
        }
    }
}

/// Matching one sibling is matching a one-element sequence.
pub proof fn lemma_match_seq_single(p: Pattern, v: ValueModel)
    ensures
        match_seq(seq![p], seq![v]) == match_vals(p, v),
{
    let sp = seq![p];
    let sv = seq![v];
    assert(sp.subrange(1, 1) =~= Seq::<Pattern>::empty());
    assert(sv.subrange(1, 1) =~= Seq::<ValueModel>::empty());
    assert(match_seq(sp.subrange(1, 1), sv.subrange(1, 1)) == Some(Seq::<ValueModel>::empty()));
    match match_vals(p, v) {
        Some(s) => {
            assert(s + Seq::<ValueModel>::empty() =~= s);
        },
        None => {},
    }
}

/// Extending a matched prefix by one more sibling pair.
pub proof fn lemma_match_seq_snoc(ps: Seq<Pattern>, vs: Seq<ValueModel>, i: int)
    requires
        ps.len() == vs.len(),
        0 <= i < ps.len(),
    ensures
        match_seq(ps.subrange(0, i + 1), vs.subrange(0, i + 1)) == seq_opt_concat(
            match_seq(ps.subrange(0, i), vs.subrange(0, i)),
            match_vals(ps[i], vs[i]),
        ),
{
    lemma_match_seq_concat(ps.subrange(0, i), seq![ps[i]], vs.subrange(0, i), seq![vs[i]]);
    lemma_match_seq_single(ps[i], vs[i]);
    assert(ps.subrange(0, i + 1) =~= ps.subrange(0, i) + seq![ps[i]]);
    assert(vs.subrange(0, i + 1) =~= vs.subrange(0, i) + seq![vs[i]]);
}

/// One failing sibling pair fails the whole sequence.
pub proof fn lemma_match_seq_fail(ps: Seq<Pattern>, vs: Seq<ValueModel>, i: int)
    requires
        ps.len() == vs.len(),
        0 <= i < ps.len(),
        match_vals(ps[i], vs[i]) is None,
    ensures
        match_seq(ps, vs) is None,
{
    lemma_match_seq_snoc(ps, vs, i);
    lemma_match_seq_concat(
        ps.subrange(0, i + 1),
        ps.subrange(i + 1, ps.len() as int),
        vs.subrange(0, i + 1),
        vs.subrange(i + 1, vs.len() as int),
    );
    assert(ps.subrange(0, i + 1) + ps.subrange(i + 1, ps.len() as int) =~= ps);
    assert(vs.subrange(0, i + 1) + vs.subrange(i + 1, vs.len() as int) =~= vs);
}

/// Field matching splits over concatenation of the written fields.
pub proof fn lemma_match_fields_concat(a: Seq<FieldPat>, b: Seq<FieldPat>, vfs: Seq<FieldModel>)
    ensures
        match_fields(a + b, vfs) == seq_opt_concat(match_fields(a, vfs), match_fields(b, vfs)),
    decreases a.len(),
{
    if a.len() == 0 {
        assert(a + b =~= b);
        match match_fields(b, vfs) {
            Some(s) => {
                assert(Seq::<ValueModel>::empty() + s =~= s);
            },
            None => {},
        }
    } else {
        let at = a.subrange(1, a.len() as int);
        lemma_match_fields_concat(at, b, vfs);
        assert((a + b)[0] == a[0]);
        assert((a + b).subrange(1, (a + b).len() as int) =~= at + b);
        match (match_one_field(a[0], vfs), match_fields(at, vfs), match_fields(b, vfs)) {
            (Some(x), Some(y), Some(z)) => {
                assert(x + (y + z) =~= (x + y) + z);
            },
            _ => {},
        }
    }
}

/// Matching one written field is matching a one-field sequence.
pub proof fn lemma_match_fields_single(f: FieldPat, vfs: Seq<FieldModel>)
    ensures
        match_fields(seq![f], vfs) == match_one_field(f, vfs),
{
    let one = seq![f];
    assert(one.subrange(1, 1) =~= Seq::<FieldPat>::empty());
    assert(match_fields(one.subrange(1, 1), vfs) == Some(Seq::<ValueModel>::empty()));
    match match_one_field(f, vfs) {
        Some(s) => {
            assert(s + Seq::<ValueModel>::empty() =~= s);
        },
        None => {},
    }
}

/// Extending a matched field prefix by one more written field.
pub proof fn lemma_match_fields_snoc(s: Seq<FieldPat>, vfs: Seq<FieldModel>, i: int)
    requires
        0 <= i < s.len(),
    ensures
        match_fields(s.subrange(0, i + 1), vfs) == seq_opt_concat(
            match_fields(s.subrange(0, i), vfs),
            match_one_field(s[i], vfs),
        ),
{
    lemma_match_fields_concat(s.subrange(0, i), seq![s[i]], vfs);
    lemma_match_fields_single(s[i], vfs);
    assert(s.subrange(0, i + 1) =~= s.subrange(0, i) + seq![s[i]]);
}

/// One failing written field fails the whole record match.
pub proof fn lemma_match_fields_fail(s: Seq<FieldPat>, vfs: Seq<FieldModel>, i: int)
    requires
        0 <= i < s.len(),
        match_one_field(s[i], vfs) is None,
    ensures
        match_fields(s, vfs) is None,
{
    lemma_match_fields_snoc(s, vfs, i);
    lemma_match_fields_concat(s.subrange(0, i + 1), s.subrange(i + 1, s.len() as int), vfs);
    assert(s.subrange(0, i + 1) + s.subrange(i + 1, s.len() as int) =~= s);
}

/// A successful match binds exactly the analyzer's bindings: the sequence
/// of matched sub-values has one value per collected binding, so the
/// synthesized tuple statement pairs each bound identifier with the
/// sub-value the pattern matched out of the scrutinee.
pub proof fn lemma_match_binds_all(p: Pattern, v: ValueModel)
    ensures
        match_vals(p, v) matches Some(s) ==> s.len() == bindings_of(p).len(),
    decreases p,
{
    match p {
        Pattern::Wild => {},
        Pattern::Lit(_) => {},
        Pattern::Ident { by_ref, mutable, name, sub } => {
            match sub {
                Some(sp) => {
                    lemma_match_binds_all(*sp, v);
                },
                None => {},
            }
        },
        Pattern::Tuple { elems } => {
            match v {
                ValueModel::Tuple(vs) => {
                    lemma_match_binds_all_seq(elems@, vs);
                },
                _ => {},
            }
        },
        Pattern::TupleStruct { path, elems } => {
            match v {
                ValueModel::Ctor { path: vp, args } => {
                    lemma_match_binds_all_seq(elems@, args);
                },
                _ => {},
            }
        },
        Pattern::Struct { path, fields, has_rest } => {
            match v {
                ValueModel::Record { path: vp, fields: vfs } => {
                    lemma_match_binds_all_fields(fields@, vfs);
                },
                _ => {},
            }
        },
        Pattern::Ref { inner } => {
            lemma_match_binds_all(*inner, v);
        },
        Pattern::Slice { prefix, rest, suffix } => {
            match v {
                ValueModel::List(vs) => {
                    let np = prefix@.len() as int;
                    let ns = suffix@.len() as int;
                    if vs.len() >= np + ns {
                        lemma_match_binds_all_seq(prefix@, vs.subrange(0, np));
                        match rest {
                            Some(rp) => {
                                lemma_match_binds_all(
                                    *rp,
                                    ValueModel::List(vs.subrange(np, vs.len() - ns)),
                                );
                            },
                            None => {},
                        }
                        lemma_match_binds_all_seq(
                            suffix@,
                            vs.subrange(vs.len() - ns, vs.len() as int),
                        );
                    }
                },
                _ => {},
            }
        },
        Pattern::Or { alts } => {
            if alts@.len() > 0 {
                lemma_match_binds_all(alts@[0], v);
            }
        },
    }
}

/// The sibling-sequence case of `lemma_match_binds_all`.
pub proof fn lemma_match_binds_all_seq(ps: Seq<Pattern>, vs: Seq<ValueModel>)
    ensures
        match_seq(ps, vs) matches Some(s) ==> s.len() == bindings_of_seq(ps).len(),
    decreases ps,
{
    if ps.len() == vs.len() && ps.len() > 0 {
        lemma_match_binds_all(ps[0], vs[0]);
        lemma_match_binds_all_seq(
            ps.subrange(1, ps.len() as int),
            vs.subrange(1, vs.len() as int),
        );
    }
}

/// The record-field case of `lemma_match_binds_all`.
pub proof fn lemma_match_binds_all_fields(fps: Seq<FieldPat>, vfs: Seq<FieldModel>)
    ensures
        match_fields(fps, vfs) matches Some(s) ==> s.len() == bindings_of_fields(fps).len(),
    decreases fps,
{
    if fps.len() > 0 {
        match lookup_field(vfs, fps[0].name@) {
            Some(w) => {
                lemma_match_binds_all(fps[0].pat, w);
                assert(match_one_field(fps[0], vfs) == match_vals(fps[0].pat, w));
            },
            None => {
                assert(match_one_field(fps[0], vfs) is None);
            },
        }
        lemma_match_binds_all_fields(fps.subrange(1, fps.len() as int), vfs);
        assert(bindings_of_fields(fps) == bindings_of(fps[0].pat) + bindings_of_fields(
            fps.subrange(1, fps.len() as int),
        ));
    }
}

/// `lookup_field` seen from position `i`: the scan either stops at `i` or
/// goes on behind it.
proof fn lemma_lookup_step(fs: Seq<FieldModel>, name: Seq<char>, i: int)
    requires
        0 <= i < fs.len(),
    ensures
        lookup_field(fs.subrange(i, fs.len() as int), name) == (if fs[i].name == name {
            Some(fs[i].value)
        } else {
            lookup_field(fs.subrange(i + 1, fs.len() as int), name)
        }),
{
    let t = fs.subrange(i, fs.len() as int);
    assert(t[0] == fs[i]);
    assert(t.subrange(1, t.len() as int) =~= fs.subrange(i + 1, fs.len() as int));
}

/// Whether the literal pattern `l` accepts `v`.
fn lit_eq(l: &Literal, v: &Value) -> (r: bool)
    ensures
        r == lit_matches(*l, v@),
{
    match (l, v) {
        (Literal::Int(a), Value::Int(b)) => *a == *b,
        (Literal::Bool(a), Value::Bool(b)) => *a == *b,
        (Literal::Str(a), Value::Str(b)) => *a == *b,
        _ => false,
    }
}

/// Whether `v` is the nullary constructor named `name`.
fn is_nullary_ctor_value(name: &String, v: &Value) -> (r: bool)
    ensures
        r == is_nullary_ctor(name@, v@),
{
    match v {
        Value::Ctor { path, args } => {
            proof {
                lemma_values_model(args@);
            }
            *path == *name && args.len() == 0
        },
        _ => false,
    }
}

/// The position of the first field of `vfs` named `name`, as
/// `lookup_field` sees it.
fn find_field(vfs: &Vec<FieldVal>, name: &String) -> (r: Option<usize>)
    ensures
        match r {
            Some(j) => j < vfs@.len() && lookup_field(fields_model(vfs@), name@) == Some(
                value_model(vfs@[j as int].value),
            ),
            None => lookup_field(fields_model(vfs@), name@) is None,
        },
{
    proof {
        lemma_fields_model(vfs@);
    }
    let ghost fm = fields_model(vfs@);
    let n = vfs.len();
    assert(fm.subrange(0, n as int) =~= fm);
    for i in 0..n
        invariant
            n == vfs.len(),
            fm == fields_model(vfs@),
            fm.len() == n,
            lookup_field(fm, name@) == lookup_field(fm.subrange(i as int, n as int), name@),
        decreases n - i,
    {
        proof {
            lemma_lookup_step(fm, name@, i as int);
            lemma_fields_model(vfs@);
            assert(fm[i as int].name == vfs@[i as int].name@);
            assert(fm[i as int].value == value_model(vfs@[i as int].value));
        }
        if vfs[i].name == *name {
            return Some(i);
        }
    }
    proof {
        assert(fm.subrange(n as int, n as int) =~= Seq::<FieldModel>::empty());
    }
    None
}

/// Matches `p` against `v`; on success appends the bound sub-values, deep
/// copies in pre-order, to `out`.
#[verifier::rlimit(100)]
fn match_into(p: &Pattern, v: &Value, out: &mut Vec<Value>) -> (ok: bool)
    ensures
        ok ==> (match_vals(*p, v@) matches Some(s) && values_model(final(out)@) == values_model(
            old(out)@,
        ) + s),
        !ok ==> match_vals(*p, v@) is None,
    decreases *p,
{
    match p {
        Pattern::Wild => {
            assert(values_model(out@) =~= values_model(out@) + Seq::<ValueModel>::empty());
            true
        },
        Pattern::Lit(l) => {
            if lit_eq(l, v) {
                assert(values_model(out@) =~= values_model(out@) + Seq::<ValueModel>::empty());
                true
            } else {
                false
            }
        },
        Pattern::Ident { by_ref, mutable, name, sub } => {
            if crate::analyze::is_constructor_ident(name.as_str()) {
                if !is_nullary_ctor_value(name, v) {
                    return false;
                }
                match sub {
                    Some(sp) => match_into(sp, v, out),
                    None => {
                        assert(values_model(out@) =~= values_model(out@)
                            + Seq::<ValueModel>::empty());
                        true
                    },
                }
            } else {
                let ghost pre = out@;
                let c = clone_value(v);
                out.push(c);
                proof {
                    lemma_values_model(pre);
                    lemma_values_model(out@);
                    assert(values_model(out@) =~= values_model(pre) + seq![v@]);
                }
                match sub {
                    Some(sp) => {
                        let r = match_into(sp, v, out);
                        if r {
                            proof {
                                let s = match_vals(**sp, v@)->Some_0;
                                assert(values_model(out@) =~= values_model(pre) + (seq![v@]
                                    + s));
                            }
                            true
                        } else {
                            false
                        }
                    },
                    None => {
                        assert(values_model(out@) =~= values_model(pre) + (seq![v@]
                            + Seq::<ValueModel>::empty()));
                        true
                    },
                }
            }
        },
        Pattern::Tuple { elems } => {
            match v {
                Value::Tuple(vs) => {
                    proof {
                        lemma_values_model(vs@);
                    }
                    if elems.len() != vs.len() {
                        proof {
                            assert(elems@.len() != values_model(vs@).len());
                            assert(v@ == ValueModel::Tuple(values_model(vs@)));
                            assert(match_seq(elems@, values_model(vs@)) is None);
                            assert(match_vals(*p, v@) is None);
                        }
                        return false;
                    }
                    let r = match_range(elems, vs, 0, out);
                    proof {
                        assert(values_model(vs@).subrange(0, elems@.len() as int)
                            =~= values_model(vs@));
                    }
                    r
                },
                _ => false,
            }
        },
        Pattern::TupleStruct { path, elems } => {
            match v {
                Value::Ctor { path: vp, args } => {
                    proof {
                        lemma_values_model(args@);
                    }
                    if !(*path == *vp) {
                        return false;
                    }
                    if elems.len() != args.len() {
                        proof {
                            assert(v@ == (ValueModel::Ctor {
                                path: vp@,
                                args: values_model(args@),
                            }));
                            assert(match_seq(elems@, values_model(args@)) is None);
                        }
                        return false;
                    }
                    let r = match_range(elems, args, 0, out);
                    proof {
                        assert(values_model(args@).subrange(0, elems@.len() as int)
                            =~= values_model(args@));
                    }
                    r
                },
                _ => false,
            }
        },
        Pattern::Struct { path, fields, has_rest } => {
            match v {
                Value::Record { path: vp, fields: vfs } => {
                    proof {
                        lemma_fields_model(vfs@);
                    }
                    if !(*path == *vp) {
                        return false;
                    }
                    if !*has_rest && fields.len() != vfs.len() {
                        return false;
                    }
                    match_fields_into(fields, vfs, out)
                },
                _ => false,
            }
        },
        Pattern::Ref { inner } => match_into(inner, v, out),
        Pattern::Slice { prefix, rest, suffix } => {
            match v {
                Value::List(vs) => {
                    proof {
                        lemma_values_model(vs@);
                    }
                    let ghost w = values_model(vs@);
                    let np = prefix.len();
                    let ns = suffix.len();
                    let enough = match rest {
                        Some(_) => vs.len() >= np && vs.len() - np >= ns,
                        None => vs.len() >= np && vs.len() - np == ns,
                    };
                    if !enough {
                        return false;
                    }
                    let ghost pre = out@;
                    let r1 = match_range(prefix, vs, 0, out);
                    if !r1 {
                        return false;
                    }
                    assert(w.subrange(0, np as int) == values_model(vs@).subrange(
                        0,
                        0 + prefix@.len() as int,
                    ));
                    let hi = vs.len() - ns;
                    match rest {
                        Some(rp) => {
                            let mut mid: Vec<Value> = Vec::new();
                            let mut k = np;
                            while k < hi
                                invariant
                                    np <= k <= hi <= vs.len(),
                                    mid@.len() == k - np,
                                    forall|j: int|
                                        0 <= j < k - np ==> value_model(#[trigger] mid@[j])
                                            == value_model(vs@[np + j]),
                                decreases hi - k,
                            {
                                let c = clone_value(&vs[k]);
                                mid.push(c);
                                k = k + 1;
                            }
                            proof {
                                lemma_values_model(mid@);
                                lemma_values_model(vs@);
                                assert(values_model(mid@) =~= w.subrange(
                                    np as int,
                                    w.len() - ns as int,
                                ));
                            }
                            let mid_value = Value::List(mid);
                            let r2 = match_into(rp, &mid_value, out);
                            if !r2 {
                                return false;
                            }
                            let r3 = match_range(suffix, vs, hi, out);
                            proof {
                                assert(w.subrange(hi as int, hi as int + suffix@.len() as int)
                                    =~= w.subrange(w.len() - ns as int, w.len() as int));
                            }
                            if !r3 {
                                return false;
                            }
                            proof {
                                let a = match_seq(prefix@, w.subrange(0, np as int))->Some_0;
                                let b = match_vals(
                                    **rp,
                                    ValueModel::List(
                                        w.subrange(np as int, w.len() - ns as int),
                                    ),
                                )->Some_0;
                                let c = match_seq(
                                    suffix@,
                                    w.subrange(w.len() - ns as int, w.len() as int),
                                )->Some_0;
                                assert(values_model(out@) =~= values_model(pre) + ((a + b)
                                    + c));
                            }
                            true
                        },
                        None => {
                            let r3 = match_range(suffix, vs, hi, out);
                            proof {
                                assert(w.subrange(hi as int, hi as int + suffix@.len() as int)
                                    =~= w.subrange(w.len() - ns as int, w.len() as int));
                            }
                            if !r3 {
                                return false;
                            }
                            proof {
                                let a = match_seq(prefix@, w.subrange(0, np as int))->Some_0;
                                let c = match_seq(
                                    suffix@,
                                    w.subrange(w.len() - ns as int, w.len() as int),
                                )->Some_0;
                                assert(values_model(out@) =~= values_model(pre) + (a + c));
                            }
                            true
                        },
                    }
                },
                _ => false,
            }
        },
        Pattern::Or { alts } => {
            if alts.len() > 0 {
                match_into(&alts[0], v, out)
            } else {
                false
            }
        },
    }
}

/// Matches the siblings `ps` pairwise against `vs[start ..]`, appending
/// bound sub-values to `out`.
fn match_range(ps: &Vec<Pattern>, vs: &Vec<Value>, start: usize, out: &mut Vec<Value>) -> (ok:
    bool)
    requires
        start + ps@.len() <= vs@.len(),
    ensures
        ok ==> (match_seq(
            ps@,
            values_model(vs@).subrange(start as int, start as int + ps@.len() as int),
        ) matches Some(s) && values_model(final(out)@) == values_model(old(out)@) + s),
        !ok ==> match_seq(
            ps@,
            values_model(vs@).subrange(start as int, start as int + ps@.len() as int),
        ) is None,
    decreases ps@,
{
    proof {
        lemma_values_model(vs@);
    }
    let ghost w = values_model(vs@).subrange(start as int, start as int + ps@.len() as int);
    let ghost pre = out@;
    let n = ps.len();
    assert(match_seq(ps@.subrange(0, 0), w.subrange(0, 0)) == Some(Seq::<ValueModel>::empty()));
    assert(values_model(out@) =~= values_model(pre) + Seq::<ValueModel>::empty());
    for i in 0..n
        invariant
            n == ps.len(),
            start + n <= vs.len(),
            w == values_model(vs@).subrange(start as int, start as int + n as int),
            w.len() == n,
            (match_seq(ps@.subrange(0, i as int), w.subrange(0, i as int)) matches Some(s)
                && values_model(out@) == values_model(pre) + s),
        decreases n - i,
    {
        proof {
            lemma_values_model(vs@);
            assert(w[i as int] == value_model(vs@[start + i]));
        }
        let r = match_into(&ps[i], &vs[start + i], out);
        if !r {
            proof {
                lemma_match_seq_fail(ps@, w, i as int);
            }
            return false;
        }
        proof {
            lemma_match_seq_snoc(ps@, w, i as int);
            let s0 = match_seq(ps@.subrange(0, i as int), w.subrange(0, i as int))->Some_0;
            let t = match_vals(ps@[i as int], w[i as int])->Some_0;
            assert(values_model(out@) =~= values_model(pre) + (s0 + t));
        }
    }
    proof {
        assert(ps@.subrange(0, n as int) =~= ps@);
        assert(w.subrange(0, n as int) =~= w);
    }
    true
}

/// Matches a record pattern's written fields against the record's fields,
/// appending bound sub-values to `out`.
fn match_fields_into(fps: &Vec<FieldPat>, vfs: &Vec<FieldVal>, out: &mut Vec<Value>) -> (ok:
    bool)
    ensures
        ok ==> (match_fields(fps@, fields_model(vfs@)) matches Some(s) && values_model(
            final(out)@,
        ) == values_model(old(out)@) + s),
        !ok ==> match_fields(fps@, fields_model(vfs@)) is None,
    decreases fps@,
{
    let ghost fm = fields_model(vfs@);
    let ghost pre = out@;
    let n = fps.len();
    assert(match_fields(fps@.subrange(0, 0), fm) == Some(Seq::<ValueModel>::empty()));
    assert(values_model(out@) =~= values_model(pre) + Seq::<ValueModel>::empty());
    for i in 0..n
        invariant
            n == fps.len(),
            fm == fields_model(vfs@),
            (match_fields(fps@.subrange(0, i as int), fm) matches Some(s) && values_model(out@)
                == values_model(pre) + s),
        decreases n - i,
    {
        let j = match find_field(vfs, &fps[i].name) {
            Some(j) => j,
            None => {
                proof {
                    lemma_match_fields_fail(fps@, fm, i as int);
                }
                return false;
            },
        };
        let r = match_into(&fps[i].pat, &vfs[j].value, out);
        if !r {
            proof {
                lemma_match_fields_fail(fps@, fm, i as int);
            }
            return false;
        }
        proof {
            lemma_match_fields_snoc(fps@, fm, i as int);
            let s0 = match_fields(fps@.subrange(0, i as int), fm)->Some_0;
            let t = match_one_field(fps@[i as int], fm)->Some_0;
            assert(values_model(out@) =~= values_model(pre) + (s0 + t));
        }
    }
    proof {
        assert(fps@.subrange(0, n as int) =~= fps@);
    }
    true
}

/// Matches `p` against `v`: `None` when the value does not fit, otherwise
/// the sub-values received by the pattern's bindings, in the analyzer's
/// pre-order — exactly `match_vals`.
pub fn match_pattern(p: &Pattern, v: &Value) -> (r: Option<Vec<Value>>)
    ensures
        match r {
            Some(vs) => match_vals(*p, v@) == Some(values_model(vs@)),
            None => match_vals(*p, v@) is None,
        },
{
    let mut out: Vec<Value> = Vec::new();
    assert(values_model(out@) =~= Seq::<ValueModel>::empty());
    if match_into(p, v, &mut out) {
        assert(values_model(out@) =~= Seq::<ValueModel>::empty() + values_model(out@));
        Some(out)
    } else {
        None
    }
}

} // verus!
