//! The pattern analyzer: the executable walk that collects a pattern's
//! bindings, proved to return exactly `bindings_of` of the pattern.

use vstd::prelude::*;
use crate::pattern::{
    Binding, BindingModel, FieldPat, Pattern, Qualifier, bindings_of, bindings_of_fields,
    bindings_of_seq, is_constructor_name, qual_of,
};

verus! {

/// The models of a sequence of collected bindings, element by element.
pub open spec fn models_of(s: Seq<Binding>) -> Seq<BindingModel> {
    s.map_values(|b: Binding| b@)
}

/// Concatenating sibling sequences concatenates their bindings.
pub proof fn lemma_bindings_of_seq_concat(a: Seq<Pattern>, b: Seq<Pattern>)
    ensures
        bindings_of_seq(a + b) == bindings_of_seq(a) + bindings_of_seq(b),
    decreases a.len(),
{
    if a.len() == 0 {
        assert(a + b =~= b);
        assert(bindings_of_seq(a) + bindings_of_seq(b) =~= bindings_of_seq(b));
    } else {
        let a1 = a.subrange(1, a.len() as int);
        lemma_bindings_of_seq_concat(a1, b);
        assert((a + b)[0] == a[0]);
        assert((a + b).subrange(1, (a + b).len() as int) =~= a1 + b);
        assert(bindings_of(a[0]) + (bindings_of_seq(a1) + bindings_of_seq(b)) =~= (bindings_of(
            a[0],
        ) + bindings_of_seq(a1)) + bindings_of_seq(b));
    }
}

/// The field analogue of `lemma_bindings_of_seq_concat`.
pub proof fn lemma_bindings_of_fields_concat(a: Seq<FieldPat>, b: Seq<FieldPat>)
    ensures
        bindings_of_fields(a + b) == bindings_of_fields(a) + bindings_of_fields(b),
    decreases a.len(),
{
    if a.len() == 0 {
        assert(a + b =~= b);
        assert(bindings_of_fields(a) + bindings_of_fields(b) =~= bindings_of_fields(b));
    } else {
        let a1 = a.subrange(1, a.len() as int);
        lemma_bindings_of_fields_concat(a1, b);
        assert((a + b)[0] == a[0]);
        assert((a + b).subrange(1, (a + b).len() as int) =~= a1 + b);
        assert(bindings_of(a[0].pat) + (bindings_of_fields(a1) + bindings_of_fields(b))
            =~= (bindings_of(a[0].pat) + bindings_of_fields(a1)) + bindings_of_fields(b));
    }
}

/// A sequence of one sibling contributes exactly that sibling's bindings.
pub proof fn lemma_bindings_of_seq_single(p: Pattern)
    ensures
        bindings_of_seq(seq![p]) == bindings_of(p),
{
    let one = seq![p];
    assert(one.len() == 1);
    assert(one[0] == p);
    assert(one.subrange(1, 1) =~= Seq::<Pattern>::empty());
    assert(bindings_of_seq(one.subrange(1, 1)) == Seq::<BindingModel>::empty());
    assert(bindings_of_seq(one) == bindings_of(p) + bindings_of_seq(one.subrange(1, 1)));
    assert(bindings_of(p) + Seq::<BindingModel>::empty() =~= bindings_of(p));
}

/// A one-longer prefix of siblings contributes the next sibling's bindings
/// at the end.
pub proof fn lemma_bindings_of_seq_snoc(s: Seq<Pattern>, i: int)
    requires
        0 <= i < s.len(),
    ensures
        bindings_of_seq(s.subrange(0, i + 1)) == bindings_of_seq(s.subrange(0, i)) + bindings_of(
            s[i],
        ),
{
    lemma_bindings_of_seq_concat(s.subrange(0, i), seq![s[i]]);
    lemma_bindings_of_seq_single(s[i]);
    assert(s.subrange(0, i + 1) =~= s.subrange(0, i) + seq![s[i]]);
}

/// A field sequence of one field contributes exactly its sub-pattern's
/// bindings.
pub proof fn lemma_bindings_of_fields_single(f: FieldPat)
    ensures
        bindings_of_fields(seq![f]) == bindings_of(f.pat),
{
    let one = seq![f];
    assert(one.len() == 1);
    assert(one[0] == f);
    assert(one.subrange(1, 1) =~= Seq::<FieldPat>::empty());
    assert(bindings_of_fields(one.subrange(1, 1)) == Seq::<BindingModel>::empty());
    assert(bindings_of_fields(one) == bindings_of(f.pat) + bindings_of_fields(
        one.subrange(1, 1),
    ));
    assert(bindings_of(f.pat) + Seq::<BindingModel>::empty() =~= bindings_of(f.pat));
}

/// The record-field analogue of `lemma_bindings_of_seq_snoc`.
pub proof fn lemma_bindings_of_fields_snoc(s: Seq<FieldPat>, i: int)
    requires
        0 <= i < s.len(),
    ensures
        bindings_of_fields(s.subrange(0, i + 1)) == bindings_of_fields(s.subrange(0, i))
            + bindings_of(s[i].pat),
{
    lemma_bindings_of_fields_concat(s.subrange(0, i), seq![s[i]]);
    lemma_bindings_of_fields_single(s[i]);
    assert(s.subrange(0, i + 1) =~= s.subrange(0, i) + seq![s[i]]);
}

/// A lowercase-leading (or otherwise non-capital-leading) identifier is
/// included as a binding exactly once for its own occurrence, at the front,
/// and the bindings of its at-bound sub-pattern follow it in order.
pub proof fn lemma_binding_ident_included(
    by_ref: bool,
    mutable: bool,
    name: String,
    sub: Option<Box<Pattern>>,
)
    requires
        !is_constructor_name(name@),
    ensures
        bindings_of(Pattern::Ident { by_ref, mutable, name, sub }) == seq![
            BindingModel { name: name@, qual: qual_of(by_ref, mutable) },
        ] + (match sub {
            Some(sp) => bindings_of(*sp),
            None => Seq::<BindingModel>::empty(),
        }),
{
}

/// A capital-leading identifier is read as a constructor reference and
/// excluded, yet its at-bound sub-pattern still yields its bindings.
pub proof fn lemma_constructor_ident_excluded(
    by_ref: bool,
    mutable: bool,
    name: String,
    sub: Option<Box<Pattern>>,
)
    requires
        is_constructor_name(name@),
    ensures
        bindings_of(Pattern::Ident { by_ref, mutable, name, sub }) == (match sub {
            Some(sp) => bindings_of(*sp),
            None => Seq::<BindingModel>::empty(),
        }),
{
}

/// No collected binding is constructor-named.
pub open spec fn no_constructor_named(s: Seq<BindingModel>) -> bool {
    forall|i: int| 0 <= i < s.len() ==> !is_constructor_name((#[trigger] s[i]).name)
}

/// The analyzer never takes a capital-leading identifier for a binding:
/// every binding of every pattern has a non-constructor name.
pub proof fn lemma_no_constructor_collected(p: Pattern)
    ensures
        no_constructor_named(bindings_of(p)),
    decreases p,
{
    match p {
        Pattern::Wild => {},
        Pattern::Lit(_) => {},
        Pattern::Ident { by_ref, mutable, name, sub } => {
            match sub {
                Some(sp) => {
                    lemma_no_constructor_collected(*sp);
                },
                None => {},
            }
        },
        Pattern::Tuple { elems } => {
            lemma_no_constructor_collected_seq(elems@);
        },
        Pattern::TupleStruct { path, elems } => {
            lemma_no_constructor_collected_seq(elems@);
        },
        Pattern::Struct { path, fields, has_rest } => {
            lemma_no_constructor_collected_fields(fields@);
        },
        Pattern::Ref { inner } => {
            lemma_no_constructor_collected(*inner);
        },
        Pattern::Slice { prefix, rest, suffix } => {
            lemma_no_constructor_collected_seq(prefix@);
            match rest {
                Some(rp) => {
                    lemma_no_constructor_collected(*rp);
                },
                None => {},
            }
            lemma_no_constructor_collected_seq(suffix@);
        },
        Pattern::Or { alts } => {
            if alts@.len() > 0 {
                lemma_no_constructor_collected(alts@[0]);
            }
        },
    }
}

/// The sibling-sequence case of `lemma_no_constructor_collected`.
pub proof fn lemma_no_constructor_collected_seq(ps: Seq<Pattern>)
    ensures
        no_constructor_named(bindings_of_seq(ps)),
    decreases ps,
{
    if ps.len() > 0 {
        lemma_no_constructor_collected(ps[0]);
        lemma_no_constructor_collected_seq(ps.subrange(1, ps.len() as int));
    }
}

/// The record-field case of `lemma_no_constructor_collected`.
pub proof fn lemma_no_constructor_collected_fields(fs: Seq<FieldPat>)
    ensures
        no_constructor_named(bindings_of_fields(fs)),
    decreases fs,
{
    if fs.len() > 0 {
        lemma_no_constructor_collected(fs[0].pat);
        lemma_no_constructor_collected_fields(fs.subrange(1, fs.len() as int));
    }
}

/// Whether the casing heuristic reads `name` as a nullary constructor
/// reference: a non-empty name whose first character is an ASCII capital.
pub fn is_constructor_ident(name: &str) -> (r: bool)
    ensures
        r == is_constructor_name(name@),
{
    let n = name.unicode_len();
    if n == 0 {
        false
    } else {
        let c = name.get_char(0);
        let cu = c as u32;
        65 <= cu && cu <= 90
    }
}

/// The executable image of `qual_of`.
fn qualifier_of(by_ref: bool, mutable: bool) -> (q: Qualifier)
    ensures
        q == qual_of(by_ref, mutable),
{
    if by_ref {
        if mutable {
            Qualifier::ByRefMut
        } else {
            Qualifier::ByRef
        }
    } else {
        if mutable {
            Qualifier::ByValueMut
        } else {
            Qualifier::ByValue
        }
    }
}

/// Appends the bindings of `p`, in pre-order, to `out`.
fn visit_pattern(p: &Pattern, out: &mut Vec<Binding>)
    ensures
        models_of(final(out)@) == models_of(old(out)@) + bindings_of(*p),
    decreases *p,
{
    match p {
        Pattern::Wild => {
            assert(models_of(out@) + bindings_of(*p) =~= models_of(out@));
        },
        Pattern::Lit(_) => {
            assert(models_of(out@) + bindings_of(*p) =~= models_of(out@));
        },
        Pattern::Ident { by_ref, mutable, name, sub } => {
            let ghost pre = out@;
            if !is_constructor_ident(name.as_str()) {
                let b = Binding { name: name.clone(), qual: qualifier_of(*by_ref, *mutable) };
                out.push(b);
                assert(models_of(out@) =~= models_of(pre) + seq![
                    BindingModel { name: name@, qual: qual_of(*by_ref, *mutable) },
                ]);
            }
            match sub {
                Some(sp) => {
                    visit_pattern(sp, out);
                },
                None => {},
            }
            assert(models_of(out@) =~= models_of(pre) + bindings_of(*p));
        },
        Pattern::Tuple { elems } => {
            visit_siblings(elems, out);
        },
        Pattern::TupleStruct { path, elems } => {
            visit_siblings(elems, out);
        },
        Pattern::Struct { path, fields, has_rest } => {
            visit_fields(fields, out);
        },
        Pattern::Ref { inner } => {
            visit_pattern(inner, out);
        },
        Pattern::Slice { prefix, rest, suffix } => {
            let ghost pre = out@;
            visit_siblings(prefix, out);
            match rest {
                Some(rp) => {
                    visit_pattern(rp, out);
                },
                None => {},
            }
            visit_siblings(suffix, out);
            assert(models_of(out@) =~= models_of(pre) + bindings_of(*p));
        },
        Pattern::Or { alts } => {
            if alts.len() > 0 {
                visit_pattern(&alts[0], out);
            } else {
                assert(models_of(out@) + bindings_of(*p) =~= models_of(out@));
            }
        },
    }
}

/// Appends the bindings of each sibling, left to right, to `out`.
fn visit_siblings(ps: &Vec<Pattern>, out: &mut Vec<Binding>)
    ensures
        models_of(final(out)@) == models_of(old(out)@) + bindings_of_seq(ps@),
    decreases ps@,
{
    let ghost pre = out@;
    let n = ps.len();
    for i in 0..n
        invariant
            n == ps.len(),
            models_of(out@) == models_of(pre) + bindings_of_seq(ps@.subrange(0, i as int)),
        decreases n - i,
    {
        proof {
            lemma_bindings_of_seq_snoc(ps@, i as int);
        }
        visit_pattern(&ps[i], out);
        assert(models_of(out@) =~= models_of(pre) + bindings_of_seq(ps@.subrange(0, i + 1)));
    }
    assert(ps@.subrange(0, n as int) =~= ps@);
}

/// Appends the bindings of each written record field, left to right, to
/// `out`.
fn visit_fields(fs: &Vec<FieldPat>, out: &mut Vec<Binding>)
    ensures
        models_of(final(out)@) == models_of(old(out)@) + bindings_of_fields(fs@),
    decreases fs@,
{
    let ghost pre = out@;
    let n = fs.len();
    for i in 0..n
        invariant
            n == fs.len(),
            models_of(out@) == models_of(pre) + bindings_of_fields(fs@.subrange(0, i as int)),
        decreases n - i,
    {
        proof {
            lemma_bindings_of_fields_snoc(fs@, i as int);
        }
        visit_pattern(&fs[i].pat, out);
        assert(models_of(out@) =~= models_of(pre) + bindings_of_fields(fs@.subrange(0, i + 1)));
    }
    assert(fs@.subrange(0, n as int) =~= fs@);
}

/// The pattern analyzer: the ordered value bindings of `p`, exactly
/// `bindings_of(*p)` — each lowercase-leading (or otherwise non-capital)
/// identifier once per textual occurrence, in left-to-right pre-order, with
/// its by-reference and mutability qualifier; capital-leading identifiers
/// read as constructor references and omitted.
pub fn collect_bindings(p: &Pattern) -> (r: Vec<Binding>)
    ensures
        models_of(r@) == bindings_of(*p),
{
    let mut out: Vec<Binding> = Vec::new();
    assert(models_of(out@) =~= Seq::<BindingModel>::empty());
    visit_pattern(p, &mut out);
    assert(models_of(out@) =~= bindings_of(*p));
    out
}

} // verus!
