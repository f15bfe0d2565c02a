//! The pattern tree and the binding-collection specification.
//!
//! A pattern is a recursively nested tree: identifier bindings (possibly
//! with an at-bound sub-pattern), tuples, tuple-struct and record-struct
//! constructors, references, slices, literals, wildcards and or-patterns.
//! `bindings_of` gives the ordered sequence of value bindings a pattern
//! introduces, walking the tree in pre-order, left to right, and excluding
//! identifiers whose first character is an ASCII capital: those are read as
//! nullary constructor references, not bindings.

use vstd::prelude::*;

verus! {

/// How a binding takes its value: by value or by reference, each either
/// mutable or not. The qualifier travels with the binding so the synthesized
/// tuple pattern can restate it unchanged.
#[derive(Clone, Copy, PartialEq, Eq, Structural, Debug)]
pub enum Qualifier {
    ByValue,
    ByValueMut,
    ByRef,
    ByRefMut,
}

/// One collected binding: its identifier and its qualifier.
#[derive(Debug, PartialEq)]
pub struct Binding {
    pub name: String,
    pub qual: Qualifier,
}

/// The mathematical image of a `Binding`: the identifier as a character
/// sequence together with the qualifier.
pub struct BindingModel {
    pub name: Seq<char>,
    pub qual: Qualifier,
}

impl View for Binding {
    type V = BindingModel;

    open spec fn view(&self) -> BindingModel {
        BindingModel { name: self.name@, qual: self.qual }
    }
}

/// A literal that can stand in a pattern. Matching a literal tests the
/// scrutinee for equality and binds nothing.
#[derive(Debug, PartialEq)]
pub enum Literal {
    Int(i64),
    Bool(bool),
    Str(String),
}

/// A pattern, as the expander sees it after parsing.
#[derive(Debug, PartialEq)]
pub enum Pattern {
    /// `_`: matches anything, binds nothing.
    Wild,
    /// A literal pattern: matches on equality, binds nothing.
    Lit(Literal),
    /// A lone identifier, optionally with an at-bound sub-pattern
    /// (`name @ sub`). Whether it is a binding or a nullary constructor
    /// reference is decided lexically by `is_constructor_name`.
    Ident { by_ref: bool, mutable: bool, name: String, sub: Option<Box<Pattern>> },
    /// `(p1, p2, ...)`
    Tuple { elems: Vec<Pattern> },
    /// `Path(p1, p2, ...)`; the path itself is never a binding.
    TupleStruct { path: String, elems: Vec<Pattern> },
    /// `Path { f1: p1, ... }`, fields in the order they were written,
    /// optionally closed by a `..` rest marker.
    Struct { path: String, fields: Vec<FieldPat>, has_rest: bool },
    /// `&p` or a box/deref layer: one inner pattern, no binding of its own.
    Ref { inner: Box<Pattern> },
    /// `[pre0, pre1, rest @ .., suf0]`: fixed prefix, optional rest
    /// sub-pattern bound to the middle, fixed suffix.
    Slice { prefix: Vec<Pattern>, rest: Option<Box<Pattern>>, suffix: Vec<Pattern> },
    /// `p1 | p2 | ...`. Alternatives may bind differing identifier sets in
    /// the host grammar; this expander deliberately reads only the first
    /// alternative rather than guess a merge strategy.
    Or { alts: Vec<Pattern> },
}

/// One field of a record-struct pattern: the field name and the sub-pattern
/// it is matched against.
#[derive(Debug, PartialEq)]
pub struct FieldPat {
    pub name: String,
    pub pat: Pattern,
}

/// The casing heuristic's notion of a capital letter: ASCII `A` to `Z`.
pub open spec fn is_ascii_upper(c: char) -> bool {
    65 <= c as u32 && c as u32 <= 90
}

/// The lexical rule that stands in for name resolution: an identifier whose
/// first character is an ASCII capital is read as a nullary constructor
/// reference and is not a binding; every other identifier (including an
/// empty or non-alphabetic-leading one) is a binding.
pub open spec fn is_constructor_name(name: Seq<char>) -> bool {
    name.len() > 0 && is_ascii_upper(name[0])
}

/// The qualifier encoded by a pattern identifier's `ref` and `mut` markers.
pub open spec fn qual_of(by_ref: bool, mutable: bool) -> Qualifier {
    if by_ref {
        if mutable {
            Qualifier::ByRefMut
        } else {
            Qualifier::ByRef
        }
    } else {
        if mutable {
            Qualifier::ByValueMut
        } else {
            Qualifier::ByValue
        }
    }
}

/// The ordered bindings of a pattern: pre-order, left to right over
/// sub-patterns; an identifier leaf contributes itself first (unless the
/// casing rule reads it as a constructor reference) and then whatever its
/// at-bound sub-pattern contributes; constructor paths, wildcards, literals
/// and rest markers contribute nothing; of an or-pattern only the first
/// alternative is read.
pub open spec fn bindings_of(p: Pattern) -> Seq<BindingModel>
    decreases p,
{
    match p {
        Pattern::Wild => Seq::empty(),
        Pattern::Lit(_) => Seq::empty(),
        Pattern::Ident { by_ref, mutable, name, sub } => {
            let tail = match sub {
                Some(sp) => bindings_of(*sp),
                None => Seq::empty(),
            };
            if is_constructor_name(name@) {
                tail
            } else {
                seq![BindingModel { name: name@, qual: qual_of(by_ref, mutable) }] + tail
            }
        },
        Pattern::Tuple { elems } => bindings_of_seq(elems@),
        Pattern::TupleStruct { path, elems } => bindings_of_seq(elems@),
        Pattern::Struct { path, fields, has_rest } => bindings_of_fields(fields@),
        Pattern::Ref { inner } => bindings_of(*inner),
        Pattern::Slice { prefix, rest, suffix } => {
            let mid = match rest {
                Some(rp) => bindings_of(*rp),
                None => Seq::empty(),
            };
            bindings_of_seq(prefix@) + mid + bindings_of_seq(suffix@)
        },
        Pattern::Or { alts } => {
            if alts@.len() > 0 {
                bindings_of(alts@[0])
            } else {
                Seq::empty()
            }
        },
    }
}

/// Bindings of a sequence of sibling sub-patterns, concatenated in order.
pub open spec fn bindings_of_seq(ps: Seq<Pattern>) -> Seq<BindingModel>
    decreases ps,
{
    if ps.len() == 0 {
        Seq::empty()
    } else {
        bindings_of(ps[0]) + bindings_of_seq(ps.subrange(1, ps.len() as int))
    }
}

/// Bindings of a record pattern's fields, in written order.
pub open spec fn bindings_of_fields(fs: Seq<FieldPat>) -> Seq<BindingModel>
    decreases fs,
{
    if fs.len() == 0 {
        Seq::empty()
    } else {
        bindings_of(fs[0].pat) + bindings_of_fields(fs.subrange(1, fs.len() as int))
    }
}

} // verus!
