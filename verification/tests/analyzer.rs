use try_let::analyze::collect_bindings;
use try_let::pattern::{FieldPat, Literal, Pattern, Qualifier};

fn bind(name: &str) -> Pattern {
    Pattern::Ident { by_ref: false, mutable: false, name: name.to_string(), sub: None }
}

fn names(p: &Pattern) -> Vec<String> {
    collect_bindings(p).into_iter().map(|b| b.name).collect()
}

#[test]
fn lowercase_identifiers_collected_in_pre_order() {
    // E::A(a, 21, c, 34, Some(e), Err(f)) yields a, c, e, f in order.
    let pat = Pattern::TupleStruct {
        path: "E::A".to_string(),
        elems: vec![
            bind("a"),
            Pattern::Lit(Literal::Int(21)),
            bind("c"),
            Pattern::Lit(Literal::Int(34)),
            Pattern::TupleStruct { path: "Some".to_string(), elems: vec![bind("e")] },
            Pattern::TupleStruct { path: "Err".to_string(), elems: vec![bind("f")] },
        ],
    };
    assert_eq!(names(&pat), vec!["a", "c", "e", "f"]);
}

#[test]
fn uppercase_identifier_excluded() {
    // (None, x): the bare capital-leading identifier is a constructor
    // reference, not a binding.
    let pat = Pattern::Tuple {
        elems: vec![
            Pattern::Ident {
                by_ref: false,
                mutable: false,
                name: "None".to_string(),
                sub: None,
            },
            bind("x"),
        ],
    };
    assert_eq!(names(&pat), vec!["x"]);
}

#[test]
fn at_binding_order() {
    // a @ (b, c) binds a, b, c in that order.
    let pat = Pattern::Ident {
        by_ref: false,
        mutable: false,
        name: "a".to_string(),
        sub: Some(Box::new(Pattern::Tuple { elems: vec![bind("b"), bind("c")] })),
    };
    assert_eq!(names(&pat), vec!["a", "b", "c"]);
}

#[test]
fn constructor_at_binding_still_recursed() {
    // A capital-leading identifier with an at-bound sub-pattern is itself
    // excluded, but the sub-pattern's bindings are kept.
    let pat = Pattern::Ident {
        by_ref: false,
        mutable: false,
        name: "X".to_string(),
        sub: Some(Box::new(bind("rest"))),
    };
    assert_eq!(names(&pat), vec!["rest"]);
}

#[test]
fn qualifiers_recorded() {
    let pat = Pattern::Tuple {
        elems: vec![
            Pattern::Ident {
                by_ref: true,
                mutable: false,
                name: "r".to_string(),
                sub: None,
            },
            Pattern::Ident {
                by_ref: true,
                mutable: true,
                name: "rm".to_string(),
                sub: None,
            },
            Pattern::Ident {
                by_ref: false,
                mutable: true,
                name: "m".to_string(),
                sub: None,
            },
            bind("v"),
        ],
    };
    let bs = collect_bindings(&pat);
    assert_eq!(bs[0].qual, Qualifier::ByRef);
    assert_eq!(bs[1].qual, Qualifier::ByRefMut);
    assert_eq!(bs[2].qual, Qualifier::ByValueMut);
    assert_eq!(bs[3].qual, Qualifier::ByValue);
}

#[test]
fn record_fields_in_written_order() {
    // Point { y: b, x: a, .. } yields b then a: written order, not
    // declaration order; the rest marker adds nothing.
    let pat = Pattern::Struct {
        path: "Point".to_string(),
        fields: vec![
            FieldPat { name: "y".to_string(), pat: bind("b") },
            FieldPat { name: "x".to_string(), pat: bind("a") },
        ],
        has_rest: true,
    };
    assert_eq!(names(&pat), vec!["b", "a"]);
}

#[test]
fn slice_prefix_rest_suffix_order() {
    // [first, middle @ .., last]
    let pat = Pattern::Slice {
        prefix: vec![bind("first")],
        rest: Some(Box::new(bind("middle"))),
        suffix: vec![bind("last")],
    };
    assert_eq!(names(&pat), vec!["first", "middle", "last"]);
}

#[test]
fn wildcard_literal_and_reference_nodes() {
    // &(_, 7, name): the reference layer and the non-binding leaves add
    // nothing.
    let pat = Pattern::Ref {
        inner: Box::new(Pattern::Tuple {
            elems: vec![Pattern::Wild, Pattern::Lit(Literal::Int(7)), bind("name")],
        }),
    };
    assert_eq!(names(&pat), vec!["name"]);
}

#[test]
fn or_pattern_reads_first_alternative() {
    let pat = Pattern::Or { alts: vec![bind("a"), bind("b")] };
    assert_eq!(names(&pat), vec!["a"]);
}

#[test]
fn empty_name_is_a_binding() {
    // The rule is "uppercase excludes; anything else, including an empty
    // name, includes".
    let pat = bind("");
    assert_eq!(names(&pat), vec![""]);
}

#[test]
fn odd_leading_characters_are_bindings() {
    // The rule is "ASCII capital means constructor; anything else,
    // including an underscore or a non-ASCII letter, means binding".
    let pat = Pattern::Tuple {
        elems: vec![bind("_leading"), bind("zeta"), bind("uberraschung")],
    };
    assert_eq!(names(&pat), vec!["_leading", "zeta", "uberraschung"]);
}
