use try_let::expand::{
    run_expansion, synthesize, try_let, Expr, Fallback, MatchArm, Outcome,
};
use try_let::matching::match_pattern;
use try_let::pattern::{FieldPat, Literal, Pattern};
use try_let::value::{FieldVal, Value};

fn bind(name: &str) -> Pattern {
    Pattern::Ident { by_ref: false, mutable: false, name: name.to_string(), sub: None }
}

fn nullary(name: &str) -> Pattern {
    Pattern::Ident { by_ref: false, mutable: false, name: name.to_string(), sub: None }
}

fn ctor(path: &str, args: Vec<Value>) -> Value {
    Value::Ctor { path: path.to_string(), args }
}

fn expr(text: &str) -> Expr {
    Expr { text: text.to_string() }
}

fn some_x() -> Pattern {
    Pattern::TupleStruct { path: "Some".to_string(), elems: vec![bind("x")] }
}

#[test]
fn failure_runs_fallback_and_binds_nothing() {
    // Scrutinee None against Some(x) with `else return_marker`.
    let e = try_let(some_x(), expr("foo"), Fallback::Else(expr("return_marker")));
    let none = ctor("None", vec![]);
    assert_eq!(run_expansion(&e, &none), Outcome::FallbackRun);
}

#[test]
fn degenerate_nullary_match() {
    // Pattern None against None: zero bindings, fallback untouched;
    // against Some(5): fallback runs, nothing bound.
    let e = try_let(nullary("None"), expr("foo"), Fallback::Else(expr("return")));
    assert_eq!(e.bindings.len(), 0);
    assert_eq!(
        run_expansion(&e, &ctor("None", vec![])),
        Outcome::Bound { values: vec![] }
    );
    assert_eq!(
        run_expansion(&e, &ctor("Some", vec![Value::Int(5)])),
        Outcome::FallbackRun
    );
}

fn failure_arms() -> Vec<MatchArm> {
    vec![
        MatchArm {
            pat: Pattern::TupleStruct { path: "Err".to_string(), elems: vec![bind("e")] },
            guard: None,
            body: expr("return Err(e)"),
        },
        MatchArm { pat: Pattern::Wild, guard: None, body: expr("panic!()") },
    ]
}

#[test]
fn match_arms_taken_only_on_failure() {
    // Explicit arms are kept verbatim and reached only when the success
    // pattern fails; the first matching arm is taken.
    let pat = Pattern::TupleStruct { path: "Ok".to_string(), elems: vec![bind("v")] };
    let e = try_let(pat, expr("res"), Fallback::Arms(failure_arms()));
    assert_eq!(e.fallback, Fallback::Arms(failure_arms()));

    let ok = ctor("Ok", vec![Value::Int(3)]);
    assert_eq!(run_expansion(&e, &ok), Outcome::Bound { values: vec![Value::Int(3)] });

    let err = ctor("Err", vec![Value::Int(7)]);
    assert_eq!(
        run_expansion(&e, &err),
        Outcome::ArmTaken { index: 0, values: vec![Value::Int(7)] }
    );

    let other = ctor("Pending", vec![]);
    assert_eq!(
        run_expansion(&e, &other),
        Outcome::ArmTaken { index: 1, values: vec![] }
    );
}

#[test]
fn idempotent_expansion() {
    // Expanding the same triple twice gives structurally identical output.
    let make = || {
        try_let(
            Pattern::TupleStruct {
                path: "Some".to_string(),
                elems: vec![bind("x"), bind("y")],
            },
            expr("pair"),
            Fallback::Else(expr("return")),
        )
    };
    assert_eq!(make(), make());
}

#[test]
fn synthesize_keeps_parts_verbatim() {
    let pat = some_x();
    let bindings = try_let::analyze::collect_bindings(&pat);
    let e = synthesize(pat, expr("foo"), bindings, Fallback::Else(expr("return")));
    assert_eq!(e.pat, some_x());
    assert_eq!(e.scrutinee, expr("foo"));
    assert_eq!(e.fallback, Fallback::Else(expr("return")));
    assert_eq!(e.bindings.len(), 1);
}

#[test]
fn literal_patterns_gate_matching() {
    let pat = Pattern::Tuple {
        elems: vec![Pattern::Lit(Literal::Int(21)), bind("c")],
    };
    let fits = Value::Tuple(vec![Value::Int(21), Value::Int(10)]);
    let fails = Value::Tuple(vec![Value::Int(22), Value::Int(10)]);
    assert_eq!(match_pattern(&pat, &fits), Some(vec![Value::Int(10)]));
    assert_eq!(match_pattern(&pat, &fails), None);
}

#[test]
fn record_matching_by_field_name() {
    let pat = Pattern::Struct {
        path: "Point".to_string(),
        fields: vec![
            FieldPat { name: "y".to_string(), pat: bind("b") },
            FieldPat { name: "x".to_string(), pat: bind("a") },
        ],
        has_rest: false,
    };
    let point = Value::Record {
        path: "Point".to_string(),
        fields: vec![
            FieldVal { name: "x".to_string(), value: Value::Int(1) },
            FieldVal { name: "y".to_string(), value: Value::Int(2) },
        ],
    };
    // Written order decides the binding order: y's value first.
    assert_eq!(
        match_pattern(&pat, &point),
        Some(vec![Value::Int(2), Value::Int(1)])
    );
    let missing = Value::Record {
        path: "Point".to_string(),
        fields: vec![FieldVal { name: "x".to_string(), value: Value::Int(1) }],
    };
    assert_eq!(match_pattern(&pat, &missing), None);
}

#[test]
fn slice_matching_with_rest() {
    let pat = Pattern::Slice {
        prefix: vec![bind("first")],
        rest: Some(Box::new(bind("middle"))),
        suffix: vec![bind("last")],
    };
    let v = Value::List(vec![
        Value::Int(1),
        Value::Int(2),
        Value::Int(3),
        Value::Int(4),
    ]);
    assert_eq!(
        match_pattern(&pat, &v),
        Some(vec![
            Value::Int(1),
            Value::List(vec![Value::Int(2), Value::Int(3)]),
            Value::Int(4),
        ])
    );
    let short = Value::List(vec![Value::Int(1)]);
    assert_eq!(match_pattern(&pat, &short), None);
}

#[test]
fn or_pattern_reads_first_alternative_only() {
    // Or-patterns with differing binding sets are left open by design:
    // analysis and matching both read the first alternative alone.
    let pat = Pattern::Or { alts: vec![some_x(), nullary("None")] };
    let some = ctor("Some", vec![Value::Int(1)]);
    let none = ctor("None", vec![]);
    assert_eq!(match_pattern(&pat, &some), Some(vec![Value::Int(1)]));
    assert_eq!(match_pattern(&pat, &none), None);
}

#[test]
fn nullary_constructor_must_agree() {
    // A capital-leading identifier matches only the nullary constructor of
    // the same name.
    let pat = nullary("None");
    assert_eq!(match_pattern(&pat, &ctor("None", vec![])), Some(vec![]));
    assert_eq!(match_pattern(&pat, &ctor("Some", vec![Value::Int(1)])), None);
    assert_eq!(match_pattern(&pat, &Value::Int(0)), None);
}
