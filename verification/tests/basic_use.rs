use try_let::expand::{run_expansion, try_let, Expr, Fallback, Outcome};
use try_let::pattern::Pattern;
use try_let::value::Value;

fn bind(name: &str) -> Pattern {
    Pattern::Ident { by_ref: false, mutable: false, name: name.to_string(), sub: None }
}

fn ctor(path: &str, args: Vec<Value>) -> Value {
    Value::Ctor { path: path.to_string(), args }
}

fn expr(text: &str) -> Expr {
    Expr { text: text.to_string() }
}

#[test]
fn basic() {
    let foo = ctor("Some", vec![Value::Int(10)]);

    // try_let!(Some(x) = foo else unreachable!());
    let pat = Pattern::TupleStruct { path: "Some".to_string(), elems: vec![bind("x")] };
    let e = try_let(pat, expr("foo"), Fallback::Else(expr("unreachable!()")));
    assert_eq!(e.bindings.len(), 1);
    assert_eq!(e.bindings[0].name, "x");
    match run_expansion(&e, &foo) {
        Outcome::Bound { values } => assert_eq!(values, vec![Value::Int(10)]),
        _ => unreachable!(),
    }

    // try_let!(None = foo else return);
    let pat2 = Pattern::Ident {
        by_ref: false,
        mutable: false,
        name: "None".to_string(),
        sub: None,
    };
    let e2 = try_let(pat2, expr("foo"), Fallback::Else(expr("return")));
    assert_eq!(e2.bindings.len(), 0);
    match run_expansion(&e2, &foo) {
        Outcome::FallbackRun => return,
        _ => {}
    }
    unreachable!();
}

#[test]
fn tuple() {
    let other = Value::Tuple(vec![
        ctor("Some", vec![Value::Int(10)]),
        ctor("Some", vec![Value::Str("apples".to_string())]),
        ctor("None", vec![]),
    ]);

    // try_let!((Some(a), Some(b), None) = other else unreachable!());
    let pat = Pattern::Tuple {
        elems: vec![
            Pattern::TupleStruct { path: "Some".to_string(), elems: vec![bind("a")] },
            Pattern::TupleStruct { path: "Some".to_string(), elems: vec![bind("b")] },
            Pattern::Ident {
                by_ref: false,
                mutable: false,
                name: "None".to_string(),
                sub: None,
            },
        ],
    };
    let e = try_let(pat, expr("other"), Fallback::Else(expr("unreachable!()")));
    assert_eq!(e.bindings.len(), 2);
    match run_expansion(&e, &other) {
        Outcome::Bound { values } => {
            assert_eq!(values[0], Value::Int(10));
            assert_eq!(values[1], Value::Str("apples".to_string()));
        }
        _ => unreachable!(),
    }
}
