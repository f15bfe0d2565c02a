use try_let::expand::{run_expansion, try_let, Expr, Fallback, Outcome};
use try_let::pattern::Pattern;
use try_let::value::Value;

fn bind(name: &str) -> Pattern {
    Pattern::Ident { by_ref: false, mutable: false, name: name.to_string(), sub: None }
}

#[test]
fn bindings_after_at() {
    let nested = Value::Ctor {
        path: "Some".to_string(),
        args: vec![Value::Tuple(vec![
            Value::Str("apple".to_string()),
            Value::Str("pear".to_string()),
        ])],
    };

    // try_let!(Some(a @ (b, c)) = nested else { unreachable!(); });
    let pat = Pattern::TupleStruct {
        path: "Some".to_string(),
        elems: vec![Pattern::Ident {
            by_ref: false,
            mutable: false,
            name: "a".to_string(),
            sub: Some(Box::new(Pattern::Tuple { elems: vec![bind("b"), bind("c")] })),
        }],
    };
    let e = try_let(
        pat,
        Expr { text: "nested".to_string() },
        Fallback::Else(Expr { text: "{ unreachable!(); }".to_string() }),
    );
    let names: Vec<&str> = e.bindings.iter().map(|b| b.name.as_str()).collect();
    assert_eq!(names, vec!["a", "b", "c"]);
    match run_expansion(&e, &nested) {
        Outcome::Bound { values } => {
            assert_eq!(
                values[0],
                Value::Tuple(vec![
                    Value::Str("apple".to_string()),
                    Value::Str("pear".to_string()),
                ])
            );
            assert_eq!(values[1], Value::Str("apple".to_string()));
            assert_eq!(values[2], Value::Str("pear".to_string()));
        }
        _ => unreachable!(),
    }
}
