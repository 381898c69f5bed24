use sdw::errors::{ErrType, LexErrors, SemErrors};
use sdw::lex::lex;
use sdw::parse::{parse, Expression, SyntaxNode, SyntaxNodeType};
use sdw::{Span, Spanned};
use sdw::sem::{semantic, AbstractBlock, AbstractExpressionType, AbstractNodeType};
use sdw::translate::{translate, Targets};
use sdw::Type;

fn analyze(src: &str) -> Result<AbstractBlock, sdw::errors::ShadowError> {
    semantic(&parse(lex(src).unwrap()).unwrap())
}

#[test]
fn literals_and_operators_type() {
    let typed = analyze("fn int f() { return 1 + 2; } fn bool g() { return 1 < 2; }").unwrap();
    match &typed[0].ty {
        AbstractNodeType::Function { rty, body, .. } => {
            assert_eq!(rty.inner, Type::Int);
            match &body[0].ty {
                AbstractNodeType::Return { expr: Some(e) } => assert_eq!(e.ty, Type::Int),
                other => panic!("should be a return, got {:?}", other),
            }
        }
        other => panic!("should be a function, got {:?}", other),
    }
    match &typed[1].ty {
        AbstractNodeType::Function { body, .. } => match &body[0].ty {
            AbstractNodeType::Return { expr: Some(e) } => assert_eq!(e.ty, Type::Bool),
            other => panic!("should be a return, got {:?}", other),
        },
        other => panic!("should be a function, got {:?}", other),
    }
}

#[test]
fn shadowing_inner_scope_wins_and_closes() {
    // the inner x types as Bool; after the inner block closes, x is the
    // outer Int again, so the reassignment with 2 passes
    let typed = analyze(
        "fn void f() { let x = 1; if true { let x = true; let y = x; } x = 2; return; }",
    )
    .unwrap();
    match &typed[0].ty {
        AbstractNodeType::Function { body, .. } => {
            match &body[1].ty {
                AbstractNodeType::If { body: inner, .. } => match &inner[1].ty {
                    AbstractNodeType::VDec { name, init } => {
                        assert_eq!(name.inner, "y".to_string());
                        assert_eq!(init.ty, Type::Bool);
                    }
                    other => panic!("should be a declaration, got {:?}", other),
                },
                other => panic!("should be a conditional, got {:?}", other),
            }
            match &body[2].ty {
                AbstractNodeType::VRes { new, name } => {
                    assert_eq!(name.inner, "x".to_string());
                    assert_eq!(new.ty, Type::Int);
                }
                other => panic!("should be a reassignment, got {:?}", other),
            }
        }
        other => panic!("should be a function, got {:?}", other),
    }
}

#[test]
fn shadowing_does_not_leak_out() {
    // the inner boolean x dies with its scope: assigning true to the outer
    // integer x afterwards must fail
    let r = analyze("fn void f() { let x = 1; if true { let x = true; } x = true; return; }");
    assert!(matches!(
        r.err().unwrap().ty,
        ErrType::Semantic(SemErrors::CannotReassignVariableType(_, Type::Int, Type::Bool))
    ));
}

#[test]
fn return_type_enforcement() {
    let r = analyze("fn bool f() { return 1; }");
    assert!(matches!(
        r.err().unwrap().ty,
        ErrType::Semantic(SemErrors::MismatchedFnRetTy(Type::Bool, Type::Int))
    ));
}

#[test]
fn bare_return_needs_void() {
    let r = analyze("fn int f() { return; }");
    assert!(matches!(
        r.err().unwrap().ty,
        ErrType::Semantic(SemErrors::MismatchedFnRetTy(Type::Int, Type::Void))
    ));
}

#[test]
fn call_arity_checked() {
    let r = analyze("fn void g(int a, bool b) { return; } fn void h() { g(1); }");
    match r.err().unwrap().ty {
        ErrType::Semantic(SemErrors::MismatchedNumArgs(p, a)) => {
            assert_eq!(p, 2);
            assert_eq!(a, 1);
        }
        other => panic!("wrong error: {:?}", other),
    }
}

#[test]
fn call_argument_types_checked() {
    let r = analyze("fn void g(int a, bool b) { return; } fn void h() { g(true, true); }");
    assert!(matches!(
        r.err().unwrap().ty,
        ErrType::Semantic(SemErrors::ArgTyMismatch(Type::Int, Type::Bool))
    ));
}

#[test]
fn call_in_expression_typed_by_return_type() {
    // call expressions come to the analyser as trees; the statement parser
    // only builds standalone calls, so the tree is put together here
    let span = Span { line: 0, column: 0, end_line: 0, end_col: 1 };
    let mut ast = parse(lex("fn int g() { return 4; }").unwrap()).unwrap();
    let call = Expression::FnCall(
        "g".to_string(),
        vec![],
    );
    let h = SyntaxNode::new(
        SyntaxNodeType::Function {
            name: Spanned::new(span, "h".to_string()),
            params: vec![],
            rty: Spanned::new(span, "int".to_string()),
            body: vec![SyntaxNode::new(
                SyntaxNodeType::Return { expr: Spanned::new(span, Some(call)) },
                span,
            )],
        },
        span,
    );
    ast.push(h);
    let typed = semantic(&ast).unwrap();
    match &typed[1].ty {
        AbstractNodeType::Function { body, .. } => match &body[0].ty {
            AbstractNodeType::Return { expr: Some(e) } => {
                assert_eq!(e.ty, Type::Int);
                assert!(matches!(&*e.expr, AbstractExpressionType::FnCall(..)));
            }
            other => panic!("should be a return, got {:?}", other),
        },
        other => panic!("should be a function, got {:?}", other),
    }
}

#[test]
fn variable_not_found() {
    let r = analyze("fn void f() { y = 1; return; }");
    match r.err().unwrap().ty {
        ErrType::Semantic(SemErrors::VariableNotFound(v)) => assert_eq!(v, "y".to_string()),
        other => panic!("wrong error: {:?}", other),
    }
}

#[test]
fn function_not_found() {
    let r = analyze("fn void f() { g(); return; }");
    match r.err().unwrap().ty {
        ErrType::Semantic(SemErrors::FunctionNotFound(v)) => assert_eq!(v, "g".to_string()),
        other => panic!("wrong error: {:?}", other),
    }
}

#[test]
fn condition_must_be_boolean() {
    let r = analyze("fn void f() { if 1 { return; } return; }");
    assert!(matches!(
        r.err().unwrap().ty,
        ErrType::Semantic(SemErrors::CondNotBool(Type::Int))
    ));
    let r = analyze("fn void f() { if true { return; } else if 1 { return; } return; }");
    assert!(matches!(
        r.err().unwrap().ty,
        ErrType::Semantic(SemErrors::CondNotBool(Type::Int))
    ));
}

#[test]
fn mismatched_operand_types() {
    let r = analyze("fn void f() { let x = 1 + true; return; }");
    assert!(matches!(
        r.err().unwrap().ty,
        ErrType::Semantic(SemErrors::MismatchedTypes(Type::Int, Type::Bool))
    ));
}

#[test]
fn return_outside_function() {
    let r = analyze("return;");
    assert!(matches!(
        r.err().unwrap().ty,
        ErrType::Semantic(SemErrors::ReturnOutsideFn)
    ));
}

#[test]
fn declaration_outside_scope() {
    let r = analyze("let x = 1;");
    assert!(matches!(
        r.err().unwrap().ty,
        ErrType::Semantic(SemErrors::CompilerNotInAScope)
    ));
}

#[test]
fn unrecognised_type_name() {
    let r = analyze("fn banana f() { }");
    match r.err().unwrap().ty {
        ErrType::Lex(LexErrors::UnrecognisedType(s)) => assert_eq!(s, "banana".to_string()),
        other => panic!("wrong error: {:?}", other),
    }
}

#[test]
fn parameters_visible_in_body() {
    let typed = analyze("fn int f(int a) { return a; }").unwrap();
    match &typed[0].ty {
        AbstractNodeType::Function { body, .. } => match &body[0].ty {
            AbstractNodeType::Return { expr: Some(e) } => assert_eq!(e.ty, Type::Int),
            other => panic!("should be a return, got {:?}", other),
        },
        other => panic!("should be a function, got {:?}", other),
    }
}

#[test]
fn recursion_resolves() {
    // a function is visible inside its own body
    assert!(analyze("fn int f(int a) { f(a); return 1; }").is_ok());
}

#[test]
fn reanalysis_gives_identical_trees() {
    // analysing the same underlying syntax tree twice gives structurally
    // identical typed trees: no state survives a run
    let ast = parse(
        lex("fn int f(int a) { let x = a + 1; if x < 3 { return x; } f(x); return x; }").unwrap(),
    )
    .unwrap();
    let t1 = semantic(&ast).unwrap();
    let t2 = semantic(&ast).unwrap();
    let ir1 = translate(Targets::Llvm, &t1).unwrap();
    let ir2 = translate(Targets::Llvm, &t2).unwrap();
    assert_eq!(ir1, ir2);
    assert_eq!(format!("{:?}", t1), format!("{:?}", t2));
}

#[test]
fn fail_fast_reports_first_error_only() {
    // two independent violations: an unknown variable in the first function
    // and a return-type mismatch in the second; only the first one in
    // program order surfaces
    let r = analyze("fn void f() { y = 1; } fn bool g() { return 1; }");
    match r.err().unwrap().ty {
        ErrType::Semantic(SemErrors::VariableNotFound(v)) => assert_eq!(v, "y".to_string()),
        other => panic!("wrong error: {:?}", other),
    }
}
