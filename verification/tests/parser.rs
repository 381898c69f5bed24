use sdw::errors::{ErrType, ParseErrors, SemErrors};
use sdw::lex::{LexemeTypes, Literals};
use sdw::lex::lex;
use sdw::parse::{parse, BinOpTypes, CompTypes, Expression, ParseBuffer, SyntaxNodeType};
use sdw::Spanned;

fn parse_expression(src: &str) -> Spanned<Expression> {
    let mut pb = ParseBuffer::new(lex(src).unwrap());
    pb.parse_expr().expect("expression should parse")
}

#[test]
fn precedence_multiplication_binds_tighter() {
    // parsing 1 + 2 * 3 groups the product on the right, never on the left
    let e = parse_expression("1 + 2 * 3 ;");
    match e.inner {
        Expression::BinOp(l, BinOpTypes::Add, r) => {
            assert!(matches!(*l.inner, Expression::IntLit(1)));
            match *r.inner {
                Expression::BinOp(rl, BinOpTypes::Mul, rr) => {
                    assert!(matches!(*rl.inner, Expression::IntLit(2)));
                    assert!(matches!(*rr.inner, Expression::IntLit(3)));
                }
                other => panic!("right side should be a product, got {:?}", other),
            }
        }
        other => panic!("top should be a sum, got {:?}", other),
    }
}

#[test]
fn relational_binds_looser_than_arithmetic() {
    // a + b < c reads as (a + b) < c
    let e = parse_expression("a + b < c ;");
    match e.inner {
        Expression::Comp(l, CompTypes::LessThan, r) => {
            match *l.inner {
                Expression::BinOp(ll, BinOpTypes::Add, lr) => {
                    assert!(matches!(&*ll.inner, Expression::Variable(v) if v == "a"));
                    assert!(matches!(&*lr.inner, Expression::Variable(v) if v == "b"));
                }
                other => panic!("left side should be a sum, got {:?}", other),
            }
            assert!(matches!(&*r.inner, Expression::Variable(v) if v == "c"));
        }
        other => panic!("top should be a comparison, got {:?}", other),
    }
}

#[test]
fn left_associative_subtraction() {
    // 10 - 4 - 3 reads as (10 - 4) - 3
    let e = parse_expression("10 - 4 - 3 ;");
    match e.inner {
        Expression::BinOp(l, BinOpTypes::Sub, r) => {
            assert!(matches!(*r.inner, Expression::IntLit(3)));
            match *l.inner {
                Expression::BinOp(ll, BinOpTypes::Sub, lr) => {
                    assert!(matches!(*ll.inner, Expression::IntLit(10)));
                    assert!(matches!(*lr.inner, Expression::IntLit(4)));
                }
                other => panic!("left side should be a difference, got {:?}", other),
            }
        }
        other => panic!("top should be a difference, got {:?}", other),
    }
}

#[test]
fn grouping_keeps_its_node() {
    let e = parse_expression("( 1 + 2 ) * 3 ;");
    match e.inner {
        Expression::BinOp(l, BinOpTypes::Mul, _r) => {
            assert!(matches!(*l.inner, Expression::Group(_)));
        }
        other => panic!("top should be a product, got {:?}", other),
    }
}

#[test]
fn two_character_comparisons() {
    let e = parse_expression("a >= b ;");
    assert!(matches!(e.inner, Expression::Comp(_, CompTypes::GreaterThanEqualTo, _)));
    let e = parse_expression("a != b ;");
    assert!(matches!(e.inner, Expression::Comp(_, CompTypes::NotEqual, _)));
    let e = parse_expression("a == b ;");
    assert!(matches!(e.inner, Expression::Comp(_, CompTypes::Equal, _)));
}

#[test]
fn function_definition_shape() {
    let ast = parse(lex("fn int addTwo(int a, int b) { return a + b; }").unwrap()).unwrap();
    assert_eq!(ast.len(), 1);
    match &ast[0].ty {
        SyntaxNodeType::Function { name, params, rty, body } => {
            assert_eq!(name.inner, "addTwo".to_string());
            assert_eq!(rty.inner, "int".to_string());
            assert_eq!(params.len(), 2);
            assert_eq!(params[0].0.inner, "int".to_string());
            assert_eq!(params[0].1.inner, "a".to_string());
            assert_eq!(params[1].1.inner, "b".to_string());
            assert_eq!(body.len(), 1);
            assert!(matches!(body[0].ty, SyntaxNodeType::Return { .. }));
        }
        other => panic!("should be a function, got {:?}", other),
    }
}

#[test]
fn else_if_chain_structure() {
    let ast = parse(
        lex("fn int f(bool a, bool b) { if a { return 1; } else if b { return 2; } else { return 3; } }")
            .unwrap(),
    )
    .unwrap();
    match &ast[0].ty {
        SyntaxNodeType::Function { body, .. } => match &body[0].ty {
            SyntaxNodeType::If { body, else_block, else_ifs, .. } => {
                assert_eq!(body.len(), 1);
                assert_eq!(else_ifs.len(), 1);
                assert!(else_block.is_some());
            }
            other => panic!("should be a conditional, got {:?}", other),
        },
        other => panic!("should be a function, got {:?}", other),
    }
}

#[test]
fn loop_break_continue_statements() {
    let ast = parse(lex("fn void f() { loop { break; continue; } }").unwrap()).unwrap();
    match &ast[0].ty {
        SyntaxNodeType::Function { body, .. } => match &body[0].ty {
            SyntaxNodeType::Loop { body } => {
                assert!(matches!(body[0].ty, SyntaxNodeType::Break));
                assert!(matches!(body[1].ty, SyntaxNodeType::Continue));
            }
            other => panic!("should be a loop, got {:?}", other),
        },
        other => panic!("should be a function, got {:?}", other),
    }
}

#[test]
fn standalone_call_and_reassignment() {
    let ast = parse(lex("f(1, true); x = 3;").unwrap()).unwrap();
    match &ast[0].ty {
        SyntaxNodeType::StandFnCall { name, args } => {
            assert_eq!(name.inner, "f".to_string());
            assert_eq!(args.len(), 2);
        }
        other => panic!("should be a call, got {:?}", other),
    }
    match &ast[1].ty {
        SyntaxNodeType::VRes { name, .. } => {
            assert_eq!(name.inner, "x".to_string());
        }
        other => panic!("should be a reassignment, got {:?}", other),
    }
}

#[test]
fn unexpected_token_error() {
    // a variable declaration needs '=' after the name
    let r = parse(lex("let x 1;").unwrap());
    assert!(matches!(
        r.err().unwrap().ty,
        ErrType::Parse(ParseErrors::UnexpectedToken(..))
    ));
}

#[test]
fn exhausted_stream_error() {
    let r = parse(lex("let x =").unwrap());
    assert!(matches!(
        r.err().unwrap().ty,
        ErrType::Parse(ParseErrors::TokenStreamExhausted)
    ));
}

#[test]
fn invalid_expression_start_error() {
    let r = parse(lex("let x = ;").unwrap());
    assert!(matches!(
        r.err().unwrap().ty,
        ErrType::Parse(ParseErrors::InvalidExpressionStart(_))
    ));
}

#[test]
fn trailing_comma_in_parameters_rejected() {
    let r = parse(lex("fn int f(int a,) { return a; }").unwrap());
    assert!(matches!(
        r.err().unwrap().ty,
        ErrType::Parse(ParseErrors::UnexpectedToken(..))
    ));
}

#[test]
fn empty_parameter_list_accepted() {
    assert!(parse(lex("fn int f() { return 1; }").unwrap()).is_ok());
}

#[test]
fn error_messages_render() {
    let m = ErrType::Parse(ParseErrors::UnknownInfixOperator(LexemeTypes::Literal(
        Literals::Integer(7),
    )))
    .message();
    assert_eq!(m, "an unknown infix operator was used: '7'".to_string());
    let m = ErrType::Parse(ParseErrors::UnexpectedToken(
        LexemeTypes::CloseBrace,
        LexemeTypes::Semicolon,
    ))
    .message();
    assert_eq!(m, "an unexpected token was encountered: '}' (expected ';')".to_string());
    let m = ErrType::Semantic(SemErrors::MismatchedNumArgs(2, 1)).message();
    assert_eq!(m, "the function takes 2 arguments but 1 were given".to_string());
}

#[test]
fn constant_folding() {
    assert_eq!(parse_expression("1 + 2 * 3 ;").inner.eval(), 7);
    assert_eq!(parse_expression("( 1 + 2 ) * 3 ;").inner.eval(), 9);
    assert_eq!(parse_expression("10 - 4 - 3 ;").inner.eval(), 3);
    assert_eq!(parse_expression("7 / 2 ;").inner.eval(), 3);
}
