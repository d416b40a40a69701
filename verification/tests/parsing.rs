use smp::ast::{generate_ast, ASTError};
use smp::interpreter::symbols::{ExpKind, OpKind, StatementKind};
use smp::scanner::Scanner;
use smp::tokens::Token;

#[test]
fn test_simple_ast() {
    let mut scan = Scanner::new(String::from(
        r#"

            def add(a, b) {
                return a;
            }

            def main() {
               return add(1, 2);
            }
            "#,
    )).unwrap();
    generate_ast(&mut scan).unwrap();
}

#[test]
fn one_plus_one_parses_to_infix() {
    // `1+1;` becomes the infix node with literal one on both sides
    let mut scan = Scanner::new(String::from("def main() { 1+1; }")).unwrap();
    let program = generate_ast(&mut scan).unwrap();
    assert_eq!(program.defs.len(), 1);
    assert_eq!(program.defs[0].name, "main");
    assert_eq!(program.defs[0].block.statements.len(), 1);
    match &program.defs[0].block.statements[0].statement {
        StatementKind::Exp(e) => match &*e.exp {
            ExpKind::Infix(lhs, op, rhs) => {
                assert!(matches!(*lhs.exp, ExpKind::Num(b) if b == (1f64).to_bits()));
                assert!(matches!(op.op, OpKind::Plus));
                assert!(matches!(*rhs.exp, ExpKind::Num(b) if b == (1f64).to_bits()));
            },
            other => panic!("expected an infix expression, got {:?}", other),
        },
        other => panic!("expected an expression statement, got {:?}", other),
    }
}

#[test]
fn chains_are_flat_and_right_leaning() {
    // no precedence levels: a + b == c parses as a + (b == c)
    let mut scan = Scanner::new(String::from("def main() { return a + b == c; }")).unwrap();
    let program = generate_ast(&mut scan).unwrap();
    match &program.defs[0].block.statements[0].statement {
        StatementKind::Return(e) => match &*e.exp {
            ExpKind::Infix(lhs, op, rhs) => {
                assert!(matches!(&*lhs.exp, ExpKind::Name(n) if n == "a"));
                assert!(matches!(op.op, OpKind::Plus));
                match &*rhs.exp {
                    ExpKind::Infix(rl, rop, rr) => {
                        assert!(matches!(&*rl.exp, ExpKind::Name(n) if n == "b"));
                        assert!(matches!(rop.op, OpKind::Comparison(_)));
                        assert!(matches!(&*rr.exp, ExpKind::Name(n) if n == "c"));
                    },
                    other => panic!("expected a nested infix, got {:?}", other),
                }
            },
            other => panic!("expected an infix expression, got {:?}", other),
        },
        other => panic!("expected a return statement, got {:?}", other),
    }
}

#[test]
fn statement_forms_are_distinguished() {
    let mut scan = Scanner::new(String::from(
        "def main() { a := 1; a[0] := 2; a[0]; if (a) { return 1; } else { return 0; } }",
    )).unwrap();
    let program = generate_ast(&mut scan).unwrap();
    let sts = &program.defs[0].block.statements;
    assert_eq!(sts.len(), 4);
    assert!(matches!(&sts[0].statement, StatementKind::Assign { .. }));
    assert!(matches!(&sts[1].statement, StatementKind::ArrayAssign { .. }));
    assert!(matches!(&sts[2].statement, StatementKind::Exp(_)));
    assert!(matches!(&sts[3].statement, StatementKind::Nest(_)));
}

#[test]
fn missing_semicolon_is_rejected() {
    // the brace is taken for an operator, as the flat infix chaining reads it
    let mut scan = Scanner::new(String::from("def main() { return 1 }")).unwrap();
    assert!(matches!(
        generate_ast(&mut scan),
        Err(ASTError::InvalidOperator(Token::RCurly))
    ));
}

#[test]
fn stray_token_after_name_is_rejected() {
    // a name followed by `:=` needs an expression; `}` is no operator
    let mut scan = Scanner::new(String::from("def main() { a := ; }")).unwrap();
    assert!(matches!(generate_ast(&mut scan), Err(ASTError::UnexpectedToken(_))));
}

#[test]
fn parameters_need_comma_or_close() {
    let mut scan = Scanner::new(String::from("def f(a b) { return a; }")).unwrap();
    assert!(matches!(generate_ast(&mut scan), Err(ASTError::UnexpectedToken(_))));
}

#[test]
fn lexical_fault_passes_through() {
    let mut scan = Scanner::new(String::from("def main() { return 1.2.3; }")).unwrap();
    assert!(matches!(generate_ast(&mut scan), Err(ASTError::ScannerError(_))));
}
