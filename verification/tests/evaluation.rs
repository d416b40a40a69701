use smp::ast::generate_ast;
use smp::interpreter::environment::Value;
use smp::interpreter::errors::InterpreterError;
use smp::interpreter::input::Input;
use smp::interpreter::symbols::{
    Args,
    Block,
    Def,
    Exp,
    ExpKind,
    Exps,
    Program,
    Statement,
    StatementKind,
};
use smp::interpreter::Interpreter;
use smp::scanner::Scanner;

/// Parses and runs a program read from standard input never touched.
fn run(source: &str) -> Result<Option<Value>, InterpreterError> {
    let mut s = Scanner::new(String::from(source)).unwrap();
    let program = generate_ast(&mut s).unwrap();
    Interpreter::new(program).execute()
}

/// Parses and runs a program whose `input` built-in reads the given
/// canned lines, last first.
fn run_with_input(source: &str, lines: Vec<String>) -> Result<Option<Value>, InterpreterError> {
    let mut s = Scanner::new(String::from(source)).unwrap();
    let program = generate_ast(&mut s).unwrap();
    Interpreter::new_cursored(program, lines).execute()
}

fn num(v: f64) -> Value {
    Value::Num(v.to_bits())
}

#[test]
fn test_assign_return() {
    /* AST for program:
    def main() {
        a := 1;
        return a;
    }
    */
    let prog = Program {
        defs: vec![Def {
            name: String::from("main"),
            args: Args { names: Vec::new() },
            block: Block {
                statements: vec![
                    Statement {
                        statement: StatementKind::Assign {
                            name: String::from("a"),
                            exp: Exp { exp: Box::new(ExpKind::Num((1f64).to_bits())) },
                        },
                    },
                    Statement {
                        statement: StatementKind::Return(Exp {
                            exp: Box::new(ExpKind::Name(String::from("a"))),
                        }),
                    },
                ],
            },
        }],
    };
    let inter = Interpreter::new(prog);
    assert_eq!(
        1f64,
        f64::from_bits(inter.execute().unwrap().unwrap().into_f64().unwrap())
    );
}

#[test]
fn test_call_fn() {
    /*
    AST for program
    def other(a) {
        return a;
    }

    def main() {
        return other(3);
    }
    */
    let prog = Program {
        defs: vec![
            Def {
                name: String::from("other"),
                args: Args { names: vec![String::from("a")] },
                block: Block {
                    statements: vec![Statement {
                        statement: StatementKind::Return(Exp {
                            exp: Box::new(ExpKind::Name(String::from("a"))),
                        }),
                    }],
                },
            },
            Def {
                name: String::from("main"),
                args: Args { names: Vec::new() },
                block: Block {
                    statements: vec![Statement {
                        statement: StatementKind::Return(Exp {
                            exp: Box::new(ExpKind::Call(
                                String::from("other"),
                                Exps {
                                    exps: vec![Exp { exp: Box::new(ExpKind::Num((3f64).to_bits())) }],
                                },
                            )),
                        }),
                    }],
                },
            },
        ],
    };
    let inter = Interpreter::new(prog);
    assert_eq!(
        3f64,
        f64::from_bits(inter.execute().unwrap().unwrap().into_f64().unwrap())
    );
}

#[test]
fn test_simple() {
    let program = "
    def main() {
        return 1;
    }
    ";
    assert_eq!(run(program).unwrap(), Some(num(1f64)));
}

#[test]
fn test_recursive() {
    let program = "
    def fact(n) {
        if (n == 1) {
            return 1;
        }

        # n! = n * (n-1)!
        return n * fact(n - 1);
    }
    def main() {
        return fact(10);
    }
    ";
    assert_eq!(run(program).unwrap(), Some(num(3628800f64)));
}

#[test]
fn test_multiarg() {
    let program = "
    # returns the product of the parameters
    def func(a, b, c, d, e) {
        return a*b*c*d*e;

    }

    def main() {
        return func(1, 2, 3, 4, 5);
    }
    ";
    assert_eq!(run(program).unwrap(), Some(num(120f64)));
}

#[test]
fn test_nested_parens() {
    let program = "

    def main() {
        return ((1));
    }
    ";
    assert_eq!(run(program).unwrap(), Some(num(1f64)));
}

#[test]
fn test_arr() {
    let program = "

    def main() {
        arr := [5];
        i := 0;
        while (i < 5) {
            arr[i] := i;
            i := i + 1;
        }
        arr[4]; # outputs the 5th element of arr
        return arr; # returns the entire array
    }
    ";
    assert_eq!(
        run(program).unwrap(),
        Some(Value::Array(vec![
            (0f64).to_bits(),
            (1f64).to_bits(),
            (2f64).to_bits(),
            (3f64).to_bits(),
            (4f64).to_bits(),
        ]))
    );
}

#[test]
fn test_reassign() {
    let program = "

    def main() {
        a := [10]; # assign a to an array
        a := 5; # re-assign a to a num
        return a; # we should get back the num
    }
    ";
    assert_eq!(run(program).unwrap(), Some(num(5f64)));
}

#[test]
fn test_multicall() {
    let program = "

    # returns a
    def reta(a) {
        return a;
    }

    def main() {
        first := reta(1);
        second := reta(2);
        return first + second;
    }
    ";
    assert_eq!(run(program).unwrap(), Some(num(3f64)));
}

#[test]
fn test_comments() {
    let program = "

    # comment
    def main() { # the main function is called main() {}
        # returns 1;
        return 1; # we will now return !!
        # 1 was returned
    }
    # the program is over
    # comments without newline";
    assert_eq!(run(program).unwrap(), Some(num(1f64)));
}

#[test]
fn equality_within_tolerance() {
    // values within one ten-millionth compare equal
    assert_eq!(run("def main() { return 1 == 1.00000001; }").unwrap(), Some(num(1f64)));
    assert_eq!(run("def main() { return 1 != 1.00000001; }").unwrap(), Some(num(0f64)));
}

#[test]
fn inequality_past_tolerance() {
    assert_eq!(run("def main() { return 1 == 1.001; }").unwrap(), Some(num(0f64)));
    assert_eq!(run("def main() { return 1 != 1.001; }").unwrap(), Some(num(1f64)));
}

#[test]
fn exact_order_comparisons() {
    assert_eq!(run("def main() { return 2 < 3; }").unwrap(), Some(num(1f64)));
    assert_eq!(run("def main() { return 3 < 3; }").unwrap(), Some(num(0f64)));
    assert_eq!(run("def main() { return 3 <= 3; }").unwrap(), Some(num(1f64)));
    assert_eq!(run("def main() { return 4 > 3; }").unwrap(), Some(num(1f64)));
    assert_eq!(run("def main() { return 3 >= 4; }").unwrap(), Some(num(0f64)));
}

#[test]
fn logic_and_negation() {
    assert_eq!(run("def main() { return 1 && 0; }").unwrap(), Some(num(0f64)));
    assert_eq!(run("def main() { return 1 || 0; }").unwrap(), Some(num(1f64)));
    assert_eq!(run("def main() { return !0; }").unwrap(), Some(num(1f64)));
    assert_eq!(run("def main() { return -5; }").unwrap(), Some(num(-5f64)));
}

#[test]
fn arithmetic_results() {
    assert_eq!(run("def main() { return 1 + 1; }").unwrap(), Some(num(2f64)));
    assert_eq!(run("def main() { return 7 - 2; }").unwrap(), Some(num(5f64)));
    assert_eq!(run("def main() { return 6 * 7; }").unwrap(), Some(num(42f64)));
    assert_eq!(run("def main() { return 7 / 2; }").unwrap(), Some(num(3.5f64)));
    assert_eq!(run("def main() { return 7 % 3; }").unwrap(), Some(num(1f64)));
}

#[test]
fn builtin_results() {
    assert_eq!(run("def main() { return sqrt(4); }").unwrap(), Some(num(2f64)));
    assert_eq!(run("def main() { return sqrt(2); }").unwrap(), Some(num((2f64).sqrt())));
    assert_eq!(run("def main() { return round(1.4); }").unwrap(), Some(num(1f64)));
    assert_eq!(run("def main() { return round(1.5); }").unwrap(), Some(num(2f64)));
    assert_eq!(
        run("def main() { a := [7]; return len(a); }").unwrap(),
        Some(num(7f64))
    );
}

#[test]
fn builtin_chains_as_left_operand() {
    assert_eq!(run("def main() { return sqrt(4) * 2; }").unwrap(), Some(num(4f64)));
}

#[test]
fn divide_by_zero_fails() {
    assert!(matches!(
        run("def main() { return 1 / 0; }"),
        Err(InterpreterError::DivideByZero)
    ));
    assert!(matches!(
        run("def main() { return 1 % 0.00000001; }"),
        Err(InterpreterError::DivideByZero)
    ));
}

#[test]
fn unbound_function_fails() {
    match run("def main() { return missing(); }") {
        Err(InterpreterError::UnboundFunc(name)) => assert_eq!(name, "missing"),
        other => panic!("expected an unbound-function fault, got {:?}", other),
    }
}

#[test]
fn unbound_variable_fails() {
    match run("def main() { return x; }") {
        Err(InterpreterError::UnboundVar(name)) => assert_eq!(name, "x"),
        other => panic!("expected an unbound-variable fault, got {:?}", other),
    }
}

#[test]
fn wrong_arity_fails() {
    match run("def f(a) { return a; } def main() { return f(); }") {
        Err(InterpreterError::ArgMismatch { got, expected }) => {
            assert_eq!(got, 0);
            assert_eq!(expected, 1);
        },
        other => panic!("expected an argument-count fault, got {:?}", other),
    }
}

#[test]
fn valueless_call_fails() {
    // a function that never returns, used as a value
    assert!(matches!(
        run("def f() { 1; } def main() { x := f(); return x; }"),
        Err(InterpreterError::ValuelessExpression)
    ));
}

#[test]
fn missing_entry_function_fails() {
    assert!(matches!(
        run("def other() { return 1; }"),
        Err(InterpreterError::NoMainDefined)
    ));
}

#[test]
fn out_of_range_index_fails() {
    match run("def main() { arr := [2]; return arr[5]; }") {
        Err(InterpreterError::IndexOutOfBounds { index, len }) => {
            assert_eq!(index, 5);
            assert_eq!(len, 2);
        },
        other => panic!("expected an index fault, got {:?}", other),
    }
}

#[test]
fn main_without_return_yields_none() {
    assert_eq!(run("def main() { 1; }").unwrap(), None);
}

#[test]
fn input_reads_canned_lines_last_first() {
    let program = "def main() { a := input(); b := input(); return a - b; }";
    let lines = vec![String::from("  3 \n"), String::from("10")];
    assert_eq!(run_with_input(program, lines).unwrap(), Some(num(7f64)));
}

#[test]
fn input_rejects_text_that_is_no_number() {
    let program = "def main() { return input(); }";
    assert!(matches!(
        run_with_input(program, vec![String::from("abc")]),
        Err(InterpreterError::InvalidInput)
    ));
}

#[test]
fn input_fails_when_no_line_is_left() {
    let program = "def main() { return input(); }";
    assert!(matches!(
        run_with_input(program, Vec::new()),
        Err(InterpreterError::IOError)
    ));
}

#[test]
fn read_line_consumes_the_back_of_the_queue() {
    let mut input = Input::cursored(vec![String::from("x"), String::from("y")]);
    let mut buf = String::new();
    input.read_line(&mut buf).unwrap();
    assert_eq!(buf, "y");
    input.read_line(&mut buf).unwrap();
    assert_eq!(buf, "yx");
    assert!(input.read_line(&mut buf).is_err());
}

#[test]
fn reruns_agree() {
    // determinism: running the same program twice gives identical bits
    let program = "
    def f(n) { if (n == 0) { return 0.1 + 0.2; } return 3.7 * f(n - 1); }
    def main() { return f(4); }
    ";
    let first = run(program).unwrap();
    let second = run(program).unwrap();
    assert_eq!(first, second);
    assert_eq!(
        first,
        Some(num(3.7f64 * (3.7f64 * (3.7f64 * (3.7f64 * (0.1f64 + 0.2f64))))))
    );
}

#[test]
fn parenthesized_argument_before_comma() {
    // a comma ends a just-parsed sub-expression, so wrapped and built-in
    // sub-expressions work as earlier call arguments
    let program = "
    def add(a, b) {
        return a + b;
    }

    def main() {
        return add((1), 2);
    }
    ";
    assert_eq!(run(program).unwrap(), Some(num(3f64)));
}

#[test]
fn builtin_argument_before_comma() {
    let program = "
    def add(a, b) {
        return a + b;
    }

    def main() {
        return add(sqrt(4), 2);
    }
    ";
    assert_eq!(run(program).unwrap(), Some(num(4f64)));
}
