use std::rc::Rc;

use exprlang::ast::ast::{BlockStmt, Expr, Stmt, Type};
use exprlang::errors::ParseError;
use exprlang::interpreter::{Interpreter, InterpreterError};
use exprlang::lexer::Lexer;
use exprlang::object::{FloatOp, FloatTerm, Object};
use exprlang::parser::Parser;
use exprlang::symbols::SymbolError;
use exprlang::token::Token;

fn fresh() -> Interpreter {
    Interpreter::new(Parser::new(Lexer::new()))
}

fn run_on(interpreter: &mut Interpreter, text: &str) -> Result<Object, InterpreterError> {
    let mut append = false;
    interpreter.feed_next_line(text.to_string(), &mut append);
    interpreter.interpret()
}

fn run(text: &str) -> Result<Object, InterpreterError> {
    run_on(&mut fresh(), text)
}

fn returned(o: Object) -> Result<Object, InterpreterError> {
    Ok(Object::Return(Box::new(o)))
}

fn lit(numeral: &str) -> Rc<FloatTerm> {
    Rc::new(FloatTerm::Lit(numeral.to_string()))
}

fn bin(l: Rc<FloatTerm>, op: FloatOp, r: Rc<FloatTerm>) -> Rc<FloatTerm> {
    Rc::new(FloatTerm::Bin(l, op, r))
}

fn negated(operand: Rc<FloatTerm>) -> Rc<FloatTerm> {
    Rc::new(FloatTerm::Neg(operand))
}

fn num(n: i64) -> Expr {
    Expr::NumLit(n)
}

fn var(name: &str) -> Expr {
    Expr::Var(name.to_string())
}

fn infix(l: Expr, op: Token, r: Expr) -> Expr {
    Expr::Infix(Box::new(l), op, Box::new(r))
}

#[test]
fn integer_division_truncates() {
    assert_eq!(run("return 6/4"), returned(Object::Int(1)));
    assert_eq!(run("return 7/2"), returned(Object::Int(3)));
    assert_eq!(run("return -7/2"), returned(Object::Int(-3)));
    assert_eq!(run("return 7/-2"), returned(Object::Int(-3)));
    assert_eq!(run("return -7/-2"), returned(Object::Int(3)));
    assert_eq!(run("return 0/5"), returned(Object::Int(0)));
    assert_eq!(run("return -1/2"), returned(Object::Int(0)));
}

#[test]
fn multiplication_is_done_before_addition() {
    assert_eq!(run("return 2+3*4"), returned(Object::Int(14)));
    assert_eq!(run("return 2*3+4"), returned(Object::Int(10)));
    assert_eq!(run("return 20-6/3"), returned(Object::Int(18)));
}

#[test]
fn parentheses_are_done_first() {
    assert_eq!(run("return (2+3)*4"), returned(Object::Int(20)));
    assert_eq!(run("return 2*(3+4)"), returned(Object::Int(14)));
    assert_eq!(run("return -(2+3)"), returned(Object::Int(-5)));
}

#[test]
fn operators_of_one_level_are_done_from_the_left() {
    assert_eq!(run("return 8-3-2"), returned(Object::Int(3)));
    assert_eq!(run("return 8/4/2"), returned(Object::Int(1)));
    assert_eq!(run("return 8/4*2"), returned(Object::Int(4)));
    assert_eq!(run("return 7/2*2"), returned(Object::Int(6)));
}

#[test]
fn a_bare_expression_does_not_parse() {
    assert_eq!(
        run("6/4;"),
        Err(InterpreterError::ParseError(ParseError::WrongToken(1, Token::EOF, Token::Number(6))))
    );
    assert_eq!(
        run("{ 1+1; 2+2; }"),
        Err(InterpreterError::ParseError(ParseError::WrongToken(
            3,
            Token::RightCurly,
            Token::Number(1)
        )))
    );
    assert_eq!(
        run("let x:int=5; x;"),
        Err(InterpreterError::ParseError(ParseError::UnexpectedToken(14, Token::ID("x".to_string()))))
    );
}

#[test]
fn division_by_zero_is_an_error() {
    assert_eq!(run("return 1/0"), Err(InterpreterError::DivisionByZero));
    assert_eq!(run("return 0/0"), Err(InterpreterError::DivisionByZero));
    assert_eq!(run("return 1/(2-2)"), Err(InterpreterError::DivisionByZero));
}

#[test]
fn a_result_that_does_not_fit_is_an_error() {
    assert_eq!(run("return 9223372036854775807 + 1"), Err(InterpreterError::Overflow));
    assert_eq!(run("return -9223372036854775807 - 2"), Err(InterpreterError::Overflow));
    assert_eq!(run("return 4611686018427387904 * 2"), Err(InterpreterError::Overflow));
    assert_eq!(run("return (-9223372036854775807 - 1) / -1"), Err(InterpreterError::Overflow));
    assert_eq!(run("return -(-9223372036854775807 - 1)"), Err(InterpreterError::Overflow));
}

#[test]
fn the_extremes_are_reached() {
    assert_eq!(run("return 9223372036854775806 + 1"), returned(Object::Int(i64::MAX)));
    assert_eq!(run("return -9223372036854775807 - 1"), returned(Object::Int(i64::MIN)));
    assert_eq!(run("return (-9223372036854775807 - 1) / 1"), returned(Object::Int(i64::MIN)));
    assert_eq!(run("return -9223372036854775807"), returned(Object::Int(-i64::MAX)));
}

#[test]
fn a_declared_variable_reads_as_declared() {
    assert_eq!(run("let x:int=5; return x"), returned(Object::Int(5)));
    assert_eq!(run("let x:int=5; let y:int=7; return x"), returned(Object::Int(5)));
    assert_eq!(run("let x:int=2+3; { let y: int = x * 2 }; return x"), returned(Object::Int(5)));
}

#[test]
fn a_declaration_yields_null() {
    assert_eq!(run("let x:int=5"), Ok(Object::Null));
    assert_eq!(run("let x: mut int=5; let x = 6"), Ok(Object::Null));
}

#[test]
fn the_empty_text_yields_null() {
    assert_eq!(run(""), Ok(Object::Null));
    assert_eq!(run(";;"), Ok(Object::Null));
    assert_eq!(run("let x: int = 1;"), Ok(Object::Null));
    assert_eq!(run("{}"), Ok(Object::Null));
}

#[test]
fn an_assignment_to_an_immutable_variable_is_rejected_and_nothing_runs() {
    let mut interpreter = fresh();
    assert_eq!(
        run_on(&mut interpreter, "let x:int=5; let x=6"),
        Err(InterpreterError::SymbolError(SymbolError::Immutable))
    );
    assert_eq!(interpreter.visit_expr(&var("x")), Err(InterpreterError::UndefinedVariable));
}

#[test]
fn a_mismatched_declaration_is_rejected_and_nothing_runs() {
    assert_eq!(run("let x:int=1.5;"), Err(InterpreterError::SymbolError(SymbolError::TypeMismatch)));
    let mut interpreter = fresh();
    assert_eq!(
        run_on(&mut interpreter, "let a: int = 1; let x:int=1.5;"),
        Err(InterpreterError::SymbolError(SymbolError::TypeMismatch))
    );
    assert_eq!(interpreter.visit_expr(&var("a")), Err(InterpreterError::UndefinedVariable));
    assert_eq!(interpreter.visit_expr(&var("x")), Err(InterpreterError::UndefinedVariable));
}

#[test]
fn an_assignment_is_read_back() {
    assert_eq!(run("let x: mut int = 5; let x = x + 1; return x"), returned(Object::Int(6)));
    assert_eq!(run("let x: mut int = 5; let x = 6; let x = 7; return x * 2"), returned(Object::Int(14)));
}

#[test]
fn the_later_declaration_is_read() {
    assert_eq!(run("let x: int = 1; let x: int = 2; return x"), returned(Object::Int(2)));
    assert_eq!(
        run("let x: int = 1; let x: float = 2.5; return x"),
        returned(Object::Float(lit("2.5")))
    );
}

#[test]
fn the_environment_lasts_from_run_to_run() {
    let mut interpreter = fresh();
    assert_eq!(run_on(&mut interpreter, "let x: mut int = 5"), Ok(Object::Null));
    assert_eq!(run_on(&mut interpreter, "return x"), returned(Object::Int(5)));
    assert_eq!(run_on(&mut interpreter, "let x = x * 3"), Ok(Object::Null));
    assert_eq!(run_on(&mut interpreter, "return x"), returned(Object::Int(15)));
    assert_eq!(run_on(&mut interpreter, "let x: int = 1"), Ok(Object::Null));
    assert_eq!(run_on(&mut interpreter, "return x"), returned(Object::Int(1)));
}

#[test]
fn two_fresh_runs_of_one_text_agree() {
    let text = "let a: mut int = 3; { let a = a * a; return a - 1 }; let b: float = 1.5 / 2.0; return a";
    let first = run(text);
    let second = run(text);
    assert_eq!(first, second);
    assert_eq!(first, returned(Object::Int(9)));
}

#[test]
fn return_ends_its_block() {
    assert_eq!(run("return 1; return 2"), returned(Object::Int(1)));
    assert_eq!(run("return 1; let x: int = 1/0"), returned(Object::Int(1)));
    let mut interpreter = fresh();
    assert_eq!(
        run_on(&mut interpreter, "let x: mut int = 1; return x; let x = 2"),
        returned(Object::Int(1))
    );
    assert_eq!(interpreter.visit_expr(&var("x")), Ok(Object::Int(1)));
}

#[test]
fn return_in_a_nested_block_ends_that_block_only() {
    let mut interpreter = fresh();
    assert_eq!(
        run_on(&mut interpreter, "let x: mut int = 1; { return 5; let x = 2 }; let x = 3"),
        Ok(Object::Null)
    );
    assert_eq!(interpreter.visit_expr(&var("x")), Ok(Object::Int(3)));
    assert_eq!(run("{ return 1 }; return 2"), returned(Object::Int(2)));
}

#[test]
fn a_nested_block_yields_its_value_without_the_mark() {
    assert_eq!(run("{ return 7 }"), Ok(Object::Int(7)));
    assert_eq!(run("{ { return 7 } }"), Ok(Object::Int(7)));
    assert_eq!(run("{ let x: int = 1 }"), Ok(Object::Null));
}

#[test]
fn a_block_has_the_value_of_its_last_statement() {
    assert_eq!(run("let x: int = 1; { let y: int = 2; return y + 2 }"), Ok(Object::Int(4)));
    assert_eq!(run("{ return 1 }; let y: int = 2"), Ok(Object::Null));
    assert_eq!(run("let y: int = 2; "), Ok(Object::Null));
}

#[test]
fn blocks_share_one_environment() {
    assert_eq!(run("{ let a: int = 1 }; return a"), returned(Object::Int(1)));
    assert_eq!(
        run("let a: mut int = 1; { let a = 2 }; return a"),
        returned(Object::Int(2))
    );
}

#[test]
fn float_arithmetic_is_recorded_not_computed() {
    assert_eq!(run("return 1.5"), returned(Object::Float(lit("1.5"))));
    assert_eq!(
        run("return 1.5+2.25"),
        returned(Object::Float(bin(lit("1.5"), FloatOp::Add, lit("2.25"))))
    );
    assert_eq!(
        run("return 1.5-2.0*3.0"),
        returned(Object::Float(bin(
            lit("1.5"),
            FloatOp::Sub,
            bin(lit("2.0"), FloatOp::Mul, lit("3.0"))
        )))
    );
    assert_eq!(
        run("return 1.0/0.0"),
        returned(Object::Float(bin(lit("1.0"), FloatOp::Div, lit("0.0"))))
    );
    assert_eq!(
        run("return -1.5"),
        returned(Object::Float(negated(lit("1.5"))))
    );
}

#[test]
fn float_variables_carry_their_computation() {
    assert_eq!(
        run("let x: mut float = 1.5; let x = x * x; return x + 1."),
        returned(Object::Float(bin(
            bin(lit("1.5"), FloatOp::Mul, lit("1.5")),
            FloatOp::Add,
            lit("1.")
        )))
    );
}

#[test]
fn float_operands_are_shared_not_copied() {
    let mut interpreter = fresh();
    assert_eq!(run_on(&mut interpreter, "let x: mut float = 1.5; let x = x * x"), Ok(Object::Null));
    match interpreter.visit_expr(&var("x")) {
        Ok(Object::Float(product)) => match &*product {
            FloatTerm::Bin(l, FloatOp::Mul, r) => assert!(Rc::ptr_eq(l, r)),
            other => panic!("{:?}", other),
        },
        other => panic!("{:?}", other),
    }
}

#[test]
fn a_float_squared_many_times_stays_small() {
    let mut interpreter = fresh();
    assert_eq!(run_on(&mut interpreter, "let x: mut float = 1.5"), Ok(Object::Null));
    for _ in 0..200 {
        assert_eq!(run_on(&mut interpreter, "let x = x * x"), Ok(Object::Null));
    }
    let mut depth = 0;
    let mut at = match interpreter.visit_expr(&var("x")) {
        Ok(Object::Float(term)) => term,
        other => panic!("{:?}", other),
    };
    loop {
        let next = match &*at {
            FloatTerm::Bin(l, FloatOp::Mul, r) => {
                assert!(Rc::ptr_eq(l, r));
                Rc::clone(l)
            }
            FloatTerm::Lit(numeral) => {
                assert_eq!(numeral, "1.5");
                break;
            }
            other => panic!("{:?}", other),
        };
        depth += 1;
        at = next;
    }
    assert_eq!(depth, 200);
}

#[test]
fn mixed_operands_do_not_check() {
    assert_eq!(run("return 1 + 1.5"), Err(InterpreterError::SymbolError(SymbolError::TypeMismatch)));
}

#[test]
fn mixed_operands_do_not_evaluate() {
    let interpreter = fresh();
    let mixed = infix(num(1), Token::Plus, Expr::FloatLit("1.5".to_string()));
    assert_eq!(interpreter.visit_expr(&mixed), Err(InterpreterError::OperandMismatch));
    let with_null = infix(Expr::Noop, Token::Plus, num(1));
    assert_eq!(interpreter.visit_expr(&with_null), Err(InterpreterError::OperandMismatch));
    let negated_null = Expr::Prefix(Token::Minus, Box::new(Expr::Noop));
    assert_eq!(interpreter.visit_expr(&negated_null), Err(InterpreterError::OperandMismatch));
}

#[test]
fn a_token_that_is_no_operator_does_not_evaluate() {
    let interpreter = fresh();
    assert_eq!(
        interpreter.visit_expr(&infix(num(1), Token::Equal, num(2))),
        Err(InterpreterError::UnknownOperator)
    );
    assert_eq!(
        interpreter.visit_expr(&infix(
            Expr::FloatLit("1.".to_string()),
            Token::Semicolon,
            Expr::FloatLit("2.".to_string())
        )),
        Err(InterpreterError::UnknownOperator)
    );
    assert_eq!(
        interpreter.visit_expr(&Expr::Prefix(Token::Plus, Box::new(num(1)))),
        Err(InterpreterError::UnknownOperator)
    );
    assert_eq!(
        interpreter.visit_expr(&infix(num(1), Token::Equal, Expr::FloatLit("2.".to_string()))),
        Err(InterpreterError::OperandMismatch)
    );
}

#[test]
fn visit_expr_evaluates_literals_and_operations() {
    let interpreter = fresh();
    assert_eq!(interpreter.visit_expr(&num(3)), Ok(Object::Int(3)));
    assert_eq!(interpreter.visit_expr(&Expr::Noop), Ok(Object::Null));
    assert_eq!(
        interpreter.visit_expr(&Expr::FloatLit("0.5".to_string())),
        Ok(Object::Float(lit("0.5")))
    );
    assert_eq!(
        interpreter.visit_expr(&infix(num(7), Token::Minus, infix(num(2), Token::Multiply, num(5)))),
        Ok(Object::Int(-3))
    );
    assert_eq!(interpreter.visit_expr(&var("x")), Err(InterpreterError::UndefinedVariable));
}

#[test]
fn the_left_operand_is_evaluated_first() {
    let interpreter = fresh();
    let left_fails = infix(infix(num(1), Token::Divide, num(0)), Token::Plus, var("x"));
    assert_eq!(interpreter.visit_expr(&left_fails), Err(InterpreterError::DivisionByZero));
    let right_fails = infix(var("x"), Token::Plus, infix(num(1), Token::Divide, num(0)));
    assert_eq!(interpreter.visit_expr(&right_fails), Err(InterpreterError::UndefinedVariable));
}

#[test]
fn what_was_stored_before_a_runtime_error_stays() {
    let mut interpreter = fresh();
    assert_eq!(
        run_on(&mut interpreter, "let a: int = 1; let b: int = 1/0; let c: int = 3"),
        Err(InterpreterError::DivisionByZero)
    );
    assert_eq!(interpreter.visit_expr(&var("a")), Ok(Object::Int(1)));
    assert_eq!(interpreter.visit_expr(&var("b")), Err(InterpreterError::UndefinedVariable));
    assert_eq!(interpreter.visit_expr(&var("c")), Err(InterpreterError::UndefinedVariable));
}

#[test]
fn text_that_does_not_parse_changes_nothing() {
    let mut interpreter = fresh();
    assert_eq!(run_on(&mut interpreter, "let x: int = 1"), Ok(Object::Null));
    assert_eq!(
        run_on(&mut interpreter, "let x: int = 2; return 1 2"),
        Err(InterpreterError::ParseError(ParseError::WrongToken(26, Token::EOF, Token::Number(2))))
    );
    assert_eq!(interpreter.visit_expr(&var("x")), Ok(Object::Int(1)));
}

#[test]
fn lexical_failures_come_through_the_parser() {
    assert_eq!(
        run("return 1+@"),
        Err(InterpreterError::ParseError(ParseError::UnknownToken(9, '@')))
    );
    assert_eq!(run("@"), Err(InterpreterError::ParseError(ParseError::UnknownToken(0, '@'))));
    assert_eq!(
        run("return 99999999999999999999"),
        Err(InterpreterError::ParseError(ParseError::InternalError))
    );
}

#[test]
fn a_run_on_unfinished_text_waits_for_input() {
    assert_eq!(run("let x: int ="), Err(InterpreterError::ParseError(ParseError::WaitForInput)));
    assert_eq!(run("{ return 1"), Err(InterpreterError::ParseError(ParseError::WaitForInput)));
}

#[test]
fn feeding_resets_the_append_flag() {
    let mut interpreter = fresh();
    let mut append = true;
    interpreter.feed_next_line("return 1".to_string(), &mut append);
    assert!(!append);
    assert_eq!(interpreter.interpret(), returned(Object::Int(1)));
    interpreter.feed_next_line("return 2".to_string(), &mut append);
    assert!(!append);
    assert_eq!(interpreter.interpret(), returned(Object::Int(2)));
}

#[test]
fn appended_text_continues_behind_the_old() {
    let mut interpreter = fresh();
    let mut append = false;
    interpreter.feed_next_line("return 1".to_string(), &mut append);
    assert_eq!(interpreter.interpret(), returned(Object::Int(1)));
    append = true;
    interpreter.feed_next_line("; return 2".to_string(), &mut append);
    assert_eq!(interpreter.interpret(), returned(Object::Int(2)));
}

#[test]
fn an_undeclared_variable_is_caught_by_the_check() {
    assert_eq!(run("return x"), Err(InterpreterError::SymbolError(SymbolError::Undefined)));
}

#[test]
fn a_rejected_declaration_leaves_a_name_without_a_value() {
    let mut interpreter = fresh();
    assert_eq!(
        run_on(&mut interpreter, "let a: int = 1; let b: int = 1.5"),
        Err(InterpreterError::SymbolError(SymbolError::TypeMismatch))
    );
    // `a` was entered in the table before the check failed, but nothing was evaluated.
    assert_eq!(run_on(&mut interpreter, "return a"), Err(InterpreterError::UndefinedVariable));
}

#[test]
fn cloned_objects_are_equal() {
    let objects = vec![
        Object::Int(3),
        Object::Float(bin(lit("1.5"), FloatOp::Div, negated(lit("2.")))),
        Object::Str("text".to_string()),
        Object::Return(Box::new(Object::Int(1))),
        Object::Null,
    ];
    for o in &objects {
        assert_eq!(&o.clone(), o);
    }
    let t = Type::new(Token::IntType, true);
    assert!(t.clone().mutable);
}

fn tree(text: &str) -> BlockStmt {
    let mut parser = Parser::new(Lexer::new());
    parser.feed_next_line(text.to_string(), false);
    parser.parse().unwrap()
}

#[test]
fn one_tree_run_twice_from_fresh_interpreters_yields_equal_objects() {
    let program = tree("let a: mut int = 6; let a = a / 4; { return a * 10 }; return a + 1.5");
    let first = fresh().visit_block_stmt(&program);
    let second = fresh().visit_block_stmt(&program);
    assert_eq!(first, second);
    assert_eq!(first, Err(InterpreterError::OperandMismatch));
    let sound = tree("let a: mut int = 6; let a = a / 4; { return a * 10 }; return a + 1");
    let third = fresh().visit_block_stmt(&sound);
    let fourth = fresh().visit_block_stmt(&sound);
    assert_eq!(third, fourth);
    assert_eq!(third, returned(Object::Int(2)));
}

#[test]
fn a_tree_run_again_sees_what_was_stored_before() {
    let program = tree("let n: mut int = 1");
    let step = tree("let n = n * 2; return n");
    let mut interpreter = fresh();
    assert_eq!(interpreter.visit_block_stmt(&program), Ok(Object::Null));
    assert_eq!(interpreter.visit_block_stmt(&step), returned(Object::Int(2)));
    assert_eq!(interpreter.visit_block_stmt(&step), returned(Object::Int(4)));
    assert_eq!(interpreter.visit_block_stmt(&program), Ok(Object::Null));
    assert_eq!(interpreter.visit_block_stmt(&step), returned(Object::Int(2)));
}

#[test]
fn a_target_that_is_no_variable_is_an_error() {
    let mut interpreter = fresh();
    let declaration = Stmt::Let(num(1), Type::new(Token::IntType, false), num(2));
    assert_eq!(interpreter.visit_stmt(&declaration), Err(InterpreterError::InvalidTarget));
    let assignment = Stmt::Assign(Expr::Noop, infix(num(1), Token::Divide, num(0)));
    assert_eq!(interpreter.visit_stmt(&assignment), Err(InterpreterError::InvalidTarget));
}

#[test]
fn visit_stmt_runs_each_kind_of_statement() {
    let mut interpreter = fresh();
    assert_eq!(interpreter.visit_stmt(&Stmt::Expr(num(3))), Ok(Object::Int(3)));
    assert_eq!(interpreter.visit_stmt(&Stmt::Return(num(3))), returned(Object::Int(3)));
    let declaration = Stmt::Let(var("x"), Type::new(Token::IntType, false), num(4));
    assert_eq!(interpreter.visit_stmt(&declaration), Ok(Object::Null));
    assert_eq!(interpreter.visit_stmt(&Stmt::Expr(var("x"))), Ok(Object::Int(4)));
    // Mutability is the checker's matter: the evaluator stores what it is told to.
    let assignment = Stmt::Assign(var("x"), Expr::FloatLit("0.5".to_string()));
    assert_eq!(interpreter.visit_stmt(&assignment), Ok(Object::Null));
    assert_eq!(interpreter.visit_stmt(&Stmt::Expr(var("x"))), Ok(Object::Float(lit("0.5"))));
    let block = Stmt::Block(BlockStmt {
        statements: vec![Stmt::Expr(num(1)), Stmt::Return(num(2)), Stmt::Expr(num(3))],
    });
    assert_eq!(interpreter.visit_stmt(&block), Ok(Object::Int(2)));
    let plain = BlockStmt { statements: vec![Stmt::Expr(num(1)), Stmt::Expr(num(2))] };
    assert_eq!(interpreter.visit_block_stmt(&plain), Ok(Object::Int(2)));
    assert_eq!(interpreter.visit_block_stmt(&BlockStmt::new()), Ok(Object::Null));
}

#[test]
fn a_block_of_bare_expressions_has_the_value_of_the_last() {
    // What `{ 1+1; 2+2; }` would be, built as a tree.
    let block = BlockStmt {
        statements: vec![
            Stmt::Expr(infix(num(1), Token::Plus, num(1))),
            Stmt::Expr(infix(num(2), Token::Plus, num(2))),
        ],
    };
    assert_eq!(fresh().visit_block_stmt(&block), Ok(Object::Int(4)));
    let read = BlockStmt {
        statements: vec![
            Stmt::Let(var("x"), Type::new(Token::IntType, false), num(5)),
            Stmt::Expr(var("x")),
        ],
    };
    assert_eq!(fresh().visit_block_stmt(&read), Ok(Object::Int(5)));
    let quotient = BlockStmt { statements: vec![Stmt::Expr(infix(num(6), Token::Divide, num(4)))] };
    assert_eq!(fresh().visit_block_stmt(&quotient), Ok(Object::Int(1)));
}
