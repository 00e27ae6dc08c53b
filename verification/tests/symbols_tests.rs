use exprlang::ast::ast::{BlockStmt, Expr, Stmt, Type};
use exprlang::lexer::Lexer;
use exprlang::parser::Parser;
use exprlang::symbols::{Symbol, SymbolError, SymbolTable, SymbolTableBuilder};
use exprlang::token::Token;

fn tree(text: &str) -> BlockStmt {
    let mut parser = Parser::new(Lexer::new());
    parser.feed_next_line(text.to_string(), false);
    parser.parse().unwrap()
}

fn check(text: &str) -> Result<(), SymbolError> {
    SymbolTableBuilder::new().check(&tree(text))
}

fn var(name: &str) -> Expr {
    Expr::Var(name.to_string())
}

fn block(statements: Vec<Stmt>) -> BlockStmt {
    BlockStmt { statements }
}

#[test]
fn the_table_starts_with_the_built_in_types() {
    let table = SymbolTable::new();
    match table.lookup("int") {
        Some(Symbol::Type(t)) => {
            assert_eq!(t.t, Token::IntType);
            assert!(!t.mutable);
        }
        other => panic!("{:?}", other),
    }
    match table.lookup("float") {
        Some(Symbol::Type(t)) => assert_eq!(t.t, Token::FloatType),
        other => panic!("{:?}", other),
    }
    match table.lookup("null") {
        Some(Symbol::Type(t)) => assert_eq!(t.t, Token::Null),
        other => panic!("{:?}", other),
    }
    assert!(table.lookup("x").is_none());
    assert!(table.lookup("").is_none());
}

#[test]
fn define_enters_a_symbol_under_its_name() {
    let mut table = SymbolTable::new();
    table.define(Symbol::Var("x".to_string(), Type::new(Token::IntType, true)));
    match table.lookup("x") {
        Some(Symbol::Var(name, t)) => {
            assert_eq!(name, "x");
            assert_eq!(t.t, Token::IntType);
            assert!(t.mutable);
        }
        other => panic!("{:?}", other),
    }
    table.define(Symbol::Type(Type::new(Token::ID("point".to_string()), false)));
    match table.lookup("point") {
        Some(Symbol::Type(t)) => assert_eq!(t.t, Token::ID("point".to_string())),
        other => panic!("{:?}", other),
    }
}

#[test]
fn define_replaces_the_entry_of_the_same_name() {
    let mut table = SymbolTable::new();
    table.define(Symbol::Var("x".to_string(), Type::new(Token::IntType, false)));
    table.define(Symbol::Var("x".to_string(), Type::new(Token::FloatType, true)));
    match table.lookup("x") {
        Some(Symbol::Var(_, t)) => {
            assert_eq!(t.t, Token::FloatType);
            assert!(t.mutable);
        }
        other => panic!("{:?}", other),
    }
    table.define(Symbol::Var("int".to_string(), Type::new(Token::FloatType, false)));
    assert!(matches!(table.lookup("int"), Some(Symbol::Var(_, _))));
}

#[test]
fn a_type_without_a_name_is_not_entered() {
    let mut table = SymbolTable::new();
    table.define(Symbol::Type(Type::new(Token::Plus, false)));
    assert!(table.lookup("+").is_none());
    assert!(table.lookup("Plus").is_none());
    assert!(table.lookup("int").is_some());
}

#[test]
fn a_declaration_of_the_right_type_checks() {
    assert_eq!(check("let x: int = 5"), Ok(()));
    assert_eq!(check("let x: float = 1.5"), Ok(()));
    assert_eq!(check("let x: mut int = 1 + 2 * 3"), Ok(()));
    assert_eq!(check("let x: float = -(1.5 / 2.0)"), Ok(()));
}

#[test]
fn a_declaration_of_another_type_is_a_mismatch() {
    assert_eq!(check("let x:int=1.5;"), Err(SymbolError::TypeMismatch));
    assert_eq!(check("let x: float = 1"), Err(SymbolError::TypeMismatch));
    assert_eq!(check("let x: null = 1"), Err(SymbolError::TypeMismatch));
    assert_eq!(check("let x: int = -1.5"), Err(SymbolError::TypeMismatch));
}

#[test]
fn a_declaration_of_an_unknown_type_is_undefined() {
    assert_eq!(check("let x: point = 1"), Err(SymbolError::Undefined));
    assert_eq!(check("let y: int = 1; let x: y = 1"), Err(SymbolError::Undefined));
}

#[test]
fn operands_must_have_one_type() {
    assert_eq!(check("return 1 + 2"), Ok(()));
    assert_eq!(check("return 1.5 * 2.5"), Ok(()));
    assert_eq!(check("return 1 + 2.5"), Err(SymbolError::TypeMismatch));
    assert_eq!(check("return 1.5 - 2"), Err(SymbolError::TypeMismatch));
    assert_eq!(check("return (1 + 2) * 2.5"), Err(SymbolError::TypeMismatch));
    assert_eq!(
        check("let x: int = 1; let y: float = 1.5; return x / y"),
        Err(SymbolError::TypeMismatch)
    );
}

#[test]
fn a_variable_has_its_declared_type() {
    assert_eq!(check("let x: int = 1; let y: int = x + 1"), Ok(()));
    assert_eq!(check("let x: mut int = 1; let y: int = x"), Ok(()));
    assert_eq!(check("let x: int = 1; let y: float = x"), Err(SymbolError::TypeMismatch));
}

#[test]
fn an_unknown_name_is_undefined() {
    assert_eq!(check("return y"), Err(SymbolError::Undefined));
    assert_eq!(check("return 1 + y"), Err(SymbolError::Undefined));
    assert_eq!(check("let x: int = x"), Err(SymbolError::Undefined));
    assert_eq!(check("let y = 1"), Err(SymbolError::Undefined));
}

#[test]
fn the_left_operand_is_checked_first() {
    assert_eq!(check("return y + (1 + 1.5)"), Err(SymbolError::Undefined));
    assert_eq!(check("return (1 + 1.5) + y"), Err(SymbolError::TypeMismatch));
}

#[test]
fn an_immutable_variable_is_not_assigned() {
    assert_eq!(check("let x: int = 5; let x = 6"), Err(SymbolError::Immutable));
    assert_eq!(check("let x: int = 5; let x = 1.5"), Err(SymbolError::Immutable));
    assert_eq!(check("let x: int = 5; let x = y"), Err(SymbolError::Immutable));
}

#[test]
fn a_mutable_variable_is_assigned_a_value_of_its_type() {
    assert_eq!(check("let x: mut int = 5; let x = 6; let x = x + 1"), Ok(()));
    assert_eq!(check("let x: mut int = 5; let x = 1.5"), Err(SymbolError::TypeMismatch));
    assert_eq!(check("let x: mut int = 5; let x = y"), Err(SymbolError::Undefined));
}

#[test]
fn a_type_name_is_no_variable_to_assign() {
    let mut builder = SymbolTableBuilder::new();
    let program = block(vec![Stmt::Assign(var("int"), Expr::NumLit(1))]);
    assert_eq!(builder.check(&program), Err(SymbolError::Undefined));
}

#[test]
fn a_type_name_in_an_expression_has_that_type() {
    let mut builder = SymbolTableBuilder::new();
    let program = block(vec![Stmt::Let(var("x"), Type::new(Token::IntType, false), var("int"))]);
    assert_eq!(builder.check(&program), Ok(()));
    let other = block(vec![Stmt::Let(var("y"), Type::new(Token::IntType, false), var("float"))]);
    assert_eq!(builder.check(&other), Err(SymbolError::TypeMismatch));
}

#[test]
fn a_redeclaration_replaces_the_type() {
    assert_eq!(check("let x: int = 1; let x: mut float = 1.5; let x = 2.5"), Ok(()));
    assert_eq!(check("let x: mut int = 1; let x: int = 2; let x = 3"), Err(SymbolError::Immutable));
}

#[test]
fn blocks_share_one_table() {
    assert_eq!(check("{ let x: int = 1 }; return x"), Ok(()));
    assert_eq!(check("{ let x: mut int = 1 }; { let x = 2 }"), Ok(()));
    assert_eq!(check("let x: int = 1; { let x: float = 1.5 }; let y: int = x"), Err(SymbolError::TypeMismatch));
}

#[test]
fn a_block_fails_at_its_first_failing_statement() {
    assert_eq!(check("return y; let x: int = 1.5"), Err(SymbolError::Undefined));
    assert_eq!(check("let x: int = 1.5; return y"), Err(SymbolError::TypeMismatch));
    assert_eq!(check("{ let a: int = 1; return b }; let x: int = 1.5"), Err(SymbolError::Undefined));
}

#[test]
fn declarations_before_a_failure_stay() {
    let mut builder = SymbolTableBuilder::new();
    assert_eq!(builder.check(&tree("let a: int = 1; let b: int = 1.5")), Err(SymbolError::TypeMismatch));
    assert_eq!(builder.check(&tree("return a")), Ok(()));
    assert_eq!(builder.check(&tree("return b")), Err(SymbolError::Undefined));
}

#[test]
fn the_table_lasts_from_check_to_check() {
    let mut builder = SymbolTableBuilder::new();
    assert_eq!(builder.check(&tree("let x: mut int = 1")), Ok(()));
    assert_eq!(builder.check(&tree("let x = 2")), Ok(()));
    assert_eq!(builder.check(&tree("let x = 2.5")), Err(SymbolError::TypeMismatch));
}

#[test]
fn the_empty_statement_has_the_type_null() {
    assert_eq!(check(""), Ok(()));
    let mut builder = SymbolTableBuilder::new();
    let program = block(vec![Stmt::Let(var("x"), Type::new(Token::Null, false), Expr::Noop)]);
    assert_eq!(builder.check(&program), Ok(()));
}

#[test]
fn a_target_that_is_no_variable_is_passed_over() {
    let mut builder = SymbolTableBuilder::new();
    let program = block(vec![
        Stmt::Let(Expr::NumLit(1), Type::new(Token::IntType, false), Expr::FloatLit("1.5".to_string())),
        Stmt::Assign(Expr::Noop, var("nowhere")),
    ]);
    assert_eq!(builder.check(&program), Ok(()));
}

#[test]
fn a_type_whose_token_names_nothing_is_undefined() {
    let mut builder = SymbolTableBuilder::new();
    let program = block(vec![Stmt::Let(var("x"), Type::new(Token::Plus, false), Expr::NumLit(1))]);
    assert_eq!(builder.check(&program), Err(SymbolError::Undefined));
}

#[test]
fn a_prefix_passes_the_type_of_its_operand_on() {
    let mut builder = SymbolTableBuilder::new();
    let negated_null = Expr::Prefix(Token::Minus, Box::new(Expr::Noop));
    let program = block(vec![Stmt::Let(var("x"), Type::new(Token::Null, false), negated_null)]);
    assert_eq!(builder.check(&program), Ok(()));
}
