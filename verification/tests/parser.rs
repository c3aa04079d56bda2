use goryl::ast::expressions::{Binary, Expr, Literal as LiteralExpr, Unary};
use goryl::ast::parser::Parser;
use goryl::ast::statements::Stmt;
use goryl::errors::Error;
use goryl::number::Numeral;
use goryl::syntax::scanner::Scanner;
use goryl::syntax::token::{Literal, Token, TokenType};

fn parse_source(source: &str) -> (Vec<Stmt>, Parser) {
    let mut scanner = Scanner::new(source.to_string());
    scanner.scan_tokens();
    assert!(scanner.errors.is_empty());
    let mut parser = Parser::new(scanner.tokens);
    let statements = parser.parse();
    (statements, parser)
}

fn sexp(expr: &Expr) -> String {
    match expr {
        Expr::Binary(b) => format!(
            "({} {} {})",
            b.operator.lexeme,
            sexp(&b.left),
            sexp(&b.right)
        ),
        Expr::Grouping(g) => format!("(group {})", sexp(&g.expression)),
        Expr::Literal(l) => match &l.value {
            Literal::String(s) => format!("{:?}", s),
            Literal::Number(n) => n.text().to_string(),
            Literal::Bool(b) => format!("{}", b),
            Literal::Null => "null".to_string(),
        },
        Expr::Unary(u) => format!("({} {})", u.operator.lexeme, sexp(&u.right)),
        Expr::Variable(v) => v.name.lexeme.clone(),
    }
}

fn stmt_text(stmt: &Stmt) -> String {
    match stmt {
        Stmt::Expression(s) => format!("expr {}", sexp(&s.expression)),
        Stmt::Print(s) => format!("print {}", sexp(&s.expression)),
        Stmt::Let(s) => format!("let {} = {}", s.name.lexeme, sexp(&s.initialiser)),
        Stmt::Import(s) => format!("import {}", s.file_name),
    }
}

fn program_text(source: &str) -> Vec<String> {
    let (statements, _) = parse_source(source);
    statements.iter().map(stmt_text).collect()
}

fn error_lines(source: &str) -> Vec<String> {
    let (_, parser) = parse_source(source);
    parser.errors.iter().map(|e| e.report()).collect()
}

fn show_numeral(numeral: Numeral) -> String {
    format!("{:?}", numeral.text().parse::<f64>().unwrap())
}

#[test]
fn test_pretty_printer() {
    let ten = Expr::Literal(LiteralExpr {
        value: Literal::Number(Numeral::new("10.0").unwrap()),
    });

    let minus_five = Expr::Unary(Unary {
        operator: Token {
            token_type: TokenType::Minus,
            lexeme: "-".to_string(),
            literal: Literal::Null,
            line: 1,
        },
        right: Box::new(Expr::Literal(LiteralExpr {
            value: Literal::Number(Numeral::new("5.0").unwrap()),
        })),
    });

    let binary_op = Expr::Binary(Binary {
        left: Box::new(ten),
        operator: Token::new(TokenType::Plus, "+".to_string(), Literal::Null, 1),
        right: Box::new(minus_five),
    });

    let ast = binary_op.parenthesize(&show_numeral);
    println!("{:?}", ast);
    assert_eq!(
        ast,
        "\"+\" (\"Number(10.0)\" \"\\\"-\\\" (\\\"Number(5.0)\\\")\")"
    );
    assert_eq!(binary_op.ast_printer(&show_numeral), format!("{:?}", ast));
}

#[test]
fn pretty_printer_writes_every_kind_of_literal() {
    let (statements, _) = parse_source("(\"a\\b\" == true) != (null < x) == 2;");
    let text = match &statements[0] {
        Stmt::Expression(s) => s.expression.parenthesize(&show_numeral),
        other => panic!("not an expression statement: {:?}", other),
    };
    let string = "String(\"a\\\\b\")";
    let left = format!("({:?})", format!("{:?} ({:?} {:?})", "==", string, "Bool(true)"));
    let right = format!("({:?})", format!("{:?} ({:?} {:?})", "<", "None", "\"x\""));
    let inner = format!("{:?} ({:?} {:?})", "!=", left, right);
    let whole = format!("{:?} ({:?} {:?})", "==", inner, "Number(2.0)");
    assert_eq!(text, whole);
}

#[test]
fn binary_levels_bind_as_the_grammar_says() {
    assert_eq!(
        program_text("1 + 2 * 3 == 7 < 8 - 1;"),
        vec!["expr (== (+ 1 (* 2 3)) (< 7 (- 8 1)))"]
    );
}

#[test]
fn binary_levels_associate_to_the_left() {
    assert_eq!(
        program_text("1 - 2 - 3; 8 / 4 / 2; 1 < 2 < 3; 1 == 2 != 3;"),
        vec![
            "expr (- (- 1 2) 3)",
            "expr (/ (/ 8 4) 2)",
            "expr (< (< 1 2) 3)",
            "expr (!= (== 1 2) 3)",
        ]
    );
}

#[test]
fn unary_operators_nest_to_the_right() {
    assert_eq!(
        program_text("!-!x; -1 - -2;"),
        vec!["expr (! (- (! x)))", "expr (- (- 1) (- 2))"]
    );
}

#[test]
fn grouping_overrides_the_levels() {
    assert_eq!(
        program_text("(1 + 2) * ((3));"),
        vec!["expr (* (group (+ 1 2)) (group (group 3)))"]
    );
}

#[test]
fn literals_and_variables_are_primaries() {
    assert_eq!(
        program_text("true; false; null; 1.5; \"s\"; name;"),
        vec![
            "expr true",
            "expr false",
            "expr null",
            "expr 1.5",
            "expr \"s\"",
            "expr name",
        ]
    );
}

#[test]
fn statements_of_every_kind() {
    assert_eq!(
        program_text("let a = 1; let b; print a + b; import \"m.src\"; a;"),
        vec![
            "let a = 1",
            "let b = null",
            "print (+ a b)",
            "import \"m.src\"",
            "expr a",
        ]
    );
    assert!(error_lines("let a = 1; let b; print a + b; import \"m.src\"; a;").is_empty());
}

#[test]
fn empty_program_has_no_statements() {
    assert!(program_text("").is_empty());
    assert!(program_text("  // nothing\n").is_empty());
}

#[test]
fn missing_semicolon_after_expression() {
    assert_eq!(program_text("1 + 2"), vec!["expr (+ 1 2)"]);
    assert_eq!(
        error_lines("1 + 2"),
        vec!["Parse Error on line 1: Expected ; after expression"]
    );
}

#[test]
fn missing_semicolon_after_print() {
    assert_eq!(program_text("print 1\n"), vec!["print 1"]);
    assert_eq!(
        error_lines("print 1\n"),
        vec!["Parse Error on line 2: Expected ; after value."]
    );
}

#[test]
fn missing_operand_becomes_the_absent_literal() {
    assert_eq!(program_text("1 + ;"), vec!["expr (+ 1 null)"]);
    assert_eq!(
        error_lines("1 + ;"),
        vec!["Parse Error on line 1: Unexpected token"]
    );
    let (_, parser) = parse_source("1 + ;");
    assert_eq!(parser.errors[0].token.token_type, TokenType::Semicolon);
    assert_eq!(parser.errors[0].msg, "Unexpected token");
}

#[test]
fn unmatched_parenthesis() {
    assert_eq!(program_text("(1 + 2;"), vec!["expr (group (+ 1 2))"]);
    assert_eq!(
        error_lines("(1 + 2;"),
        vec!["Parse Error on line 1: Expected \")\" after expression."]
    );
}

#[test]
fn declaration_without_a_name_gets_a_placeholder() {
    let (statements, parser) = parse_source("let = 5; print 1;");
    match &statements[0] {
        Stmt::Let(declaration) => {
            assert_eq!(declaration.name.token_type, TokenType::Eof);
            assert_eq!(declaration.name.lexeme, "");
            assert_eq!(declaration.name.line, 0);
            assert_eq!(sexp(&declaration.initialiser), "5");
        }
        other => panic!("not a declaration: {:?}", other),
    }
    let lines: Vec<String> = parser.errors.iter().map(|e| e.report()).collect();
    assert_eq!(lines, vec!["Parse Error on line 1: Expected an identifier"]);
    assert_eq!(parser.errors[0].token.token_type, TokenType::Equal);
    // the declaration consumed its semicolon, so recovery skips the `print`
    // that follows and stops behind the next semicolon
    let texts: Vec<String> = statements.iter().map(stmt_text).collect();
    assert_eq!(texts, vec!["let  = 5"]);
}

#[test]
fn failed_declaration_skips_to_the_next_statement_keyword() {
    // the declaration fails at `2`; recovery skips it and stops at `print`
    assert_eq!(
        program_text("let x = 1 2 3 print 4; print 5;"),
        vec!["let x = 1", "print 4", "print 5"]
    );
    assert_eq!(
        error_lines("let x = 1 2 3 print 4; print 5;"),
        vec!["Parse Error on line 1: Expected ; after variable declaration"]
    );
}

#[test]
fn failed_declaration_skips_behind_the_next_semicolon() {
    assert_eq!(
        program_text("let x = 1 2 + 3; 4;"),
        vec!["let x = 1", "expr 4"]
    );
}

#[test]
fn failed_declaration_skips_the_token_it_failed_at() {
    // recovery always steps over the token at which the declaration failed,
    // even where that token starts a statement
    assert_eq!(
        program_text("let x = 1 print 2; print 3;"),
        vec!["let x = 1", "print 3"]
    );
}

#[test]
fn failed_declaration_at_the_end_of_input() {
    assert_eq!(program_text("let x = 1"), vec!["let x = 1"]);
    assert_eq!(
        error_lines("let x = 1"),
        vec!["Parse Error on line 1: Expected ; after variable declaration"]
    );
}

#[test]
fn one_malformed_declaration_does_not_hide_the_next_error() {
    assert_eq!(
        error_lines("let = 1;\nlet y = 2;\nprint (3;"),
        vec![
            "Parse Error on line 1: Expected an identifier",
            "Parse Error on line 3: Expected \")\" after expression.",
        ]
    );
}

#[test]
fn import_without_a_file_name_prints_the_absent_value() {
    assert_eq!(program_text("import x;"), vec!["print null", "expr x"]);
    assert_eq!(
        error_lines("import x;"),
        vec![
            "Parse Error on line 1: Expected file name",
            "Parse Error on line 1: Expected ; after file name in import statement",
        ]
    );
}

#[test]
fn import_without_semicolon() {
    assert_eq!(program_text("import \"a\""), vec!["import \"a\""]);
    assert_eq!(
        error_lines("import \"a\""),
        vec!["Parse Error on line 1: Expected ; after file name in import statement"]
    );
}

#[test]
fn stray_token_is_stepped_over() {
    // a statement that consumes nothing is followed by a step over one token
    assert_eq!(program_text(") 1;"), vec!["expr null", "expr 1"]);
    assert_eq!(
        error_lines(") 1;"),
        vec![
            "Parse Error on line 1: Unexpected token",
            "Parse Error on line 1: Expected ; after expression",
        ]
    );
}

#[test]
fn parser_reaches_the_end_of_any_input() {
    let sources = [
        ")))",
        "((((",
        "let let let",
        "= = =",
        "print print",
        "import import",
        "1 2 3",
        "} { , .",
        "and or if else",
        "let x = ;",
        "!",
        "-",
        "1 +",
    ];
    for source in sources {
        let (statements, parser) = parse_source(source);
        assert!(!statements.is_empty(), "no statement for {:?}", source);
        assert!(!parser.errors.is_empty(), "no error for {:?}", source);
    }
}

#[test]
fn reserved_words_without_a_rule_are_unexpected() {
    assert_eq!(program_text("while;"), vec!["expr null", "expr null"]);
    assert_eq!(
        error_lines("if"),
        vec![
            "Parse Error on line 1: Unexpected token",
            "Parse Error on line 1: Expected ; after expression",
        ]
    );
}

#[test]
fn parse_error_names_the_line_of_its_token() {
    let (_, parser) = parse_source("1;\n2;\n\n(3 4");
    assert_eq!(parser.errors.len(), 3);
    assert_eq!(parser.errors[0].token.line, 4);
    assert_eq!(parser.errors[0].token.lexeme, "4");
    assert_eq!(
        parser.errors[0].report(),
        "Parse Error on line 4: Expected \")\" after expression."
    );
}

#[test]
fn only_an_end_of_input_token() {
    let eof = Token::new(TokenType::Eof, "".to_string(), Literal::Null, 1);
    let mut parser = Parser::new(vec![eof]);
    assert!(parser.parse().is_empty());
    assert!(parser.errors.is_empty());
}

#[test]
fn numeral_accepts_digits_with_one_fraction() {
    for text in ["0", "10", "3.25", "007", "1.0"] {
        let numeral = Numeral::new(text).expect("a numeral");
        assert_eq!(numeral.text(), text);
        assert_eq!(numeral.clone().text(), text);
    }
    for text in ["", ".", "1.", ".5", "1.5.2", "-1", "1e5", "a", "1 ", " 1", "١"] {
        assert!(Numeral::new(text).is_none(), "accepted {:?}", text);
    }
}

#[test]
fn import_holds_the_name_as_written_and_its_line() {
    let (statements, parser) = parse_source("1;\nimport\n\"dir/m.src\";");
    assert!(parser.errors.is_empty());
    match &statements[1] {
        Stmt::Import(import) => {
            assert_eq!(import.file_name, "\"dir/m.src\"");
            assert_eq!(import.line, 3);
        }
        other => panic!("not an import: {:?}", other),
    }
    assert!(parser.into_errors().is_empty());
}
