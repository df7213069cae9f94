use grove::ast::{BinOp, Expr, Program, Stmt, UnaryOp};
use grove::error::{ErrorKind, GroveResult};
use grove::lexer::Lexer;
use grove::parser::Parser;

fn number(text: &str) -> Option<u64> {
    text.parse::<f64>().ok().map(f64::to_bits)
}

fn parse_str(src: &str) -> GroveResult<Program> {
    let mut lex = Lexer::new(src);
    let tokens = lex.tokenize(&number)?;
    let mut parser = Parser::new(tokens);
    parser.parse()
}

/// The expression in Lisp-like form, so that shapes can be compared.
fn show(e: &Expr) -> String {
    match e {
        Expr::NumberLit { value, .. } => format!("{}", f64::from_bits(*value)),
        Expr::StringLit { value, .. } => format!("{:?}", value),
        Expr::BoolLit { value, .. } => format!("{}", value),
        Expr::NilLit { .. } => "nil".to_string(),
        Expr::Ident { name, .. } => name.clone(),
        Expr::BinaryOp { left, op, right, .. } => format!("({:?} {} {})", op, show(left), show(right)),
        Expr::UnaryOp { op, operand, .. } => format!("({:?} {})", op, show(operand)),
        Expr::Call { callee, args, .. } => {
            format!("(call {}{})", show(callee), args.iter().map(|a| format!(" {}", show(a))).collect::<String>())
        }
        Expr::FieldAccess { object, field, .. } => format!("(. {} {})", show(object), field),
        Expr::IndexAccess { object, index, .. } => format!("(at {} {})", show(object), show(index)),
        Expr::MethodCall { object, method, args, .. } => {
            format!("(: {} {}{})", show(object), method, args.iter().map(|a| format!(" {}", show(a))).collect::<String>())
        }
        Expr::ArrayLit { elements, .. } => {
            format!("[{}]", elements.iter().map(show).collect::<Vec<_>>().join(" "))
        }
        Expr::TableLit { fields, .. } => {
            format!("{{{}}}", fields.iter().map(|(k, v)| format!("{}={}", k, show(v))).collect::<Vec<_>>().join(" "))
        }
    }
}

fn shape(src: &str) -> String {
    let prog = parse_str(&format!("local it = {}", src)).unwrap();
    match &prog.statements[0] {
        Stmt::LocalDecl { init: Some(e), .. } => show(e),
        _ => panic!("expected a declaration"),
    }
}

#[test]
fn test_local_decl() {
    let prog = parse_str("local x = 42").unwrap();
    assert_eq!(prog.statements.len(), 1);
    assert!(matches!(&prog.statements[0], Stmt::LocalDecl { name, .. } if name == "x"));
}

#[test]
fn test_binary_expr() {
    let prog = parse_str("local y = x * 2 + 5").unwrap();
    assert_eq!(prog.statements.len(), 1);
    if let Stmt::LocalDecl { init: Some(expr), .. } = &prog.statements[0] {
        // Should be Add(Mul(x, 2), 5) due to precedence
        assert!(matches!(expr, Expr::BinaryOp { op: BinOp::Add, .. }));
    } else {
        panic!("expected local decl with init");
    }
}

#[test]
fn test_function_call() {
    let prog = parse_str("log(42)").unwrap();
    assert_eq!(prog.statements.len(), 1);
    if let Stmt::ExprStmt { expr, .. } = &prog.statements[0] {
        assert!(matches!(expr, Expr::Call { .. }));
    } else {
        panic!("expected expr stmt");
    }
}

#[test]
fn test_if_stmt() {
    let prog = parse_str("if x > 10 then\n  log(x)\nend").unwrap();
    assert_eq!(prog.statements.len(), 1);
    assert!(matches!(&prog.statements[0], Stmt::If { .. }));
}

#[test]
fn test_while_stmt() {
    let prog = parse_str("while true do\n  log(1)\nend").unwrap();
    assert_eq!(prog.statements.len(), 1);
    assert!(matches!(&prog.statements[0], Stmt::While { .. }));
}

#[test]
fn parser_test_numeric_for() {
    let prog = parse_str("for i = 1, 10 do\n  log(i)\nend").unwrap();
    assert_eq!(prog.statements.len(), 1);
    assert!(matches!(&prog.statements[0], Stmt::NumericFor { .. }));
}

#[test]
fn test_blueprint() {
    let prog = parse_str("blueprint foo(a, b)\n  log(a)\nend").unwrap();
    assert_eq!(prog.statements.len(), 1);
    assert!(matches!(&prog.statements[0], Stmt::Blueprint { name, .. } if name == "foo"));
}

#[test]
fn test_build() {
    let prog = parse_str("build my_house(origin)").unwrap();
    assert_eq!(prog.statements.len(), 1);
    assert!(matches!(&prog.statements[0], Stmt::Build { name, .. } if name == "my_house"));
}

#[test]
fn test_syntax_error() {
    let result = parse_str("local x = 10 +");
    assert!(result.is_err());
}

#[test]
fn test_field_access() {
    let prog = parse_str("local a = obj.x").unwrap();
    if let Stmt::LocalDecl { init: Some(expr), .. } = &prog.statements[0] {
        assert!(matches!(expr, Expr::FieldAccess { field, .. } if field == "x"));
    } else {
        panic!("expected field access");
    }
}

#[test]
fn test_array_literal() {
    let prog = parse_str("local a = [1, 2, 3]").unwrap();
    assert_eq!(prog.statements.len(), 1);
}

#[test]
fn test_table_literal() {
    let prog = parse_str("local t = {name = \"foo\", size = 4}").unwrap();
    assert_eq!(prog.statements.len(), 1);
}

#[test]
fn test_elseif() {
    let prog =
        parse_str("if x > 10 then\n  log(1)\nelseif x > 5 then\n  log(2)\nelse\n  log(3)\nend")
            .unwrap();
    if let Stmt::If { elseif_clauses, else_body, .. } = &prog.statements[0] {
        assert_eq!(elseif_clauses.len(), 1);
        assert!(else_body.is_some());
    } else {
        panic!("expected if stmt");
    }
}

#[test]
fn test_unary_neg() {
    let prog = parse_str("local x = -5").unwrap();
    if let Stmt::LocalDecl { init: Some(expr), .. } = &prog.statements[0] {
        assert!(matches!(expr, Expr::UnaryOp { op: UnaryOp::Neg, .. }));
    } else {
        panic!("expected unary neg");
    }
}

#[test]
fn parser_test_string_concat() {
    let prog = parse_str(r#"local s = "hello" .. " world""#).unwrap();
    if let Stmt::LocalDecl { init: Some(expr), .. } = &prog.statements[0] {
        assert!(matches!(expr, Expr::BinaryOp { op: BinOp::Concat, .. }));
    } else {
        panic!("expected concat");
    }
}

#[test]
fn power_groups_to_the_right_and_the_rest_to_the_left() {
    assert_eq!(shape("2 ^ 3 ^ 2"), "(Pow 2 (Pow 3 2))");
    assert_eq!(shape("a - b - c"), "(Sub (Sub a b) c)");
    assert_eq!(shape("a / b * c"), "(Mul (Div a b) c)");
    assert_eq!(shape("a % b % c"), "(Mod (Mod a b) c)");
    assert_eq!(shape("a + b - c"), "(Sub (Add a b) c)");
    assert_eq!(shape("a .. b .. c"), "(Concat (Concat a b) c)");
}

#[test]
fn precedence_follows_the_table() {
    assert_eq!(shape("a or b and c"), "(Or a (And b c))");
    assert_eq!(shape("a and b == c"), "(And a (Eq b c))");
    assert_eq!(shape("a == b .. c"), "(Eq a (Concat b c))");
    assert_eq!(shape("a .. b + c"), "(Concat a (Add b c))");
    assert_eq!(shape("a + b * c"), "(Add a (Mul b c))");
    assert_eq!(shape("a * b ^ c"), "(Mul a (Pow b c))");
    assert_eq!(shape("-a ^ b"), "(Neg (Pow a b))");
    assert_eq!(shape("-a * b"), "(Mul (Neg a) b)");
    assert_eq!(shape("not a == b"), "(Eq (Not a) b)");
    assert_eq!(shape("#a + 1"), "(Add (Len a) 1)");
    assert_eq!(shape("(a + b) * c"), "(Mul (Add a b) c)");
    assert_eq!(shape("a ~= b"), "(NotEq a b)");
    assert_eq!(shape("a != b"), "(NotEq a b)");
    assert_eq!(shape("a < b"), "(Lt a b)");
    assert_eq!(shape("a <= b"), "(LtEq a b)");
    assert_eq!(shape("a > b"), "(Gt a b)");
    assert_eq!(shape("a >= b"), "(GtEq a b)");
}

#[test]
fn postfix_forms_bind_tighter_than_any_operator() {
    assert_eq!(shape("-a.b"), "(Neg (. a b))");
    assert_eq!(shape("a.b.c"), "(. (. a b) c)");
    assert_eq!(shape("f(1)(2)"), "(call (call f 1) 2)");
    assert_eq!(shape("a[1][2]"), "(at (at a 1) 2)");
    assert_eq!(shape("a:m(1, 2).x"), "(. (: a m 1 2) x)");
    assert_eq!(shape("a ^ b.c"), "(Pow a (. b c))");
    assert_eq!(shape("f()"), "(call f)");
    assert_eq!(shape("f(a, b + 1, g(c))"), "(call f a (Add b 1) (call g c))");
}

#[test]
fn literals_of_arrays_and_tables_take_a_trailing_comma() {
    assert_eq!(shape("[]"), "[]");
    assert_eq!(shape("[1, 2, 3,]"), "[1 2 3]");
    assert_eq!(shape("[[1], [2, 3]]"), "[[1] [2 3]]");
    assert_eq!(shape("{}"), "{}");
    assert_eq!(shape("{a = 1, b = \"x\",}"), "{a=1 b=\"x\"}");
    assert_eq!(shape("{a = {b = nil}, c = [true, false]}"), "{a={b=nil} c=[true false]}");
    assert!(parse_str("local t = {1}").is_err());
    assert!(parse_str("local t = {a 1}").is_err());
    assert!(parse_str("local t = [1 2]").is_err());
}

#[test]
fn every_statement_form_is_read() {
    let prog = parse_str(
        "let a\n\
         a = 1\n\
         a.b = 2\n\
         a[0] = 3\n\
         fn f(x) return x end\n\
         blueprint g() end\n\
         build g()\n\
         for i = 1, 10, 2 do break end\n\
         for k, v in t do continue end\n\
         repeat a = a + 1 until a > 5\n\
         while a do return end\n\
         if a then elseif b then elseif c then else end\n\
         return",
    )
    .unwrap();
    let s = &prog.statements;
    assert_eq!(s.len(), 13);
    assert!(matches!(&s[0], Stmt::LocalDecl { name, init: None, .. } if name == "a"));
    assert!(matches!(&s[1], Stmt::Assign { target: Expr::Ident { .. }, .. }));
    assert!(matches!(&s[2], Stmt::Assign { target: Expr::FieldAccess { .. }, .. }));
    assert!(matches!(&s[3], Stmt::Assign { target: Expr::IndexAccess { .. }, .. }));
    assert!(matches!(&s[4], Stmt::Blueprint { name, params, body, .. }
        if name == "f" && params.len() == 1 && matches!(&body[0], Stmt::Return { value: Some(_), .. })));
    assert!(matches!(&s[5], Stmt::Blueprint { params, body, .. } if params.is_empty() && body.is_empty()));
    assert!(matches!(&s[6], Stmt::Build { args, .. } if args.is_empty()));
    assert!(matches!(&s[7], Stmt::NumericFor { var, step: Some(_), body, .. }
        if var == "i" && matches!(&body[0], Stmt::Break { .. })));
    assert!(matches!(&s[8], Stmt::GenericFor { vars, body, .. }
        if vars.len() == 2 && vars[1] == "v" && matches!(&body[0], Stmt::Continue { .. })));
    assert!(matches!(&s[9], Stmt::RepeatUntil { body, .. } if body.len() == 1));
    assert!(matches!(&s[10], Stmt::While { body, .. }
        if matches!(&body[0], Stmt::Return { value: None, .. })));
    assert!(matches!(&s[11], Stmt::If { then_body, elseif_clauses, else_body: Some(e), .. }
        if then_body.is_empty() && elseif_clauses.len() == 2 && e.is_empty()));
    assert!(matches!(&s[12], Stmt::Return { value: None, .. }));
}

#[test]
fn spans_are_the_positions_of_the_tokens() {
    let prog = parse_str("local x = 1\n  y = x + f(2).z").unwrap();
    match &prog.statements[1] {
        Stmt::Assign { target, value, span } => {
            assert_eq!((span.line, span.column), (2, 3));
            assert_eq!((target.span().line, target.span().column), (2, 3));
            match value {
                Expr::BinaryOp { left, right, span, .. } => {
                    // A binary operation stands at the position of its left operand.
                    assert_eq!((span.line, span.column), (2, 7));
                    assert_eq!((left.span().line, left.span().column), (2, 7));
                    // A field access stands at its dot, a call at its parenthesis.
                    assert_eq!((right.span().line, right.span().column), (2, 15));
                    match &**right {
                        Expr::FieldAccess { object, .. } => {
                            assert_eq!((object.span().line, object.span().column), (2, 12));
                        }
                        _ => panic!("expected a field access"),
                    }
                }
                _ => panic!("expected a binary operation"),
            }
        }
        _ => panic!("expected an assignment"),
    }
}

#[test]
fn syntax_errors_name_the_offending_token() {
    for (src, message, line, column) in [
        ("local x = 10 +", "unexpected token Eof", 1, 15),
        ("local 5", "expected identifier, got Number", 1, 7),
        ("if x then\n  y = 1", "unexpected end of input, expected one of [ElseIf, Else, End]", 2, 8),
        ("while x do", "unexpected end of input, expected one of [End]", 1, 11),
        ("repeat x = 1", "unexpected end of input, expected one of [Until]", 1, 13),
        ("if x y end", "expected Then, got Identifier(\"y\")", 1, 6),
        ("f(1, 2", "expected RightParen, got Eof", 1, 7),
        ("x = )", "unexpected token RightParen", 1, 5),
        ("for i = 1 do end", "expected Comma, got Do", 1, 11),
        ("for k v in t do end", "expected In, got Identifier(\"v\")", 1, 7),
        ("build f", "expected LeftParen, got Eof", 1, 8),
        ("a[1", "expected RightBracket, got Eof", 1, 4),
        ("local s = (\"x\" \"y\")", "expected RightParen, got StringLit(\"y\")", 1, 16),
    ] {
        let err = parse_str(src).unwrap_err();
        assert_eq!(err.kind, ErrorKind::Syntax, "{}", src);
        assert_eq!(err.message, message, "{}", src);
        assert_eq!((err.line, err.column), (line, column), "{}", src);
    }
}

#[test]
fn return_takes_a_value_unless_a_block_or_the_input_ends() {
    let prog = parse_str("if a then return else return 1 end").unwrap();
    match &prog.statements[0] {
        Stmt::If { then_body, else_body: Some(e), .. } => {
            assert!(matches!(&then_body[0], Stmt::Return { value: None, .. }));
            assert!(matches!(&e[0], Stmt::Return { value: Some(_), .. }));
        }
        _ => panic!("expected a conditional"),
    }
    let prog = parse_str("repeat return until x").unwrap();
    assert!(matches!(&prog.statements[0], Stmt::RepeatUntil { .. }));
}
