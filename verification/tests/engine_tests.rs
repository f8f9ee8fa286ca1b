use ppaaeedb::{
    Arithmetic, BinaryFunction, ControlFlowError, EvalError, ExecutionError, Expression,
    InterpreterError, MathError, Number, ParseError, Parser, Statement, SymbolError, SymbolTable,
    Token, Tokenizer, UnaryFunction,
};
use rand::Rng;

/// Single-precision arithmetic of the machine.
struct Machine;

fn num(n: Number) -> f32 {
    f32::from_bits(n.bits)
}

fn number(x: f32) -> Number {
    Number { bits: x.to_bits() }
}

impl Arithmetic for Machine {
    fn parse_decimal(&self, text: &str) -> Option<Number> {
        text.parse::<f32>().ok().map(number)
    }

    fn from_integer(&self, value: u32) -> Number {
        number(value as f32)
    }

    fn unary(&self, function: UnaryFunction, x: Number) -> Number {
        let x = num(x);
        number(match function {
            UnaryFunction::Sin => x.sin(),
            UnaryFunction::Cos => x.cos(),
            UnaryFunction::Tan => x.tan(),
            UnaryFunction::Asin => x.asin(),
            UnaryFunction::Acos => x.acos(),
            UnaryFunction::Atan => x.atan(),
            UnaryFunction::Ln => x.ln(),
            UnaryFunction::Sqrt => x.sqrt(),
        })
    }

    fn binary(&self, function: BinaryFunction, x: Number, y: Number) -> Number {
        let (x, y) = (num(x), num(y));
        number(match function {
            BinaryFunction::Add => x + y,
            BinaryFunction::Sub => x - y,
            BinaryFunction::Mul => x * y,
            BinaryFunction::Div => x / y,
            BinaryFunction::Rem => x % y,
            BinaryFunction::Pow => x.powf(y),
            BinaryFunction::Atan2 => x.atan2(y),
            BinaryFunction::Max => x.max(y),
            BinaryFunction::Min => x.min(y),
        })
    }

    fn random(&self) -> Number {
        number(rand::thread_rng().gen::<f32>())
    }

    fn random_between(&self, low: Number, high: Number) -> Number {
        number(rand::thread_rng().gen_range(num(low)..num(high)))
    }
}

fn evaluate(input: &str, context: &SymbolTable) -> Result<f32, InterpreterError> {
    ppaaeedb::evaluate(input, context, &Machine).map(num)
}

fn execute(input: &str, context: &mut SymbolTable) -> Result<Option<f32>, InterpreterError> {
    ppaaeedb::execute(input, context, &Machine).map(|v| v.map(num))
}

fn value(context: &SymbolTable, name: &str) -> Option<f32> {
    context.get(name).map(num)
}

fn tokens(input: &str) -> Vec<Token> {
    let mut tokenizer = Tokenizer::from_input(input);
    let mut list = Vec::new();
    loop {
        let token = tokenizer.next_token();
        let end = token == Token::EndOfInput;
        list.push(token);
        if end {
            return list;
        }
    }
}

fn literal(text: &str) -> Token {
    Token::Literal(text.to_string())
}

/// Bit patterns that cover zeros, subnormals, whole and fractional numbers,
/// infinities and not-a-number, in both signs.
fn samples() -> Vec<u32> {
    let mut list = vec![
        0x0000_0000, 0x8000_0000, 0x0000_0001, 0x8000_0001, 0x007f_ffff, 0x0080_0000,
        0x3f00_0000, 0x3f80_0000, 0xbf80_0000, 0x3fc0_0000, 0x4000_0000, 0x4020_0000,
        0x4049_0fdb, 0x4b00_0000, 0x4b00_0001, 0x4b7f_ffff, 0x4b80_0000, 0x4a80_0001,
        0x7f7f_ffff, 0xff7f_ffff, 0x7f80_0000, 0xff80_0000, 0x7fc0_0000, 0xffc0_0000,
        0x7f80_0001, 0x3400_0000, 0x3f80_0001, 0xc100_0000, 0x4120_0000, 0x42f6_e979,
    ];
    let mut state: u32 = 0x1234_5678;
    for _ in 0..400 {
        state = state.wrapping_mul(1_664_525).wrapping_add(1_013_904_223);
        list.push(state);
    }
    list
}

#[test]
fn number_predicates_agree_with_the_machine() {
    for bits in samples() {
        let x = f32::from_bits(bits);
        let n = Number::from_bits(bits);
        assert_eq!(n.to_bits(), bits);
        assert_eq!(n.is_nan(), x.is_nan(), "is_nan of {:#x}", bits);
        assert_eq!(n.is_zero(), x == 0.0, "is_zero of {:#x}", bits);
        assert_eq!(n.is_truthy(), x != 0.0, "is_truthy of {:#x}", bits);
        assert_eq!(n.is_negative(), x < 0.0, "is_negative of {:#x}", bits);
        assert_eq!(n.has_fraction(), x.fract() != 0.0, "has_fraction of {:#x}", bits);
        assert_eq!(n.neg().to_bits(), (-x).to_bits(), "neg of {:#x}", bits);
        assert_eq!(n.abs().to_bits(), x.abs().to_bits(), "abs of {:#x}", bits);
    }
}

#[test]
fn number_comparisons_agree_with_the_machine() {
    let list = samples();
    for &a in list.iter().take(60) {
        for &b in list.iter() {
            let (x, y) = (f32::from_bits(a), f32::from_bits(b));
            let (m, n) = (Number::from_bits(a), Number::from_bits(b));
            assert_eq!(m.lt(n), x < y, "{:#x} < {:#x}", a, b);
            assert_eq!(m.le(n), x <= y, "{:#x} <= {:#x}", a, b);
            assert_eq!(m.gt(n), x > y, "{:#x} > {:#x}", a, b);
            assert_eq!(m.ge(n), x >= y, "{:#x} >= {:#x}", a, b);
            assert_eq!(m.equals(n), x == y, "{:#x} == {:#x}", a, b);
        }
    }
}

#[test]
fn number_constants_have_their_values() {
    assert_eq!(num(Number::zero_value()), 0.0);
    assert_eq!(num(Number::one()), 1.0);
    assert_eq!(num(Number::epsilon()), f32::EPSILON);
    assert_eq!(num(Number::from_bool(true)), 1.0);
    assert_eq!(num(Number::from_bool(false)), 0.0);
}

#[test]
fn global_constants_have_their_values() {
    let constants = ppaaeedb::global_constants();
    assert_eq!(constants.get("PI").map(num), Some(std::f32::consts::PI));
    assert_eq!(constants.get("TAU").map(num), Some(std::f32::consts::PI * 2.0));
    assert_eq!(constants.get("E").map(num), Some(std::f32::consts::E));
    assert_eq!(constants.get("PHI").map(num), Some(1.618033988749895));
    assert_eq!(constants.get("SQRT2").map(num), Some(std::f32::consts::SQRT_2));
    assert_eq!(constants.get("INFINITY").map(num), Some(f32::INFINITY));
    assert!(constants.contains("PI"));
    assert!(!constants.contains("pi"));
    assert_eq!(constants.get("x").map(num), None);
}

#[test]
fn lexer_reads_numbers_and_names() {
    assert_eq!(
        tokens("12 3.5 .5 0xFF 0X1f 0b101 abc _x1"),
        vec![
            literal("12"),
            literal("3.5"),
            literal(".5"),
            literal("0xFF"),
            literal("0x1f"),
            literal("0b101"),
            literal("abc"),
            literal("_x1"),
            Token::EndOfInput,
        ]
    );
}

#[test]
fn lexer_keeps_a_dot_without_digit_as_operator() {
    assert_eq!(
        tokens("a.b 2.c 2.5.1"),
        vec![
            literal("a"),
            Token::Operator('.'),
            literal("b"),
            literal("2"),
            Token::Operator('.'),
            literal("c"),
            literal("2.5"),
            literal(".1"),
            Token::EndOfInput,
        ]
    );
}

#[test]
fn lexer_reads_keywords_and_truth_values() {
    assert_eq!(
        tokens("if else while break continue return let const end fn proc true false iffy"),
        vec![
            Token::Keyword("if".to_string()),
            Token::Keyword("else".to_string()),
            Token::Keyword("while".to_string()),
            Token::Keyword("break".to_string()),
            Token::Keyword("continue".to_string()),
            Token::Keyword("return".to_string()),
            Token::Keyword("let".to_string()),
            Token::Keyword("const".to_string()),
            Token::Keyword("end".to_string()),
            Token::Keyword("fn".to_string()),
            Token::Keyword("proc".to_string()),
            literal("1"),
            literal("0"),
            literal("iffy"),
            Token::EndOfInput,
        ]
    );
}

#[test]
fn lexer_reads_operators_of_two_characters() {
    assert_eq!(
        tokens("+= -= *= /= %= ^= == != <= >= && || ^^ !^ !& !|"),
        vec![
            Token::AugAssign("+=".to_string()),
            Token::AugAssign("-=".to_string()),
            Token::AugAssign("*=".to_string()),
            Token::AugAssign("/=".to_string()),
            Token::AugAssign("%=".to_string()),
            Token::AugAssign("^=".to_string()),
            Token::Operator('e'),
            Token::Operator('n'),
            Token::Operator('l'),
            Token::Operator('g'),
            Token::Operator('&'),
            Token::Operator('|'),
            Token::Operator('x'),
            Token::Operator('q'),
            Token::Operator('a'),
            Token::Operator('o'),
            Token::EndOfInput,
        ]
    );
}

#[test]
fn lexer_reads_single_operators() {
    assert_eq!(
        tokens("+ - * / % ^ = < > ! ( ) { } ; , √"),
        vec![
            Token::Operator('+'),
            Token::Operator('-'),
            Token::Operator('*'),
            Token::Operator('/'),
            Token::Operator('%'),
            Token::Operator('^'),
            Token::Operator('='),
            Token::Operator('<'),
            Token::Operator('>'),
            Token::Operator('!'),
            Token::Operator('('),
            Token::Operator(')'),
            Token::Operator('{'),
            Token::Operator('}'),
            Token::Operator(';'),
            Token::Operator(','),
            Token::Operator('√'),
            Token::EndOfInput,
        ]
    );
}

#[test]
fn lexer_passes_over_comments_space_and_strange_characters() {
    assert_eq!(
        tokens("1 // one\n\t2 /* two\n */ 3 @ # $ 4\u{a0}5 /* open"),
        vec![
            literal("1"),
            literal("2"),
            literal("3"),
            literal("4"),
            literal("5"),
            Token::EndOfInput,
        ]
    );
    assert_eq!(tokens(""), vec![Token::EndOfInput]);
    assert_eq!(tokens("/*/ 1"), vec![Token::EndOfInput]);
}

#[test]
fn tokenizer_hands_out_tokens_in_order() {
    let mut tokenizer = Tokenizer::from_input("a + 1");
    assert_eq!(tokenizer.peek_token(), &literal("a"));
    assert!(tokenizer.check(&literal("a")));
    assert!(!tokenizer.check(&Token::Operator('+')));
    assert_eq!(tokenizer.next_token(), literal("a"));
    assert_eq!(tokenizer.expect(Token::Operator('+')).unwrap(), Token::Operator('+'));
    let error = tokenizer.expect(Token::Operator(')')).unwrap_err();
    assert_eq!(
        error.to_string(),
        "Expected Operator(')'), but found Literal(\"1\") instead."
    );
    assert_eq!(tokenizer.next_token(), Token::EndOfInput);
    assert_eq!(tokenizer.next_token(), Token::EndOfInput);
    assert_eq!(tokenizer.peek_token(), &Token::EndOfInput);
    tokenizer.reset();
    assert_eq!(tokenizer.next_token(), literal("a"));
}

#[test]
fn tokens_are_described_with_their_kind() {
    assert_eq!(literal("x1").describe(), "Literal(\"x1\")");
    assert_eq!(Token::Operator('+').describe(), "Operator('+')");
    assert_eq!(Token::AugAssign("+=".to_string()).describe(), "AugAssign(\"+=\")");
    assert_eq!(Token::Keyword("if".to_string()).describe(), "Keyword(\"if\")");
    assert_eq!(Token::EndOfInput.describe(), "EndOfInput");
}

fn prefix(input: &str) -> String {
    Expression::parse_single(input).unwrap().to_string()
}

#[test]
fn parser_follows_the_binding_powers() {
    assert_eq!(prefix("a = b = c"), "(= a (= b c))");
    assert_eq!(prefix("a && b || c"), "(| (& a b) c)");
    assert_eq!(prefix("a < b && c > d"), "(& (< a b) (> c d))");
    assert_eq!(prefix("a + b < c - d"), "(< (+ a b) (- c d))");
    assert_eq!(prefix("a - b - c"), "(- (- a b) c)");
    assert_eq!(prefix("a / b % c * d"), "(* (% (/ a b) c) d)");
    assert_eq!(prefix("a * b ^ c"), "(* a (^ b c))");
    assert_eq!(prefix("a ^ b ^ c"), "(^ a (^ b c))");
    assert_eq!(prefix("a ^ b.c"), "(^ a (. b c))");
    assert_eq!(prefix("-a ^ b"), "(^ (- a) b)");
    assert_eq!(prefix("!a == b"), "(e (! a) b)");
    assert_eq!(prefix("a >= b != c <= d"), "(l (n (g a b) c) d)");
}

#[test]
fn parser_reads_calls_groups_and_roots() {
    assert_eq!(prefix("f()"), "f()");
    assert_eq!(prefix("f(a)"), "f(a)");
    assert_eq!(prefix("max(a + 1, g(b), 3)"), "max((+ a 1), g(b), 3)");
    assert_eq!(prefix("((a))"), "a");
    assert_eq!(prefix("√ 9"), "(√ 9)");
    assert_eq!(prefix("√ 3 8"), "(√ 3 8)");
    assert_eq!(prefix("2 √ 9"), "(√ 2 9)");
}

#[test]
fn parser_unfolds_augmented_assignments() {
    assert_eq!(prefix("x += 1"), "(= x (+ x 1))");
    assert_eq!(prefix("x -= y * 2"), "(= x (- x (* y 2)))");
    assert_eq!(prefix("x ^= 2"), "(= x (^ x 2))");
    assert_eq!(prefix("x /= 2"), "(= x (/ x 2))");
}

#[test]
fn parser_reports_what_is_wrong() {
    assert!(matches!(Expression::parse_single("(1 + 2"), Err(ParseError::UnmatchedParenthesis)));
    assert!(matches!(Expression::parse_single("f(1, 2"), Err(ParseError::UnmatchedParenthesis)));
    assert!(matches!(Expression::parse_single("1 +"), Err(ParseError::UnexpectedToken(_))));
    assert!(matches!(Expression::parse_single("* 2"), Err(ParseError::UnexpectedToken(_))));
    assert!(matches!(Expression::parse_single(""), Err(ParseError::UnexpectedToken(_))));
    assert_eq!(
        Expression::parse_single("1 2").unwrap_err().to_string(),
        "Unexpected token: Expected end of input, found Literal(\"2\")"
    );
    let statement = |input: &str| Parser::new(Tokenizer::from_input(input)).parse_statement();
    assert!(matches!(statement(""), Err(ParseError::EmptyInput)));
    assert!(matches!(statement("const x"), Err(ParseError::ExpectedOperator(_))));
    assert!(matches!(statement("{ let x = 1"), Err(ParseError::ExpectedBlock)));
    assert!(matches!(statement("let = 1"), Err(ParseError::UnexpectedToken(_))));
    assert!(matches!(statement("else"), Err(ParseError::UnexpectedToken(_))));
    assert!(matches!(statement("fn (a) { }"), Err(ParseError::Expected { .. })));
    assert!(matches!(statement("fn f a { }"), Err(ParseError::Expected { .. })));
    assert!(matches!(statement("fn f(a b) { }"), Err(ParseError::Expected { .. })));
    assert!(matches!(statement("fn f(a) a"), Err(ParseError::Expected { .. })));
    assert!(matches!(statement("proc p(1 { }"), Err(ParseError::Expected { .. })));
    assert!(matches!(statement("f(1 2)"), Err(ParseError::Expected { .. })));
}

#[test]
fn parser_reads_statements() {
    let statement = |input: &str| {
        Parser::new(Tokenizer::from_input(input)).parse_statement().unwrap()
    };
    assert!(matches!(statement("break;"), Statement::Break));
    assert!(matches!(statement("continue"), Statement::Continue));
    assert!(matches!(statement("return"), Statement::Return(None)));
    assert!(matches!(statement("return 1"), Statement::Return(Some(_))));
    assert!(matches!(statement("end"), Statement::End(None)));
    assert!(matches!(statement("end 1 + 2;"), Statement::End(Some(_))));
    assert!(matches!(statement("let x"), Statement::Let { initializer: None, .. }));
    assert!(matches!(statement("let x = 1"), Statement::Let { initializer: Some(_), .. }));
    assert!(matches!(statement("const x = 1"), Statement::Const { .. }));
    assert!(matches!(statement("{ }"), Statement::Block(_)));
    assert!(matches!(statement("if a b"), Statement::If { else_branch: None, .. }));
    assert!(matches!(
        statement("if a { b } else if c { d } else { e }"),
        Statement::If { else_branch: Some(_), .. }
    ));
    assert!(matches!(statement("while a { b }"), Statement::While { .. }));
    assert!(matches!(statement("fn f() { }"), Statement::Function { .. }));
    assert!(matches!(statement("proc p(a, b) { a }"), Statement::Procedure { .. }));
    assert!(matches!(statement("p(1, 2)"), Statement::ProcedureCall { .. }));
    assert!(matches!(statement("x = 1"), Statement::Expression(_)));
    match statement("{ let a = 1; ; b = 2 }") {
        Statement::Block(items) => assert_eq!(items.len(), 2),
        _ => panic!("a block was expected"),
    }
}

#[test]
fn parser_reads_a_sequence_of_expressions() {
    let list = Expression::parse_from_str(" a + 1 ; ; b\n;").unwrap();
    assert_eq!(list.len(), 2);
    assert_eq!(list[0].to_string(), "(+ a 1)");
    assert_eq!(list[1].to_string(), "b");
    assert_eq!(Expression::parse_from_str("").unwrap().len(), 0);
    assert!(Expression::parse_from_str("a; (").is_err());
}

#[test]
fn assignments_are_recognised() {
    let (name, rhs) = Expression::parse_single("x = y + 1").unwrap().is_assignment().unwrap();
    assert_eq!(name, "x");
    assert_eq!(rhs.to_string(), "(+ y 1)");
    assert!(Expression::parse_single("x + 1").unwrap().is_assignment().is_none());
    assert!(Expression::parse_single("(x + 1) = 2").unwrap().is_assignment().is_none());
}

fn evaluate_sequence(input: &str, context: &mut SymbolTable) -> Result<f32, InterpreterError> {
    Expression::evaluate_sequence(input, context, &Machine).map(num)
}

#[test]
fn evaluates_nested_power_expression() {
    let mut context = SymbolTable::new();
    let result = evaluate_sequence("2 ^ 3 ^ 2", &mut context).unwrap();
    assert_eq!(result, 512.0);
}

#[test]
fn evaluates_root_expression() {
    let mut context = SymbolTable::new();
    let result = evaluate_sequence("2 √ 9", &mut context).unwrap();
    assert_eq!(result, 3.0);
}

#[test]
fn a_sequence_stores_what_it_assigns() {
    let mut context = SymbolTable::new();
    assert_eq!(evaluate_sequence("a = 2; b = a * 3; ; a + b", &mut context).unwrap(), 8.0);
    assert_eq!(value(&context, "a"), Some(2.0));
    assert_eq!(value(&context, "b"), Some(6.0));
    assert_eq!(evaluate_sequence("", &mut context).unwrap(), 0.0);
    assert_eq!(evaluate_sequence("a = 5", &mut context).unwrap(), 5.0);
    assert!(matches!(
        evaluate_sequence("c = 1; d = 1 / 0; e = 2", &mut context),
        Err(InterpreterError::Eval(EvalError::MathError(MathError::DivisionByZero)))
    ));
    assert_eq!(value(&context, "c"), Some(1.0));
    assert_eq!(value(&context, "e"), None);
    assert!(matches!(evaluate_sequence("a = 1; (", &mut context), Err(InterpreterError::Parse(_))));
    assert_eq!(value(&context, "a"), Some(5.0));
    assert!(matches!(
        evaluate_sequence("PI = 3", &mut context),
        Err(InterpreterError::Eval(EvalError::SymbolError(SymbolError::ImmutableConstant(_))))
    ));
    assert_eq!(evaluate("3 √ 27", &context).unwrap(), 3.0);
}

#[test]
fn literals_are_read_in_their_order() {
    let mut context = SymbolTable::new();
    assert_eq!(evaluate("0x10", &context).unwrap(), 16.0);
    assert_eq!(evaluate("0b11", &context).unwrap(), 3.0);
    assert_eq!(evaluate("0xffffffff", &context).unwrap(), 4294967295.0);
    assert_eq!(evaluate(".5", &context).unwrap(), 0.5);
    assert_eq!(evaluate("E", &context).unwrap(), std::f32::consts::E);
    execute("let E2 = 7", &mut context).unwrap();
    assert_eq!(evaluate("E2", &context).unwrap(), 7.0);
    assert!(matches!(
        evaluate("0x", &context),
        Err(InterpreterError::Eval(EvalError::MathError(MathError::InvalidExponentiation)))
    ));
    assert!(matches!(
        evaluate("0x100000000", &context),
        Err(InterpreterError::Eval(EvalError::MathError(MathError::InvalidExponentiation)))
    ));
    assert!(matches!(
        evaluate("0b", &context),
        Err(InterpreterError::Eval(EvalError::MathError(MathError::InvalidExponentiation)))
    ));
    assert!(matches!(
        evaluate("nowhere", &context),
        Err(InterpreterError::Eval(EvalError::SymbolError(SymbolError::VariableNotFound(_))))
    ));
}

#[test]
fn division_and_modulo_by_zero_fail() {
    let mut context = SymbolTable::new();
    execute("let z = 0; let m = -z", &mut context).unwrap();
    for divisor in ["0", "0.0", "-0", "z", "m", "1 - 1"] {
        assert!(matches!(
            evaluate(&format!("5 / ({})", divisor), &context),
            Err(InterpreterError::Eval(EvalError::MathError(MathError::DivisionByZero)))
        ));
        assert!(matches!(
            evaluate(&format!("5 % ({})", divisor), &context),
            Err(InterpreterError::Eval(EvalError::MathError(MathError::ModuloByZero)))
        ));
    }
    assert_eq!(evaluate("0 / 5", &context).unwrap(), 0.0);
}

#[test]
fn powers_and_roots_reject_what_has_no_number() {
    let context = SymbolTable::new();
    assert!(matches!(
        evaluate("(-8) ^ 0.5", &context),
        Err(InterpreterError::Eval(EvalError::MathError(MathError::InvalidExponentiation)))
    ));
    assert_eq!(evaluate("(-2) ^ 3", &context).unwrap(), -8.0);
    assert!(matches!(
        evaluate("0 √ 4", &context),
        Err(InterpreterError::Eval(EvalError::MathError(MathError::ZerothRoot)))
    ));
    assert!(matches!(
        evaluate("2 √ (-4)", &context),
        Err(InterpreterError::Eval(EvalError::MathError(MathError::NegativeRoot)))
    ));
    assert!(matches!(
        evaluate("√ 4", &context),
        Err(InterpreterError::Eval(EvalError::MathError(MathError::InvalidExponentiation)))
    ));
}

#[test]
fn comparisons_and_logic_yield_one_or_zero() {
    let context = SymbolTable::new();
    assert_eq!(evaluate("3 >= 3", &context).unwrap(), 1.0);
    assert_eq!(evaluate("3 <= 2", &context).unwrap(), 0.0);
    assert_eq!(evaluate("0.1 + 0.2 == 0.3", &context).unwrap(), 1.0);
    assert_eq!(evaluate("1 != 1.5", &context).unwrap(), 1.0);
    assert_eq!(evaluate("2 && -3", &context).unwrap(), 1.0);
    assert_eq!(evaluate("!5", &context).unwrap(), 0.0);
    assert_eq!(evaluate("1.5 . 2.5", &context).unwrap(), 2.5);
    assert_eq!(evaluate("+4", &context).unwrap(), 4.0);
}

#[test]
fn operations_outside_the_language_are_rejected() {
    let context = SymbolTable::new();
    let mut run = ppaaeedb::RunState::new(10);
    let strange = Expression::Operation('?', vec![Expression::Literal("1".to_string())]);
    assert!(matches!(
        strange.evaluate(&context, &mut run, &Machine),
        Err(ExecutionError::EvaluationError(EvalError::MathError(
            MathError::UnsupportedOperator('?')
        )))
    ));
    let empty = Expression::Operation('+', vec![]);
    assert!(matches!(
        empty.evaluate(&context, &mut run, &Machine),
        Err(ExecutionError::EvaluationError(EvalError::MathError(
            MathError::UnsupportedOperator('+')
        )))
    ));
}

#[test]
fn built_in_functions_check_their_arguments() {
    let context = SymbolTable::new();
    for input in ["sin()", "abs()", "cot()", "max(1)", "min()", "atan2(1)", "rand(1, 2, 3)", "rand(2, 2)"] {
        assert!(
            matches!(
                evaluate(input, &context),
                Err(InterpreterError::Eval(EvalError::MathError(MathError::UnsupportedFunction(_))))
            ),
            "{}",
            input
        );
    }
    assert!(matches!(
        evaluate("cot(0)", &context),
        Err(InterpreterError::Eval(EvalError::MathError(MathError::UnsupportedFunction(_))))
    ));
    assert_eq!(evaluate("abs(-2.5)", &context).unwrap(), 2.5);
    assert_eq!(evaluate("max(2, 7)", &context).unwrap(), 7.0);
    assert_eq!(evaluate("min(2, 7)", &context).unwrap(), 2.0);
    assert_eq!(evaluate("sin(1, 2)", &context).unwrap(), 1.0f32.sin());
    for _ in 0..50 {
        let r = evaluate("rand(2, 3)", &context).unwrap();
        assert!(2.0 <= r && r < 3.0);
        let r = evaluate("rand()", &context).unwrap();
        assert!(0.0 <= r && r < 1.0);
    }
}

#[test]
fn constants_keep_their_value() {
    let mut context = SymbolTable::new();
    assert_eq!(execute("const pi = 3.14159", &mut context).unwrap(), Some(3.14159));
    assert!(matches!(
        execute("pi = 3.14", &mut context),
        Err(InterpreterError::Eval(EvalError::SymbolError(SymbolError::ImmutableConstant(_))))
    ));
    assert_eq!(value(&context, "pi"), Some(3.14159));
    assert_eq!(execute("pi = 3.14159", &mut context).unwrap(), Some(3.14159));
    assert!(matches!(
        execute("let pi = 1", &mut context),
        Err(InterpreterError::Eval(EvalError::SymbolError(SymbolError::ImmutableConstant(_))))
    ));
    assert!(matches!(
        execute("const pi = 3.14159", &mut context),
        Err(InterpreterError::Eval(EvalError::SymbolError(SymbolError::ImmutableConstant(_))))
    ));
    assert!(matches!(
        execute("let PI = 3", &mut context),
        Err(InterpreterError::Eval(EvalError::SymbolError(SymbolError::ImmutableConstant(_))))
    ));
    assert!(matches!(
        execute("const TAU = 6", &mut context),
        Err(InterpreterError::Eval(EvalError::SymbolError(SymbolError::ImmutableConstant(_))))
    ));
    assert!(matches!(
        execute("x = 1", &mut context),
        Err(InterpreterError::Eval(EvalError::SymbolError(SymbolError::UndeclaredVariable(_))))
    ));
    assert!(matches!(
        evaluate("PI = 3", &context),
        Err(InterpreterError::Eval(EvalError::SymbolError(SymbolError::ImmutableConstant(_))))
    ));
    assert!(context.is_constant("pi"));
    assert_eq!(context.len(), 1);
}

#[test]
fn blocks_take_back_only_outer_variables() {
    let mut context = SymbolTable::new();
    execute("let x = 10; { let x = 20; }", &mut context).unwrap();
    assert_eq!(value(&context, "x"), Some(10.0));
    execute("let x = 10; { x = 20; }", &mut context).unwrap();
    assert_eq!(value(&context, "x"), Some(20.0));
    execute("let a = 1; const k = 2; { a = 5; let b = 6; { a = a + b; } }", &mut context).unwrap();
    assert_eq!(value(&context, "a"), Some(11.0));
    assert_eq!(value(&context, "b"), None);
    assert_eq!(value(&context, "k"), Some(2.0));
    execute("let y = 1; { y = 2; let y = 3; }", &mut context).unwrap();
    assert_eq!(value(&context, "y"), Some(1.0));
}

#[test]
fn copy_back_follows_its_rules() {
    let mut parent = SymbolTable::new();
    parent.set_variable("a".to_string(), number(1.0)).unwrap();
    parent.set_variable("b".to_string(), number(2.0)).unwrap();
    parent.set_variable("d".to_string(), number(4.0)).unwrap();
    parent.declare_constant("c".to_string(), number(3.0)).unwrap();
    let mut child = parent.new_scope();
    child.set_variable("a".to_string(), number(10.0)).unwrap();
    child.set_variable("b".to_string(), number(20.0)).unwrap();
    child.set_variable("n".to_string(), number(50.0)).unwrap();
    assert_eq!(value(&parent, "a"), Some(1.0));
    let shadow = vec!["b".to_string()];
    parent.merge_except(&child, &shadow);
    assert_eq!(value(&parent, "a"), Some(10.0));
    assert_eq!(value(&parent, "b"), Some(2.0));
    assert_eq!(value(&parent, "c"), Some(3.0));
    assert_eq!(value(&parent, "d"), Some(4.0));
    assert_eq!(value(&parent, "n"), None);
    parent.merge_from_scope(&child).unwrap();
    assert_eq!(value(&parent, "b"), Some(20.0));
    let names: Vec<String> = parent.entries().into_iter().map(|(name, _)| name).collect();
    assert_eq!(names, vec!["a", "b", "d", "c"]);
    assert!(parent.value_equals("a", number(10.0)));
    assert!(!parent.value_equals("a", number(1.0)));
    assert!(!parent.value_equals("zz", number(1.0)));
    assert!(!parent.is_empty());
    assert!(SymbolTable::new().is_empty());
}

#[test]
fn end_stops_the_program() {
    let mut context = SymbolTable::new();
    assert_eq!(execute("let x = 5; end x * 3; let y = 10;", &mut context).unwrap(), Some(15.0));
    assert_eq!(value(&context, "y"), None);
    assert_eq!(execute("let z = 1; end;", &mut context).unwrap(), None);
    assert_eq!(
        execute("fn f() { end 7; } let r = f() + 1; let after = 1;", &mut context).unwrap(),
        Some(7.0)
    );
    assert_eq!(value(&context, "r"), Some(8.0));
    assert_eq!(value(&context, "after"), None);
}

#[test]
fn control_flow_outside_its_place_is_an_error() {
    let mut context = SymbolTable::new();
    assert!(matches!(
        execute("break", &mut context),
        Err(InterpreterError::Eval(EvalError::ControlFlowError(ControlFlowError::BreakOutsideLoop)))
    ));
    assert!(matches!(
        execute("continue", &mut context),
        Err(InterpreterError::Eval(EvalError::ControlFlowError(
            ControlFlowError::ContinueOutsideLoop
        )))
    ));
    assert!(matches!(
        execute("return 1", &mut context),
        Err(InterpreterError::Eval(EvalError::ControlFlowError(
            ControlFlowError::InvalidReturnStatement(_)
        )))
    ));
    assert_eq!(execute("fn f() { return 4; 5 } f()", &mut context).unwrap(), Some(4.0));
}

#[test]
fn calls_check_names_and_argument_counts() {
    let mut context = SymbolTable::new();
    execute("fn add(a, b) { a + b } proc p(a) { let t = a }", &mut context).unwrap();
    assert_eq!(evaluate("add(1, 2) * 2", &context).unwrap(), 6.0);
    assert_eq!(execute("add(1, 2)", &mut context).unwrap(), Some(3.0));
    assert_eq!(execute("p(1)", &mut context).unwrap(), None);
    assert!(matches!(
        evaluate("add(1)", &context),
        Err(InterpreterError::Eval(EvalError::ControlFlowError(
            ControlFlowError::WrongArgumentCount { expected: 2, got: 1, .. }
        )))
    ));
    assert!(matches!(
        execute("p(1, 2)", &mut context),
        Err(InterpreterError::Eval(EvalError::ControlFlowError(
            ControlFlowError::WrongArgumentCount { expected: 1, got: 2, .. }
        )))
    ));
    assert!(matches!(
        evaluate("nothing(1)", &context),
        Err(InterpreterError::Eval(EvalError::ControlFlowError(
            ControlFlowError::FunctionOrProcedureNotFound { .. }
        )))
    ));
    assert!(matches!(
        evaluate("1 + p(1)", &context),
        Err(InterpreterError::Eval(EvalError::ControlFlowError(
            ControlFlowError::UnimplementedFeature(_)
        )))
    ));
    assert!(matches!(
        execute("fn add(a) { a }", &mut context),
        Err(InterpreterError::Eval(EvalError::ControlFlowError(
            ControlFlowError::FunctionOrProcedureAlreadyDefined { .. }
        )))
    ));
    assert!(matches!(
        execute("proc p() { }", &mut context),
        Err(InterpreterError::Eval(EvalError::ControlFlowError(
            ControlFlowError::FunctionOrProcedureAlreadyDefined { .. }
        )))
    ));
    assert!(matches!(
        execute("fn g(PI) { PI } g(1)", &mut context),
        Err(InterpreterError::Eval(EvalError::SymbolError(SymbolError::ImmutableConstant(_))))
    ));
}

#[test]
fn the_step_budget_ends_endless_programs() {
    let mut context = SymbolTable::new();
    assert!(matches!(
        ppaaeedb::execute_within("while 1 { }", &mut context, &Machine, 1000),
        Err(InterpreterError::Exec(ExecutionError::MaxIterationsExceeded))
    ));
    assert!(matches!(
        ppaaeedb::execute_within("fn f(n) { f(n + 1) } f(0)", &mut context, &Machine, 200),
        Err(InterpreterError::Exec(ExecutionError::MaxIterationsExceeded))
    ));
    assert!(matches!(
        ppaaeedb::evaluate_within("f(0)", &context, &Machine, 0),
        Err(InterpreterError::Exec(ExecutionError::MaxIterationsExceeded))
    ));
    let mut context = SymbolTable::new();
    let program = "let i = 0; while i < 10 { i += 1 }";
    assert!(ppaaeedb::execute_within(program, &mut context, &Machine, 9).is_err());
    let mut context = SymbolTable::new();
    assert!(ppaaeedb::execute_within(program, &mut context, &Machine, 10).is_ok());
    assert_eq!(value(&context, "i"), Some(10.0));
}

#[test]
fn the_same_expression_has_the_same_value_again() {
    let mut context = SymbolTable::new();
    execute("let a = 1.25; fn f(x) { x * a + 2 }", &mut context).unwrap();
    for input in ["a * 3 - 2 ^ 0.5", "f(a) / 7 + sin(a)", "2 √ (a + f(3))", "a == 1.25"] {
        let first = evaluate(input, &context).unwrap();
        let second = evaluate(input, &context).unwrap();
        assert_eq!(first.to_bits(), second.to_bits(), "{}", input);
    }
}

#[test]
fn the_same_input_has_the_same_prefix_text_again() {
    for input in ["1 + 2 * 3", "a ^ b ^ 2", "f(x, y + 1) . z", "x += √ 2 9"] {
        let first = Expression::parse_single(input).unwrap().to_string();
        let second = Expression::parse_single(input).unwrap().to_string();
        assert_eq!(first, second);
    }
    assert_eq!(prefix("1 + 2 * 3"), "(+ 1 (* 2 3))");
}

#[test]
fn errors_have_their_messages() {
    assert_eq!(ParseError::EmptyInput.to_string(), "Empty input. Please enter an expression.");
    assert_eq!(
        ParseError::ExpectedBlock.to_string(),
        "Expected a code block enclosed in curly braces {}."
    );
    assert_eq!(
        MathError::DivisionByZero.to_string(),
        "Division by zero error. Cannot divide by zero."
    );
    assert_eq!(MathError::UnsupportedOperator('?').to_string(), "Unsupported operator: ?");
    assert_eq!(
        SymbolError::VariableNotFound("x".to_string()).to_string(),
        "Variable 'x' not found. Make sure it is defined before use."
    );
    assert_eq!(
        ControlFlowError::WrongArgumentCount { name: "f".to_string(), expected: 12, got: 0 }
            .to_string(),
        "Callable 'f' called with wrong number of arguments. Expected 12, got 0."
    );
    assert_eq!(
        ControlFlowError::FunctionOrProcedureAlreadyDefined {
            name: "f".to_string(),
            kind: "Function".to_string()
        }
        .to_string(),
        "Function 'f' already defined in the same scope."
    );
    assert_eq!(
        InterpreterError::Eval(EvalError::MathError(MathError::ModuloByZero)).to_string(),
        "Evaluation error: Modulo by zero error. Cannot compute modulo with zero divisor."
    );
    assert_eq!(
        InterpreterError::Exec(ExecutionError::MaxIterationsExceeded).to_string(),
        "Execution error: Maximum iterations exceeded"
    );
    assert_eq!(
        InterpreterError::Parse(ParseError::UnmatchedParenthesis).to_string(),
        "Parse error: Unmatched parenthesis."
    );
    assert_eq!(
        ExecutionError::EvaluationError(EvalError::SymbolError(SymbolError::ImmutableConstant(
            "k".to_string()
        )))
        .to_string(),
        "Evaluation error: Cannot modify constant: 'k'. Constants declared with 'const' are immutable."
    );
}
