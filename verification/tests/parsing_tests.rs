use ppaaeedb::Expression;

/// Parses a single numeric atom.
#[test]
fn parses_single_atom() {
    let exprs = Expression::parse_from_str("1").unwrap();
    assert_eq!(exprs[0].to_string(), "1");
}

/// Redundant parentheses don't affect structure.
#[test]
fn parses_nested_parentheses() {
    let exprs = Expression::parse_from_str("(((a)))").unwrap();
    assert_eq!(exprs[0].to_string(), "a");
}

/// Dot operator: nested access.
#[test]
fn parses_chained_dot_operator() {
    let exprs = Expression::parse_from_str("a.b.c.d").unwrap();
    assert_eq!(exprs[0].to_string(), "(. (. (. a b) c) d)");
}

/// Operator precedence: addition and multiplication.
#[test]
fn parses_addition_and_multiplication() {
    let exprs = Expression::parse_from_str("1 + 2 * 3").unwrap();
    assert_eq!(exprs[0].to_string(), "(+ 1 (* 2 3))");
}

/// Chain of multiplications.
#[test]
fn parses_multiple_multiplications() {
    let exprs = Expression::parse_from_str("a * 2 * b").unwrap();
    assert_eq!(exprs[0].to_string(), "(* (* a 2) b)");
}

/// Mixed operations with precedence.
#[test]
fn parses_mixed_operations() {
    let exprs = Expression::parse_from_str("a + b * 2 * c + a / 4").unwrap();
    assert_eq!(exprs[0].to_string(), "(+ (+ a (* (* b 2) c)) (/ a 4))");
}

/// Parentheses change precedence.
#[test]
fn parses_parenthesized_expression() {
    let exprs = Expression::parse_from_str("(2 + b) * 5").unwrap();
    assert_eq!(exprs[0].to_string(), "(* (+ 2 b) 5)");
}

/// Mixed nested operations.
#[test]
fn parses_expression_with_nested_parentheses_and_mul_div() {
    let exprs = Expression::parse_from_str("a + b * 2 * (c + a) / 4").unwrap();
    assert_eq!(exprs[0].to_string(), "(+ a (/ (* (* b 2) (+ c a)) 4))");
}

/// Power operator has higher precedence.
#[test]
fn parses_expression_with_power() {
    let exprs = Expression::parse_from_str("a + b * c ^ 4").unwrap();
    assert_eq!(exprs[0].to_string(), "(+ a (* b (^ c 4)))");
}

/// Power is right-associative.
#[test]
fn parses_nested_power_right_associative() {
    let exprs = Expression::parse_from_str("a ^ b ^ 2").unwrap();
    assert_eq!(exprs[0].to_string(), "(^ a (^ b 2))");
}

/// Root operator without parentheses.
#[test]
fn parses_expression_with_root_operator() {
    let exprs = Expression::parse_from_str("a + 2 √ 4 * b").unwrap();
    assert_eq!(exprs[0].to_string(), "(+ a (* (√ 2 4) b))");
}

/// Root operator with parentheses.
#[test]
fn parses_expression_with_root_and_grouped_multiplication() {
    let exprs = Expression::parse_from_str("a + 2 √ (4 * b)").unwrap();
    assert_eq!(exprs[0].to_string(), "(+ a (√ 2 (* 4 b)))");
}

/// Edge case: redundant root.
#[test]
fn parses_nested_roots() {
    let exprs = Expression::parse_from_str("√ 2 √ 9").unwrap();
    assert_eq!(exprs[0].to_string(), "(√ 2 (√ 9))");
}

/// Complex mixed operations.
#[test]
fn parses_complex_expression() {
    let exprs = Expression::parse_from_str("2 + b * 5 - 3 / 5 + 5 - 3").unwrap();
    assert_eq!(exprs[0].to_string(), "(- (+ (- (+ 2 (* b 5)) (/ 3 5)) 5) 3)");
}

/// Edge case: deeply nested right-associative power.
#[test]
fn parses_deeply_nested_power() {
    let exprs = Expression::parse_from_str("2 ^ 3 ^ 2").unwrap();
    assert_eq!(exprs[0].to_string(), "(^ 2 (^ 3 2))");
}

/// Edge case: expression with multiple dot accesses and power.
#[test]
fn parses_dot_and_power_combination() {
    let exprs = Expression::parse_from_str("a.b ^ 2.c").unwrap();
    assert_eq!(exprs[0].to_string(), "(^ (. a b) (. 2 c))");
}
