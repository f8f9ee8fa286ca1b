use ppaaeedb::{Arithmetic, BinaryFunction, Number, SymbolTable, UnaryFunction};
use rand::Rng;
use std::error::Error;

/// Single-precision arithmetic of the machine.
struct Machine;

fn num(n: Number) -> f32 {
    f32::from_bits(n.bits)
}

fn number(x: f32) -> Number {
    Number { bits: x.to_bits() }
}

impl Arithmetic for Machine {
    fn parse_decimal(&self, text: &str) -> Option<Number> {
        text.parse::<f32>().ok().map(number)
    }

    fn from_integer(&self, value: u32) -> Number {
        number(value as f32)
    }

    fn unary(&self, function: UnaryFunction, x: Number) -> Number {
        let x = num(x);
        number(match function {
            UnaryFunction::Sin => x.sin(),
            UnaryFunction::Cos => x.cos(),
            UnaryFunction::Tan => x.tan(),
            UnaryFunction::Asin => x.asin(),
            UnaryFunction::Acos => x.acos(),
            UnaryFunction::Atan => x.atan(),
            UnaryFunction::Ln => x.ln(),
            UnaryFunction::Sqrt => x.sqrt(),
        })
    }

    fn binary(&self, function: BinaryFunction, x: Number, y: Number) -> Number {
        let (x, y) = (num(x), num(y));
        number(match function {
            BinaryFunction::Add => x + y,
            BinaryFunction::Sub => x - y,
            BinaryFunction::Mul => x * y,
            BinaryFunction::Div => x / y,
            BinaryFunction::Rem => x % y,
            BinaryFunction::Pow => x.powf(y),
            BinaryFunction::Atan2 => x.atan2(y),
            BinaryFunction::Max => x.max(y),
            BinaryFunction::Min => x.min(y),
        })
    }

    fn random(&self) -> Number {
        number(rand::thread_rng().gen::<f32>())
    }

    fn random_between(&self, low: Number, high: Number) -> Number {
        number(rand::thread_rng().gen_range(num(low)..num(high)))
    }
}

#[allow(dead_code)]
fn evaluate(input: &str, context: &SymbolTable) -> Result<f32, Box<dyn Error>> {
    match ppaaeedb::evaluate(input, context, &Machine) {
        Ok(v) => Ok(num(v)),
        Err(e) => Err(e.to_string().into()),
    }
}

#[allow(dead_code)]
fn execute(input: &str, context: &mut SymbolTable) -> Result<Option<f32>, Box<dyn Error>> {
    match ppaaeedb::execute(input, context, &Machine) {
        Ok(v) => Ok(v.map(num)),
        Err(e) => Err(e.to_string().into()),
    }
}

#[allow(dead_code)]
fn value(context: &SymbolTable, name: &str) -> Option<f32> {
    context.get(name).map(num)
}

/// Tests evaluation of numeric literals.
#[test]
fn language_features_tests_test_eval_numeric_literal() -> Result<(), Box<dyn Error>> {
    let mut context = SymbolTable::new();
    assert_eq!(evaluate("42", &mut context)?, 42.0);
    Ok(())
}

/// Tests evaluation of decimal numbers.
#[test]
fn language_features_tests_test_eval_decimal_number() -> Result<(), Box<dyn Error>> {
    let mut context = SymbolTable::new();
    assert_eq!(evaluate("3.14159", &mut context)?, 3.14159);
    Ok(())
}

/// Tests evaluation of hexadecimal numbers.
#[test]
fn language_features_tests_test_eval_hex_number() -> Result<(), Box<dyn Error>> {
    let mut context = SymbolTable::new();
    assert_eq!(evaluate("0xFF", &mut context)?, 255.0);
    Ok(())
}

/// Tests evaluation of binary numbers.
#[test]
fn language_features_tests_test_eval_binary_number() -> Result<(), Box<dyn Error>> {
    let mut context = SymbolTable::new();
    assert_eq!(evaluate("0b1010", &mut context)?, 10.0);
    Ok(())
}

/// Tests basic arithmetic operations.
#[test]
fn language_features_tests_test_eval_basic_arithmetic() -> Result<(), Box<dyn Error>> {
    let mut context = SymbolTable::new();
    assert_eq!(evaluate("2 + 3", &mut context)?, 5.0);
    assert_eq!(evaluate("5 - 2", &mut context)?, 3.0);
    assert_eq!(evaluate("3 * 4", &mut context)?, 12.0);
    assert_eq!(evaluate("10 / 2", &mut context)?, 5.0);
    Ok(())
}

/// Tests operator precedence.
#[test]
fn language_features_tests_test_eval_operator_precedence() -> Result<(), Box<dyn Error>> {
    let mut context = SymbolTable::new();
    assert_eq!(evaluate("2 + 3 * 4", &mut context)?, 14.0); // 3 * 4 = 12, then 2 + 12 = 14
    assert_eq!(evaluate("2 * 3 + 4", &mut context)?, 10.0); // 2 * 3 = 6, then 6 + 4 = 10
    assert_eq!(evaluate("(2 + 3) * 4", &mut context)?, 20.0); // 2 + 3 = 5, then 5 * 4 = 20
    Ok(())
}

/// Tests nested expressions with parentheses.
#[test]
fn language_features_tests_test_eval_nested_expressions() -> Result<(), Box<dyn Error>> {
    let mut context = SymbolTable::new();
    assert_eq!(evaluate("(2 + 3) * (4 - 1)", &mut context)?, 15.0);
    assert_eq!(evaluate("2 * (3 + (4 * 5))", &mut context)?, 46.0);
    Ok(())
}

/// Tests complex expressions with multiple operators.
#[test]
fn language_features_tests_test_eval_complex_expressions() -> Result<(), Box<dyn Error>> {
    let mut context = SymbolTable::new();
    assert_eq!(evaluate("2 + 3 * 4 - 5 / 5", &mut context)?, 13.0);
    assert_eq!(evaluate("10 - 2 * 3 + 5 / 5", &mut context)?, 5.0);
    Ok(())
}

/// Tests unary minus operator.
#[test]
fn language_features_tests_test_eval_unary_minus() -> Result<(), Box<dyn Error>> {
    let mut context = SymbolTable::new();
    assert_eq!(evaluate("-5", &mut context)?, -5.0);
    assert_eq!(evaluate("--5", &mut context)?, 5.0); // Double negative
    Ok(())
}

/// Tests modulo operator.
#[test]
fn language_features_tests_test_eval_modulo() -> Result<(), Box<dyn Error>> {
    let mut context = SymbolTable::new();
    assert_eq!(evaluate("10 % 3", &mut context)?, 1.0);
    assert_eq!(evaluate("17 % 5", &mut context)?, 2.0);
    Ok(())
}

/// Tests power operator.
#[test]
fn language_features_tests_test_eval_power() -> Result<(), Box<dyn Error>> {
    let mut context = SymbolTable::new();
    assert_eq!(evaluate("2 ^ 3", &mut context)?, 8.0);
    assert_eq!(evaluate("3 ^ 2", &mut context)?, 9.0);
    Ok(())
}

/// Tests root operator.
#[test]
fn language_features_tests_test_eval_root() -> Result<(), Box<dyn Error>> {
    let mut context = SymbolTable::new();
    // Using sqrt function instead of word root
    assert_eq!(evaluate("sqrt(9)", &mut context)?, 3.0);
    assert_eq!(evaluate("sqrt(16)", &mut context)?, 4.0);
    Ok(())
}

/// Tests comparison operators.
#[test]
fn language_features_tests_test_eval_comparisons() -> Result<(), Box<dyn Error>> {
    let mut context = SymbolTable::new();
    assert_eq!(evaluate("5 > 3", &mut context)?, 1.0); // true
    assert_eq!(evaluate("5 < 3", &mut context)?, 0.0); // false
    assert_eq!(evaluate("5 == 5", &mut context)?, 1.0); // true
    assert_eq!(evaluate("5 != 5", &mut context)?, 0.0); // false
    assert_eq!(evaluate("5 >= 5", &mut context)?, 1.0); // true
    assert_eq!(evaluate("5 <= 3", &mut context)?, 0.0); // false
    Ok(())
}

/// Tests evaluation of variables.
#[test]
fn language_features_tests_test_eval_variable() -> Result<(), Box<dyn Error>> {
    let mut context = SymbolTable::new();
    context.set_variable("x".to_string(), number(42.0)).map_err(|e| e.to_string())?;
    assert_eq!(evaluate("x", &mut context)?, 42.0);
    Ok(())
}

/// Tests expressions with variables.
#[test]
fn language_features_tests_test_eval_expressions_with_variables() -> Result<(), Box<dyn Error>> {
    let mut context = SymbolTable::new();
    context.set_variable("x".to_string(), number(5.0)).map_err(|e| e.to_string())?;
    context.set_variable("y".to_string(), number(3.0)).map_err(|e| e.to_string())?;
    assert_eq!(evaluate("x + y", &mut context)?, 8.0);
    assert_eq!(evaluate("x * y", &mut context)?, 15.0);
    assert_eq!(evaluate("x - y", &mut context)?, 2.0);
    assert_eq!(evaluate("x / y", &mut context)?, 5.0 / 3.0);
    Ok(())
}

/// Tests const declaration and basic usage.
#[test]
fn language_features_tests_test_const_declaration() -> Result<(), Box<dyn Error>> {
    let mut context = SymbolTable::new();
    let result = execute("const pi = 3.14159", &mut context)?;
    
    assert_eq!(result, Some(3.14159));
    assert_eq!(value(&context, "pi"), Some(3.14159));
    assert!(context.is_constant("pi"));
    
    Ok(())
}

/// Tests that constants are immutable.
#[test]
fn language_features_tests_test_const_immutability() -> Result<(), Box<dyn Error>> {
    let mut context = SymbolTable::new();
    
    // First declare the constant
    execute("const pi = 3.14159", &mut context)?;
    
    // Now try to change it - this should fail
    let result = execute("pi = 3.14", &mut context);
    assert!(result.is_err());
    
    // Verify the value is unchanged
    assert_eq!(value(&context, "pi"), Some(3.14159));
    
    Ok(())
}

/// Tests reassigning the same value to a constant (should work).
#[test]
fn language_features_tests_test_const_same_value_reassignment() -> Result<(), Box<dyn Error>> {
    let mut context = SymbolTable::new();
    
    // Test reassigning same value to constant
    let test_code = r#"
        const pi = 3.14159;
        pi = 3.14159;
        pi
    "#;
    
    let result = execute(test_code, &mut context)?;
    assert_eq!(result, Some(3.14159));
    Ok(())
}

/// Tests constants with expression initializers.
#[test]
fn language_features_tests_test_const_with_expression_initializer() -> Result<(), Box<dyn Error>> {
    let mut context = SymbolTable::new();
    
    // Constant with an expression initializer
    let result = execute("const x = 2 * 3 + 4", &mut context)?;
    
    assert_eq!(result, Some(10.0));
    assert_eq!(value(&context, "x"), Some(10.0));
    assert!(context.is_constant("x"));
    
    Ok(())
}

/// Tests redeclaring constants (should fail).
#[test]
fn language_features_tests_test_const_redeclaration() -> Result<(), Box<dyn Error>> {
    let mut context = SymbolTable::new();
    
    // First declaration
    execute("const pi = 3.14159", &mut context)?;
    
    // Try to redeclare - should fail
    let result = execute("const pi = 3.14", &mut context);
    assert!(result.is_err());
    
    // Verify the first value is preserved
    assert_eq!(value(&context, "pi"), Some(3.14159));
    
    Ok(())
}

/// Tests using constants in expressions.
#[test]
fn language_features_tests_test_using_constants_in_expressions() -> Result<(), Box<dyn Error>> {
    let mut context = SymbolTable::new();
    
    // Define some constants
    execute("const pi = 3.14159; const r = 5", &mut context)?;
    
    // Use them in an expression
    let result = execute("pi * r * r", &mut context)?;
    
    assert_eq!(result, Some(3.14159 * 5.0 * 5.0));
    
    Ok(())
}

/// Tests constants and variables together.
#[test]
fn language_features_tests_test_constants_and_variables() -> Result<(), Box<dyn Error>> {
    let mut context = SymbolTable::new();
    
    // Define a constant and a variable
    execute("const pi = 3.14159; let r = 5", &mut context)?;
    
    // Use them together
    let result = execute("pi * r * r", &mut context)?;
    assert_eq!(result, Some(3.14159 * 5.0 * 5.0));
    
    // Try to modify the variable (should succeed)
    execute("r = 7", &mut context)?;
    assert_eq!(value(&context, "r"), Some(7.0));
    
    // The computed value should now be different
    let result = execute("pi * r * r", &mut context)?;
    assert_eq!(result, Some(3.14159 * 7.0 * 7.0));
    
    Ok(())
}

/// Tests constants in blocks.
#[test]
fn language_features_tests_test_constants_in_blocks() -> Result<(), Box<dyn Error>> {
    let mut context = SymbolTable::new();
    
    // Declare a constant in a block
    execute("{ const local_pi = 3.14159 }", &mut context)?;
    
    // Constant should not be visible outside the block
    assert!(value(&context, "local_pi").is_none());
    
    // But a constant declared outside should be visible everywhere
    execute("const pi = 3.14159; { pi }", &mut context)?;
    assert_eq!(value(&context, "pi"), Some(3.14159));
    
    Ok(())
}

/// Tests variable declaration with initialization.
#[test]
fn language_features_tests_test_let_statement() -> Result<(), Box<dyn Error>> {
    let mut context = SymbolTable::new();
    let result = execute("let x = 42", &mut context)?;
    assert_eq!(value(&context, "x"), Some(42.0));
    assert_eq!(result, Some(42.0));
    Ok(())
}

/// Tests variable declaration without initialization.
#[test]
fn language_features_tests_test_let_without_initializer() -> Result<(), Box<dyn Error>> {
    let mut context = SymbolTable::new();
    let result = execute("let x", &mut context)?;
    assert_eq!(value(&context, "x"), Some(0.0)); // Default value is 0.0
    assert_eq!(result, Some(0.0));
    Ok(())
}

/// Tests variable declaration with complex expression initializer.
#[test]
fn language_features_tests_test_let_with_expression_initializer() -> Result<(), Box<dyn Error>> {
    let mut context = SymbolTable::new();
    let result = execute("let x = 2 * 3 + 4", &mut context)?;
    assert_eq!(value(&context, "x"), Some(10.0)); // 2*3 + 4 = 10
    assert_eq!(result, Some(10.0));
    Ok(())
}

/// Tests direct assignment to existing variables.
#[test]
fn language_features_tests_test_simple_assignment() -> Result<(), Box<dyn Error>> {
    let mut context = SymbolTable::new();
    execute("let x = 5", &mut context)?;
    let result = execute("x = 42", &mut context)?;
    assert_eq!(value(&context, "x"), Some(42.0));
    assert_eq!(result, Some(42.0));
    Ok(())
}

/// Tests compound assignment operators.
#[test]
fn language_features_tests_test_augmented_assignment() -> Result<(), Box<dyn Error>> {
    let mut context = SymbolTable::new();
    execute("let x = 5", &mut context)?;
    
    execute("x += 3", &mut context)?;
    assert_eq!(value(&context, "x"), Some(8.0));
    
    execute("x -= 2", &mut context)?;
    assert_eq!(value(&context, "x"), Some(6.0));
    
    execute("x *= 3", &mut context)?;
    assert_eq!(value(&context, "x"), Some(18.0));
    
    execute("x /= 2", &mut context)?;
    assert_eq!(value(&context, "x"), Some(9.0));
    
    execute("x %= 4", &mut context)?;
    assert_eq!(value(&context, "x"), Some(1.0));
    
    Ok(())
}
