use ppaaeedb::{Arithmetic, BinaryFunction, Number, SymbolTable, UnaryFunction};
use rand::Rng;
use std::error::Error;

/// Single-precision arithmetic of the machine.
struct Machine;

fn num(n: Number) -> f32 {
    f32::from_bits(n.bits)
}

fn number(x: f32) -> Number {
    Number { bits: x.to_bits() }
}

impl Arithmetic for Machine {
    fn parse_decimal(&self, text: &str) -> Option<Number> {
        text.parse::<f32>().ok().map(number)
    }

    fn from_integer(&self, value: u32) -> Number {
        number(value as f32)
    }

    fn unary(&self, function: UnaryFunction, x: Number) -> Number {
        let x = num(x);
        number(match function {
            UnaryFunction::Sin => x.sin(),
            UnaryFunction::Cos => x.cos(),
            UnaryFunction::Tan => x.tan(),
            UnaryFunction::Asin => x.asin(),
            UnaryFunction::Acos => x.acos(),
            UnaryFunction::Atan => x.atan(),
            UnaryFunction::Ln => x.ln(),
            UnaryFunction::Sqrt => x.sqrt(),
        })
    }

    fn binary(&self, function: BinaryFunction, x: Number, y: Number) -> Number {
        let (x, y) = (num(x), num(y));
        number(match function {
            BinaryFunction::Add => x + y,
            BinaryFunction::Sub => x - y,
            BinaryFunction::Mul => x * y,
            BinaryFunction::Div => x / y,
            BinaryFunction::Rem => x % y,
            BinaryFunction::Pow => x.powf(y),
            BinaryFunction::Atan2 => x.atan2(y),
            BinaryFunction::Max => x.max(y),
            BinaryFunction::Min => x.min(y),
        })
    }

    fn random(&self) -> Number {
        number(rand::thread_rng().gen::<f32>())
    }

    fn random_between(&self, low: Number, high: Number) -> Number {
        number(rand::thread_rng().gen_range(num(low)..num(high)))
    }
}

#[allow(dead_code)]
fn evaluate(input: &str, context: &SymbolTable) -> Result<f32, Box<dyn Error>> {
    match ppaaeedb::evaluate(input, context, &Machine) {
        Ok(v) => Ok(num(v)),
        Err(e) => Err(e.to_string().into()),
    }
}

#[allow(dead_code)]
fn execute(input: &str, context: &mut SymbolTable) -> Result<Option<f32>, Box<dyn Error>> {
    match ppaaeedb::execute(input, context, &Machine) {
        Ok(v) => Ok(v.map(num)),
        Err(e) => Err(e.to_string().into()),
    }
}

#[allow(dead_code)]
fn value(context: &SymbolTable, name: &str) -> Option<f32> {
    context.get(name).map(num)
}

/// Tests the random number generator function
#[test]
fn test_random_number_generator() -> Result<(), Box<dyn Error>> {
    let context = SymbolTable::new();
    
    // Test rand() with no arguments (should return 0-1)
    let result = evaluate("rand()", &context)?;
    assert!(result >= 0.0 && result <= 1.0);
    
    // Test rand(10) - should return 0-10
    let result = evaluate("rand(10)", &context)?;
    assert!(result >= 0.0 && result <= 10.0);
    
    // Test rand(5, 10) - should return 5-10
    let result = evaluate("rand(5, 10)", &context)?;
    assert!(result >= 5.0 && result <= 10.0);
    
    // Test invalid arguments
    let result = evaluate("rand(10, 5)", &context);
    assert!(result.is_err());
    
    Ok(())
}

/// Tests the absolute value function.
#[test]
fn test_abs_function() -> Result<(), Box<dyn Error>> {
    let context = SymbolTable::new();
    
    assert_eq!(evaluate("abs(5)", &context)?, 5.0);
    assert_eq!(evaluate("abs(-5)", &context)?, 5.0);
    assert_eq!(evaluate("abs(0)", &context)?, 0.0);
    
    Ok(())
}

/// Tests the square root function.
#[test]
fn test_sqrt_function() -> Result<(), Box<dyn Error>> {
    let context = SymbolTable::new();
    
    assert_eq!(evaluate("sqrt(4)", &context)?, 2.0);
    assert_eq!(evaluate("sqrt(9)", &context)?, 3.0);
    
    Ok(())
}

/// Tests the sine function.
#[test]
fn test_sin_function() -> Result<(), Box<dyn Error>> {
    let context = SymbolTable::new();
    
    // Use approximate comparison for floating point values
    let result = evaluate("sin(0)", &context)?;
    assert!((result - 0.0).abs() < 0.0001);
    
    Ok(())
}

/// Tests the cosine function.
#[test]
fn test_cos_function() -> Result<(), Box<dyn Error>> {
    let context = SymbolTable::new();
    
    // Use approximate comparison for floating point values
    let result = evaluate("cos(0)", &context)?;
    assert!((result - 1.0).abs() < 0.0001);
    
    Ok(())
}

/// Tests the tangent function.
#[test]
fn test_tan_function() -> Result<(), Box<dyn Error>> {
    let context = SymbolTable::new();
    
    // Use approximate comparison for floating point values
    let result = evaluate("tan(0)", &context)?;
    assert!((result - 0.0).abs() < 0.0001);
    
    Ok(())
}

/// Tests the logarithm function.
#[test]
fn test_log_function() -> Result<(), Box<dyn Error>> {
    let context = SymbolTable::new();
    
    // log(e) = 1
    let result = evaluate("log(2.718281)", &context)?;
    assert!((result - 1.0).abs() < 0.01);
    
    Ok(())
}

/// Tests the min function.
#[test]
fn test_min_function() -> Result<(), Box<dyn Error>> {
    let context = SymbolTable::new();
    
    assert_eq!(evaluate("min(5, 10)", &context)?, 5.0);
    assert_eq!(evaluate("min(-5, 10)", &context)?, -5.0);
    
    Ok(())
}

/// Tests the max function.
#[test]
fn test_max_function() -> Result<(), Box<dyn Error>> {
    let context = SymbolTable::new();
    
    assert_eq!(evaluate("max(5, 10)", &context)?, 10.0);
    assert_eq!(evaluate("max(-5, 10)", &context)?, 10.0);
    
    Ok(())
}

/// Tests functions with expressions as arguments.
#[test]
fn test_functions_with_expressions() -> Result<(), Box<dyn Error>> {
    let context = SymbolTable::new();
    
    assert_eq!(evaluate("abs(5 - 10)", &context)?, 5.0);
    assert_eq!(evaluate("sqrt(3 * 3)", &context)?, 3.0);
    
    Ok(())
}

/// Tests using functions with variables.
#[test]
fn test_functions_with_variables() -> Result<(), Box<dyn Error>> {
    let mut context = SymbolTable::new();
    
    execute("let x = 9", &mut context)?;
    assert_eq!(evaluate("sqrt(x)", &context)?, 3.0);
    
    Ok(())
}

/// Tests the cotangent function
#[test]
fn test_cot_function() -> Result<(), Box<dyn Error>> {
    let context = SymbolTable::new();
    
    // Test cotangent of π/4 (should be 1.0)
    let result = evaluate("cot(3.14159 / 4)", &context)?;
    assert!((result - 1.0).abs() < 0.01);
    
    // Test that cot(x) = 1/tan(x)
    let tan_result = evaluate("tan(0.5)", &context)?;
    let cot_result = evaluate("cot(0.5)", &context)?;
    
    assert!((cot_result - 1.0/tan_result).abs() < 0.00001);
    
    Ok(())
}

/// Tests the secant function
#[test]
fn test_sec_function() -> Result<(), Box<dyn Error>> {
    let context = SymbolTable::new();
    
    // Test secant of 0 (should be 1.0)
    let result = evaluate("sec(0)", &context)?;
    assert!((result - 1.0).abs() < 0.01);
    
    // Test secant of π/3
    let result = evaluate("sec(3.14159 / 3)", &context)?;
    assert!((result - 2.0).abs() < 0.01);
    
    Ok(())
}

/// Tests the cosecant function
#[test]
fn test_csc_function() -> Result<(), Box<dyn Error>> {
    let context = SymbolTable::new();
    
    // Test cosecant of π/2 (should be 1.0)
    let result = evaluate("csc(3.14159 / 2)", &context)?;
    assert!((result - 1.0).abs() < 0.01);
    
    // Test cosecant of π/6
    let result = evaluate("csc(3.14159 / 6)", &context)?;
    assert!((result - 2.0).abs() < 0.01);
    
    Ok(())
}

/// Tests the inverse trigonometric functions
#[test]
fn test_inverse_trig_functions() -> Result<(), Box<dyn Error>> {
    let context = SymbolTable::new();
    
    // Test inverse sine
    let result = evaluate("asin(0)", &context)?;
    assert!((result - 0.0).abs() < 0.0001);
    
    // Test inverse cosine
    let result = evaluate("acos(1)", &context)?;
    assert!((result - 0.0).abs() < 0.0001);
    
    // Test inverse tangent
    let result = evaluate("atan(0)", &context)?;
    assert!((result - 0.0).abs() < 0.0001);
    
    Ok(())
}

/// Tests the atan2 function
#[test]
fn test_atan2_function() -> Result<(), Box<dyn Error>> {
    let context = SymbolTable::new();
    
    // Test atan2 of (0, 1) - should be 0.0
    let result = evaluate("atan2(0, 1)", &context)?;
    assert!((result - 0.0).abs() < 0.0001);
    
    // Test atan2 of (1, 0) - should be π/2
    let result = evaluate("atan2(1, 0)", &context)?;
    assert!((result - 1.5708).abs() < 0.01);
    
    // Test atan2 of (0, -1) - should be π
    let result = evaluate("atan2(0, -1)", &context)?;
    assert!((result - 3.1416).abs() < 0.01);
    
    // Test invalid number of arguments
    let result = evaluate("atan2(1)", &context);
    assert!(result.is_err());
    
    Ok(())
}

/// Tests complex numeric expressions with multiple operators.
#[test]
fn test_complex_numeric_expression() -> Result<(), Box<dyn Error>> {
    let context = SymbolTable::new();
    
    // This is a complex expression with multiple operators
    let result = evaluate("(2.5 + 3.75) * 4 - 5 / 2.5 + 10 % 3", &context)?;
    // (2.5 + 3.75) * 4 - 5 / 2.5 + 10 % 3 = 6.25 * 4 - 2 + 1 = 25 - 2 + 1 = 24
    assert!((result - 24.0).abs() < 0.001);
    
    Ok(())
}

/// Tests extremely deeply nested expressions.
#[test]
fn test_deeply_nested_expressions() -> Result<(), Box<dyn Error>> {
    let context = SymbolTable::new();
    
    // Deeply nested expression with multiple levels of parentheses
    let result = evaluate("((((1 + 2) * (3 - 1)) / 2) ^ 2) - 1", &context)?;
    // ((((1 + 2) * (3 - 1)) / 2) ^ 2) - 1 = (((3 * 2) / 2) ^ 2) - 1 = ((6 / 2) ^ 2) - 1 = (3 ^ 2) - 1 = 9 - 1 = 8
    assert_eq!(result, 8.0);
    
    Ok(())
}

/// Tests expressions with extreme values.
#[test]
fn test_extreme_values() -> Result<(), Box<dyn Error>> {
    let context = SymbolTable::new();
    
    // Very large number
    let result = evaluate("1000000 * 1000000", &context)?;
    assert_eq!(result, 1000000000000.0);
    
    // Very small number
    let result = evaluate("0.0000001 * 10000000", &context)?;
    assert!((result - 1.0).abs() < 0.001);
    
    Ok(())
}

/// Tests precedence edge cases.
#[test]
fn test_precedence_edge_cases() -> Result<(), Box<dyn Error>> {
    let context = SymbolTable::new();
    
    // Testing precedence edge cases
    let result = evaluate("2 + 3 * 4 ^ 2", &context)?;
    assert_eq!(result, 2.0 + 3.0 * 16.0); // 4^2 = 16, 3*16 = 48, 2+48 = 50
    
    let result = evaluate("10 - 2 - 3", &context)?;
    assert_eq!(result, 5.0); // Left to right: (10-2)-3 = 8-3 = 5
    
    Ok(())
}

/// Tests complex expressions with many variables.
#[test]
fn test_many_variables() -> Result<(), Box<dyn Error>> {
    let mut context = SymbolTable::new();
    execute("let a = 5; let b = 7; let c = 9", &mut context)?;
    
    assert_eq!(evaluate("a + b + c", &context)?, 21.0);
    assert_eq!(evaluate("a * b - c", &context)?, 26.0);
    
    Ok(())
}

/// Tests combinations of root and power operators.
#[test]
fn test_root_and_power_combinations() -> Result<(), Box<dyn Error>> {
    let context = SymbolTable::new();
    
    // Test power then root
    let result = evaluate("sqrt(4 ^ 2)", &context)?;
    assert_eq!(result, 4.0); // √(4²) = √16 = 4
    
    // Test root then power
    let result = evaluate("(sqrt(9)) ^ 2", &context)?;
    assert_eq!(result, 9.0); // (√9)² = 3² = 9
    
    Ok(())
}

/// Tests mixed numeric types in expressions.
#[test]
fn test_mixed_numeric_types() -> Result<(), Box<dyn Error>> {
    let context = SymbolTable::new();
    
    // Mix integers and floating point
    let result = evaluate("5 + 3.5", &context)?;
    assert_eq!(result, 8.5);
    
    // Mix hexadecimal, binary, and decimal
    let result = evaluate("0xFF + 0b1010 + 15.5", &context)?;
    assert_eq!(result, 255.0 + 10.0 + 15.5); // 255 + 10 + 15.5 = 280.5
    
    Ok(())
}

/// Tests variable shadowing in blocks.
#[test]
fn test_variable_shadowing() -> Result<(), Box<dyn Error>> {
    let mut context = SymbolTable::new();
    execute("let x = 10; { let x = 20; }", &mut context)?;
    
    // After the block, x should still be 10
    assert_eq!(value(&context, "x"), Some(10.0));
    
    Ok(())
}

/// Tests constant shadowing.
#[test]
fn test_constant_shadowing() -> Result<(), Box<dyn Error>> {
    let mut context = SymbolTable::new();
    
    // Create separate scopes for the constants
    execute("const x = 10;", &mut context)?;
    execute("{ const y = 20; }", &mut context)?;
    
    // The outer x should be defined, but y should not be accessible
    assert_eq!(value(&context, "x"), Some(10.0));
    assert!(value(&context, "y").is_none());
    
    Ok(())
}

/// Tests accessing outer scope variables from inner scope.
#[test]
fn test_outer_scope_access() -> Result<(), Box<dyn Error>> {
    let mut context = SymbolTable::new();
    execute("let x = 10; { let y = x + 5; }", &mut context)?;
    
    assert_eq!(value(&context, "x"), Some(10.0));
    // y is not in outer scope
    assert!(value(&context, "y").is_none());
    
    Ok(())
}

/// Tests modifying outer variables from inner scope.
#[test]
fn test_outer_variable_modification() -> Result<(), Box<dyn Error>> {
    let mut context = SymbolTable::new();
    
    // Define and modify x in a single code block
    execute("let x = 10; { x = 20; }", &mut context)?;
    
    // The modification should persist
    assert_eq!(value(&context, "x"), Some(20.0));
    
    Ok(())
}

/// Tests shadowing combined with reassignment.
#[test]
fn test_shadowing_with_reassignment() -> Result<(), Box<dyn Error>> {
    let mut context = SymbolTable::new();
    
    // Create outer variable
    execute("let x = 10", &mut context)?;
    
    // Create a temporary context for the inner scope
    let mut inner_context = context.new_scope();
    execute("let x = 20", &mut inner_context)?;
    execute("x = 30", &mut inner_context)?;
    
    // Outer x should be unchanged
    assert_eq!(value(&context, "x"), Some(10.0));
    
    Ok(())
}

/// Tests multi-level shadowing.
#[test]
fn test_multi_level_shadowing() -> Result<(), Box<dyn Error>> {
    let mut context = SymbolTable::new();
    execute("let x = 10; { let x = 20; { let x = 30; } }", &mut context)?;
    
    // Outer x should be unchanged
    assert_eq!(value(&context, "x"), Some(10.0));
    
    Ok(())
}

/// Tests shadowing in control structures.
#[test]
fn test_control_structure_shadowing() -> Result<(), Box<dyn Error>> {
    let mut context = SymbolTable::new();
    execute("let x = 10; if 1 { let x = 20; }", &mut context)?;
    
    // Outer x should be unchanged
    assert_eq!(value(&context, "x"), Some(10.0));
    
    Ok(())
}

/// Tests complex scope interactions.
#[test]
fn test_complex_scope_interactions() -> Result<(), Box<dyn Error>> {
    let mut context = SymbolTable::new();
    
    // Define variables and demonstrate scope effects in a single code block
    let code = r#"
        let a = 10;
        let b = 20;
        
        {
            let a = 30;
            b = b + a; // b = 20 + 30 = 50
            
            {
                let c = 5;
                a = a + c; // a = 30 + 5 = 35 (inner a)
            }
            
            // c is out of scope
            // a is still 35 (inner a)
        }
        
        // a is still 10 (outer a)
        // b is now 50
    "#;
    
    execute(code, &mut context)?;
    
    // Verify the results
    assert_eq!(value(&context, "a"), Some(10.0)); // a is still 10 (outer a)
    assert_eq!(value(&context, "b"), Some(50.0)); // b is now 50
    assert!(value(&context, "c").is_none()); // c is out of scope
    
    Ok(())
}

/// Tests predefined mathematical constants
#[test]
fn test_predefined_constants() -> Result<(), Box<dyn Error>> {
    let context = SymbolTable::new();
    
    // Test PI constant
    let result = evaluate("PI", &context)?;
    assert!((result - std::f32::consts::PI).abs() < 0.0001);
    
    // Test TAU constant (2π)
    let result = evaluate("TAU", &context)?;
    assert!((result - (std::f32::consts::PI * 2.0)).abs() < 0.0001);
    
    // Test E constant
    let result = evaluate("E", &context)?;
    assert!((result - std::f32::consts::E).abs() < 0.0001);
    
    // Test PHI constant (golden ratio)
    let result = evaluate("PHI", &context)?;
    assert!((result - 1.618033988749895).abs() < 0.0001);
    
    // Test SQRT2 constant
    let result = evaluate("SQRT2", &context)?;
    assert!((result - std::f32::consts::SQRT_2).abs() < 0.0001);
    
    // Test INFINITY constant
    let result = evaluate("INFINITY", &context)?;
    assert!(result.is_infinite() && result.is_sign_positive());
    
    // Test constants in expressions
    let result = evaluate("2 * PI", &context)?;
    assert!((result - (std::f32::consts::PI * 2.0)).abs() < 0.0001);
    
    Ok(())
}

/// Tests that global constants can be accessed even with an empty context.
#[test]
fn test_global_constants_access() -> Result<(), Box<dyn Error>> {
    let mut context = SymbolTable::new();
    
    // Constants should be available even with an empty context
    let result = evaluate("PI", &mut context)?;
    assert!((result - std::f32::consts::PI).abs() < 0.0001);
    
    let result = evaluate("E", &mut context)?;
    assert!((result - std::f32::consts::E).abs() < 0.0001);
    
    Ok(())
}

/// Tests that global constants are immutable.
#[test]
fn test_global_constants_immutable() -> Result<(), Box<dyn Error>> {
    let mut context = SymbolTable::new();
    
    // Try to modify a constant (should fail)
    let result = execute("PI = 3", &mut context);
    assert!(result.is_err());
    
    // But we can use them in expressions
    let result = evaluate("2 * PI", &mut context)?;
    assert!((result - 2.0 * std::f32::consts::PI).abs() < 0.0001);
    
    Ok(())
}

/// Tests basic usage of the end keyword
#[test]
fn test_end_keyword_basic() -> Result<(), Box<dyn Error>> {
    let mut context = SymbolTable::new();
    let code = "let x = 5; end x + 10;";
    
    let result = execute(code, &mut context)?;
    
    assert_eq!(result, Some(15.0)); // Should end with x + 10
    assert_eq!(value(&context, "x"), Some(5.0)); // x should be defined
    
    Ok(())
}

/// Tests that end keyword short-circuits execution
#[test]
fn test_end_short_circuit() -> Result<(), Box<dyn Error>> {
    let mut context = SymbolTable::new();
    let code = "let x = 5; end x * 3; let y = 10;";
    
    let result = execute(code, &mut context)?;
    
    assert_eq!(result, Some(15.0)); // Should end with x * 3
    assert_eq!(value(&context, "x"), Some(5.0)); // x should be defined
    assert!(value(&context, "y").is_none()); // y should not be defined since it's after end
    
    Ok(())
}

/// Tests the end keyword in nested blocks
#[test]
fn test_end_in_nested_blocks() -> Result<(), Box<dyn Error>> {
    let mut context = SymbolTable::new();
    let code = "let x = 5; { let y = 10; end x + y; let z = 15; }; let w = 20;";
    
    let result = execute(code, &mut context)?;
    
    assert_eq!(result, Some(15.0)); // Should end with x + y
    assert_eq!(value(&context, "x"), Some(5.0)); // x should be defined
    assert!(value(&context, "z").is_none()); // z should not be defined since it's after end
    assert!(value(&context, "w").is_none()); // w should not be defined since it's after end
    
    Ok(())
}

/// Tests the end keyword in conditional blocks
#[test]
fn test_end_in_conditionals() -> Result<(), Box<dyn Error>> {
    let mut context = SymbolTable::new();
    let code = "
        let x = 5; 
        if x > 3 { 
            let y = 10; 
            end x * y; 
            let z = 15; 
        } else { 
            end x; 
        }; 
        let w = 20;
    ";
    
    let result = execute(code, &mut context)?;
    
    assert_eq!(result, Some(50.0)); // Should end with x * y (5 * 10)
    assert_eq!(value(&context, "x"), Some(5.0)); // x should be defined
    assert!(value(&context, "z").is_none()); // z should not be defined since it's after end
    assert!(value(&context, "w").is_none()); // w should not be defined since it's after end
    
    Ok(())
}

/// Tests the end keyword in loops
#[test]
fn test_end_in_loops() -> Result<(), Box<dyn Error>> {
    let mut context = SymbolTable::new();
    
    // Test a loop with the end keyword
    let code = r#"
        let sum = 0;
        let i = 0;
        while i < 10 {
            sum = sum + i;
            i = i + 1;
            if i == 5 {
                end sum;
            }
        }
        // This should never be reached
        let final_value = 100;
    "#;
    
    let result = execute(code, &mut context)?;
    
    assert_eq!(result, Some(10.0)); // Sum of 0 + 1 + 2 + 3 + 4 = 10
    assert_eq!(value(&context, "i"), Some(5.0)); // i should be 5 when the program ends
    assert_eq!(value(&context, "sum"), Some(10.0)); // sum should be 10
    assert!(value(&context, "final_value").is_none()); // final_value should not be defined
    
    Ok(())
}

/// Tests that end with no expression returns None
#[test]
fn test_end_without_expression() -> Result<(), Box<dyn Error>> {
    let mut context = SymbolTable::new();
    let code = "let x = 5; end;";
    
    let result = execute(code, &mut context)?;
    
    assert_eq!(result, None); // end with no expression should return None
    assert_eq!(value(&context, "x"), Some(5.0)); // x should still be defined
    
    Ok(())
}

/// Tests that the return keyword produces an error outside functions
#[test]
fn test_return_produces_error() -> Result<(), Box<dyn Error>> {
    let mut context = SymbolTable::new();
    let code = "let x = 5; return x;";
    
    let result = execute(code, &mut context);
    
    assert!(result.is_err()); // return should produce an error
    assert!(result.unwrap_err().to_string().contains("Use 'end' instead")); // Error message should mention using 'end'
    
    Ok(())
}

/// Tests basic function declaration and calling.
#[test]
fn test_function_declaration_and_call() -> Result<(), Box<dyn Error>> {
    let mut context = SymbolTable::new();
    
    let code = r#"
        fn add(a, b) {
            a + b
        }
        
        add(3, 4)
    "#;
    
    let result = execute(code, &mut context)?;
    assert_eq!(result, Some(7.0));
    
    Ok(())
}

/// Tests function with return statement.
#[test]
fn test_function_with_return() -> Result<(), Box<dyn Error>> {
    let mut context = SymbolTable::new();
    
    let code = r#"
        fn calculate(x) {
            let result = x * 2;
            if result > 10 {
                return result + 5;
            }
            result
        }
        
        let a = calculate(3);
        let b = calculate(6);
        a + b
    "#;
    
    let result = execute(code, &mut context)?;
    assert_eq!(result, Some(23.0));  // 6 + 17 = 23
    assert_eq!(value(&context, "a"), Some(6.0));  // 3 * 2 = 6
    assert_eq!(value(&context, "b"), Some(17.0)); // (6 * 2 = 12) > 10, so 12 + 5 = 17
    
    Ok(())
}

/// Tests recursive function calls.
#[test]
fn test_recursive_function() -> Result<(), Box<dyn Error>> {
    let mut context = SymbolTable::new();
    
    let code = r#"
        fn factorial(n) {
            if n <= 1 {
                return 1;
            }
            n * factorial(n - 1)
        }
        
        factorial(5)
    "#;
    
    let result = execute(code, &mut context)?;
    assert_eq!(result, Some(120.0));  // 5! = 5 * 4 * 3 * 2 * 1 = 120
    
    Ok(())
}

/// Tests functions with variables from outer scope.
#[test]
fn test_function_with_outer_variables() -> Result<(), Box<dyn Error>> {
    let mut context = SymbolTable::new();
    
    let code = r#"
        let multiplier = 10;
        
        fn apply_multiplier(x) {
            x * multiplier
        }
        
        apply_multiplier(5)
    "#;
    
    let result = execute(code, &mut context)?;
    assert_eq!(result, Some(50.0));  // 5 * 10 = 50
    
    Ok(())
}

/// Tests basic procedure declaration and calling.
#[test]
fn test_procedure_declaration_and_call() -> Result<(), Box<dyn Error>> {
    let mut context = SymbolTable::new();
    
    let code = r#"
        proc initialize(a, b) {
            let sum = a + b;
            let product = a * b;
        }
        
        initialize(3, 4);
        let x = 0;
    "#;
    
    let result = execute(code, &mut context)?;
    assert_eq!(result, Some(0.0));  // Last statement (let x = 0)
    
    // Variables defined in procedure stay in the procedure's scope
    assert!(value(&context, "sum").is_none());
    assert!(value(&context, "product").is_none());
    
    Ok(())
}

/// Tests error handling for functions and procedures.
#[test]
fn test_function_procedure_errors() -> Result<(), Box<dyn Error>> {
    let mut context = SymbolTable::new();
    
    // Test function not found
    let code = "missing_function(5)";
    let result = execute(code, &mut context);
    assert!(result.is_err());
    
    // Test procedure not found
    let code = "missing_procedure(5)";
    let result = execute(code, &mut context);
    assert!(result.is_err());
    
    // Test wrong argument count for function
    let code = r#"
        fn add(a, b) {
            a + b
        }
        add(1)
    "#;
    let result = execute(code, &mut context);
    assert!(result.is_err());
    
    // Test wrong argument count for procedure
    let code = r#"
        proc set_value(a, b) {
            let result = a + b;
        }
        set_value(1, 2, 3)
    "#;
    let result = execute(code, &mut context);
    assert!(result.is_err());
    
    Ok(())
}

/// Tests both functions and procedures together.
#[test]
fn test_both_functions_and_procedures() -> Result<(), Box<dyn Error>> {
    let mut context = SymbolTable::new();
    
    let code = r#"
        proc add_and_print(a, b) {
            let sum = a + b;
        }
        
        fn multiply(a, b) {
            a * b
        }
        
        add_and_print(3, 4);
        
        multiply(5, 5)
    "#;
    
    let result = execute(code, &mut context)?;
    
    assert_eq!(result, Some(25.0));
    
    Ok(())
}
