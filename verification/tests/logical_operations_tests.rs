use ppaaeedb::{Arithmetic, BinaryFunction, Number, SymbolTable, UnaryFunction};
use rand::Rng;
use std::error::Error;

/// Single-precision arithmetic of the machine.
struct Machine;

fn num(n: Number) -> f32 {
    f32::from_bits(n.bits)
}

fn number(x: f32) -> Number {
    Number { bits: x.to_bits() }
}

impl Arithmetic for Machine {
    fn parse_decimal(&self, text: &str) -> Option<Number> {
        text.parse::<f32>().ok().map(number)
    }

    fn from_integer(&self, value: u32) -> Number {
        number(value as f32)
    }

    fn unary(&self, function: UnaryFunction, x: Number) -> Number {
        let x = num(x);
        number(match function {
            UnaryFunction::Sin => x.sin(),
            UnaryFunction::Cos => x.cos(),
            UnaryFunction::Tan => x.tan(),
            UnaryFunction::Asin => x.asin(),
            UnaryFunction::Acos => x.acos(),
            UnaryFunction::Atan => x.atan(),
            UnaryFunction::Ln => x.ln(),
            UnaryFunction::Sqrt => x.sqrt(),
        })
    }

    fn binary(&self, function: BinaryFunction, x: Number, y: Number) -> Number {
        let (x, y) = (num(x), num(y));
        number(match function {
            BinaryFunction::Add => x + y,
            BinaryFunction::Sub => x - y,
            BinaryFunction::Mul => x * y,
            BinaryFunction::Div => x / y,
            BinaryFunction::Rem => x % y,
            BinaryFunction::Pow => x.powf(y),
            BinaryFunction::Atan2 => x.atan2(y),
            BinaryFunction::Max => x.max(y),
            BinaryFunction::Min => x.min(y),
        })
    }

    fn random(&self) -> Number {
        number(rand::thread_rng().gen::<f32>())
    }

    fn random_between(&self, low: Number, high: Number) -> Number {
        number(rand::thread_rng().gen_range(num(low)..num(high)))
    }
}

#[allow(dead_code)]
fn evaluate(input: &str, context: &SymbolTable) -> Result<f32, Box<dyn Error>> {
    match ppaaeedb::evaluate(input, context, &Machine) {
        Ok(v) => Ok(num(v)),
        Err(e) => Err(e.to_string().into()),
    }
}

#[allow(dead_code)]
fn execute(input: &str, context: &mut SymbolTable) -> Result<Option<f32>, Box<dyn Error>> {
    match ppaaeedb::execute(input, context, &Machine) {
        Ok(v) => Ok(v.map(num)),
        Err(e) => Err(e.to_string().into()),
    }
}

#[allow(dead_code)]
fn value(context: &SymbolTable, name: &str) -> Option<f32> {
    context.get(name).map(num)
}

/// Tests basic AND, OR operations
#[test]
fn logical_operations_tests_test_basic_logical_operators() -> Result<(), Box<dyn Error>> {
    let mut context = SymbolTable::new();
    
    // Test AND operator
    assert_eq!(evaluate("1 && 1", &mut context)?, 1.0); // true AND true = true
    assert_eq!(evaluate("1 && 0", &mut context)?, 0.0); // true AND false = false
    assert_eq!(evaluate("0 && 1", &mut context)?, 0.0); // false AND true = false
    assert_eq!(evaluate("0 && 0", &mut context)?, 0.0); // false AND false = false
    
    // Test OR operator
    assert_eq!(evaluate("1 || 1", &mut context)?, 1.0); // true OR true = true
    assert_eq!(evaluate("1 || 0", &mut context)?, 1.0); // true OR false = true
    assert_eq!(evaluate("0 || 1", &mut context)?, 1.0); // false OR true = true
    assert_eq!(evaluate("0 || 0", &mut context)?, 0.0); // false OR false = false
    
    Ok(())
}

/// Tests XOR, XNOR operations
#[test]
fn logical_operations_tests_test_xor_operations() -> Result<(), Box<dyn Error>> {
    let mut context = SymbolTable::new();
    
    // Test XOR operator
    assert_eq!(evaluate("1 ^^ 1", &mut context)?, 0.0); // true XOR true = false
    assert_eq!(evaluate("1 ^^ 0", &mut context)?, 1.0); // true XOR false = true
    assert_eq!(evaluate("0 ^^ 1", &mut context)?, 1.0); // false XOR true = true
    assert_eq!(evaluate("0 ^^ 0", &mut context)?, 0.0); // false XOR false = false
    
    // Test XNOR operator
    assert_eq!(evaluate("1 !^ 1", &mut context)?, 1.0); // true XNOR true = true
    assert_eq!(evaluate("1 !^ 0", &mut context)?, 0.0); // true XNOR false = false
    assert_eq!(evaluate("0 !^ 1", &mut context)?, 0.0); // false XNOR true = false
    assert_eq!(evaluate("0 !^ 0", &mut context)?, 1.0); // false XNOR false = true
    
    Ok(())
}

/// Tests NAND, NOR operations
#[test]
fn logical_operations_tests_test_nand_nor_operations() -> Result<(), Box<dyn Error>> {
    let mut context = SymbolTable::new();
    
    // Test NAND operator
    assert_eq!(evaluate("1 !& 1", &mut context)?, 0.0); // true NAND true = false
    assert_eq!(evaluate("1 !& 0", &mut context)?, 1.0); // true NAND false = true
    assert_eq!(evaluate("0 !& 1", &mut context)?, 1.0); // false NAND true = true
    assert_eq!(evaluate("0 !& 0", &mut context)?, 1.0); // false NAND false = true
    
    // Test NOR operator
    assert_eq!(evaluate("1 !| 1", &mut context)?, 0.0); // true NOR true = false
    assert_eq!(evaluate("1 !| 0", &mut context)?, 0.0); // true NOR false = false
    assert_eq!(evaluate("0 !| 1", &mut context)?, 0.0); // false NOR true = false
    assert_eq!(evaluate("0 !| 0", &mut context)?, 1.0); // false NOR false = true
    
    Ok(())
}

/// Tests NOT operation and logical operator precedence
#[test]
fn logical_operations_tests_test_not_and_precedence() -> Result<(), Box<dyn Error>> {
    let mut context = SymbolTable::new();
    
    // Test NOT operator
    assert_eq!(evaluate("!1", &mut context)?, 0.0); // NOT true = false
    assert_eq!(evaluate("!0", &mut context)?, 1.0); // NOT false = true
    
    // Test precedence
    assert_eq!(evaluate("!0 && 1", &mut context)?, 1.0); // (NOT false) AND true = true
    assert_eq!(evaluate("!(0 && 1)", &mut context)?, 1.0); // NOT (false AND true) = true
    assert_eq!(evaluate("1 || 0 && 1", &mut context)?, 1.0); // true OR (false AND true) = true
    
    Ok(())
}

/// Tests using true and false keywords
#[test]
fn logical_operations_tests_test_true_false_keywords() -> Result<(), Box<dyn Error>> {
    let mut context = SymbolTable::new();
    
    // Test basic true/false
    assert_eq!(evaluate("true", &mut context)?, 1.0);
    assert_eq!(evaluate("false", &mut context)?, 0.0);
    
    // Test with operators
    assert_eq!(evaluate("true && false", &mut context)?, 0.0);
    assert_eq!(evaluate("true || false", &mut context)?, 1.0);
    assert_eq!(evaluate("!true", &mut context)?, 0.0);
    assert_eq!(evaluate("!false", &mut context)?, 1.0);
    
    // Test in expressions
    assert_eq!(evaluate("true && (5 > 3)", &mut context)?, 1.0);
    assert_eq!(evaluate("false || (5 < 3)", &mut context)?, 0.0);
    
    Ok(())
}

/// Tests logical operators in program flow
#[test]
fn logical_operations_tests_test_logical_ops_in_program_flow() -> Result<(), Box<dyn Error>> {
    let mut context = SymbolTable::new();
    
    // Test AND in if statement
    let code = r#"
        let x = 0;
        if true && (5 > 3) {
            x = 1;
        } else {
            x = 2;
        }
    "#;
    execute(code, &mut context)?;
    assert_eq!(value(&context, "x"), Some(1.0));
    
    // Test OR in if statement
    let code = r#"
        let x = 0;
        if false || (5 > 3) {
            x = 1;
        } else {
            x = 2;
        }
    "#;
    execute(code, &mut context)?;
    assert_eq!(value(&context, "x"), Some(1.0));
    
    // Test complex logical expressions
    let code = r#"
        let x = 0;
        if (true && !false) || (false && true) {
            x = 1;
        } else {
            x = 2;
        }
    "#;
    execute(code, &mut context)?;
    assert_eq!(value(&context, "x"), Some(1.0));
    
    Ok(())
}
