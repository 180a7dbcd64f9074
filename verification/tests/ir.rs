use ivm::compile::Compile;
use ivm::ir::{
    CompileOptions, Error, Function, NameTable, Number, Program, Value, ValueType, Variable,
};
use ivm::options::{MemoryPointerLength, ProgramOptions};
use std::str::FromStr;

#[test]
fn value_types_by_name() {
    let names = [
        ("i128", ValueType::I128),
        ("i64", ValueType::I64),
        ("i32", ValueType::I32),
        ("i16", ValueType::I16),
        ("i8", ValueType::I8),
        ("u8", ValueType::U8),
        ("u16", ValueType::U16),
        ("u32", ValueType::U32),
        ("u64", ValueType::U64),
        ("u128", ValueType::U128),
        ("string", ValueType::String),
    ];
    for (name, value_type) in names {
        assert_eq!(ValueType::from_str(name), Ok(value_type));
        assert_eq!(ValueType::named(name), Some(value_type));
    }
    assert_eq!(ValueType::from_str("String"), Err(()));
    assert_eq!(ValueType::from_str(""), Err(()));
    assert_eq!(ValueType::from_str("i256"), Err(()));
    assert_eq!(ValueType::named("int"), None);
}

#[test]
fn narrow_numbers_are_read_wide() {
    assert_eq!(ValueType::I32.read_as(), ValueType::I64);
    assert_eq!(ValueType::I16.read_as(), ValueType::I64);
    assert_eq!(ValueType::I8.read_as(), ValueType::I64);
    assert_eq!(ValueType::U128.read_as(), ValueType::U64);
    for same in [
        ValueType::I128,
        ValueType::I64,
        ValueType::U8,
        ValueType::U16,
        ValueType::U32,
        ValueType::U64,
        ValueType::String,
    ] {
        assert_eq!(same.read_as(), same);
    }
}

#[test]
fn a_number_keeps_its_width_as_a_value() {
    assert!(matches!(Value::from_number(Number::I128(-1)), Value::I128(-1)));
    assert!(matches!(Value::from_number(Number::I64(i64::MIN)), Value::I64(i64::MIN)));
    assert!(matches!(Value::from_number(Number::U64(7)), Value::U64(7)));
    assert!(matches!(Value::from_number(Number::U32(7)), Value::U32(7)));
    assert!(matches!(Value::from_number(Number::U16(7)), Value::U16(7)));
    assert!(matches!(Value::from_number(Number::U8(7)), Value::U8(7)));
}

#[test]
fn numbers_are_read_from_text() {
    assert!(matches!(Value::try_from("-5", &ValueType::I128), Ok(Value::I128(-5))));
    assert!(matches!(Value::try_from("17", &ValueType::I64), Ok(Value::I64(17))));
    assert!(matches!(Value::try_from("3000000000", &ValueType::I32), Ok(Value::I64(3000000000))));
    assert!(matches!(Value::try_from("-7", &ValueType::I16), Ok(Value::I64(-7))));
    assert!(matches!(Value::try_from("300", &ValueType::I8), Ok(Value::I64(300))));
    assert!(matches!(Value::try_from("255", &ValueType::U8), Ok(Value::U8(255))));
    assert!(matches!(Value::try_from("65535", &ValueType::U16), Ok(Value::U16(65535))));
    assert!(matches!(Value::try_from("+9", &ValueType::U32), Ok(Value::U32(9))));
    assert!(matches!(
        Value::try_from("18446744073709551615", &ValueType::U64),
        Ok(Value::U64(u64::MAX))
    ));
    assert!(matches!(Value::try_from("12", &ValueType::U128), Ok(Value::U64(12))));
}

#[test]
fn text_that_is_no_number_gives_the_reason() {
    let reason = |data: &str, bound: ValueType| match Value::try_from(data, &bound) {
        Ok(value) => panic!("{:?}", value),
        Err(reason) => reason,
    };
    assert_eq!(reason("", ValueType::I64), "cannot parse integer from empty string");
    assert_eq!(reason("12a", ValueType::I128), "invalid digit found in string");
    assert_eq!(reason("256", ValueType::U8), "number too large to fit in target type");
    assert_eq!(reason("-1", ValueType::U16), "invalid digit found in string");
    assert_eq!(reason("4294967296", ValueType::U32), "number too large to fit in target type");
    assert_eq!(
        reason("18446744073709551616", ValueType::U128),
        "number too large to fit in target type"
    );
    assert_eq!(
        reason("-9223372036854775809", ValueType::I8),
        "number too small to fit in target type"
    );
    assert_eq!(reason(" 1", ValueType::U64), "invalid digit found in string");
}

#[test]
fn any_text_is_a_string() {
    for text in ["", "12", "Hi", "\"quoted\"", "gr\u{fc}n"] {
        match Value::try_from(text, &ValueType::String) {
            Ok(Value::String(value)) => assert_eq!(value, text),
            other => panic!("{:?}", other),
        }
    }
}

#[test]
fn sizes_of_values() {
    assert_eq!(Value::I128(0).get_size(), 16);
    assert_eq!(Value::I64(0).get_size(), 8);
    assert_eq!(Value::I32(0).get_size(), 4);
    assert_eq!(Value::I16(0).get_size(), 2);
    assert_eq!(Value::I8(0).get_size(), 1);
    assert_eq!(Value::U8(0).get_size(), 1);
    assert_eq!(Value::U16(0).get_size(), 2);
    assert_eq!(Value::U32(0).get_size(), 4);
    assert_eq!(Value::U64(0).get_size(), 8);
    assert_eq!(Value::U128(0).get_size(), 16);
    assert_eq!(Value::String(String::new()).get_size(), 0);
    assert_eq!(Value::String("Hi".to_string()).get_size(), 2);
    assert_eq!(Value::String("gr\u{fc}n".to_string()).get_size(), 5);
}

#[test]
fn variable_keeps_value_and_type() {
    let variable = Variable::new(Value::U8(7), ValueType::U8);
    assert!(matches!(variable.value(), Value::U8(7)));
    assert_eq!(*variable.type_bound(), ValueType::U8);
}

#[test]
fn compile_options_keep_the_reserve() {
    assert_eq!(CompileOptions::new(12).initial_reserve(), 12);
    assert_eq!(CompileOptions::default().initial_reserve(), 0);
}

#[test]
fn name_table_exchanges_the_value_of_a_known_name() {
    let mut table: NameTable<u32> = NameTable::new();
    assert_eq!(table.len(), 0);
    assert_eq!(table.insert("a".to_string(), 1), None);
    assert_eq!(table.insert("b".to_string(), 2), None);
    assert_eq!(table.insert("a".to_string(), 3), Some(1));
    assert_eq!(table.insert("a".to_string(), 4), Some(3));
    assert_eq!(table.len(), 2);
    assert_eq!(*table.value_at(0), 4);
    assert_eq!(*table.value_at(1), 2);
    assert_eq!(table.insert(String::new(), 5), None);
    assert_eq!(table.len(), 3);
    assert_eq!(*table.value_at(2), 5);
}

#[test]
fn function_hands_back_the_type_declared_before() {
    let mut function = Function::default();
    assert_eq!(function.insert_param("x".to_string(), ValueType::U8), None);
    assert_eq!(function.insert_param("y".to_string(), ValueType::String), None);
    assert_eq!(function.insert_param("x".to_string(), ValueType::I64), Some(ValueType::U8));
    assert_eq!(function.insert_param("x".to_string(), ValueType::I8), Some(ValueType::I64));
    let mut params = NameTable::new();
    params.insert("p".to_string(), ValueType::U16);
    let mut function = Function::new(params);
    assert_eq!(function.insert_param("p".to_string(), ValueType::U32), Some(ValueType::U16));
}

#[test]
fn program_hands_back_what_was_declared_before() {
    let mut program = Program::default();
    assert!(program
        .insert_static_var("helloWorld".to_string(), Variable::new(Value::U8(1), ValueType::U8))
        .is_none());
    let previous = program.insert_static_var(
        "helloWorld".to_string(),
        Variable::new(Value::U8(2), ValueType::U8),
    );
    match previous {
        Some(variable) => assert!(matches!(variable.value(), Value::U8(1))),
        None => panic!("the first declaration was lost"),
    }
    assert!(program.insert_function("main".to_string(), Function::default()).is_none());
    assert!(program.insert_function("main".to_string(), Function::default()).is_some());
    assert!(program.insert_function("helloWorld".to_string(), Function::default()).is_none());
}

#[test]
fn the_default_program_reserves_nothing() {
    assert_eq!(Program::default().calculate_reserve(), 0);
}

#[test]
fn reserve_is_the_size_of_all_static_variables() {
    let mut program = Program::default();
    assert_eq!(program.calculate_reserve(), 0);
    program.insert_static_var(
        "a".to_string(),
        Variable::new(Value::String("Hi".to_string()), ValueType::String),
    );
    program.insert_static_var("b".to_string(), Variable::new(Value::I128(1), ValueType::I128));
    program.insert_static_var("c".to_string(), Variable::new(Value::U16(1), ValueType::U16));
    assert_eq!(program.calculate_reserve(), 2 + 16 + 2);
    // A second declaration takes the place of the first.
    program.insert_static_var("b".to_string(), Variable::new(Value::U8(1), ValueType::U8));
    assert_eq!(program.calculate_reserve(), 2 + 1 + 2);
}

#[test]
fn program_is_written_as_its_options() {
    let options = ProgramOptions::new(1, MemoryPointerLength::X64b);
    let program = Program::new(NameTable::new(), NameTable::new(), options);
    assert_eq!(program.compile(&ProgramOptions::default()), vec![1, 0, 0, 0, 1]);
    assert_eq!(Program::default().compile(&options), vec![1, 0, 0, 0, 0]);
}

#[test]
fn error_reads_as_two_lines() {
    let error = Error::from("failed to parse input", "line 3: unexpected token");
    assert_eq!(error.to_string(), "ivm-ir: failed to parse input\nline 3: unexpected token");
}
