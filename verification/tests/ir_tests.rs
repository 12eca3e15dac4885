use cnone::ast;
use cnone::ir::types::Type;
use cnone::ir::value::Value;

#[test]
fn test_ir_type_from() {
    let typ = ast::Type::Double;
    assert_eq!(Type::from(typ), Type::FLOAT);
}

#[test]
fn test_value_operations() {
    let mut m = Value::new(Type::FLOAT);
    let mut n = Value::new(Type::FLOAT);
    m.set_value(10, Some(9), None);
    n.set_value(8, Some(9), None);

    // addition, with a carry out of the fraction
    let x = m + n;
    assert_eq!(x, Value { typ: Type::FLOAT, content: 19, extend: Some(8), length: Some(1) });
    // subtraction, with no borrow
    let y = m - n;
    assert_eq!(y, Value { typ: Type::FLOAT, content: 2, extend: Some(0), length: Some(1) });
}

use cnone::ast::expr::Expr;
use cnone::ir::function_label::FunctionLabel;
use cnone::ir::instructions::Instruction;
use cnone::ir::type_::IRType;
use cnone::ir::type_mapping::type_mapping;

#[test]
fn source_types_map_to_machine_types() {
    assert_eq!(Type::from(ast::Type::Char), Type::CHAR);
    assert_eq!(Type::from(ast::Type::Float), Type::FLOAT);
    assert_eq!(Type::from(ast::Type::Long), Type::INT);
    assert_eq!(Type::from(ast::Type::Void), Type::INT);
    assert_eq!(type_mapping(&ast::Type::Char), IRType::CHAR);
    assert_eq!(type_mapping(&ast::Type::Double), IRType::FLOAT);
    assert_eq!(type_mapping(&ast::Type::Short), IRType::INT);
    assert_eq!(type_mapping(&ast::Type::Pointer(Box::new(ast::Type::Char))), IRType::INT);
    assert_eq!(type_mapping(&ast::Type::Unsigned), IRType::UINT);
    assert_eq!(type_mapping(&ast::Type::Noreturn), IRType::UINT);
}

#[test]
fn values_start_at_zero() {
    assert_eq!(Value::new(Type::INT), Value { typ: Type::INT, content: 0, extend: None, length: None });
    assert_eq!(
        Value::new(Type::FLOAT),
        Value { typ: Type::FLOAT, content: 0, extend: Some(0), length: Some(1) }
    );
    assert_eq!(Value::default(), Value::new(Type::INT));
    assert_eq!(Value::from(Type::FLOAT), Value { typ: Type::FLOAT, content: 0, extend: Some(0), length: Some(0) });
}

#[test]
fn set_type_and_set_value() {
    let mut v = Value::new(Type::INT);
    v.set_value(7, None, None);
    v.set_type(Type::FLOAT);
    assert_eq!(v, Value { typ: Type::FLOAT, content: 7, extend: None, length: Some(0) });
    v.set_value(7, Some(25), None);
    assert_eq!(v, Value { typ: Type::FLOAT, content: 7, extend: Some(25), length: Some(0) });
    assert_eq!(v.get_type(), Type::FLOAT);
}

#[test]
fn values_are_written_out() {
    let mut c = Value::new(Type::CHAR);
    c.set_value(65, None, None);
    assert_eq!(c.to_display_string(), "A");
    let mut i = Value::new(Type::INT);
    i.set_value(-42, None, None);
    assert_eq!(i.to_display_string(), "-42");
    let mut f = Value::new(Type::FLOAT);
    f.set_value(3, Some(5), Some(3));
    assert_eq!(f.to_display_string(), "3.005");
}

#[test]
fn mixed_arithmetic() {
    let mut c = Value::new(Type::CHAR);
    c.set_value(66, None, None);
    let mut i = Value::new(Type::INT);
    i.set_value(4, None, None);
    assert_eq!(c + i, Value { typ: Type::INT, content: 70, extend: None, length: None });
    let mut f = Value::new(Type::FLOAT);
    f.set_value(1, Some(2), Some(1));
    assert_eq!(i + f, Value { typ: Type::FLOAT, content: 5, extend: Some(2), length: Some(1) });
    let mut a = Value::new(Type::FLOAT);
    a.set_value(3, Some(1), Some(1));
    let mut b = Value::new(Type::FLOAT);
    b.set_value(1, Some(4), Some(1));
    // the fraction borrows: 3.1 - 1.4 is computed as 3 - 1 + 1 with 11 - 4 = 7
    assert_eq!(a - b, Value { typ: Type::FLOAT, content: 3, extend: Some(7), length: Some(1) });
}

#[test]
fn subtracting_what_was_added_gives_it_back() {
    let mut a = Value::new(Type::INT);
    a.set_value(-17, None, None);
    let mut b = Value::new(Type::CHAR);
    b.set_value(99, None, None);
    assert_eq!((a + b) - b, a);
}

#[test]
fn a_label_takes_the_name_of_its_marker() {
    let code = vec![Instruction::PUSH(Value::new(Type::INT)), Instruction::_FUNCTION_LABEL__("loop".to_string())];
    let label = FunctionLabel::new(1, code, "ignored".to_string());
    assert_eq!(label.get_index(), 1);
    assert!(format!("{:?}", label).contains("name: \"loop\""));
}

#[test]
fn expression_text_and_type() {
    assert_eq!(Expr::Char('x').to_string(), "x");
    assert_eq!(Expr::Integer(-5).to_string(), "-5");
    assert_eq!(Expr::Float("2.5".to_string()).to_string(), "2.5");
    assert_eq!(Expr::Identifier("a".to_string()).to_string(), "#");
    assert_eq!(Expr::Char('x').get_type_of(), ast::Type::Char);
    assert_eq!(Expr::Float("2.5".to_string()).get_type_of(), ast::Type::Float);
    assert_eq!(Expr::Integer(1).get_type_of(), ast::Type::Int);
    assert_eq!(Expr::Identifier("a".to_string()).get_type_of(), ast::Type::Void);
}

#[test]
fn integers_may_add_up_to_the_largest_content() {
    let mut a = Value::new(Type::INT);
    a.set_value(i128::MAX - 1, None, None);
    let mut b = Value::new(Type::INT);
    b.set_value(1, None, None);
    assert_eq!((a + b).content, i128::MAX);
    let mut c = Value::new(Type::INT);
    c.set_value(i128::MAX, None, None);
    let mut z = Value::new(Type::INT);
    z.set_value(0, None, None);
    assert_eq!((c - z).content, i128::MAX);
}

#[test]
fn the_type_is_the_last_one_set() {
    let mut v = Value::new(Type::INT);
    v.set_value(3, None, None);
    v.set_type(Type::CHAR);
    v.set_value(65, None, None);
    assert_eq!(v.get_type(), Type::CHAR);
    v.set_type(Type::FLOAT);
    v.set_value(1, Some(2), None);
    assert_eq!(v.get_type(), Type::FLOAT);
}

#[test]
fn one_digit_floats_add_as_tenths() {
    let mut a = Value::new(Type::FLOAT);
    a.set_value(1, Some(5), Some(1));
    let mut b = Value::new(Type::FLOAT);
    b.set_value(2, Some(7), Some(1));
    assert_eq!(a + b, Value { typ: Type::FLOAT, content: 4, extend: Some(2), length: Some(1) });
}
