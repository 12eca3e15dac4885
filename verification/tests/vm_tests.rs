use cnone::ir::types::Type;
use cnone::ir::value::Value;
use cnone::vm::stack::OperationStack;
use cnone::vm::variables::VariablesSlotTable;

#[test]
fn test_operation_stack() {
    let mut stack = OperationStack::new();
    let mut l = Value::new(Type::CHAR);
    l.set_value(66, None, None);
    let mut r = Value::new(Type::FLOAT);
    r.set_value(88, Some(7011), Some(4));
    stack.push(l);
    stack.push(r);
    println!("{}", stack.to_display_string());
    stack.add();
    println!("{}", stack.to_display_string());
}

#[test]
fn test_variable_slot_table() {
    let mut stack = OperationStack::default();
    let mut table = VariablesSlotTable::new();
    // init
    let mut i = Value::new(Type::INT);
    i.set_value(0, None, None);
    let mut max = Value::new(Type::INT);
    max.set_value(10, None, None);

    table.set_variable(0, i);
    table.set_variable(1, max);

    table.load(&mut stack, 0);
    table.load(&mut stack, 1);
    stack.gt();
    println!("{}\n{:#?}", stack.to_display_string(), table);
}

#[test]
fn load_after_store_gives_back_the_stack() {
    let mut stack = OperationStack::new();
    let mut table = VariablesSlotTable::new();
    let mut a = Value::new(Type::INT);
    a.set_value(3, None, None);
    let mut b = Value::new(Type::CHAR);
    b.set_value(90, None, None);
    stack.push(a);
    stack.push(b);
    table.store(&mut stack, 4);
    assert_eq!(stack.stack, vec![a]);
    let back = table.load(&mut stack, 4);
    assert_eq!(back, b);
    assert_eq!(stack.stack, vec![a, b]);
}

#[test]
fn store_from_an_empty_stack_stores_zero() {
    let mut stack = OperationStack::new();
    let mut table = VariablesSlotTable::new();
    table.store(&mut stack, 0);
    assert_eq!(table.get_variable(0), Value::new(Type::INT));
}

#[test]
fn pop_after_push_and_clear() {
    let mut stack = OperationStack::default();
    let mut v = Value::new(Type::INT);
    v.set_value(12, None, None);
    stack.push(v);
    assert_eq!(stack.pop(), v);
    assert!(stack.stack.is_empty());
    assert_eq!(stack.pop(), Value::default());
    stack.push(v);
    stack.push(v);
    stack.clear();
    assert!(stack.stack.is_empty());
}

#[test]
fn stack_arithmetic_and_comparison() {
    let mut stack = OperationStack::new();
    let mut a = Value::new(Type::INT);
    a.set_value(9, None, None);
    let mut b = Value::new(Type::INT);
    b.set_value(4, None, None);
    stack.push(a);
    stack.push(b);
    stack.sub();
    assert_eq!(stack.stack, vec![Value { typ: Type::INT, content: 5, extend: None, length: None }]);
    stack.push(b);
    stack.add();
    assert_eq!(stack.stack[0].content, 9);
    stack.push(b);
    stack.gt();
    assert_eq!(stack.to_display_string(), "[1, ]");
}

#[test]
fn stack_adds_up_to_the_largest_content() {
    let mut stack = OperationStack::new();
    let mut a = Value::new(Type::INT);
    a.set_value(i128::MAX - 5, None, None);
    let mut b = Value::new(Type::INT);
    b.set_value(5, None, None);
    stack.push(a);
    stack.push(b);
    stack.add();
    assert_eq!(stack.stack[0].content, i128::MAX);
}

#[test]
fn a_slot_keeps_its_value_through_calls_on_other_slots() {
    let mut stack = OperationStack::new();
    let mut table = VariablesSlotTable::new();
    let mut a = Value::new(Type::INT);
    a.set_value(7, None, None);
    let mut b = Value::new(Type::CHAR);
    b.set_value(66, None, None);
    table.set_variable(0, a);
    table.set_variable(1, b);
    table.load(&mut stack, 1);
    table.store(&mut stack, 2);
    assert_eq!(table.get_variable(0), a);
    assert_eq!(table.get_variable(2), b);
}
