//! Tests of the native functions called directly, one per condition they
//! can raise, with the arguments bound the way the machine binds them.

use minilisp::datastructure::{Cons, EnvItem, Item};
use minilisp::stdlib::error::EvalErrorCode;
use minilisp::stdlib::{def, math, quote, types};
use minilisp::vm::Machine;

fn machine_with(bindings: Vec<(&str, EnvItem)>) -> Machine {
    let mut machine = Machine::default();
    for (name, value) in bindings.into_iter() {
        machine.define(name, value).unwrap();
    }
    machine
}

#[test]
fn addition_reads_the_variadic_binding() {
    let mut machine = machine_with(vec![(
        "args",
        EnvItem::VariableBinding(vec![
            EnvItem::Data(Item::Number(1)),
            EnvItem::Data(Item::Number(2)),
            EnvItem::Data(Item::Number(3)),
        ]),
    )]);
    assert_eq!(
        math::addition(&mut machine).unwrap(),
        EnvItem::Data(Item::Number(6))
    );
}

#[test]
fn addition_without_a_binding_wraps_the_machine_fault() {
    let mut machine = Machine::default();
    let err = math::addition(&mut machine).unwrap_err();
    assert_eq!(err.code, EvalErrorCode::E0011);
}

#[test]
fn addition_of_a_non_number_is_unparseable() {
    let mut machine = machine_with(vec![(
        "args",
        EnvItem::VariableBinding(vec![EnvItem::Data(Item::Boolean(true))]),
    )]);
    let err = math::addition(&mut machine).unwrap_err();
    assert_eq!(err.code, EvalErrorCode::E0010);
}

#[test]
fn addition_overflow_is_an_arithmetic_fault() {
    let mut machine = machine_with(vec![(
        "args",
        EnvItem::VariableBinding(vec![
            EnvItem::Data(Item::Number(i64::MAX)),
            EnvItem::Data(Item::Number(1)),
        ]),
    )]);
    let err = math::addition(&mut machine).unwrap_err();
    assert_eq!(err.code, EvalErrorCode::E0013);
}

#[test]
fn subtraction_of_nothing_is_an_arity_mismatch() {
    let mut machine = machine_with(vec![("args", EnvItem::VariableBinding(vec![]))]);
    let err = math::subtraction(&mut machine).unwrap_err();
    assert_eq!(err.code, EvalErrorCode::E0006);
}

#[test]
fn division_by_zero_is_an_arithmetic_fault() {
    let mut machine = machine_with(vec![
        ("dividend", EnvItem::Data(Item::Number(1))),
        ("divisor", EnvItem::Data(Item::Number(0))),
    ]);
    let err = math::division(&mut machine).unwrap_err();
    assert_eq!(err.code, EvalErrorCode::E0013);
}

#[test]
fn division_truncates_toward_zero() {
    let mut machine = machine_with(vec![
        ("dividend", EnvItem::Data(Item::Number(-7))),
        ("divisor", EnvItem::Data(Item::Number(2))),
    ]);
    assert_eq!(
        math::division(&mut machine).unwrap(),
        EnvItem::Data(Item::Number(-3))
    );
}

#[test]
fn def_requires_a_name_to_bind() {
    let mut machine = machine_with(vec![
        ("name", EnvItem::Data(Item::Number(1))),
        ("value", EnvItem::Data(Item::Number(2))),
    ]);
    let err = def(&mut machine).unwrap_err();
    assert_eq!(err.code, EvalErrorCode::E0009);
}

#[test]
fn def_binds_globally_and_returns_the_value() {
    let mut machine = machine_with(vec![
        ("name", EnvItem::Data(Item::Name(String::from("x")))),
        ("value", EnvItem::Data(Item::Number(9))),
    ]);
    assert_eq!(def(&mut machine).unwrap(), EnvItem::Data(Item::Number(9)));
    assert_eq!(
        machine.lookup("x").unwrap(),
        EnvItem::Data(Item::Number(9))
    );
}

#[test]
fn quote_hands_its_argument_back() {
    let mut machine = machine_with(vec![(
        "value",
        EnvItem::Data(Item::Name(String::from("abc"))),
    )]);
    assert_eq!(
        quote(&mut machine).unwrap(),
        EnvItem::Data(Item::Name(String::from("abc")))
    );
}

#[test]
fn car_of_a_non_list_is_an_incompatible_type() {
    let mut machine = machine_with(vec![("list", EnvItem::Data(Item::Number(5)))]);
    let err = minilisp::stdlib::list::car(&mut machine).unwrap_err();
    assert_eq!(err.code, EvalErrorCode::E0012);
}

#[test]
fn cons_native_builds_the_pair() {
    let mut machine = machine_with(vec![
        ("car", EnvItem::Data(Item::Number(1))),
        ("cdr", EnvItem::Data(Item::Number(2))),
    ]);
    assert_eq!(
        minilisp::stdlib::list::cons(&mut machine).unwrap(),
        EnvItem::Data(Item::Cons(Cons::new(Item::Number(1), Item::Number(2))))
    );
}

#[test]
fn predicate_tells_functions_from_data() {
    let mut machine = machine_with(vec![(
        "value",
        minilisp::stdlib::math::addition_env(),
    )]);
    assert_eq!(
        types::is_function(&mut machine).unwrap(),
        EnvItem::Data(Item::Boolean(true))
    );
    let mut machine = machine_with(vec![("value", EnvItem::Data(Item::Number(1)))]);
    assert_eq!(
        types::is_function(&mut machine).unwrap(),
        EnvItem::Data(Item::Boolean(false))
    );
}
