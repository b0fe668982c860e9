//! The type-predicate natives: each one reads the single bound argument
//! `value` and answers which kind of runtime value it is.

use vstd::prelude::*;

use crate::datastructure::{
    spec_env_lookup, strings_view, Callable, CallableModel, EnvItem, EnvItemModel, Item,
    ItemModel, Parameters, ParametersModel,
};
use crate::stdlib::error::{EvalError, EvalErrorCode};
use crate::stdlib::FunctionOutput;
use crate::vm::Machine;

verus! {

broadcast use crate::models::group_models;

/// The single looked-up argument `value`, or the wrapped fault when it is
/// unbound.
fn get_value(machine: &Machine) -> (r: Result<EnvItem, EvalError>)
    ensures
        match spec_env_lookup(machine@.env, "value"@) {
            EnvItemModel::Nil => r matches Err(e) && e.code == EvalErrorCode::E0011,
            v => r matches Ok(out) && out@ == v,
        },
{
    match machine.lookup("value") {
        Ok(v) => Ok(v),
        Err(e) => Err(EvalError::from_vm(e)),
    }
}

/// Whether `value` is a number.
pub fn is_number(machine: &mut Machine) -> (r: FunctionOutput)
    ensures
        final(machine)@ == old(machine)@,
        ({
            let v = spec_env_lookup(old(machine)@.env, "value"@);
            match v {
                EnvItemModel::Nil => r matches Err(e) && e.code == EvalErrorCode::E0011,
                _ => r matches Ok(out) && out@ == EnvItemModel::Data(
                    ItemModel::Boolean(v matches EnvItemModel::Data(ItemModel::Number(_))),
                ),
            }
        }),
{
    let value = match get_value(machine) {
        Ok(v) => v,
        Err(e) => {
            return Err(e);
        }
    };
    let b = matches!(value, EnvItem::Data(Item::Number(_)));
    Ok(EnvItem::Data(Item::Boolean(b)))
}

/// Whether `value` is a string.
pub fn is_string(machine: &mut Machine) -> (r: FunctionOutput)
    ensures
        final(machine)@ == old(machine)@,
        ({
            let v = spec_env_lookup(old(machine)@.env, "value"@);
            match v {
                EnvItemModel::Nil => r matches Err(e) && e.code == EvalErrorCode::E0011,
                _ => r matches Ok(out) && out@ == EnvItemModel::Data(
                    ItemModel::Boolean(v matches EnvItemModel::Data(ItemModel::String(_))),
                ),
            }
        }),
{
    let value = match get_value(machine) {
        Ok(v) => v,
        Err(e) => {
            return Err(e);
        }
    };
    let b = matches!(value, EnvItem::Data(Item::String(_)));
    Ok(EnvItem::Data(Item::Boolean(b)))
}

/// Whether `value` is a boolean.
pub fn is_boolean(machine: &mut Machine) -> (r: FunctionOutput)
    ensures
        final(machine)@ == old(machine)@,
        ({
            let v = spec_env_lookup(old(machine)@.env, "value"@);
            match v {
                EnvItemModel::Nil => r matches Err(e) && e.code == EvalErrorCode::E0011,
                _ => r matches Ok(out) && out@ == EnvItemModel::Data(
                    ItemModel::Boolean(v matches EnvItemModel::Data(ItemModel::Boolean(_))),
                ),
            }
        }),
{
    let value = match get_value(machine) {
        Ok(v) => v,
        Err(e) => {
            return Err(e);
        }
    };
    let b = matches!(value, EnvItem::Data(Item::Boolean(_)));
    Ok(EnvItem::Data(Item::Boolean(b)))
}

/// Whether `value` is a symbol name.
pub fn is_name(machine: &mut Machine) -> (r: FunctionOutput)
    ensures
        final(machine)@ == old(machine)@,
        ({
            let v = spec_env_lookup(old(machine)@.env, "value"@);
            match v {
                EnvItemModel::Nil => r matches Err(e) && e.code == EvalErrorCode::E0011,
                _ => r matches Ok(out) && out@ == EnvItemModel::Data(
                    ItemModel::Boolean(v matches EnvItemModel::Data(ItemModel::Name(_))),
                ),
            }
        }),
{
    let value = match get_value(machine) {
        Ok(v) => v,
        Err(e) => {
            return Err(e);
        }
    };
    let b = matches!(value, EnvItem::Data(Item::Name(_)));
    Ok(EnvItem::Data(Item::Boolean(b)))
}

/// Whether `value` is a list.
pub fn is_list(machine: &mut Machine) -> (r: FunctionOutput)
    ensures
        final(machine)@ == old(machine)@,
        ({
            let v = spec_env_lookup(old(machine)@.env, "value"@);
            match v {
                EnvItemModel::Nil => r matches Err(e) && e.code == EvalErrorCode::E0011,
                _ => r matches Ok(out) && out@ == EnvItemModel::Data(
                    ItemModel::Boolean(v matches EnvItemModel::Data(ItemModel::Cons(_))),
                ),
            }
        }),
{
    let value = match get_value(machine) {
        Ok(v) => v,
        Err(e) => {
            return Err(e);
        }
    };
    let b = matches!(value, EnvItem::Data(Item::Cons(_)));
    Ok(EnvItem::Data(Item::Boolean(b)))
}

/// Whether `value` is the empty value.
pub fn is_none(machine: &mut Machine) -> (r: FunctionOutput)
    ensures
        final(machine)@ == old(machine)@,
        ({
            let v = spec_env_lookup(old(machine)@.env, "value"@);
            match v {
                EnvItemModel::Nil => r matches Err(e) && e.code == EvalErrorCode::E0011,
                _ => r matches Ok(out) && out@ == EnvItemModel::Data(
                    ItemModel::Boolean(v == EnvItemModel::Data(ItemModel::Nil)),
                ),
            }
        }),
{
    let value = match get_value(machine) {
        Ok(v) => v,
        Err(e) => {
            return Err(e);
        }
    };
    let b = matches!(value, EnvItem::Data(Item::Nil));
    Ok(EnvItem::Data(Item::Boolean(b)))
}

/// Whether `value` is a function.
pub fn is_function(machine: &mut Machine) -> (r: FunctionOutput)
    ensures
        final(machine)@ == old(machine)@,
        ({
            let v = spec_env_lookup(old(machine)@.env, "value"@);
            match v {
                EnvItemModel::Nil => r matches Err(e) && e.code == EvalErrorCode::E0011,
                _ => r matches Ok(out) && out@ == EnvItemModel::Data(
                    ItemModel::Boolean(v matches EnvItemModel::Function(_, _, _)),
                ),
            }
        }),
{
    let value = match get_value(machine) {
        Ok(v) => v,
        Err(e) => {
            return Err(e);
        }
    };
    let b = matches!(value, EnvItem::Function(_, _, _));
    Ok(EnvItem::Data(Item::Boolean(b)))
}

/// The registry entry of one type predicate.
fn predicate_env(name: &str, callable: Callable) -> (r: EnvItem)
    ensures
        r@ == EnvItemModel::Function(
            name@,
            callable@,
            ParametersModel::Individual(seq!["value"@]),
        ),
{
    let mut names: Vec<String> = Vec::new();
    names.push("value".to_owned());
    let params = Parameters::Individual(names);
    proof {
        assert(strings_view(names@) =~= seq!["value"@]);
    }
    EnvItem::Function(name.to_owned(), callable, params)
}

/// The number predicate as a registry value.
pub fn is_number_env() -> (r: EnvItem)
    ensures
        r@ == EnvItemModel::Function(
            "number?"@,
            CallableModel::IsNumber,
            ParametersModel::Individual(seq!["value"@]),
        ),
{
    predicate_env("number?", Callable::IsNumber)
}

/// The string predicate as a registry value.
pub fn is_string_env() -> (r: EnvItem)
    ensures
        r@ == EnvItemModel::Function(
            "string?"@,
            CallableModel::IsString,
            ParametersModel::Individual(seq!["value"@]),
        ),
{
    predicate_env("string?", Callable::IsString)
}

/// The boolean predicate as a registry value.
pub fn is_boolean_env() -> (r: EnvItem)
    ensures
        r@ == EnvItemModel::Function(
            "boolean?"@,
            CallableModel::IsBoolean,
            ParametersModel::Individual(seq!["value"@]),
        ),
{
    predicate_env("boolean?", Callable::IsBoolean)
}

/// The name predicate as a registry value.
pub fn is_name_env() -> (r: EnvItem)
    ensures
        r@ == EnvItemModel::Function(
            "name?"@,
            CallableModel::IsName,
            ParametersModel::Individual(seq!["value"@]),
        ),
{
    predicate_env("name?", Callable::IsName)
}

/// The list predicate as a registry value.
pub fn is_list_env() -> (r: EnvItem)
    ensures
        r@ == EnvItemModel::Function(
            "list?"@,
            CallableModel::IsList,
            ParametersModel::Individual(seq!["value"@]),
        ),
{
    predicate_env("list?", Callable::IsList)
}

/// The empty-value predicate as a registry value.
pub fn is_none_env() -> (r: EnvItem)
    ensures
        r@ == EnvItemModel::Function(
            "none?"@,
            CallableModel::IsNil,
            ParametersModel::Individual(seq!["value"@]),
        ),
{
    predicate_env("none?", Callable::IsNil)
}

/// The function predicate as a registry value.
pub fn is_function_env() -> (r: EnvItem)
    ensures
        r@ == EnvItemModel::Function(
            "function?"@,
            CallableModel::IsFunction,
            ParametersModel::Individual(seq!["value"@]),
        ),
{
    predicate_env("function?", Callable::IsFunction)
}

} // verus!
