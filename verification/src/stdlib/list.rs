//! The list natives: building a cons cell, and taking a list apart with
//! `car` and `cdr`.

use vstd::prelude::*;
use vstd::string::StringExecFns;

use crate::datastructure::{
    spec_cons_cdr, spec_cons_new, spec_env_lookup, strings_view, Callable, CallableModel, Cons,
    EnvItem, EnvItemModel, Item, ItemModel, Parameters, ParametersModel,
};
use crate::stdlib::error::{EvalError, EvalErrorCode};
use crate::stdlib::math::two_params;
use crate::stdlib::FunctionOutput;
use crate::vm::Machine;

verus! {

broadcast use crate::models::group_models;

/// The value bound to a fixed parameter name, or the wrapped fault when
/// the name is unbound.
fn get_named(machine: &Machine, name: &str) -> (r: Result<EnvItem, EvalError>)
    ensures
        match spec_env_lookup(machine@.env, name@) {
            EnvItemModel::Nil => r matches Err(e) && e.code == EvalErrorCode::E0011,
            v => r matches Ok(out) && out@ == v,
        },
{
    match machine.lookup(name) {
        Ok(v) => Ok(v),
        Err(e) => Err(EvalError::from_vm(e)),
    }
}

/// Builds the list with head `car` and tail `cdr`; both must be plain
/// data.
pub fn cons(machine: &mut Machine) -> (r: FunctionOutput)
    ensures
        final(machine)@ == old(machine)@,
        ({
            let carv = spec_env_lookup(old(machine)@.env, "car"@);
            let cdrv = spec_env_lookup(old(machine)@.env, "cdr"@);
            if carv == EnvItemModel::Nil || cdrv == EnvItemModel::Nil {
                r matches Err(e) && e.code == EvalErrorCode::E0011
            } else {
                match (carv, cdrv) {
                    (EnvItemModel::Data(carm), EnvItemModel::Data(cdrm)) => r matches Ok(out)
                        && out@ == EnvItemModel::Data(ItemModel::Cons(spec_cons_new(carm, cdrm))),
                    _ => r matches Err(e) && e.code == EvalErrorCode::E0010,
                }
            }
        }),
{
    let car_arg = match get_named(machine, "car") {
        Ok(v) => v,
        Err(e) => {
            return Err(e);
        }
    };
    let cdr_arg = match get_named(machine, "cdr") {
        Ok(v) => v,
        Err(e) => {
            return Err(e);
        }
    };
    let car = match car_arg {
        EnvItem::Data(d) => d,
        _ => {
            return Err(
                EvalError::new(
                    EvalErrorCode::E0010,
                    String::from_str("Could not parse the car element"),
                ),
            );
        }
    };
    let cdr = match cdr_arg {
        EnvItem::Data(d) => d,
        _ => {
            return Err(
                EvalError::new(
                    EvalErrorCode::E0010,
                    String::from_str("Could not parse the cdr element"),
                ),
            );
        }
    };
    Ok(EnvItem::Data(Item::Cons(Cons::new(car, cdr))))
}

/// The first element of the bound list.
pub fn car(machine: &mut Machine) -> (r: FunctionOutput)
    ensures
        final(machine)@ == old(machine)@,
        ({
            let v = spec_env_lookup(old(machine)@.env, "list"@);
            match v {
                EnvItemModel::Nil => r matches Err(e) && e.code == EvalErrorCode::E0011,
                EnvItemModel::Data(ItemModel::Cons(c)) => if c.data.len() >= 1 {
                    r matches Ok(out) && out@ == EnvItemModel::Data(c.data[0])
                } else {
                    r matches Err(e) && e.code == EvalErrorCode::E0005
                },
                _ => r matches Err(e) && e.code == EvalErrorCode::E0012,
            }
        }),
{
    let list = match get_named(machine, "list") {
        Ok(v) => v,
        Err(e) => {
            return Err(e);
        }
    };
    match list {
        EnvItem::Data(Item::Cons(list)) => {
            if list.len() == 0 {
                Err(
                    EvalError::new(
                        EvalErrorCode::E0005,
                        String::from_str("A list should never be empty"),
                    ),
                )
            } else {
                Ok(EnvItem::Data(list.car().clone()))
            }
        }
        _ => Err(
            EvalError::new(
                EvalErrorCode::E0012,
                String::from_str("The 'car' function requires a list"),
            ),
        ),
    }
}

/// The tail of the bound list.
pub fn cdr(machine: &mut Machine) -> (r: FunctionOutput)
    ensures
        final(machine)@ == old(machine)@,
        ({
            let v = spec_env_lookup(old(machine)@.env, "list"@);
            match v {
                EnvItemModel::Nil => r matches Err(e) && e.code == EvalErrorCode::E0011,
                EnvItemModel::Data(ItemModel::Cons(c)) => if c.data.len() >= 1 {
                    r matches Ok(out) && out@ == EnvItemModel::Data(spec_cons_cdr(c))
                } else {
                    r matches Err(e) && e.code == EvalErrorCode::E0005
                },
                _ => r matches Err(e) && e.code == EvalErrorCode::E0012,
            }
        }),
{
    let list = match get_named(machine, "list") {
        Ok(v) => v,
        Err(e) => {
            return Err(e);
        }
    };
    match list {
        EnvItem::Data(Item::Cons(list)) => {
            if list.len() == 0 {
                Err(
                    EvalError::new(
                        EvalErrorCode::E0005,
                        String::from_str("A list should never be empty"),
                    ),
                )
            } else {
                Ok(EnvItem::Data(list.cdr()))
            }
        }
        _ => Err(
            EvalError::new(
                EvalErrorCode::E0012,
                String::from_str("The 'cdr' function requires a list"),
            ),
        ),
    }
}

/// The cons native as a registry value.
pub fn cons_env() -> (r: EnvItem)
    ensures
        r@ == EnvItemModel::Function(
            "cons"@,
            CallableModel::ListCons,
            ParametersModel::Individual(seq!["car"@, "cdr"@]),
        ),
{
    EnvItem::Function("cons".to_owned(), Callable::ListCons, two_params("car", "cdr"))
}

/// The car native as a registry value.
pub fn car_env() -> (r: EnvItem)
    ensures
        r@ == EnvItemModel::Function(
            "car"@,
            CallableModel::ListCar,
            ParametersModel::Individual(seq!["list"@]),
        ),
{
    let mut names: Vec<String> = Vec::new();
    names.push("list".to_owned());
    let params = Parameters::Individual(names);
    proof {
        assert(strings_view(names@) =~= seq!["list"@]);
    }
    EnvItem::Function("car".to_owned(), Callable::ListCar, params)
}

/// The cdr native as a registry value.
pub fn cdr_env() -> (r: EnvItem)
    ensures
        r@ == EnvItemModel::Function(
            "cdr"@,
            CallableModel::ListCdr,
            ParametersModel::Individual(seq!["list"@]),
        ),
{
    let mut names: Vec<String> = Vec::new();
    names.push("list".to_owned());
    let params = Parameters::Individual(names);
    proof {
        assert(strings_view(names@) =~= seq!["list"@]);
    }
    EnvItem::Function("cdr".to_owned(), Callable::ListCdr, params)
}

} // verus!
