//! The native library: the stateless leaf functions the machine can call,
//! their registration into a global environment, and the conditions they
//! raise.

use vstd::prelude::*;
use vstd::string::StringExecFns;

pub mod error;
pub mod list;
pub mod math;
pub mod types;

use crate::datastructure::{
    spec_env_lookup, Callable, CallableModel, EnvItem, EnvItemModel, Environment, Item, ItemModel,
    ParametersModel,
};
use crate::vm::Machine;
use error::{EvalError, EvalErrorCode};

verus! {

broadcast use crate::models::group_models;

/// What a native function hands back: a runtime value, or a condition.
pub type FunctionOutput = Result<EnvItem, error::EvalError>;

/// The registry value of the global-definition native.
pub open spec fn spec_def_env() -> EnvItemModel {
    EnvItemModel::Function(
        "define"@,
        CallableModel::Define,
        ParametersModel::Individual(seq!["name"@, "value"@]),
    )
}

/// The map of names the native library binds in the global layer.
pub open spec fn spec_stdlib_layer() -> Map<Seq<char>, EnvItemModel> {
    Map::empty().insert("+"@, m_addition()).insert("add"@, m_addition()).insert(
        "-"@,
        m_subtraction(),
    ).insert("sub"@, m_subtraction()).insert("*"@, m_multiplication()).insert(
        "mult"@,
        m_multiplication(),
    ).insert("/"@, m_division()).insert("div"@, m_division()).insert("%"@, m_modulo()).insert(
        "mod"@,
        m_modulo(),
    ).insert("<"@, m_less_than()).insert("lt"@, m_less_than()).insert(">"@, m_greater_than(),
    ).insert("gt"@, m_greater_than()).insert("="@, m_equals()).insert("eq"@, m_equals()).insert(
        "cons"@,
        m_cons(),
    ).insert("car"@, m_car()).insert("cdr"@, m_cdr()).insert("number?"@, m_is_number()).insert(
        "string?"@,
        m_is_string(),
    ).insert("boolean?"@, m_is_boolean()).insert("name?"@, m_is_name()).insert(
        "list?"@,
        m_is_list(),
    ).insert("none?"@, m_is_none()).insert("function?"@, m_is_function())
}

pub open spec fn m_addition() -> EnvItemModel {
    EnvItemModel::Function("addition"@, CallableModel::Addition, ParametersModel::All("args"@))
}

pub open spec fn m_subtraction() -> EnvItemModel {
    EnvItemModel::Function(
        "subtraction"@,
        CallableModel::Subtraction,
        ParametersModel::All("args"@),
    )
}

pub open spec fn m_multiplication() -> EnvItemModel {
    EnvItemModel::Function(
        "multiplication"@,
        CallableModel::Multiplication,
        ParametersModel::All("args"@),
    )
}

pub open spec fn m_division() -> EnvItemModel {
    EnvItemModel::Function(
        "division"@,
        CallableModel::Division,
        ParametersModel::Individual(seq!["dividend"@, "divisor"@]),
    )
}

pub open spec fn m_modulo() -> EnvItemModel {
    EnvItemModel::Function(
        "modulo"@,
        CallableModel::Modulo,
        ParametersModel::Individual(seq!["dividend"@, "divisor"@]),
    )
}

pub open spec fn m_less_than() -> EnvItemModel {
    EnvItemModel::Function(
        "less_than"@,
        CallableModel::LessThan,
        ParametersModel::Individual(seq!["left_comparand"@, "right_comparand"@]),
    )
}

pub open spec fn m_greater_than() -> EnvItemModel {
    EnvItemModel::Function(
        "greater_than"@,
        CallableModel::GreaterThan,
        ParametersModel::Individual(seq!["left_comparand"@, "right_comparand"@]),
    )
}

pub open spec fn m_equals() -> EnvItemModel {
    EnvItemModel::Function(
        "equals"@,
        CallableModel::Equals,
        ParametersModel::Individual(seq!["left_comparand"@, "right_comparand"@]),
    )
}

pub open spec fn m_cons() -> EnvItemModel {
    EnvItemModel::Function(
        "cons"@,
        CallableModel::ListCons,
        ParametersModel::Individual(seq!["car"@, "cdr"@]),
    )
}

pub open spec fn m_car() -> EnvItemModel {
    EnvItemModel::Function(
        "car"@,
        CallableModel::ListCar,
        ParametersModel::Individual(seq!["list"@]),
    )
}

pub open spec fn m_cdr() -> EnvItemModel {
    EnvItemModel::Function(
        "cdr"@,
        CallableModel::ListCdr,
        ParametersModel::Individual(seq!["list"@]),
    )
}

pub open spec fn m_is_number() -> EnvItemModel {
    EnvItemModel::Function(
        "number?"@,
        CallableModel::IsNumber,
        ParametersModel::Individual(seq!["value"@]),
    )
}

pub open spec fn m_is_string() -> EnvItemModel {
    EnvItemModel::Function(
        "string?"@,
        CallableModel::IsString,
        ParametersModel::Individual(seq!["value"@]),
    )
}

pub open spec fn m_is_boolean() -> EnvItemModel {
    EnvItemModel::Function(
        "boolean?"@,
        CallableModel::IsBoolean,
        ParametersModel::Individual(seq!["value"@]),
    )
}

pub open spec fn m_is_name() -> EnvItemModel {
    EnvItemModel::Function(
        "name?"@,
        CallableModel::IsName,
        ParametersModel::Individual(seq!["value"@]),
    )
}

pub open spec fn m_is_list() -> EnvItemModel {
    EnvItemModel::Function(
        "list?"@,
        CallableModel::IsList,
        ParametersModel::Individual(seq!["value"@]),
    )
}

pub open spec fn m_is_none() -> EnvItemModel {
    EnvItemModel::Function(
        "none?"@,
        CallableModel::IsNil,
        ParametersModel::Individual(seq!["value"@]),
    )
}

pub open spec fn m_is_function() -> EnvItemModel {
    EnvItemModel::Function(
        "function?"@,
        CallableModel::IsFunction,
        ParametersModel::Individual(seq!["value"@]),
    )
}

/// Builds the global environment that the native library populates: one
/// layer binding every native under its surface names.
pub fn stdlib() -> (r: Environment)
    ensures
        r@ == seq![spec_stdlib_layer()],
        r.wf(),
{
    let mut env = Environment::default();
    env.assign("+", math::addition_env());
    env.assign("add", math::addition_env());
    env.assign("-", math::subtration_env());
    env.assign("sub", math::subtration_env());
    env.assign("*", math::multiplication_env());
    env.assign("mult", math::multiplication_env());
    env.assign("/", math::division_env());
    env.assign("div", math::division_env());
    env.assign("%", math::modulo_env());
    env.assign("mod", math::modulo_env());
    env.assign("<", math::less_than_env());
    env.assign("lt", math::less_than_env());
    env.assign(">", math::greater_than_env());
    env.assign("gt", math::greater_than_env());
    env.assign("=", math::equals_env());
    env.assign("eq", math::equals_env());
    env.assign("cons", list::cons_env());
    env.assign("car", list::car_env());
    env.assign("cdr", list::cdr_env());
    env.assign("number?", types::is_number_env());
    env.assign("string?", types::is_string_env());
    env.assign("boolean?", types::is_boolean_env());
    env.assign("name?", types::is_name_env());
    env.assign("list?", types::is_list_env());
    env.assign("none?", types::is_none_env());
    env.assign("function?", types::is_function_env());
    proof {
        assert(env@ =~= seq![spec_stdlib_layer()]);
    }
    env
}

/// Binds an evaluated value to a name in the outermost layer: the native
/// behind the `def`/`define` special form, and the channel by which a
/// top-level definition becomes globally visible.
pub fn def(machine: &mut Machine) -> (r: FunctionOutput)
    requires
        old(machine).wf(),
    ensures
        final(machine).wf(),
        final(machine)@.stack == old(machine)@.stack,
        final(machine)@.env.len() == old(machine)@.env.len(),
        forall|i: int|
            1 <= i < final(machine)@.env.len() ==> final(machine)@.env[i] == old(
                machine,
            )@.env[i],
        ({
            let namev = spec_env_lookup(old(machine)@.env, "name"@);
            let valuev = spec_env_lookup(old(machine)@.env, "value"@);
            if namev == EnvItemModel::Nil || valuev == EnvItemModel::Nil {
                (r matches Err(e) && e.code == EvalErrorCode::E0011) && final(machine)@ == old(
                    machine,
                )@
            } else {
                match namev {
                    EnvItemModel::Data(ItemModel::Name(n)) => (r matches Ok(out) && out@
                        == valuev) && final(machine)@.env[0] == old(machine)@.env[0].insert(
                        n,
                        valuev,
                    ),
                    _ => (r matches Err(e) && e.code == EvalErrorCode::E0009) && final(machine)@
                        == old(machine)@,
                }
            }
        }),
{
    let name_arg = match machine.lookup("name") {
        Ok(v) => v,
        Err(e) => {
            return Err(EvalError::from_vm(e));
        }
    };
    let value = match machine.lookup("value") {
        Ok(v) => v,
        Err(e) => {
            return Err(EvalError::from_vm(e));
        }
    };
    let name = match name_arg {
        EnvItem::Data(Item::Name(n)) => n,
        _ => {
            return Err(
                EvalError::new(
                    EvalErrorCode::E0009,
                    String::from_str("The first argument is not a name, and cannot be bound"),
                ),
            );
        }
    };
    let out = value.clone();
    match machine.define(name.as_str(), value) {
        Ok(_) => {}
        Err(e) => {
            return Err(EvalError::from_vm(e));
        }
    }
    Ok(out)
}

/// The global-definition native as a registry value.
pub fn def_env() -> (r: EnvItem)
    ensures
        r@ == spec_def_env(),
{
    EnvItem::Function("define".to_owned(), Callable::Define, math::two_params("name", "value"))
}

/// Hands back its single bound argument unevaluated: the native behind
/// the `quote` special form.
pub fn quote(machine: &mut Machine) -> (r: FunctionOutput)
    ensures
        final(machine)@ == old(machine)@,
        ({
            let v = spec_env_lookup(old(machine)@.env, "value"@);
            match v {
                EnvItemModel::Nil => r matches Err(e) && e.code == EvalErrorCode::E0011,
                _ => r matches Ok(out) && out@ == v,
            }
        }),
{
    match machine.lookup("value") {
        Ok(v) => Ok(v),
        Err(e) => Err(EvalError::from_vm(e)),
    }
}

} // verus!
