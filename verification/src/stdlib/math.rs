//! The arithmetic and comparison natives. Each one reads its already
//! bound arguments from the machine's innermost scope layer and leaves
//! the machine unchanged.

use vstd::prelude::*;
use vstd::string::StringExecFns;

use crate::datastructure::{
    env_item_eq, env_items_view, spec_env_lookup, strings_view, Callable, CallableModel, EnvItem,
    EnvItemModel, Item, ItemModel, Number, Parameters, ParametersModel,
};
use crate::stdlib::error::{unparseable_arguments, EvalError, EvalErrorCode};
use crate::stdlib::FunctionOutput;
use crate::vm::Machine;

verus! {

broadcast use crate::models::group_models;

/// Whether a runtime value is plain numeric data.
pub open spec fn spec_is_num(e: EnvItemModel) -> bool {
    e matches EnvItemModel::Data(ItemModel::Number(_))
}

/// The number a runtime value holds (zero where it holds none).
pub open spec fn spec_num(e: EnvItemModel) -> int {
    match e {
        EnvItemModel::Data(ItemModel::Number(n)) => n,
        _ => 0,
    }
}

/// Every argument is plain numeric data.
pub open spec fn spec_all_numbers(vals: Seq<EnvItemModel>) -> bool {
    forall|i: int| 0 <= i < vals.len() ==> spec_is_num(#[trigger] vals[i])
}

/// The sum of the arguments, read left to right.
pub open spec fn spec_sum(vals: Seq<EnvItemModel>) -> int
    decreases vals.len(),
{
    if vals.len() == 0 {
        0
    } else {
        spec_sum(vals.drop_last()) + spec_num(vals.last())
    }
}

/// Left-to-right summation never leaves the numeric range.
pub open spec fn spec_sum_fits(vals: Seq<EnvItemModel>) -> bool {
    forall|k: int|
        0 <= k <= vals.len() ==> i64::MIN <= spec_sum(#[trigger] vals.take(k)) <= i64::MAX
}

/// The difference: the first argument minus every later one.
pub open spec fn spec_diff(vals: Seq<EnvItemModel>) -> int
    decreases vals.len(),
{
    if vals.len() <= 1 {
        spec_num(vals[0])
    } else {
        spec_diff(vals.drop_last()) - spec_num(vals.last())
    }
}

/// Left-to-right subtraction never leaves the numeric range.
pub open spec fn spec_diff_fits(vals: Seq<EnvItemModel>) -> bool {
    forall|k: int|
        1 <= k <= vals.len() ==> i64::MIN <= spec_diff(#[trigger] vals.take(k)) <= i64::MAX
}

/// The product of the arguments, read left to right.
pub open spec fn spec_prod(vals: Seq<EnvItemModel>) -> int
    decreases vals.len(),
{
    if vals.len() == 0 {
        1
    } else {
        spec_prod(vals.drop_last()) * spec_num(vals.last())
    }
}

/// Left-to-right multiplication never leaves the numeric range.
pub open spec fn spec_prod_fits(vals: Seq<EnvItemModel>) -> bool {
    forall|k: int|
        0 <= k <= vals.len() ==> i64::MIN <= spec_prod(#[trigger] vals.take(k)) <= i64::MAX
}

/// The number held by an argument, or the unparseable-arguments condition.
fn get_number(item: &EnvItem) -> (r: Result<Number, EvalError>)
    ensures
        match item@ {
            EnvItemModel::Data(ItemModel::Number(n)) => r matches Ok(v) && v as int == n,
            _ => r matches Err(e) && e.code == EvalErrorCode::E0010,
        },
{
    match item {
        EnvItem::Data(Item::Number(n)) => Ok(*n),
        _ => Err(
            EvalError::new(
                EvalErrorCode::E0010,
                String::from_str("Addition: Only supports numbers for now"),
            ),
        ),
    }
}

/// The evaluated argument list bound to the variadic parameter `args`.
fn get_args(machine: &Machine, args: &str) -> (r: Result<Vec<EnvItem>, EvalError>)
    ensures
        match spec_env_lookup(machine@.env, args@) {
            EnvItemModel::VariableBinding(vals) => r matches Ok(v) && env_items_view(v@) == vals,
            EnvItemModel::Nil => r matches Err(e) && e.code == EvalErrorCode::E0011,
            _ => r matches Err(e) && e.code == EvalErrorCode::E0010,
        },
{
    match machine.lookup(args) {
        Err(e) => Err(EvalError::from_vm(e)),
        Ok(EnvItem::VariableBinding(var)) => Ok(var),
        Ok(_) => Err(unparseable_arguments("addition")),
    }
}

/// Adds every argument. Succeeds exactly when all arguments are numbers
/// and no partial sum overflows.
#[verifier::loop_isolation(false)]
pub fn addition(machine: &mut Machine) -> (r: FunctionOutput)
    ensures
        final(machine)@ == old(machine)@,
        ({
            let args = spec_env_lookup(old(machine)@.env, "args"@);
            match args {
                EnvItemModel::VariableBinding(vals) => {
                    &&& (r is Ok <==> spec_all_numbers(vals) && spec_sum_fits(vals))
                    &&& (r matches Ok(v) ==> v@ == EnvItemModel::Data(
                        ItemModel::Number(spec_sum(vals)),
                    ))
                    &&& (r matches Err(e) ==> e.code == EvalErrorCode::E0010 || e.code
                        == EvalErrorCode::E0013)
                },
                EnvItemModel::Nil => r matches Err(e) && e.code == EvalErrorCode::E0011,
                _ => r matches Err(e) && e.code == EvalErrorCode::E0010,
            }
        }),
{
    let args = match get_args(machine, "args") {
        Ok(a) => a,
        Err(e) => {
            return Err(e);
        }
    };
    let ghost vals = env_items_view(args@);
    let mut sum: i64 = 0;
    let mut i: usize = 0;
    while i < args.len()
        invariant
            i <= args@.len(),
            spec_all_numbers(vals.take(i as int)),
            sum as int == spec_sum(vals.take(i as int)),
            forall|k: int|
                0 <= k <= i ==> i64::MIN <= spec_sum(#[trigger] vals.take(k)) <= i64::MAX,
        decreases args@.len() - i,
    {
        proof {
            assert(vals.take(i + 1).drop_last() =~= vals.take(i as int));
            assert(vals.take(i + 1).last() == vals[i as int]);
        }
        let n = match get_number(&args[i]) {
            Ok(n) => n,
            Err(e) => {
                proof {
                    assert(!spec_is_num(vals[i as int]));
                }
                return Err(e);
            }
        };
        sum = match sum.checked_add(n) {
            Some(s) => s,
            None => {
                proof {
                    assert(spec_sum(vals.take(i + 1)) == sum + n);
                }
                return Err(
                    EvalError::new(
                        EvalErrorCode::E0013,
                        String::from_str("Addition: the sum leaves the numeric range"),
                    ),
                );
            }
        };
        i = i + 1;
    }
    proof {
        assert(vals.take(args@.len() as int) =~= vals);
        assert forall|k: int| 0 <= k <= vals.len() implies i64::MIN <= spec_sum(
            #[trigger] vals.take(k),
        ) <= i64::MAX by {}
    }
    Ok(EnvItem::Data(Item::Number(sum)))
}

/// Subtracts every later argument from the first. Succeeds exactly when
/// there is at least one argument, all are numbers, and no partial
/// difference overflows.
#[verifier::loop_isolation(false)]
pub fn subtraction(machine: &mut Machine) -> (r: FunctionOutput)
    ensures
        final(machine)@ == old(machine)@,
        ({
            let args = spec_env_lookup(old(machine)@.env, "args"@);
            match args {
                EnvItemModel::VariableBinding(vals) => {
                    &&& (r is Ok <==> vals.len() >= 1 && spec_all_numbers(vals) && spec_diff_fits(
                        vals,
                    ))
                    &&& (r matches Ok(v) ==> v@ == EnvItemModel::Data(
                        ItemModel::Number(spec_diff(vals)),
                    ))
                    &&& (r matches Err(e) ==> e.code == EvalErrorCode::E0006 || e.code
                        == EvalErrorCode::E0010 || e.code == EvalErrorCode::E0013)
                },
                EnvItemModel::Nil => r matches Err(e) && e.code == EvalErrorCode::E0011,
                _ => r matches Err(e) && e.code == EvalErrorCode::E0010,
            }
        }),
{
    let args = match get_args(machine, "args") {
        Ok(a) => a,
        Err(e) => {
            return Err(e);
        }
    };
    let ghost vals = env_items_view(args@);
    if args.len() == 0 {
        return Err(crate::stdlib::error::mismatch_arguments("subtraction"));
    }
    let mut sum: i64 = match get_number(&args[0]) {
        Ok(n) => n,
        Err(e) => {
            proof {
                assert(!spec_is_num(vals[0]));
            }
            return Err(e);
        }
    };
    proof {
        assert(vals.take(1) =~= seq![vals[0]]);
        assert(spec_diff(vals.take(1)) == spec_num(vals[0]));
        assert(spec_all_numbers(vals.take(1)));
    }
    let mut i: usize = 1;
    while i < args.len()
        invariant
            1 <= i <= args@.len(),
            spec_all_numbers(vals.take(i as int)),
            sum as int == spec_diff(vals.take(i as int)),
            forall|k: int|
                1 <= k <= i ==> i64::MIN <= spec_diff(#[trigger] vals.take(k)) <= i64::MAX,
        decreases args@.len() - i,
    {
        proof {
            assert(vals.take(i + 1).drop_last() =~= vals.take(i as int));
            assert(vals.take(i + 1).last() == vals[i as int]);
        }
        let n = match get_number(&args[i]) {
            Ok(n) => n,
            Err(e) => {
                proof {
                    assert(!spec_is_num(vals[i as int]));
                }
                return Err(e);
            }
        };
        sum = match sum.checked_sub(n) {
            Some(s) => s,
            None => {
                proof {
                    assert(spec_diff(vals.take(i + 1)) == sum - n);
                }
                return Err(
                    EvalError::new(
                        EvalErrorCode::E0013,
                        String::from_str("Subtraction: the difference leaves the numeric range"),
                    ),
                );
            }
        };
        i = i + 1;
    }
    proof {
        assert(vals.take(args@.len() as int) =~= vals);
    }
    Ok(EnvItem::Data(Item::Number(sum)))
}

/// Multiplies every argument. Succeeds exactly when all arguments are
/// numbers and no partial product overflows.
#[verifier::loop_isolation(false)]
pub fn multiplication(machine: &mut Machine) -> (r: FunctionOutput)
    ensures
        final(machine)@ == old(machine)@,
        ({
            let args = spec_env_lookup(old(machine)@.env, "args"@);
            match args {
                EnvItemModel::VariableBinding(vals) => {
                    &&& (r is Ok <==> spec_all_numbers(vals) && spec_prod_fits(vals))
                    &&& (r matches Ok(v) ==> v@ == EnvItemModel::Data(
                        ItemModel::Number(spec_prod(vals)),
                    ))
                    &&& (r matches Err(e) ==> e.code == EvalErrorCode::E0010 || e.code
                        == EvalErrorCode::E0013)
                },
                EnvItemModel::Nil => r matches Err(e) && e.code == EvalErrorCode::E0011,
                _ => r matches Err(e) && e.code == EvalErrorCode::E0010,
            }
        }),
{
    let args = match get_args(machine, "args") {
        Ok(a) => a,
        Err(e) => {
            return Err(e);
        }
    };
    let ghost vals = env_items_view(args@);
    let mut sum: i64 = 1;
    let mut i: usize = 0;
    while i < args.len()
        invariant
            i <= args@.len(),
            spec_all_numbers(vals.take(i as int)),
            sum as int == spec_prod(vals.take(i as int)),
            forall|k: int|
                0 <= k <= i ==> i64::MIN <= spec_prod(#[trigger] vals.take(k)) <= i64::MAX,
        decreases args@.len() - i,
    {
        proof {
            assert(vals.take(i + 1).drop_last() =~= vals.take(i as int));
            assert(vals.take(i + 1).last() == vals[i as int]);
        }
        let n = match get_number(&args[i]) {
            Ok(n) => n,
            Err(e) => {
                proof {
                    assert(!spec_is_num(vals[i as int]));
                }
                return Err(e);
            }
        };
        sum = match sum.checked_mul(n) {
            Some(s) => s,
            None => {
                proof {
                    assert(spec_prod(vals.take(i + 1)) == sum * n);
                }
                return Err(
                    EvalError::new(
                        EvalErrorCode::E0013,
                        String::from_str("Multiplication: the product leaves the numeric range"),
                    ),
                );
            }
        };
        i = i + 1;
    }
    proof {
        assert(vals.take(args@.len() as int) =~= vals);
    }
    Ok(EnvItem::Data(Item::Number(sum)))
}

/// The parameter contract of the two-comparand natives.
pub(crate) fn two_params(first: &str, second: &str) -> (r: Parameters)
    ensures
        r@ == ParametersModel::Individual(seq![first@, second@]),
{
    let mut names: Vec<String> = Vec::new();
    names.push(first.to_owned());
    names.push(second.to_owned());
    let r = Parameters::Individual(names);
    proof {
        assert(strings_view(names@) =~= seq![first@, second@]);
    }
    r
}

/// The value bound to a fixed parameter name, or the wrapped fault when
/// the name is unbound.
fn get_named(machine: &Machine, name: &str) -> (r: Result<EnvItem, EvalError>)
    ensures
        match spec_env_lookup(machine@.env, name@) {
            EnvItemModel::Nil => r matches Err(e) && e.code == EvalErrorCode::E0011,
            v => r matches Ok(out) && out@ == v,
        },
{
    match machine.lookup(name) {
        Ok(v) => Ok(v),
        Err(e) => Err(EvalError::from_vm(e)),
    }
}

/// Divides `dividend` by `divisor`, truncating; division by zero and the
/// one overflowing quotient are faults.
pub fn division(machine: &mut Machine) -> (r: FunctionOutput)
    ensures
        final(machine)@ == old(machine)@,
        ({
            let d = spec_env_lookup(old(machine)@.env, "dividend"@);
            let v = spec_env_lookup(old(machine)@.env, "divisor"@);
            if d == EnvItemModel::Nil || v == EnvItemModel::Nil {
                r matches Err(e) && e.code == EvalErrorCode::E0011
            } else if !spec_is_num(d) || !spec_is_num(v) {
                r matches Err(e) && e.code == EvalErrorCode::E0010
            } else {
                match (spec_num(d) as i64).checked_div(spec_num(v) as i64) {
                    Some(q) => r matches Ok(out) && out@ == EnvItemModel::Data(
                        ItemModel::Number(q as int),
                    ),
                    None => r matches Err(e) && e.code == EvalErrorCode::E0013,
                }
            }
        }),
{
    let dividend = match get_named(machine, "dividend") {
        Ok(v) => v,
        Err(e) => {
            return Err(e);
        }
    };
    let divisor = match get_named(machine, "divisor") {
        Ok(v) => v,
        Err(e) => {
            return Err(e);
        }
    };
    let a = match get_number(&dividend) {
        Ok(n) => n,
        Err(e) => {
            return Err(e);
        }
    };
    let b = match get_number(&divisor) {
        Ok(n) => n,
        Err(e) => {
            return Err(e);
        }
    };
    match a.checked_div(b) {
        Some(q) => Ok(EnvItem::Data(Item::Number(q))),
        None => Err(
            EvalError::new(
                EvalErrorCode::E0013,
                String::from_str("Division: division by zero, or the quotient leaves the range"),
            ),
        ),
    }
}

/// The remainder of `dividend` by `divisor`, truncating; a zero divisor
/// and the one overflowing case are faults.
pub fn modulo(machine: &mut Machine) -> (r: FunctionOutput)
    ensures
        final(machine)@ == old(machine)@,
        ({
            let d = spec_env_lookup(old(machine)@.env, "dividend"@);
            let v = spec_env_lookup(old(machine)@.env, "divisor"@);
            if d == EnvItemModel::Nil || v == EnvItemModel::Nil {
                r matches Err(e) && e.code == EvalErrorCode::E0011
            } else if !spec_is_num(d) || !spec_is_num(v) {
                r matches Err(e) && e.code == EvalErrorCode::E0010
            } else {
                match (spec_num(d) as i64).checked_rem(spec_num(v) as i64) {
                    Some(q) => r matches Ok(out) && out@ == EnvItemModel::Data(
                        ItemModel::Number(q as int),
                    ),
                    None => r matches Err(e) && e.code == EvalErrorCode::E0013,
                }
            }
        }),
{
    let dividend = match get_named(machine, "dividend") {
        Ok(v) => v,
        Err(e) => {
            return Err(e);
        }
    };
    let divisor = match get_named(machine, "divisor") {
        Ok(v) => v,
        Err(e) => {
            return Err(e);
        }
    };
    let a = match get_number(&dividend) {
        Ok(n) => n,
        Err(e) => {
            return Err(e);
        }
    };
    let b = match get_number(&divisor) {
        Ok(n) => n,
        Err(e) => {
            return Err(e);
        }
    };
    match a.checked_rem(b) {
        Some(q) => Ok(EnvItem::Data(Item::Number(q))),
        None => Err(
            EvalError::new(
                EvalErrorCode::E0013,
                String::from_str("Modulo: division by zero, or the remainder leaves the range"),
            ),
        ),
    }
}

/// Whether the left comparand is strictly below the right one.
pub fn less_than(machine: &mut Machine) -> (r: FunctionOutput)
    ensures
        final(machine)@ == old(machine)@,
        ({
            let l = spec_env_lookup(old(machine)@.env, "left_comparand"@);
            let v = spec_env_lookup(old(machine)@.env, "right_comparand"@);
            if l == EnvItemModel::Nil || v == EnvItemModel::Nil {
                r matches Err(e) && e.code == EvalErrorCode::E0011
            } else if !spec_is_num(l) || !spec_is_num(v) {
                r matches Err(e) && e.code == EvalErrorCode::E0010
            } else {
                r matches Ok(out) && out@ == EnvItemModel::Data(
                    ItemModel::Boolean(spec_num(l) < spec_num(v)),
                )
            }
        }),
{
    let left = match get_named(machine, "left_comparand") {
        Ok(v) => v,
        Err(e) => {
            return Err(e);
        }
    };
    let right = match get_named(machine, "right_comparand") {
        Ok(v) => v,
        Err(e) => {
            return Err(e);
        }
    };
    let a = match get_number(&left) {
        Ok(n) => n,
        Err(e) => {
            return Err(e);
        }
    };
    let b = match get_number(&right) {
        Ok(n) => n,
        Err(e) => {
            return Err(e);
        }
    };
    Ok(EnvItem::Data(Item::Boolean(a < b)))
}

/// Whether the left comparand is strictly above the right one.
pub fn greater_than(machine: &mut Machine) -> (r: FunctionOutput)
    ensures
        final(machine)@ == old(machine)@,
        ({
            let l = spec_env_lookup(old(machine)@.env, "left_comparand"@);
            let v = spec_env_lookup(old(machine)@.env, "right_comparand"@);
            if l == EnvItemModel::Nil || v == EnvItemModel::Nil {
                r matches Err(e) && e.code == EvalErrorCode::E0011
            } else if !spec_is_num(l) || !spec_is_num(v) {
                r matches Err(e) && e.code == EvalErrorCode::E0010
            } else {
                r matches Ok(out) && out@ == EnvItemModel::Data(
                    ItemModel::Boolean(spec_num(l) > spec_num(v)),
                )
            }
        }),
{
    let left = match get_named(machine, "left_comparand") {
        Ok(v) => v,
        Err(e) => {
            return Err(e);
        }
    };
    let right = match get_named(machine, "right_comparand") {
        Ok(v) => v,
        Err(e) => {
            return Err(e);
        }
    };
    let a = match get_number(&left) {
        Ok(n) => n,
        Err(e) => {
            return Err(e);
        }
    };
    let b = match get_number(&right) {
        Ok(n) => n,
        Err(e) => {
            return Err(e);
        }
    };
    Ok(EnvItem::Data(Item::Boolean(a > b)))
}

/// Whether the two comparands are deeply equal runtime values.
pub fn equals(machine: &mut Machine) -> (r: FunctionOutput)
    ensures
        final(machine)@ == old(machine)@,
        ({
            let l = spec_env_lookup(old(machine)@.env, "left_comparand"@);
            let v = spec_env_lookup(old(machine)@.env, "right_comparand"@);
            if l == EnvItemModel::Nil || v == EnvItemModel::Nil {
                r matches Err(e) && e.code == EvalErrorCode::E0011
            } else {
                r matches Ok(out) && out@ == EnvItemModel::Data(ItemModel::Boolean(l == v))
            }
        }),
{
    let left = match get_named(machine, "left_comparand") {
        Ok(v) => v,
        Err(e) => {
            return Err(e);
        }
    };
    let right = match get_named(machine, "right_comparand") {
        Ok(v) => v,
        Err(e) => {
            return Err(e);
        }
    };
    Ok(EnvItem::Data(Item::Boolean(env_item_eq(&left, &right))))
}

/// The registry entry of one variadic native.
pub(crate) fn all_args_env(name: &str, callable: Callable) -> (r: EnvItem)
    ensures
        r@ == EnvItemModel::Function(name@, callable@, ParametersModel::All("args"@)),
{
    EnvItem::Function(name.to_owned(), callable, Parameters::All("args".to_owned()))
}

/// The addition native as a registry value.
pub fn addition_env() -> (r: EnvItem)
    ensures
        r@ == EnvItemModel::Function(
            "addition"@,
            CallableModel::Addition,
            ParametersModel::All("args"@),
        ),
{
    all_args_env("addition", Callable::Addition)
}

/// The subtraction native as a registry value.
pub fn subtration_env() -> (r: EnvItem)
    ensures
        r@ == EnvItemModel::Function(
            "subtraction"@,
            CallableModel::Subtraction,
            ParametersModel::All("args"@),
        ),
{
    all_args_env("subtraction", Callable::Subtraction)
}

/// The multiplication native as a registry value.
pub fn multiplication_env() -> (r: EnvItem)
    ensures
        r@ == EnvItemModel::Function(
            "multiplication"@,
            CallableModel::Multiplication,
            ParametersModel::All("args"@),
        ),
{
    all_args_env("multiplication", Callable::Multiplication)
}

/// The division native as a registry value.
pub fn division_env() -> (r: EnvItem)
    ensures
        r@ == EnvItemModel::Function(
            "division"@,
            CallableModel::Division,
            ParametersModel::Individual(seq!["dividend"@, "divisor"@]),
        ),
{
    EnvItem::Function(
        "division".to_owned(),
        Callable::Division,
        two_params("dividend", "divisor"),
    )
}

/// The modulo native as a registry value.
pub fn modulo_env() -> (r: EnvItem)
    ensures
        r@ == EnvItemModel::Function(
            "modulo"@,
            CallableModel::Modulo,
            ParametersModel::Individual(seq!["dividend"@, "divisor"@]),
        ),
{
    EnvItem::Function("modulo".to_owned(), Callable::Modulo, two_params("dividend", "divisor"))
}

/// The less-than native as a registry value.
pub fn less_than_env() -> (r: EnvItem)
    ensures
        r@ == EnvItemModel::Function(
            "less_than"@,
            CallableModel::LessThan,
            ParametersModel::Individual(seq!["left_comparand"@, "right_comparand"@]),
        ),
{
    EnvItem::Function(
        "less_than".to_owned(),
        Callable::LessThan,
        two_params("left_comparand", "right_comparand"),
    )
}

/// The greater-than native as a registry value.
pub fn greater_than_env() -> (r: EnvItem)
    ensures
        r@ == EnvItemModel::Function(
            "greater_than"@,
            CallableModel::GreaterThan,
            ParametersModel::Individual(seq!["left_comparand"@, "right_comparand"@]),
        ),
{
    EnvItem::Function(
        "greater_than".to_owned(),
        Callable::GreaterThan,
        two_params("left_comparand", "right_comparand"),
    )
}

/// The equality native as a registry value.
pub fn equals_env() -> (r: EnvItem)
    ensures
        r@ == EnvItemModel::Function(
            "equals"@,
            CallableModel::Equals,
            ParametersModel::Individual(seq!["left_comparand"@, "right_comparand"@]),
        ),
{
    EnvItem::Function(
        "equals".to_owned(),
        Callable::Equals,
        two_params("left_comparand", "right_comparand"),
    )
}

} // verus!
