//! End-to-end tests of the virtual machine: source text through the
//! lexer, the parser and the converter, then evaluated form by form.

use minilisp::convert::convert;
use minilisp::datastructure::{Cons, EnvItem, Item};
use minilisp::lexer::lex;
use minilisp::parser::parse;
use minilisp::vm::{Machine, VMError};

fn run_all(src: &str) -> Vec<Result<EnvItem, VMError>> {
    let symbols = lex(src).expect("the source should lex");
    let ast = parse(&symbols).expect("the source should parse");
    let items = convert(ast);
    let mut machine = Machine::default();
    let mut out = Vec::new();
    for item in items.into_iter() {
        out.push(machine.eval(item));
    }
    out
}

fn run_one(src: &str) -> Result<EnvItem, VMError> {
    run_all(src).pop().expect("one form expected")
}

#[test]
fn addition_of_three_numbers() {
    assert_eq!(
        run_one("(+ 1 2 3)").unwrap(),
        EnvItem::Data(Item::Number(6))
    );
}

#[test]
fn conditional_takes_the_true_branch() {
    assert_eq!(
        run_one("(if #t 1 2)").unwrap(),
        EnvItem::Data(Item::Number(1))
    );
}

#[test]
fn conditional_takes_the_false_branch() {
    assert_eq!(
        run_one("(if #f 1 2)").unwrap(),
        EnvItem::Data(Item::Number(2))
    );
}

#[test]
fn zero_is_falsy_in_a_conditional() {
    assert_eq!(
        run_one("(if 0 1 2)").unwrap(),
        EnvItem::Data(Item::Number(2))
    );
}

#[test]
fn empty_string_is_falsy_and_nonempty_truthy() {
    assert_eq!(
        run_one("(if \"\" 1 2)").unwrap(),
        EnvItem::Data(Item::Number(2))
    );
    assert_eq!(
        run_one("(if \"x\" 1 2)").unwrap(),
        EnvItem::Data(Item::Number(1))
    );
}

#[test]
fn quote_hands_back_the_unevaluated_list() {
    let expected = EnvItem::Data(Item::Cons(Cons::new(
        Item::Number(1),
        Item::Cons(Cons::new(
            Item::Number(2),
            Item::Cons(Cons::new(Item::Number(3), Item::Nil)),
        )),
    )));
    assert_eq!(run_one("(quote (1 2 3))").unwrap(), expected);
}

#[test]
fn lambda_applies_to_its_arguments() {
    assert_eq!(
        run_one("((lambda (x y) (+ x y)) 3 4)").unwrap(),
        EnvItem::Data(Item::Number(7))
    );
}

#[test]
fn eval_reevaluates_a_quoted_form() {
    assert_eq!(
        run_one("(eval (quote (+ 1 1)))").unwrap(),
        EnvItem::Data(Item::Number(2))
    );
}

#[test]
fn definitions_are_globally_visible_across_forms() {
    let results = run_all("(def x 10) (+ x 5)");
    assert_eq!(results.len(), 2);
    assert_eq!(
        results[1].as_ref().unwrap(),
        &EnvItem::Data(Item::Number(15))
    );
}

#[test]
fn calling_a_number_is_a_fault_not_a_value() {
    assert!(matches!(run_one("(1 2 3)"), Err(_)));
}

#[test]
fn arity_mismatch_in_both_directions() {
    assert!(matches!(run_one("((lambda (a b) (+ a b)) 1)"), Err(_)));
    assert!(matches!(run_one("((lambda (a b) (+ a b)) 1 2 3)"), Err(_)));
    assert_eq!(
        run_one("((lambda (a b) (+ a b)) 1 2)").unwrap(),
        EnvItem::Data(Item::Number(3))
    );
}

#[test]
fn both_fixed_parameters_resolve_inside_the_new_scope() {
    assert_eq!(
        run_one("((lambda (a b) (- a b)) 10 4)").unwrap(),
        EnvItem::Data(Item::Number(6))
    );
}

#[test]
fn variadic_parameter_captures_every_argument() {
    assert_eq!(
        run_one("(* 2 3 4)").unwrap(),
        EnvItem::Data(Item::Number(24))
    );
    assert_eq!(run_one("(+)").unwrap(), EnvItem::Data(Item::Number(0)));
}

#[test]
fn division_modulo_and_comparisons() {
    assert_eq!(run_one("(/ 7 2)").unwrap(), EnvItem::Data(Item::Number(3)));
    assert_eq!(run_one("(% 7 2)").unwrap(), EnvItem::Data(Item::Number(1)));
    assert_eq!(
        run_one("(< 1 2)").unwrap(),
        EnvItem::Data(Item::Boolean(true))
    );
    assert_eq!(
        run_one("(> 1 2)").unwrap(),
        EnvItem::Data(Item::Boolean(false))
    );
    assert_eq!(
        run_one("(= 2 2)").unwrap(),
        EnvItem::Data(Item::Boolean(true))
    );
    assert_eq!(
        run_one("(eq (quote (1 2)) (quote (1 2)))").unwrap(),
        EnvItem::Data(Item::Boolean(true))
    );
}

#[test]
fn list_natives_build_and_take_apart() {
    assert_eq!(
        run_one("(car (cons 1 2))").unwrap(),
        EnvItem::Data(Item::Number(1))
    );
    assert_eq!(
        run_one("(cdr (cons 1 2))").unwrap(),
        EnvItem::Data(Item::Number(2))
    );
    assert_eq!(
        run_one("(car (quote (7 8 9)))").unwrap(),
        EnvItem::Data(Item::Number(7))
    );
}

#[test]
fn type_predicates_answer_for_each_kind() {
    assert_eq!(
        run_one("(number? 3)").unwrap(),
        EnvItem::Data(Item::Boolean(true))
    );
    assert_eq!(
        run_one("(string? 3)").unwrap(),
        EnvItem::Data(Item::Boolean(false))
    );
    assert_eq!(
        run_one("(boolean? #f)").unwrap(),
        EnvItem::Data(Item::Boolean(true))
    );
    assert_eq!(
        run_one("(name? (quote abc))").unwrap(),
        EnvItem::Data(Item::Boolean(true))
    );
    assert_eq!(
        run_one("(list? (quote (1)))").unwrap(),
        EnvItem::Data(Item::Boolean(true))
    );
    assert_eq!(
        run_one("(none? (quote ()))").unwrap(),
        EnvItem::Data(Item::Boolean(true))
    );
    assert_eq!(
        run_one("(function? car)").unwrap(),
        EnvItem::Data(Item::Boolean(true))
    );
}

#[test]
fn arithmetic_faults_are_reported_not_computed() {
    assert!(matches!(run_one("(/ 1 0)"), Err(_)));
    assert!(matches!(run_one("(% 1 0)"), Err(_)));
    assert!(matches!(run_one("(+ 9223372036854775807 1)"), Err(_)));
    assert!(matches!(run_one("(- -9223372036854775807 2)"), Err(_)));
    assert!(matches!(run_one("(* 9223372036854775807 2)"), Err(_)));
}

#[test]
fn bad_arguments_are_faults() {
    assert!(matches!(run_one("(+ 1 #t)"), Err(_)));
    assert!(matches!(run_one("(car 5)"), Err(_)));
    assert!(matches!(run_one("(def 1 2)"), Err(_)));
    assert!(matches!(run_one("missing"), Err(_)));
}

#[test]
fn malformed_special_forms_are_faults() {
    assert!(matches!(run_one("(if #t 1)"), Err(_)));
    assert!(matches!(run_one("(quote 1 2)"), Err(_)));
}

#[test]
fn the_environment_survives_a_failing_form() {
    let results = run_all("(def x 41) (1 2) (+ x 1)");
    assert_eq!(results.len(), 3);
    assert!(matches!(results[1], Err(_)));
    assert_eq!(
        results[2].as_ref().unwrap(),
        &EnvItem::Data(Item::Number(42))
    );
}

#[test]
fn lambda_body_returns_its_last_expression() {
    assert_eq!(
        run_one("((lambda (x) (+ x 1) (+ x 2)) 1)").unwrap(),
        EnvItem::Data(Item::Number(3))
    );
}

#[test]
fn string_with_escapes_round_trips_through_quote() {
    assert_eq!(
        run_one("(quote \"a \\\"b\\\" c\")").unwrap(),
        EnvItem::Data(Item::String(String::from("a \"b\" c")))
    );
}
