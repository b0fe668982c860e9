//! Tests of the lexically scoped environment: shadowing through pushed
//! layers, and global definitions landing in the outermost layer.

use minilisp::datastructure::{EnvItem, Environment, Item};

#[test]
fn shadowing_inner_layer_wins_until_popped() {
    let mut env = Environment::default();
    env.assign("x", EnvItem::Data(Item::Number(2)));
    env.push();
    env.assign("x", EnvItem::Data(Item::Number(1)));
    assert_eq!(env.lookup("x"), EnvItem::Data(Item::Number(1)));
    env.pop();
    assert_eq!(env.lookup("x"), EnvItem::Data(Item::Number(2)));
}

#[test]
fn define_hits_the_outermost_layer_at_any_depth() {
    let mut env = Environment::default();
    env.push();
    env.push();
    env.define("x", EnvItem::Data(Item::Number(3)));
    assert_eq!(env.lookup("x"), EnvItem::Data(Item::Number(3)));
    env.pop();
    env.pop();
    // the binding survives every pop: it lives in the global layer
    assert_eq!(env.lookup("x"), EnvItem::Data(Item::Number(3)));
}

#[test]
fn lookup_of_an_unbound_name_is_the_absence_marker() {
    let env = Environment::default();
    assert_eq!(env.lookup("missing"), EnvItem::Nil);
}

#[test]
fn assign_returns_the_prior_value() {
    let mut env = Environment::default();
    assert_eq!(env.assign("x", EnvItem::Data(Item::Number(1))), None);
    assert_eq!(
        env.assign("x", EnvItem::Data(Item::Number(2))),
        Some(EnvItem::Data(Item::Number(1)))
    );
    assert_eq!(env.lookup("x"), EnvItem::Data(Item::Number(2)));
}

#[test]
fn popping_the_last_layer_is_a_guarded_no_op() {
    let mut env = Environment::default();
    env.assign("x", EnvItem::Data(Item::Number(5)));
    env.pop();
    env.pop();
    assert_eq!(env.lookup("x"), EnvItem::Data(Item::Number(5)));
}
