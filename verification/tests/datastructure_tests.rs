//! Tests of the value model: cons normalisation, the car/cdr round trip,
//! truthiness, and deep equality.

use minilisp::datastructure::{cons_eq, item_eq, Cons, Item};

fn proper_list(items: Vec<Item>) -> Item {
    let mut out = Item::Nil;
    for item in items.into_iter().rev() {
        out = Item::Cons(Cons::new(item, out));
    }
    out
}

#[test]
fn cons_of_non_list_tail_is_improper_pair() {
    let c = Cons::new(Item::Number(1), Item::Number(2));
    assert_eq!(c.len(), 2);
    assert_eq!(*c.car(), Item::Number(1));
    assert_eq!(c.cdr(), Item::Number(2));
}

#[test]
fn cons_of_nil_tail_is_single_proper_list() {
    let c = Cons::new(Item::Number(1), Item::Nil);
    assert_eq!(c.len(), 1);
    assert_eq!(*c.car(), Item::Number(1));
    assert_eq!(c.cdr(), Item::Nil);
}

#[test]
fn cons_of_list_tail_flattens_and_keeps_properness() {
    let proper_tail = Cons::new(Item::Number(2), Item::Nil);
    let c = Cons::new(Item::Number(1), Item::Cons(proper_tail));
    assert_eq!(c.len(), 2);
    assert_eq!(*c.car(), Item::Number(1));
    // the tail of a flattened proper list is again a proper list
    assert_eq!(
        c.cdr(),
        Item::Cons(Cons::new(Item::Number(2), Item::Nil))
    );

    let improper_tail = Cons::new(Item::Number(2), Item::Number(3));
    let d = Cons::new(Item::Number(1), Item::Cons(improper_tail));
    assert_eq!(d.len(), 3);
    // properness of the tail is preserved: the last cdr is the raw value
    assert_eq!(
        d.cdr(),
        Item::Cons(Cons::new(Item::Number(2), Item::Number(3)))
    );
}

#[test]
fn car_cdr_round_trip_reaches_the_last_element() {
    let list = proper_list(vec![
        Item::Number(10),
        Item::Number(20),
        Item::Number(30),
    ]);
    let first = match list {
        Item::Cons(c) => c,
        _ => panic!("expected a list"),
    };
    let second = match first.cdr() {
        Item::Cons(c) => c,
        _ => panic!("expected a list"),
    };
    let third = match second.cdr() {
        Item::Cons(c) => c,
        _ => panic!("expected a list"),
    };
    assert_eq!(*third.car(), Item::Number(30));
    assert_eq!(third.cdr(), Item::Nil);
}

#[test]
fn fixed_shape_accessors_index_positions() {
    let list = proper_list(vec![
        Item::Number(1),
        Item::Number(2),
        Item::Number(3),
        Item::Number(4),
    ]);
    let c = match list {
        Item::Cons(c) => c,
        _ => panic!("expected a list"),
    };
    assert_eq!(*c.cadr(), Item::Number(2));
    assert_eq!(*c.caddr(), Item::Number(3));
    assert_eq!(*c.cadddr(), Item::Number(4));
}

#[test]
fn truthiness_of_every_kind() {
    assert!(!Item::Number(0).truthy());
    assert!(Item::Number(7).truthy());
    assert!(Item::Number(-7).truthy());
    assert!(!Item::String(String::new()).truthy());
    assert!(Item::String(String::from("x")).truthy());
    assert!(Item::Boolean(true).truthy());
    assert!(!Item::Boolean(false).truthy());
    assert!(Item::Name(String::from("x")).truthy());
    assert!(!Item::Nil.truthy());
    let nonempty = Cons::new(Item::Number(1), Item::Nil);
    assert!(Item::Cons(nonempty).truthy());
    let empty = Cons::default();
    assert!(!Item::Cons(empty).truthy());
    // the improper tail counts as an element, so such a pair is truthy
    let improper = Cons::new(Item::Nil, Item::Number(0));
    assert!(Item::Cons(improper).truthy());
}

#[test]
fn deep_equality_follows_structure() {
    let a = proper_list(vec![Item::Number(1), Item::String(String::from("s"))]);
    let b = proper_list(vec![Item::Number(1), Item::String(String::from("s"))]);
    let c = proper_list(vec![Item::Number(1), Item::String(String::from("t"))]);
    assert!(item_eq(&a, &b));
    assert!(!item_eq(&a, &c));
    assert!(!item_eq(&a, &Item::Number(1)));
    let p = Cons::new(Item::Number(1), Item::Number(2));
    let q = Cons::new(Item::Number(1), Item::Number(2));
    assert!(cons_eq(&p, &q));
}

#[test]
fn clone_preserves_the_value() {
    let a = proper_list(vec![
        Item::Number(1),
        Item::Cons(Cons::new(Item::Name(String::from("x")), Item::Number(9))),
    ]);
    let b = a.clone();
    assert!(item_eq(&a, &b));
    assert_eq!(a, b);
}
