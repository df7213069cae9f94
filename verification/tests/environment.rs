use grove::environment::Environment;
use grove::types::Value;

fn num(x: f64) -> Value {
    Value::Number(x.to_bits())
}

#[test]
fn test_scope_chain() {
    let mut env = Environment::new();
    env.define("x", num(1.0));
    env.push_scope();
    env.define("y", num(2.0));
    assert_eq!(env.get("x"), Some(&num(1.0)));
    assert_eq!(env.get("y"), Some(&num(2.0)));
    env.pop_scope();
    assert_eq!(env.get("x"), Some(&num(1.0)));
    assert_eq!(env.get("y"), None);
}

#[test]
fn test_set_existing() {
    let mut env = Environment::new();
    env.define("x", num(1.0));
    env.push_scope();
    assert!(env.set("x", num(99.0)));
    assert_eq!(env.get("x"), Some(&num(99.0)));
}

#[test]
fn test_set_nonexistent() {
    let mut env = Environment::new();
    assert!(!env.set("x", num(1.0)));
}

#[test]
fn test_shadow() {
    let mut env = Environment::new();
    env.define("x", num(1.0));
    env.push_scope();
    env.define("x", num(2.0));
    assert_eq!(env.get("x"), Some(&num(2.0)));
    env.pop_scope();
    assert_eq!(env.get("x"), Some(&num(1.0)));
}

#[test]
fn the_global_scope_is_never_popped() {
    let mut env = Environment::new();
    env.define("g", num(7.0));
    env.pop_scope();
    env.pop_scope();
    assert_eq!(env.depth(), 1);
    assert_eq!(env.get("g"), Some(&num(7.0)));
}

#[test]
fn names_of_a_popped_scope_are_gone_and_outer_ones_keep_their_value() {
    let mut env = Environment::new();
    env.define("outer", num(1.0));
    env.push_scope();
    env.define("inner", num(2.0));
    env.define("outer", num(3.0));
    env.define("inner", num(4.0));
    assert_eq!(env.get("inner"), Some(&num(4.0)));
    assert_eq!(env.get("outer"), Some(&num(3.0)));
    env.pop_scope();
    assert_eq!(env.get("inner"), None);
    assert_eq!(env.get("outer"), Some(&num(1.0)));
}

#[test]
fn set_writes_to_the_nearest_scope_that_binds_the_name() {
    let mut env = Environment::new();
    env.define("x", num(1.0));
    env.push_scope();
    env.define("x", num(2.0));
    env.push_scope();
    assert!(env.set("x", num(5.0)));
    assert_eq!(env.get("x"), Some(&num(5.0)));
    env.pop_scope();
    assert_eq!(env.get("x"), Some(&num(5.0)));
    env.pop_scope();
    assert_eq!(env.get("x"), Some(&num(1.0)));
}
