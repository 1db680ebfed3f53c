use ztar_rod::datatype::DataType;
use ztar_rod::scope::Scope;

fn name(text: &str) -> String {
    text.to_string()
}

#[test]
fn new_scope_has_one_empty_layer() {
    let scope = Scope::new();
    assert_eq!(scope.depth(), 1);
    assert_eq!(scope.lookup_name("x"), None);
    assert_eq!(scope.lookup_ptr(0x8000_0000), None);
    assert_eq!(scope.lookup_name_depth("x", 0), None);
}

#[test]
fn push_and_pop_change_the_depth() {
    let mut scope = Scope::new();
    scope.push();
    scope.push();
    assert_eq!(scope.depth(), 3);
    assert!(scope.pop().is_some());
    assert_eq!(scope.depth(), 2);
}

#[test]
fn pop_returns_the_current_layer() {
    let mut scope = Scope::new();
    scope.insert_ptr(7, name("outer"), DataType::Int);
    scope.push();
    scope.insert_ptr(9, name("inner"), DataType::Bool);
    let layer = scope.pop().unwrap();
    assert_eq!(layer.lookup_name("inner"), Some(&DataType::Bool));
    assert_eq!(layer.lookup_ptr(9), Some("inner"));
    assert_eq!(layer.lookup_name("outer"), None);
    assert_eq!(layer.lookup_ptr(7), None);
    let layer = scope.pop().unwrap();
    assert_eq!(layer.lookup_name("outer"), Some(&DataType::Int));
    assert_eq!(layer.lookup_ptr(7), Some("outer"));
}

#[test]
fn pop_of_an_empty_scope_is_none() {
    let mut scope = Scope::new();
    assert!(scope.pop().is_some());
    assert_eq!(scope.depth(), 0);
    assert!(scope.pop().is_none());
    assert_eq!(scope.depth(), 0);
    assert_eq!(scope.lookup_name("x"), None);
    assert_eq!(scope.lookup_name_depth("x", 3), None);
}

#[test]
fn inner_name_shadows_outer_until_pop() {
    let mut scope = Scope::new();
    scope.insert_name(name("x"), DataType::Int);
    scope.insert_name(name("y"), DataType::Float);
    scope.push();
    assert_eq!(scope.lookup_name("x"), Some(&DataType::Int));
    scope.insert_name(name("x"), DataType::Bool);
    assert_eq!(scope.lookup_name("x"), Some(&DataType::Bool));
    assert_eq!(scope.lookup_name("y"), Some(&DataType::Float));
    scope.pop();
    assert_eq!(scope.lookup_name("x"), Some(&DataType::Int));
    assert_eq!(scope.lookup_name("y"), Some(&DataType::Float));
}

#[test]
fn inner_ptr_shadows_outer_until_pop() {
    let mut scope = Scope::new();
    scope.insert_ptr(0x10, name("outer"), DataType::Asm(vec![DataType::Int]));
    scope.push();
    assert_eq!(scope.lookup_ptr(0x10), Some("outer"));
    scope.insert_ptr(0x10, name("inner"), DataType::Fun(vec![]));
    assert_eq!(scope.lookup_ptr(0x10), Some("inner"));
    assert_eq!(scope.lookup_name("inner"), Some(&DataType::Fun(vec![])));
    assert_eq!(scope.lookup_name("outer"), Some(&DataType::Asm(vec![DataType::Int])));
    scope.pop();
    assert_eq!(scope.lookup_ptr(0x10), Some("outer"));
    assert_eq!(scope.lookup_name("inner"), None);
}

#[test]
fn insert_name_returns_previous_of_current_layer_only() {
    let mut scope = Scope::new();
    assert_eq!(scope.insert_name(name("x"), DataType::Int), None);
    scope.push();
    assert_eq!(scope.insert_name(name("x"), DataType::Bool), None);
    assert_eq!(scope.insert_name(name("x"), DataType::Float), Some(DataType::Bool));
    scope.pop();
    assert_eq!(scope.insert_name(name("x"), DataType::Any), Some(DataType::Int));
    assert_eq!(scope.lookup_name("x"), Some(&DataType::Any));
}

#[test]
fn insert_ptr_returns_previous_of_current_layer_only() {
    let mut scope = Scope::new();
    assert_eq!(scope.insert_ptr(1, name("f"), DataType::Fun(vec![])), None);
    scope.push();
    assert_eq!(scope.insert_ptr(1, name("f"), DataType::Asm(vec![])), None);
    assert_eq!(
        scope.insert_ptr(2, name("f"), DataType::Fun(vec![DataType::Int])),
        Some(DataType::Asm(vec![]))
    );
    assert_eq!(scope.lookup_ptr(1), Some("f"));
    assert_eq!(scope.lookup_ptr(2), Some("f"));
    assert_eq!(scope.lookup_name("f"), Some(&DataType::Fun(vec![DataType::Int])));
}

#[test]
fn insert_ptr_replaces_the_name_of_an_address() {
    let mut scope = Scope::new();
    scope.insert_ptr(5, name("old"), DataType::Int);
    scope.insert_ptr(5, name("new"), DataType::Bool);
    assert_eq!(scope.lookup_ptr(5), Some("new"));
    assert_eq!(scope.lookup_name("old"), Some(&DataType::Int));
    assert_eq!(scope.lookup_name("new"), Some(&DataType::Bool));
}

#[test]
fn lookup_name_depth_stops_at_the_given_depth() {
    let mut scope = Scope::new();
    scope.insert_name(name("c"), DataType::Int);
    scope.push();
    scope.insert_name(name("b"), DataType::Bool);
    scope.push();
    scope.insert_name(name("a"), DataType::Float);

    assert_eq!(scope.lookup_name_depth("a", 0), Some(&DataType::Float));
    assert_eq!(scope.lookup_name_depth("b", 0), None);
    assert_eq!(scope.lookup_name_depth("c", 0), None);
    assert_eq!(scope.lookup_name_depth("b", 1), Some(&DataType::Bool));
    assert_eq!(scope.lookup_name_depth("c", 1), None);
    assert_eq!(scope.lookup_name_depth("c", 2), Some(&DataType::Int));
    assert_eq!(scope.lookup_name_depth("c", 3), Some(&DataType::Int));
    assert_eq!(scope.lookup_name_depth("c", usize::MAX), Some(&DataType::Int));
    assert_eq!(scope.lookup_name_depth("d", usize::MAX), None);
}

#[test]
fn lookup_name_depth_takes_the_nearest_layer() {
    let mut scope = Scope::new();
    scope.insert_name(name("x"), DataType::Int);
    scope.push();
    scope.push();
    scope.insert_name(name("x"), DataType::Bool);
    assert_eq!(scope.lookup_name_depth("x", 0), Some(&DataType::Bool));
    assert_eq!(scope.lookup_name_depth("x", 2), Some(&DataType::Bool));
    scope.pop();
    assert_eq!(scope.lookup_name_depth("x", 0), None);
    assert_eq!(scope.lookup_name_depth("x", 1), Some(&DataType::Int));
}

#[test]
fn lookup_ptr_takes_the_nearest_layer_that_has_the_address() {
    let mut scope = Scope::new();
    scope.insert_ptr(1, name("one"), DataType::Int);
    scope.push();
    scope.insert_ptr(2, name("two"), DataType::Int);
    assert_eq!(scope.lookup_ptr(1), Some("one"));
    assert_eq!(scope.lookup_ptr(2), Some("two"));
    assert_eq!(scope.lookup_ptr(3), None);
}
