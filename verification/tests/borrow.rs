use rust_lab::borrow::Fork;
use std::cell::RefCell;
use std::rc::Rc;

#[test]
fn test_impl_as_ref() {
    let fork = Rc::new(RefCell::new(Fork {
        value: "Val!".to_string(),
    }));

    let snapshot1 = fork.clone();
    let snapshot2 = fork.clone();

    println!("snapshot value {:?}", snapshot1.borrow().value().clone());

    snapshot1.borrow_mut().set_value("New Val!".to_string());

    println!("snapshot value {:?}", snapshot2.borrow().value().clone());
    assert_eq!(snapshot2.borrow().value(), "New Val!");
}

#[test]
fn set_value_then_value() {
    let mut fork = Fork { value: String::new() };
    fork.set_value("abc".to_string());
    assert_eq!(fork.value(), "abc");
}
