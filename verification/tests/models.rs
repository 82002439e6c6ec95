//! The observable collection registry: bounds checking, the id lifecycle,
//! and the exact error messages.

use ring_slint::model::{ModelError, ModelRegistry};
use ring_slint::value::UiValue;

fn s(text: &str) -> String {
    text.to_string()
}

#[test]
fn create_assigns_increasing_ids() {
    let mut reg = ModelRegistry::new();
    assert!(reg.has_capacity());
    let a = reg.create("items");
    let b = reg.create("rows");
    assert_eq!(a, 1);
    assert_eq!(b, 2);
    assert_eq!(reg.count(a), Ok(0));
    assert_eq!(reg.count(b), Ok(0));
}

#[test]
fn destroyed_id_reports_not_found() {
    // Destroy, then get: the stale id must fail with "not found" naming
    // that id — never reach another collection.
    let mut reg = ModelRegistry::new();
    let id = reg.create("items");
    reg.push(id, UiValue::Int(1)).unwrap();
    reg.destroy(id).unwrap();
    let err = reg.get(id, 0).unwrap_err();
    assert_eq!(err, ModelError::NotFound { id });
    assert_eq!(err.message(), "Model 1 not found");
}

#[test]
fn destroy_is_idempotent() {
    let mut reg = ModelRegistry::new();
    let id = reg.create("items");
    assert_eq!(reg.destroy(id), Ok(()));
    assert_eq!(reg.destroy(id), Err(ModelError::NotFound { id }));
}

#[test]
fn destroyed_ids_are_never_reused() {
    let mut reg = ModelRegistry::new();
    let a = reg.create("one");
    reg.destroy(a).unwrap();
    let b = reg.create("two");
    assert_ne!(a, b);
    assert!(reg.get(a, 0).is_err());
}

#[test]
fn bounds_on_a_two_element_model() {
    // With 2 elements: get(2) fails (valid indices are 0 and 1),
    // insert at 2 appends, insert at 3 fails.
    let mut reg = ModelRegistry::new();
    let id = reg.create("rows");
    reg.push(id, UiValue::Int(10)).unwrap();
    reg.push(id, UiValue::Int(20)).unwrap();

    let err = reg.get(id, 2).unwrap_err();
    assert_eq!(
        err,
        ModelError::OutOfBounds { id, property: s("rows"), index: 2, len: 2 }
    );
    assert_eq!(err.message(), "Index 2 out of bounds for model 1 'rows' (size: 2)");

    assert_eq!(reg.insert(id, 2, UiValue::Int(30)), Ok(()));
    assert_eq!(reg.count(id), Ok(3));
    assert_eq!(reg.get(id, 2), Ok(&UiValue::Int(30)));

    let err = reg.insert(id, 4, UiValue::Int(40)).unwrap_err();
    assert_eq!(
        err,
        ModelError::OutOfBoundsInsert { id, property: s("rows"), index: 4, len: 3 }
    );
    assert_eq!(
        err.message(),
        "Index 4 out of bounds for insert in model 1 'rows' (size: 3)"
    );
}

#[test]
fn set_remove_and_clear() {
    let mut reg = ModelRegistry::new();
    let id = reg.create("rows");
    reg.push(id, UiValue::Int(1)).unwrap();
    reg.push(id, UiValue::Int(2)).unwrap();
    reg.push(id, UiValue::Int(3)).unwrap();

    reg.set(id, 1, UiValue::Str(s("two"))).unwrap();
    assert_eq!(reg.get(id, 1), Ok(&UiValue::Str(s("two"))));

    let err = reg.set(id, 3, UiValue::Int(0)).unwrap_err();
    assert_eq!(err.message(), "Index 3 out of bounds for model 1 'rows' (size: 3)");

    reg.remove(id, 0).unwrap();
    assert_eq!(reg.count(id), Ok(2));
    assert_eq!(reg.get(id, 0), Ok(&UiValue::Str(s("two"))));
    assert!(reg.remove(id, 2).is_err());

    reg.clear(id).unwrap();
    assert_eq!(reg.count(id), Ok(0));
    // The cleared collection is still live; only destroy removes it.
    assert_eq!(reg.push(id, UiValue::Int(9)), Ok(()));
}

#[test]
fn operations_on_unknown_ids_fail() {
    let mut reg = ModelRegistry::new();
    assert_eq!(reg.push(77, UiValue::Int(1)), Err(ModelError::NotFound { id: 77 }));
    assert_eq!(reg.count(77), Err(ModelError::NotFound { id: 77 }));
    assert_eq!(reg.clear(77), Err(ModelError::NotFound { id: 77 }));
    assert_eq!(
        reg.insert(77, 0, UiValue::Int(1)),
        Err(ModelError::NotFound { id: 77 })
    );
    assert_eq!(reg.set(77, 0, UiValue::Int(1)), Err(ModelError::NotFound { id: 77 }));
    assert_eq!(reg.remove(77, 0), Err(ModelError::NotFound { id: 77 }));
    assert_eq!(reg.get(77, 0), Err(ModelError::NotFound { id: 77 }));
}

#[test]
fn independent_models_do_not_interfere() {
    let mut reg = ModelRegistry::new();
    let a = reg.create("left");
    let b = reg.create("right");
    reg.push(a, UiValue::Int(1)).unwrap();
    reg.push(b, UiValue::Int(2)).unwrap();
    reg.destroy(a).unwrap();
    assert_eq!(reg.get(b, 0), Ok(&UiValue::Int(2)));
    assert_eq!(reg.count(b), Ok(1));
}
