use wasmrepl::elements::Elements;

fn elements_get_by_id<T: Clone>(elements: &Elements<T>, id: &str) -> T {
    elements.get_by_id(id).unwrap().clone()
}

fn elements_get<T: Clone>(elements: &Elements<T>, index: usize) -> T {
    elements.get_by_num(index).unwrap().clone()
}

#[test]
fn test_elements_grow_set_get() {
    let mut elements = Elements::new();
    elements.grow(0);
    elements.set_by_num(0, 1).unwrap();
    assert_eq!(elements_get(&elements, 0), 1);
}

#[test]
fn test_elements_set_get_by_id() {
    let mut elements = Elements::new();
    elements.grow_by_id("a", 0).unwrap();
    elements.set_by_id("a", 1).unwrap();
    assert_eq!(elements_get_by_id(&elements, "a"), 1);
}

#[test]
fn test_elements_gid_set_get() {
    let mut elements = Elements::new();
    elements.grow_by_id("a", 0).unwrap();
    elements.set_by_num(0, 1).unwrap();

    assert_eq!(elements_get(&elements, 0), 1);
}

#[test]
fn test_elements_set_by_id_error() {
    let mut elements = Elements::new();
    elements.grow_by_id("a", 0).unwrap();
    elements.set_by_id("a", 1).unwrap();

    assert!(elements.set_by_id("b", 2).is_err());
}

#[test]
fn test_elements_get_by_id_error() {
    let mut elements = Elements::new();
    elements.grow_by_id("a", 0).unwrap();
    elements.set_by_id("a", 1).unwrap();

    assert!(elements.get_by_id("b").is_err());
}

#[test]
fn test_elements_commit() {
    let mut elements = Elements::new();
    elements.grow(0);
    elements.set_by_num(0, 1).unwrap();
    elements.commit();

    elements.grow(0);
    elements.set_by_num(0, 2).unwrap();
    elements.set_by_num(1, 4).unwrap();
    elements.commit();

    assert_eq!(elements_get(&elements, 0), 2);
    assert_eq!(elements_get(&elements, 1), 4);
    assert!(elements.get_by_num(2).is_err());
}

#[test]
fn test_elements_commit_rollback() {
    let mut elements = Elements::new();
    elements.grow(0);
    elements.grow(0);
    elements.set_by_num(0, 1).unwrap();
    elements.set_by_num(1, 2).unwrap();
    elements.commit();

    elements.grow(0);
    elements.set_by_num(0, 3).unwrap();
    elements.set_by_num(2, 4).unwrap();
    elements.rollback();

    assert_eq!(elements_get(&elements, 0), 1);
    assert_eq!(elements_get(&elements, 1), 2);
    assert!(elements.get_by_num(2).is_err());
}

#[test]
fn test_elements_commit_rollback_id() {
    let mut elements = Elements::new();
    elements.grow_by_id("a", 0).unwrap();
    elements.grow_by_id("b", 0).unwrap();
    elements.set_by_id("a", 1).unwrap();
    elements.set_by_id("b", 2).unwrap();
    elements.commit();

    elements.grow_by_id("c", 0).unwrap();
    elements.set_by_id("a", 3).unwrap();
    elements.set_by_id("c", 4).unwrap();
    elements.rollback();

    assert_eq!(elements_get_by_id(&elements, "a"), 1);
    assert_eq!(elements_get_by_id(&elements, "b"), 2);
    assert!(elements.get_by_id("c").is_err());
}

#[test]
fn test_elements_rollback_recovery() {
    let mut elements = Elements::new();
    elements.grow(0);
    elements.set_by_num(0, 1).unwrap();
    elements.commit();

    elements.grow(0);
    elements.set_by_num(1, 2).unwrap();
    elements.rollback();

    elements.grow(0);
    elements.set_by_num(0, 3).unwrap();
    assert_eq!(elements_get(&elements, 0), 3);
    assert_eq!(elements_get(&elements, 1), 0);
}

#[test]
fn test_elements_rollback_recovery_id() {
    let mut elements = Elements::new();
    elements.grow_by_id("a", 0).unwrap();
    elements.set_by_id("a", 1).unwrap();
    elements.commit();

    elements.grow_by_id("b", 0).unwrap();
    elements.set_by_id("b", 2).unwrap();
    elements.rollback();

    elements.grow_by_id("c", 0).unwrap();
    elements.set_by_id("a", 3).unwrap();
    assert_eq!(elements_get_by_id(&elements, "a"), 3);
    assert_eq!(elements_get_by_id(&elements, "c"), 0);
}

#[test]
fn test_elements_get_by_index() {}
