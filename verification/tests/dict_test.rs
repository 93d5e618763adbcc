use wasmrepl::dict::Dict;

#[test]
fn test_dict() {
    let mut dict = Dict::new();
    dict.set(String::from("a"), 1);
    dict.set(String::from("b"), 2);
    dict.set(String::from("c"), 3);
    dict.commit();
    assert_eq!(dict.get("a").unwrap(), 1);
    assert_eq!(dict.get("b").unwrap(), 2);
    assert_eq!(dict.get("c").unwrap(), 3);
}

#[test]
fn test_commit() {
    let mut dict = Dict::new();
    dict.set(String::from("a"), 1);
    dict.set(String::from("b"), 2);
    dict.commit();

    dict.set(String::from("c"), 3);
    dict.commit();
    assert_eq!(dict.get("a").unwrap(), 1);
    assert_eq!(dict.get("b").unwrap(), 2);
}

#[test]
fn test_rollback() {
    let mut dict = Dict::new();
    dict.set(String::from("a"), 1);
    dict.set(String::from("b"), 2);
    dict.commit();

    dict.set(String::from("c"), 3);
    dict.rollback();
    assert_eq!(dict.get("a").unwrap(), 1);
    assert_eq!(dict.get("b").unwrap(), 2);
    assert!(dict.get("c").is_err());
}
