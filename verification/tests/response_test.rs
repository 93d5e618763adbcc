use wasmrepl::model::Index;
use wasmrepl::response::{Control, Response};

#[test]
fn test_new() {
    let resp = Response::new();
    assert_eq!(resp.message(), "");
    assert_eq!(resp.control, Control::Proceed);
    assert_eq!(resp.requires_empty, true);
}

#[test]
fn test_new_index() {
    let resp = Response::new_index("local", 0, None);
    assert_eq!(resp.message(), "local ;0;");
    assert_eq!(resp.requires_empty, true);
}

#[test]
fn test_new_index_with_id() {
    let resp = Response::new_index("local", 0, Some("foo".to_string()));
    assert_eq!(resp.message(), "local ;0; foo");
}

#[test]
fn test_extend() {
    let mut resp1 = Response::new_index("local", 0, None);
    let mut resp2 = Response::new_index("local", 1, None);
    resp2.requires_empty = false;
    resp2.control = Control::Return;
    resp1.extend(resp2);
    assert_eq!(resp1.message(), "local ;0;\nlocal ;1;");
    assert_eq!(resp1.control, Control::Return);
    assert_eq!(resp1.requires_empty, false)
}

#[test]
fn test_add_messages() {
    let mut resp = Response::new();
    resp.add_message("foo".to_string());
    resp.add_message("bar".to_string());
    assert_eq!(resp.message(), "foo\nbar");
}

#[test]
fn test_new_return() {
    let resp = Response::new_ctrl(Control::Return);
    assert_eq!(resp.message(), "");
    assert_eq!(resp.control, Control::Return);
}

#[test]
fn test_requires_empty() {
    let resp = Response::new_ctrl(Control::ExecFunc(Index::Id(String::from("test"))));
    assert!(resp.requires_empty);
}

#[test]
fn test_not_requires_empty() {
    let resp = Response::new_ctrl(Control::Return);
    assert!(!resp.requires_empty);

    let resp = Response::new_ctrl(Control::Branch(Index::Num(0)));
    assert!(!resp.requires_empty);
}

#[test]
fn test_new_exec_func() {
    let resp = Response::new_ctrl(Control::ExecFunc(Index::Id(String::from("fn"))));
    assert_eq!(resp.message(), "");
    match resp.control {
        Control::ExecFunc(Index::Id(str)) => assert_eq!(str, "fn"),
        _ => panic!("expected ExecFunc"),
    }
}
