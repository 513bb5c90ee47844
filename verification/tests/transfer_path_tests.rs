use susshi::transfers::{first_jump_hop, remote_home_tail};

#[test]
fn first_hop_of_a_chain() {
    assert_eq!(
        first_jump_hop("ops@j1.example:2222,root@j2", "admin"),
        ("ops".to_string(), "j1.example".to_string(), 2222)
    );
    assert_eq!(first_jump_hop("j1", "admin"), ("admin".to_string(), "j1".to_string(), 22));
    assert_eq!(first_jump_hop("u@h:notaport", "admin"), ("u".to_string(), "h".to_string(), 22));
    assert_eq!(first_jump_hop("h:70000", "x"), ("x".to_string(), "h".to_string(), 22));
}

#[test]
fn remote_paths_under_home() {
    assert_eq!(remote_home_tail("/etc/hosts"), None);
    assert_eq!(remote_home_tail("~"), Some(String::new()));
    assert_eq!(remote_home_tail("~/foo/bar"), Some("foo/bar".to_string()));
    assert_eq!(remote_home_tail("~/~/x"), Some("x".to_string()));
    assert_eq!(remote_home_tail("~//x"), Some("x".to_string()));
    assert_eq!(remote_home_tail("~x"), Some("x".to_string()));
}
