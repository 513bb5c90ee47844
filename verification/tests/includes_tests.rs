use susshi::config::{Config, ConfigEntry, Defaults, Group, IncludeEntry, IncludeWarning, JumpConfig, Server};
use susshi::includes::{attach_include, include_check, LoadingStack};

fn group(name: &str, servers: Vec<Server>) -> ConfigEntry {
    ConfigEntry::Group(Group {
        name: name.to_string(),
        user: None,
        ssh_key: None,
        mode: None,
        ssh_port: None,
        ssh_options: None,
        wallix: None,
        wallix_group: None,
        jump: None,
        environments: None,
        servers: Some(servers),
        probe_filesystems: None,
        tunnels: None,
        tags: None,
    })
}

fn server(name: &str, host: &str) -> Server {
    Server { name: name.to_string(), host: host.to_string(), ..Default::default() }
}

fn defaults(user: Option<&str>, port: Option<u16>) -> Defaults {
    let mut d = Defaults::empty();
    d.user = user.map(String::from);
    d.ssh_port = port;
    d
}

fn entry_for(label: &str, merge_defaults: bool) -> IncludeEntry {
    IncludeEntry { label: label.to_string(), path: format!("{label}.yml"), merge_defaults }
}

/// The main file with its included files attached, as the loader does.
fn merged(mut main: Config, subs: Vec<(IncludeEntry, Config)>) -> Config {
    let main_defaults = main.defaults.clone().unwrap_or_else(Defaults::empty);
    for (entry, sub) in subs {
        let path = format!("/cfg/{}", entry.path);
        attach_include(&mut main, &entry, &main_defaults, sub, path);
    }
    main.sort();
    main
}

#[test]
fn test_includes_basic() {
    let sub = Config {
        defaults: Some(defaults(Some("sub_user"), None)),
        groups: vec![group("NS_Group", vec![server("ns_srv", "192.168.1.1")])],
        ..Default::default()
    };
    let main = Config {
        defaults: Some(defaults(Some("main_user"), None)),
        groups: vec![group("Main_Group", vec![server("main_srv", "10.0.0.1")])],
        ..Default::default()
    };
    let config = merged(main, vec![(entry_for("CES", false), sub)]);
    let resolved = config.resolve().unwrap();
    let main_srv = resolved.iter().find(|s| s.name == "main_srv").unwrap();
    assert_eq!(main_srv.namespace, "");
    assert_eq!(main_srv.user, "main_user");
    let ns_srv = resolved.iter().find(|s| s.name == "ns_srv").unwrap();
    assert_eq!(ns_srv.namespace, "CES");
    assert_eq!(ns_srv.user, "sub_user");
    let has_namespace =
        config.groups.iter().any(|e| if let ConfigEntry::Namespace(ns) = e { ns.label == "CES" } else { false });
    assert!(has_namespace, "Expected Namespace(CES) in config.groups");
}

#[test]
fn test_includes_defaults_isolation() {
    let sub = Config {
        defaults: Some(defaults(Some("sub_user"), Some(9999))),
        groups: vec![group("Sub", vec![server("sub_srv", "1.2.3.4")])],
        ..Default::default()
    };
    let main = Config {
        defaults: Some(defaults(Some("main_user"), Some(22))),
        groups: vec![group("Main", vec![server("main_srv", "5.6.7.8")])],
        ..Default::default()
    };
    let resolved = merged(main, vec![(entry_for("SUB", false), sub)]).resolve().unwrap();
    let main_srv = resolved.iter().find(|s| s.name == "main_srv").unwrap();
    assert_eq!(main_srv.user, "main_user");
    assert_eq!(main_srv.port, 22);
    let sub_srv = resolved.iter().find(|s| s.name == "sub_srv").unwrap();
    assert_eq!(sub_srv.user, "sub_user");
    assert_eq!(sub_srv.port, 9999);
}

#[test]
fn test_includes_nested_recursive() {
    let leaf = Config { groups: vec![group("Leaf", vec![server("leaf_srv", "9.9.9.9")])], ..Default::default() };
    let sub = merged(
        Config { groups: vec![group("Sub", vec![server("sub_srv", "8.8.8.8")])], ..Default::default() },
        vec![(entry_for("LEAF", false), leaf)],
    );
    let config = merged(Config::default(), vec![(entry_for("SUB", false), sub)]);
    let labels: Vec<&str> = config
        .groups
        .iter()
        .filter_map(|e| if let ConfigEntry::Namespace(ns) = e { Some(ns.label.as_str()) } else { None })
        .collect();
    assert!(labels.contains(&"SUB"), "Missing SUB, got {:?}", labels);
    assert!(labels.contains(&"SUB / LEAF"), "Missing 'SUB / LEAF', got {:?}", labels);
    let resolved = config.resolve().unwrap();
    assert!(resolved.iter().any(|s| s.name == "sub_srv" && s.namespace == "SUB"));
    assert!(resolved.iter().any(|s| s.name == "leaf_srv" && s.namespace == "SUB / LEAF"));
}

#[test]
fn test_includes_merge_defaults() {
    let sub = Config {
        defaults: Some(defaults(Some("sub_user"), None)),
        groups: vec![group("Sub", vec![server("sub_srv", "1.2.3.4")])],
        ..Default::default()
    };
    let main = Config { defaults: Some(defaults(Some("main_user"), Some(2222))), ..Default::default() };
    let resolved = merged(main, vec![(entry_for("SUB", true), sub)]).resolve().unwrap();
    let sub_srv = resolved.iter().find(|s| s.name == "sub_srv").unwrap();
    assert_eq!(sub_srv.user, "sub_user");
    assert_eq!(sub_srv.port, 2222);
}

#[test]
fn test_includes_inherit_main_defaults_automatically() {
    let sub = Config { groups: vec![group("SubGroup", vec![server("sub_srv", "2.3.4.5")])], ..Default::default() };
    let mut d = defaults(Some("main_user"), Some(2222));
    d.jump = Some(vec![JumpConfig { host: Some("jump.example.com".to_string()), user: Some("juser".to_string()) }]);
    let main = Config { defaults: Some(d), ..Default::default() };
    let resolved = merged(main, vec![(entry_for("SUB", false), sub)]).resolve().unwrap();
    let sub_srv = resolved.iter().find(|s| s.name == "sub_srv").unwrap();
    assert_eq!(sub_srv.user, "main_user");
    assert_eq!(sub_srv.port, 2222);
    assert_eq!(sub_srv.jump_host.as_deref(), Some("juser@jump.example.com"));
}

#[test]
fn test_namespace_server_has_namespace_field() {
    let sub = Config {
        groups: vec![ConfigEntry::Group(Group {
            name: "NS_G".to_string(),
            user: None,
            ssh_key: None,
            mode: None,
            ssh_port: None,
            ssh_options: None,
            wallix: None,
            wallix_group: None,
            jump: None,
            environments: None,
            servers: Some(vec![Server { user: Some("ns_user".to_string()), ..server("ns_srv", "10.10.10.1") }]),
            probe_filesystems: None,
            tunnels: None,
            tags: None,
        })],
        ..Default::default()
    };
    let resolved = merged(Config::default(), vec![(entry_for("CRT", false), sub)]).resolve().unwrap();
    let ns_srv = resolved.iter().find(|s| s.name == "ns_srv").unwrap();
    assert_eq!(ns_srv.namespace, "CRT");
    assert_eq!(ns_srv.group_name, "NS_G");
}

#[test]
fn include_check_reports_cycle_missing_file_or_loads() {
    let stack = vec!["/etc/a.yml".to_string(), "/etc/b.yml".to_string()];
    match include_check("B", "b.yml", &Ok("/etc/b.yml".to_string()), &stack) {
        Some(IncludeWarning::Circular { label, path }) => {
            assert_eq!(label, "B");
            assert_eq!(path, "/etc/b.yml");
        }
        _ => panic!("expected a cycle"),
    }
    match include_check("C", "c.yml", &Err("No such file".to_string()), &stack) {
        Some(IncludeWarning::LoadError { label, path, error }) => {
            assert_eq!(label, "C");
            assert_eq!(path, "c.yml");
            assert_eq!(error, "No such file");
        }
        _ => panic!("expected a load error"),
    }
    assert!(include_check("D", "d.yml", &Ok("/etc/d.yml".to_string()), &stack).is_none());
}

#[test]
fn loading_stack_reports_a_cycle_only_while_the_file_loads() {
    let mut stack = LoadingStack::new();
    stack.enter("/etc/main.yml".to_string());
    stack.enter("/etc/sub.yml".to_string());
    assert!(matches!(
        stack.check("back", "main.yml", &Ok("/etc/main.yml".to_string())),
        Some(IncludeWarning::Circular { .. })
    ));
    stack.leave();
    assert!(stack.check("sub", "sub.yml", &Ok("/etc/sub.yml".to_string())).is_none());
    assert_eq!(stack.paths, vec!["/etc/main.yml".to_string()]);
    stack.leave();
    stack.leave();
    assert!(stack.paths.is_empty());
}
