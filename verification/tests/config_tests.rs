use susshi::config::{
    merge_bastion, BastionConfig, Config, ConfigEntry, ConnectionMode, Defaults, Environment,
    Group, JumpConfig, NamespaceEntry, Server, TunnelConfig,
};
use susshi::vars::{interpolate, undefined_vars};

fn vars(pairs: &[(&str, &str)]) -> Vec<(String, String)> {
    pairs.iter().map(|(k, v)| (k.to_string(), v.to_string())).collect()
}

fn group(name: &str) -> Group {
    Group {
        name: name.to_string(),
        user: None,
        ssh_key: None,
        mode: None,
        ssh_port: None,
        ssh_options: None,
        wallix: None,
        wallix_group: None,
        jump: None,
        environments: None,
        servers: None,
        probe_filesystems: None,
        tunnels: None,
        tags: None,
    }
}

fn env(name: &str, servers: Vec<Server>) -> Environment {
    Environment {
        name: name.to_string(),
        user: None,
        ssh_key: None,
        mode: None,
        ssh_port: None,
        ssh_options: None,
        wallix: None,
        wallix_group: None,
        jump: None,
        servers,
        probe_filesystems: None,
        tunnels: None,
        tags: None,
    }
}

fn server(name: &str, host: &str) -> Server {
    Server { name: name.to_string(), host: host.to_string(), ..Default::default() }
}

#[test]
fn test_interpolate_replaces_known_vars() {
    let vars = vars(&[("host", "bastion.prod.example.com"), ("env", "prod")]);
    assert_eq!(interpolate("{{ host }}", &vars), "bastion.prod.example.com");
    assert_eq!(interpolate("{{ env }}-server", &vars), "prod-server");
    assert_eq!(interpolate("{{ env }}.{{ host }}", &vars), "prod.bastion.prod.example.com");
}

#[test]
fn test_interpolate_leaves_undefined_vars() {
    let vars: Vec<(String, String)> = Vec::new();
    assert_eq!(interpolate("{{ unknown }}", &vars), "{{ unknown }}");
}

#[test]
fn test_interpolate_no_placeholder() {
    let vars = vars(&[("x", "y")]);
    assert_eq!(interpolate("plain-host", &vars), "plain-host");
}

#[test]
fn interpolate_replaces_every_occurrence() {
    let vars = vars(&[("x", "1")]);
    assert_eq!(interpolate("{{ x }}-{{ x }}-{{x}}", &vars), "1-1-{{x}}");
}

#[test]
fn test_undefined_vars_finds_missing() {
    let vars = vars(&[("a", "1")]);
    let result = undefined_vars("{{ a }} and {{ b }}", &vars);
    assert_eq!(result, vec!["b".to_string()]);
}

#[test]
fn test_undefined_vars_empty_when_all_defined() {
    let vars = vars(&[("x", "v")]);
    assert!(undefined_vars("{{ x }}", &vars).is_empty());
}

#[test]
fn undefined_vars_trims_names_and_ignores_unclosed() {
    let vars: Vec<(String, String)> = Vec::new();
    assert_eq!(undefined_vars("{{  y  }} {{ }} {{ z", &vars), vec!["y".to_string()]);
}

#[test]
fn test_resolve_applies_interpolation() {
    let mut g = group("G");
    g.servers = Some(vec![server("jump-srv", "{{ jump }}")]);
    let config = Config {
        defaults: None,
        groups: vec![ConfigEntry::Group(g)],
        includes: vec![],
        vars: vars(&[("jump", "bastion.example.com")]),
    };
    let resolved = config.resolve().unwrap();
    assert_eq!(resolved[0].host, "bastion.example.com");
    assert_eq!(resolved[0].name, "jump-srv");
}

#[test]
fn test_merge_bastion() {
    let parent = Some(BastionConfig {
        host: Some("parent_host".to_string()),
        user: Some("parent_user".to_string()),
        template: Some("parent_tmpl".to_string()),
        ..Default::default()
    });
    let child = BastionConfig { host: None, user: Some("child_user".to_string()), template: None, ..Default::default() };
    let merged = merge_bastion(&parent, &Some(child)).unwrap();
    assert_eq!(merged.user, Some("child_user".to_string()));
    assert_eq!(merged.host, Some("parent_host".to_string()));
    assert_eq!(merged.template, Some("parent_tmpl".to_string()));
}

#[test]
fn test_sorting_mixed() {
    let mut config = Config {
        defaults: None,
        groups: vec![
            ConfigEntry::Group(group("Zeus")),
            ConfigEntry::Server(server("Alpha", "10.0.0.1")),
            ConfigEntry::Group(group("Beta")),
        ],
        includes: vec![],
        vars: Default::default(),
    };
    config.sort();
    match &config.groups[0] {
        ConfigEntry::Server(s) => assert_eq!(s.name, "Alpha"),
        _ => panic!("Expected Alpha first"),
    }
    match &config.groups[1] {
        ConfigEntry::Group(g) => assert_eq!(g.name, "Beta"),
        _ => panic!("Expected Beta second"),
    }
    match &config.groups[2] {
        ConfigEntry::Group(g) => assert_eq!(g.name, "Zeus"),
        _ => panic!("Expected Zeus third"),
    }
}

#[test]
fn sort_orders_children_and_keeps_equal_names_in_order() {
    let mut g = group("G");
    g.environments = Some(vec![
        env("Prod", vec![server("b", "2"), server("a", "1")]),
        env("Dev", vec![]),
    ]);
    g.servers = Some(vec![server("z", "z1"), server("m", "m1"), server("m", "m2")]);
    let mut config = Config {
        defaults: None,
        groups: vec![ConfigEntry::Group(g)],
        includes: vec![],
        vars: vec![],
    };
    config.sort();
    let ConfigEntry::Group(g) = &config.groups[0] else { panic!("group expected") };
    let envs = g.environments.as_ref().unwrap();
    assert_eq!(envs[0].name, "Dev");
    assert_eq!(envs[1].name, "Prod");
    assert_eq!(envs[1].servers[0].name, "a");
    let servers = g.servers.as_ref().unwrap();
    assert_eq!(servers[0].host, "m1");
    assert_eq!(servers[1].host, "m2");
    assert_eq!(servers[2].name, "z");
}

#[test]
fn test_resolve_inheritance_chain() {
    let mut s1 = server("S1", "1.1.1.1");
    s1.ssh_port = Some(8080);
    let mut g = group("G1");
    g.user = Some("group_user".to_string());
    g.environments = Some(vec![env("Env1", vec![s1])]);
    let config = Config {
        defaults: Some(Defaults {
            user: Some("default_user".to_string()),
            ssh_port: Some(2222),
            ..Default::default()
        }),
        groups: vec![ConfigEntry::Group(g)],
        includes: vec![],
        vars: Default::default(),
    };
    let resolved = config.resolve().unwrap();
    let s1 = &resolved[0];
    assert_eq!(s1.name, "S1");
    assert_eq!(s1.user, "group_user");
    assert_eq!(s1.port, 8080);
}

#[test]
fn test_probe_filesystems_inheritance() {
    let mut extends = server("extends", "1.2.3.5");
    extends.probe_filesystems = Some(vec!["/mnt/nas".to_string()]);
    let mut g = group("G");
    g.servers = Some(vec![server("inherits", "1.2.3.4"), extends]);
    let config = Config {
        defaults: Some(Defaults {
            probe_filesystems: Some(vec!["/data".to_string(), "/var/log".to_string()]),
            ..Default::default()
        }),
        groups: vec![ConfigEntry::Group(g)],
        includes: vec![],
        vars: Default::default(),
    };
    let resolved = config.resolve().unwrap();
    let inherits = resolved.iter().find(|s| s.name == "inherits").unwrap();
    assert_eq!(inherits.probe_filesystems, vec!["/data".to_string(), "/var/log".to_string()]);
    let extends = resolved.iter().find(|s| s.name == "extends").unwrap();
    assert_eq!(
        extends.probe_filesystems,
        vec!["/data".to_string(), "/var/log".to_string(), "/mnt/nas".to_string()]
    );
}

#[test]
fn test_probe_filesystems_group_extends_defaults() {
    let mut g = group("ONDE");
    g.probe_filesystems = Some(vec!["/kafka_data".to_string()]);
    g.servers = Some(vec![server("kafka01", "10.0.0.1")]);
    let config = Config {
        defaults: Some(Defaults {
            probe_filesystems: Some(vec!["/pg_backup".to_string(), "/pg_xlogs".to_string()]),
            ..Default::default()
        }),
        groups: vec![ConfigEntry::Group(g)],
        includes: vec![],
        vars: Default::default(),
    };
    let resolved = config.resolve().unwrap();
    let kafka = resolved.iter().find(|s| s.name == "kafka01").unwrap();
    assert_eq!(
        kafka.probe_filesystems,
        vec!["/pg_backup".to_string(), "/pg_xlogs".to_string(), "/kafka_data".to_string()]
    );
}

#[test]
fn resolve_defaults_when_nothing_is_set() {
    let config = Config {
        defaults: None,
        groups: vec![ConfigEntry::Server(server("solo", "10.1.1.1"))],
        includes: vec![],
        vars: vec![],
    };
    let r = &config.resolve().unwrap()[0];
    assert_eq!(r.user, "root");
    assert_eq!(r.port, 22);
    assert_eq!(r.ssh_key, "~/.ssh/id_rsa");
    assert_eq!(r.default_mode, ConnectionMode::Direct);
    assert_eq!(r.bastion_template, "{target_user}@%n:SSH:{bastion_user}");
    assert_eq!(r.control_persist, "10m");
    assert_eq!(r.hook_timeout_secs, 5);
    assert!(!r.control_master);
    assert!(r.control_path.is_empty());
    assert_eq!(r.group_name, "");
    assert_eq!(r.namespace, "");
    assert_eq!(r.wallix_account, "default");
    assert_eq!(r.wallix_protocol, "SSH");
}

#[test]
fn resolve_jump_chain_and_bastion_merge() {
    let mut s = server("s", "10.0.0.9");
    s.user = Some("ops".to_string());
    s.wallix = Some(BastionConfig { user: Some("buser".to_string()), ..Default::default() });
    let mut g = group("G");
    g.jump = Some(vec![
        JumpConfig { host: Some("j1".to_string()), user: None },
        JumpConfig { host: Some("j2:2200".to_string()), user: Some("ju".to_string()) },
    ]);
    g.wallix = Some(BastionConfig {
        host: Some("bastion".to_string()),
        group: Some("admins".to_string()),
        ..Default::default()
    });
    g.servers = Some(vec![s]);
    let config = Config { defaults: None, groups: vec![ConfigEntry::Group(g)], includes: vec![], vars: vec![] };
    let r = &config.resolve().unwrap()[0];
    assert_eq!(r.jump_host.as_deref(), Some("ops@j1,ju@j2:2200"));
    assert_eq!(r.bastion_host.as_deref(), Some("bastion"));
    assert_eq!(r.bastion_user.as_deref(), Some("buser"));
    assert_eq!(r.wallix_group.as_deref(), Some("admins"));
}

#[test]
fn resolve_tags_accumulate_and_tunnels_replace() {
    let mut s = server("s", "h");
    s.tags = Some(vec!["web".to_string(), "prod".to_string()]);
    let mut e = env("E", vec![s]);
    e.tags = Some(vec!["eu".to_string()]);
    e.tunnels = Some(vec![TunnelConfig {
        local_port: 1,
        remote_host: "r".to_string(),
        remote_port: 2,
        label: "env".to_string(),
    }]);
    let mut g = group("G");
    g.tags = Some(vec!["prod".to_string()]);
    g.tunnels = Some(vec![]);
    g.environments = Some(vec![e]);
    let config = Config {
        defaults: Some(Defaults { tags: Some(vec!["all".to_string()]), ..Default::default() }),
        groups: vec![ConfigEntry::Group(g)],
        includes: vec![],
        vars: vec![],
    };
    let r = &config.resolve().unwrap()[0];
    assert_eq!(r.tags, vec!["all", "prod", "eu", "web"]);
    assert_eq!(r.tunnels.len(), 1);
    assert_eq!(r.tunnels[0].label, "env");
    assert_eq!(r.env_name, "E");
}

#[test]
fn resolve_tags_from_defaults_are_not_repeated() {
    let mut s = server("s", "h");
    s.tags = Some(vec!["b".to_string(), "a".to_string()]);
    let config = Config {
        defaults: Some(Defaults {
            tags: Some(vec!["a".to_string(), "a".to_string()]),
            ..Default::default()
        }),
        groups: vec![ConfigEntry::Server(s)],
        includes: vec![],
        vars: vec![],
    };
    let r = &config.resolve().unwrap()[0];
    assert_eq!(r.tags, vec!["a", "b"]);
}

#[test]
fn resolve_namespace_uses_main_defaults_under_its_own() {
    let ns = NamespaceEntry {
        label: "CES".to_string(),
        source_path: "/fake/ces.yml".to_string(),
        defaults: Some(Defaults { ssh_port: Some(2200), ..Default::default() }),
        entries: vec![ConfigEntry::Server(server("ns-srv", "{{ h }}"))],
        vars: vars(&[("h", "10.9.9.9")]),
    };
    let config = Config {
        defaults: Some(Defaults { user: Some("main".to_string()), ssh_port: Some(22), ..Default::default() }),
        groups: vec![ConfigEntry::Namespace(ns), ConfigEntry::Server(server("root", "{{ h }}"))],
        includes: vec![],
        vars: vec![],
    };
    let r = config.resolve().unwrap();
    assert_eq!(r.len(), 2);
    assert_eq!(r[0].namespace, "CES");
    assert_eq!(r[0].user, "main");
    assert_eq!(r[0].port, 2200);
    assert_eq!(r[0].host, "10.9.9.9");
    assert_eq!(r[1].namespace, "");
    assert_eq!(r[1].host, "{{ h }}");
}

#[test]
fn connection_mode_cycles() {
    assert_eq!(ConnectionMode::Direct.next(), ConnectionMode::Jump);
    assert_eq!(ConnectionMode::Jump.next(), ConnectionMode::Wallix);
    assert_eq!(ConnectionMode::Wallix.next(), ConnectionMode::Direct);
    assert_eq!(ConnectionMode::from_index(7), ConnectionMode::Direct);
    assert_eq!(ConnectionMode::Wallix.index(), 2);
}

#[test]
fn config_error_messages() {
    assert_eq!(susshi::config::ConfigError::Io("denied".into()).message(), "IO error: denied");
    assert_eq!(susshi::config::ConfigError::Yaml("bad".into()).message(), "YAML parse error: bad");
    assert_eq!(
        susshi::config::ConfigError::MissingField("web".into(), "host".into()).message(),
        "Missing configuration for server 'web': host"
    );
}
