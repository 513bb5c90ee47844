use susshi::import::{
    expand_glob, import_to_yaml, parse_config_items, push_entry, split_kv, SshConfigEntry,
    SshConfigItem,
};

#[test]
fn test_import_to_yaml_direct() {
    let entries = vec![SshConfigEntry {
        host_pattern: "web-01".to_string(),
        hostname: Some("10.0.0.1".to_string()),
        user: Some("admin".to_string()),
        ..Default::default()
    }];
    let yaml = import_to_yaml(&entries);
    assert!(yaml.contains("name: \"web-01\""));
    assert!(yaml.contains("host: \"10.0.0.1\""));
    assert!(yaml.contains("user: \"admin\""));
}

#[test]
fn test_import_to_yaml_jump_group() {
    let entries = vec![
        SshConfigEntry {
            host_pattern: "bastion".to_string(),
            hostname: Some("jump.example.com".to_string()),
            ..Default::default()
        },
        SshConfigEntry {
            host_pattern: "prod-api".to_string(),
            hostname: Some("10.0.0.2".to_string()),
            proxy_jump: Some("bastion".to_string()),
            ..Default::default()
        },
    ];
    let yaml = import_to_yaml(&entries);
    assert!(yaml.contains("via bastion"));
    assert!(yaml.contains("prod-api"));
}

#[test]
fn import_to_yaml_exact_text() {
    let entries = vec![
        SshConfigEntry {
            host_pattern: "my host".to_string(),
            port: Some(2222),
            identity_file: Some("~/.ssh/k".to_string()),
            ssh_options: vec!["ServerAliveInterval=60".to_string()],
            ..Default::default()
        },
        SshConfigEntry {
            host_pattern: "b".to_string(),
            proxy_jump: Some("zed@z.example, other".to_string()),
            ..Default::default()
        },
        SshConfigEntry {
            host_pattern: "a".to_string(),
            proxy_jump: Some("alpha".to_string()),
            ..Default::default()
        },
    ];
    let yaml = import_to_yaml(&entries);
    let lines = [
        "# Généré par susshi --import-ssh-config",
        "# Vérifiez et ajustez avant d'utiliser.",
        "",
        "groups:",
        "  - name: \"Imported (direct)\"",
        "    servers:",
        "      - name: \"my-host\"",
        "        host: \"my host\"",
        "        ssh_port: 2222",
        "        ssh_key: \"~/.ssh/k\"",
        "        ssh_options:",
        "          - \"ServerAliveInterval=60\"",
        "  - name: \"Imported (via alpha)\"",
        "    mode: jump",
        "    jump:",
        "      - host: \"alpha\"",
        "    servers:",
        "      - name: \"a\"",
        "        host: \"a\"",
        "  - name: \"Imported (via zed@z.example, other)\"",
        "    mode: jump",
        "    user: \"zed\"",
        "    jump:",
        "      - host: \"z.example\"",
        "    servers:",
        "      - name: \"b\"",
        "        host: \"b\"",
    ];
    let expected = format!("{}\n", lines.join("\n"));
    assert_eq!(yaml, expected);
}

#[test]
fn split_kv_accepts_space_tab_and_equals() {
    assert_eq!(split_kv("Host web"), Some(("Host".to_string(), "web".to_string())));
    assert_eq!(split_kv("Port=2222"), Some(("Port".to_string(), "2222".to_string())));
    assert_eq!(split_kv("User = admin"), Some(("User".to_string(), "admin".to_string())));
    assert_eq!(split_kv("Lonely"), None);
    assert_eq!(split_kv("Key ="), None);
}

#[test]
fn parse_items_reads_blocks_and_includes() {
    let text = "# comment\nHost myserver\n  HostName 10.0.0.1\n  User admin\n  Port 2222\n\
Include ~/.ssh/other\nUser stray\nHost legacy\n  ProxyCommand ssh -W %h:%p jump\n  ServerAliveInterval 60\n";
    let items = parse_config_items(text);
    assert_eq!(items.len(), 3);
    match &items[0] {
        SshConfigItem::Entry(e) => {
            assert_eq!(e.host_pattern, "myserver");
            assert_eq!(e.effective_host(), "10.0.0.1");
            assert_eq!(e.user.as_deref(), Some("admin"));
            assert_eq!(e.port, Some(2222));
        }
        _ => panic!("entry expected"),
    }
    match &items[1] {
        SshConfigItem::Include(p) => assert_eq!(p, "~/.ssh/other"),
        _ => panic!("include expected"),
    }
    match &items[2] {
        SshConfigItem::Entry(e) => {
            assert_eq!(e.host_pattern, "legacy");
            assert!(e.proxy_command_warning.as_ref().unwrap().contains("ProxyCommand"));
            assert_eq!(e.ssh_options, vec!["ServerAliveInterval=60".to_string()]);
        }
        _ => panic!("entry expected"),
    }
}

#[test]
fn push_entry_skips_wildcards_and_collects_warnings() {
    let mut entries = Vec::new();
    let mut warnings = Vec::new();
    push_entry(SshConfigEntry { host_pattern: "*".into(), ..Default::default() }, &mut entries, &mut warnings);
    push_entry(
        SshConfigEntry {
            host_pattern: "legacy".into(),
            proxy_command_warning: Some("w".into()),
            ..Default::default()
        },
        &mut entries,
        &mut warnings,
    );
    assert_eq!(entries.len(), 1);
    assert_eq!(warnings, vec!["w".to_string()]);
}

#[test]
fn expand_glob_resolves_relative_paths() {
    assert_eq!(expand_glob("/abs/cfg", "/home/u/.ssh"), vec!["/abs/cfg".to_string()]);
    assert_eq!(expand_glob("conf.d/x", "/home/u/.ssh"), vec!["/home/u/.ssh/conf.d/x".to_string()]);
    assert_eq!(expand_glob("x", "/"), vec!["/x".to_string()]);
}

/// The entries and warnings of one ssh_config text without `Include`.
fn import_text(content: &str) -> (Vec<SshConfigEntry>, Vec<String>) {
    let mut entries = Vec::new();
    let mut warnings = Vec::new();
    for item in parse_config_items(content) {
        if let SshConfigItem::Entry(e) = item {
            push_entry(e, &mut entries, &mut warnings);
        }
    }
    (entries, warnings)
}

#[test]
fn test_parse_basic_host() {
    let (entries, warnings) = import_text("Host myserver\n  HostName 10.0.0.1\n  User admin\n  Port 2222\n");
    assert!(warnings.is_empty());
    assert_eq!(entries.len(), 1);
    let e = &entries[0];
    assert_eq!(e.host_pattern, "myserver");
    assert_eq!(e.effective_host(), "10.0.0.1");
    assert_eq!(e.user, Some("admin".to_string()));
    assert_eq!(e.port, Some(2222));
}

#[test]
fn test_skip_wildcard() {
    let (entries, _) = import_text("Host *\n  User default\n\nHost real\n  HostName 1.2.3.4\n");
    assert_eq!(entries.len(), 1);
    assert_eq!(entries[0].host_pattern, "real");
}

#[test]
fn test_proxy_jump() {
    let (entries, _) = import_text(
        "Host bastion\n  HostName jump.example.com\n\nHost prod\n  HostName 10.0.0.2\n  ProxyJump bastion\n",
    );
    assert_eq!(entries.len(), 2);
    let prod = entries.iter().find(|e| e.host_pattern == "prod").unwrap();
    assert_eq!(prod.proxy_jump, Some("bastion".to_string()));
}

#[test]
fn test_proxy_command_warning() {
    let (_, warnings) = import_text("Host legacy\n  HostName 1.2.3.4\n  ProxyCommand ssh -W %h:%p jump\n");
    assert_eq!(warnings.len(), 1);
    assert!(warnings[0].contains("ProxyCommand"));
}

#[test]
fn test_server_alive_interval() {
    let (entries, _) = import_text("Host monitored\n  HostName 10.0.0.5\n  ServerAliveInterval 60\n");
    let e = &entries[0];
    assert!(e.ssh_options.contains(&"ServerAliveInterval=60".to_string()));
}

#[test]
fn test_identity_file() {
    let (entries, _) = import_text("Host secure\n  HostName 10.0.0.6\n  IdentityFile ~/.ssh/prod_key\n");
    let e = &entries[0];
    assert_eq!(e.identity_file, Some("~/.ssh/prod_key".to_string()));
}
