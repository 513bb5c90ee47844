use susshi::config::{Config, ConfigEntry, Defaults, IncludeEntry, NamespaceEntry, Server};
use susshi::i18n::{detect_lang, Lang};
use susshi::includes::{attach_include, include_target};
use susshi::validation::{validate_yaml, YamlNode};

fn node_of(v: &serde_yaml::Value) -> YamlNode {
    match v {
        serde_yaml::Value::String(s) => YamlNode::Text(s.clone()),
        serde_yaml::Value::Sequence(items) => YamlNode::Sequence(items.iter().map(node_of).collect()),
        serde_yaml::Value::Mapping(m) => YamlNode::Mapping(
            m.iter()
                .map(|(k, v)| {
                    let key = match k {
                        serde_yaml::Value::String(s) => Some(s.clone()),
                        _ => None,
                    };
                    (key, node_of(v))
                })
                .collect(),
        ),
        _ => YamlNode::Scalar,
    }
}

fn check(yaml: &str, file: &str) -> Vec<(String, String, String)> {
    let value: serde_yaml::Value = serde_yaml::from_str(yaml).unwrap();
    validate_yaml(&node_of(&value), file)
        .into_iter()
        .map(|w| (w.file, w.context, w.field))
        .collect()
}

#[test]
fn test_validation_unknown_field() {
    let yaml = r#"
defaults:
  user: "admin"
  typo_field: "oops"
groups: []
"#;
    let warnings = check(yaml, "test.yml");
    assert!(warnings.iter().any(|w| w.2 == "typo_field"), "Expected a warning for typo_field, got: {:?}", warnings);
}

#[test]
fn test_validation_unknown_server_field() {
    let yaml = r#"
groups:
  - name: G
    servers:
      - name: srv
        host: "1.2.3.4"
        missspelled_user: "admin"
"#;
    let warnings = check(yaml, "test.yml");
    assert!(warnings.iter().any(|w| w.2 == "missspelled_user"), "Expected a warning for missspelled_user, got: {:?}", warnings);
}

#[test]
fn test_keep_open_no_validation_warning() {
    let yaml = r#"
defaults:
  keep_open: true
groups: []
"#;
    let warnings = check(yaml, "test.yaml");
    assert!(warnings.is_empty(), "keep_open should not produce a warning, got: {:?}", warnings);
}

#[test]
fn validation_reports_each_place_in_order() {
    let yaml = r#"
extra: 1
includes:
  - label: a
    path: b
    bogus: true
groups:
  - name: G
    colour: red
    environments:
      - name: E
        size: 3
        servers:
          - name: s
            host: h
            port: 22
    servers:
      - name: inner
        servers:
          - name: deep
            host: h
            weird: x
"#;
    let warnings = check(yaml, "main.yml");
    assert_eq!(
        warnings,
        vec![
            ("main.yml".to_string(), "root".to_string(), "extra".to_string()),
            ("main.yml".to_string(), "includes[0]".to_string(), "bogus".to_string()),
            ("main.yml".to_string(), "groups[0]".to_string(), "colour".to_string()),
            ("main.yml".to_string(), "groups[0].environments[0]".to_string(), "size".to_string()),
            ("main.yml".to_string(), "groups[0].environments[0].servers[0]".to_string(), "port".to_string()),
            ("main.yml".to_string(), "groups[0].servers[0].servers[0]".to_string(), "weird".to_string()),
        ]
    );
}

#[test]
fn validation_ignores_non_mapping_root() {
    assert!(check("- a\n- b\n", "x.yml").is_empty());
}

#[test]
fn detect_lang_fr() {
    assert_eq!(detect_lang(None, None, Some("fr_FR.UTF-8")), Lang::Fr);
}

#[test]
fn detect_lang_en() {
    assert_eq!(detect_lang(None, None, Some("en_US.UTF-8")), Lang::En);
}

#[test]
fn detect_lang_no_env() {
    assert_eq!(detect_lang(None, None, None), Lang::En);
}

#[test]
fn detect_lang_lc_all_takes_priority() {
    assert_eq!(detect_lang(Some("fr_FR.UTF-8"), Some("en_US.UTF-8"), Some("en_US.UTF-8")), Lang::Fr);
}

#[test]
fn include_target_is_relative_to_the_including_file() {
    assert_eq!(include_target("sub.yml", "/etc/susshi"), "/etc/susshi/sub.yml");
    assert_eq!(include_target("/abs/sub.yml", "/etc/susshi"), "/abs/sub.yml");
    assert!(include_target("~/sub.yml", "/etc").ends_with("sub.yml"));
    assert_ne!(include_target("~/sub.yml", "/etc"), "/etc/~/sub.yml");
}

#[test]
fn attach_include_adds_namespaces() {
    let mut main = Config::default();
    let nested = NamespaceEntry {
        label: "inner".to_string(),
        source_path: "/x/inner.yml".to_string(),
        defaults: None,
        entries: vec![],
        vars: vec![],
    };
    let sub = Config {
        groups: vec![
            ConfigEntry::Server(Server { name: "s".to_string(), host: "h".to_string(), ..Default::default() }),
            ConfigEntry::Namespace(nested),
        ],
        vars: vec![("k".to_string(), "v".to_string())],
        ..Default::default()
    };
    let entry = IncludeEntry { label: "team".to_string(), path: "team.yml".to_string(), merge_defaults: true };
    let mut main_defaults = Defaults::empty();
    main_defaults.user = Some("admin".to_string());
    attach_include(&mut main, &entry, &main_defaults, sub, "/x/team.yml".to_string());
    assert_eq!(main.groups.len(), 2);
    match &main.groups[0] {
        ConfigEntry::Namespace(ns) => {
            assert_eq!(ns.label, "team");
            assert_eq!(ns.source_path, "/x/team.yml");
            assert_eq!(ns.entries.len(), 1);
            assert_eq!(ns.vars, vec![("k".to_string(), "v".to_string())]);
            assert_eq!(ns.defaults.as_ref().and_then(|d| d.user.clone()), Some("admin".to_string()));
        }
        _ => panic!("expected a namespace"),
    }
    match &main.groups[1] {
        ConfigEntry::Namespace(ns) => assert_eq!(ns.label, "team / inner"),
        _ => panic!("expected a namespace"),
    }
}
