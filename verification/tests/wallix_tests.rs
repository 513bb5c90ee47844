use susshi::config::ConnectionMode;
use susshi::resolve::ResolvedServer;
use susshi::wallix::{
    build_expected_groups, build_expected_target, build_expected_targets, group_suffix_matches,
    parse_wallix_menu, select_id_by_target_and_group, select_id_for_server, WallixError,
    WallixMenuEntry,
};
use susshi::wallix_select::{targeted_wallix_entries, wallix_matching_error};

fn server(name: &str, host: &str, group_name: &str, env_name: &str, wallix_group: Option<&str>) -> ResolvedServer {
    ResolvedServer {
        namespace: String::new(),
        group_name: group_name.to_string(),
        env_name: env_name.to_string(),
        name: name.to_string(),
        host: host.to_string(),
        user: "demo_user".to_string(),
        port: 22,
        ssh_key: String::new(),
        ssh_options: vec![],
        default_mode: ConnectionMode::Wallix,
        jump_host: None,
        bastion_host: Some("bastion.example.test".to_string()),
        bastion_user: Some("demo_user".to_string()),
        bastion_template: "{target_user}@%n:SSH:{bastion_user}".to_string(),
        wallix_group: wallix_group.map(str::to_string),
        wallix_account: "default".to_string(),
        wallix_protocol: "SSH".to_string(),
        wallix_auto_select: true,
        wallix_fail_if_menu_match_error: true,
        wallix_selection_timeout_secs: 8,
        use_system_ssh_config: false,
        probe_filesystems: vec![],
        tunnels: vec![],
        tags: vec![],
        control_master: false,
        control_path: String::new(),
        control_persist: "10m".to_string(),
        pre_connect_hook: None,
        post_disconnect_hook: None,
        hook_timeout_secs: 5,
    }
}

fn entry(id: &str, target: &str, group: &str) -> WallixMenuEntry {
    WallixMenuEntry { id: id.to_string(), target: target.to_string(), group: group.to_string() }
}

#[test]
fn test_group_suffix_matches_short_group() {
    assert!(group_suffix_matches("APP-ANSCORE_dev-admins", "dev-admins"));
}

#[test]
fn test_group_suffix_matches_exact_group() {
    assert!(group_suffix_matches("dev-admins", "dev-admins"));
}

#[test]
fn test_group_suffix_does_not_match_unrelated_group() {
    assert!(!group_suffix_matches("APP-ANSCORE_ops-admins", "dev-admins"));
}

#[test]
fn group_suffix_is_case_sensitive() {
    assert!(!group_suffix_matches("APP_DEV-ADMINS", "dev-admins"));
}

#[test]
fn test_parse_simple_menu() {
    let output = r#"
   ID │ Cible                              │ Autorisation
───────┼────────────────────────────────────┼──────────────────────
 1234  │ demo_user@default@APP-ALPHA-BD:SSH    │ APP-ALPHA_ops-admins
 5678  │ demo_user@default@APP-ALPHA-BD:SSH    │ APP-ALPHA_dev-admins
"#;
    let entries = parse_wallix_menu(output).expect("Should parse menu");
    assert_eq!(entries.len(), 2);
    assert_eq!(entries[0].id, "1234");
    assert_eq!(entries[0].target, "demo_user@default@APP-ALPHA-BD:SSH");
    assert_eq!(entries[0].group, "APP-ALPHA_ops-admins");
    assert_eq!(entries[1].id, "5678");
    assert_eq!(entries[1].group, "APP-ALPHA_dev-admins");
}

#[test]
fn test_parse_menu_with_varied_whitespace() {
    let output = "  123   │   user@default@host:SSH   │   group-name  ";
    let entries = parse_wallix_menu(output).expect("Should parse despite whitespace");
    assert_eq!(entries.len(), 1);
    assert_eq!(entries[0].id, "123");
    assert_eq!(entries[0].target, "user@default@host:SSH");
    assert_eq!(entries[0].group, "group-name");
}

#[test]
fn test_parse_menu_with_leading_zeros() {
    let output = "0001  │ user@default@host:SSH  │ my-group";
    let entries = parse_wallix_menu(output).expect("Should preserve leading zeros");
    assert_eq!(entries[0].id, "0001");
}

#[test]
fn test_parse_empty_output_returns_error() {
    let output = r#"
   ID │ Cible │ Autorisation
───────┼───────┼──────────────
"#;
    let result = parse_wallix_menu(output);
    assert!(result.is_err());
    assert!(result.unwrap_err().message().contains("No valid menu entries"));
}

#[test]
fn parse_menu_with_ascii_pipes_and_crlf() {
    let output = "| 42 | u@default@h:SSH | grp |\r\n| x | bad | row |\r\n";
    let entries = parse_wallix_menu(output).unwrap();
    assert_eq!(entries.len(), 1);
    assert_eq!(entries[0], entry("42", "u@default@h:SSH", "grp"));
}

#[test]
fn test_select_unique_target_and_group_match() {
    let entries = vec![
        entry("1234", "user@default@host:SSH", "admins"),
        entry("5678", "user@default@other:SSH", "admins"),
    ];
    let id = select_id_by_target_and_group(&entries, "user@default@host:SSH", "admins")
        .expect("Should find unique match");
    assert_eq!(id, "1234");
}

#[test]
fn test_select_no_target_match() {
    let entries = vec![entry("1234", "user@default@host:SSH", "admins")];
    let result = select_id_by_target_and_group(&entries, "other@default@host:SSH", "admins");
    assert!(result.is_err());
    assert!(result.unwrap_err().message().contains("No menu entry found with target"));
}

#[test]
fn test_select_target_match_but_no_group_match() {
    let entries = vec![
        entry("1234", "user@default@host:SSH", "admins"),
        entry("5678", "user@default@host:SSH", "operators"),
    ];
    let result = select_id_by_target_and_group(&entries, "user@default@host:SSH", "users");
    assert!(result.is_err());
    let message = result.unwrap_err().message();
    assert!(message.contains("No menu entry found for target"));
    assert!(message.ends_with("admins, operators"));
}

#[test]
fn test_select_multiple_matches_returns_error() {
    let entries = vec![
        entry("1234", "user@default@host:SSH", "admins"),
        entry("5678", "user@default@host:SSH", "admins"),
    ];
    let result = select_id_by_target_and_group(&entries, "user@default@host:SSH", "admins");
    assert!(result.is_err());
    let err = result.unwrap_err();
    assert!(err.message().contains("Multiple menu entries"));
    assert_eq!(
        err.message(),
        "Multiple menu entries (2) found for target 'user@default@host:SSH' and group 'admins'. Cannot auto-select."
    );
}

#[test]
fn test_build_expected_target_from_resolved_server() {
    let s = server("alpha-ops", "APP-ALPHA-BD", "", "", Some("APP-ALPHA_ops-admins"));
    assert_eq!(build_expected_target(&s), "demo_user@default@APP-ALPHA-BD:SSH");
}

#[test]
fn test_select_id_for_server_uses_resolved_server_fields() {
    let entries = vec![entry("0", "demo_user@default@APP-ALPHA-BD:SSH", "APP-ALPHA_ops-admins")];
    let s = server("alpha-ops", "APP-ALPHA-BD", "", "", Some("APP-ALPHA_ops-admins"));
    assert_eq!(select_id_for_server(&entries, &s).unwrap(), "0");
}

#[test]
fn test_select_id_for_server_requires_group() {
    let entries = vec![entry("0", "demo_user@default@APP-ALPHA-BD:SSH", "APP-ALPHA_ops-admins")];
    let s = server("app-alpha-missing-group", "APP-ALPHA-BD", "", "", None);
    let error = select_id_for_server(&entries, &s).unwrap_err();
    assert!(error.message().contains("wallix.group is not configured"));
    assert_eq!(error, WallixError::GroupNotConfigured { server: "app-alpha-missing-group".to_string() });
}

#[test]
fn test_build_expected_groups_adds_yaml_structure_prefix() {
    let s = server("alpha-dev", "APP-ALPHA-BD", "ALPHA", "PP", Some("dev-admins"));
    let groups = build_expected_groups(&s).unwrap();
    assert_eq!(groups, vec!["dev-admins".to_string(), "PP-ALPHA_dev-admins".to_string()]);
}

#[test]
fn test_build_expected_targets_adds_wallix_alias_from_fqdn_and_yaml() {
    let s = server("bdd01", "app-db01.alpha.example.test", "ALPHA", "PP", Some("dev-admins"));
    let targets = build_expected_targets(&s);
    assert!(targets.contains(&"demo_user@default@app-db01.alpha.example.test:SSH".to_string()));
    assert!(targets.contains(&"demo_user@default@APP-DB01:SSH".to_string()));
    assert!(targets.contains(&"demo_user@default@PP-ALPHA-BD:SSH".to_string()));
}

#[test]
fn build_expected_targets_removes_consecutive_repeats() {
    let s = server("bdd01", "app-db01.alpha.example.test", "ALPHA", "PP", Some("dev-admins"));
    let targets = build_expected_targets(&s);
    assert_eq!(
        targets,
        vec![
            "demo_user@default@app-db01.alpha.example.test:SSH".to_string(),
            "demo_user@default@APP-DB01:SSH".to_string(),
            "demo_user@default@PP-ALPHA-BD:SSH".to_string(),
        ]
    );
}

#[test]
fn test_select_id_for_server_accepts_short_group_and_yaml_structure() {
    let entries = vec![entry("1", "demo_user@default@PP-ALPHA-BD:SSH", "APP-ALPHA_dev-admins")];
    let s = server("bdd01", "app-db01.alpha.example.test", "ALPHA", "PP", Some("dev-admins"));
    assert_eq!(select_id_for_server(&entries, &s).unwrap(), "1");
}

#[test]
fn test_select_id_for_server_accepts_prefixed_group_suffix() {
    let entries = vec![entry("640", "demo_user@default@app-anscore02.example.test:SSH", "APP-ANSCORE_dev-admins")];
    let s = server("Service Beta", "app-anscore02.example.test", "Service Beta", "", Some("dev-admins"));
    assert_eq!(select_id_for_server(&entries, &s).unwrap(), "640");
}

#[test]
fn select_id_for_server_reports_groups_of_matching_targets() {
    let entries = vec![
        entry("1", "demo_user@default@APP-ALPHA-BD:SSH", "X_ops"),
        entry("2", "demo_user@default@APP-ALPHA-BD:SSH", "Y_ops"),
    ];
    let s = server("alpha", "APP-ALPHA-BD", "", "", Some("dev"));
    let err = select_id_for_server(&entries, &s).unwrap_err();
    assert!(err.message().contains("No menu entry found for matching targets"));
    assert!(err.message().ends_with("X_ops, Y_ops"));
}

#[test]
fn test_parse_realistic_wallix_output() {
    let output = r#"
╔════════════════════════════════════════════════════════════════════════════════╗
║                    Wallix Bastion - Interactive Menu                           ║
╚════════════════════════════════════════════════════════════════════════════════╝

   ID │ Cible                                │ Autorisation
───────┼──────────────────────────────────────┼────────────────────────
 0001  │ demo_user@default@APP-ALPHA-BD:SSH      │ APP-ALPHA_ops-admins
 0002  │ demo_user@default@APP-ALPHA-BD:SSH      │ APP-ALPHA_dev-admins
 0003  │ demo_user@default@OTHER-SERVER:SSH    │ APP-ALPHA_ops-admins
"#;
    let entries = parse_wallix_menu(output).expect("Should parse realistic output");
    assert_eq!(entries.len(), 3);
    assert_eq!(entries[0].id, "0001");
    assert_eq!(entries[2].group, "APP-ALPHA_ops-admins");
}

#[test]
fn targeted_wallix_entries_keeps_matching_target_when_available() {
    let s = server("alpha", "APP-ALPHA-BD", "", "", Some("dev-admins"));
    let entries = vec![
        entry("1", "demo_user@default@OTHER:SSH", "OTHER_dev-admins"),
        entry("2", "demo_user@default@APP-ALPHA-BD:SSH", "APP-ALPHA_dev-admins"),
    ];
    let filtered = targeted_wallix_entries(&s, &entries);
    assert_eq!(filtered.len(), 1);
    assert_eq!(filtered[0].id, "2");
}

#[test]
fn targeted_wallix_entries_orders_by_score_when_no_target_matches() {
    let s = server("alpha", "APP-ALPHA-BD", "", "", Some("dev-admins"));
    let entries = vec![
        entry("1", "x@y@OTHER:SSH", "unrelated"),
        entry("2", "x@y@OTHER:SSH", "APP_DEV-ADMINS"),
        entry("3", "x@y@OTHER:SSH", "Dev-Admins"),
        entry("4", "x@y@OTHER:SSH", "unrelated-too"),
    ];
    let ids: Vec<String> = targeted_wallix_entries(&s, &entries).into_iter().map(|e| e.id).collect();
    assert_eq!(ids, vec!["3", "2", "1", "4"]);
}

#[test]
fn wallix_matching_error_recognizes_messages() {
    assert!(wallix_matching_error("Multiple menu entries (2) found"));
    assert!(wallix_matching_error("wallix.group is not configured for server 'x'"));
    assert!(!wallix_matching_error("connection refused"));
}

#[test]
fn parse_menu_keeps_row_whose_target_holds_header_letters() {
    let output = "   ID │ Cible │ Autorisation\n 7 │ demo_user@default@APP-ALPHA-IDP:SSH │ APP-ALPHA_ops-admins\n";
    let entries = parse_wallix_menu(output).unwrap();
    assert_eq!(entries.len(), 1);
    assert_eq!(entries[0].id, "7");
    assert_eq!(entries[0].target, "demo_user@default@APP-ALPHA-IDP:SSH");
    assert_eq!(entries[0].group, "APP-ALPHA_ops-admins");
}

#[test]
fn parse_menu_header_only_gives_no_entries() {
    let output = "ID | Cible | Autorisation\n---+-------+-------------\n";
    assert!(parse_wallix_menu(output).is_err());
}
