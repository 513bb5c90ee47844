use susshi::config::TunnelConfig;
use susshi::state::{effective_tunnels_for, TunnelOverride};

fn t(local: u16, remote: u16, label: &str) -> TunnelConfig {
    TunnelConfig { local_port: local, remote_host: "127.0.0.1".into(), remote_port: remote, label: label.into() }
}

const KEY: &str = "Group:G:Server:S";

#[test]
fn no_overrides_returns_yaml() {
    let yaml = vec![t(5432, 5432, "pg"), t(6379, 6379, "redis")];
    let result = effective_tunnels_for(&yaml, KEY, &vec![]);
    assert_eq!(result.len(), 2);
    assert_eq!(result[0].config.label, "pg");
    assert_eq!(result[0].yaml_index, Some(0));
    assert!(!result[0].is_overridden);
    assert_eq!(result[1].config.label, "redis");
    assert_eq!(result[1].yaml_index, Some(1));
    assert!(!result[1].is_overridden);
}

#[test]
fn override_replaces_yaml_tunnel() {
    let yaml = vec![t(5432, 5432, "pg")];
    let overrides = vec![TunnelOverride {
        server_key: KEY.into(),
        yaml_index: Some(0),
        config: t(15432, 5432, "pg-edited"),
        hidden: false,
    }];
    let result = effective_tunnels_for(&yaml, KEY, &overrides);
    assert_eq!(result.len(), 1);
    assert_eq!(result[0].config.label, "pg-edited");
    assert_eq!(result[0].config.local_port, 15432);
    assert!(result[0].is_overridden);
}

#[test]
fn hidden_override_removes_yaml_tunnel() {
    let yaml = vec![t(5432, 5432, "pg"), t(6379, 6379, "redis")];
    let overrides = vec![TunnelOverride {
        server_key: KEY.into(),
        yaml_index: Some(0),
        config: t(5432, 5432, "pg"),
        hidden: true,
    }];
    let result = effective_tunnels_for(&yaml, KEY, &overrides);
    assert_eq!(result.len(), 1);
    assert_eq!(result[0].config.label, "redis");
    assert_eq!(result[0].yaml_index, Some(1));
}

#[test]
fn user_tunnel_appended_after_yaml() {
    let yaml = vec![t(5432, 5432, "pg")];
    let overrides = vec![TunnelOverride {
        server_key: KEY.into(),
        yaml_index: None,
        config: t(8080, 8080, "web"),
        hidden: false,
    }];
    let result = effective_tunnels_for(&yaml, KEY, &overrides);
    assert_eq!(result.len(), 2);
    assert_eq!(result[0].yaml_index, Some(0));
    assert_eq!(result[1].yaml_index, None);
    assert_eq!(result[1].config.label, "web");
    assert_eq!(result[1].user_idx, 0);
}

#[test]
fn hidden_user_tunnel_not_shown() {
    let yaml = vec![];
    let overrides = vec![TunnelOverride {
        server_key: KEY.into(),
        yaml_index: None,
        config: t(8080, 8080, "web"),
        hidden: true,
    }];
    let result = effective_tunnels_for(&yaml, KEY, &overrides);
    assert!(result.is_empty());
}

#[test]
fn overrides_for_other_server_ignored() {
    let yaml = vec![t(5432, 5432, "pg")];
    let overrides = vec![TunnelOverride {
        server_key: "Group:Other:Server:X".into(),
        yaml_index: Some(0),
        config: t(9999, 9999, "wrong"),
        hidden: false,
    }];
    let result = effective_tunnels_for(&yaml, KEY, &overrides);
    assert_eq!(result.len(), 1);
    assert_eq!(result[0].config.label, "pg");
    assert!(!result[0].is_overridden);
}

#[test]
fn multiple_user_tunnels_indexed_correctly() {
    let yaml = vec![];
    let overrides = vec![
        TunnelOverride { server_key: KEY.into(), yaml_index: None, config: t(8080, 8080, "web"), hidden: false },
        TunnelOverride { server_key: KEY.into(), yaml_index: None, config: t(9090, 9090, "metrics"), hidden: false },
    ];
    let result = effective_tunnels_for(&yaml, KEY, &overrides);
    assert_eq!(result.len(), 2);
    assert_eq!(result[0].user_idx, 0);
    assert_eq!(result[1].user_idx, 1);
}

#[test]
fn first_override_of_a_tunnel_wins() {
    let yaml = vec![t(1, 1, "a")];
    let overrides = vec![
        TunnelOverride { server_key: KEY.into(), yaml_index: Some(0), config: t(2, 2, "first"), hidden: false },
        TunnelOverride { server_key: KEY.into(), yaml_index: Some(0), config: t(3, 3, "second"), hidden: true },
    ];
    let result = effective_tunnels_for(&yaml, KEY, &overrides);
    assert_eq!(result.len(), 1);
    assert_eq!(result[0].config.label, "first");
}
