use susshi::config::ConnectionMode;
use susshi::resolve::ResolvedServer;
use susshi::ssh::{progress_finish, progress_step};
use susshi::ssh::{
    build_scp_args, build_ssh_args, build_tunnel_args, build_wallix_bastion_args, contains_wallix_prompt,
    contains_wallix_target_address_prompt, parse_host_port, parse_progress,
    parse_wallix_page_position, is_wallix_menu_matching_error, ScpDirection, SshError,
};

fn base_server() -> ResolvedServer {
    ResolvedServer {
        namespace: String::new(),
        group_name: "G".into(),
        env_name: "E".into(),
        name: "srv".into(),
        host: "10.0.0.1".into(),
        user: "admin".into(),
        port: 22,
        ssh_key: String::new(),
        ssh_options: vec![],
        default_mode: ConnectionMode::Direct,
        jump_host: None,
        bastion_host: None,
        bastion_user: None,
        bastion_template: "{target_user}@%n:SSH:{bastion_user}".into(),
        use_system_ssh_config: false,
        probe_filesystems: vec![],
        tunnels: vec![],
        tags: vec![],
        control_master: false,
        control_path: String::new(),
        control_persist: "10m".into(),
        pre_connect_hook: None,
        post_disconnect_hook: None,
        hook_timeout_secs: 5,
        wallix_group: None,
        wallix_account: "default".into(),
        wallix_protocol: "SSH".into(),
        wallix_auto_select: true,
        wallix_fail_if_menu_match_error: true,
        wallix_selection_timeout_secs: 8,
    }
}

#[test]
fn wallix_menu_prompt_detection_supports_ascii_prompt() {
    assert!(contains_wallix_prompt("Tapez h pour l'aide, ctrl-D pour quitter\n > "));
}

#[test]
fn wallix_prompt_absent() {
    assert!(!contains_wallix_prompt("Connecting...\n"));
    assert!(!contains_wallix_prompt(""));
}

#[test]
fn wallix_target_address_prompt_detection_supports_french_prompt() {
    assert!(contains_wallix_target_address_prompt(
        "Account successfully checked out\nAdresse cible (dans 10.242.23.24/29): "
    ));
}

#[test]
fn wallix_page_position_parser_reads_page_numbers() {
    let line = "| ID | Cible (page 1/16)                       | Autorisation";
    assert_eq!(parse_wallix_page_position(line), Some((1, 16)));
}

#[test]
fn wallix_page_position_uses_last_marker_and_needs_both_numbers() {
    assert_eq!(parse_wallix_page_position("Page 1/3 ... PAGE 2/3"), Some((2, 3)));
    assert_eq!(parse_wallix_page_position("page 4"), None);
    assert_eq!(parse_wallix_page_position("no marker"), None);
}

#[test]
fn menu_matching_error_messages() {
    assert!(is_wallix_menu_matching_error("No menu entry found with target 'x'"));
    assert!(!is_wallix_menu_matching_error("Multiple menu entries (2)"));
}

#[test]
fn parse_progress_typical_line() {
    let line = "dump.sql                    38%  125 MB  12.3 MB/s   00:08 ETA";
    assert_eq!(parse_progress(line), Some(38));
}

#[test]
fn parse_progress_100() {
    let line = "dump.sql                   100%  234 MB  15.0 MB/s   00:00    ";
    assert_eq!(parse_progress(line), Some(100));
}

#[test]
fn parse_progress_no_percent() {
    assert_eq!(parse_progress("debug1: Connecting to host..."), None);
}

#[test]
fn parse_progress_percent_at_start() {
    assert_eq!(parse_progress("%invalid"), None);
}

#[test]
fn parse_progress_zero() {
    let line = "backup.tar.gz                    0%    0     0.0KB/s   --:-- ETA";
    assert_eq!(parse_progress(line), Some(0));
}

#[test]
fn parse_progress_over_hundred_is_rejected() {
    assert_eq!(parse_progress("x 150%"), None);
    assert_eq!(parse_progress("x 300%"), None);
}

#[test]
fn host_port_split() {
    assert_eq!(parse_host_port("h:22"), ("h".to_string(), Some("22".to_string())));
    assert_eq!(parse_host_port("h"), ("h".to_string(), None));
}

#[test]
fn direct_basic() {
    let args = build_ssh_args(&base_server(), ConnectionMode::Direct, false).unwrap();
    assert!(args.contains(&"-F".to_string()));
    assert!(args.contains(&"/dev/null".to_string()));
    assert!(args.contains(&"admin@10.0.0.1".to_string()));
    assert!(!args.contains(&"-v".to_string()));
}

#[test]
fn direct_verbose() {
    let args = build_ssh_args(&base_server(), ConnectionMode::Direct, true).unwrap();
    assert!(args.contains(&"-v".to_string()));
}

#[test]
fn direct_with_port_in_host() {
    let mut s = base_server();
    s.host = "10.0.0.1:2222".into();
    let args = build_ssh_args(&s, ConnectionMode::Direct, false).unwrap();
    assert!(args.contains(&"-p".to_string()));
    assert!(args.contains(&"2222".to_string()));
    assert!(args.contains(&"admin@10.0.0.1".to_string()));
}

#[test]
fn direct_with_port_field() {
    let mut s = base_server();
    s.port = 2222;
    let args = build_ssh_args(&s, ConnectionMode::Direct, false).unwrap();
    assert!(args.contains(&"-p".to_string()));
    assert!(args.contains(&"2222".to_string()));
    assert!(args.contains(&"admin@10.0.0.1".to_string()));
}

#[test]
fn direct_with_ssh_key() {
    let mut s = base_server();
    s.ssh_key = "~/.ssh/id_ed25519".into();
    let args = build_ssh_args(&s, ConnectionMode::Direct, false).unwrap();
    let key_pos = args.iter().position(|a| a == "-i").expect("-i missing");
    assert!(!args[key_pos + 1].is_empty());
}

#[test]
fn direct_with_ssh_options() {
    let mut s = base_server();
    s.ssh_options = vec!["StrictHostKeyChecking=no".into(), "-T".into()];
    let args = build_ssh_args(&s, ConnectionMode::Direct, false).unwrap();
    let o_pos = args.iter().position(|a| a == "-o").expect("-o missing");
    assert_eq!(args[o_pos + 1], "StrictHostKeyChecking=no");
    assert!(args.contains(&"-T".to_string()));
}

#[test]
fn direct_use_system_ssh_config() {
    let mut s = base_server();
    s.use_system_ssh_config = true;
    let args = build_ssh_args(&s, ConnectionMode::Direct, false).unwrap();
    assert!(!args.contains(&"-F".to_string()));
}

#[test]
fn jump_basic() {
    let mut s = base_server();
    s.jump_host = Some("juser@jump.example.com".into());
    let args = build_ssh_args(&s, ConnectionMode::Jump, false).unwrap();
    let j_pos = args.iter().position(|a| a == "-J").expect("-J missing");
    assert_eq!(args[j_pos + 1], "juser@jump.example.com");
    assert!(args.contains(&"admin@10.0.0.1".to_string()));
}

#[test]
fn jump_with_port() {
    let mut s = base_server();
    s.jump_host = Some("juser@jump.example.com:2222".into());
    let args = build_ssh_args(&s, ConnectionMode::Jump, false).unwrap();
    let j_pos = args.iter().position(|a| a == "-J").expect("-J present");
    assert_eq!(args[j_pos + 1], "juser@jump.example.com:2222");
}

#[test]
fn jump_fallback_user() {
    let mut s = base_server();
    s.jump_host = Some("admin@jump.example.com".into());
    let args = build_ssh_args(&s, ConnectionMode::Jump, false).unwrap();
    let j_pos = args.iter().position(|a| a == "-J").expect("-J present");
    assert_eq!(args[j_pos + 1], "admin@jump.example.com");
}

#[test]
fn jump_multi_hop() {
    let mut s = base_server();
    s.jump_host = Some("juser@jump1.example.com,juser@jump2.example.com".into());
    let args = build_ssh_args(&s, ConnectionMode::Jump, false).unwrap();
    let j_pos = args.iter().position(|a| a == "-J").expect("-J present");
    assert_eq!(args[j_pos + 1], "juser@jump1.example.com,juser@jump2.example.com");
    assert!(args.contains(&"admin@10.0.0.1".to_string()));
}

#[test]
fn client_jump_missing_host_returns_error() {
    let err = build_ssh_args(&base_server(), ConnectionMode::Jump, false).unwrap_err();
    assert!(err.message().contains("Jump host not configured"));
    assert_eq!(err, SshError::JumpNotConfigured);
}

#[test]
fn wallix_basic() {
    let mut s = base_server();
    s.bastion_host = Some("bastion.example.com".into());
    s.bastion_user = Some("buser".into());
    let args = build_ssh_args(&s, ConnectionMode::Wallix, false).unwrap();
    let l_pos = args.iter().position(|a| a == "-l").expect("-l missing");
    assert_eq!(args[l_pos + 1], "admin@10.0.0.1:SSH:buser");
    assert!(args.contains(&"bastion.example.com".to_string()));
}

#[test]
fn wallix_with_port() {
    let mut s = base_server();
    s.bastion_host = Some("bastion.example.com:8022".into());
    let args = build_ssh_args(&s, ConnectionMode::Wallix, false).unwrap();
    assert!(args.contains(&"-p".to_string()));
    assert!(args.contains(&"8022".to_string()));
    assert!(args.contains(&"bastion.example.com".to_string()));
}

#[test]
fn wallix_fallback_user() {
    let mut s = base_server();
    s.bastion_host = Some("bastion.example.com".into());
    let args = build_ssh_args(&s, ConnectionMode::Wallix, false).unwrap();
    let l_pos = args.iter().position(|a| a == "-l").expect("-l missing");
    assert!(args[l_pos + 1].ends_with(":SSH:root"));
}

#[test]
fn wallix_missing_host_returns_error() {
    let err = build_ssh_args(&base_server(), ConnectionMode::Wallix, false).unwrap_err();
    assert!(err.message().contains("Wallix host not configured"));
}

#[test]
fn wallix_custom_template() {
    let mut s = base_server();
    s.bastion_host = Some("bastion.example.com".into());
    s.bastion_user = Some("buser".into());
    s.bastion_template = "{bastion_user}+{target_user}@{target_host}".into();
    let args = build_ssh_args(&s, ConnectionMode::Wallix, false).unwrap();
    let l_pos = args.iter().position(|a| a == "-l").expect("-l missing");
    assert_eq!(args[l_pos + 1], "buser+admin@10.0.0.1");
}

#[test]
fn wallix_bastion_args_use_bastion_identity_only_for_menu_automation() {
    let mut s = base_server();
    s.user = "target_user".into();
    s.bastion_host = Some("bastion.example.com:8022".into());
    s.bastion_user = Some("demo_user".into());
    let args = build_wallix_bastion_args(&s, false).unwrap();
    assert!(args.contains(&"-l".to_string()));
    assert!(args.contains(&"demo_user".to_string()));
    assert!(args.contains(&"-p".to_string()));
    assert!(args.contains(&"8022".to_string()));
    assert_eq!(args.last().unwrap(), "bastion.example.com");
}

#[test]
fn destination_is_last() {
    let mut s = base_server();
    s.ssh_key = "~/.ssh/id_ed25519".into();
    s.ssh_options = vec!["StrictHostKeyChecking=no".into(), "-T".into()];
    s.port = 2222;
    let args = build_ssh_args(&s, ConnectionMode::Direct, true).unwrap();
    assert_eq!(args.last().unwrap(), "admin@10.0.0.1");

    let mut s2 = base_server();
    s2.ssh_key = "~/.ssh/id_ed25519".into();
    s2.host = "10.0.0.1:2222".into();
    s2.jump_host = Some("juser@jump.example.com:22".into());
    let args2 = build_ssh_args(&s2, ConnectionMode::Jump, false).unwrap();
    assert_eq!(args2.last().unwrap(), "admin@10.0.0.1");

    let s3 = base_server();
    let args3 = build_ssh_args(&s3, ConnectionMode::Direct, false).unwrap();
    assert_eq!(args3.last().unwrap(), "admin@10.0.0.1");
}

#[test]
fn control_master_options_outside_wallix() {
    let mut s = base_server();
    s.control_master = true;
    s.control_path = "/tmp/ctl/%h".into();
    let args = build_ssh_args(&s, ConnectionMode::Direct, false).unwrap();
    assert!(args.contains(&"ControlMaster=auto".to_string()));
    assert!(args.contains(&"ControlPath=/tmp/ctl/%h".to_string()));
    assert!(args.contains(&"ControlPersist=10m".to_string()));
    assert_eq!(args.last().unwrap(), "admin@10.0.0.1");
}

#[test]
fn direct_upload_basic() {
    let s = base_server();
    let args = build_scp_args(&s, ConnectionMode::Direct, &ScpDirection::Upload, "/tmp/local.txt", "/home/admin/remote.txt").unwrap();
    assert_eq!(args.last().unwrap(), "admin@10.0.0.1:/home/admin/remote.txt");
    assert_eq!(args[args.len() - 2], "/tmp/local.txt");
}

#[test]
fn direct_download_basic() {
    let s = base_server();
    let args = build_scp_args(&s, ConnectionMode::Direct, &ScpDirection::Download, "/tmp/local.txt", "/home/admin/remote.txt").unwrap();
    assert_eq!(args.last().unwrap(), "/tmp/local.txt");
    assert_eq!(args[args.len() - 2], "admin@10.0.0.1:/home/admin/remote.txt");
}

#[test]
fn uses_uppercase_p_for_port() {
    let mut s = base_server();
    s.port = 2222;
    let args = build_scp_args(&s, ConnectionMode::Direct, &ScpDirection::Upload, "f", "r").unwrap();
    let p_pos = args.iter().position(|a| a == "-P").expect("-P missing");
    assert_eq!(args[p_pos + 1], "2222");
    assert!(!args.contains(&"-p".to_string()));
}

#[test]
fn port_embedded_in_host() {
    let mut s = base_server();
    s.host = "10.0.0.1:2222".into();
    let args = build_scp_args(&s, ConnectionMode::Direct, &ScpDirection::Upload, "f", "r").unwrap();
    let p_pos = args.iter().position(|a| a == "-P").expect("-P missing");
    assert_eq!(args[p_pos + 1], "2222");
    assert!(args.last().unwrap().starts_with("admin@10.0.0.1:"));
}

#[test]
fn no_port_flag_for_22() {
    let args = build_scp_args(&base_server(), ConnectionMode::Direct, &ScpDirection::Upload, "f", "r").unwrap();
    assert!(!args.contains(&"-P".to_string()));
}

#[test]
fn jump_mode_includes_j_flag() {
    let mut s = base_server();
    s.jump_host = Some("juser@jump.example.com".into());
    let args = build_scp_args(&s, ConnectionMode::Jump, &ScpDirection::Upload, "f", "r").unwrap();
    let j_pos = args.iter().position(|a| a == "-J").expect("-J missing");
    assert_eq!(args[j_pos + 1], "juser@jump.example.com");
}

#[test]
fn wallix_returns_error() {
    let err = build_scp_args(&base_server(), ConnectionMode::Wallix, &ScpDirection::Upload, "f", "r").unwrap_err();
    assert!(err.message().contains("Wallix"));
}

#[test]
fn with_ssh_key() {
    let mut s = base_server();
    s.ssh_key = "/home/user/.ssh/id_ed25519".into();
    let args = build_scp_args(&s, ConnectionMode::Direct, &ScpDirection::Upload, "f", "r").unwrap();
    let i_pos = args.iter().position(|a| a == "-i").expect("-i missing");
    assert_eq!(args[i_pos + 1], "/home/user/.ssh/id_ed25519");
}

#[test]
fn ssh_options_added_with_o_flag() {
    let mut s = base_server();
    s.ssh_options = vec!["StrictHostKeyChecking=no".into(), "BatchMode=yes".into()];
    let args = build_scp_args(&s, ConnectionMode::Direct, &ScpDirection::Upload, "f", "r").unwrap();
    let o_count = args.iter().filter(|a| *a == "-o").count();
    assert_eq!(o_count, 2);
    assert!(args.iter().any(|a| a == "StrictHostKeyChecking=no"));
    assert!(args.iter().any(|a| a == "BatchMode=yes"));
    assert!(args.last().unwrap().contains("admin@10.0.0.1:"));
}

#[test]
fn use_system_ssh_config_omits_f_flag() {
    let mut s = base_server();
    s.use_system_ssh_config = true;
    let args = build_scp_args(&s, ConnectionMode::Direct, &ScpDirection::Upload, "f", "r").unwrap();
    assert!(!args.contains(&"-F".to_string()));
}

#[test]
fn f_dev_null_present_when_not_using_system_config() {
    let args = build_scp_args(&base_server(), ConnectionMode::Direct, &ScpDirection::Upload, "f", "r").unwrap();
    let f_pos = args.iter().position(|a| a == "-F").expect("-F missing");
    assert_eq!(args[f_pos + 1], "/dev/null");
}

#[test]
fn scp_jump_missing_host_returns_error() {
    let err = build_scp_args(&base_server(), ConnectionMode::Jump, &ScpDirection::Upload, "f", "r").unwrap_err();
    assert_eq!(err, SshError::ScpJumpNotConfigured);
}

#[test]
fn scp_direction_labels() {
    assert_eq!(ScpDirection::Upload.label(), "Upload");
    assert_eq!(ScpDirection::Download.label(), "Download");
}

#[test]
fn tunnel_args_forward_then_connection() {
    let t = susshi::config::TunnelConfig {
        local_port: 15432,
        remote_host: "db.internal".into(),
        remote_port: 5432,
        label: "pg".into(),
    };
    let args = build_tunnel_args(&base_server(), ConnectionMode::Direct, &t).unwrap();
    assert_eq!(&args[..3], &["-L".to_string(), "15432:db.internal:5432".to_string(), "-N".to_string()]);
    let plain = build_ssh_args(&base_server(), ConnectionMode::Direct, false).unwrap();
    assert_eq!(&args[3..], &plain[..]);
    assert_eq!(args.last().unwrap(), "admin@10.0.0.1");
}

#[test]
fn tunnel_args_fail_like_the_connection() {
    let t = susshi::config::TunnelConfig {
        local_port: 1,
        remote_host: "h".into(),
        remote_port: 2,
        label: String::new(),
    };
    assert_eq!(
        build_tunnel_args(&base_server(), ConnectionMode::Jump, &t).unwrap_err(),
        SshError::JumpNotConfigured
    );
}

#[test]
fn hook_environment() {
    let mut s = base_server();
    s.port = 2222;
    let env = susshi::ssh::hook_env(&s, ConnectionMode::Jump);
    let expected: Vec<(String, String)> = vec![
        ("SUSSHI_SERVER".into(), "srv".into()),
        ("SUSSHI_HOST".into(), "10.0.0.1".into()),
        ("SUSSHI_USER".into(), "admin".into()),
        ("SUSSHI_PORT".into(), "2222".into()),
        ("SUSSHI_MODE".into(), "jump".into()),
    ];
    assert_eq!(env, expected);
}

#[test]
fn transfer_progress_reports_rise_to_100() {
    let (t, p, r) = progress_step(0, 0, 50, 200);
    assert_eq!((t, p, r), (50, 25, Some(25)));
    let (t, p, r) = progress_step(t, p, 1, 200);
    assert_eq!((t, p, r), (51, 25, None));
    let (t, p, r) = progress_step(t, p, 149, 200);
    assert_eq!((t, p, r), (200, 100, Some(100)));
    assert_eq!(progress_finish(p), None);
    let (_, p, r) = progress_step(0, 0, 10, 0);
    assert_eq!((p, r), (0, None));
    assert_eq!(progress_finish(p), Some(100));
}
