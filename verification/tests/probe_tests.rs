use susshi::config::ConnectionMode;
use susshi::probe::{probe_args, ProbeArgsError, ProbeResult, PROBE_CMD};
use susshi::resolve::ResolvedServer;

const SAMPLE: &str = "6.1.0-28-amd64\n\
    Intel(R) Xeon(R) CPU E5-2670 0 @ 2.60GHz\n\
    0.42, 0.38, 0.31\n\
    67 16106127360\n\
    23 499963174912\n";

fn gb(bytes: u64) -> f32 {
    bytes as f32 / 1_073_741_824.0
}

#[test]
fn parse_valid() {
    let r = ProbeResult::parse(SAMPLE).unwrap();
    assert_eq!(r.kernel, "6.1.0-28-amd64");
    assert_eq!(r.cpu_model, "Intel(R) Xeon(R) CPU E5-2670 0 @ 2.60GHz");
    assert_eq!(r.load, "0.42, 0.38, 0.31");
    assert_eq!(r.ram_pct, 67);
    assert!((gb(r.ram_bytes) - 15.0).abs() < 1.0, "ram ~15 GB");
    assert_eq!(r.disk_pct, 23);
    assert!((gb(r.disk_bytes) - 465.7).abs() < 1.0, "disk ~465 GB");
}

#[test]
fn parse_ignores_trailing_blank_lines() {
    let with_blanks = format!("{}\n\n", SAMPLE);
    assert!(ProbeResult::parse(&with_blanks).is_ok());
}

#[test]
fn parse_too_few_lines() {
    let err = ProbeResult::parse("only one line\n").unwrap_err();
    assert!(err.to_string().contains("lignes"));
}

#[test]
fn parse_bad_ram_pct() {
    let bad = "6.1.0\nIntel\n0.1\nXX 16000000000\n23 500000000000\n";
    assert!(ProbeResult::parse(bad).is_err());
}

#[test]
fn parse_bad_ram_bytes() {
    let bad = "6.1.0\nIntel\n0.1\n67 not_a_number\n23 500000000000\n";
    assert!(ProbeResult::parse(bad).is_err());
}

#[test]
fn parse_bad_disk_pct() {
    let bad = "6.1.0\nIntel\n0.1\n67 16000000000\nXX 500000000000\n";
    assert!(ProbeResult::parse(bad).is_err());
}

#[test]
fn parse_disk_single_column() {
    let bad = "6.1.0\nIntel\n0.1\n67 16000000000\n23\n";
    assert!(ProbeResult::parse(bad).is_err());
}

#[test]
fn parse_error_messages() {
    assert_eq!(
        ProbeResult::parse("a\n\n  b  \n").unwrap_err(),
        "sortie inattendue (2 lignes au lieu de 5) :\na\n\n  b  \n"
    );
    assert_eq!(
        ProbeResult::parse("k\nc\nl\nXX 1\n2 3\n").unwrap_err(),
        "RAM pct: invalid digit found in string"
    );
    assert_eq!(
        ProbeResult::parse("k\nc\nl\n1 2\n300 3\n").unwrap_err(),
        "Disk pct: number too large to fit in target type"
    );
    assert_eq!(
        ProbeResult::parse("k\nc\nl\n1 2\n23\n").unwrap_err(),
        "format Disk inattendu : \"23\""
    );
}

#[test]
fn parse_trims_and_accepts_plus() {
    let r = ProbeResult::parse("  k  \r\nc\nl\n+5 10\n0 +7\n").unwrap();
    assert_eq!(r.kernel, "k");
    assert_eq!(r.ram_pct, 5);
    assert_eq!(r.ram_bytes, 10);
    assert_eq!(r.disk_bytes, 7);
}

fn server() -> ResolvedServer {
    ResolvedServer {
        namespace: String::new(),
        group_name: "G".into(),
        env_name: String::new(),
        name: "srv".into(),
        host: "10.0.0.1".into(),
        user: "admin".into(),
        port: 22,
        ssh_key: String::new(),
        ssh_options: vec![],
        default_mode: ConnectionMode::Direct,
        jump_host: None,
        bastion_host: None,
        bastion_user: None,
        bastion_template: "{target_user}@%n:SSH:{bastion_user}".into(),
        use_system_ssh_config: false,
        probe_filesystems: vec![],
        tunnels: vec![],
        tags: vec![],
        control_master: false,
        control_path: String::new(),
        control_persist: "10m".into(),
        pre_connect_hook: None,
        post_disconnect_hook: None,
        hook_timeout_secs: 5,
        wallix_group: None,
        wallix_account: "default".into(),
        wallix_protocol: "SSH".into(),
        wallix_auto_select: true,
        wallix_fail_if_menu_match_error: true,
        wallix_selection_timeout_secs: 8,
    }
}

#[test]
fn probe_args_put_options_before_destination() {
    let args = probe_args(&server(), ConnectionMode::Direct).unwrap();
    let n = args.len();
    assert_eq!(args[n - 1], PROBE_CMD);
    assert_eq!(args[n - 2], "admin@10.0.0.1");
    assert_eq!(
        &args[n - 7..n - 2],
        &["-n", "-o", "ConnectTimeout=10", "-o", "BatchMode=yes"].map(String::from)
    );
}

#[test]
fn probe_args_refused_in_wallix_and_without_jump() {
    assert_eq!(probe_args(&server(), ConnectionMode::Wallix).unwrap_err(), ProbeArgsError::WallixMode);
    let e = probe_args(&server(), ConnectionMode::Jump).unwrap_err();
    assert_eq!(e.message(), "Jump host not configured for this server");
}
