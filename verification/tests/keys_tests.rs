use susshi::config::{Config, ConfigEntry, ConnectionMode, Environment, Group, Server, ValidationWarning};
use susshi::forms::{AppMode, CmdState, ScpState, TunnelForm, TunnelOverlayState};
use susshi::i18n::strings_en;
use susshi::keys::{clicked_row, is_double_click, Key, KeyAction, OverlayAction};
use susshi::resolve::ResolvedServer;
use susshi::state::AppState;
use susshi::tui::App;
use susshi::wallix_pty::{credential_answer, credential_prompt, MenuAction, MenuFetch, PtyAction, PtySession};

fn group(name: &str) -> Group {
    Group {
        name: name.to_string(),
        user: None,
        ssh_key: None,
        mode: None,
        ssh_port: None,
        ssh_options: None,
        wallix: None,
        wallix_group: None,
        jump: None,
        environments: None,
        servers: None,
        probe_filesystems: None,
        tunnels: None,
        tags: None,
    }
}

fn server(name: &str, host: &str) -> Server {
    Server { name: name.to_string(), host: host.to_string(), ..Default::default() }
}

fn app_with_env() -> App {
    let mut g = group("G");
    g.environments = Some(vec![Environment {
        name: "E".to_string(),
        user: None,
        ssh_key: None,
        mode: None,
        ssh_port: None,
        ssh_options: None,
        wallix: None,
        wallix_group: None,
        jump: None,
        servers: vec![server("a", "10.0.0.1"), server("b", "10.0.0.2")],
        probe_filesystems: None,
        tunnels: None,
        tags: None,
    }]);
    g.servers = Some(vec![server("c", "10.0.0.3")]);
    let config = Config { groups: vec![ConfigEntry::Group(g)], ..Default::default() };
    App::new(config, vec![], vec![], strings_en(), AppState::default()).unwrap()
}

#[test]
fn keys_of_the_list() {
    let app = app_with_env();
    assert!(app.key_action(Key::Char('q')) == KeyAction::Exit);
    assert!(app.key_action(Key::Char('j')) == KeyAction::Next);
    assert!(app.key_action(Key::Up) == KeyAction::Previous);
    assert!(app.key_action(Key::Char('2')) == KeyAction::SetMode(ConnectionMode::Jump));
    assert!(app.key_action(Key::Enter) == KeyAction::Activate);
    assert!(app.key_action(Key::Esc) == KeyAction::Nothing);
    assert!(app.key_action(Key::Char('z')) == KeyAction::Nothing);
}

#[test]
fn keys_while_searching_edit_the_search() {
    let mut app = app_with_env();
    app.start_search();
    assert!(app.key_action(Key::Char('q')) == KeyAction::SearchChar('q'));
    assert!(app.key_action(Key::Ctrl('u')) == KeyAction::ClearSearch);
    assert!(app.key_action(Key::Esc) == KeyAction::StopSearch);
    app.search_char('c');
    app.search_char('x');
    app.search_backspace();
    assert_eq!(app.search_query, "c");
    assert_eq!(app.selected_index, 0);
    assert!(app.items_dirty);
    app.clear_search();
    assert!(app.search_query.is_empty());
    app.stop_search();
    assert!(!app.is_searching);
}

#[test]
fn error_panel_takes_only_closing_keys() {
    let mut app = app_with_env();
    app.set_error("boom".to_string());
    assert!(app.key_action(Key::Char('q')) == KeyAction::ClearError);
    assert!(app.key_action(Key::Char('j')) == KeyAction::Nothing);
    app.clear_error();
    assert!(matches!(app.app_mode, AppMode::Normal));
}

#[test]
fn command_prompt_flow() {
    let mut app = app_with_env();
    app.toggle_expansion();
    app.select(2);
    app.prompt_cmd();
    assert!(matches!(&app.cmd_state, CmdState::Prompting(b) if b.is_empty()));
    assert!(app.key_action(Key::Char('q')) == KeyAction::CmdChar('q'));
    for c in "  df -h ".chars() {
        app.cmd_char(c);
    }
    app.cmd_char('x');
    app.cmd_backspace();
    let (srv, args) = app.submit_cmd().unwrap();
    assert_eq!(srv.name, "c");
    assert_eq!(args.last().map(String::as_str), Some("df -h"));
    assert!(matches!(&app.cmd_state, CmdState::Running(c) if c == "df -h"));
}

#[test]
fn empty_command_is_dropped() {
    let mut app = app_with_env();
    app.toggle_expansion();
    app.select(2);
    app.prompt_cmd();
    app.cmd_char(' ');
    assert!(app.submit_cmd().is_none());
    assert!(matches!(app.cmd_state, CmdState::Idle));
}

#[test]
fn copy_probe_and_activate_on_a_server() {
    let mut app = app_with_env();
    app.toggle_expansion();
    app.select(2);
    let text = app.copy_command().unwrap();
    assert!(text.starts_with("ssh "));
    assert!(text.ends_with("root@10.0.0.3"));
    assert_eq!(app.probe_target().map(|(s, m)| (s.name, m)), Some(("c".to_string(), ConnectionMode::Direct)));
    let req = app.activate().unwrap();
    assert_eq!(req.server.name, "c");
    assert_eq!(req.mode, ConnectionMode::Direct);
    app.set_mode(ConnectionMode::Jump);
    assert!(app.copy_command().is_none());
    assert_eq!(app.status_message.as_deref(), Some("SSH error: Jump host not configured for this server"));
    assert!(app.activate().is_none());
    assert!(matches!(&app.app_mode, AppMode::Error(m) if m == "Jump host not configured for this server"));
    app.set_mode(ConnectionMode::Wallix);
    assert!(app.probe_target().is_none());
}

#[test]
fn activate_on_a_header_opens_it() {
    let mut app = app_with_env();
    assert!(app.activate().is_none());
    assert_eq!(app.expanded_items, vec!["Group:G".to_string()]);
    assert_eq!(app.get_visible_items().len(), 3);
}

#[test]
fn modes_verbose_and_recent() {
    let mut app = app_with_env();
    app.cycle_mode();
    assert_eq!(app.connection_mode, ConnectionMode::Jump);
    app.cycle_mode();
    app.cycle_mode();
    assert_eq!(app.connection_mode, ConnectionMode::Direct);
    app.toggle_verbose();
    assert!(app.verbose_mode);
    app.toggle_recent();
    assert!(app.sort_by_recent);
    assert!(app.items_dirty);
    assert_eq!(app.get_visible_items().len(), 3);
}

#[test]
fn overview_targets_of_group_and_environment() {
    let mut app = app_with_env();
    let (title, svs) = app.overview_targets().unwrap();
    assert_eq!(title, "G");
    assert_eq!(svs.len(), 3);
    app.toggle_expansion();
    app.select(1);
    let (title, svs) = app.overview_targets().unwrap();
    assert_eq!(title, "G / E");
    assert_eq!(svs.iter().map(|s| s.name.as_str()).collect::<Vec<_>>(), vec!["a", "b"]);
    app.select(2);
    assert!(app.overview_targets().is_none());
}

#[test]
fn validation_warning_text() {
    let w = ValidationWarning { file: "a.yml".to_string(), context: "defaults".to_string(), field: "x".to_string() };
    assert_eq!(w.message(), "a.yml (defaults): champ inconnu « x »");
}

fn wallix_server() -> ResolvedServer {
    ResolvedServer {
        namespace: String::new(),
        group_name: "ALPHA-BD".to_string(),
        env_name: String::new(),
        name: "app-alpha".to_string(),
        host: "APP-ALPHA-BD".to_string(),
        user: "demo_user".to_string(),
        port: 22,
        ssh_key: String::new(),
        ssh_options: vec![],
        default_mode: ConnectionMode::Wallix,
        jump_host: None,
        bastion_host: Some("bastion.example.test".to_string()),
        bastion_user: Some("demo_user".to_string()),
        bastion_template: "{target_user}@%n:SSH:{bastion_user}".to_string(),
        wallix_group: Some("dev-admins".to_string()),
        wallix_account: "default".to_string(),
        wallix_protocol: "SSH".to_string(),
        wallix_auto_select: true,
        wallix_fail_if_menu_match_error: true,
        wallix_selection_timeout_secs: 8,
        use_system_ssh_config: false,
        probe_filesystems: vec![],
        tunnels: vec![],
        tags: vec![],
        control_master: false,
        control_path: String::new(),
        control_persist: "10m".to_string(),
        pre_connect_hook: None,
        post_disconnect_hook: None,
        hook_timeout_secs: 5,
    }
}

#[test]
fn pty_answers_the_menu_then_the_target_address() {
    let server = wallix_server();
    let mut pty = PtySession::new();
    assert!(matches!(pty.on_output("Welcome\n", &server, None), PtyAction::Nothing));
    assert!(!pty.forwards_input());
    let menu = "   ID │ Cible │ Autorisation\n 42  │ demo_user@default@APP-ALPHA-BD:SSH │ APP-ALPHA_dev-admins\n > ";
    match pty.on_output(menu, &server, None) {
        PtyAction::Send(text) => assert_eq!(text, "42\n"),
        _ => panic!("expected the entry to be typed"),
    }
    assert!(pty.forwards_input());
    assert!(matches!(pty.on_output("Target address: ", &server, None), PtyAction::Send(ref t) if t == "APP-ALPHA-BD\n"));
    assert!(matches!(pty.on_output("Target address: ", &server, None), PtyAction::Nothing));
}

#[test]
fn pty_keeps_the_last_64_kib_of_output_at_a_character_boundary() {
    let server = wallix_server();
    let mut pty = PtySession::new();
    let chunk: String = std::iter::repeat('é').take(40000).collect();
    assert!(matches!(pty.on_output(&chunk, &server, None), PtyAction::Nothing));
    assert_eq!(pty.transcript.len(), 65536);
    assert_eq!(pty.transcript.chars().count(), 32768);
    let mut pty = PtySession::new();
    let odd: String = std::iter::repeat('€').take(30000).collect();
    pty.on_output(&odd, &server, None);
    assert_eq!(pty.transcript.len(), 65535);
    let mut pty = PtySession::new();
    let ascii: String = std::iter::repeat('a').take(70000).collect();
    pty.on_output(&ascii, &server, None);
    assert_eq!(pty.transcript.len(), 65536);
}

#[test]
fn pty_types_the_given_entry() {
    let server = wallix_server();
    let mut pty = PtySession::new();
    assert!(matches!(pty.on_output("menu >", &server, Some("7")), PtyAction::Send(ref t) if t == "7\n"));
}

#[test]
fn pty_leaves_the_choice_to_the_user_without_match() {
    let server = wallix_server();
    let mut pty = PtySession::new();
    let menu = "   ID │ Cible │ Autorisation\n 1  │ other@default@ELSEWHERE:SSH │ X_ops\n > ";
    assert!(matches!(pty.on_output(menu, &server, None), PtyAction::Nothing));
    assert!(pty.forwards_input());
}

#[test]
fn overlay_keys_of_the_list() {
    let app = app_with_env();
    assert!(app.key_action(Key::Char('T')) == KeyAction::OpenTunnels);
    assert!(app.key_action(Key::Char('s')) == KeyAction::OpenScp);
}

#[test]
fn credential_input_flow() {
    let mut app = app_with_env();
    app.credential_char('x');
    assert!(matches!(app.app_mode, AppMode::Normal));
    assert!(app.submit_credential().is_none());
    app.app_mode = AppMode::CredentialInput {
        server: Box::new(wallix_server()),
        mode: ConnectionMode::Wallix,
        verbose: true,
        is_passphrase: false,
        input: String::new(),
    };
    app.credential_char('p');
    app.credential_char('w');
    app.credential_char('d');
    app.credential_backspace();
    let (server, verbose, auth) = app.submit_credential().unwrap();
    assert_eq!(server.name, wallix_server().name);
    assert!(verbose);
    assert_eq!(auth, "pw");
    assert!(matches!(app.app_mode, AppMode::Normal));
    assert_eq!(app.wallix_pending_auth.as_deref(), Some("pw"));
    assert!(app.wallix_selector.is_some());

    app.app_mode = AppMode::CredentialInput {
        server: Box::new(wallix_server()),
        mode: ConnectionMode::Wallix,
        verbose: false,
        is_passphrase: true,
        input: "abc".into(),
    };
    app.cancel_credential();
    assert!(matches!(app.app_mode, AppMode::Normal));
}

#[test]
fn credential_prompt_detection() {
    assert_eq!(credential_prompt("Connecting...\nadmin@bastion's password: "), Some("admin@bastion's password:".to_string()));
    assert_eq!(
        credential_prompt("Enter passphrase for key '/home/u/.ssh/id_rsa': \n\n"),
        Some("Enter passphrase for key '/home/u/.ssh/id_rsa':".to_string())
    );
    assert_eq!(credential_prompt("Welcome\n > "), None);
    assert_eq!(credential_prompt(""), None);
}

#[test]
fn overlay_keys_go_to_the_list_when_no_overlay_is_open() {
    let app = app_with_env();
    assert!(app.overlay_action(Key::Char('q')) == OverlayAction::Main);
    assert!(app.overlay_action(Key::Enter) == OverlayAction::Main);
}

#[test]
fn overlay_keys_of_the_tunnel_list_and_form() {
    let mut app = app_with_env();
    app.tunnel_overlay = Some(TunnelOverlayState::List { selected: 0 });
    assert!(app.overlay_action(Key::Char('q')) == OverlayAction::TunnelClose);
    assert!(app.overlay_action(Key::Esc) == OverlayAction::TunnelClose);
    assert!(app.overlay_action(Key::Down) == OverlayAction::TunnelNext);
    assert!(app.overlay_action(Key::Char('k')) == OverlayAction::TunnelPrevious);
    assert!(app.overlay_action(Key::Enter) == OverlayAction::TunnelActivate);
    assert!(app.overlay_action(Key::Char('e')) == OverlayAction::TunnelEdit);
    assert!(app.overlay_action(Key::Char('a')) == OverlayAction::TunnelAdd);
    assert!(app.overlay_action(Key::Delete) == OverlayAction::TunnelDelete);
    app.tunnel_overlay = Some(TunnelOverlayState::Form(TunnelForm::new_empty()));
    assert!(app.overlay_action(Key::Char('q')) == OverlayAction::TunnelFormChar('q'));
    assert!(app.overlay_action(Key::Tab) == OverlayAction::TunnelFormNextField);
    assert!(app.overlay_action(Key::BackTab) == OverlayAction::TunnelFormPrevField);
    assert!(app.overlay_action(Key::Enter) == OverlayAction::TunnelFormSubmit);
    assert!(app.overlay_action(Key::Esc) == OverlayAction::TunnelFormCancel);
}

#[test]
fn overlay_keys_of_the_scp_overlay() {
    let mut app = app_with_env();
    app.scp_state = ScpState::SelectingDirection;
    assert!(app.overlay_action(Key::Char('u')) == OverlayAction::ScpUpload);
    assert!(app.overlay_action(Key::Down) == OverlayAction::ScpDownload);
    assert!(app.overlay_action(Key::Esc) == OverlayAction::ScpClose);
    app.scp_state = ScpState::Error("boom".to_string());
    assert!(app.overlay_action(Key::Enter) == OverlayAction::ScpDismiss);
    assert!(app.overlay_action(Key::Char('x')) == OverlayAction::Nothing);
}

#[test]
fn menu_fetch_answers_credential_then_reads_every_page() {
    let mut f = MenuFetch::new();
    assert!(matches!(f.on_output("Welcome\n", Some("s3cret")), MenuAction::Wait));
    match f.on_output("user@bastion's password: ", Some("s3cret")) {
        MenuAction::Send(t) => assert_eq!(t, "s3cret\n"),
        _ => panic!("expected the credential"),
    }
    let page1 = " ID │ Cible │ Autorisation\n 1 │ a@default@HOST-A:SSH │ G_ops\n Page 1/2\n > ";
    match f.on_output(page1, Some("s3cret")) {
        MenuAction::Send(t) => assert_eq!(t, "n\n"),
        _ => panic!("expected the next page"),
    }
    let page2 = " ID │ Cible │ Autorisation\n 2 │ b@default@HOST-B:SSH │ G_dev\n Page 2/2\n > ";
    match f.on_output(page2, Some("s3cret")) {
        MenuAction::Menu(Ok(entries)) => {
            let ids: Vec<&str> = entries.iter().map(|e| e.id.as_str()).collect();
            assert_eq!(ids, vec!["1", "2"]);
        }
        _ => panic!("expected the menu"),
    }
}

#[test]
fn menu_fetch_stops_when_a_credential_is_missing() {
    let mut f = MenuFetch::new();
    match f.on_output("Enter passphrase for key '/k': ", None) {
        MenuAction::AuthRequired(m) => assert_eq!(m, "SSH_AUTH_REQUIRED:Enter passphrase for key '/k':"),
        _ => panic!("expected the credential to be asked"),
    }
}

#[test]
fn credential_answer_types_the_secret_once() {
    assert_eq!(credential_answer("Password: ", Some("pw"), false), Some("pw\n".to_string()));
    assert_eq!(credential_answer("Password: ", Some("pw"), true), None);
    assert_eq!(credential_answer("Password: ", None, false), None);
    assert_eq!(credential_answer("hello", Some("pw"), false), None);
}

#[test]
fn clicks_on_the_server_list() {
    assert_eq!(clicked_row(5, 4, 20, 0, 10), Some(0));
    assert_eq!(clicked_row(7, 4, 20, 3, 10), Some(5));
    assert_eq!(clicked_row(4, 4, 20, 0, 10), None);
    assert_eq!(clicked_row(20, 4, 20, 0, 30), None);
    assert_eq!(clicked_row(15, 4, 20, 0, 10), None);
    assert!(is_double_click(Some((1000, 3, 7)), 1399, 3, 7));
    assert!(!is_double_click(Some((1000, 3, 7)), 1400, 3, 7));
    assert!(!is_double_click(Some((1000, 3, 7)), 1100, 4, 7));
    assert!(!is_double_click(None, 10, 3, 7));
}
