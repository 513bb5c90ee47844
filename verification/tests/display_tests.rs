use susshi::config::{Config, ConfigEntry, ConnectionMode, Group, Server, TunnelConfig};
use susshi::display::{
    ago_text, bar_fill, bastion_label, eta_text, fit_tail, last_seen_text, level_of,
    output_preview, spinner_frame, tunnel_badge_text, tunnel_row_text, HintSet, Level, StatusLine,
};
use susshi::forms::{CmdState, ConfigItem, ScpState};
use susshi::i18n::{strings_en, strings_fr};
use susshi::resolve::ResolvedServer;
use susshi::ssh::ScpDirection;
use susshi::state::AppState;
use susshi::tui::App;

fn resolved(ns: &str, group: &str, env: &str, name: &str) -> ResolvedServer {
    ResolvedServer {
        namespace: ns.into(),
        group_name: group.into(),
        env_name: env.into(),
        name: name.into(),
        host: "10.0.0.1".into(),
        user: "admin".into(),
        port: 22,
        ssh_key: String::new(),
        ssh_options: vec![],
        default_mode: ConnectionMode::Direct,
        jump_host: None,
        bastion_host: None,
        bastion_user: None,
        bastion_template: "{target_user}@%n:SSH:{bastion_user}".into(),
        use_system_ssh_config: false,
        probe_filesystems: vec![],
        tunnels: vec![],
        tags: vec![],
        control_master: false,
        control_path: String::new(),
        control_persist: "10m".into(),
        pre_connect_hook: None,
        post_disconnect_hook: None,
        hook_timeout_secs: 5,
        wallix_group: None,
        wallix_account: "default".into(),
        wallix_protocol: "SSH".into(),
        wallix_auto_select: true,
        wallix_fail_if_menu_match_error: true,
        wallix_selection_timeout_secs: 8,
    }
}

fn two_server_app() -> App {
    let g = Group {
        name: "Prod".into(),
        user: None,
        ssh_key: None,
        mode: None,
        ssh_port: None,
        ssh_options: None,
        wallix: None,
        wallix_group: None,
        jump: None,
        environments: None,
        servers: Some(vec![
            Server { name: "web-01".into(), host: "1.1.1.1".into(), ..Default::default() },
            Server { name: "db-01".into(), host: "2.2.2.2".into(), ..Default::default() },
        ]),
        probe_filesystems: None,
        tunnels: None,
        tags: None,
    };
    let config = Config { groups: vec![ConfigEntry::Group(g)], ..Default::default() };
    App::new(config, vec![], vec![], strings_en(), AppState::default()).unwrap()
}

#[test]
fn last_seen_never_just_now_and_ago() {
    let fr = strings_fr();
    assert_eq!(last_seen_text(&fr, None, 1000), "—");
    assert_eq!(last_seen_text(&fr, Some(1000), 1030), "à l'instant");
    assert_eq!(last_seen_text(&fr, Some(2000), 1000), "à l'instant");
    assert_eq!(last_seen_text(&fr, Some(0), 125), "il y a 2 min");
    assert_eq!(last_seen_text(&fr, Some(0), 7200), "il y a 2 h");
    assert_eq!(last_seen_text(&fr, Some(0), 3 * 86400 + 5), "il y a 3 j");
    assert_eq!(last_seen_text(&strings_en(), Some(0), 60), "1 min ago");
}

#[test]
fn ago_units() {
    assert_eq!(ago_text(59), "0 min");
    assert_eq!(ago_text(3599), "59 min");
    assert_eq!(ago_text(3600), "1 h");
    assert_eq!(ago_text(86399), "23 h");
    assert_eq!(ago_text(86400), "1 j");
}

#[test]
fn tunnel_badge_counts_and_plurals() {
    let fr = strings_fr();
    assert_eq!(tunnel_badge_text(&fr, 0, 0), None);
    assert_eq!(tunnel_badge_text(&fr, 1, 0).unwrap(), "  1 configuré, aucun actif");
    assert_eq!(tunnel_badge_text(&fr, 3, 0).unwrap(), "  3 configurés, aucun actif");
    assert_eq!(tunnel_badge_text(&fr, 3, 1).unwrap(), "  1 actif / 3 configurés");
    assert_eq!(tunnel_badge_text(&fr, 2, 2).unwrap(), "  2 actifs / 2 configurés");
}

#[test]
fn bastion_label_with_and_without_user() {
    let mut s = resolved("", "G", "", "srv");
    assert_eq!(bastion_label(&s), None);
    s.bastion_host = Some("bastion.example".into());
    assert_eq!(bastion_label(&s).unwrap(), "bastion.example");
    s.bastion_user = Some("ops".into());
    assert_eq!(bastion_label(&s).unwrap(), "ops@bastion.example");
}

#[test]
fn eta_formats() {
    assert_eq!(eta_text(42), "ETA 42s");
    assert_eq!(eta_text(187), "ETA 3m07s");
    assert_eq!(eta_text(3900), "ETA 1h05m");
    assert_eq!(eta_text(7322), "ETA 2h02m");
    assert_eq!(eta_text(0), "ETA 0s");
}

#[test]
fn bar_fill_and_levels() {
    assert_eq!(bar_fill(0, 20), 0);
    assert_eq!(bar_fill(50, 20), 10);
    assert_eq!(bar_fill(100, 12), 12);
    assert_eq!(bar_fill(255, 12), 12);
    assert_eq!(bar_fill(33, 12), 3);
    assert_eq!(level_of(59), Level::Low);
    assert_eq!(level_of(60), Level::Medium);
    assert_eq!(level_of(84), Level::Medium);
    assert_eq!(level_of(85), Level::High);
}

#[test]
fn spinner_cycles_every_tenth() {
    assert_eq!(spinner_frame(0), '\u{280b}');
    assert_eq!(spinner_frame(99), '\u{280b}');
    assert_eq!(spinner_frame(100), '\u{2819}');
    assert_eq!(spinner_frame(950), '\u{280f}');
}

#[test]
fn output_preview_lines() {
    assert!(output_preview("").is_empty());
    assert_eq!(output_preview("a\nb\n"), vec!["  a".to_string(), "  b".to_string()]);
    assert_eq!(output_preview("a\r\nb"), vec!["  a".to_string(), "  b".to_string()]);
    assert_eq!(output_preview("x\n\ny"), vec!["  x".to_string(), "  ".to_string(), "  y".to_string()]);
    let long: String = (0..30).map(|i| format!("l{}\n", i)).collect();
    let p = output_preview(&long);
    assert_eq!(p.len(), 20);
    assert_eq!(p[19], "  l19");
}

#[test]
fn fit_tail_keeps_the_end() {
    assert_eq!(fit_tail("short", 10), "short");
    assert_eq!(fit_tail("/very/long/path/file.txt", 9), "\u{2026}file.txt");
    assert_eq!(fit_tail("abc", 1), "abc");
    assert_eq!(fit_tail("abcdef", 6), "abcdef");
}

#[test]
fn tunnel_row_names_and_route() {
    let t = TunnelConfig { local_port: 8080, remote_host: "db".into(), remote_port: 5432, label: String::new() };
    let (name, route) = tunnel_row_text(&t);
    assert_eq!(name, "db:5432");
    assert_eq!(route, "localhost:8080 \u{2192} db:5432");
    let t2 = TunnelConfig { label: "pg".into(), ..t };
    assert_eq!(tunnel_row_text(&t2).0, "pg");
}

#[test]
fn search_bar_states() {
    let mut app = two_server_app();
    let bar = app.search_bar();
    assert!(!bar.results);
    assert_eq!(bar.title, strings_en().search_title_idle);
    assert_eq!(bar.text, strings_en().search_idle_hint);

    app.is_searching = true;
    let bar = app.search_bar();
    assert_eq!(bar.title, " 🔍 Search by name/host (2 servers) ");

    app.search_query = "web".into();
    app.invalidate_cache();
    let bar = app.search_bar();
    assert_eq!(bar.count, 1);
    assert_eq!(bar.text, "web\u{2502}");
    assert_eq!(bar.title, " 🔍 1 / 2 servers ");

    app.is_searching = false;
    let bar = app.search_bar();
    assert!(bar.results);
    assert_eq!(bar.text, "web");
    assert_eq!(bar.title, " ✓ 1 / 2 servers match 'web' ");
}

#[test]
fn tree_lines_icons_and_indent() {
    let mut app = two_server_app();
    let header = ConfigItem::Group("Prod".into(), String::new());
    let line = app.tree_line(&header);
    assert_eq!(line.indent, "");
    assert_eq!(line.label, "\u{1f4c1} Prod");
    app.expanded_items.push("Group:Prod".into());
    assert_eq!(app.tree_line(&header).label, "\u{1f4c2} Prod");

    let s = resolved("", "Prod", "", "web-01");
    let row = ConfigItem::Server(Box::new(s.clone()));
    let line = app.tree_line(&row);
    assert_eq!(line.indent, "  ");
    assert!(!line.favorite);
    assert_eq!(line.label, "\u{1f5a5}\u{fe0f} web-01");
    app.favorites.push(App::server_key(&s));
    let line = app.tree_line(&row);
    assert!(line.favorite);
    assert_eq!(line.label, "\u{2b50} web-01");

    let deep = ConfigItem::Server(Box::new(resolved("NS", "G", "E", "x")));
    assert_eq!(app.tree_line(&deep).indent, "      ");
    let env = ConfigItem::Environment("G".into(), "E".into(), "NS".into());
    assert_eq!(app.tree_line(&env).indent, "    ");
}

#[test]
fn status_line_priorities() {
    let mut app = two_server_app();
    assert!(matches!(app.status_line(), StatusLine::Hints(HintSet::Browsing)));
    app.search_query = "x".into();
    assert!(matches!(app.status_line(), StatusLine::Hints(HintSet::Filtered)));
    app.is_searching = true;
    assert!(matches!(app.status_line(), StatusLine::Hints(HintSet::Searching)));
    app.status_message = Some("copied".into());
    match app.status_line() {
        StatusLine::Message(m) => assert_eq!(m, "copied"),
        _ => panic!("expected the message"),
    }
    app.cmd_state = CmdState::Prompting("uptime".into());
    match app.status_line() {
        StatusLine::Prompt(p) => assert_eq!(p, "Command:  uptime\u{2588}"),
        _ => panic!("expected the prompt"),
    }
}

#[test]
fn scp_result_messages() {
    let mut app = two_server_app();
    assert!(app.scp_result_text().is_none());
    app.scp_state = ScpState::Done { direction: ScpDirection::Upload, exit_ok: true };
    assert_eq!(app.scp_result_text(), Some((true, "SCP Upload completed successfully".to_string())));
    app.scp_state = ScpState::Error("boom".into());
    assert_eq!(app.scp_result_text(), Some((false, "SCP error: boom".to_string())));
}
