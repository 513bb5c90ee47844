use susshi::config::{
    Config, ConfigEntry, ConnectionMode, Environment, Group, IncludeWarning, NamespaceEntry, Server,
    TunnelConfig,
};
use susshi::forms::{AppMode, CmdState, ConfigItem, ScpFormField, ScpState, TunnelOverlayState};
use susshi::i18n::{strings_en, strings_fr};
use susshi::resolve::ResolvedServer;
use susshi::ssh::{ScpDirection, ScpEvent};
use susshi::state::AppState;
use susshi::tui::App;
use susshi::wallix::WallixMenuEntry;
use susshi::wallix_ui::WallixSelectorState;

fn group(name: &str) -> Group {
    Group {
        name: name.to_string(),
        user: None,
        ssh_key: None,
        mode: None,
        ssh_port: None,
        ssh_options: None,
        wallix: None,
        wallix_group: None,
        jump: None,
        environments: None,
        servers: None,
        probe_filesystems: None,
        tunnels: None,
        tags: None,
    }
}

fn env(name: &str, servers: Vec<Server>) -> Environment {
    Environment {
        name: name.to_string(),
        user: None,
        ssh_key: None,
        mode: None,
        ssh_port: None,
        ssh_options: None,
        wallix: None,
        wallix_group: None,
        jump: None,
        servers,
        probe_filesystems: None,
        tunnels: None,
        tags: None,
    }
}

fn server(name: &str, host: &str) -> Server {
    Server { name: name.to_string(), host: host.to_string(), ..Default::default() }
}

fn create_test_config() -> Config {
    let mut g = group("G1");
    g.environments = Some(vec![env("E1", vec![server("S1", "10.0.0.1")])]);
    g.servers = Some(vec![server("S2", "10.0.0.2")]);
    Config { groups: vec![ConfigEntry::Group(g)], ..Default::default() }
}

fn make_tagged_config() -> Config {
    let mut g = group("G");
    let mut web = server("prod-web", "1.1.1.1");
    web.tags = Some(vec!["prod".to_string(), "web".to_string()]);
    let mut db = server("staging-db", "2.2.2.2");
    db.tags = Some(vec!["staging".to_string(), "db".to_string()]);
    g.servers = Some(vec![web, db]);
    Config { groups: vec![ConfigEntry::Group(g)], ..Default::default() }
}

fn make_namespace_config() -> Config {
    let mut root = group("RootGroup");
    root.servers = Some(vec![server("root_srv", "1.1.1.1")]);
    let mut ces = group("CES_Group");
    ces.servers = Some(vec![server("ces_srv", "2.2.2.2")]);
    Config {
        groups: vec![
            ConfigEntry::Group(root),
            ConfigEntry::Namespace(NamespaceEntry {
                label: "CES".to_string(),
                source_path: "/fake/ces.yml".to_string(),
                defaults: None,
                entries: vec![ConfigEntry::Group(ces)],
                vars: Vec::new(),
            }),
        ],
        ..Default::default()
    }
}

fn make_simple_config() -> Config {
    let mut g = group("Prod");
    g.servers = Some(vec![server("web-01", "203.0.113.10")]);
    Config { groups: vec![ConfigEntry::Group(g)], ..Default::default() }
}

fn new_app(config: Config) -> App {
    App::new(config, vec![], vec![], strings_en(), AppState::default()).unwrap()
}

fn server_names(items: &[ConfigItem]) -> Vec<String> {
    items
        .iter()
        .filter_map(|i| match i {
            ConfigItem::Server(s) => Some(s.name.clone()),
            _ => None,
        })
        .collect()
}

// ─── Visibility of the tree ──────────────────────────────────────────────────

#[test]
fn test_tag_filter_matches() {
    let mut app = new_app(make_tagged_config());
    app.search_query = "#prod".to_string();
    app.invalidate_cache();
    let items = app.get_visible_items();
    let names = server_names(&items);
    assert!(names.contains(&"prod-web".to_string()), "prod-web doit être visible avec #prod");
    assert!(!names.contains(&"staging-db".to_string()), "staging-db ne doit pas être visible avec #prod");
}

#[test]
fn test_tag_filter_and_text() {
    let mut app = new_app(make_tagged_config());
    app.search_query = "#prod web".to_string();
    app.invalidate_cache();
    let items = app.get_visible_items();
    assert!(server_names(&items).contains(&"prod-web".to_string()), "prod-web correspond à #prod web");
}

#[test]
fn test_tag_filter_no_match() {
    let mut app = new_app(make_tagged_config());
    app.search_query = "#inexistant".to_string();
    app.invalidate_cache();
    let items = app.get_visible_items();
    assert!(!items.iter().any(|i| matches!(i, ConfigItem::Server(_))), "Aucun serveur ne doit correspondre à #inexistant");
}

#[test]
fn app_test_initial_visibility() {
    let mut app = new_app(create_test_config());
    let items = app.get_visible_items();
    assert_eq!(items.len(), 1);
    match &items[0] {
        ConfigItem::Group(name, _ns) => assert_eq!(name, "G1"),
        _ => panic!("Expected Group G1"),
    }
}

#[test]
fn app_test_expansion() {
    let mut app = new_app(create_test_config());
    app.toggle_expansion();
    let items = app.get_visible_items();
    assert_eq!(items.len(), 3);
    match &items[1] {
        ConfigItem::Environment(g, e, _ns) => {
            assert_eq!(g, "G1");
            assert_eq!(e, "E1");
        }
        _ => panic!("Expected Environment E1"),
    }
    match &items[2] {
        ConfigItem::Server(s) => assert_eq!(s.name, "S2"),
        _ => panic!("Expected Server S2"),
    }
}

#[test]
fn app_test_collapse_all() {
    let mut app = new_app(create_test_config());
    app.toggle_expansion();
    app.selected_index = 1;
    app.items_dirty = true;
    app.toggle_expansion();
    assert!(!app.expanded_items.is_empty());
    app.collapse_all();
    assert!(app.expanded_items.is_empty());
    assert_eq!(app.selected_index, 0);
    let items = app.get_visible_items();
    assert_eq!(items.len(), 1);
}

#[test]
fn app_test_search_filtering() {
    let mut app = new_app(create_test_config());
    app.search_query = "S1".to_string();
    app.invalidate_cache();
    let items = app.get_visible_items();
    assert!(items.len() >= 3);
    let names = server_names(&items);
    assert!(names.contains(&"S1".to_string()), "Should contain S1");
    assert!(!names.contains(&"S2".to_string()), "Should NOT contain S2");
}

#[test]
fn app_test_namespace_visibility_collapsed() {
    let mut app = new_app(make_namespace_config());
    app.expanded_items.clear();
    app.invalidate_cache();
    let items = app.get_visible_items();
    assert_eq!(items.len(), 2);
    assert!(matches!(&items[0], ConfigItem::Group(name, ns) if name == "RootGroup" && ns.is_empty()));
    assert!(matches!(&items[1], ConfigItem::Namespace(label) if label == "CES"));
}

#[test]
fn app_test_namespace_expansion() {
    let mut app = new_app(make_namespace_config());
    app.expanded_items.clear();
    app.invalidate_cache();
    app.select(1);
    app.toggle_expansion();
    let items = app.get_visible_items();
    assert_eq!(items.len(), 3);
    assert!(matches!(&items[2], ConfigItem::Group(name, ns) if name == "CES_Group" && ns == "CES"));
}

#[test]
fn app_test_search_crosses_namespaces() {
    let mut app = new_app(make_namespace_config());
    app.search_query = "ces_srv".to_string();
    app.invalidate_cache();
    let items = app.get_visible_items();
    let names = server_names(&items);
    assert!(names.contains(&"ces_srv".to_string()), "Search should find ces_srv in namespace CES");
    assert!(!names.contains(&"root_srv".to_string()), "root_srv should be filtered out");
}

#[test]
fn tests_visibility_test_initial_visibility() {
    let mut app = new_app(create_test_config());
    let items = app.get_visible_items();
    assert_eq!(items.len(), 1);
    assert!(matches!(&items[0], ConfigItem::Group(name, _) if name == "G1"));
}

#[test]
fn tests_visibility_test_expansion() {
    let mut app = new_app(create_test_config());
    app.toggle_expansion();
    let items = app.get_visible_items();
    assert_eq!(items.len(), 3);
    assert!(matches!(&items[1], ConfigItem::Environment(g, e, _) if g == "G1" && e == "E1"));
    assert!(matches!(&items[2], ConfigItem::Server(s) if s.name == "S2"));
}

#[test]
fn tests_visibility_test_collapse_all() {
    let mut app = new_app(create_test_config());
    app.toggle_expansion();
    app.selected_index = 1;
    app.items_dirty = true;
    app.toggle_expansion();
    assert!(!app.expanded_items.is_empty());
    app.collapse_all();
    assert!(app.expanded_items.is_empty());
    assert_eq!(app.selected_index, 0);
    assert_eq!(app.get_visible_items().len(), 1);
}

#[test]
fn tests_visibility_test_search_filtering() {
    let mut app = new_app(create_test_config());
    app.search_query = "S1".to_string();
    app.invalidate_cache();
    let items = app.get_visible_items();
    assert!(items.len() >= 3);
    let names = server_names(&items);
    assert!(names.contains(&"S1".to_string()));
    assert!(!names.contains(&"S2".to_string()));
}

#[test]
fn tests_visibility_test_namespace_visibility_collapsed() {
    let mut app = new_app(make_namespace_config());
    app.expanded_items.clear();
    app.invalidate_cache();
    let items = app.get_visible_items();
    assert_eq!(items.len(), 2);
    assert!(matches!(&items[0], ConfigItem::Group(name, ns) if name == "RootGroup" && ns.is_empty()));
    assert!(matches!(&items[1], ConfigItem::Namespace(label) if label == "CES"));
}

#[test]
fn tests_visibility_test_namespace_expansion() {
    let mut app = new_app(make_namespace_config());
    app.expanded_items.clear();
    app.invalidate_cache();
    app.select(1);
    app.toggle_expansion();
    let items = app.get_visible_items();
    assert_eq!(items.len(), 3);
    assert!(matches!(&items[2], ConfigItem::Group(name, ns) if name == "CES_Group" && ns == "CES"));
}

#[test]
fn tests_visibility_test_search_crosses_namespaces() {
    let mut app = new_app(make_namespace_config());
    app.search_query = "ces_srv".to_string();
    app.invalidate_cache();
    let names = server_names(&app.get_visible_items());
    assert!(names.contains(&"ces_srv".to_string()));
    assert!(!names.contains(&"root_srv".to_string()));
}

// ─── State changes ───────────────────────────────────────────────────────────

#[test]
fn collapse_all_clears_expanded_and_resets_selection() {
    let mut app = new_app(make_simple_config());
    app.expanded_items.push("Group:Prod".to_string());
    app.selected_index = 2;
    app.collapse_all();
    assert!(app.expanded_items.is_empty());
    assert_eq!(app.selected_index, 0);
}

#[test]
fn collapse_all_marks_items_dirty() {
    let mut app = new_app(make_simple_config());
    app.items_dirty = false;
    app.collapse_all();
    assert!(app.items_dirty);
}

#[test]
fn invalidate_cache_sets_dirty() {
    let mut app = new_app(make_simple_config());
    app.items_dirty = false;
    app.invalidate_cache();
    assert!(app.items_dirty);
}

#[test]
fn toggle_favorites_view_flips_flag_and_resets_index() {
    let mut app = new_app(make_namespace_config());
    assert!(!app.favorites_only);
    app.toggle_favorites_view();
    assert!(app.favorites_only);
    app.selected_index = 3;
    app.toggle_favorites_view();
    assert!(!app.favorites_only);
    assert_eq!(app.selected_index, 0);
}

#[test]
fn toggle_favorites_view_marks_items_dirty() {
    let mut app = new_app(make_simple_config());
    app.items_dirty = false;
    app.toggle_favorites_view();
    assert!(app.items_dirty);
}

fn unix_now() -> u64 {
    std::time::SystemTime::now().duration_since(std::time::UNIX_EPOCH).unwrap().as_secs()
}

#[test]
fn record_connection_stores_timestamp() {
    let mut app = new_app(make_simple_config());
    let server = app.resolved_servers.first().cloned().unwrap();
    assert!(app.last_seen_for(&server).is_none());
    app.record_connection(&server, unix_now());
    assert!(app.last_seen_for(&server).is_some());
}

#[test]
fn record_connection_timestamp_is_recent() {
    let mut app = new_app(make_simple_config());
    let server = app.resolved_servers.first().cloned().unwrap();
    app.record_connection(&server, unix_now());
    let now = unix_now();
    let ts = app.last_seen_for(&server).unwrap();
    assert!(ts <= now);
    assert!(now - ts < 5);
}

#[test]
fn record_connection_replaces_previous_time() {
    let mut app = new_app(make_simple_config());
    let server = app.resolved_servers[0].clone();
    app.record_connection(&server, 100);
    app.record_connection(&server, 250);
    assert_eq!(app.last_seen_for(&server), Some(250));
    assert_eq!(app.last_seen.len(), 1);
}

#[test]
fn server_key_joins_present_parts() {
    let app = new_app(make_namespace_config());
    let keys: Vec<String> = app.resolved_servers.iter().map(App::server_key).collect();
    assert_eq!(keys, vec!["Group:RootGroup:Server:root_srv", "NS:CES:Group:CES_Group:Server:ces_srv"]);
}

#[test]
fn favorites_mode_hides_groups_without_favorites() {
    let mut app = new_app(make_namespace_config());
    app.favorites.push("NS:CES:Group:CES_Group:Server:ces_srv".to_string());
    app.favorites_only = true;
    app.invalidate_cache();
    let items = app.get_visible_items();
    assert_eq!(items.len(), 1);
    assert!(matches!(&items[0], ConfigItem::Namespace(label) if label == "CES"));
}

#[test]
fn toggle_favorite_adds_then_removes_with_message() {
    let mut app = new_app(make_simple_config());
    app.toggle_expansion();
    app.select(1);
    app.toggle_favorite();
    assert_eq!(app.favorites, vec!["Group:Prod:Server:web-01".to_string()]);
    assert_eq!(app.status_message.as_deref(), Some("⭐ Added to favorites"));
    assert!(app.is_selected_favorite());
    app.toggle_favorite();
    assert!(app.favorites.is_empty());
    assert!(!app.is_selected_favorite());
}

#[test]
fn recent_mode_lists_latest_connection_first() {
    let mut app = new_app(create_test_config());
    let s1 = app.resolved_servers[0].clone();
    let s2 = app.resolved_servers[1].clone();
    app.record_connection(&s1, 10);
    app.record_connection(&s2, 20);
    app.sort_by_recent = true;
    app.invalidate_cache();
    assert_eq!(server_names(&app.get_visible_items()), vec!["S2", "S1"]);
    app.record_connection(&s1, 30);
    app.invalidate_cache();
    assert_eq!(server_names(&app.get_visible_items()), vec!["S1", "S2"]);
}

#[test]
fn recent_mode_keeps_configuration_order_on_ties() {
    let mut app = new_app(create_test_config());
    app.sort_by_recent = true;
    app.invalidate_cache();
    assert_eq!(server_names(&app.get_visible_items()), vec!["S1", "S2"]);
}

#[test]
fn stale_rows_until_invalidated() {
    let mut app = new_app(create_test_config());
    assert_eq!(app.get_visible_items().len(), 1);
    app.search_query = "S2".to_string();
    assert_eq!(app.get_visible_items().len(), 1);
    app.invalidate_cache();
    assert_eq!(server_names(&app.get_visible_items()), vec!["S2"]);
}

#[test]
fn selection_wraps_both_ways() {
    let mut app = new_app(create_test_config());
    app.toggle_expansion();
    app.next();
    app.next();
    assert_eq!(app.selected_index, 2);
    app.next();
    assert_eq!(app.selected_index, 0);
    app.previous();
    assert_eq!(app.selected_index, 2);
    app.select(7);
    assert_eq!(app.selected_index, 2);
}

#[test]
fn selecting_a_server_takes_its_mode() {
    let mut g = group("G");
    let mut s = server("jumpy", "9.9.9.9");
    s.mode = Some(ConnectionMode::Jump);
    g.servers = Some(vec![s]);
    let mut app = new_app(Config { groups: vec![ConfigEntry::Group(g)], ..Default::default() });
    app.toggle_expansion();
    app.next();
    assert_eq!(app.connection_mode, ConnectionMode::Jump);
    assert_eq!(app.selected_server().map(|s| s.name), Some("jumpy".to_string()));
}

#[test]
fn new_applies_default_filter_and_warnings() {
    let mut config = create_test_config();
    let mut d = susshi::config::Defaults::empty();
    d.default_filter = Some("S2".to_string());
    d.keep_open = Some(true);
    config.defaults = Some(d);
    let warnings = vec![IncludeWarning::Circular { label: "L".to_string(), path: "/p".to_string() }];
    let mut app = App::new(config, warnings, vec![], strings_fr(), AppState::default()).unwrap();
    assert_eq!(app.search_query, "S2");
    assert!(app.is_searching);
    assert!(app.keep_open);
    assert!(matches!(&app.app_mode, AppMode::Error(_)));
    assert_eq!(server_names(&app.get_visible_items()), vec!["S2"]);
}

#[test]
fn saved_state_is_restored_and_kept() {
    let saved = AppState {
        expanded_items: vec!["Group:G1".to_string()],
        last_seen: vec![("Group:G1:Server:S2".to_string(), 7)],
        favorites: vec!["Group:G1:Server:S2".to_string()],
        sort_by_recent: false,
        tunnel_overrides: vec![],
    };
    let mut app = App::new(create_test_config(), vec![], vec![], strings_en(), saved).unwrap();
    assert_eq!(app.get_visible_items().len(), 3);
    let state = app.to_app_state();
    assert_eq!(state.expanded_items, vec!["Group:G1".to_string()]);
    assert_eq!(state.favorites, vec!["Group:G1:Server:S2".to_string()]);
    assert_eq!(state.last_seen, vec![("Group:G1:Server:S2".to_string(), 7)]);
}

// ─── Tunnels ─────────────────────────────────────────────────────────────────

fn tunnel(local: u16, remote: u16, label: &str) -> TunnelConfig {
    TunnelConfig { local_port: local, remote_host: "127.0.0.1".to_string(), remote_port: remote, label: label.to_string() }
}

fn tunnel_app() -> App {
    let mut g = group("G");
    let mut s = server("db", "10.1.1.1");
    s.tunnels = Some(vec![tunnel(5433, 5432, "PG")]);
    g.servers = Some(vec![s]);
    let mut app = new_app(Config { groups: vec![ConfigEntry::Group(g)], ..Default::default() });
    app.toggle_expansion();
    app.select(1);
    app
}

#[test]
fn tunnel_overlay_add_edit_delete() {
    let mut app = tunnel_app();
    app.open_tunnel_overlay();
    assert!(matches!(app.tunnel_overlay, Some(TunnelOverlayState::List { selected: 0 })));
    app.tunnel_overlay_next();
    assert!(matches!(app.tunnel_overlay, Some(TunnelOverlayState::List { selected: 1 })));
    app.open_tunnel_form_add();
    for c in "api".chars() {
        app.tunnel_form_char(c);
    }
    app.tunnel_form_next_field();
    for c in "80x80".chars() {
        app.tunnel_form_char(c);
    }
    app.tunnel_form_next_field();
    for c in "localhost".chars() {
        app.tunnel_form_char(c);
    }
    app.tunnel_form_next_field();
    for c in "8080".chars() {
        app.tunnel_form_char(c);
    }
    app.tunnel_form_submit();
    assert_eq!(app.status_message.as_deref(), Some("Tunnel added"));
    assert!(matches!(app.tunnel_overlay, Some(TunnelOverlayState::List { selected: 1 })));
    let server = app.selected_server().unwrap();
    let ts = app.effective_tunnels(&server);
    assert_eq!(ts.len(), 2);
    assert_eq!(ts[1].config.local_port, 8080);
    assert_eq!(ts[1].config.label, "api");
    let target = app.tunnel_overlay_delete();
    assert_eq!(target, Some(("Group:G:Server:db".to_string(), 1)));
    assert_eq!(app.effective_tunnels(&server).len(), 1);
    assert!(matches!(app.tunnel_overlay, Some(TunnelOverlayState::List { selected: 0 })));
    app.open_tunnel_form_edit();
    match &app.tunnel_overlay {
        Some(TunnelOverlayState::Form(f)) => {
            assert_eq!(f.local_port, "5433");
            assert_eq!(f.editing_index, Some(0));
        }
        _ => panic!("expected the form"),
    }
    app.tunnel_form_backspace();
    app.tunnel_form_submit();
    assert_eq!(app.effective_tunnels(&server)[0].config.label, "P");
    assert_eq!(app.status_message.as_deref(), Some("Tunnel updated"));
}

#[test]
fn removing_tunnels_keeps_the_others_in_order() {
    let mut g = group("G");
    let mut s = server("db", "10.1.1.1");
    s.tunnels = Some(vec![tunnel(1, 11, "a"), tunnel(2, 12, "b"), tunnel(3, 13, "c")]);
    g.servers = Some(vec![s]);
    let mut app = new_app(Config { groups: vec![ConfigEntry::Group(g)], ..Default::default() });
    app.toggle_expansion();
    app.select(1);
    let server = app.selected_server().unwrap();
    app.add_tunnel_override(&server, tunnel(4, 14, "u0"));
    app.add_tunnel_override(&server, tunnel(5, 15, "u1"));
    app.remove_tunnel_override(&server, Some(1), 0);
    let labels: Vec<String> = app.effective_tunnels(&server).iter().map(|t| t.config.label.clone()).collect();
    assert_eq!(labels, vec!["a", "c", "u0", "u1"]);
    app.remove_tunnel_override(&server, None, 0);
    let ts = app.effective_tunnels(&server);
    let labels: Vec<String> = ts.iter().map(|t| t.config.label.clone()).collect();
    assert_eq!(labels, vec!["a", "c", "u1"]);
    assert_eq!(ts[2].user_idx, 0);
    assert_eq!(ts[1].yaml_index, Some(2));
    app.remove_tunnel_override(&server, None, 5);
    assert_eq!(app.effective_tunnels(&server).len(), 3);
}

#[test]
fn tunnel_form_error_stays_in_form() {
    let mut app = tunnel_app();
    app.open_tunnel_overlay();
    app.tunnel_overlay_previous();
    app.open_tunnel_form_add();
    app.tunnel_form_submit();
    match &app.tunnel_overlay {
        Some(TunnelOverlayState::Form(f)) => assert!(!f.error.is_empty()),
        _ => panic!("expected the form"),
    }
    app.tunnel_form_cancel();
    assert!(matches!(app.tunnel_overlay, Some(TunnelOverlayState::List { selected: 0 })));
}

#[test]
fn tunnels_unavailable_in_wallix_mode() {
    let mut app = tunnel_app();
    app.connection_mode = ConnectionMode::Wallix;
    app.open_tunnel_overlay();
    assert!(app.tunnel_overlay.is_none());
    assert!(app.status_message.is_some());
    let server = app.resolved_servers[0].clone();
    assert!(app.tunnel_to_start(&server, 0).is_none());
}

#[test]
fn tunnel_to_start_checks_index() {
    let mut app = tunnel_app();
    let server = app.resolved_servers[0].clone();
    assert_eq!(app.tunnel_to_start(&server, 0).map(|t| t.config.label), Some("PG".to_string()));
    assert!(app.tunnel_to_start(&server, 3).is_none());
    assert_eq!(app.status_message.as_deref(), Some("Tunnel #3 not found for this server"));
}

// ─── SCP, commands, reload ───────────────────────────────────────────────────

#[test]
fn scp_form_flow_gives_the_request() {
    let mut app = tunnel_app();
    app.open_scp_select_direction();
    assert!(matches!(app.scp_state, ScpState::SelectingDirection));
    app.scp_select_direction(ScpDirection::Download);
    match &app.scp_state {
        ScpState::FillingForm { remote, focus, .. } => {
            assert_eq!(remote, "root@10.1.1.1:~");
            assert_eq!(*focus, ScpFormField::Local);
        }
        _ => panic!("expected the form"),
    }
    assert!(app.scp_form_submit().is_none());
    assert!(matches!(&app.scp_state, ScpState::FillingForm { error, .. } if !error.is_empty()));
    for c in " ./out.txt ".chars() {
        app.scp_form_char(c);
    }
    app.scp_form_next_field();
    for c in "/log".chars() {
        app.scp_form_char(c);
    }
    app.scp_form_backspace();
    let req = app.scp_form_submit().unwrap();
    assert_eq!(req.local, "./out.txt");
    assert_eq!(req.remote_path, "~/lo");
    assert_eq!(req.label, "~/lo");
    assert_eq!(req.direction, ScpDirection::Download);
    app.scp_transfer_started(&req, std::time::Instant::now(), 0);
    assert!(!app.apply_scp_event(ScpEvent::Progress(40)));
    assert!(matches!(app.scp_state, ScpState::Running { progress: 40, .. }));
    assert!(!app.apply_scp_event(ScpEvent::FileSize(2048)));
    assert!(matches!(app.scp_state, ScpState::Running { file_size: 2048, .. }));
    app.close_scp_overlay();
    assert!(matches!(app.scp_state, ScpState::Running { .. }));
    assert!(app.apply_scp_event(ScpEvent::Done(true)));
    assert!(matches!(app.scp_state, ScpState::Done { direction: ScpDirection::Download, exit_ok: true }));
    app.dismiss_scp_result();
    assert!(matches!(app.scp_state, ScpState::Idle));
}

#[test]
fn scp_error_event_is_reported() {
    let mut app = tunnel_app();
    assert!(app.apply_scp_event(ScpEvent::Error("boom".to_string())));
    assert!(matches!(&app.scp_state, ScpState::Error(e) if e == "boom"));
    assert_eq!(app.status_message.as_deref(), Some("SCP failed: boom"));
}

#[test]
fn cmd_args_and_result() {
    let mut app = tunnel_app();
    let mut server = app.resolved_servers[0].clone();
    let with_key = app.start_cmd(&server, "id".to_string());
    assert_eq!(with_key[6], "-i");
    assert!(with_key[7].ends_with(".ssh/id_rsa"));
    server.ssh_key = String::new();
    let args = app.start_cmd(&server, "uptime".to_string());
    assert_eq!(
        args,
        vec!["-o", "BatchMode=yes", "-o", "ConnectTimeout=10", "-p", "22", "root@10.1.1.1", "uptime"]
    );
    assert!(matches!(&app.cmd_state, CmdState::Running(c) if c == "uptime"));
    app.finish_cmd(susshi::transfers::combine_output("up".to_string(), "warn".to_string()), true);
    match &app.cmd_state {
        CmdState::Done { cmd, output, exit_ok } => {
            assert_eq!(cmd, "uptime");
            assert_eq!(output, "up\n---\nwarn");
            assert!(*exit_ok);
        }
        _ => panic!("expected a finished command"),
    }
    app.reset_cmd();
    assert!(matches!(app.cmd_state, CmdState::Idle));
}

#[test]
fn reload_keeps_expansion_and_selection() {
    let mut app = new_app(create_test_config());
    app.toggle_expansion();
    app.select(2);
    app.apply_reload(make_tagged_config(), vec![], vec![]).unwrap();
    assert_eq!(app.selected_index, 2);
    assert_eq!(app.expanded_items, vec!["Group:G1".to_string()]);
    assert_eq!(app.resolved_servers.len(), 2);
    assert_eq!(app.status_message.as_deref(), Some("Config reloaded ({} servers)"));
    assert!(app.items_dirty);
}

// ─── Wallix selector ─────────────────────────────────────────────────────────

fn wallix_test_server(group: Option<&str>) -> ResolvedServer {
    ResolvedServer {
        namespace: String::new(),
        group_name: "ALPHA-BD".to_string(),
        env_name: String::new(),
        name: "app-alpha".to_string(),
        host: "APP-ALPHA-BD".to_string(),
        user: "demo_user".to_string(),
        port: 22,
        ssh_key: String::new(),
        ssh_options: vec![],
        default_mode: ConnectionMode::Wallix,
        jump_host: None,
        bastion_host: Some("bastion.example.test".to_string()),
        bastion_user: Some("demo_user".to_string()),
        bastion_template: "{target_user}@%n:SSH:{bastion_user}".to_string(),
        wallix_group: group.map(str::to_string),
        wallix_account: "default".to_string(),
        wallix_protocol: "SSH".to_string(),
        wallix_auto_select: true,
        wallix_fail_if_menu_match_error: true,
        wallix_selection_timeout_secs: 8,
        use_system_ssh_config: false,
        probe_filesystems: vec![],
        tunnels: vec![],
        tags: vec![],
        control_master: false,
        control_path: String::new(),
        control_persist: "10m".to_string(),
        pre_connect_hook: None,
        post_disconnect_hook: None,
        hook_timeout_secs: 5,
    }
}

fn entry(id: &str, target: &str, group: &str) -> WallixMenuEntry {
    WallixMenuEntry { id: id.to_string(), target: target.to_string(), group: group.to_string() }
}

#[test]
fn wallix_selector_required_when_auto_select_disabled() {
    let mut app = new_app(make_namespace_config());
    app.connection_mode = ConnectionMode::Wallix;
    let mut server = app.resolved_servers[0].clone();
    server.wallix_auto_select = false;
    server.wallix_fail_if_menu_match_error = true;
    assert!(app.should_open_wallix_selector(&server));
}

#[test]
fn wallix_selector_required_when_auto_select_enabled() {
    let mut app = new_app(make_namespace_config());
    app.connection_mode = ConnectionMode::Wallix;
    let mut server = app.resolved_servers[0].clone();
    server.wallix_auto_select = true;
    server.wallix_fail_if_menu_match_error = false;
    assert!(app.should_open_wallix_selector(&server));
}

#[test]
fn wallix_poll_auto_resolves_to_pending_connection() {
    let mut app = new_app(make_namespace_config());
    let server = wallix_test_server(Some("dev-admins"));
    let entries = vec![entry("42", "demo_user@default@APP-ALPHA-BD:SSH", "APP-ALPHA_dev-admins")];
    app.wallix_menu_result(server.clone(), Ok(entries));
    assert!(app.wallix_selector.is_none());
    let pending = app.take_pending_wallix_connection();
    assert!(pending.is_some());
    let (_, selected_id, _) = pending.unwrap();
    assert_eq!(selected_id, "42");
    let key = App::server_key(&server);
    let cached = app.wallix_selection_cache.iter().find(|(k, _)| *k == key).map(|(_, v)| v.clone());
    assert_eq!(cached, Some("42".to_string()));
}

#[test]
fn wallix_poll_ambiguous_resolution_opens_targeted_selector() {
    let mut app = new_app(make_namespace_config());
    let server = wallix_test_server(Some("dev-admins"));
    let entries = vec![
        entry("11", "demo_user@default@APP-ALPHA-BD:SSH", "APP-ALPHA_dev-admins"),
        entry("12", "demo_user@default@APP-ALPHA-BD:SSH", "APP-ALPHA_dev-admins"),
        entry("99", "demo_user@default@OTHER:SSH", "OTHER_dev-admins"),
    ];
    app.wallix_menu_result(server, Ok(entries));
    assert!(app.take_pending_wallix_connection().is_none());
    match &app.wallix_selector {
        Some(WallixSelectorState::List { entries, .. }) => {
            assert_eq!(entries.len(), 2);
            assert!(entries.iter().all(|entry| entry.target == "demo_user@default@APP-ALPHA-BD:SSH"));
        }
        _ => panic!("expected Wallix selector list"),
    }
}

#[test]
fn wallix_poll_missing_group_opens_targeted_selector() {
    let mut app = new_app(make_namespace_config());
    let server = wallix_test_server(None);
    let entries = vec![
        entry("21", "demo_user@default@APP-ALPHA-BD:SSH", "APP-ALPHA_ops-admins"),
        entry("22", "demo_user@default@APP-ALPHA-BD:SSH", "APP-ALPHA_dev-admins"),
    ];
    app.wallix_menu_result(server, Ok(entries));
    assert!(app.take_pending_wallix_connection().is_none());
    assert!(matches!(app.wallix_selector, Some(WallixSelectorState::List { .. })));
}

#[test]
fn wallix_poll_uses_cached_selection_when_available() {
    let mut app = new_app(make_namespace_config());
    let server = wallix_test_server(Some("dev-admins"));
    app.wallix_selection_cache.push((App::server_key(&server), "77".to_string()));
    let entries = vec![
        entry("77", "demo_user@default@APP-ALPHA-BD:SSH", "APP-ALPHA_ops-admins"),
        entry("78", "demo_user@default@APP-ALPHA-BD:SSH", "APP-ALPHA_dev-admins"),
    ];
    app.wallix_menu_result(server, Ok(entries));
    assert!(app.wallix_selector.is_none());
    let pending = app.take_pending_wallix_connection();
    assert!(pending.is_some());
    let (_, selected_id, _) = pending.unwrap();
    assert_eq!(selected_id, "77");
}

#[test]
fn wallix_auth_request_opens_credential_input() {
    let mut app = new_app(make_namespace_config());
    let server = wallix_test_server(Some("dev-admins"));
    app.open_wallix_selector(server.clone(), true);
    app.wallix_menu_result(server, Err("SSH_AUTH_REQUIRED:Enter passphrase for key '/k':".to_string()));
    assert!(app.wallix_selector.is_none());
    match &app.app_mode {
        AppMode::CredentialInput { verbose, is_passphrase, input, mode, .. } => {
            assert!(*verbose);
            assert!(*is_passphrase);
            assert!(input.is_empty());
            assert_eq!(*mode, ConnectionMode::Wallix);
        }
        _ => panic!("expected the credential input"),
    }
}

#[test]
fn wallix_list_moves_and_selects() {
    let mut app = new_app(make_namespace_config());
    let mut server = wallix_test_server(Some("dev-admins"));
    server.wallix_auto_select = false;
    let entries = vec![
        entry("1", "demo_user@default@APP-ALPHA-BD:SSH", "APP-ALPHA_dev-admins"),
        entry("2", "demo_user@default@APP-ALPHA-BD:SSH", "APP-ALPHA_ops-admins"),
    ];
    app.wallix_menu_result(server, Ok(entries));
    assert_eq!(app.wallix_selector_selected_id().map(|(_, id)| id), Some("1".to_string()));
    app.wallix_selector_next();
    app.wallix_selector_next();
    assert_eq!(app.wallix_selector_selected_id().map(|(_, id)| id), Some("2".to_string()));
    app.wallix_selector_previous();
    app.wallix_selector_previous();
    assert_eq!(app.wallix_selector_selected_id().map(|(_, id)| id), Some("1".to_string()));
    app.wallix_menu_result(wallix_test_server(None), Err("connection refused".to_string()));
    assert!(matches!(&app.wallix_selector, Some(WallixSelectorState::Error { message, .. }) if message == "connection refused"));
    app.close_wallix_selector();
    assert!(app.wallix_selector.is_none());
}
