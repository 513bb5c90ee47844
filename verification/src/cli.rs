//! Command-line options, and the server of a one-shot connection
//! (`--direct`, `--jump`, `--wallix`) built from a `[user@]host[:port]` target.
use vstd::prelude::*;
use crate::config::{opt_view, opt_views, or_else, Config, ConnectionMode, Defaults, DefaultsView};
use crate::resolve::{jump_chain, or_empty, ResolvedServer, ResolvedView, defaults_or_empty};
use crate::text::{chars_of, spec_parse_unsigned, split_once_seq, string_from_chars, views};
use vstd::string::StringExecFns;

verus! {

/// The options of the command line.
#[derive(Debug, Default)]
pub struct Cli {
    /// Configuration file (default `~/.susshi.yml`).
    pub config: Option<String>,
    /// Direct connection without the interface: `[user@]host[:port]`.
    pub direct: Option<String>,
    /// Connection through the jump host without the interface.
    pub jump: Option<String>,
    /// Connection through Wallix without the interface.
    pub wallix: Option<String>,
    /// User that wins over the configuration and the target.
    pub user: Option<String>,
    /// Port that wins over the configuration and the target.
    pub port: Option<u16>,
    /// Key that wins over the configuration.
    pub key: Option<String>,
    /// Verbose SSH (`-v`).
    pub verbose: bool,
    /// Check the configuration and exit.
    pub validate: bool,
    /// Import `~/.ssh/config` as YAML.
    pub import_ssh_config: bool,
    /// The ssh_config file to import.
    pub ssh_config_path: Option<String>,
    /// Where to write the imported YAML (default: standard output).
    pub output: Option<String>,
    /// Show the import without writing it.
    pub dry_run: bool,
    /// Export format: `ansible`, `csv` or `openssh`.
    pub export: Option<String>,
    /// Where to write the export.
    pub export_output: Option<String>,
    /// Filter of the export (search syntax).
    pub export_filter: Option<String>,
    /// List the servers as JSON.
    pub list: bool,
    /// Filter of the list (search syntax).
    pub list_filter: Option<String>,
    /// Run a command on every server of a group.
    pub exec_group: Option<String>,
    /// The command for `--exec-group`.
    pub exec_cmd: Option<String>,
    /// Time limit per host for `--exec-group`, in seconds.
    pub exec_timeout: u64,
}

/// `[user@]host[:port]`: the user before the first `@`, then the host and
/// the port after the first `:` (no port when it is not a valid number).
pub open spec fn spec_parse_target(s: Seq<char>) -> (Option<Seq<char>>, Seq<char>, Option<u16>) {
    let (user, rest) = match split_once_seq(s, '@') {
        Some((u, r)) => (Some(u), r),
        None => (None, s),
    };
    match split_once_seq(rest, ':') {
        Some((h, p)) => (user, h, match spec_parse_unsigned(p, 65535) {
            Some(v) => Some(v as u16),
            None => None,
        }),
        None => (user, rest, None),
    }
}

pub fn parse_target(s: &str) -> (r: (Option<String>, String, Option<u16>))
    ensures
        (opt_view(r.0), r.1@, r.2) == spec_parse_target(s@),
{
    let v = chars_of(s);
    let (user, rest): (Option<String>, Vec<char>) = match crate::text::split_once_vec(&v, '@') {
        Some((u, r)) => (Some(string_from_chars(&u)), r),
        None => (None, v),
    };
    match crate::text::split_once_vec(&rest, ':') {
        Some((h, p)) => (user, string_from_chars(&h), crate::text::parse_u16(&p)),
        None => (user, string_from_chars(&rest), None),
    }
}

/// The server of a one-shot connection to `target`: what the command line
/// gives wins over the target, which wins over the configuration's
/// defaults; the rest takes the usual default values.
pub open spec fn spec_adhoc(
    target: Seq<char>,
    mode: ConnectionMode,
    cli_user: Option<Seq<char>>,
    cli_port: Option<u16>,
    cli_key: Option<Seq<char>>,
    d: DefaultsView,
) -> ResolvedView {
    let (pu, host, pp) = spec_parse_target(target);
    let user = match or_else(cli_user, or_else(pu, d.user)) {
        Some(u) => u,
        None => "root"@,
    };
    ResolvedView {
        namespace: seq![],
        group_name: seq![],
        env_name: seq![],
        name: host,
        host,
        user,
        port: match or_else(cli_port, or_else(pp, d.ssh_port)) {
            Some(p) => p,
            None => 22,
        },
        ssh_key: match or_else(cli_key, d.ssh_key) {
            Some(k) => k,
            None => "~/.ssh/id_rsa"@,
        },
        ssh_options: or_empty(d.ssh_options),
        default_mode: mode,
        jump_host: match d.jump {
            Some(j) => Some(jump_chain(j, user)),
            None => None,
        },
        bastion_host: match d.wallix {
            Some(b) => b.host,
            None => None,
        },
        bastion_user: match d.wallix {
            Some(b) => b.user,
            None => None,
        },
        bastion_template: match d.wallix {
            Some(b) => match b.template {
                Some(t) => t,
                None => "{target_user}@%n:SSH:{bastion_user}"@,
            },
            None => "{target_user}@%n:SSH:{bastion_user}"@,
        },
        use_system_ssh_config: match d.use_system_ssh_config {
            Some(b) => b,
            None => false,
        },
        probe_filesystems: seq![],
        tunnels: seq![],
        tags: seq![],
        control_master: false,
        control_path: seq![],
        control_persist: "10m"@,
        pre_connect_hook: None,
        post_disconnect_hook: None,
        hook_timeout_secs: 5,
        wallix_group: match d.wallix {
            Some(b) => b.group,
            None => None,
        },
        wallix_account: "default"@,
        wallix_protocol: "SSH"@,
        wallix_auto_select: true,
        wallix_fail_if_menu_match_error: true,
        wallix_selection_timeout_secs: 8,
    }
}

fn first_of(a: &Option<String>, b: &Option<String>, c: &Option<String>, dflt: &str) -> (r: String)
    ensures
        r@ == match or_else(opt_view(*a), or_else(opt_view(*b), opt_view(*c))) {
            Some(x) => x,
            None => dflt@,
        },
{
    match a {
        Some(x) => x.clone(),
        None => match b {
            Some(x) => x.clone(),
            None => match c {
                Some(x) => x.clone(),
                None => String::from_str(dflt),
            },
        },
    }
}

/// Builds the server of a one-shot connection to `target` in `mode`.
#[verifier::rlimit(30)]
pub fn build_adhoc_server(target: &str, mode: ConnectionMode, cli: &Cli, config: &Config) -> (r:
    ResolvedServer)
    ensures
        r@ == spec_adhoc(
            target@,
            mode,
            opt_view(cli.user),
            cli.port,
            opt_view(cli.key),
            defaults_or_empty(config.defaults),
        ),
{
    let (parsed_user, host, parsed_port) = parse_target(target);
    let d: Defaults = match &config.defaults {
        Some(d) => d.clone(),
        None => Defaults::empty(),
    };
    let user = first_of(&cli.user, &parsed_user, &d.user, "root");
    let port: u16 = match cli.port {
        Some(p) => p,
        None => match parsed_port {
            Some(p) => p,
            None => match d.ssh_port {
                Some(p) => p,
                None => 22,
            },
        },
    };
    let none: Option<String> = None;
    let ssh_key = first_of(&cli.key, &d.ssh_key, &none, "~/.ssh/id_rsa");
    let ssh_options: Vec<String> = match &d.ssh_options {
        Some(o) => crate::config::clone_strings(o),
        None => Vec::new(),
    };
    assert(views(ssh_options@) == or_empty(d@.ssh_options)) by {
        if d.ssh_options is None {
            assert(views(ssh_options@) =~= Seq::<Seq<char>>::empty());
        }
    }
    let jump_host = match &d.jump {
        Some(j) => Some(crate::resolve::jump_chain_exec(j, &user)),
        None => None,
    };
    let (bastion_host, bastion_user, bastion_template, wallix_group) = match &d.wallix {
        Some(b) => (
            crate::config::clone_opt_string(&b.host),
            crate::config::clone_opt_string(&b.user),
            match &b.template {
                Some(t) => t.clone(),
                None => String::from_str("{target_user}@%n:SSH:{bastion_user}"),
            },
            crate::config::clone_opt_string(&b.group),
        ),
        None => (None, None, String::from_str("{target_user}@%n:SSH:{bastion_user}"), None),
    };
    let use_sys: bool = match d.use_system_ssh_config {
        Some(b) => b,
        None => false,
    };
    let probe_filesystems: Vec<String> = Vec::new();
    let tunnels: Vec<crate::config::TunnelConfig> = Vec::new();
    let tags: Vec<String> = Vec::new();
    assert(views(probe_filesystems@) =~= Seq::<Seq<char>>::empty());
    assert(views(tags@) =~= Seq::<Seq<char>>::empty());
    assert(crate::config::tunnels_view(tunnels@) =~= Seq::<crate::config::TunnelView>::empty());
    let r = ResolvedServer {
        namespace: String::new(),
        group_name: String::new(),
        env_name: String::new(),
        name: host.clone(),
        host,
        user,
        port,
        ssh_key,
        ssh_options,
        default_mode: mode,
        jump_host,
        bastion_host,
        bastion_user,
        bastion_template,
        use_system_ssh_config: use_sys,
        probe_filesystems,
        tunnels,
        tags,
        control_master: false,
        control_path: String::new(),
        control_persist: String::from_str("10m"),
        pre_connect_hook: None,
        post_disconnect_hook: None,
        hook_timeout_secs: 5,
        wallix_group,
        wallix_account: String::from_str("default"),
        wallix_protocol: String::from_str("SSH"),
        wallix_auto_select: true,
        wallix_fail_if_menu_match_error: true,
        wallix_selection_timeout_secs: 8,
    };
    r
}


// ─── Laws ────────────────────────────────────────────────────────────────────

/// The first `@` of `user + "@" + host`, when `user` holds none, is the one
/// after `user`.
proof fn lemma_split_at_first(user: Seq<char>, host: Seq<char>, c: char)
    requires
        !user.contains(c),
    ensures
        split_once_seq(user + seq![c] + host, c) == Some((user, host)),
{
    let t = user + seq![c] + host;
    assert(t[user.len() as int] == c);
    assert(t.contains(c));
    let i = choose|i: int| 0 <= i < t.len() && t[i] == c && forall|j: int| 0 <= j < i ==> t[j] != c;
    if i < user.len() {
        assert(user[i] == t[i]);
    }
    assert(i == user.len());
    assert(t.subrange(0, i) =~= user);
    assert(t.subrange(i + 1, t.len() as int) =~= host);
}

/// Who the one-shot server logs in as: the user given on the command line
/// when there is one; otherwise, for a target `user@host` (the user holding
/// no `@`), that user, whatever the configuration's default user; for a
/// target without `@`, the configuration's default user, else `root`.
pub proof fn lemma_adhoc_user(
    user: Seq<char>,
    host: Seq<char>,
    mode: ConnectionMode,
    cli_user: Option<Seq<char>>,
    cli_port: Option<u16>,
    cli_key: Option<Seq<char>>,
    d: DefaultsView,
)
    requires
        !user.contains('@'),
    ensures
        cli_user matches Some(u) ==> spec_adhoc(user + seq!['@'] + host, mode, cli_user, cli_port, cli_key, d).user
            == u,
        cli_user is None ==> spec_adhoc(user + seq!['@'] + host, mode, cli_user, cli_port, cli_key, d).user
            == user,
        cli_user is None && !host.contains('@') ==> spec_adhoc(host, mode, cli_user, cli_port, cli_key, d).user
            == match d.user {
            Some(u) => u,
            None => "root"@,
        },
{
    lemma_split_at_first(user, host, '@');
}

/// The host of the one-shot server is the target's, without its user and
/// port: for `user@host:port` (user and host holding no `@` or `:`), the
/// host is `host`, and the port `port` when no port is given on the command
/// line and `port` is a number of at most 65535.
pub proof fn lemma_adhoc_host_port(
    user: Seq<char>,
    host: Seq<char>,
    port: Seq<char>,
    mode: ConnectionMode,
    cli_user: Option<Seq<char>>,
    cli_key: Option<Seq<char>>,
    d: DefaultsView,
)
    requires
        !user.contains('@'),
        !host.contains(':'),
    ensures
        ({
            let r = spec_adhoc(user + seq!['@'] + host + seq![':'] + port, mode, cli_user, None, cli_key, d);
            &&& r.host == host
            &&& r.name == host
            &&& spec_parse_unsigned(port, 65535) matches Some(p) ==> r.port == p
        }),
{
    let hp = host + seq![':'] + port;
    assert(user + seq!['@'] + host + seq![':'] + port =~= user + seq!['@'] + hp);
    lemma_split_at_first(user, hp, '@');
    lemma_split_at_first(host, port, ':');
}

} // verus!
