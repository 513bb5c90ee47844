//! Resolution of the configuration tree into flat servers: every setting a
//! server leaves unset is taken from its environment, then its group, then
//! the defaults of its file.
use vstd::prelude::*;
use crate::config::{
    BastionConfig, BastionView, Config, ConfigEntry, ConnectionMode, Defaults, DefaultsView,
    Environment, Group, JumpConfig, JumpView, Server, TunnelConfig, TunnelView, clone_opt_string,
    clone_opt_strings, clone_opt_tunnels, clone_strings, empty_defaults_view, extend_filesystems,
    extend_tags, merge_bastion, merge_default_structs, merge_jump, opt_bastion_view,
    opt_jumps_view, opt_tunnels_view, opt_view, opt_views, or_else, replace_tunnels,
    spec_extend_filesystems, spec_merge_bastion, spec_merge_defaults, tunnels_view,
    append_missing, clone_tunnels, ConfigError,
};
use crate::text::{push_char, push_str, views};
use crate::tilde::{expand_tilde, tilde_expansion_of};
use crate::vars::{interpolate, interpolate_seq, vars_seq};
use vstd::string::StringExecFns;

verus! {

/// A server with every setting resolved, ready to connect to.
#[derive(Debug)]
pub struct ResolvedServer {
    /// Label of the included file the server comes from; empty for the main file.
    pub namespace: String,
    pub group_name: String,
    pub env_name: String,
    pub name: String,
    pub host: String,
    pub user: String,
    pub port: u16,
    pub ssh_key: String,
    pub ssh_options: Vec<String>,
    pub default_mode: ConnectionMode,
    /// Argument for `-J`: `"user1@host1,user2@host2"` for one or more hops.
    pub jump_host: Option<String>,
    pub bastion_host: Option<String>,
    pub bastion_user: Option<String>,
    pub bastion_template: String,
    /// When true, `~/.ssh/config` applies (no `-F /dev/null`).
    pub use_system_ssh_config: bool,
    /// Mount points a probe reports on (accumulated over the levels).
    pub probe_filesystems: Vec<String>,
    pub tunnels: Vec<TunnelConfig>,
    /// Tags of the server: those of every level, defaults to server, each
    /// once, at its first occurrence.
    pub tags: Vec<String>,
    pub control_master: bool,
    /// Socket path for `ControlPath` (empty when multiplexing is off).
    pub control_path: String,
    pub control_persist: String,
    pub pre_connect_hook: Option<String>,
    pub post_disconnect_hook: Option<String>,
    pub hook_timeout_secs: u64,
    /// Wallix authorization group that selects the menu entry.
    pub wallix_group: Option<String>,
    /// Account part of the Wallix target (`user@account@host:protocol`).
    pub wallix_account: String,
    /// Protocol part of the Wallix target.
    pub wallix_protocol: String,
    /// When true the Wallix menu entry is chosen automatically.
    pub wallix_auto_select: bool,
    /// When true a failed automatic choice stops the connection.
    pub wallix_fail_if_menu_match_error: bool,
    pub wallix_selection_timeout_secs: u64,
}

pub struct ResolvedView {
    pub namespace: Seq<char>,
    pub group_name: Seq<char>,
    pub env_name: Seq<char>,
    pub name: Seq<char>,
    pub host: Seq<char>,
    pub user: Seq<char>,
    pub port: u16,
    pub ssh_key: Seq<char>,
    pub ssh_options: Seq<Seq<char>>,
    pub default_mode: ConnectionMode,
    pub jump_host: Option<Seq<char>>,
    pub bastion_host: Option<Seq<char>>,
    pub bastion_user: Option<Seq<char>>,
    pub bastion_template: Seq<char>,
    pub use_system_ssh_config: bool,
    pub probe_filesystems: Seq<Seq<char>>,
    pub tunnels: Seq<TunnelView>,
    pub tags: Seq<Seq<char>>,
    pub control_master: bool,
    pub control_path: Seq<char>,
    pub control_persist: Seq<char>,
    pub pre_connect_hook: Option<Seq<char>>,
    pub post_disconnect_hook: Option<Seq<char>>,
    pub hook_timeout_secs: u64,
    pub wallix_group: Option<Seq<char>>,
    pub wallix_account: Seq<char>,
    pub wallix_protocol: Seq<char>,
    pub wallix_auto_select: bool,
    pub wallix_fail_if_menu_match_error: bool,
    pub wallix_selection_timeout_secs: u64,
}

impl View for ResolvedServer {
    type V = ResolvedView;

    open spec fn view(&self) -> ResolvedView {
        ResolvedView {
            namespace: self.namespace@,
            group_name: self.group_name@,
            env_name: self.env_name@,
            name: self.name@,
            host: self.host@,
            user: self.user@,
            port: self.port,
            ssh_key: self.ssh_key@,
            ssh_options: views(self.ssh_options@),
            default_mode: self.default_mode,
            jump_host: opt_view(self.jump_host),
            bastion_host: opt_view(self.bastion_host),
            bastion_user: opt_view(self.bastion_user),
            bastion_template: self.bastion_template@,
            use_system_ssh_config: self.use_system_ssh_config,
            probe_filesystems: views(self.probe_filesystems@),
            tunnels: tunnels_view(self.tunnels@),
            tags: views(self.tags@),
            control_master: self.control_master,
            control_path: self.control_path@,
            control_persist: self.control_persist@,
            pre_connect_hook: opt_view(self.pre_connect_hook),
            post_disconnect_hook: opt_view(self.post_disconnect_hook),
            hook_timeout_secs: self.hook_timeout_secs,
            wallix_group: opt_view(self.wallix_group),
            wallix_account: self.wallix_account@,
            wallix_protocol: self.wallix_protocol@,
            wallix_auto_select: self.wallix_auto_select,
            wallix_fail_if_menu_match_error: self.wallix_fail_if_menu_match_error,
            wallix_selection_timeout_secs: self.wallix_selection_timeout_secs,
        }
    }
}

impl Clone for ResolvedServer {
    fn clone(&self) -> (r: Self)
        ensures
            r@ == self@,
    {
        ResolvedServer {
            namespace: self.namespace.clone(),
            group_name: self.group_name.clone(),
            env_name: self.env_name.clone(),
            name: self.name.clone(),
            host: self.host.clone(),
            user: self.user.clone(),
            port: self.port,
            ssh_key: self.ssh_key.clone(),
            ssh_options: clone_strings(&self.ssh_options),
            default_mode: self.default_mode,
            jump_host: clone_opt_string(&self.jump_host),
            bastion_host: clone_opt_string(&self.bastion_host),
            bastion_user: clone_opt_string(&self.bastion_user),
            bastion_template: self.bastion_template.clone(),
            use_system_ssh_config: self.use_system_ssh_config,
            probe_filesystems: clone_strings(&self.probe_filesystems),
            tunnels: clone_tunnels(&self.tunnels),
            tags: clone_strings(&self.tags),
            control_master: self.control_master,
            control_path: self.control_path.clone(),
            control_persist: self.control_persist.clone(),
            pre_connect_hook: clone_opt_string(&self.pre_connect_hook),
            post_disconnect_hook: clone_opt_string(&self.post_disconnect_hook),
            hook_timeout_secs: self.hook_timeout_secs,
            wallix_group: clone_opt_string(&self.wallix_group),
            wallix_account: self.wallix_account.clone(),
            wallix_protocol: self.wallix_protocol.clone(),
            wallix_auto_select: self.wallix_auto_select,
            wallix_fail_if_menu_match_error: self.wallix_fail_if_menu_match_error,
            wallix_selection_timeout_secs: self.wallix_selection_timeout_secs,
        }
    }
}

pub open spec fn resolved_views(v: Seq<ResolvedServer>) -> Seq<ResolvedView> {
    v.map_values(|r: ResolvedServer| r@)
}

// ─── What a level hands down ─────────────────────────────────────────────────

/// The settings that a level hands down to the levels below it.
pub struct Inherited {
    pub user: Option<Seq<char>>,
    pub key: Option<Seq<char>>,
    pub mode: Option<ConnectionMode>,
    pub port: Option<u16>,
    pub opts: Option<Seq<Seq<char>>>,
    pub fs: Option<Seq<Seq<char>>>,
    pub bastion: Option<BastionView>,
    pub jump: Option<Seq<JumpView>>,
    pub tunnels: Option<Seq<TunnelView>>,
    pub tags: Seq<Seq<char>>,
    pub legacy_group: Option<Seq<char>>,
}

pub open spec fn or_empty<T>(o: Option<Seq<T>>) -> Seq<T> {
    match o {
        Some(s) => s,
        None => seq![],
    }
}

/// What the defaults of a file hand down.
pub open spec fn inherit_defaults(d: DefaultsView) -> Inherited {
    Inherited {
        user: d.user,
        key: d.ssh_key,
        mode: d.mode,
        port: d.ssh_port,
        opts: d.ssh_options,
        fs: d.probe_filesystems,
        bastion: d.wallix,
        jump: d.jump,
        tunnels: d.tunnels,
        tags: append_missing(seq![], or_empty(d.tags)),
        legacy_group: None,
    }
}

/// A level (group or environment) over what its parent hands down: scalar
/// settings and lists of options replace the parent's, Wallix settings merge
/// field by field, jump chains and tunnel lists replace the parent's,
/// filesystems and tags accumulate.
pub open spec fn inherit_level(
    p: Inherited,
    user: Option<Seq<char>>,
    key: Option<Seq<char>>,
    mode: Option<ConnectionMode>,
    port: Option<u16>,
    opts: Option<Seq<Seq<char>>>,
    fs: Option<Seq<Seq<char>>>,
    wallix: Option<BastionView>,
    jump: Option<Seq<JumpView>>,
    tunnels: Option<Seq<TunnelView>>,
    tags: Option<Seq<Seq<char>>>,
    legacy_group: Option<Seq<char>>,
) -> Inherited {
    Inherited {
        user: or_else(user, p.user),
        key: or_else(key, p.key),
        mode: or_else(mode, p.mode),
        port: or_else(port, p.port),
        opts: or_else(opts, p.opts),
        fs: spec_extend_filesystems(p.fs, fs),
        bastion: spec_merge_bastion(p.bastion, wallix),
        jump: or_else(jump, p.jump),
        tunnels: or_else(tunnels, p.tunnels),
        tags: append_missing(p.tags, or_empty(tags)),
        legacy_group: or_else(legacy_group, p.legacy_group),
    }
}

pub open spec fn inherit_group(p: Inherited, g: Group) -> Inherited {
    inherit_level(
        p,
        opt_view(g.user),
        opt_view(g.ssh_key),
        g.mode,
        g.ssh_port,
        opt_views(g.ssh_options),
        opt_views(g.probe_filesystems),
        opt_bastion_view(g.wallix),
        opt_jumps_view(g.jump),
        opt_tunnels_view(g.tunnels),
        opt_views(g.tags),
        opt_view(g.wallix_group),
    )
}

pub open spec fn inherit_env(p: Inherited, e: Environment) -> Inherited {
    inherit_level(
        p,
        opt_view(e.user),
        opt_view(e.ssh_key),
        e.mode,
        e.ssh_port,
        opt_views(e.ssh_options),
        opt_views(e.probe_filesystems),
        opt_bastion_view(e.wallix),
        opt_jumps_view(e.jump),
        opt_tunnels_view(e.tunnels),
        opt_views(e.tags),
        opt_view(e.wallix_group),
    )
}

/// Settings that the defaults of a file give every server of it, whatever
/// its group, and the file's own data.
pub struct ResolveCtx {
    pub namespace: Seq<char>,
    pub vars: Seq<(Seq<char>, Seq<char>)>,
    pub use_sys: bool,
    pub control_master: bool,
    pub control_path: Seq<char>,
    pub control_persist: Seq<char>,
    pub pre_hook: Option<Seq<char>>,
    pub post_hook: Option<Seq<char>>,
    pub hook_timeout: u64,
}

pub open spec fn ctx_of(
    d: DefaultsView,
    use_sys: bool,
    namespace: Seq<char>,
    vars: Seq<(Seq<char>, Seq<char>)>,
) -> ResolveCtx {
    ResolveCtx {
        namespace,
        vars,
        use_sys,
        control_master: match d.control_master {
            Some(b) => b,
            None => false,
        },
        control_path: match d.control_path {
            Some(p) => p,
            None => "~/.ssh/ctl/%h_%p_%r"@,
        },
        control_persist: match d.control_persist {
            Some(p) => p,
            None => "10m"@,
        },
        pre_hook: d.pre_connect_hook,
        post_hook: d.post_disconnect_hook,
        hook_timeout: match d.hook_timeout_secs {
            Some(t) => t,
            None => 5,
        },
    }
}

// ─── One server ──────────────────────────────────────────────────────────────

/// `user@host` of one hop; the hop's user defaults to the server's user and
/// its host to the empty string.
pub open spec fn hop_seq(j: JumpView, user: Seq<char>) -> Seq<char> {
    or_empty_chars(or_else(j.user, Some(user))) + seq!['@'] + or_empty_chars(j.host)
}

pub open spec fn or_empty_chars(o: Option<Seq<char>>) -> Seq<char> {
    match o {
        Some(s) => s,
        None => seq![],
    }
}

/// The hops of a jump chain joined by commas.
pub open spec fn jump_chain(jumps: Seq<JumpView>, user: Seq<char>) -> Seq<char>
    decreases jumps.len(),
{
    if jumps.len() == 0 {
        seq![]
    } else if jumps.len() == 1 {
        hop_seq(jumps[0], user)
    } else {
        jump_chain(jumps.drop_last(), user) + seq![','] + hop_seq(jumps.last(), user)
    }
}

/// A hook path, tilde-expanded, when one is set.
pub open spec fn hook_ok(h: Option<Seq<char>>, r: Option<Seq<char>>) -> bool {
    match h {
        Some(x) => r matches Some(y) && tilde_expansion_of(x, y),
        None => r is None,
    }
}

/// `r` is what server `s` of group `group` and environment `env` resolves to,
/// given what its levels hand down and the settings of its file.
pub open spec fn resolved_ok(
    s: Server,
    group: Seq<char>,
    env: Seq<char>,
    inh: Inherited,
    ctx: ResolveCtx,
    r: ResolvedView,
) -> bool {
    let user = interpolate_seq(
        match or_else(opt_view(s.user), inh.user) {
            Some(u) => u,
            None => "root"@,
        },
        ctx.vars,
    );
    let bastion = spec_merge_bastion(inh.bastion, opt_bastion_view(s.wallix));
    let jump = or_else(opt_jumps_view(s.jump), inh.jump);
    &&& r.namespace == ctx.namespace
    &&& r.group_name == group
    &&& r.env_name == env
    &&& r.name == interpolate_seq(s.name@, ctx.vars)
    &&& r.host == interpolate_seq(s.host@, ctx.vars)
    &&& r.user == user
    &&& r.port == match or_else(s.ssh_port, inh.port) {
        Some(p) => p,
        None => 22,
    }
    &&& r.ssh_key == interpolate_seq(
        match or_else(opt_view(s.ssh_key), inh.key) {
            Some(k) => k,
            None => "~/.ssh/id_rsa"@,
        },
        ctx.vars,
    )
    &&& r.ssh_options == or_empty(or_else(opt_views(s.ssh_options), inh.opts))
    &&& r.default_mode == match or_else(s.mode, inh.mode) {
        Some(m) => m,
        None => ConnectionMode::Direct,
    }
    &&& r.jump_host == match jump {
        Some(j) => Some(jump_chain(j, user)),
        None => None,
    }
    &&& r.bastion_host == match bastion {
        Some(b) => b.host,
        None => None,
    }
    &&& r.bastion_user == match bastion {
        Some(b) => b.user,
        None => None,
    }
    &&& r.bastion_template == match bastion {
        Some(b) => match b.template {
            Some(t) => t,
            None => "{target_user}@%n:SSH:{bastion_user}"@,
        },
        None => "{target_user}@%n:SSH:{bastion_user}"@,
    }
    &&& r.use_system_ssh_config == ctx.use_sys
    &&& r.probe_filesystems == or_empty(
        spec_extend_filesystems(inh.fs, opt_views(s.probe_filesystems)),
    )
    &&& r.tunnels == or_empty(or_else(opt_tunnels_view(s.tunnels), inh.tunnels))
    &&& r.tags == append_missing(inh.tags, or_empty(opt_views(s.tags)))
    &&& r.control_master == ctx.control_master
    &&& (if ctx.control_master {
        tilde_expansion_of(ctx.control_path, r.control_path)
    } else {
        r.control_path == Seq::<char>::empty()
    })
    &&& r.control_persist == ctx.control_persist
    &&& hook_ok(or_else(opt_view(s.pre_connect_hook), ctx.pre_hook), r.pre_connect_hook)
    &&& hook_ok(or_else(opt_view(s.post_disconnect_hook), ctx.post_hook), r.post_disconnect_hook)
    &&& r.hook_timeout_secs == ctx.hook_timeout
    &&& r.wallix_group == or_else(
        match bastion {
            Some(b) => b.group,
            None => None,
        },
        inh.legacy_group,
    )
    &&& r.wallix_account == "default"@
    &&& r.wallix_protocol == "SSH"@
    &&& r.wallix_auto_select
    &&& r.wallix_fail_if_menu_match_error
    &&& r.wallix_selection_timeout_secs == 8
}

// ─── The servers of a configuration, in order ────────────────────────────────

/// One server to resolve, with where it stands and what it inherits.
pub struct ResolveJob {
    pub server: Server,
    pub group: Seq<char>,
    pub env: Seq<char>,
    pub inh: Inherited,
    pub ctx: ResolveCtx,
}

pub open spec fn job_ok(j: ResolveJob, r: ResolvedView) -> bool {
    resolved_ok(j.server, j.group, j.env, j.inh, j.ctx, r)
}

/// `out` resolves `jobs`, one for one and in order.
pub open spec fn resolved_all(jobs: Seq<ResolveJob>, out: Seq<ResolvedView>) -> bool {
    &&& out.len() == jobs.len()
    &&& forall|i: int| 0 <= i < jobs.len() ==> #[trigger] job_ok(jobs[i], out[i])
}

pub open spec fn server_jobs(
    servers: Seq<Server>,
    group: Seq<char>,
    env: Seq<char>,
    inh: Inherited,
    ctx: ResolveCtx,
) -> Seq<ResolveJob> {
    servers.map_values(|s: Server| ResolveJob { server: s, group, env, inh, ctx })
}

pub open spec fn env_jobs(
    envs: Seq<Environment>,
    group: Seq<char>,
    inh: Inherited,
    ctx: ResolveCtx,
) -> Seq<ResolveJob>
    decreases envs.len(),
{
    if envs.len() == 0 {
        seq![]
    } else {
        env_jobs(envs.drop_last(), group, inh, ctx) + server_jobs(
            envs.last().servers@,
            group,
            envs.last().name@,
            inherit_env(inh, envs.last()),
            ctx,
        )
    }
}

/// The servers of a group: those of its environments, in order, then its own.
pub open spec fn group_jobs(g: Group, inh: Inherited, ctx: ResolveCtx) -> Seq<ResolveJob> {
    let ig = inherit_group(inh, g);
    group_env_jobs(g, ig, ctx) + group_server_jobs(g, ig, ctx)
}

pub open spec fn group_env_jobs(g: Group, ig: Inherited, ctx: ResolveCtx) -> Seq<ResolveJob> {
    match g.environments {
        Some(v) => env_jobs(v@, g.name@, ig, ctx),
        None => seq![],
    }
}

pub open spec fn group_server_jobs(g: Group, ig: Inherited, ctx: ResolveCtx) -> Seq<ResolveJob> {
    match g.servers {
        Some(v) => server_jobs(v@, g.name@, seq![], ig, ctx),
        None => seq![],
    }
}

pub open spec fn entry_jobs(e: ConfigEntry, inh: Inherited, ctx: ResolveCtx) -> Seq<ResolveJob> {
    match e {
        ConfigEntry::Group(g) => group_jobs(g, inh, ctx),
        ConfigEntry::Server(s) => seq![
            ResolveJob { server: s, group: seq![], env: seq![], inh, ctx },
        ],
        ConfigEntry::Namespace(_) => seq![],
    }
}

pub open spec fn entries_jobs(es: Seq<ConfigEntry>, inh: Inherited, ctx: ResolveCtx) -> Seq<
    ResolveJob,
>
    decreases es.len(),
{
    if es.len() == 0 {
        seq![]
    } else {
        entries_jobs(es.drop_last(), inh, ctx) + entry_jobs(es.last(), inh, ctx)
    }
}

pub open spec fn defaults_or_empty(d: Option<Defaults>) -> DefaultsView {
    match d {
        Some(d) => d@,
        None => empty_defaults_view(),
    }
}

pub open spec fn bool_or(o: Option<bool>, b: bool) -> bool {
    match o {
        Some(x) => x,
        None => b,
    }
}

/// The servers of a top-level entry of `c`. The entries of an included file
/// take the main file's defaults under their own, and their own variables.
pub open spec fn top_entry_jobs(e: ConfigEntry, c: Config) -> Seq<ResolveJob> {
    let d = defaults_or_empty(c.defaults);
    let use_sys = bool_or(d.use_system_ssh_config, false);
    match e {
        ConfigEntry::Namespace(ns) => {
            let nd = spec_merge_defaults(d, defaults_or_empty(ns.defaults));
            entries_jobs(
                ns.entries@,
                inherit_defaults(nd),
                ctx_of(nd, bool_or(nd.use_system_ssh_config, use_sys), ns.label@, vars_seq(ns.vars@)),
            )
        },
        _ => entry_jobs(e, inherit_defaults(d), ctx_of(d, use_sys, seq![], vars_seq(c.vars@))),
    }
}

pub open spec fn config_jobs_prefix(es: Seq<ConfigEntry>, c: Config) -> Seq<ResolveJob>
    decreases es.len(),
{
    if es.len() == 0 {
        seq![]
    } else {
        config_jobs_prefix(es.drop_last(), c) + top_entry_jobs(es.last(), c)
    }
}

/// Every server of the configuration, in the order of its entries.
pub open spec fn config_jobs(c: Config) -> Seq<ResolveJob> {
    config_jobs_prefix(c.groups@, c)
}

pub proof fn lemma_resolved_all_concat(
    j1: Seq<ResolveJob>,
    o1: Seq<ResolvedView>,
    j2: Seq<ResolveJob>,
    o2: Seq<ResolvedView>,
)
    requires
        resolved_all(j1, o1),
        resolved_all(j2, o2),
    ensures
        resolved_all(j1 + j2, o1 + o2),
{
    assert forall|i: int| 0 <= i < (j1 + j2).len() implies #[trigger] job_ok(
        (j1 + j2)[i],
        (o1 + o2)[i],
    ) by {
        if i < j1.len() {
            assert(job_ok(j1[i], o1[i]));
        } else {
            assert(job_ok(j2[i - j1.len()], o2[i - j1.len()]));
        }
    }
}

proof fn lemma_views_concat(a: Seq<ResolvedServer>, b: Seq<ResolvedServer>)
    ensures
        resolved_views(a + b) == resolved_views(a) + resolved_views(b),
{
    assert(resolved_views(a + b) =~= resolved_views(a) + resolved_views(b));
}

// ─── Executable resolution ───────────────────────────────────────────────────

/// What a level hands down, as values.
struct Inherit {
    user: Option<String>,
    key: Option<String>,
    mode: Option<ConnectionMode>,
    port: Option<u16>,
    opts: Option<Vec<String>>,
    fs: Option<Vec<String>>,
    bastion: Option<BastionConfig>,
    jump: Option<Vec<JumpConfig>>,
    tunnels: Option<Vec<TunnelConfig>>,
    tags: Vec<String>,
    legacy_group: Option<String>,
}

spec fn inherit_view(i: Inherit) -> Inherited {
    Inherited {
        user: opt_view(i.user),
        key: opt_view(i.key),
        mode: i.mode,
        port: i.port,
        opts: opt_views(i.opts),
        fs: opt_views(i.fs),
        bastion: opt_bastion_view(i.bastion),
        jump: opt_jumps_view(i.jump),
        tunnels: opt_tunnels_view(i.tunnels),
        tags: views(i.tags@),
        legacy_group: opt_view(i.legacy_group),
    }
}

fn inherit_from_defaults(d: &Defaults) -> (r: Inherit)
    ensures
        inherit_view(r) == inherit_defaults(d@),
{
    let tags = extend_tags(None, d.tags.as_ref());
    Inherit {
        user: clone_opt_string(&d.user),
        key: clone_opt_string(&d.ssh_key),
        mode: d.mode,
        port: d.ssh_port,
        opts: clone_opt_strings(&d.ssh_options),
        fs: clone_opt_strings(&d.probe_filesystems),
        bastion: crate::config::clone_opt_bastion(&d.wallix),
        jump: crate::config::clone_opt_jumps(&d.jump),
        tunnels: clone_opt_tunnels(&d.tunnels),
        tags,
        legacy_group: None,
    }
}

fn pick(child: &Option<String>, parent: &Option<String>) -> (r: Option<String>)
    ensures
        opt_view(r) == or_else(opt_view(*child), opt_view(*parent)),
{
    if child.is_some() {
        clone_opt_string(child)
    } else {
        clone_opt_string(parent)
    }
}

fn inherit_level_exec(
    p: &Inherit,
    user: &Option<String>,
    key: &Option<String>,
    mode: Option<ConnectionMode>,
    port: Option<u16>,
    opts: &Option<Vec<String>>,
    fs: &Option<Vec<String>>,
    wallix: &Option<BastionConfig>,
    jump: &Option<Vec<JumpConfig>>,
    tunnels: &Option<Vec<TunnelConfig>>,
    tags: &Option<Vec<String>>,
    legacy_group: &Option<String>,
) -> (r: Inherit)
    ensures
        inherit_view(r) == inherit_level(
            inherit_view(*p),
            opt_view(*user),
            opt_view(*key),
            mode,
            port,
            opt_views(*opts),
            opt_views(*fs),
            opt_bastion_view(*wallix),
            opt_jumps_view(*jump),
            opt_tunnels_view(*tunnels),
            opt_views(*tags),
            opt_view(*legacy_group),
        ),
{
    let new_opts = if opts.is_some() {
        clone_opt_strings(opts)
    } else {
        clone_opt_strings(&p.opts)
    };
    let new_fs = extend_filesystems(p.fs.as_ref(), fs.as_ref());
    let new_tags = extend_tags(Some(&p.tags), tags.as_ref());
    Inherit {
        user: pick(user, &p.user),
        key: pick(key, &p.key),
        mode: if mode.is_some() {
            mode
        } else {
            p.mode
        },
        port: if port.is_some() {
            port
        } else {
            p.port
        },
        opts: new_opts,
        fs: new_fs,
        bastion: merge_bastion(&p.bastion, wallix),
        jump: merge_jump(&p.jump, jump),
        tunnels: replace_tunnels(&p.tunnels, tunnels),
        tags: new_tags,
        legacy_group: pick(legacy_group, &p.legacy_group),
    }
}

fn inherit_from_group(p: &Inherit, g: &Group) -> (r: Inherit)
    ensures
        inherit_view(r) == inherit_group(inherit_view(*p), *g),
{
    inherit_level_exec(
        p,
        &g.user,
        &g.ssh_key,
        g.mode,
        g.ssh_port,
        &g.ssh_options,
        &g.probe_filesystems,
        &g.wallix,
        &g.jump,
        &g.tunnels,
        &g.tags,
        &g.wallix_group,
    )
}

fn inherit_from_env(p: &Inherit, e: &Environment) -> (r: Inherit)
    ensures
        inherit_view(r) == inherit_env(inherit_view(*p), *e),
{
    inherit_level_exec(
        p,
        &e.user,
        &e.ssh_key,
        e.mode,
        e.ssh_port,
        &e.ssh_options,
        &e.probe_filesystems,
        &e.wallix,
        &e.jump,
        &e.tunnels,
        &e.tags,
        &e.wallix_group,
    )
}

pub(crate) fn jump_chain_exec(jumps: &Vec<JumpConfig>, user: &String) -> (r: String)
    ensures
        r@ == jump_chain(crate::config::jumps_view(jumps@), user@),
{
    let ghost jv = crate::config::jumps_view(jumps@);
    let mut r = String::new();
    let mut i: usize = 0;
    while i < jumps.len()
        invariant
            i <= jumps@.len(),
            jv == crate::config::jumps_view(jumps@),
            r@ == jump_chain(jv.take(i as int), user@),
        decreases jumps@.len() - i,
    {
        assert(jv.take(i + 1).drop_last() =~= jv.take(i as int));
        let ghost before = r@;
        if i > 0 {
            push_char(&mut r, ',');
        }
        let u: &str = match &jumps[i].user {
            Some(u) => u.as_str(),
            None => user.as_str(),
        };
        push_str(&mut r, u);
        push_char(&mut r, '@');
        match &jumps[i].host {
            Some(h) => push_str(&mut r, h.as_str()),
            None => {},
        }
        proof {
            let hop = hop_seq(jv[i as int], user@);
            if i == 0 {
                assert(jv.take(1)[0] == jv[0]);
                assert(r@ =~= hop);
            } else {
                assert(r@ =~= before + seq![','] + hop);
            }
        }
        i += 1;
    }
    assert(jv.take(i as int) =~= jv);
    r
}

fn resolve_hook(server_hook: &Option<String>, default_hook: &Option<String>) -> (r: Option<String>)
    ensures
        hook_ok(or_else(opt_view(*server_hook), opt_view(*default_hook)), opt_view(r)),
{
    match server_hook {
        Some(h) => Some(expand_tilde(h.as_str())),
        None => match default_hook {
            Some(h) => Some(expand_tilde(h.as_str())),
            None => None,
        },
    }
}

/// Resolves one server against what its levels hand down and the defaults
/// of its file.
#[verifier::rlimit(40)]
fn resolve_server(
    s: &Server,
    group: &str,
    env: &str,
    inh: &Inherit,
    d: &Defaults,
    use_sys: bool,
    namespace: &str,
    vars: &Vec<(String, String)>,
) -> (r: ResolvedServer)
    ensures
        resolved_ok(
            *s,
            group@,
            env@,
            inherit_view(*inh),
            ctx_of(d@, use_sys, namespace@, vars_seq(vars@)),
            r@,
        ),
{
    let raw_user: &str = match &s.user {
        Some(u) => u.as_str(),
        None => match &inh.user {
            Some(u) => u.as_str(),
            None => "root",
        },
    };
    let user = interpolate(raw_user, vars);
    let port: u16 = match s.ssh_port {
        Some(p) => p,
        None => match inh.port {
            Some(p) => p,
            None => 22,
        },
    };
    let raw_key: &str = match &s.ssh_key {
        Some(k) => k.as_str(),
        None => match &inh.key {
            Some(k) => k.as_str(),
            None => "~/.ssh/id_rsa",
        },
    };
    let key = interpolate(raw_key, vars);
    let opts: Vec<String> = match &s.ssh_options {
        Some(o) => clone_strings(o),
        None => match &inh.opts {
            Some(o) => clone_strings(o),
            None => Vec::new(),
        },
    };
    assert(views(opts@) == or_empty(or_else(opt_views(s.ssh_options), inherit_view(*inh).opts)))
        by {
        if s.ssh_options is None && inh.opts is None {
            assert(views(opts@) =~= Seq::<Seq<char>>::empty());
        }
    }
    let probe_filesystems: Vec<String> = match extend_filesystems(
        inh.fs.as_ref(),
        s.probe_filesystems.as_ref(),
    ) {
        Some(v) => v,
        None => Vec::new(),
    };
    let tunnels: Vec<TunnelConfig> = match &s.tunnels {
        Some(t) => clone_tunnels(t),
        None => match &inh.tunnels {
            Some(t) => clone_tunnels(t),
            None => Vec::new(),
        },
    };
    assert(views(probe_filesystems@) == or_empty(
        spec_extend_filesystems(inherit_view(*inh).fs, opt_views(s.probe_filesystems)),
    )) by {
        if s.probe_filesystems is None && inh.fs is None {
            assert(views(probe_filesystems@) =~= Seq::<Seq<char>>::empty());
        }
    }
    assert(tunnels_view(tunnels@) == or_empty(
        or_else(opt_tunnels_view(s.tunnels), inherit_view(*inh).tunnels),
    )) by {
        if s.tunnels is None && inh.tunnels is None {
            assert(tunnels_view(tunnels@) =~= Seq::<TunnelView>::empty());
        }
    }
    let final_bastion = merge_bastion(&inh.bastion, &s.wallix);
    let final_jump = merge_jump(&inh.jump, &s.jump);
    let mode = match s.mode {
        Some(m) => m,
        None => match inh.mode {
            Some(m) => m,
            None => ConnectionMode::Direct,
        },
    };
    let default_template = "{target_user}@%n:SSH:{bastion_user}";
    let (bastion_host, bastion_user, bastion_template, bastion_group) = match &final_bastion {
        Some(b) => (
            clone_opt_string(&b.host),
            clone_opt_string(&b.user),
            match &b.template {
                Some(t) => t.clone(),
                None => String::from_str(default_template),
            },
            clone_opt_string(&b.group),
        ),
        None => (None, None, String::from_str(default_template), None),
    };
    let jump_host = match &final_jump {
        Some(j) => Some(jump_chain_exec(j, &user)),
        None => None,
    };
    let tags = extend_tags(Some(&inh.tags), s.tags.as_ref());
    let control_master: bool = match d.control_master {
        Some(b) => b,
        None => false,
    };
    let control_path = if control_master {
        let raw: &str = match &d.control_path {
            Some(p) => p.as_str(),
            None => "~/.ssh/ctl/%h_%p_%r",
        };
        expand_tilde(raw)
    } else {
        String::new()
    };
    let control_persist = match &d.control_persist {
        Some(p) => p.clone(),
        None => String::from_str("10m"),
    };
    let pre_connect_hook = resolve_hook(&s.pre_connect_hook, &d.pre_connect_hook);
    let post_disconnect_hook = resolve_hook(&s.post_disconnect_hook, &d.post_disconnect_hook);
    let hook_timeout_secs: u64 = match d.hook_timeout_secs {
        Some(t) => t,
        None => 5,
    };
    let wallix_group = if bastion_group.is_some() {
        bastion_group
    } else {
        clone_opt_string(&inh.legacy_group)
    };
    ResolvedServer {
        namespace: String::from_str(namespace),
        group_name: String::from_str(group),
        env_name: String::from_str(env),
        name: interpolate(s.name.as_str(), vars),
        host: interpolate(s.host.as_str(), vars),
        user,
        port,
        ssh_key: key,
        ssh_options: opts,
        default_mode: mode,
        jump_host,
        bastion_host,
        bastion_user,
        bastion_template,
        use_system_ssh_config: use_sys,
        probe_filesystems,
        tunnels,
        tags,
        control_master,
        control_path,
        control_persist,
        pre_connect_hook,
        post_disconnect_hook,
        hook_timeout_secs,
        wallix_group,
        wallix_account: String::from_str("default"),
        wallix_protocol: String::from_str("SSH"),
        wallix_auto_select: true,
        wallix_fail_if_menu_match_error: true,
        wallix_selection_timeout_secs: 8,
    }
}

fn resolve_servers(
    servers: &Vec<Server>,
    group: &str,
    env: &str,
    inh: &Inherit,
    d: &Defaults,
    use_sys: bool,
    namespace: &str,
    vars: &Vec<(String, String)>,
) -> (r: Vec<ResolvedServer>)
    ensures
        resolved_all(
            server_jobs(
                servers@,
                group@,
                env@,
                inherit_view(*inh),
                ctx_of(d@, use_sys, namespace@, vars_seq(vars@)),
            ),
            resolved_views(r@),
        ),
{
    let ghost ctx = ctx_of(d@, use_sys, namespace@, vars_seq(vars@));
    let ghost iv = inherit_view(*inh);
    let mut r: Vec<ResolvedServer> = Vec::new();
    let mut i: usize = 0;
    while i < servers.len()
        invariant
            i <= servers@.len(),
            ctx == ctx_of(d@, use_sys, namespace@, vars_seq(vars@)),
            iv == inherit_view(*inh),
            resolved_all(server_jobs(servers@.take(i as int), group@, env@, iv, ctx), resolved_views(r@)),
        decreases servers@.len() - i,
    {
        let x = resolve_server(&servers[i], group, env, inh, d, use_sys, namespace, vars);
        let ghost jobs0 = server_jobs(servers@.take(i as int), group@, env@, iv, ctx);
        let ghost out0 = resolved_views(r@);
        r.push(x);
        proof {
            let jobs1 = server_jobs(servers@.take(i + 1), group@, env@, iv, ctx);
            assert(jobs1 =~= jobs0.push(ResolveJob { server: servers@[i as int], group: group@, env: env@, inh: iv, ctx }));
            assert(resolved_views(r@) =~= out0.push(x@));
            assert forall|k: int| 0 <= k < jobs1.len() implies #[trigger] job_ok(jobs1[k], resolved_views(r@)[k]) by {
                if k < i {
                    assert(job_ok(jobs0[k], out0[k]));
                }
            }
        }
        i += 1;
    }
    assert(servers@.take(i as int) =~= servers@);
    r
}

fn resolve_envs(
    envs: &Vec<Environment>,
    group: &str,
    inh: &Inherit,
    d: &Defaults,
    use_sys: bool,
    namespace: &str,
    vars: &Vec<(String, String)>,
) -> (r: Vec<ResolvedServer>)
    ensures
        resolved_all(
            env_jobs(envs@, group@, inherit_view(*inh), ctx_of(d@, use_sys, namespace@, vars_seq(vars@))),
            resolved_views(r@),
        ),
{
    let ghost ctx = ctx_of(d@, use_sys, namespace@, vars_seq(vars@));
    let ghost iv = inherit_view(*inh);
    let mut r: Vec<ResolvedServer> = Vec::new();
    let mut i: usize = 0;
    assert(resolved_views(r@) =~= Seq::<ResolvedView>::empty());
    while i < envs.len()
        invariant
            i <= envs@.len(),
            ctx == ctx_of(d@, use_sys, namespace@, vars_seq(vars@)),
            iv == inherit_view(*inh),
            resolved_all(env_jobs(envs@.take(i as int), group@, iv, ctx), resolved_views(r@)),
        decreases envs@.len() - i,
    {
        assert(envs@.take(i + 1).drop_last() =~= envs@.take(i as int));
        let env = &envs[i];
        let ie = inherit_from_env(inh, env);
        let mut part = resolve_servers(&env.servers, group, env.name.as_str(), &ie, d, use_sys, namespace, vars);
        let ghost out0 = r@;
        let ghost p0 = part@;
        r.append(&mut part);
        proof {
            lemma_views_concat(out0, p0);
            lemma_resolved_all_concat(
                env_jobs(envs@.take(i as int), group@, iv, ctx),
                resolved_views(out0),
                server_jobs(env.servers@, group@, env.name@, inherit_env(iv, *env), ctx),
                resolved_views(p0),
            );
        }
        i += 1;
    }
    assert(envs@.take(i as int) =~= envs@);
    r
}

fn resolve_group(
    g: &Group,
    inh: &Inherit,
    d: &Defaults,
    use_sys: bool,
    namespace: &str,
    vars: &Vec<(String, String)>,
) -> (r: Vec<ResolvedServer>)
    ensures
        resolved_all(
            group_jobs(*g, inherit_view(*inh), ctx_of(d@, use_sys, namespace@, vars_seq(vars@))),
            resolved_views(r@),
        ),
{
    let ghost ctx = ctx_of(d@, use_sys, namespace@, vars_seq(vars@));
    let ig = inherit_from_group(inh, g);
    let mut r: Vec<ResolvedServer> = match &g.environments {
        Some(envs) => resolve_envs(envs, g.name.as_str(), &ig, d, use_sys, namespace, vars),
        None => Vec::new(),
    };
    assert(resolved_all(group_env_jobs(*g, inherit_view(ig), ctx), resolved_views(r@))) by {
        if g.environments is None {
            assert(resolved_views(r@) =~= Seq::<ResolvedView>::empty());
        }
    }
    let mut part: Vec<ResolvedServer> = match &g.servers {
        Some(servers) => resolve_servers(servers, g.name.as_str(), "", &ig, d, use_sys, namespace, vars),
        None => Vec::new(),
    };
    proof {
        reveal_strlit("");
    }
    assert(resolved_all(group_server_jobs(*g, inherit_view(ig), ctx), resolved_views(part@))) by {
        if g.servers is None {
            assert(resolved_views(part@) =~= Seq::<ResolvedView>::empty());
        } else {
            assert(""@ =~= Seq::<char>::empty());
        }
    }
    let ghost out0 = r@;
    let ghost p0 = part@;
    r.append(&mut part);
    proof {
        lemma_views_concat(out0, p0);
        lemma_resolved_all_concat(
            group_env_jobs(*g, inherit_view(ig), ctx),
            resolved_views(out0),
            group_server_jobs(*g, inherit_view(ig), ctx),
            resolved_views(p0),
        );
    }
    r
}

fn resolve_entry(
    e: &ConfigEntry,
    inh: &Inherit,
    d: &Defaults,
    use_sys: bool,
    namespace: &str,
    vars: &Vec<(String, String)>,
) -> (r: Vec<ResolvedServer>)
    ensures
        resolved_all(
            entry_jobs(*e, inherit_view(*inh), ctx_of(d@, use_sys, namespace@, vars_seq(vars@))),
            resolved_views(r@),
        ),
{
    match e {
        ConfigEntry::Group(g) => resolve_group(g, inh, d, use_sys, namespace, vars),
        ConfigEntry::Server(s) => {
            let x = resolve_server(s, "", "", inh, d, use_sys, namespace, vars);
            proof {
                reveal_strlit("");
                assert(""@ =~= Seq::<char>::empty());
            }
            let mut r: Vec<ResolvedServer> = Vec::new();
            r.push(x);
            assert(resolved_views(r@) =~= seq![x@]);
            let ghost j = entry_jobs(*e, inherit_view(*inh), ctx_of(d@, use_sys, namespace@, vars_seq(vars@)));
            assert(job_ok(j[0], resolved_views(r@)[0]));
            r
        },
        ConfigEntry::Namespace(_) => {
            let r: Vec<ResolvedServer> = Vec::new();
            assert(resolved_views(r@) =~= Seq::<ResolvedView>::empty());
            r
        },
    }
}

/// Resolves the entries of one file (or of one included file) with its
/// defaults, appending the servers to `resolved`; never fails.
fn resolve_entries(
    entries: &Vec<ConfigEntry>,
    d: &Defaults,
    use_sys_cfg: bool,
    namespace: &str,
    resolved: &mut Vec<ResolvedServer>,
    vars: &Vec<(String, String)>,
) -> (res: Result<(), ConfigError>)
    ensures
        res is Ok,
        resolved_views(final(resolved)@) == resolved_views(old(resolved)@) + resolved_views(
            final(resolved)@,
        ).skip(old(resolved)@.len() as int),
        resolved_all(
            entries_jobs(
                entries@,
                inherit_defaults(d@),
                ctx_of(d@, use_sys_cfg, namespace@, vars_seq(vars@)),
            ),
            resolved_views(final(resolved)@).skip(old(resolved)@.len() as int),
        ),
{
    let ghost ctx = ctx_of(d@, use_sys_cfg, namespace@, vars_seq(vars@));
    let inh = inherit_from_defaults(d);
    let ghost start = resolved@;
    let mut added: Vec<ResolvedServer> = Vec::new();
    let mut i: usize = 0;
    assert(resolved_views(added@) =~= Seq::<ResolvedView>::empty());
    while i < entries.len()
        invariant
            i <= entries@.len(),
            ctx == ctx_of(d@, use_sys_cfg, namespace@, vars_seq(vars@)),
            inherit_view(inh) == inherit_defaults(d@),
            resolved_all(entries_jobs(entries@.take(i as int), inherit_defaults(d@), ctx), resolved_views(added@)),
        decreases entries@.len() - i,
    {
        assert(entries@.take(i + 1).drop_last() =~= entries@.take(i as int));
        let mut part = resolve_entry(&entries[i], &inh, d, use_sys_cfg, namespace, vars);
        let ghost a0 = added@;
        let ghost p0 = part@;
        added.append(&mut part);
        proof {
            lemma_views_concat(a0, p0);
            lemma_resolved_all_concat(
                entries_jobs(entries@.take(i as int), inherit_defaults(d@), ctx),
                resolved_views(a0),
                entry_jobs(entries@[i as int], inherit_defaults(d@), ctx),
                resolved_views(p0),
            );
        }
        i += 1;
    }
    assert(entries@.take(i as int) =~= entries@);
    let ghost added_v = added@;
    resolved.append(&mut added);
    proof {
        lemma_views_concat(start, added_v);
        assert(resolved_views(resolved@).skip(start.len() as int) =~= resolved_views(added_v));
    }
    Ok(())
}

impl Config {
    /// Every server of the configuration with all its settings resolved, in
    /// the order of the entries: a group's environments then its own
    /// servers. The entries of an included file use the main file's defaults
    /// overridden by their own, and their own variables. Never fails.
    pub fn resolve(&self) -> (r: Result<Vec<ResolvedServer>, ConfigError>)
        ensures
            match r {
                Ok(v) => resolved_all(config_jobs(*self), resolved_views(v@)) && forall|i: int|
                    0 <= i < v@.len() ==> (#[trigger] resolved_views(v@)[i]).tags.no_duplicates(),
                Err(_) => false,
            },
    {
        let d: Defaults = match &self.defaults {
            Some(d) => d.clone(),
            None => Defaults::empty(),
        };
        let use_sys_cfg: bool = match d.use_system_ssh_config {
            Some(b) => b,
            None => false,
        };
        let ghost gs = self.groups@;
        let mut resolved: Vec<ResolvedServer> = Vec::new();
        let mut i: usize = 0;
        assert(resolved_views(resolved@) =~= Seq::<ResolvedView>::empty());
        while i < self.groups.len()
            invariant
                i <= gs.len(),
                gs == self.groups@,
                d@ == defaults_or_empty(self.defaults),
                use_sys_cfg == bool_or(d@.use_system_ssh_config, false),
                resolved_all(config_jobs_prefix(gs.take(i as int), *self), resolved_views(resolved@)),
            decreases gs.len() - i,
        {
            assert(gs.take(i + 1).drop_last() =~= gs.take(i as int));
            let ghost r0 = resolved@;
            let entry = &self.groups[i];
            match entry {
                ConfigEntry::Namespace(ns) => {
                    let ns_local: Defaults = match &ns.defaults {
                        Some(x) => x.clone(),
                        None => Defaults::empty(),
                    };
                    let ns_d = merge_default_structs(&d, &ns_local);
                    let ns_use_sys_cfg: bool = match ns_d.use_system_ssh_config {
                        Some(b) => b,
                        None => use_sys_cfg,
                    };
                    let _ = resolve_entries(
                        &ns.entries,
                        &ns_d,
                        ns_use_sys_cfg,
                        ns.label.as_str(),
                        &mut resolved,
                        &ns.vars,
                    );
                    proof {
                        lemma_resolved_all_concat(
                            config_jobs_prefix(gs.take(i as int), *self),
                            resolved_views(r0),
                            top_entry_jobs(gs[i as int], *self),
                            resolved_views(resolved@).skip(r0.len() as int),
                        );
                    }
                },
                _ => {
                    let inh = inherit_from_defaults(&d);
                    let mut part = resolve_entry(entry, &inh, &d, use_sys_cfg, "", &self.vars);
                    proof {
                        reveal_strlit("");
                        assert(""@ =~= Seq::<char>::empty());
                    }
                    let ghost p0 = part@;
                    resolved.append(&mut part);
                    proof {
                        lemma_views_concat(r0, p0);
                        lemma_resolved_all_concat(
                            config_jobs_prefix(gs.take(i as int), *self),
                            resolved_views(r0),
                            top_entry_jobs(gs[i as int], *self),
                            resolved_views(p0),
                        );
                    }
                },
            }
            i += 1;
        }
        assert(gs.take(i as int) =~= gs);
        proof {
            lemma_config_tags_unique(*self, resolved_views(resolved@));
        }
        Ok(resolved)
    }
}

// ─── Laws ────────────────────────────────────────────────────────────────────

/// Inheritance runs defaults → group → environment → server: for a server
/// of an environment, the mode, port and user are those of the nearest
/// level that sets them, else `direct`, 22 and `root`.
pub proof fn lemma_inheritance_chain(
    s: Server,
    g: Group,
    e: Environment,
    d: DefaultsView,
    ctx: ResolveCtx,
    r: ResolvedView,
)
    requires
        resolved_ok(s, g.name@, e.name@, inherit_env(inherit_group(inherit_defaults(d), g), e), ctx, r),
    ensures
        r.default_mode == match or_else(s.mode, or_else(e.mode, or_else(g.mode, d.mode))) {
            Some(m) => m,
            None => ConnectionMode::Direct,
        },
        r.port == match or_else(s.ssh_port, or_else(e.ssh_port, or_else(g.ssh_port, d.ssh_port))) {
            Some(p) => p,
            None => 22u16,
        },
        r.user == interpolate_seq(
            match or_else(
                opt_view(s.user),
                or_else(opt_view(e.user), or_else(opt_view(g.user), d.user)),
            ) {
                Some(u) => u,
                None => "root"@,
            },
            ctx.vars,
        ),
        r.ssh_key == interpolate_seq(
            match or_else(
                opt_view(s.ssh_key),
                or_else(opt_view(e.ssh_key), or_else(opt_view(g.ssh_key), d.ssh_key)),
            ) {
                Some(k) => k,
                None => "~/.ssh/id_rsa"@,
            },
            ctx.vars,
        ),
        r.ssh_options == match or_else(
            opt_views(s.ssh_options),
            or_else(opt_views(e.ssh_options), or_else(opt_views(g.ssh_options), d.ssh_options)),
        ) {
            Some(o) => o,
            None => seq![],
        },
        r.tunnels == match or_else(
            opt_tunnels_view(s.tunnels),
            or_else(opt_tunnels_view(e.tunnels), or_else(opt_tunnels_view(g.tunnels), d.tunnels)),
        ) {
            Some(t) => t,
            None => seq![],
        },
        r.jump_host == match or_else(
            opt_jumps_view(s.jump),
            or_else(opt_jumps_view(e.jump), or_else(opt_jumps_view(g.jump), d.jump)),
        ) {
            Some(j) => Some(jump_chain(j, r.user)),
            None => None,
        },
{
}

/// The same cascade for a server written directly in a group: defaults →
/// group → server, the nearest level that sets a setting winning.
pub proof fn lemma_inheritance_group_server(
    s: Server,
    g: Group,
    d: DefaultsView,
    ctx: ResolveCtx,
    r: ResolvedView,
)
    requires
        resolved_ok(s, g.name@, seq![], inherit_group(inherit_defaults(d), g), ctx, r),
    ensures
        r.default_mode == match or_else(s.mode, or_else(g.mode, d.mode)) {
            Some(m) => m,
            None => ConnectionMode::Direct,
        },
        r.port == match or_else(s.ssh_port, or_else(g.ssh_port, d.ssh_port)) {
            Some(p) => p,
            None => 22u16,
        },
        r.user == interpolate_seq(
            match or_else(opt_view(s.user), or_else(opt_view(g.user), d.user)) {
                Some(u) => u,
                None => "root"@,
            },
            ctx.vars,
        ),
        r.ssh_key == interpolate_seq(
            match or_else(opt_view(s.ssh_key), or_else(opt_view(g.ssh_key), d.ssh_key)) {
                Some(k) => k,
                None => "~/.ssh/id_rsa"@,
            },
            ctx.vars,
        ),
        r.ssh_options == match or_else(
            opt_views(s.ssh_options),
            or_else(opt_views(g.ssh_options), d.ssh_options),
        ) {
            Some(o) => o,
            None => seq![],
        },
        r.tunnels == match or_else(opt_tunnels_view(s.tunnels), or_else(opt_tunnels_view(g.tunnels), d.tunnels)) {
            Some(t) => t,
            None => seq![],
        },
        r.jump_host == match or_else(opt_jumps_view(s.jump), or_else(opt_jumps_view(g.jump), d.jump)) {
            Some(j) => Some(jump_chain(j, r.user)),
            None => None,
        },
{
}

/// What a server sets itself wins over what it inherits: its port, its own
/// tunnel list (which replaces the inherited one) and its jump chain.
pub proof fn lemma_server_settings_win(
    s: Server,
    group: Seq<char>,
    env: Seq<char>,
    inh: Inherited,
    ctx: ResolveCtx,
    r: ResolvedView,
)
    requires
        resolved_ok(s, group, env, inh, ctx, r),
    ensures
        s.ssh_port matches Some(p) ==> r.port == p,
        s.tunnels matches Some(t) ==> r.tunnels == tunnels_view(t@),
        s.ssh_options matches Some(o) ==> r.ssh_options == views(o@),
        s.mode matches Some(m) ==> r.default_mode == m,
{
}

/// Tags and probe filesystems accumulate: the inherited ones stay first and
/// in order, the server's own are added, and a tag is in the result exactly
/// when a level has it.
pub proof fn lemma_lists_accumulate(
    s: Server,
    group: Seq<char>,
    env: Seq<char>,
    inh: Inherited,
    ctx: ResolveCtx,
    r: ResolvedView,
    t: Seq<char>,
)
    requires
        resolved_ok(s, group, env, inh, ctx, r),
    ensures
        r.tags.len() >= inh.tags.len(),
        r.tags.take(inh.tags.len() as int) == inh.tags,
        r.tags.contains(t) <==> (inh.tags.contains(t) || or_empty(opt_views(s.tags)).contains(t)),
        inh.fs matches Some(f) ==> r.probe_filesystems.len() >= f.len()
            && r.probe_filesystems.take(f.len() as int) == f,
{
    crate::config::lemma_append_missing_prefix(inh.tags, or_empty(opt_views(s.tags)));
    crate::config::lemma_append_missing_contents(inh.tags, or_empty(opt_views(s.tags)), t);
    match inh.fs {
        Some(f) => {
            match opt_views(s.probe_filesystems) {
                Some(c) => crate::config::lemma_append_missing_prefix(f, c),
                None => {
                    assert(f.take(f.len() as int) =~= f);
                },
            }
        },
        None => {},
    }
}

/// Tags cascade from the defaults through the group and the environment to
/// the server: each level's tags are added after those above it, each tag
/// at its first occurrence, and no tag occurs twice.
pub proof fn lemma_tags_cascade(
    s: Server,
    g: Group,
    e: Environment,
    d: DefaultsView,
    ctx: ResolveCtx,
    r: ResolvedView,
)
    requires
        resolved_ok(s, g.name@, e.name@, inherit_env(inherit_group(inherit_defaults(d), g), e), ctx, r),
    ensures
        r.tags == append_missing(
            append_missing(
                append_missing(
                    append_missing(seq![], or_empty(d.tags)),
                    or_empty(opt_views(g.tags)),
                ),
                or_empty(opt_views(e.tags)),
            ),
            or_empty(opt_views(s.tags)),
        ),
        r.tags.no_duplicates(),
{
    lemma_inherited_tags_unique_defaults(d);
    lemma_inherited_tags_unique_group(inherit_defaults(d), g);
    lemma_inherited_tags_unique_env(inherit_group(inherit_defaults(d), g), e);
    lemma_resolved_tags_unique(s, g.name@, e.name@, inherit_env(inherit_group(inherit_defaults(d), g), e), ctx, r);
}

/// What the defaults hand down holds no tag twice.
pub proof fn lemma_inherited_tags_unique_defaults(d: DefaultsView)
    ensures
        inherit_defaults(d).tags.no_duplicates(),
{
    crate::config::lemma_append_missing_no_repeat(seq![], or_empty(d.tags));
}

/// A group keeps the tags that it inherits free of repeats.
pub proof fn lemma_inherited_tags_unique_group(p: Inherited, g: Group)
    requires
        p.tags.no_duplicates(),
    ensures
        inherit_group(p, g).tags.no_duplicates(),
{
    crate::config::lemma_append_missing_no_repeat(p.tags, or_empty(opt_views(g.tags)));
}

/// An environment keeps the tags that it inherits free of repeats.
pub proof fn lemma_inherited_tags_unique_env(p: Inherited, e: Environment)
    requires
        p.tags.no_duplicates(),
    ensures
        inherit_env(p, e).tags.no_duplicates(),
{
    crate::config::lemma_append_missing_no_repeat(p.tags, or_empty(opt_views(e.tags)));
}

/// A resolved server holds no tag twice when what it inherits holds none.
pub proof fn lemma_resolved_tags_unique(
    s: Server,
    group: Seq<char>,
    env: Seq<char>,
    inh: Inherited,
    ctx: ResolveCtx,
    r: ResolvedView,
)
    requires
        resolved_ok(s, group, env, inh, ctx, r),
        inh.tags.no_duplicates(),
    ensures
        r.tags.no_duplicates(),
{
    crate::config::lemma_append_missing_no_repeat(inh.tags, or_empty(opt_views(s.tags)));
}

/// Every job inherits tags without repeats.
pub open spec fn jobs_tags_unique(jobs: Seq<ResolveJob>) -> bool {
    forall|i: int| 0 <= i < jobs.len() ==> (#[trigger] jobs[i]).inh.tags.no_duplicates()
}

proof fn lemma_jobs_tags_unique_concat(a: Seq<ResolveJob>, b: Seq<ResolveJob>)
    requires
        jobs_tags_unique(a),
        jobs_tags_unique(b),
    ensures
        jobs_tags_unique(a + b),
{
    assert forall|i: int| 0 <= i < (a + b).len() implies (#[trigger] (a + b)[i]).inh.tags.no_duplicates() by {
        if i < a.len() {
            assert((a + b)[i] == a[i]);
        } else {
            assert((a + b)[i] == b[i - a.len()]);
        }
    }
}

proof fn lemma_env_jobs_tags_unique(envs: Seq<Environment>, group: Seq<char>, inh: Inherited, ctx: ResolveCtx)
    requires
        inh.tags.no_duplicates(),
    ensures
        jobs_tags_unique(env_jobs(envs, group, inh, ctx)),
    decreases envs.len(),
{
    if envs.len() > 0 {
        lemma_env_jobs_tags_unique(envs.drop_last(), group, inh, ctx);
        lemma_inherited_tags_unique_env(inh, envs.last());
        lemma_jobs_tags_unique_concat(
            env_jobs(envs.drop_last(), group, inh, ctx),
            server_jobs(envs.last().servers@, group, envs.last().name@, inherit_env(inh, envs.last()), ctx),
        );
    }
}

proof fn lemma_entry_jobs_tags_unique(e: ConfigEntry, inh: Inherited, ctx: ResolveCtx)
    requires
        inh.tags.no_duplicates(),
    ensures
        jobs_tags_unique(entry_jobs(e, inh, ctx)),
{
    match e {
        ConfigEntry::Group(g) => {
            let ig = inherit_group(inh, g);
            lemma_inherited_tags_unique_group(inh, g);
            match g.environments {
                Some(v) => lemma_env_jobs_tags_unique(v@, g.name@, ig, ctx),
                None => {},
            }
            lemma_jobs_tags_unique_concat(group_env_jobs(g, ig, ctx), group_server_jobs(g, ig, ctx));
        },
        _ => {},
    }
}

proof fn lemma_entries_jobs_tags_unique(es: Seq<ConfigEntry>, inh: Inherited, ctx: ResolveCtx)
    requires
        inh.tags.no_duplicates(),
    ensures
        jobs_tags_unique(entries_jobs(es, inh, ctx)),
    decreases es.len(),
{
    if es.len() > 0 {
        lemma_entries_jobs_tags_unique(es.drop_last(), inh, ctx);
        lemma_entry_jobs_tags_unique(es.last(), inh, ctx);
        lemma_jobs_tags_unique_concat(entries_jobs(es.drop_last(), inh, ctx), entry_jobs(es.last(), inh, ctx));
    }
}

proof fn lemma_config_jobs_tags_unique(es: Seq<ConfigEntry>, c: Config)
    ensures
        jobs_tags_unique(config_jobs_prefix(es, c)),
    decreases es.len(),
{
    if es.len() > 0 {
        lemma_config_jobs_tags_unique(es.drop_last(), c);
        let d = defaults_or_empty(c.defaults);
        let e = es.last();
        match e {
            ConfigEntry::Namespace(ns) => {
                let nd = spec_merge_defaults(d, defaults_or_empty(ns.defaults));
                lemma_inherited_tags_unique_defaults(nd);
                lemma_entries_jobs_tags_unique(
                    ns.entries@,
                    inherit_defaults(nd),
                    ctx_of(nd, bool_or(nd.use_system_ssh_config, bool_or(d.use_system_ssh_config, false)), ns.label@, vars_seq(ns.vars@)),
                );
            },
            _ => {
                lemma_inherited_tags_unique_defaults(d);
                lemma_entry_jobs_tags_unique(
                    e,
                    inherit_defaults(d),
                    ctx_of(d, bool_or(d.use_system_ssh_config, false), seq![], vars_seq(c.vars@)),
                );
            },
        }
        lemma_jobs_tags_unique_concat(config_jobs_prefix(es.drop_last(), c), top_entry_jobs(e, c));
    }
}

/// No resolved server of a configuration holds a tag twice.
pub proof fn lemma_config_tags_unique(c: Config, out: Seq<ResolvedView>)
    requires
        resolved_all(config_jobs(c), out),
    ensures
        forall|i: int| 0 <= i < out.len() ==> (#[trigger] out[i]).tags.no_duplicates(),
{
    lemma_config_jobs_tags_unique(c.groups@, c);
    let jobs = config_jobs(c);
    assert forall|i: int| 0 <= i < out.len() implies (#[trigger] out[i]).tags.no_duplicates() by {
        assert(job_ok(jobs[i], out[i]));
        assert(jobs[i].inh.tags.no_duplicates());
        lemma_resolved_tags_unique(jobs[i].server, jobs[i].group, jobs[i].env, jobs[i].inh, jobs[i].ctx, out[i]);
    }
}

/// Multiplexing is off unless the defaults turn it on, and then its socket
/// path is the configured one, tilde-expanded.
pub proof fn lemma_control_path(
    s: Server,
    group: Seq<char>,
    env: Seq<char>,
    inh: Inherited,
    ctx: ResolveCtx,
    r: ResolvedView,
)
    requires
        resolved_ok(s, group, env, inh, ctx, r),
    ensures
        !r.control_master ==> r.control_path.len() == 0,
        r.control_master ==> tilde_expansion_of(ctx.control_path, r.control_path),
{
}

} // verus!
