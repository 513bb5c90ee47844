//! Configuration model: defaults → group → environment → server, with
//! included files as namespaces, and its resolution into flat servers.
use vstd::prelude::*;
use crate::text::views;

verus! {

// ─── Views of plain values ───────────────────────────────────────────────────

pub open spec fn opt_view(o: Option<String>) -> Option<Seq<char>> {
    match o {
        Some(s) => Some(s@),
        None => None,
    }
}

pub open spec fn opt_views(o: Option<Vec<String>>) -> Option<Seq<Seq<char>>> {
    match o {
        Some(v) => Some(views(v@)),
        None => None,
    }
}

pub fn clone_opt_string(o: &Option<String>) -> (r: Option<String>)
    ensures
        opt_view(r) == opt_view(*o),
{
    match o {
        Some(s) => Some(s.clone()),
        None => None,
    }
}

pub fn clone_strings(v: &Vec<String>) -> (r: Vec<String>)
    ensures
        views(r@) == views(v@),
{
    let r = v.clone();
    assert(views(r@) =~= views(v@));
    r
}

pub fn clone_opt_strings(o: &Option<Vec<String>>) -> (r: Option<Vec<String>>)
    ensures
        opt_views(r) == opt_views(*o),
{
    match o {
        Some(v) => Some(clone_strings(v)),
        None => None,
    }
}

// ─── Connection mode ─────────────────────────────────────────────────────────

/// SSH connection mode.
#[derive(Clone, Copy, Debug, Default, PartialEq, Eq, Structural)]
pub enum ConnectionMode {
    #[default]
    Direct,
    Jump,
    /// Formerly called `bastion`.
    Wallix,
}

pub open spec fn mode_index(m: ConnectionMode) -> nat {
    match m {
        ConnectionMode::Direct => 0,
        ConnectionMode::Jump => 1,
        ConnectionMode::Wallix => 2,
    }
}

pub open spec fn mode_from_index(i: nat) -> ConnectionMode {
    if i == 1 {
        ConnectionMode::Jump
    } else if i == 2 {
        ConnectionMode::Wallix
    } else {
        ConnectionMode::Direct
    }
}

impl ConnectionMode {
    /// Tab index: Direct = 0, Jump = 1, Wallix = 2.
    pub fn index(self) -> (r: usize)
        ensures
            r == mode_index(self),
    {
        match self {
            ConnectionMode::Direct => 0,
            ConnectionMode::Jump => 1,
            ConnectionMode::Wallix => 2,
        }
    }

    /// Mode of a tab index; Direct for any unknown index.
    pub fn from_index(i: usize) -> (r: Self)
        ensures
            r == mode_from_index(i as nat),
    {
        match i {
            1 => ConnectionMode::Jump,
            2 => ConnectionMode::Wallix,
            _ => ConnectionMode::Direct,
        }
    }

    /// Next mode, cycling Direct → Jump → Wallix → Direct.
    pub fn next(self) -> (r: Self)
        ensures
            r == mode_from_index((mode_index(self) + 1) % 3),
    {
        Self::from_index((self.index() + 1) % 3)
    }

    /// Lower-case name, as it is written in the YAML and shown.
    pub fn name(self) -> (r: &'static str)
        ensures
            self == ConnectionMode::Direct ==> r@ == "direct"@,
            self == ConnectionMode::Jump ==> r@ == "jump"@,
            self == ConnectionMode::Wallix ==> r@ == "wallix"@,
    {
        match self {
            ConnectionMode::Direct => "direct",
            ConnectionMode::Jump => "jump",
            ConnectionMode::Wallix => "wallix",
        }
    }
}

/// Catppuccin flavour of the interface.
#[derive(Clone, Copy, Debug, Default, PartialEq, Eq, Structural)]
pub enum ThemeVariant {
    Latte,
    Frappe,
    Macchiato,
    #[default]
    Mocha,
}

// ─── Leaf records ────────────────────────────────────────────────────────────

/// A local port forwarding: `ssh -L local_port:remote_host:remote_port -N`.
#[derive(Debug)]
pub struct TunnelConfig {
    pub local_port: u16,
    pub remote_host: String,
    pub remote_port: u16,
    /// Label shown in the interface (may be empty).
    pub label: String,
}

pub struct TunnelView {
    pub local_port: u16,
    pub remote_host: Seq<char>,
    pub remote_port: u16,
    pub label: Seq<char>,
}

impl View for TunnelConfig {
    type V = TunnelView;

    open spec fn view(&self) -> TunnelView {
        TunnelView {
            local_port: self.local_port,
            remote_host: self.remote_host@,
            remote_port: self.remote_port,
            label: self.label@,
        }
    }
}

impl Clone for TunnelConfig {
    fn clone(&self) -> (r: Self)
        ensures
            r@ == self@,
    {
        TunnelConfig {
            local_port: self.local_port,
            remote_host: self.remote_host.clone(),
            remote_port: self.remote_port,
            label: self.label.clone(),
        }
    }
}

pub open spec fn tunnels_view(v: Seq<TunnelConfig>) -> Seq<TunnelView> {
    v.map_values(|t: TunnelConfig| t@)
}

pub open spec fn opt_tunnels_view(o: Option<Vec<TunnelConfig>>) -> Option<Seq<TunnelView>> {
    match o {
        Some(v) => Some(tunnels_view(v@)),
        None => None,
    }
}

pub fn clone_tunnels(v: &Vec<TunnelConfig>) -> (r: Vec<TunnelConfig>)
    ensures
        tunnels_view(r@) == tunnels_view(v@),
{
    let r = v.clone();
    assert(tunnels_view(r@) =~= tunnels_view(v@));
    r
}

pub fn clone_opt_tunnels(o: &Option<Vec<TunnelConfig>>) -> (r: Option<Vec<TunnelConfig>>)
    ensures
        opt_tunnels_view(r) == opt_tunnels_view(*o),
{
    match o {
        Some(v) => Some(clone_tunnels(v)),
        None => None,
    }
}

/// Wallix bastion settings.
#[derive(Debug, Default)]
pub struct BastionConfig {
    pub host: Option<String>,
    pub user: Option<String>,
    pub template: Option<String>,
    /// Authorization group that selects the Wallix menu entry.
    pub group: Option<String>,
}

pub struct BastionView {
    pub host: Option<Seq<char>>,
    pub user: Option<Seq<char>>,
    pub template: Option<Seq<char>>,
    pub group: Option<Seq<char>>,
}

impl View for BastionConfig {
    type V = BastionView;

    open spec fn view(&self) -> BastionView {
        BastionView {
            host: opt_view(self.host),
            user: opt_view(self.user),
            template: opt_view(self.template),
            group: opt_view(self.group),
        }
    }
}

impl Clone for BastionConfig {
    fn clone(&self) -> (r: Self)
        ensures
            r@ == self@,
    {
        BastionConfig {
            host: clone_opt_string(&self.host),
            user: clone_opt_string(&self.user),
            template: clone_opt_string(&self.template),
            group: clone_opt_string(&self.group),
        }
    }
}

pub open spec fn opt_bastion_view(o: Option<BastionConfig>) -> Option<BastionView> {
    match o {
        Some(b) => Some(b@),
        None => None,
    }
}

pub fn clone_opt_bastion(o: &Option<BastionConfig>) -> (r: Option<BastionConfig>)
    ensures
        opt_bastion_view(r) == opt_bastion_view(*o),
{
    match o {
        Some(b) => Some(b.clone()),
        None => None,
    }
}

/// One hop of a jump chain.
#[derive(Debug, Default)]
pub struct JumpConfig {
    pub host: Option<String>,
    pub user: Option<String>,
}

pub struct JumpView {
    pub host: Option<Seq<char>>,
    pub user: Option<Seq<char>>,
}

impl View for JumpConfig {
    type V = JumpView;

    open spec fn view(&self) -> JumpView {
        JumpView { host: opt_view(self.host), user: opt_view(self.user) }
    }
}

impl Clone for JumpConfig {
    fn clone(&self) -> (r: Self)
        ensures
            r@ == self@,
    {
        JumpConfig { host: clone_opt_string(&self.host), user: clone_opt_string(&self.user) }
    }
}

pub open spec fn jumps_view(v: Seq<JumpConfig>) -> Seq<JumpView> {
    v.map_values(|j: JumpConfig| j@)
}

pub open spec fn opt_jumps_view(o: Option<Vec<JumpConfig>>) -> Option<Seq<JumpView>> {
    match o {
        Some(v) => Some(jumps_view(v@)),
        None => None,
    }
}

pub fn clone_opt_jumps(o: &Option<Vec<JumpConfig>>) -> (r: Option<Vec<JumpConfig>>)
    ensures
        opt_jumps_view(r) == opt_jumps_view(*o),
{
    match o {
        Some(v) => {
            let c = v.clone();
            assert(jumps_view(c@) =~= jumps_view(v@));
            Some(c)
        },
        None => None,
    }
}


// ─── Hierarchy ───────────────────────────────────────────────────────────────

/// Values that every server of the file inherits unless a level below sets them.
#[derive(Debug, Default)]
pub struct Defaults {
    pub user: Option<String>,
    pub ssh_key: Option<String>,
    pub mode: Option<ConnectionMode>,
    pub ssh_port: Option<u16>,
    pub ssh_options: Option<Vec<String>>,
    pub wallix: Option<BastionConfig>,
    pub jump: Option<Vec<JumpConfig>>,
    /// When true, `-F /dev/null` is not passed, so `~/.ssh/config` applies.
    pub use_system_ssh_config: Option<bool>,
    pub theme: Option<ThemeVariant>,
    /// Extra mount points that a probe reports on.
    pub probe_filesystems: Option<Vec<String>>,
    /// When true, the interface opens again after an SSH session ends.
    pub keep_open: Option<bool>,
    /// Preconfigured tunnels; a lower level replaces the whole list.
    pub tunnels: Option<Vec<TunnelConfig>>,
    /// Search filter active at start (for instance `"#prod"`).
    pub default_filter: Option<String>,
    /// Tags that every server of the scope inherits.
    pub tags: Option<Vec<String>>,
    pub control_master: Option<bool>,
    pub control_path: Option<String>,
    pub control_persist: Option<String>,
    pub pre_connect_hook: Option<String>,
    pub post_disconnect_hook: Option<String>,
    pub hook_timeout_secs: Option<u64>,
}

pub struct DefaultsView {
    pub user: Option<Seq<char>>,
    pub ssh_key: Option<Seq<char>>,
    pub mode: Option<ConnectionMode>,
    pub ssh_port: Option<u16>,
    pub ssh_options: Option<Seq<Seq<char>>>,
    pub wallix: Option<BastionView>,
    pub jump: Option<Seq<JumpView>>,
    pub use_system_ssh_config: Option<bool>,
    pub theme: Option<ThemeVariant>,
    pub probe_filesystems: Option<Seq<Seq<char>>>,
    pub keep_open: Option<bool>,
    pub tunnels: Option<Seq<TunnelView>>,
    pub default_filter: Option<Seq<char>>,
    pub tags: Option<Seq<Seq<char>>>,
    pub control_master: Option<bool>,
    pub control_path: Option<Seq<char>>,
    pub control_persist: Option<Seq<char>>,
    pub pre_connect_hook: Option<Seq<char>>,
    pub post_disconnect_hook: Option<Seq<char>>,
    pub hook_timeout_secs: Option<u64>,
}

impl View for Defaults {
    type V = DefaultsView;

    open spec fn view(&self) -> DefaultsView {
        DefaultsView {
            user: opt_view(self.user),
            ssh_key: opt_view(self.ssh_key),
            mode: self.mode,
            ssh_port: self.ssh_port,
            ssh_options: opt_views(self.ssh_options),
            wallix: opt_bastion_view(self.wallix),
            jump: opt_jumps_view(self.jump),
            use_system_ssh_config: self.use_system_ssh_config,
            theme: self.theme,
            probe_filesystems: opt_views(self.probe_filesystems),
            keep_open: self.keep_open,
            tunnels: opt_tunnels_view(self.tunnels),
            default_filter: opt_view(self.default_filter),
            tags: opt_views(self.tags),
            control_master: self.control_master,
            control_path: opt_view(self.control_path),
            control_persist: opt_view(self.control_persist),
            pre_connect_hook: opt_view(self.pre_connect_hook),
            post_disconnect_hook: opt_view(self.post_disconnect_hook),
            hook_timeout_secs: self.hook_timeout_secs,
        }
    }
}

pub open spec fn empty_defaults_view() -> DefaultsView {
    DefaultsView {
        user: None,
        ssh_key: None,
        mode: None,
        ssh_port: None,
        ssh_options: None,
        wallix: None,
        jump: None,
        use_system_ssh_config: None,
        theme: None,
        probe_filesystems: None,
        keep_open: None,
        tunnels: None,
        default_filter: None,
        tags: None,
        control_master: None,
        control_path: None,
        control_persist: None,
        pre_connect_hook: None,
        post_disconnect_hook: None,
        hook_timeout_secs: None,
    }
}

impl Defaults {
    /// Defaults that set nothing.
    pub fn empty() -> (r: Defaults)
        ensures
            r@ == empty_defaults_view(),
    {
        Defaults {
            user: None,
            ssh_key: None,
            mode: None,
            ssh_port: None,
            ssh_options: None,
            wallix: None,
            jump: None,
            use_system_ssh_config: None,
            theme: None,
            probe_filesystems: None,
            keep_open: None,
            tunnels: None,
            default_filter: None,
            tags: None,
            control_master: None,
            control_path: None,
            control_persist: None,
            pre_connect_hook: None,
            post_disconnect_hook: None,
            hook_timeout_secs: None,
        }
    }
}

impl Clone for Defaults {
    fn clone(&self) -> (r: Self)
        ensures
            r@ == self@,
    {
        Defaults {
            user: clone_opt_string(&self.user),
            ssh_key: clone_opt_string(&self.ssh_key),
            mode: self.mode,
            ssh_port: self.ssh_port,
            ssh_options: clone_opt_strings(&self.ssh_options),
            wallix: clone_opt_bastion(&self.wallix),
            jump: clone_opt_jumps(&self.jump),
            use_system_ssh_config: self.use_system_ssh_config,
            theme: self.theme,
            probe_filesystems: clone_opt_strings(&self.probe_filesystems),
            keep_open: self.keep_open,
            tunnels: clone_opt_tunnels(&self.tunnels),
            default_filter: clone_opt_string(&self.default_filter),
            tags: clone_opt_strings(&self.tags),
            control_master: self.control_master,
            control_path: clone_opt_string(&self.control_path),
            control_persist: clone_opt_string(&self.control_persist),
            pre_connect_hook: clone_opt_string(&self.pre_connect_hook),
            post_disconnect_hook: clone_opt_string(&self.post_disconnect_hook),
            hook_timeout_secs: self.hook_timeout_secs,
        }
    }
}

/// A server: the leaf of the hierarchy.
#[derive(Debug, Default)]
pub struct Server {
    pub name: String,
    pub host: String,
    pub user: Option<String>,
    pub ssh_key: Option<String>,
    pub ssh_port: Option<u16>,
    pub ssh_options: Option<Vec<String>>,
    pub mode: Option<ConnectionMode>,
    pub wallix: Option<BastionConfig>,
    pub jump: Option<Vec<JumpConfig>>,
    pub probe_filesystems: Option<Vec<String>>,
    pub tunnels: Option<Vec<TunnelConfig>>,
    pub tags: Option<Vec<String>>,
    /// Script run before connecting to this server (overrides the default).
    pub pre_connect_hook: Option<String>,
    /// Script run after disconnecting from this server (overrides the default).
    pub post_disconnect_hook: Option<String>,
}

/// An environment of a group (for instance "Production").
#[derive(Debug)]
pub struct Environment {
    pub name: String,
    pub user: Option<String>,
    pub ssh_key: Option<String>,
    pub mode: Option<ConnectionMode>,
    pub ssh_port: Option<u16>,
    pub ssh_options: Option<Vec<String>>,
    pub wallix: Option<BastionConfig>,
    /// Wallix authorization group, older spelling of `wallix.group`.
    pub wallix_group: Option<String>,
    pub jump: Option<Vec<JumpConfig>>,
    pub servers: Vec<Server>,
    pub probe_filesystems: Option<Vec<String>>,
    pub tunnels: Option<Vec<TunnelConfig>>,
    pub tags: Option<Vec<String>>,
}

/// A group of environments and servers.
#[derive(Debug)]
pub struct Group {
    pub name: String,
    pub user: Option<String>,
    pub ssh_key: Option<String>,
    pub mode: Option<ConnectionMode>,
    pub ssh_port: Option<u16>,
    pub ssh_options: Option<Vec<String>>,
    pub wallix: Option<BastionConfig>,
    /// Wallix authorization group, older spelling of `wallix.group`.
    pub wallix_group: Option<String>,
    pub jump: Option<Vec<JumpConfig>>,
    pub environments: Option<Vec<Environment>>,
    pub servers: Option<Vec<Server>>,
    pub probe_filesystems: Option<Vec<String>>,
    pub tunnels: Option<Vec<TunnelConfig>>,
    pub tags: Option<Vec<String>>,
}

/// The entries of an included file, under the label given to it.
#[derive(Debug)]
pub struct NamespaceEntry {
    pub label: String,
    pub source_path: String,
    /// Defaults of the included file (they do not apply to the main file).
    pub defaults: Option<Defaults>,
    pub entries: Vec<ConfigEntry>,
    /// Variables of the included file.
    pub vars: Vec<(String, String)>,
}

/// A top-level entry of the configuration.
#[derive(Debug)]
pub enum ConfigEntry {
    Server(Server),
    Group(Group),
    /// Entries of an included file; never written in the YAML itself.
    Namespace(NamespaceEntry),
}

/// One entry of `includes`.
#[derive(Debug)]
pub struct IncludeEntry {
    pub label: String,
    pub path: String,
    /// When true, the main file's defaults are the base of the included file's.
    pub merge_defaults: bool,
}

/// A whole configuration file.
#[derive(Debug, Default)]
pub struct Config {
    pub defaults: Option<Defaults>,
    pub groups: Vec<ConfigEntry>,
    /// Further files to merge (ignored in included files).
    pub includes: Vec<IncludeEntry>,
    /// Template variables `{{ name }}` of this file.
    pub vars: Vec<(String, String)>,
}

/// The variables of a namespace entry hold each name once; other entries
/// hold none.
pub open spec fn entry_vars_unique(e: ConfigEntry) -> bool {
    match e {
        ConfigEntry::Namespace(n) => crate::state::pair_keys(crate::vars::vars_seq(n.vars@)).no_duplicates(),
        _ => true,
    }
}

impl Config {
    /// The variables of the file, and those of each included file, hold each
    /// name once, as the maps they stand for.
    pub open spec fn vars_unique(&self) -> bool {
        &&& crate::state::pair_keys(crate::vars::vars_seq(self.vars@)).no_duplicates()
        &&& forall|k: int| 0 <= k < self.groups@.len() ==> entry_vars_unique(#[trigger] self.groups@[k])
    }
}

/// Non-blocking problem met while loading included files.
#[derive(Debug)]
pub enum IncludeWarning {
    /// The included file could not be found or read.
    LoadError { label: String, path: String, error: String },
    /// The included file is already being loaded.
    Circular { label: String, path: String },
}

/// An unknown field found while checking a YAML file.
#[derive(Debug)]
pub struct ValidationWarning {
    pub file: String,
    /// Where in the YAML, such as `"defaults"` or `"groups[0].servers[2]"`.
    pub context: String,
    pub field: String,
}

/// Why a configuration could not be loaded.
#[derive(Debug)]
pub enum ConfigError {
    /// Reading the file failed; the message of the I/O error.
    Io(String),
    /// The YAML could not be parsed; the message of the parser.
    Yaml(String),
    /// A server lacks a required setting: the server, then the setting.
    MissingField(String, String),
}

/// The text of a `ConfigError`.
pub open spec fn config_error_message(e: ConfigError) -> Seq<char> {
    match e {
        ConfigError::Io(m) => "IO error: "@ + m@,
        ConfigError::Yaml(m) => "YAML parse error: "@ + m@,
        ConfigError::MissingField(server, field) => "Missing configuration for server '"@ + server@ + "': "@
            + field@,
    }
}

impl ConfigError {
    /// The text of the error, as shown to the user.
    pub fn message(&self) -> (r: String)
        ensures
            r@ == config_error_message(*self),
    {
        proof {
            reveal_strlit("IO error: ");
            reveal_strlit("YAML parse error: ");
            reveal_strlit("Missing configuration for server '");
            reveal_strlit("': ");
        }
        match self {
            ConfigError::Io(m) => {
                let mut r = String::from_str("IO error: ");
                r.append(m.as_str());
                r
            },
            ConfigError::Yaml(m) => {
                let mut r = String::from_str("YAML parse error: ");
                r.append(m.as_str());
                r
            },
            ConfigError::MissingField(server, field) => {
                let mut r = String::from_str("Missing configuration for server '");
                r.append(server.as_str());
                r.append("': ");
                r.append(field.as_str());
                r
            },
        }
    }
}

// ─── Merging rules ───────────────────────────────────────────────────────────

pub open spec fn or_else<T>(a: Option<T>, b: Option<T>) -> Option<T> {
    if a is Some {
        a
    } else {
        b
    }
}

pub open spec fn spec_merge_bastion(p: Option<BastionView>, c: Option<BastionView>) -> Option<
    BastionView,
> {
    match (p, c) {
        (None, None) => None,
        (Some(p), None) => Some(p),
        (None, Some(c)) => Some(c),
        (Some(p), Some(c)) => Some(
            BastionView {
                host: or_else(c.host, p.host),
                user: or_else(c.user, p.user),
                template: or_else(c.template, p.template),
                group: or_else(c.group, p.group),
            },
        ),
    }
}

/// Wallix settings of a level over those of its parent, field by field.
pub fn merge_bastion(parent: &Option<BastionConfig>, child: &Option<BastionConfig>) -> (r: Option<
    BastionConfig,
>)
    ensures
        opt_bastion_view(r) == spec_merge_bastion(opt_bastion_view(*parent), opt_bastion_view(*child)),
{
    match (parent, child) {
        (None, None) => None,
        (Some(p), None) => Some(p.clone()),
        (None, Some(c)) => Some(c.clone()),
        (Some(p), Some(c)) => Some(
            BastionConfig {
                host: if c.host.is_some() {
                    clone_opt_string(&c.host)
                } else {
                    clone_opt_string(&p.host)
                },
                user: if c.user.is_some() {
                    clone_opt_string(&c.user)
                } else {
                    clone_opt_string(&p.user)
                },
                template: if c.template.is_some() {
                    clone_opt_string(&c.template)
                } else {
                    clone_opt_string(&p.template)
                },
                group: if c.group.is_some() {
                    clone_opt_string(&c.group)
                } else {
                    clone_opt_string(&p.group)
                },
            },
        ),
    }
}

/// A jump chain of a level replaces that of its parent entirely.
pub fn merge_jump(parent: &Option<Vec<JumpConfig>>, child: &Option<Vec<JumpConfig>>) -> (r: Option<
    Vec<JumpConfig>,
>)
    ensures
        opt_jumps_view(r) == or_else(opt_jumps_view(*child), opt_jumps_view(*parent)),
{
    if child.is_some() {
        clone_opt_jumps(child)
    } else {
        clone_opt_jumps(parent)
    }
}

/// A tunnel list of a level replaces that of its parent entirely.
pub fn replace_tunnels(parent: &Option<Vec<TunnelConfig>>, child: &Option<Vec<TunnelConfig>>) -> (r:
    Option<Vec<TunnelConfig>>)
    ensures
        opt_tunnels_view(r) == or_else(opt_tunnels_view(*child), opt_tunnels_view(*parent)),
{
    if child.is_some() {
        clone_opt_tunnels(child)
    } else {
        clone_opt_tunnels(parent)
    }
}

/// `base` followed by the items of `extra` that are not yet present, in order.
pub open spec fn append_missing(base: Seq<Seq<char>>, extra: Seq<Seq<char>>) -> Seq<Seq<char>>
    decreases extra.len(),
{
    if extra.len() == 0 {
        base
    } else {
        let m = append_missing(base, extra.drop_last());
        if m.contains(extra.last()) {
            m
        } else {
            m.push(extra.last())
        }
    }
}

pub fn contains_string(v: &Vec<String>, x: &String) -> (b: bool)
    ensures
        b == views(v@).contains(x@),
{
    let mut i: usize = 0;
    while i < v.len()
        invariant
            i <= v@.len(),
            forall|j: int| 0 <= j < i ==> v@[j]@ != x@,
        decreases v@.len() - i,
    {
        if v[i] == *x {
            assert(views(v@)[i as int] == x@);
            return true;
        }
        i += 1;
    }
    proof {
        if views(v@).contains(x@) {
            let k = choose|k: int| 0 <= k < views(v@).len() && views(v@)[k] == x@;
            assert(v@[k]@ == x@);
        }
    }
    false
}

/// Appends to `merged` each item of `extra` that it does not hold yet.
pub fn append_missing_vec(merged: &mut Vec<String>, extra: &Vec<String>)
    ensures
        views(final(merged)@) == append_missing(views(old(merged)@), views(extra@)),
{
    let ghost base = views(merged@);
    let mut i: usize = 0;
    while i < extra.len()
        invariant
            i <= extra@.len(),
            views(merged@) == append_missing(base, views(extra@).take(i as int)),
        decreases extra@.len() - i,
    {
        assert(views(extra@).take(i + 1).drop_last() =~= views(extra@).take(i as int));
        if !contains_string(merged, &extra[i]) {
            merged.push(extra[i].clone());
            assert(views(merged@) =~= append_missing(base, views(extra@).take(i + 1)));
        }
        i += 1;
    }
    assert(views(extra@).take(extra@.len() as int) =~= views(extra@));
}

/// Tags accumulate: each level adds its own to those of its parent.
pub fn extend_tags(parent: Option<&Vec<String>>, child: Option<&Vec<String>>) -> (r: Vec<String>)
    ensures
        views(r@) == append_missing(
            match parent {
                Some(p) => views(p@),
                None => seq![],
            },
            match child {
                Some(c) => views(c@),
                None => seq![],
            },
        ),
{
    let mut merged: Vec<String> = match parent {
        Some(p) => clone_strings(p),
        None => Vec::new(),
    };
    assert(views(merged@) == match parent {
        Some(p) => views(p@),
        None => seq![],
    }) by {
        if parent is None {
            assert(views(merged@) =~= Seq::<Seq<char>>::empty());
        }
    }
    match child {
        Some(c) => append_missing_vec(&mut merged, c),
        None => {},
    }
    merged
}

pub open spec fn spec_extend_filesystems(p: Option<Seq<Seq<char>>>, c: Option<Seq<Seq<char>>>) -> Option<
    Seq<Seq<char>>,
> {
    match (p, c) {
        (None, None) => None,
        (Some(p), None) => Some(p),
        (None, Some(c)) => Some(c),
        (Some(p), Some(c)) => Some(append_missing(p, c)),
    }
}

/// Probe filesystems accumulate: each level adds its own to those of its
/// parent, without duplicates.
pub fn extend_filesystems(parent: Option<&Vec<String>>, child: Option<&Vec<String>>) -> (r: Option<
    Vec<String>,
>)
    ensures
        opt_views(r) == spec_extend_filesystems(
            match parent {
                Some(p) => Some(views(p@)),
                None => None,
            },
            match child {
                Some(c) => Some(views(c@)),
                None => None,
            },
        ),
{
    match (parent, child) {
        (None, None) => None,
        (Some(p), None) => Some(clone_strings(p)),
        (None, Some(c)) => Some(clone_strings(c)),
        (Some(p), Some(c)) => {
            let mut merged = clone_strings(p);
            append_missing_vec(&mut merged, c);
            Some(merged)
        },
    }
}

pub open spec fn spec_merge_tags(b: Option<Seq<Seq<char>>>, o: Option<Seq<Seq<char>>>) -> Option<
    Seq<Seq<char>>,
> {
    match (b, o) {
        (None, r) => r,
        (l, None) => l,
        (Some(b), Some(o)) => Some(append_missing(b, o)),
    }
}

/// `overrides` over `base`, field by field; tags are the union.
pub open spec fn spec_merge_defaults(base: DefaultsView, o: DefaultsView) -> DefaultsView {
    DefaultsView {
        user: or_else(o.user, base.user),
        ssh_key: or_else(o.ssh_key, base.ssh_key),
        mode: or_else(o.mode, base.mode),
        ssh_port: or_else(o.ssh_port, base.ssh_port),
        ssh_options: or_else(o.ssh_options, base.ssh_options),
        wallix: or_else(o.wallix, base.wallix),
        jump: or_else(o.jump, base.jump),
        use_system_ssh_config: or_else(o.use_system_ssh_config, base.use_system_ssh_config),
        theme: or_else(o.theme, base.theme),
        probe_filesystems: or_else(o.probe_filesystems, base.probe_filesystems),
        keep_open: or_else(o.keep_open, base.keep_open),
        tunnels: or_else(o.tunnels, base.tunnels),
        default_filter: or_else(o.default_filter, base.default_filter),
        tags: spec_merge_tags(base.tags, o.tags),
        control_master: or_else(o.control_master, base.control_master),
        control_path: or_else(o.control_path, base.control_path),
        control_persist: or_else(o.control_persist, base.control_persist),
        pre_connect_hook: or_else(o.pre_connect_hook, base.pre_connect_hook),
        post_disconnect_hook: or_else(o.post_disconnect_hook, base.post_disconnect_hook),
        hook_timeout_secs: or_else(o.hook_timeout_secs, base.hook_timeout_secs),
    }
}

fn pick_string(o: &Option<String>, b: &Option<String>) -> (r: Option<String>)
    ensures
        opt_view(r) == or_else(opt_view(*o), opt_view(*b)),
{
    if o.is_some() {
        clone_opt_string(o)
    } else {
        clone_opt_string(b)
    }
}

fn pick_strings(o: &Option<Vec<String>>, b: &Option<Vec<String>>) -> (r: Option<Vec<String>>)
    ensures
        opt_views(r) == or_else(opt_views(*o), opt_views(*b)),
{
    if o.is_some() {
        clone_opt_strings(o)
    } else {
        clone_opt_strings(b)
    }
}

/// Merges two `Defaults`: `overrides` wins over `base` for each field that
/// it sets; tags of both are kept.
pub fn merge_default_structs(base: &Defaults, overrides: &Defaults) -> (r: Defaults)
    ensures
        r@ == spec_merge_defaults(base@, overrides@),
{
    let tags = match (&base.tags, &overrides.tags) {
        (None, _) => clone_opt_strings(&overrides.tags),
        (_, None) => clone_opt_strings(&base.tags),
        (Some(b), Some(o)) => {
            let mut merged = clone_strings(b);
            append_missing_vec(&mut merged, o);
            Some(merged)
        },
    };
    Defaults {
        user: pick_string(&overrides.user, &base.user),
        ssh_key: pick_string(&overrides.ssh_key, &base.ssh_key),
        mode: if overrides.mode.is_some() {
            overrides.mode
        } else {
            base.mode
        },
        ssh_port: if overrides.ssh_port.is_some() {
            overrides.ssh_port
        } else {
            base.ssh_port
        },
        ssh_options: pick_strings(&overrides.ssh_options, &base.ssh_options),
        wallix: if overrides.wallix.is_some() {
            clone_opt_bastion(&overrides.wallix)
        } else {
            clone_opt_bastion(&base.wallix)
        },
        jump: if overrides.jump.is_some() {
            clone_opt_jumps(&overrides.jump)
        } else {
            clone_opt_jumps(&base.jump)
        },
        use_system_ssh_config: if overrides.use_system_ssh_config.is_some() {
            overrides.use_system_ssh_config
        } else {
            base.use_system_ssh_config
        },
        theme: if overrides.theme.is_some() {
            overrides.theme
        } else {
            base.theme
        },
        probe_filesystems: pick_strings(&overrides.probe_filesystems, &base.probe_filesystems),
        keep_open: if overrides.keep_open.is_some() {
            overrides.keep_open
        } else {
            base.keep_open
        },
        tunnels: if overrides.tunnels.is_some() {
            clone_opt_tunnels(&overrides.tunnels)
        } else {
            clone_opt_tunnels(&base.tunnels)
        },
        default_filter: pick_string(&overrides.default_filter, &base.default_filter),
        tags,
        control_master: if overrides.control_master.is_some() {
            overrides.control_master
        } else {
            base.control_master
        },
        control_path: pick_string(&overrides.control_path, &base.control_path),
        control_persist: pick_string(&overrides.control_persist, &base.control_persist),
        pre_connect_hook: pick_string(&overrides.pre_connect_hook, &base.pre_connect_hook),
        post_disconnect_hook: pick_string(&overrides.post_disconnect_hook, &base.post_disconnect_hook),
        hook_timeout_secs: if overrides.hook_timeout_secs.is_some() {
            overrides.hook_timeout_secs
        } else {
            base.hook_timeout_secs
        },
    }
}

// ─── Laws ────────────────────────────────────────────────────────────────────

/// Cycling through the modes returns to the start after three steps, and
/// the tab index of a mode gives back that mode.
pub proof fn lemma_mode_cycle(m: ConnectionMode)
    ensures
        mode_from_index(mode_index(m)) == m,
        mode_from_index(
            (mode_index(
                mode_from_index((mode_index(mode_from_index((mode_index(m) + 1) % 3)) + 1) % 3),
            ) + 1) % 3,
        ) == m,
        mode_from_index((mode_index(m) + 1) % 3) != m,
{
}

/// `append_missing` keeps `base` as it is, in front.
pub proof fn lemma_append_missing_prefix(base: Seq<Seq<char>>, extra: Seq<Seq<char>>)
    ensures
        append_missing(base, extra).len() >= base.len(),
        append_missing(base, extra).take(base.len() as int) == base,
    decreases extra.len(),
{
    if extra.len() > 0 {
        lemma_append_missing_prefix(base, extra.drop_last());
        let m = append_missing(base, extra.drop_last());
        if !m.contains(extra.last()) {
            assert(m.push(extra.last()).take(base.len() as int) =~= m.take(base.len() as int));
        }
    } else {
        assert(base.take(base.len() as int) =~= base);
    }
}

/// `append_missing` holds exactly the items of `base` and of `extra`.
pub proof fn lemma_append_missing_contents(base: Seq<Seq<char>>, extra: Seq<Seq<char>>, x: Seq<char>)
    ensures
        append_missing(base, extra).contains(x) <==> (base.contains(x) || extra.contains(x)),
    decreases extra.len(),
{
    if extra.len() > 0 {
        lemma_append_missing_contents(base, extra.drop_last(), x);
        let m = append_missing(base, extra.drop_last());
        if extra.contains(x) && !extra.drop_last().contains(x) {
            let k = choose|k: int| 0 <= k < extra.len() && extra[k] == x;
            if k < extra.len() - 1 {
                assert(extra.drop_last()[k] == x);
            }
        }
        if extra.drop_last().contains(x) {
            let k = choose|k: int| 0 <= k < extra.drop_last().len() && extra.drop_last()[k] == x;
            assert(extra[k] == x);
        }
        if !m.contains(extra.last()) {
            if m.push(extra.last()).contains(x) && x != extra.last() {
                let k = choose|k: int| 0 <= k < m.push(extra.last()).len() && m.push(extra.last())[k] == x;
                assert(m[k] == x);
            }
            if m.contains(x) {
                let k = choose|k: int| 0 <= k < m.len() && m[k] == x;
                assert(m.push(extra.last())[k] == x);
            }
            assert(m.push(extra.last())[m.len() as int] == extra.last());
        }
        assert(extra[extra.len() - 1] == extra.last());
    }
}

/// Lists that accumulate over the levels (tags, probe filesystems) keep the
/// parent's items first and in order, add the child's, and never repeat an
/// item when neither list did.
pub proof fn lemma_append_missing_no_repeat(base: Seq<Seq<char>>, extra: Seq<Seq<char>>)
    requires
        base.no_duplicates(),
    ensures
        append_missing(base, extra).no_duplicates(),
    decreases extra.len(),
{
    if extra.len() > 0 {
        lemma_append_missing_no_repeat(base, extra.drop_last());
        let m = append_missing(base, extra.drop_last());
        if !m.contains(extra.last()) {
            let n = m.push(extra.last());
            assert forall|i: int, j: int| 0 <= i < n.len() && 0 <= j < n.len() && i != j implies n[i]
                != n[j] by {
                if i < m.len() && j < m.len() {
                } else if i == m.len() {
                    assert(m[j] == n[j]);
                } else {
                    assert(m[i] == n[i]);
                }
            }
        }
    }
}

} // verus!
