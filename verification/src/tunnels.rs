//! Tunnels in the interface: the user's overrides of a server's tunnels, the
//! tunnels overlay (list and form) and what starting a tunnel checks first.
use vstd::prelude::*;
use crate::config::{tunnels_view, ConnectionMode, TunnelConfig, TunnelView};
use crate::forms::{
    backspaced, field_at, field_index, spec_validate, typed, TunnelForm, TunnelFormField,
    TunnelFormView, TunnelOverlayState,
};
use crate::i18n::{fmt, fmt_seq};
use crate::resolve::{ResolvedServer, ResolvedView};
use crate::state::{
    effective_tunnels_for, effective_view, overrides_view, spec_effective_tunnels, EffectiveTunnel,
    EffectiveTunnelView, TunnelOverride, TunnelOverrideView,
};
use crate::text::{decimal_seq, str_eq, u64_to_string};
use crate::tree::{server_key_of, spec_server_key};
use crate::tui::{same_cache, same_data, same_overlays, same_screen, same_selection, same_tree, App};

verus! {

// ─── Finding overrides ───────────────────────────────────────────────────────

pub open spec fn is_yaml_override(o: TunnelOverrideView, key: Seq<char>, i: usize) -> bool {
    o.server_key == key && o.yaml_index == Some(i)
}

pub open spec fn is_user_override(o: TunnelOverrideView, key: Seq<char>) -> bool {
    o.server_key == key && o.yaml_index is None && !o.hidden
}

/// Index of the first override of configured tunnel `i` of server `key`
/// from `from` on, or -1.
pub open spec fn yaml_override_index(ovs: Seq<TunnelOverrideView>, key: Seq<char>, i: usize, from: nat) -> int
    decreases ovs.len() - from,
{
    if from >= ovs.len() {
        -1
    } else if is_yaml_override(ovs[from as int], key, i) {
        from as int
    } else {
        yaml_override_index(ovs, key, i, from + 1)
    }
}

/// Index of the `n`-th (from 0) visible tunnel added by the user to server
/// `key`, from `from` on, or -1.
pub open spec fn user_override_index(ovs: Seq<TunnelOverrideView>, key: Seq<char>, n: nat, from: nat) -> int
    decreases ovs.len() - from,
{
    if from >= ovs.len() {
        -1
    } else if is_user_override(ovs[from as int], key) {
        if n == 0 {
            from as int
        } else {
            user_override_index(ovs, key, (n - 1) as nat, from + 1)
        }
    } else {
        user_override_index(ovs, key, n, from + 1)
    }
}

pub proof fn lemma_yaml_index_range(ovs: Seq<TunnelOverrideView>, key: Seq<char>, i: usize, from: nat)
    ensures
        -1 <= yaml_override_index(ovs, key, i, from) < ovs.len(),
        yaml_override_index(ovs, key, i, from) >= 0 ==> is_yaml_override(
            ovs[yaml_override_index(ovs, key, i, from)],
            key,
            i,
        ),
    decreases ovs.len() - from,
{
    if from < ovs.len() && !is_yaml_override(ovs[from as int], key, i) {
        lemma_yaml_index_range(ovs, key, i, from + 1);
    }
}

pub proof fn lemma_user_index_range(ovs: Seq<TunnelOverrideView>, key: Seq<char>, n: nat, from: nat)
    ensures
        -1 <= user_override_index(ovs, key, n, from) < ovs.len(),
    decreases ovs.len() - from,
{
    if from < ovs.len() {
        if is_user_override(ovs[from as int], key) {
            if n > 0 {
                lemma_user_index_range(ovs, key, (n - 1) as nat, from + 1);
            }
        } else {
            lemma_user_index_range(ovs, key, n, from + 1);
        }
    }
}

fn find_yaml_override(ovs: &Vec<TunnelOverride>, key: &str, i: usize) -> (r: Option<usize>)
    ensures
        match r {
            Some(j) => j < ovs@.len() && yaml_override_index(overrides_view(ovs@), key@, i, 0) == j,
            None => yaml_override_index(overrides_view(ovs@), key@, i, 0) == -1,
        },
{
    let ghost ov = overrides_view(ovs@);
    let mut j: usize = 0;
    while j < ovs.len()
        invariant
            j <= ovs@.len(),
            ov == overrides_view(ovs@),
            yaml_override_index(ov, key@, i, 0) == yaml_override_index(ov, key@, i, j as nat),
        decreases ovs@.len() - j,
    {
        assert(ov[j as int] == ovs@[j as int]@);
        let hit = match ovs[j].yaml_index {
            Some(y) => y == i && str_eq(ovs[j].server_key.as_str(), key),
            None => false,
        };
        if hit {
            return Some(j);
        }
        j += 1;
    }
    None
}

fn find_user_override(ovs: &Vec<TunnelOverride>, key: &str, n: usize) -> (r: Option<usize>)
    ensures
        match r {
            Some(j) => j < ovs@.len() && user_override_index(overrides_view(ovs@), key@, n as nat, 0)
                == j,
            None => user_override_index(overrides_view(ovs@), key@, n as nat, 0) == -1,
        },
{
    let ghost ov = overrides_view(ovs@);
    let mut j: usize = 0;
    let mut count: usize = 0;
    while j < ovs.len()
        invariant
            j <= ovs@.len(),
            count <= n,
            ov == overrides_view(ovs@),
            user_override_index(ov, key@, n as nat, 0) == user_override_index(
                ov,
                key@,
                (n - count) as nat,
                j as nat,
            ),
        decreases ovs@.len() - j,
    {
        assert(ov[j as int] == ovs@[j as int]@);
        if ovs[j].yaml_index.is_none() && !ovs[j].hidden && str_eq(ovs[j].server_key.as_str(), key) {
            if count == n {
                return Some(j);
            }
            count += 1;
        }
        j += 1;
    }
    None
}

pub open spec fn new_override(key: Seq<char>, yaml_index: Option<usize>, config: TunnelView, hidden: bool) -> TunnelOverrideView {
    TunnelOverrideView { server_key: key, yaml_index, config, hidden }
}

/// How `update_tunnel_override` changes the overrides.
pub open spec fn spec_update_override(
    ovs: Seq<TunnelOverrideView>,
    key: Seq<char>,
    yaml_index: Option<usize>,
    user_idx: nat,
    config: TunnelView,
) -> Seq<TunnelOverrideView> {
    match yaml_index {
        Some(i) => {
            let j = yaml_override_index(ovs, key, i, 0);
            if j >= 0 {
                ovs.update(j, TunnelOverrideView { config, hidden: false, ..ovs[j] })
            } else {
                ovs.push(new_override(key, Some(i), config, false))
            }
        },
        None => {
            let j = user_override_index(ovs, key, user_idx, 0);
            if j >= 0 {
                ovs.update(j, TunnelOverrideView { config, ..ovs[j] })
            } else {
                ovs
            }
        },
    }
}

/// How `remove_tunnel_override` changes the overrides; `yaml` holds the
/// server's configured tunnels.
pub open spec fn spec_remove_override(
    ovs: Seq<TunnelOverrideView>,
    key: Seq<char>,
    yaml_index: Option<usize>,
    user_idx: nat,
    yaml: Seq<TunnelView>,
) -> Seq<TunnelOverrideView> {
    match yaml_index {
        Some(i) => {
            let j = yaml_override_index(ovs, key, i, 0);
            if j >= 0 {
                ovs.update(j, TunnelOverrideView { hidden: true, ..ovs[j] })
            } else {
                ovs.push(new_override(key, Some(i), yaml[i as int], true))
            }
        },
        None => {
            let j = user_override_index(ovs, key, user_idx, 0);
            if j >= 0 {
                ovs.remove(j)
            } else {
                ovs
            }
        },
    }
}

/// Only the overrides have changed.
pub open spec fn only_overrides_changed(a: App, b: App) -> bool {
    &&& same_tree(a, b)
    &&& same_cache(a, b)
    &&& same_screen(a, b)
    &&& same_data(a, b)
    &&& same_selection(a, b)
    &&& a.tunnel_overlay == b.tunnel_overlay
    &&& a.scp_state == b.scp_state
    &&& a.cmd_state == b.cmd_state
}

impl App {
    /// The tunnels of `server` as the interface shows them (see
    /// `spec_effective_tunnels`).
    pub fn effective_tunnels(&self, server: &ResolvedServer) -> (r: Vec<EffectiveTunnel>)
        ensures
            effective_view(r@) == spec_effective_tunnels(
                server@.tunnels,
                spec_server_key(server@),
                overrides_view(self.tunnel_overrides@),
            ),
    {
        let key = server_key_of(server);
        proof {
            assert(server@.tunnels == tunnels_view(server.tunnels@));
        }
        effective_tunnels_for(&server.tunnels, key.as_str(), &self.tunnel_overrides)
    }

    /// Adds a tunnel made in the interface to `server`.
    pub fn add_tunnel_override(&mut self, server: &ResolvedServer, config: TunnelConfig)
        ensures
            overrides_view(final(self).tunnel_overrides@) == overrides_view(
                old(self).tunnel_overrides@,
            ).push(new_override(spec_server_key(server@), None, config@, false)),
            only_overrides_changed(*final(self), *old(self)),
    {
        let ghost before = overrides_view(self.tunnel_overrides@);
        let o = TunnelOverride {
            server_key: server_key_of(server),
            yaml_index: None,
            config,
            hidden: false,
        };
        self.tunnel_overrides.push(o);
        assert(overrides_view(self.tunnel_overrides@) =~= before.push(o@));
    }

    /// Changes a tunnel of `server`: configured tunnel `yaml_index` (its
    /// override is made or replaced and shown again), or else the
    /// `user_idx`-th tunnel the user added.
    pub fn update_tunnel_override(
        &mut self,
        server: &ResolvedServer,
        yaml_index: Option<usize>,
        user_idx: usize,
        new_config: TunnelConfig,
    )
        ensures
            overrides_view(final(self).tunnel_overrides@) == spec_update_override(
                overrides_view(old(self).tunnel_overrides@),
                spec_server_key(server@),
                yaml_index,
                user_idx as nat,
                new_config@,
            ),
            only_overrides_changed(*final(self), *old(self)),
    {
        let key = server_key_of(server);
        let ghost ov = overrides_view(self.tunnel_overrides@);
        match yaml_index {
            Some(i) => {
                proof {
                    lemma_yaml_index_range(ov, key@, i, 0);
                }
                match find_yaml_override(&self.tunnel_overrides, key.as_str(), i) {
                    Some(j) => {
                        let old_o = &self.tunnel_overrides[j];
                        let o = TunnelOverride {
                            server_key: old_o.server_key.clone(),
                            yaml_index: old_o.yaml_index,
                            config: new_config,
                            hidden: false,
                        };
                        self.tunnel_overrides.set(j, o);
                        assert(overrides_view(self.tunnel_overrides@) =~= spec_update_override(
                            ov,
                            key@,
                            yaml_index,
                            user_idx as nat,
                            new_config@,
                        ));
                    },
                    None => {
                        let o = TunnelOverride {
                            server_key: key,
                            yaml_index: Some(i),
                            config: new_config,
                            hidden: false,
                        };
                        self.tunnel_overrides.push(o);
                        assert(overrides_view(self.tunnel_overrides@) =~= ov.push(o@));
                    },
                }
            },
            None => {
                proof {
                    lemma_user_index_range(ov, key@, user_idx as nat, 0);
                }
                match find_user_override(&self.tunnel_overrides, key.as_str(), user_idx) {
                    Some(j) => {
                        let old_o = &self.tunnel_overrides[j];
                        let o = TunnelOverride {
                            server_key: old_o.server_key.clone(),
                            yaml_index: old_o.yaml_index,
                            config: new_config,
                            hidden: old_o.hidden,
                        };
                        self.tunnel_overrides.set(j, o);
                        assert(overrides_view(self.tunnel_overrides@) =~= spec_update_override(
                            ov,
                            key@,
                            yaml_index,
                            user_idx as nat,
                            new_config@,
                        ));
                    },
                    None => {},
                }
            },
        }
    }

    /// Deletes a tunnel of `server`: configured tunnel `yaml_index` is hidden
    /// (through its override), a tunnel added by the user (the
    /// `user_idx`-th) is removed.
    pub fn remove_tunnel_override(&mut self, server: &ResolvedServer, yaml_index: Option<usize>, user_idx: usize)
        requires
            yaml_index matches Some(i) ==> (yaml_override_index(
                overrides_view(old(self).tunnel_overrides@),
                spec_server_key(server@),
                i,
                0,
            ) >= 0 || i < server.tunnels@.len()),
        ensures
            overrides_view(final(self).tunnel_overrides@) == spec_remove_override(
                overrides_view(old(self).tunnel_overrides@),
                spec_server_key(server@),
                yaml_index,
                user_idx as nat,
                server@.tunnels,
            ),
            only_overrides_changed(*final(self), *old(self)),
    {
        let key = server_key_of(server);
        let ghost ov = overrides_view(self.tunnel_overrides@);
        match yaml_index {
            Some(i) => {
                proof {
                    lemma_yaml_index_range(ov, key@, i, 0);
                }
                match find_yaml_override(&self.tunnel_overrides, key.as_str(), i) {
                    Some(j) => {
                        let old_o = &self.tunnel_overrides[j];
                        let o = TunnelOverride {
                            server_key: old_o.server_key.clone(),
                            yaml_index: old_o.yaml_index,
                            config: old_o.config.clone(),
                            hidden: true,
                        };
                        self.tunnel_overrides.set(j, o);
                        assert(overrides_view(self.tunnel_overrides@) =~= spec_remove_override(
                            ov,
                            key@,
                            yaml_index,
                            user_idx as nat,
                            server@.tunnels,
                        ));
                    },
                    None => {
                        let o = TunnelOverride {
                            server_key: key,
                            yaml_index: Some(i),
                            config: server.tunnels[i].clone(),
                            hidden: true,
                        };
                        assert(server@.tunnels[i as int] == server.tunnels@[i as int]@);
                        self.tunnel_overrides.push(o);
                        assert(overrides_view(self.tunnel_overrides@) =~= ov.push(o@));
                    },
                }
            },
            None => {
                proof {
                    lemma_user_index_range(ov, key@, user_idx as nat, 0);
                }
                match find_user_override(&self.tunnel_overrides, key.as_str(), user_idx) {
                    Some(j) => {
                        self.tunnel_overrides.remove(j);
                        assert(overrides_view(self.tunnel_overrides@) =~= ov.remove(j as int));
                    },
                    None => {},
                }
            },
        }
    }
}

// ─── The tunnels overlay ─────────────────────────────────────────────────────

/// The tunnels of server `s` with the overrides of `app`.
pub open spec fn tunnels_of(app: App, s: ResolvedView) -> Seq<EffectiveTunnelView> {
    spec_effective_tunnels(s.tunnels, spec_server_key(s), overrides_view(app.tunnel_overrides@))
}

/// `a` is `b` after a read of the list, with the same tree and selection.
pub open spec fn read_list(a: App, b: App) -> bool {
    &&& b.shown_ok(a.shown())
    &&& !a.items_dirty
    &&& same_tree(a, b)
    &&& same_data(a, b)
    &&& same_selection(a, b)
}

/// A configured tunnel among the tunnels shown comes from the configured list.
pub proof fn lemma_effective_yaml_index(yaml: Seq<TunnelView>, key: Seq<char>, ovs: Seq<TunnelOverrideView>, k: int)
    requires
        0 <= k < spec_effective_tunnels(yaml, key, ovs).len(),
    ensures
        spec_effective_tunnels(yaml, key, ovs)[k].yaml_index matches Some(i) ==> i < yaml.len(),
{
    let so = crate::state::overrides_for(ovs, key);
    let ey = crate::state::effective_yaml(yaml, so);
    lemma_effective_yaml_bound(yaml, so);
    if k < ey.len() {
        assert(spec_effective_tunnels(yaml, key, ovs)[k] == ey[k]);
    } else {
        assert(spec_effective_tunnels(yaml, key, ovs)[k] == crate::state::effective_user(
            crate::state::user_overrides(so),
        )[k - ey.len()]);
    }
}

proof fn lemma_effective_yaml_bound(yaml: Seq<TunnelView>, so: Seq<TunnelOverrideView>)
    ensures
        forall|k: int|
            0 <= k < crate::state::effective_yaml(yaml, so).len() ==> ((
            #[trigger] crate::state::effective_yaml(yaml, so)[k]).yaml_index matches Some(i) && i
                < yaml.len()),
    decreases yaml.len(),
{
    if yaml.len() > 0 {
        lemma_effective_yaml_bound(yaml.drop_last(), so);
        let prev = crate::state::effective_yaml(yaml.drop_last(), so);
        let last = crate::state::yaml_entry(yaml.last(), (yaml.len() - 1) as nat, so);
        assert forall|k: int| 0 <= k < crate::state::effective_yaml(yaml, so).len() implies (
        #[trigger] crate::state::effective_yaml(yaml, so)[k]).yaml_index matches Some(i) && i
            < yaml.len() by {
            if k < prev.len() {
                assert(crate::state::effective_yaml(yaml, so)[k] == prev[k]);
            } else {
                assert(crate::state::effective_yaml(yaml, so)[k] == last[k - prev.len()]);
            }
        }
    }
}

/// The form to edit tunnel `idx` whose settings are `t`.
pub open spec fn edit_form(idx: usize, t: TunnelView) -> TunnelFormView {
    TunnelFormView {
        label: t.label,
        local_port: decimal_seq(t.local_port as nat),
        remote_host: t.remote_host,
        remote_port: decimal_seq(t.remote_port as nat),
        focus: TunnelFormField::Label,
        editing_index: Some(idx),
        error: Seq::<char>::empty(),
    }
}

/// The selection after a change of the list to `n` tunnels: the row `sel`,
/// kept within the list.
pub open spec fn clamp_selection(sel: usize, n: nat) -> usize {
    if n == 0 {
        0
    } else if sel >= n {
        (n - 1) as usize
    } else {
        sel
    }
}

impl App {
    /// Opens the tunnels overlay on the selected server (not in Wallix mode,
    /// which has no tunnels: the status bar says so).
    pub fn open_tunnel_overlay(&mut self)
        ensures
            old(self).connection_mode == ConnectionMode::Wallix ==> {
                &&& final(self).status_message matches Some(m) && m@
                    == old(self).lang.tunnel_wallix_unavailable@
                &&& final(self).tunnel_overlay == old(self).tunnel_overlay
                &&& same_cache(*final(self), *old(self))
                &&& same_tree(*final(self), *old(self))
                &&& same_data(*final(self), *old(self))
                &&& same_selection(*final(self), *old(self))
            },
            old(self).connection_mode != ConnectionMode::Wallix ==> {
                &&& read_list(*final(self), *old(self))
                &&& final(self).tunnel_overlay == (if final(self).selected_view() is Some {
                    Some(TunnelOverlayState::List { selected: 0 })
                } else {
                    old(self).tunnel_overlay
                })
                &&& final(self).status_message == old(self).status_message
            },
            final(self).tunnel_overrides == old(self).tunnel_overrides,
            final(self).scp_state == old(self).scp_state,
            final(self).cmd_state == old(self).cmd_state,
            final(self).app_mode == old(self).app_mode,
    {
        if self.connection_mode == ConnectionMode::Wallix {
            self.status_message = Some(String::from_str(self.lang.tunnel_wallix_unavailable));
            return ;
        }
        if self.selected_server().is_some() {
            self.tunnel_overlay = Some(TunnelOverlayState::List { selected: 0 });
        }
    }

    /// Closes the tunnels overlay.
    pub fn close_tunnel_overlay(&mut self)
        ensures
            final(self).tunnel_overlay is None,
            final(self).tunnel_overrides == old(self).tunnel_overrides,
            final(self).scp_state == old(self).scp_state,
            final(self).cmd_state == old(self).cmd_state,
            same_tree(*final(self), *old(self)),
            same_cache(*final(self), *old(self)),
            same_screen(*final(self), *old(self)),
            same_data(*final(self), *old(self)),
            same_selection(*final(self), *old(self)),
    {
        self.tunnel_overlay = None;
    }

    /// Moves down the list of the overlay (its last row, "+", included),
    /// wrapping to the top.
    pub fn tunnel_overlay_next(&mut self)
        ensures
            read_list(*final(self), *old(self)),
            final(self).tunnel_overlay == match (final(self).selected_view(), old(self).tunnel_overlay) {
                (Some(s), Some(TunnelOverlayState::List { selected })) => Some(
                    TunnelOverlayState::List {
                        selected: ((selected + 1) % (tunnels_of(*old(self), s).len() + 1) as int) as usize,
                    },
                ),
                _ => old(self).tunnel_overlay,
            },
            final(self).tunnel_overrides == old(self).tunnel_overrides,
            final(self).scp_state == old(self).scp_state,
            final(self).cmd_state == old(self).cmd_state,
            same_screen(*final(self), *old(self)),
    {
        let server = match self.selected_server() {
            Some(s) => s,
            None => {
                return ;
            },
        };
        let count = self.effective_tunnels(&server).len() as u128 + 1;
        match &self.tunnel_overlay {
            Some(TunnelOverlayState::List { selected }) => {
                let next = ((*selected as u128 + 1) % count) as usize;
                self.tunnel_overlay = Some(TunnelOverlayState::List { selected: next });
            },
            _ => {},
        }
    }

    /// Moves up the list of the overlay, wrapping to its last row ("+").
    pub fn tunnel_overlay_previous(&mut self)
        ensures
            read_list(*final(self), *old(self)),
            final(self).tunnel_overlay == match (final(self).selected_view(), old(self).tunnel_overlay) {
                (Some(s), Some(TunnelOverlayState::List { selected })) => Some(
                    TunnelOverlayState::List {
                        selected: if selected == 0 {
                            tunnels_of(*old(self), s).len() as usize
                        } else {
                            (selected - 1) as usize
                        },
                    },
                ),
                _ => old(self).tunnel_overlay,
            },
            final(self).tunnel_overrides == old(self).tunnel_overrides,
            final(self).scp_state == old(self).scp_state,
            final(self).cmd_state == old(self).cmd_state,
            same_screen(*final(self), *old(self)),
    {
        let server = match self.selected_server() {
            Some(s) => s,
            None => {
                return ;
            },
        };
        let count = self.effective_tunnels(&server).len();
        match &self.tunnel_overlay {
            Some(TunnelOverlayState::List { selected }) => {
                let prev = if *selected == 0 {
                    count
                } else {
                    *selected - 1
                };
                self.tunnel_overlay = Some(TunnelOverlayState::List { selected: prev });
            },
            _ => {},
        }
    }

    /// The selected server and the tunnel at the overlay's selected row, when
    /// that row is a tunnel (not "+"): what starting or stopping acts on.
    pub fn tunnel_overlay_target(&mut self) -> (r: Option<(ResolvedServer, usize)>)
        ensures
            read_list(*final(self), *old(self)),
            same_screen(*final(self), *old(self)),
            final(self).tunnel_overrides == old(self).tunnel_overrides,
            final(self).tunnel_overlay == old(self).tunnel_overlay,
            final(self).scp_state == old(self).scp_state,
            final(self).cmd_state == old(self).cmd_state,
            match r {
                Some((s, k)) => final(self).selected_view() == Some(s@) && old(self).tunnel_overlay
                    == Some(TunnelOverlayState::List { selected: k }) && k < tunnels_of(
                    *old(self),
                    s@,
                ).len(),
                None => !(final(self).selected_view() matches Some(s) && old(self).tunnel_overlay
                    matches Some(TunnelOverlayState::List { selected }) && selected < tunnels_of(
                    *old(self),
                    s,
                ).len()),
            },
    {
        let server = match self.selected_server() {
            Some(s) => s,
            None => {
                return None;
            },
        };
        let selected = match &self.tunnel_overlay {
            Some(TunnelOverlayState::List { selected }) => *selected,
            _ => {
                return None;
            },
        };
        let tunnels = self.effective_tunnels(&server);
        if selected >= tunnels.len() {
            return None;
        }
        Some((server, selected))
    }

    /// Deletes the tunnel at the overlay's selected row (see
    /// `remove_tunnel_override`), keeps the selection within the list and says
    /// so; gives the server key and the row, whose running tunnel is to stop.
    pub fn tunnel_overlay_delete(&mut self) -> (r: Option<(String, usize)>)
        ensures
            read_list(*final(self), *old(self)),
            final(self).scp_state == old(self).scp_state,
            final(self).cmd_state == old(self).cmd_state,
            final(self).app_mode == old(self).app_mode,
            match (final(self).selected_view(), old(self).tunnel_overlay) {
                (Some(s), Some(TunnelOverlayState::List { selected })) if selected < tunnels_of(
                    *old(self),
                    s,
                ).len() => {
                    let t = tunnels_of(*old(self), s)[selected as int];
                    &&& overrides_view(final(self).tunnel_overrides@) == spec_remove_override(
                        overrides_view(old(self).tunnel_overrides@),
                        spec_server_key(s),
                        t.yaml_index,
                        t.user_idx as nat,
                        s.tunnels,
                    )
                    &&& final(self).tunnel_overlay == Some(
                        TunnelOverlayState::List {
                            selected: clamp_selection(selected, tunnels_of(*final(self), s).len()),
                        },
                    )
                    &&& final(self).status_message matches Some(m) && m@
                        == old(self).lang.tunnel_deleted@
                    &&& r matches Some((k, i)) && k@ == spec_server_key(s) && i == selected
                },
                _ => {
                    &&& r is None
                    &&& final(self).tunnel_overrides == old(self).tunnel_overrides
                    &&& final(self).tunnel_overlay == old(self).tunnel_overlay
                    &&& final(self).status_message == old(self).status_message
                },
            },
    {
        let server = match self.selected_server() {
            Some(s) => s,
            None => {
                return None;
            },
        };
        let selected = match &self.tunnel_overlay {
            Some(TunnelOverlayState::List { selected }) => *selected,
            _ => {
                return None;
            },
        };
        let tunnels = self.effective_tunnels(&server);
        if selected >= tunnels.len() {
            return None;
        }
        let yaml_index = tunnels[selected].yaml_index;
        let user_idx = tunnels[selected].user_idx;
        proof {
            assert(effective_view(tunnels@)[selected as int] == tunnels@[selected as int]@);
            lemma_effective_yaml_index(
                server@.tunnels,
                spec_server_key(server@),
                overrides_view(self.tunnel_overrides@),
                selected as int,
            );
            assert(server@.tunnels.len() == server.tunnels@.len());
        }
        let key = server_key_of(&server);
        self.remove_tunnel_override(&server, yaml_index, user_idx);
        let n = self.effective_tunnels(&server).len();
        let sel = if n == 0 {
            0
        } else if selected >= n {
            n - 1
        } else {
            selected
        };
        self.tunnel_overlay = Some(TunnelOverlayState::List { selected: sel });
        self.status_message = Some(String::from_str(self.lang.tunnel_deleted));
        Some((key, selected))
    }

    /// Opens the form on the tunnel at the overlay's selected row.
    pub fn open_tunnel_form_edit(&mut self)
        ensures
            read_list(*final(self), *old(self)),
            same_screen(*final(self), *old(self)),
            final(self).tunnel_overrides == old(self).tunnel_overrides,
            final(self).scp_state == old(self).scp_state,
            final(self).cmd_state == old(self).cmd_state,
            match (final(self).selected_view(), old(self).tunnel_overlay) {
                (Some(s), Some(TunnelOverlayState::List { selected })) if selected < tunnels_of(
                    *old(self),
                    s,
                ).len() => final(self).tunnel_overlay matches Some(TunnelOverlayState::Form(f))
                    && f@ == edit_form(selected, tunnels_of(*old(self), s)[selected as int].config),
                _ => final(self).tunnel_overlay == old(self).tunnel_overlay,
            },
    {
        let server = match self.selected_server() {
            Some(s) => s,
            None => {
                return ;
            },
        };
        let selected = match &self.tunnel_overlay {
            Some(TunnelOverlayState::List { selected }) => *selected,
            _ => {
                return ;
            },
        };
        let tunnels = self.effective_tunnels(&server);
        if selected >= tunnels.len() {
            return ;
        }
        assert(effective_view(tunnels@)[selected as int] == tunnels@[selected as int]@);
        let form = TunnelForm::new_edit(selected, &tunnels[selected].config);
        self.tunnel_overlay = Some(TunnelOverlayState::Form(form));
    }

    /// Opens an empty form from the overlay's list, to add a tunnel.
    pub fn open_tunnel_form_add(&mut self)
        ensures
            read_list(*final(self), *old(self)),
            same_screen(*final(self), *old(self)),
            final(self).tunnel_overrides == old(self).tunnel_overrides,
            final(self).scp_state == old(self).scp_state,
            final(self).cmd_state == old(self).cmd_state,
            (final(self).selected_view() is Some && old(self).tunnel_overlay matches Some(
                TunnelOverlayState::List { .. },
            )) ==> (final(self).tunnel_overlay matches Some(TunnelOverlayState::Form(f)) && f@
                == (TunnelFormView {
                label: Seq::<char>::empty(),
                local_port: Seq::<char>::empty(),
                remote_host: Seq::<char>::empty(),
                remote_port: Seq::<char>::empty(),
                focus: TunnelFormField::Label,
                editing_index: None,
                error: Seq::<char>::empty(),
            })),
            !(final(self).selected_view() is Some && old(self).tunnel_overlay matches Some(
                TunnelOverlayState::List { .. },
            )) ==> final(self).tunnel_overlay == old(self).tunnel_overlay,
    {
        if self.selected_server().is_none() {
            return ;
        }
        let is_list = match &self.tunnel_overlay {
            Some(TunnelOverlayState::List { .. }) => true,
            _ => false,
        };
        if is_list {
            self.tunnel_overlay = Some(TunnelOverlayState::Form(TunnelForm::new_empty()));
        }
    }

    /// Types `c` into the open form (see `typed`).
    pub fn tunnel_form_char(&mut self, c: char)
        ensures
            match old(self).tunnel_overlay {
                Some(TunnelOverlayState::Form(f)) => final(self).tunnel_overlay matches Some(
                    TunnelOverlayState::Form(g),
                ) && g@ == typed(f@, c),
                _ => final(self).tunnel_overlay == old(self).tunnel_overlay,
            },
            final(self).tunnel_overrides == old(self).tunnel_overrides,
            final(self).scp_state == old(self).scp_state,
            final(self).cmd_state == old(self).cmd_state,
            same_tree(*final(self), *old(self)),
            same_cache(*final(self), *old(self)),
            same_screen(*final(self), *old(self)),
            same_data(*final(self), *old(self)),
            same_selection(*final(self), *old(self)),
    {
        match &mut self.tunnel_overlay {
            Some(TunnelOverlayState::Form(form)) => form.type_char(c),
            _ => {},
        }
    }

    /// Removes the last character of the open form's field (see `backspaced`).
    pub fn tunnel_form_backspace(&mut self)
        ensures
            match old(self).tunnel_overlay {
                Some(TunnelOverlayState::Form(f)) => final(self).tunnel_overlay matches Some(
                    TunnelOverlayState::Form(g),
                ) && g@ == backspaced(f@),
                _ => final(self).tunnel_overlay == old(self).tunnel_overlay,
            },
            final(self).tunnel_overrides == old(self).tunnel_overrides,
            final(self).scp_state == old(self).scp_state,
            final(self).cmd_state == old(self).cmd_state,
            same_tree(*final(self), *old(self)),
            same_cache(*final(self), *old(self)),
            same_screen(*final(self), *old(self)),
            same_data(*final(self), *old(self)),
            same_selection(*final(self), *old(self)),
    {
        match &mut self.tunnel_overlay {
            Some(TunnelOverlayState::Form(form)) => form.backspace(),
            _ => {},
        }
    }

    /// Moves the open form to its next field (Tab).
    pub fn tunnel_form_next_field(&mut self)
        ensures
            match old(self).tunnel_overlay {
                Some(TunnelOverlayState::Form(f)) => final(self).tunnel_overlay matches Some(
                    TunnelOverlayState::Form(g),
                ) && g@ == (TunnelFormView { focus: field_at((field_index(f.focus) + 1) % 4), ..f@ }),
                _ => final(self).tunnel_overlay == old(self).tunnel_overlay,
            },
            final(self).tunnel_overrides == old(self).tunnel_overrides,
            final(self).scp_state == old(self).scp_state,
            final(self).cmd_state == old(self).cmd_state,
            same_tree(*final(self), *old(self)),
            same_cache(*final(self), *old(self)),
            same_screen(*final(self), *old(self)),
            same_data(*final(self), *old(self)),
            same_selection(*final(self), *old(self)),
    {
        match &mut self.tunnel_overlay {
            Some(TunnelOverlayState::Form(form)) => {
                form.focus = form.focus.next();
            },
            _ => {},
        }
    }

    /// Moves the open form to its previous field (Shift+Tab).
    pub fn tunnel_form_prev_field(&mut self)
        ensures
            match old(self).tunnel_overlay {
                Some(TunnelOverlayState::Form(f)) => final(self).tunnel_overlay matches Some(
                    TunnelOverlayState::Form(g),
                ) && g@ == (TunnelFormView { focus: field_at((field_index(f.focus) + 3) % 4), ..f@ }),
                _ => final(self).tunnel_overlay == old(self).tunnel_overlay,
            },
            final(self).tunnel_overrides == old(self).tunnel_overrides,
            final(self).scp_state == old(self).scp_state,
            final(self).cmd_state == old(self).cmd_state,
            same_tree(*final(self), *old(self)),
            same_cache(*final(self), *old(self)),
            same_screen(*final(self), *old(self)),
            same_data(*final(self), *old(self)),
            same_selection(*final(self), *old(self)),
    {
        match &mut self.tunnel_overlay {
            Some(TunnelOverlayState::Form(form)) => {
                form.focus = form.focus.prev();
            },
            _ => {},
        }
    }
}

/// `n - 1`, or 0 when `n` is 0.
pub open spec fn last_row(n: nat) -> usize {
    if n == 0 {
        0
    } else {
        (n - 1) as usize
    }
}

/// The overlay's row after a form closes on a list of `n` tunnels: the
/// edited tunnel (within the list), or the last one for a new tunnel.
pub open spec fn row_after_form(editing_index: Option<usize>, n: nat) -> usize {
    match editing_index {
        Some(idx) => if idx < last_row(n) {
            idx
        } else {
            last_row(n)
        },
        None => last_row(n),
    }
}

impl App {
    /// Submits the open form: an invalid field shows its message in the form;
    /// a valid tunnel replaces the edited one (see `update_tunnel_override`)
    /// or is added, the status bar says so, and the list comes back with the
    /// tunnel selected.
    pub fn tunnel_form_submit(&mut self)
        ensures
            read_list(*final(self), *old(self)),
            final(self).scp_state == old(self).scp_state,
            final(self).cmd_state == old(self).cmd_state,
            final(self).app_mode == old(self).app_mode,
            match (final(self).selected_view(), old(self).tunnel_overlay) {
                (Some(s), Some(TunnelOverlayState::Form(f))) => match spec_validate(f@, old(self).lang) {
                    Err(e) => {
                        &&& final(self).tunnel_overlay matches Some(TunnelOverlayState::Form(g))
                            && g@ == (TunnelFormView { error: e, ..f@ })
                        &&& final(self).tunnel_overrides == old(self).tunnel_overrides
                        &&& final(self).status_message == old(self).status_message
                    },
                    Ok(t) => {
                        let ts = tunnels_of(*old(self), s);
                        let key = spec_server_key(s);
                        let ovs = overrides_view(old(self).tunnel_overrides@);
                        &&& overrides_view(final(self).tunnel_overrides@) == match f.editing_index {
                            Some(idx) => if idx < ts.len() {
                                spec_update_override(
                                    ovs,
                                    key,
                                    ts[idx as int].yaml_index,
                                    ts[idx as int].user_idx as nat,
                                    t,
                                )
                            } else {
                                ovs
                            },
                            None => ovs.push(new_override(key, None, t, false)),
                        }
                        &&& match f.editing_index {
                            Some(idx) => if idx < ts.len() {
                                final(self).status_message matches Some(m) && m@
                                    == old(self).lang.tunnel_updated@
                            } else {
                                final(self).status_message == old(self).status_message
                            },
                            None => final(self).status_message matches Some(m) && m@
                                == old(self).lang.tunnel_added@,
                        }
                        &&& final(self).tunnel_overlay == Some(
                            TunnelOverlayState::List {
                                selected: row_after_form(
                                    f.editing_index,
                                    tunnels_of(*final(self), s).len(),
                                ),
                            },
                        )
                    },
                },
                _ => {
                    &&& final(self).tunnel_overrides == old(self).tunnel_overrides
                    &&& final(self).tunnel_overlay == old(self).tunnel_overlay
                    &&& final(self).status_message == old(self).status_message
                },
            },
    {
        let server = match self.selected_server() {
            Some(s) => s,
            None => {
                return ;
            },
        };
        let (editing_index, result) = match &self.tunnel_overlay {
            Some(TunnelOverlayState::Form(form)) => (form.editing_index, form.validate(&self.lang)),
            _ => {
                return ;
            },
        };
        match result {
            Err(msg) => {
                match &mut self.tunnel_overlay {
                    Some(TunnelOverlayState::Form(form)) => {
                        form.error = msg;
                    },
                    _ => {},
                }
            },
            Ok(config) => {
                match editing_index {
                    Some(idx) => {
                        let tunnels = self.effective_tunnels(&server);
                        if idx < tunnels.len() {
                            assert(effective_view(tunnels@)[idx as int] == tunnels@[idx as int]@);
                            let yaml_index = tunnels[idx].yaml_index;
                            let user_idx = tunnels[idx].user_idx;
                            self.update_tunnel_override(&server, yaml_index, user_idx, config);
                            self.status_message = Some(String::from_str(self.lang.tunnel_updated));
                        }
                    },
                    None => {
                        self.add_tunnel_override(&server, config);
                        self.status_message = Some(String::from_str(self.lang.tunnel_added));
                    },
                }
                let n = self.effective_tunnels(&server).len();
                let last = if n == 0 {
                    0
                } else {
                    n - 1
                };
                let sel = match editing_index {
                    Some(idx) => if idx < last {
                        idx
                    } else {
                        last
                    },
                    None => last,
                };
                self.tunnel_overlay = Some(TunnelOverlayState::List { selected: sel });
            },
        }
    }

    /// Leaves the form for the list (Esc), on the edited tunnel when there is one.
    pub fn tunnel_form_cancel(&mut self)
        ensures
            final(self).tunnel_overrides == old(self).tunnel_overrides,
            final(self).scp_state == old(self).scp_state,
            final(self).cmd_state == old(self).cmd_state,
            same_screen(*final(self), *old(self)),
            match old(self).tunnel_overlay {
                Some(TunnelOverlayState::Form(f)) => {
                    &&& read_list(*final(self), *old(self))
                    &&& final(self).tunnel_overlay == Some(
                        TunnelOverlayState::List {
                            selected: match (f.editing_index, final(self).selected_view()) {
                                (Some(idx), Some(s)) => row_after_form(
                                    Some(idx),
                                    tunnels_of(*old(self), s).len(),
                                ),
                                _ => 0,
                            },
                        },
                    )
                },
                _ => {
                    &&& final(self).tunnel_overlay == old(self).tunnel_overlay
                    &&& same_tree(*final(self), *old(self))
                    &&& same_cache(*final(self), *old(self))
                    &&& same_data(*final(self), *old(self))
                    &&& same_selection(*final(self), *old(self))
                },
            },
    {
        let editing_index = match &self.tunnel_overlay {
            Some(TunnelOverlayState::Form(form)) => form.editing_index,
            _ => {
                return ;
            },
        };
        let server = self.selected_server();
        let sel = match (editing_index, server) {
            (Some(idx), Some(s)) => {
                let n = self.effective_tunnels(&s).len();
                let last = if n == 0 {
                    0
                } else {
                    n - 1
                };
                if idx < last {
                    idx
                } else {
                    last
                }
            },
            _ => 0,
        };
        self.tunnel_overlay = Some(TunnelOverlayState::List { selected: sel });
    }

    /// What starting tunnel `effective_idx` of `server` checks first: not in
    /// Wallix mode, and the tunnel must exist; otherwise the status bar says
    /// why and nothing is given.
    pub fn tunnel_to_start(&mut self, server: &ResolvedServer, effective_idx: usize) -> (r: Option<
        EffectiveTunnel,
    >)
        ensures
            old(self).connection_mode == ConnectionMode::Wallix ==> (r is None && (final(self).status_message matches Some(m) && m@ == old(self).lang.tunnel_wallix_unavailable@)),
            old(self).connection_mode != ConnectionMode::Wallix && effective_idx >= tunnels_of(
                *old(self),
                server@,
            ).len() ==> (r is None && (final(self).status_message matches Some(m) && m@ == fmt_seq(
                old(self).lang.tunnel_not_found@,
                seq![decimal_seq(effective_idx as nat)],
            ))),
            old(self).connection_mode != ConnectionMode::Wallix && effective_idx < tunnels_of(
                *old(self),
                server@,
            ).len() ==> (r matches Some(t) && t@ == tunnels_of(*old(self), server@)[effective_idx as int]
                && final(self).status_message == old(self).status_message),
            final(self).tunnel_overrides == old(self).tunnel_overrides,
            final(self).tunnel_overlay == old(self).tunnel_overlay,
            final(self).scp_state == old(self).scp_state,
            final(self).cmd_state == old(self).cmd_state,
            final(self).app_mode == old(self).app_mode,
            same_tree(*final(self), *old(self)),
            same_cache(*final(self), *old(self)),
            same_data(*final(self), *old(self)),
            same_selection(*final(self), *old(self)),
    {
        if self.connection_mode == ConnectionMode::Wallix {
            self.status_message = Some(String::from_str(self.lang.tunnel_wallix_unavailable));
            return None;
        }
        let mut tunnels = self.effective_tunnels(server);
        if effective_idx >= tunnels.len() {
            let n = u64_to_string(effective_idx as u64);
            let args = vec![n.as_str()];
            assert(crate::i18n::str_views(args@) =~= seq![decimal_seq(effective_idx as nat)]);
            self.status_message = Some(fmt(self.lang.tunnel_not_found, args.as_slice()));
            return None;
        }
        let ghost tv = effective_view(tunnels@);
        let t = tunnels.remove(effective_idx);
        assert(tv[effective_idx as int] == t@);
        Some(t)
    }
}

// ─── Laws ────────────────────────────────────────────────────────────────────

proof fn lemma_effective_yaml_same(yaml: Seq<TunnelView>, so: Seq<TunnelOverrideView>, o: TunnelOverrideView)
    requires
        o.yaml_index is None,
    ensures
        crate::state::effective_yaml(yaml, so.push(o)) == crate::state::effective_yaml(yaml, so),
    decreases yaml.len(),
{
    if yaml.len() > 0 {
        lemma_effective_yaml_same(yaml.drop_last(), so, o);
        let n = (yaml.len() - 1) as nat;
        assert(so.push(o).drop_last() =~= so);
        assert(crate::state::find_override(so.push(o), n) == crate::state::find_override(so, n));
    }
}

/// A tunnel added to a server is shown last among its tunnels, as the next
/// tunnel added by the user; those shown before are unchanged.
pub proof fn lemma_added_tunnel_listed_last(
    yaml: Seq<TunnelView>,
    key: Seq<char>,
    ovs: Seq<TunnelOverrideView>,
    t: TunnelView,
)
    ensures
        spec_effective_tunnels(yaml, key, ovs.push(new_override(key, None, t, false))) == spec_effective_tunnels(
            yaml,
            key,
            ovs,
        ).push(
            EffectiveTunnelView {
                config: t,
                yaml_index: None,
                user_idx: crate::state::user_overrides(crate::state::overrides_for(ovs, key)).len() as usize,
                is_overridden: true,
            },
        ),
{
    let o = new_override(key, None, t, false);
    let so = crate::state::overrides_for(ovs, key);
    assert(ovs.push(o).drop_last() =~= ovs);
    assert(crate::state::overrides_for(ovs.push(o), key) == so.push(o));
    assert(so.push(o).drop_last() =~= so);
    assert(crate::state::user_overrides(so.push(o)) == crate::state::user_overrides(so).push(o));
    lemma_effective_yaml_same(yaml, so, o);
    let us = crate::state::user_overrides(so);
    assert(crate::state::effective_user(us.push(o)) =~= crate::state::effective_user(us).push(
        EffectiveTunnelView { config: t, yaml_index: None, user_idx: us.len() as usize, is_overridden: true },
    ));
    assert(spec_effective_tunnels(yaml, key, ovs.push(o)) =~= spec_effective_tunnels(yaml, key, ovs).push(
        EffectiveTunnelView { config: t, yaml_index: None, user_idx: us.len() as usize, is_overridden: true },
    ));
}

proof fn lemma_yaml_index_push(t: Seq<TunnelOverrideView>, x: TunnelOverrideView, key: Seq<char>, i: usize, from: nat)
    requires
        from <= t.len(),
    ensures
        yaml_override_index(t.push(x), key, i, from) == (if yaml_override_index(t, key, i, from) >= 0 {
            yaml_override_index(t, key, i, from)
        } else if is_yaml_override(x, key, i) {
            t.len() as int
        } else {
            -1
        }),
    decreases t.len() - from,
{
    if from < t.len() {
        assert(t.push(x)[from as int] == t[from as int]);
        if !is_yaml_override(t[from as int], key, i) {
            lemma_yaml_index_push(t, x, key, i, from + 1);
        }
    } else {
        assert(t.push(x)[from as int] == x);
        assert(yaml_override_index(t.push(x), key, i, from + 1) == -1);
    }
}

/// The first override of configured tunnel `i` among those of server `key`
/// is the first one in the whole list.
proof fn lemma_find_is_first(ovs: Seq<TunnelOverrideView>, key: Seq<char>, i: usize)
    ensures
        crate::state::find_override(crate::state::overrides_for(ovs, key), i as nat) == (if yaml_override_index(
            ovs,
            key,
            i,
            0,
        ) >= 0 {
            Some(ovs[yaml_override_index(ovs, key, i, 0)])
        } else {
            None
        }),
    decreases ovs.len(),
{
    lemma_yaml_index_range(ovs, key, i, 0);
    if ovs.len() > 0 {
        let t = ovs.drop_last();
        let x = ovs.last();
        lemma_find_is_first(t, key, i);
        lemma_yaml_index_range(t, key, i, 0);
        assert(t.push(x) =~= ovs);
        lemma_yaml_index_push(t, x, key, i, 0);
        let so = crate::state::overrides_for(t, key);
        if x.server_key == key {
            assert(crate::state::overrides_for(ovs, key) == so.push(x));
            assert(so.push(x).drop_last() =~= so);
        }
        let j = yaml_override_index(t, key, i, 0);
        if j >= 0 {
            assert(ovs[j] == t[j]);
        }
    }
}

proof fn lemma_yaml_index_same_marks(a: Seq<TunnelOverrideView>, b: Seq<TunnelOverrideView>, key: Seq<char>, i: usize, from: nat)
    requires
        a.len() == b.len(),
        forall|k: int| 0 <= k < a.len() ==> is_yaml_override(#[trigger] a[k], key, i) == is_yaml_override(b[k], key, i),
    ensures
        yaml_override_index(a, key, i, from) == yaml_override_index(b, key, i, from),
    decreases a.len() - from,
{
    if from < a.len() {
        lemma_yaml_index_same_marks(a, b, key, i, from + 1);
    }
}

/// When the first override of tunnel `i` in `so` is hidden, no entry of
/// `effective_yaml` stands for tunnel `i`.
proof fn lemma_no_entry_for_hidden(yaml: Seq<TunnelView>, so: Seq<TunnelOverrideView>, i: usize)
    requires
        crate::state::find_override(so, i as nat) matches Some(o) && o.hidden,
        yaml.len() <= usize::MAX,
    ensures
        forall|k: int|
            0 <= k < crate::state::effective_yaml(yaml, so).len() ==> (
            #[trigger] crate::state::effective_yaml(yaml, so)[k]).yaml_index != Some(i),
    decreases yaml.len(),
{
    if yaml.len() > 0 {
        lemma_no_entry_for_hidden(yaml.drop_last(), so, i);
        let prev = crate::state::effective_yaml(yaml.drop_last(), so);
        let n = (yaml.len() - 1) as nat;
        let last = crate::state::yaml_entry(yaml.last(), n, so);
        if n == i as nat {
            assert(last.len() == 0);
        } else {
            assert(n as usize != i);
        }
        assert forall|k: int| 0 <= k < crate::state::effective_yaml(yaml, so).len() implies (
        #[trigger] crate::state::effective_yaml(yaml, so)[k]).yaml_index != Some(i) by {
            if k < prev.len() {
                assert(crate::state::effective_yaml(yaml, so)[k] == prev[k]);
            } else {
                assert(crate::state::effective_yaml(yaml, so)[k] == last[k - prev.len()]);
            }
        }
    }
}

/// After a configured tunnel is deleted (hidden through its override), no
/// tunnel shown stands for it any more.
pub proof fn lemma_hidden_tunnel_not_listed(yaml: Seq<TunnelView>, key: Seq<char>, ovs: Seq<TunnelOverrideView>, i: usize)
    requires
        i < yaml.len() <= usize::MAX,
    ensures
        forall|k: int|
            0 <= k < spec_effective_tunnels(yaml, key, spec_remove_override(ovs, key, Some(i), 0, yaml)).len()
                ==> (#[trigger] spec_effective_tunnels(
                yaml,
                key,
                spec_remove_override(ovs, key, Some(i), 0, yaml),
            )[k]).yaml_index != Some(i),
{
    let nv = spec_remove_override(ovs, key, Some(i), 0, yaml);
    let j = yaml_override_index(ovs, key, i, 0);
    lemma_yaml_index_range(ovs, key, i, 0);
    lemma_find_is_first(ovs, key, i);
    if j >= 0 {
        assert forall|k: int| 0 <= k < ovs.len() implies is_yaml_override(#[trigger] ovs[k], key, i)
            == is_yaml_override(nv[k], key, i) by {}
        lemma_yaml_index_same_marks(nv, ovs, key, i, 0);
        lemma_find_is_first(nv, key, i);
    } else {
        let o = new_override(key, Some(i), yaml[i as int], true);
        lemma_yaml_index_push(ovs, o, key, i, 0);
        lemma_find_is_first(nv, key, i);
        lemma_yaml_index_range(nv, key, i, 0);
    }
    let so = crate::state::overrides_for(nv, key);
    lemma_no_entry_for_hidden(yaml, so, i);
    let ey = crate::state::effective_yaml(yaml, so);
    let eu = crate::state::effective_user(crate::state::user_overrides(so));
    assert forall|k: int| 0 <= k < (ey + eu).len() implies (#[trigger] (ey + eu)[k]).yaml_index != Some(i) by {
        if k >= ey.len() {
            assert((ey + eu)[k] == eu[k - ey.len()]);
        } else {
            assert((ey + eu)[k] == ey[k]);
        }
    }
}

/// `ts` without the tunnels that stand for configured tunnel `i`.
pub open spec fn without_configured(ts: Seq<EffectiveTunnelView>, i: usize) -> Seq<EffectiveTunnelView>
    decreases ts.len(),
{
    if ts.len() == 0 {
        seq![]
    } else {
        let r = without_configured(ts.drop_last(), i);
        if ts.last().yaml_index == Some(i) {
            r
        } else {
            r.push(ts.last())
        }
    }
}

proof fn lemma_without_configured_concat(a: Seq<EffectiveTunnelView>, b: Seq<EffectiveTunnelView>, i: usize)
    ensures
        without_configured(a + b, i) == without_configured(a, i) + without_configured(b, i),
    decreases b.len(),
{
    if b.len() == 0 {
        assert(a + b =~= a);
        assert(without_configured(a, i) + without_configured(b, i) =~= without_configured(a, i));
    } else {
        lemma_without_configured_concat(a, b.drop_last(), i);
        assert((a + b).drop_last() =~= a + b.drop_last());
        assert((a + b).last() == b.last());
        if b.last().yaml_index != Some(i) {
            assert(without_configured(a, i) + without_configured(b.drop_last(), i).push(b.last())
                =~= (without_configured(a, i) + without_configured(b.drop_last(), i)).push(b.last()));
        }
    }
}

proof fn lemma_without_configured_keeps(ts: Seq<EffectiveTunnelView>, i: usize)
    requires
        forall|k: int| 0 <= k < ts.len() ==> (#[trigger] ts[k]).yaml_index != Some(i),
    ensures
        without_configured(ts, i) == ts,
    decreases ts.len(),
{
    if ts.len() > 0 {
        lemma_without_configured_keeps(ts.drop_last(), i);
        assert(ts.drop_last().push(ts.last()) =~= ts);
    }
}

/// Two override lists that differ only in entries for configured tunnel `i`,
/// and there only in whether the entry hides the tunnel.
pub open spec fn differ_in_hiding(a: Seq<TunnelOverrideView>, b: Seq<TunnelOverrideView>, i: usize) -> bool {
    &&& a.len() == b.len()
    &&& forall|k: int|
        0 <= k < a.len() ==> {
            &&& (#[trigger] a[k]).server_key == b[k].server_key
            &&& a[k].yaml_index == b[k].yaml_index
            &&& (a[k].yaml_index != Some(i) ==> a[k] == b[k])
        }
}

proof fn lemma_differ_in_hiding_for(a: Seq<TunnelOverrideView>, b: Seq<TunnelOverrideView>, i: usize, key: Seq<char>)
    requires
        differ_in_hiding(a, b, i),
    ensures
        differ_in_hiding(crate::state::overrides_for(a, key), crate::state::overrides_for(b, key), i),
    decreases a.len(),
{
    if a.len() > 0 {
        assert(differ_in_hiding(a.drop_last(), b.drop_last(), i)) by {
            assert forall|k: int| 0 <= k < a.drop_last().len() implies {
                &&& (#[trigger] a.drop_last()[k]).server_key == b.drop_last()[k].server_key
                &&& a.drop_last()[k].yaml_index == b.drop_last()[k].yaml_index
                &&& (a.drop_last()[k].yaml_index != Some(i) ==> a.drop_last()[k] == b.drop_last()[k])
            } by {
                assert(a.drop_last()[k] == a[k]);
                assert(b.drop_last()[k] == b[k]);
            }
        }
        lemma_differ_in_hiding_for(a.drop_last(), b.drop_last(), i, key);
        assert(a.last() == a[a.len() - 1]);
        assert(b.last() == b[b.len() - 1]);
        let ra = crate::state::overrides_for(a.drop_last(), key);
        let rb = crate::state::overrides_for(b.drop_last(), key);
        if a.last().server_key == key {
            assert forall|k: int| 0 <= k < ra.push(a.last()).len() implies {
                &&& (#[trigger] ra.push(a.last())[k]).server_key == rb.push(b.last())[k].server_key
                &&& ra.push(a.last())[k].yaml_index == rb.push(b.last())[k].yaml_index
                &&& (ra.push(a.last())[k].yaml_index != Some(i) ==> ra.push(a.last())[k] == rb.push(
                    b.last(),
                )[k])
            } by {
                if k < ra.len() {
                    assert(ra.push(a.last())[k] == ra[k]);
                    assert(rb.push(b.last())[k] == rb[k]);
                }
            }
        }
    }
}

proof fn lemma_differ_in_hiding_find(a: Seq<TunnelOverrideView>, b: Seq<TunnelOverrideView>, i: usize, n: nat)
    requires
        differ_in_hiding(a, b, i),
        n as usize != i,
    ensures
        crate::state::find_override(a, n) == crate::state::find_override(b, n),
    decreases a.len(),
{
    if a.len() > 0 {
        assert(differ_in_hiding(a.drop_last(), b.drop_last(), i)) by {
            assert forall|k: int| 0 <= k < a.drop_last().len() implies {
                &&& (#[trigger] a.drop_last()[k]).server_key == b.drop_last()[k].server_key
                &&& a.drop_last()[k].yaml_index == b.drop_last()[k].yaml_index
                &&& (a.drop_last()[k].yaml_index != Some(i) ==> a.drop_last()[k] == b.drop_last()[k])
            } by {
                assert(a.drop_last()[k] == a[k]);
                assert(b.drop_last()[k] == b[k]);
            }
        }
        lemma_differ_in_hiding_find(a.drop_last(), b.drop_last(), i, n);
        assert(a.last() == a[a.len() - 1]);
        assert(b.last() == b[b.len() - 1]);
    }
}

proof fn lemma_differ_in_hiding_users(a: Seq<TunnelOverrideView>, b: Seq<TunnelOverrideView>, i: usize)
    requires
        differ_in_hiding(a, b, i),
    ensures
        crate::state::user_overrides(a) == crate::state::user_overrides(b),
    decreases a.len(),
{
    if a.len() > 0 {
        assert(differ_in_hiding(a.drop_last(), b.drop_last(), i)) by {
            assert forall|k: int| 0 <= k < a.drop_last().len() implies {
                &&& (#[trigger] a.drop_last()[k]).server_key == b.drop_last()[k].server_key
                &&& a.drop_last()[k].yaml_index == b.drop_last()[k].yaml_index
                &&& (a.drop_last()[k].yaml_index != Some(i) ==> a.drop_last()[k] == b.drop_last()[k])
            } by {
                assert(a.drop_last()[k] == a[k]);
                assert(b.drop_last()[k] == b[k]);
            }
        }
        lemma_differ_in_hiding_users(a.drop_last(), b.drop_last(), i);
        assert(a.last() == a[a.len() - 1]);
        assert(b.last() == b[b.len() - 1]);
    }
}

/// With the same overrides for every configured tunnel but `i`, and `i`
/// hidden, the configured tunnels shown are the former ones without `i`.
proof fn lemma_effective_yaml_hide(yaml: Seq<TunnelView>, so: Seq<TunnelOverrideView>, so2: Seq<TunnelOverrideView>, i: usize)
    requires
        yaml.len() <= usize::MAX,
        forall|n: nat| n < yaml.len() && n as usize != i ==> #[trigger] crate::state::find_override(so2, n)
            == crate::state::find_override(so, n),
        i < yaml.len() ==> (crate::state::find_override(so2, i as nat) matches Some(o) && o.hidden),
    ensures
        crate::state::effective_yaml(yaml, so2) == without_configured(crate::state::effective_yaml(yaml, so), i),
    decreases yaml.len(),
{
    if yaml.len() == 0 {
    } else {
        let n = (yaml.len() - 1) as nat;
        lemma_effective_yaml_hide(yaml.drop_last(), so, so2, i);
        let prev = crate::state::effective_yaml(yaml.drop_last(), so);
        let e1 = crate::state::yaml_entry(yaml.last(), n, so);
        lemma_without_configured_concat(prev, e1, i);
        if n as usize == i {
            assert(n == i as nat);
            assert(crate::state::yaml_entry(yaml.last(), n, so2) =~= Seq::<EffectiveTunnelView>::empty());
            if e1.len() > 0 {
                assert(e1.drop_last() =~= Seq::<EffectiveTunnelView>::empty());
                assert(without_configured(e1.drop_last(), i) =~= Seq::<EffectiveTunnelView>::empty());
                assert(e1.last().yaml_index == Some(i));
            }
            assert(without_configured(e1, i) =~= Seq::<EffectiveTunnelView>::empty());
        } else {
            assert(crate::state::find_override(so2, n) == crate::state::find_override(so, n));
            assert forall|k: int| 0 <= k < e1.len() implies (#[trigger] e1[k]).yaml_index != Some(i) by {}
            lemma_without_configured_keeps(e1, i);
        }
        assert(crate::state::effective_yaml(yaml, so2) =~= crate::state::effective_yaml(yaml.drop_last(), so2)
            + crate::state::yaml_entry(yaml.last(), n, so2));
    }
}

/// Deleting configured tunnel `i` of a server leaves the tunnels shown for
/// that server as they were, less the one that stood for tunnel `i` (if it
/// was shown): every other configured tunnel keeps its place and its
/// override, and the tunnels the user added keep theirs.
pub proof fn lemma_remove_configured_tunnel(
    yaml: Seq<TunnelView>,
    key: Seq<char>,
    ovs: Seq<TunnelOverrideView>,
    i: usize,
    user_idx: nat,
)
    requires
        i < yaml.len() <= usize::MAX,
    ensures
        spec_effective_tunnels(yaml, key, spec_remove_override(ovs, key, Some(i), user_idx, yaml))
            == without_configured(spec_effective_tunnels(yaml, key, ovs), i),
{
    let nv = spec_remove_override(ovs, key, Some(i), user_idx, yaml);
    let so = crate::state::overrides_for(ovs, key);
    let so2 = crate::state::overrides_for(nv, key);
    let j = yaml_override_index(ovs, key, i, 0);
    lemma_yaml_index_range(ovs, key, i, 0);
    lemma_find_is_first(ovs, key, i);
    if j >= 0 {
        assert(differ_in_hiding(nv, ovs, i)) by {
            assert forall|k: int| 0 <= k < nv.len() implies {
                &&& (#[trigger] nv[k]).server_key == ovs[k].server_key
                &&& nv[k].yaml_index == ovs[k].yaml_index
                &&& (nv[k].yaml_index != Some(i) ==> nv[k] == ovs[k])
            } by {}
        }
        lemma_differ_in_hiding_for(nv, ovs, i, key);
        assert forall|n: nat| n < yaml.len() && n as usize != i implies #[trigger] crate::state::find_override(so2, n)
            == crate::state::find_override(so, n) by {
            lemma_differ_in_hiding_find(so2, so, i, n);
        }
        lemma_differ_in_hiding_users(so2, so, i);
        assert forall|k: int| 0 <= k < ovs.len() implies is_yaml_override(#[trigger] ovs[k], key, i)
            == is_yaml_override(nv[k], key, i) by {}
        lemma_yaml_index_same_marks(nv, ovs, key, i, 0);
        lemma_find_is_first(nv, key, i);
    } else {
        let o = new_override(key, Some(i), yaml[i as int], true);
        assert(nv == ovs.push(o));
        assert(ovs.push(o).drop_last() =~= ovs);
        assert(so2 == so.push(o));
        assert(so.push(o).drop_last() =~= so);
        assert forall|n: nat| n < yaml.len() && n as usize != i implies #[trigger] crate::state::find_override(so2, n)
            == crate::state::find_override(so, n) by {}
        assert(crate::state::user_overrides(so2) == crate::state::user_overrides(so));
        lemma_yaml_index_push(ovs, o, key, i, 0);
        lemma_find_is_first(nv, key, i);
        lemma_yaml_index_range(nv, key, i, 0);
    }
    lemma_effective_yaml_hide(yaml, so, so2, i);
    let us = crate::state::user_overrides(so);
    let eu = crate::state::effective_user(us);
    assert forall|k: int| 0 <= k < eu.len() implies (#[trigger] eu[k]).yaml_index != Some(i) by {}
    lemma_without_configured_keeps(eu, i);
    lemma_without_configured_concat(crate::state::effective_yaml(yaml, so), eu, i);
}

/// The tunnels added by the user to server `key` and not deleted, in order.
pub open spec fn users_of(ovs: Seq<TunnelOverrideView>, key: Seq<char>) -> Seq<TunnelOverrideView>
    decreases ovs.len(),
{
    if ovs.len() == 0 {
        seq![]
    } else {
        let r = users_of(ovs.drop_last(), key);
        if is_user_override(ovs.last(), key) {
            r.push(ovs.last())
        } else {
            r
        }
    }
}

proof fn lemma_users_of_is_user_overrides(ovs: Seq<TunnelOverrideView>, key: Seq<char>)
    ensures
        crate::state::user_overrides(crate::state::overrides_for(ovs, key)) == users_of(ovs, key),
    decreases ovs.len(),
{
    if ovs.len() > 0 {
        lemma_users_of_is_user_overrides(ovs.drop_last(), key);
        let r = crate::state::overrides_for(ovs.drop_last(), key);
        if ovs.last().server_key == key {
            assert(r.push(ovs.last()).drop_last() =~= r);
        }
    }
}

proof fn lemma_users_of_concat(a: Seq<TunnelOverrideView>, b: Seq<TunnelOverrideView>, key: Seq<char>)
    ensures
        users_of(a + b, key) == users_of(a, key) + users_of(b, key),
    decreases b.len(),
{
    if b.len() == 0 {
        assert(a + b =~= a);
        assert(users_of(a, key) + users_of(b, key) =~= users_of(a, key));
    } else {
        lemma_users_of_concat(a, b.drop_last(), key);
        assert((a + b).drop_last() =~= a + b.drop_last());
        assert((a + b).last() == b.last());
        if is_user_override(b.last(), key) {
            assert(users_of(a, key) + users_of(b.drop_last(), key).push(b.last()) =~= (users_of(a, key)
                + users_of(b.drop_last(), key)).push(b.last()));
        }
    }
}

proof fn lemma_users_of_one(x: TunnelOverrideView, key: Seq<char>)
    ensures
        users_of(seq![x], key) == (if is_user_override(x, key) {
            seq![x]
        } else {
            Seq::<TunnelOverrideView>::empty()
        }),
{
    let e = seq![x].drop_last();
    assert(e =~= Seq::<TunnelOverrideView>::empty());
    assert(users_of(e, key) =~= Seq::<TunnelOverrideView>::empty());
    assert(seq![x].last() == x);
    assert(Seq::<TunnelOverrideView>::empty().push(x) =~= seq![x]);
}

/// What `user_override_index` finds: the `n`-th tunnel added by the user
/// from `from` on, with `n` of them between `from` and it; none when there
/// are no more than `n`.
proof fn lemma_user_index_counts(ovs: Seq<TunnelOverrideView>, key: Seq<char>, n: nat, from: nat)
    requires
        from <= ovs.len(),
    ensures
        user_override_index(ovs, key, n, from) >= 0 ==> {
            let j = user_override_index(ovs, key, n, from);
            &&& from <= j < ovs.len()
            &&& is_user_override(ovs[j], key)
            &&& users_of(ovs.subrange(from as int, j), key).len() == n
        },
        user_override_index(ovs, key, n, from) < 0 ==> users_of(
            ovs.subrange(from as int, ovs.len() as int),
            key,
        ).len() <= n,
    decreases ovs.len() - from,
{
    if from == ovs.len() {
        assert(ovs.subrange(from as int, ovs.len() as int) =~= Seq::<TunnelOverrideView>::empty());
    } else {
        let x = ovs[from as int];
        lemma_users_of_one(x, key);
        let end = ovs.len() as int;
        assert(ovs.subrange(from as int, end) =~= seq![x] + ovs.subrange((from + 1) as int, end));
        lemma_users_of_concat(seq![x], ovs.subrange((from + 1) as int, end), key);
        if is_user_override(x, key) {
            if n == 0 {
                assert(ovs.subrange(from as int, from as int) =~= Seq::<TunnelOverrideView>::empty());
            } else {
                lemma_user_index_counts(ovs, key, (n - 1) as nat, from + 1);
                let j = user_override_index(ovs, key, (n - 1) as nat, from + 1);
                if j >= 0 {
                    assert(ovs.subrange(from as int, j) =~= seq![x] + ovs.subrange((from + 1) as int, j));
                    lemma_users_of_concat(seq![x], ovs.subrange((from + 1) as int, j), key);
                }
            }
        } else {
            lemma_user_index_counts(ovs, key, n, from + 1);
            let j = user_override_index(ovs, key, n, from + 1);
            if j >= 0 {
                assert(ovs.subrange(from as int, j) =~= seq![x] + ovs.subrange((from + 1) as int, j));
                lemma_users_of_concat(seq![x], ovs.subrange((from + 1) as int, j), key);
            }
        }
    }
}

proof fn lemma_overrides_for_concat(a: Seq<TunnelOverrideView>, b: Seq<TunnelOverrideView>, key: Seq<char>)
    ensures
        crate::state::overrides_for(a + b, key) == crate::state::overrides_for(a, key)
            + crate::state::overrides_for(b, key),
    decreases b.len(),
{
    if b.len() == 0 {
        assert(a + b =~= a);
        assert(crate::state::overrides_for(a, key) + crate::state::overrides_for(b, key)
            =~= crate::state::overrides_for(a, key));
    } else {
        lemma_overrides_for_concat(a, b.drop_last(), key);
        assert((a + b).drop_last() =~= a + b.drop_last());
        assert((a + b).last() == b.last());
        if b.last().server_key == key {
            assert(crate::state::overrides_for(a, key) + crate::state::overrides_for(b.drop_last(), key).push(
                b.last(),
            ) =~= (crate::state::overrides_for(a, key) + crate::state::overrides_for(b.drop_last(), key)).push(
                b.last(),
            ));
        }
    }
}

proof fn lemma_find_override_concat(a: Seq<TunnelOverrideView>, b: Seq<TunnelOverrideView>, n: nat)
    ensures
        crate::state::find_override(a + b, n) == (if crate::state::find_override(a, n) is Some {
            crate::state::find_override(a, n)
        } else {
            crate::state::find_override(b, n)
        }),
    decreases b.len(),
{
    if b.len() == 0 {
        assert(a + b =~= a);
    } else {
        lemma_find_override_concat(a, b.drop_last(), n);
        assert((a + b).drop_last() =~= a + b.drop_last());
        assert((a + b).last() == b.last());
    }
}

proof fn lemma_effective_yaml_same_finds(yaml: Seq<TunnelView>, so: Seq<TunnelOverrideView>, so2: Seq<TunnelOverrideView>)
    requires
        forall|n: nat| n < yaml.len() ==> #[trigger] crate::state::find_override(so2, n)
            == crate::state::find_override(so, n),
    ensures
        crate::state::effective_yaml(yaml, so2) == crate::state::effective_yaml(yaml, so),
    decreases yaml.len(),
{
    if yaml.len() > 0 {
        lemma_effective_yaml_same_finds(yaml.drop_last(), so, so2);
        let n = (yaml.len() - 1) as nat;
        assert(crate::state::find_override(so2, n) == crate::state::find_override(so, n));
    }
}

/// Deleting the `u`-th tunnel added by the user to a server takes it out of
/// that server's list: the configured tunnels shown stay as they were, and
/// the added tunnels are the others in their order, those after it
/// numbered one less. Without such a tunnel nothing changes.
pub proof fn lemma_remove_user_tunnel(yaml: Seq<TunnelView>, key: Seq<char>, ovs: Seq<TunnelOverrideView>, u: nat)
    ensures
        ({
            let so = crate::state::overrides_for(ovs, key);
            let us = crate::state::user_overrides(so);
            spec_effective_tunnels(yaml, key, spec_remove_override(ovs, key, None, u, yaml)) == if u
                < us.len() {
                crate::state::effective_yaml(yaml, so) + crate::state::effective_user(us.remove(u as int))
            } else {
                spec_effective_tunnels(yaml, key, ovs)
            }
        }),
{
    let so = crate::state::overrides_for(ovs, key);
    let us = crate::state::user_overrides(so);
    let nv = spec_remove_override(ovs, key, None, u, yaml);
    let j = user_override_index(ovs, key, u, 0);
    lemma_user_index_counts(ovs, key, u, 0);
    lemma_users_of_is_user_overrides(ovs, key);
    lemma_users_of_is_user_overrides(nv, key);
    assert(ovs.subrange(0, ovs.len() as int) =~= ovs);
    if j >= 0 {
        let a = ovs.subrange(0, j);
        let x = ovs[j];
        let b = ovs.subrange(j + 1, ovs.len() as int);
        assert(ovs =~= (a + seq![x]) + b);
        assert(nv =~= a + b);
        lemma_users_of_concat(a + seq![x], b, key);
        lemma_users_of_concat(a, seq![x], key);
        lemma_users_of_concat(a, b, key);
        lemma_users_of_one(x, key);
        assert(users_of(nv, key) =~= users_of(ovs, key).remove(u as int));
        lemma_overrides_for_concat(a + seq![x], b, key);
        lemma_overrides_for_concat(a, seq![x], key);
        lemma_overrides_for_concat(a, b, key);
        let fa = crate::state::overrides_for(a, key);
        let fb = crate::state::overrides_for(b, key);
        let fx = crate::state::overrides_for(seq![x], key);
        let e = seq![x].drop_last();
        assert(e =~= Seq::<TunnelOverrideView>::empty());
        assert(crate::state::overrides_for(e, key) =~= Seq::<TunnelOverrideView>::empty());
        assert(seq![x].last() == x);
        assert(x.server_key == key);
        assert(Seq::<TunnelOverrideView>::empty().push(x) =~= seq![x]);
        assert(fx =~= seq![x]);
        assert forall|n: nat| n < yaml.len() implies #[trigger] crate::state::find_override(
            crate::state::overrides_for(nv, key),
            n,
        ) == crate::state::find_override(so, n) by {
            lemma_find_override_concat(fa + fx, fb, n);
            lemma_find_override_concat(fa, fx, n);
            lemma_find_override_concat(fa, fb, n);
            assert(fx.drop_last() =~= Seq::<TunnelOverrideView>::empty());
            assert(crate::state::find_override(fx.drop_last(), n) is None);
            assert(crate::state::find_override(fx, n) is None);
        }
        lemma_effective_yaml_same_finds(yaml, so, crate::state::overrides_for(nv, key));
    } else {
        assert(nv == ovs);
    }
}

} // verus!
