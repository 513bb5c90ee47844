//! Persistent user state: expanded tree items, favorites, last connections
//! and tunnel overrides layered over the tunnels of the configuration.
use vstd::prelude::*;
use crate::config::{TunnelConfig, TunnelView};
use crate::text::views;
use crate::tree::seen_view;

verus! {

/// A user override of one tunnel of one server, kept in the state file so
/// that the configuration file itself is never modified.
#[derive(Debug)]
pub struct TunnelOverride {
    /// Key of the server (`[NS:{ns}:]Group:{g}[:Env:{e}]:Server:{name}`).
    pub server_key: String,
    /// Index of the tunnel in the server's configured list, or `None` for a
    /// tunnel added by the user.
    pub yaml_index: Option<usize>,
    /// The tunnel as the user left it.
    pub config: TunnelConfig,
    /// When true the tunnel is hidden (deleted by the user).
    pub hidden: bool,
}

pub struct TunnelOverrideView {
    pub server_key: Seq<char>,
    pub yaml_index: Option<usize>,
    pub config: TunnelView,
    pub hidden: bool,
}

impl View for TunnelOverride {
    type V = TunnelOverrideView;

    open spec fn view(&self) -> TunnelOverrideView {
        TunnelOverrideView {
            server_key: self.server_key@,
            yaml_index: self.yaml_index,
            config: self.config@,
            hidden: self.hidden,
        }
    }
}

impl Clone for TunnelOverride {
    fn clone(&self) -> (r: Self)
        ensures
            r@ == self@,
    {
        TunnelOverride {
            server_key: self.server_key.clone(),
            yaml_index: self.yaml_index,
            config: self.config.clone(),
            hidden: self.hidden,
        }
    }
}

/// A tunnel as the interface shows it: the configured one or its override.
#[derive(Debug)]
pub struct EffectiveTunnel {
    pub config: TunnelConfig,
    /// Index in the configured list, or `None` for a tunnel added by the user.
    pub yaml_index: Option<usize>,
    /// Position among the tunnels added by the user (when `yaml_index` is `None`).
    pub user_idx: usize,
    /// True when a user override exists for this tunnel.
    pub is_overridden: bool,
}

pub struct EffectiveTunnelView {
    pub config: TunnelView,
    pub yaml_index: Option<usize>,
    pub user_idx: usize,
    pub is_overridden: bool,
}

impl View for EffectiveTunnel {
    type V = EffectiveTunnelView;

    open spec fn view(&self) -> EffectiveTunnelView {
        EffectiveTunnelView {
            config: self.config@,
            yaml_index: self.yaml_index,
            user_idx: self.user_idx,
            is_overridden: self.is_overridden,
        }
    }
}

pub open spec fn overrides_view(v: Seq<TunnelOverride>) -> Seq<TunnelOverrideView> {
    v.map_values(|o: TunnelOverride| o@)
}

pub open spec fn effective_view(v: Seq<EffectiveTunnel>) -> Seq<EffectiveTunnelView> {
    v.map_values(|e: EffectiveTunnel| e@)
}

/// The overrides that belong to the server `key`, in their order.
pub open spec fn overrides_for(ovs: Seq<TunnelOverrideView>, key: Seq<char>) -> Seq<
    TunnelOverrideView,
>
    decreases ovs.len(),
{
    if ovs.len() == 0 {
        seq![]
    } else {
        let r = overrides_for(ovs.drop_last(), key);
        if ovs.last().server_key == key {
            r.push(ovs.last())
        } else {
            r
        }
    }
}

/// The first override of configured tunnel `i`, if any.
pub open spec fn find_override(so: Seq<TunnelOverrideView>, i: nat) -> Option<TunnelOverrideView>
    decreases so.len(),
{
    if so.len() == 0 {
        None
    } else {
        let r = find_override(so.drop_last(), i);
        if r is Some {
            r
        } else if so.last().yaml_index == Some(i as usize) {
            Some(so.last())
        } else {
            None
        }
    }
}

/// What configured tunnel `t`, at index `i`, becomes: hidden, overridden, or kept.
pub open spec fn yaml_entry(t: TunnelView, i: nat, so: Seq<TunnelOverrideView>) -> Seq<
    EffectiveTunnelView,
> {
    match find_override(so, i) {
        Some(o) => if o.hidden {
            seq![]
        } else {
            seq![
                EffectiveTunnelView {
                    config: o.config,
                    yaml_index: Some(i as usize),
                    user_idx: 0,
                    is_overridden: true,
                },
            ]
        },
        None => seq![
            EffectiveTunnelView {
                config: t,
                yaml_index: Some(i as usize),
                user_idx: 0,
                is_overridden: false,
            },
        ],
    }
}

pub open spec fn effective_yaml(yaml: Seq<TunnelView>, so: Seq<TunnelOverrideView>) -> Seq<
    EffectiveTunnelView,
>
    decreases yaml.len(),
{
    if yaml.len() == 0 {
        seq![]
    } else {
        effective_yaml(yaml.drop_last(), so) + yaml_entry(
            yaml.last(),
            (yaml.len() - 1) as nat,
            so,
        )
    }
}

/// The tunnels added by the user and not deleted since, in their order.
pub open spec fn user_overrides(so: Seq<TunnelOverrideView>) -> Seq<TunnelOverrideView>
    decreases so.len(),
{
    if so.len() == 0 {
        seq![]
    } else {
        let r = user_overrides(so.drop_last());
        if so.last().yaml_index is None && !so.last().hidden {
            r.push(so.last())
        } else {
            r
        }
    }
}

pub open spec fn effective_user(us: Seq<TunnelOverrideView>) -> Seq<EffectiveTunnelView> {
    Seq::new(
        us.len(),
        |k: int|
            EffectiveTunnelView {
                config: us[k].config,
                yaml_index: None,
                user_idx: k as usize,
                is_overridden: true,
            },
    )
}

/// The tunnels of a server: its configured tunnels, each replaced or hidden by
/// its first override, followed by those the user added.
pub open spec fn spec_effective_tunnels(
    yaml: Seq<TunnelView>,
    key: Seq<char>,
    ovs: Seq<TunnelOverrideView>,
) -> Seq<EffectiveTunnelView> {
    let so = overrides_for(ovs, key);
    effective_yaml(yaml, so) + effective_user(user_overrides(so))
}

fn find_override_exec(so: &Vec<TunnelOverride>, i: usize) -> (r: Option<usize>)
    ensures
        match r {
            Some(j) => j < so@.len() && find_override(overrides_view(so@), i as nat) == Some(
                so@[j as int]@,
            ),
            None => find_override(overrides_view(so@), i as nat) is None,
        },
{
    let ghost sv = overrides_view(so@);
    let mut j: usize = 0;
    while j < so.len()
        invariant
            j <= so@.len(),
            sv == overrides_view(so@),
            find_override(sv.take(j as int), i as nat) is None,
        decreases so@.len() - j,
    {
        assert(sv.take(j + 1).drop_last() =~= sv.take(j as int));
        if so[j].yaml_index == Some(i) {
            assert(sv.take(j + 1).last() == so@[j as int]@);
            proof {
                lemma_find_override_prefix(sv, i as nat, j + 1);
            }
            return Some(j);
        }
        j += 1;
    }
    assert(sv.take(j as int) =~= sv);
    None
}

/// Once found in a prefix, the first override stays the first one.
proof fn lemma_find_override_prefix(so: Seq<TunnelOverrideView>, i: nat, k: int)
    requires
        0 <= k <= so.len(),
        find_override(so.take(k), i) is Some,
    ensures
        find_override(so, i) == find_override(so.take(k), i),
    decreases so.len() - k,
{
    if k < so.len() {
        assert(so.take(k + 1).drop_last() =~= so.take(k));
        lemma_find_override_prefix(so, i, k + 1);
    } else {
        assert(so.take(k) =~= so);
    }
}

/// Merges the configured tunnels of a server with the user's overrides:
/// an override of configured tunnel `i` replaces it (or hides it when
/// `hidden`), and the tunnels the user added (not hidden) follow, numbered
/// from 0. Overrides of other servers are ignored.
pub fn effective_tunnels_for(
    yaml_tunnels: &Vec<TunnelConfig>,
    server_key: &str,
    overrides: &Vec<TunnelOverride>,
) -> (r: Vec<EffectiveTunnel>)
    ensures
        effective_view(r@) == spec_effective_tunnels(
            crate::config::tunnels_view(yaml_tunnels@),
            server_key@,
            overrides_view(overrides@),
        ),
{
    let ghost ov = overrides_view(overrides@);
    let mut so: Vec<TunnelOverride> = Vec::new();
    let mut k: usize = 0;
    while k < overrides.len()
        invariant
            k <= overrides@.len(),
            ov == overrides_view(overrides@),
            overrides_view(so@) == overrides_for(ov.take(k as int), server_key@),
        decreases overrides@.len() - k,
    {
        assert(ov.take(k + 1).drop_last() =~= ov.take(k as int));
        if crate::text::str_eq(overrides[k].server_key.as_str(), server_key) {
            so.push(overrides[k].clone());
            assert(overrides_view(so@) =~= overrides_for(ov.take(k + 1), server_key@));
        }
        k += 1;
    }
    assert(ov.take(k as int) =~= ov);
    let ghost sov = overrides_view(so@);
    let ghost yv = crate::config::tunnels_view(yaml_tunnels@);

    let mut result: Vec<EffectiveTunnel> = Vec::new();
    let mut i: usize = 0;
    while i < yaml_tunnels.len()
        invariant
            i <= yaml_tunnels@.len(),
            sov == overrides_view(so@),
            yv == crate::config::tunnels_view(yaml_tunnels@),
            effective_view(result@) == effective_yaml(yv.take(i as int), sov),
        decreases yaml_tunnels@.len() - i,
    {
        assert(yv.take(i + 1).drop_last() =~= yv.take(i as int));
        let ghost before = effective_view(result@);
        match find_override_exec(&so, i) {
            Some(j) => {
                if !so[j].hidden {
                    result.push(
                        EffectiveTunnel {
                            config: so[j].config.clone(),
                            yaml_index: Some(i),
                            user_idx: 0,
                            is_overridden: true,
                        },
                    );
                }
            },
            None => {
                result.push(
                    EffectiveTunnel {
                        config: yaml_tunnels[i].clone(),
                        yaml_index: Some(i),
                        user_idx: 0,
                        is_overridden: false,
                    },
                );
            },
        }
        assert(effective_view(result@) =~= before + yaml_entry(yv[i as int], i as nat, sov));
        i += 1;
    }
    assert(yv.take(i as int) =~= yv);

    let ghost yaml_part = effective_view(result@);
    let mut user_idx: usize = 0;
    let mut m: usize = 0;
    while m < so.len()
        invariant
            m <= so@.len(),
            sov == overrides_view(so@),
            user_idx == user_overrides(sov.take(m as int)).len(),
            user_idx <= m,
            effective_view(result@) == yaml_part + effective_user(
                user_overrides(sov.take(m as int)),
            ),
        decreases so@.len() - m,
    {
        assert(sov.take(m + 1).drop_last() =~= sov.take(m as int));
        let ghost us = user_overrides(sov.take(m as int));
        let ghost before = effective_view(result@);
        if so[m].yaml_index.is_none() && !so[m].hidden {
            assert(user_overrides(sov.take(m + 1)) == us.push(sov[m as int]));
            result.push(
                EffectiveTunnel {
                    config: so[m].config.clone(),
                    yaml_index: None,
                    user_idx,
                    is_overridden: true,
                },
            );
            assert(effective_user(us.push(sov[m as int])) =~= effective_user(us).push(
                EffectiveTunnelView {
                    config: sov[m as int].config,
                    yaml_index: None,
                    user_idx: us.len() as usize,
                    is_overridden: true,
                },
            ));
            assert(effective_view(result@) =~= before.push(
                EffectiveTunnelView {
                    config: sov[m as int].config,
                    yaml_index: None,
                    user_idx: us.len() as usize,
                    is_overridden: true,
                },
            ));
            user_idx += 1;
        } else {
            assert(user_overrides(sov.take(m + 1)) == us);
        }
        assert(effective_view(result@) =~= yaml_part + effective_user(
            user_overrides(sov.take(m + 1)),
        ));
        m += 1;
    }
    assert(sov.take(m as int) =~= sov);
    result
}

/// What the application keeps between runs.
#[derive(Debug, Default)]
pub struct AppState {
    /// Keys of the expanded groups and environments (`Group:foo`, `Env:foo:bar`), a set.
    pub expanded_items: Vec<String>,
    /// Time (Unix seconds) of the last successful connection, by server key.
    pub last_seen: Vec<(String, u64)>,
    /// Keys of the favorite servers, a set.
    pub favorites: Vec<String>,
    /// When true the tree is a flat list, most recent connection first.
    pub sort_by_recent: bool,
    /// The user's tunnel overrides, layered over the configured tunnels.
    pub tunnel_overrides: Vec<TunnelOverride>,
}

/// The keys of a list of pairs, in order.
pub open spec fn pair_keys<V>(s: Seq<(Seq<char>, V)>) -> Seq<Seq<char>> {
    s.map_values(|p: (Seq<char>, V)| p.0)
}

/// Changing the value at a key keeps the keys.
pub proof fn lemma_pair_keys_update<V>(s: Seq<(Seq<char>, V)>, i: int, v: (Seq<char>, V))
    requires
        0 <= i < s.len(),
        v.0 == s[i].0,
    ensures
        pair_keys(s.update(i, v)) == pair_keys(s),
{
    assert(pair_keys(s.update(i, v)) =~= pair_keys(s));
}

/// Adding a pair under a key that is not there keeps the keys distinct.
pub proof fn lemma_pair_keys_push<V>(s: Seq<(Seq<char>, V)>, v: (Seq<char>, V))
    requires
        pair_keys(s).no_duplicates(),
        forall|j: int| 0 <= j < s.len() ==> (#[trigger] s[j]).0 != v.0,
    ensures
        pair_keys(s.push(v)).no_duplicates(),
{
    let k = pair_keys(s.push(v));
    assert(k =~= pair_keys(s).push(v.0));
    assert forall|a: int, b: int| 0 <= a < k.len() && 0 <= b < k.len() && a != b implies k[a] != k[b] by {
        if a < s.len() && b < s.len() {
            assert(k[a] == pair_keys(s)[a] && k[b] == pair_keys(s)[b]);
        } else if a == s.len() {
            assert(k[b] == s[b].0);
        } else {
            assert(k[a] == s[a].0);
        }
    }
}

impl AppState {
    /// The sets hold each item once and the last connections each server
    /// once, as the sets and the map they stand for.
    pub open spec fn wf(&self) -> bool {
        &&& views(self.expanded_items@).no_duplicates()
        &&& views(self.favorites@).no_duplicates()
        &&& pair_keys(seen_view(self.last_seen@)).no_duplicates()
    }
}

// ─── Laws ────────────────────────────────────────────────────────────────────

/// Without overrides, a server's tunnels are its configured ones, each at
/// its index and marked as not overridden.
pub proof fn lemma_no_overrides(yaml: Seq<TunnelView>, key: Seq<char>)
    ensures
        spec_effective_tunnels(yaml, key, seq![]).len() == yaml.len(),
        forall|i: int|
            0 <= i < yaml.len() ==> #[trigger] spec_effective_tunnels(yaml, key, seq![])[i]
                == (EffectiveTunnelView {
                config: yaml[i],
                yaml_index: Some(i as usize),
                user_idx: 0,
                is_overridden: false,
            }),
{
    let so = overrides_for(seq![], key);
    assert(so =~= Seq::<TunnelOverrideView>::empty());
    assert(user_overrides(so) =~= Seq::<TunnelOverrideView>::empty());
    assert(effective_user(user_overrides(so)) =~= Seq::<EffectiveTunnelView>::empty());
    lemma_effective_yaml_plain(yaml, so);
    assert(spec_effective_tunnels(yaml, key, seq![]) =~= effective_yaml(yaml, so));
}

proof fn lemma_effective_yaml_plain(yaml: Seq<TunnelView>, so: Seq<TunnelOverrideView>)
    requires
        so.len() == 0,
    ensures
        effective_yaml(yaml, so).len() == yaml.len(),
        forall|i: int|
            0 <= i < yaml.len() ==> #[trigger] effective_yaml(yaml, so)[i] == (EffectiveTunnelView {
                config: yaml[i],
                yaml_index: Some(i as usize),
                user_idx: 0,
                is_overridden: false,
            }),
    decreases yaml.len(),
{
    if yaml.len() > 0 {
        lemma_effective_yaml_plain(yaml.drop_last(), so);
        let n = yaml.len() - 1;
        assert(find_override(so, n as nat) is None);
        assert forall|i: int| 0 <= i < yaml.len() implies #[trigger] effective_yaml(yaml, so)[i]
            == (EffectiveTunnelView {
            config: yaml[i],
            yaml_index: Some(i as usize),
            user_idx: 0,
            is_overridden: false,
        }) by {
            if i < n {
                assert(effective_yaml(yaml, so)[i] == effective_yaml(yaml.drop_last(), so)[i]);
                assert(yaml.drop_last()[i] == yaml[i]);
            }
        }
    }
}

/// Overrides that belong to other servers change nothing.
pub proof fn lemma_other_server_overrides_ignored(
    yaml: Seq<TunnelView>,
    key: Seq<char>,
    ovs: Seq<TunnelOverrideView>,
    o: TunnelOverrideView,
)
    requires
        o.server_key != key,
    ensures
        spec_effective_tunnels(yaml, key, ovs.push(o)) == spec_effective_tunnels(yaml, key, ovs),
{
    assert(ovs.push(o).drop_last() =~= ovs);
}

/// Every tunnel shown comes from the configuration or from an override of
/// this server that is not hidden; the tunnels the user added are numbered
/// 0, 1, ... in their order.
pub proof fn lemma_user_tunnels_numbered(
    yaml: Seq<TunnelView>,
    key: Seq<char>,
    ovs: Seq<TunnelOverrideView>,
    k: int,
)
    requires
        0 <= k < user_overrides(overrides_for(ovs, key)).len(),
    ensures
        ({
            let r = spec_effective_tunnels(yaml, key, ovs);
            let y = effective_yaml(yaml, overrides_for(ovs, key)).len();
            &&& r[y + k].user_idx == k as usize
            &&& r[y + k].yaml_index is None
            &&& r[y + k].is_overridden
            &&& !user_overrides(overrides_for(ovs, key))[k].hidden
        }),
{
    let so = overrides_for(ovs, key);
    let us = user_overrides(so);
    let y = effective_yaml(yaml, so);
    lemma_user_overrides_visible(so);
    assert(spec_effective_tunnels(yaml, key, ovs)[y.len() + k] == effective_user(us)[k]);
    assert(!us[k].hidden);
}

proof fn lemma_user_overrides_visible(so: Seq<TunnelOverrideView>)
    ensures
        forall|k: int|
            0 <= k < user_overrides(so).len() ==> !(#[trigger] user_overrides(so)[k]).hidden
                && user_overrides(so)[k].yaml_index is None,
    decreases so.len(),
{
    if so.len() > 0 {
        lemma_user_overrides_visible(so.drop_last());
        let r = user_overrides(so.drop_last());
        assert forall|k: int| 0 <= k < user_overrides(so).len() implies !(
        #[trigger] user_overrides(so)[k]).hidden && user_overrides(so)[k].yaml_index is None by {
            if k < r.len() {
                assert(user_overrides(so)[k] == r[k]);
            }
        }
    }
}

} // verus!
