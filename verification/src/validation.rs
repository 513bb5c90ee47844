//! Checking the keys of a configuration file against the schema: every key
//! that the schema does not know is reported with the place where it stands.
use vstd::prelude::*;
use crate::config::ValidationWarning;
use crate::text::{decimal_seq, push_char, push_str, str_eq, u64_to_string};

verus! {

/// A YAML value, as far as the key check reads it.
pub enum YamlNode {
    /// Null, a boolean, a number or a tagged value.
    Scalar,
    Text(String),
    Sequence(Vec<YamlNode>),
    /// The pairs of a mapping in file order; a key that is not a string is `None`.
    Mapping(Vec<(Option<String>, YamlNode)>),
}

pub struct WarningView {
    pub file: Seq<char>,
    pub context: Seq<char>,
    pub field: Seq<char>,
}

pub open spec fn warning_view(w: ValidationWarning) -> WarningView {
    WarningView { file: w.file@, context: w.context@, field: w.field@ }
}

pub open spec fn warnings_view(v: Seq<ValidationWarning>) -> Seq<WarningView> {
    v.map_values(|w: ValidationWarning| warning_view(w))
}

// ─── The schema ──────────────────────────────────────────────────────────────

pub open spec fn root_keys() -> Seq<&'static str> {
    seq!["defaults", "groups", "includes", "_vars"]
}

pub open spec fn defaults_keys() -> Seq<&'static str> {
    seq![
        "user",
        "ssh_key",
        "mode",
        "ssh_port",
        "ssh_options",
        "wallix",
        "jump",
        "use_system_ssh_config",
        "theme",
        "probe_filesystems",
        "keep_open",
        "tunnels",
        "default_filter",
        "tags",
        "control_master",
        "control_path",
        "control_persist",
        "pre_connect_hook",
        "post_disconnect_hook",
        "hook_timeout_secs",
    ]
}

pub open spec fn include_keys() -> Seq<&'static str> {
    seq!["label", "path", "merge_defaults"]
}

pub open spec fn server_keys() -> Seq<&'static str> {
    seq![
        "name",
        "host",
        "user",
        "ssh_key",
        "ssh_port",
        "ssh_options",
        "mode",
        "wallix",
        "jump",
        "probe_filesystems",
        "tunnels",
        "tags",
    ]
}

pub open spec fn group_keys() -> Seq<&'static str> {
    seq![
        "name",
        "user",
        "ssh_key",
        "mode",
        "ssh_port",
        "ssh_options",
        "wallix",
        "jump",
        "environments",
        "servers",
        "probe_filesystems",
        "tunnels",
        "tags",
    ]
}

pub open spec fn env_keys() -> Seq<&'static str> {
    seq![
        "name",
        "user",
        "ssh_key",
        "mode",
        "ssh_port",
        "ssh_options",
        "wallix",
        "jump",
        "servers",
        "probe_filesystems",
        "tunnels",
        "tags",
    ]
}

/// `k` is one of the names of `known`.
pub open spec fn is_known(known: Seq<&'static str>, k: Seq<char>) -> bool {
    exists|i: int| 0 <= i < known.len() && (#[trigger] known[i])@ == k
}

// ─── Reading a mapping ───────────────────────────────────────────────────────

pub open spec fn key_is(k: Option<String>, key: Seq<char>) -> bool {
    match k {
        Some(s) => s@ == key,
        None => false,
    }
}

/// Position of the first pair from `i` on whose key is `key`, or -1.
pub open spec fn key_index_from(es: Seq<(Option<String>, YamlNode)>, key: Seq<char>, i: nat) -> int
    decreases es.len() - i,
{
    if i >= es.len() {
        -1
    } else if key_is(es[i as int].0, key) {
        i as int
    } else {
        key_index_from(es, key, i + 1)
    }
}

/// The value under `key` (the first pair with that key).
pub open spec fn lookup(es: Seq<(Option<String>, YamlNode)>, key: Seq<char>) -> Option<YamlNode> {
    let i = key_index_from(es, key, 0);
    if 0 <= i < es.len() {
        Some(es[i].1)
    } else {
        None
    }
}

pub proof fn lemma_key_index(es: Seq<(Option<String>, YamlNode)>, key: Seq<char>, i: nat)
    ensures
        -1 <= key_index_from(es, key, i) < es.len(),
        key_index_from(es, key, i) >= 0 ==> key_index_from(es, key, i) >= i && key_is(
            es[key_index_from(es, key, i)].0,
            key,
        ),
        forall|j: int| i <= j < es.len() && key_is(#[trigger] es[j].0, key) ==> 0 <= key_index_from(
            es,
            key,
            i,
        ) <= j,
    decreases es.len() - i,
{
    if i < es.len() && !key_is(es[i as int].0, key) {
        lemma_key_index(es, key, i + 1);
    }
}

/// The key `key` is present.
pub open spec fn has_key(es: Seq<(Option<String>, YamlNode)>, key: Seq<char>) -> bool {
    lookup(es, key) is Some
}

// ─── The warnings ────────────────────────────────────────────────────────────

/// `base[j]`.
pub open spec fn at_index(base: Seq<char>, j: nat) -> Seq<char> {
    base + seq!['['] + decimal_seq(j) + seq![']']
}

/// One warning per key of `es` (in order) that is a string outside `known`.
pub open spec fn unknown_keys(
    es: Seq<(Option<String>, YamlNode)>,
    known: Seq<&'static str>,
    file: Seq<char>,
    ctx: Seq<char>,
) -> Seq<WarningView>
    decreases es.len(),
{
    if es.len() == 0 {
        seq![]
    } else {
        let prev = unknown_keys(es.drop_last(), known, file, ctx);
        match es.last().0 {
            Some(k) => if is_known(known, k@) {
                prev
            } else {
                prev.push(WarningView { file, context: ctx, field: k@ })
            },
            None => prev,
        }
    }
}

/// Warnings of a server or group entry: a mapping with `host` and without
/// `environments` is a server; any other mapping is a group, whose
/// environments and servers are checked in turn.
pub open spec fn entry_warnings(node: YamlNode, file: Seq<char>, ctx: Seq<char>) -> Seq<WarningView>
    decreases node, 0nat,
{
    match node {
        YamlNode::Mapping(m) => {
            let es = m@;
            proof {
                lemma_key_index(es, "environments"@, 0);
                lemma_key_index(es, "servers"@, 0);
            }
            if has_key(es, "host"@) && !has_key(es, "environments"@) {
                unknown_keys(es, server_keys(), file, ctx)
            } else {
                unknown_keys(es, group_keys(), file, ctx) + (match lookup(es, "environments"@) {
                    Some(YamlNode::Sequence(envs)) => envs_warnings(
                        envs,
                        file,
                        ctx + ".environments"@,
                        envs@.len(),
                    ),
                    _ => seq![],
                }) + (match lookup(es, "servers"@) {
                    Some(YamlNode::Sequence(svs)) => entries_warnings(
                        svs,
                        file,
                        ctx + ".servers"@,
                        svs@.len(),
                    ),
                    _ => seq![],
                })
            }
        },
        _ => seq![],
    }
}

/// Warnings of the first `n` entries of a list, the `j`-th at `base[j]`.
pub open spec fn entries_warnings(list: Vec<YamlNode>, file: Seq<char>, base: Seq<char>, n: nat) -> Seq<
    WarningView,
>
    decreases list, n,
{
    if n == 0 || n > list.len() {
        seq![]
    } else {
        entries_warnings(list, file, base, (n - 1) as nat) + entry_warnings(
            list[n - 1],
            file,
            at_index(base, (n - 1) as nat),
        )
    }
}

/// Warnings of an environment: its own keys, then its servers.
pub open spec fn env_warnings(env: YamlNode, file: Seq<char>, ctx: Seq<char>) -> Seq<WarningView>
    decreases env, 0nat,
{
    match env {
        YamlNode::Mapping(m) => {
            let es = m@;
            proof {
                lemma_key_index(es, "servers"@, 0);
            }
            unknown_keys(es, env_keys(), file, ctx) + (match lookup(es, "servers"@) {
                Some(YamlNode::Sequence(svs)) => entries_warnings(svs, file, ctx + ".servers"@, svs@.len()),
                _ => seq![],
            })
        },
        _ => seq![],
    }
}

/// Warnings of the first `n` environments of a list, the `j`-th at `base[j]`.
pub open spec fn envs_warnings(list: Vec<YamlNode>, file: Seq<char>, base: Seq<char>, n: nat) -> Seq<
    WarningView,
>
    decreases list, n,
{
    if n == 0 || n > list.len() {
        seq![]
    } else {
        envs_warnings(list, file, base, (n - 1) as nat) + env_warnings(
            list[n - 1],
            file,
            at_index(base, (n - 1) as nat),
        )
    }
}

/// Warnings of the first `n` includes, the `j`-th at `includes[j]`.
pub open spec fn includes_warnings(list: Seq<YamlNode>, file: Seq<char>, n: nat) -> Seq<WarningView>
    decreases n,
{
    if n == 0 || n > list.len() {
        seq![]
    } else {
        includes_warnings(list, file, (n - 1) as nat) + (match list[n - 1] {
            YamlNode::Mapping(m) => unknown_keys(
                m@,
                include_keys(),
                file,
                at_index("includes"@, (n - 1) as nat),
            ),
            _ => seq![],
        })
    }
}

/// All the warnings of a file: the keys of the root, of `defaults`, of each
/// include and of each entry of `groups`, in that order. A root that is not a
/// mapping gives none.
pub open spec fn spec_validate(root: YamlNode, file: Seq<char>) -> Seq<WarningView> {
    match root {
        YamlNode::Mapping(m) => {
            let es = m@;
            unknown_keys(es, root_keys(), file, "root"@) + (match lookup(es, "defaults"@) {
                Some(YamlNode::Mapping(d)) => unknown_keys(d@, defaults_keys(), file, "defaults"@),
                _ => seq![],
            }) + (match lookup(es, "includes"@) {
                Some(YamlNode::Sequence(incs)) => includes_warnings(incs@, file, incs@.len()),
                _ => seq![],
            }) + (match lookup(es, "groups"@) {
                Some(YamlNode::Sequence(gs)) => entries_warnings(gs, file, "groups"@, gs@.len()),
                _ => seq![],
            })
        },
        _ => seq![],
    }
}

// ─── Checking ────────────────────────────────────────────────────────────────

fn root_keys_vec() -> (v: Vec<&'static str>)
    ensures
        v@ == root_keys(),
{
    vec!["defaults", "groups", "includes", "_vars"]
}

fn defaults_keys_vec() -> (v: Vec<&'static str>)
    ensures
        v@ == defaults_keys(),
{
    vec![
        "user",
        "ssh_key",
        "mode",
        "ssh_port",
        "ssh_options",
        "wallix",
        "jump",
        "use_system_ssh_config",
        "theme",
        "probe_filesystems",
        "keep_open",
        "tunnels",
        "default_filter",
        "tags",
        "control_master",
        "control_path",
        "control_persist",
        "pre_connect_hook",
        "post_disconnect_hook",
        "hook_timeout_secs",
    ]
}

fn include_keys_vec() -> (v: Vec<&'static str>)
    ensures
        v@ == include_keys(),
{
    vec!["label", "path", "merge_defaults"]
}

fn server_keys_vec() -> (v: Vec<&'static str>)
    ensures
        v@ == server_keys(),
{
    vec![
        "name",
        "host",
        "user",
        "ssh_key",
        "ssh_port",
        "ssh_options",
        "mode",
        "wallix",
        "jump",
        "probe_filesystems",
        "tunnels",
        "tags",
    ]
}

fn group_keys_vec() -> (v: Vec<&'static str>)
    ensures
        v@ == group_keys(),
{
    vec![
        "name",
        "user",
        "ssh_key",
        "mode",
        "ssh_port",
        "ssh_options",
        "wallix",
        "jump",
        "environments",
        "servers",
        "probe_filesystems",
        "tunnels",
        "tags",
    ]
}

fn env_keys_vec() -> (v: Vec<&'static str>)
    ensures
        v@ == env_keys(),
{
    vec![
        "name",
        "user",
        "ssh_key",
        "mode",
        "ssh_port",
        "ssh_options",
        "wallix",
        "jump",
        "servers",
        "probe_filesystems",
        "tunnels",
        "tags",
    ]
}

fn is_known_exec(known: &Vec<&'static str>, k: &str) -> (r: bool)
    ensures
        r == is_known(known@, k@),
{
    let mut j: usize = 0;
    while j < known.len()
        invariant
            j <= known@.len(),
            forall|m: int| 0 <= m < j ==> (#[trigger] known@[m])@ != k@,
        decreases known@.len() - j,
    {
        if str_eq(known[j], k) {
            assert(known@[j as int]@ == k@);
            return true;
        }
        j += 1;
    }
    false
}

fn key_index(es: &Vec<(Option<String>, YamlNode)>, key: &str) -> (r: Option<usize>)
    ensures
        match r {
            Some(i) => i < es@.len() && key_index_from(es@, key@, 0) == i,
            None => key_index_from(es@, key@, 0) == -1,
        },
{
    let mut i: usize = 0;
    while i < es.len()
        invariant
            i <= es@.len(),
            forall|j: int| 0 <= j < i ==> !key_is(#[trigger] es@[j].0, key@),
        decreases es@.len() - i,
    {
        let hit = match &es[i].0 {
            Some(k) => str_eq(k.as_str(), key),
            None => false,
        };
        if hit {
            proof {
                lemma_key_index(es@, key@, 0);
                assert(key_is(es@[i as int].0, key@));
            }
            return Some(i);
        }
        i += 1;
    }
    proof {
        lemma_key_index(es@, key@, 0);
    }
    None
}

fn at_index_exec(base: &str, j: usize) -> (r: String)
    ensures
        r@ == at_index(base@, j as nat),
{
    let mut r = String::from_str(base);
    push_char(&mut r, '[');
    let d = u64_to_string(j as u64);
    push_str(&mut r, d.as_str());
    push_char(&mut r, ']');
    r
}

fn with_suffix(ctx: &str, suffix: &str) -> (r: String)
    ensures
        r@ == ctx@ + suffix@,
{
    let mut r = String::from_str(ctx);
    push_str(&mut r, suffix);
    r
}

fn push_unknown_keys(
    es: &Vec<(Option<String>, YamlNode)>,
    known: &Vec<&'static str>,
    file: &str,
    ctx: &str,
    out: &mut Vec<ValidationWarning>,
)
    ensures
        warnings_view(final(out)@) == warnings_view(old(out)@) + unknown_keys(es@, known@, file@, ctx@),
{
    let ghost start = warnings_view(out@);
    let mut i: usize = 0;
    while i < es.len()
        invariant
            i <= es@.len(),
            warnings_view(out@) == start + unknown_keys(es@.take(i as int), known@, file@, ctx@),
        decreases es@.len() - i,
    {
        assert(es@.take(i + 1).drop_last() =~= es@.take(i as int));
        assert(es@.take(i + 1).last() == es@[i as int]);
        match &es[i].0 {
            Some(k) => {
                if !is_known_exec(known, k.as_str()) {
                    let ghost before = warnings_view(out@);
                    let w = ValidationWarning {
                        file: String::from_str(file),
                        context: String::from_str(ctx),
                        field: k.clone(),
                    };
                    out.push(w);
                    assert(warnings_view(out@) =~= before.push(warning_view(w)));
                }
            },
            None => {},
        }
        i += 1;
    }
    assert(es@.take(i as int) =~= es@);
}

fn push_entry(node: &YamlNode, file: &str, ctx: &str, out: &mut Vec<ValidationWarning>)
    ensures
        warnings_view(final(out)@) == warnings_view(old(out)@) + entry_warnings(*node, file@, ctx@),
    decreases node,
{
    match node {
        YamlNode::Mapping(m) => {
            let host = key_index(m, "host");
            let envs_at = key_index(m, "environments");
            proof {
                lemma_key_index(m@, "environments"@, 0);
                lemma_key_index(m@, "servers"@, 0);
                lemma_key_index(m@, "host"@, 0);
            }
            if host.is_some() && envs_at.is_none() {
                let known = server_keys_vec();
                push_unknown_keys(m, &known, file, ctx, out);
            } else {
                let ghost start = warnings_view(out@);
                let known = group_keys_vec();
                push_unknown_keys(m, &known, file, ctx, out);
                let ghost after_keys = warnings_view(out@);
                let ghost env_part = match lookup(m@, "environments"@) {
                    Some(YamlNode::Sequence(envs)) => envs_warnings(
                        envs,
                        file@,
                        ctx@ + ".environments"@,
                        envs@.len(),
                    ),
                    _ => seq![],
                };
                match envs_at {
                    Some(i) => match &m[i].1 {
                        YamlNode::Sequence(envs) => {
                            let base = with_suffix(ctx, ".environments");
                            push_envs(envs, file, base.as_str(), out);
                        },
                        _ => {},
                    },
                    None => {},
                }
                assert(warnings_view(out@) == after_keys + env_part);
                let ghost after_envs = warnings_view(out@);
                let ghost srv_part = match lookup(m@, "servers"@) {
                    Some(YamlNode::Sequence(svs)) => entries_warnings(
                        svs,
                        file@,
                        ctx@ + ".servers"@,
                        svs@.len(),
                    ),
                    _ => seq![],
                };
                let servers_at = key_index(m, "servers");
                match servers_at {
                    Some(i) => match &m[i].1 {
                        YamlNode::Sequence(svs) => {
                            let base = with_suffix(ctx, ".servers");
                            push_entries(svs, file, base.as_str(), out);
                        },
                        _ => {},
                    },
                    None => {},
                }
                assert(warnings_view(out@) == after_envs + srv_part);
                assert(warnings_view(out@) =~= start + (unknown_keys(
                    m@,
                    group_keys(),
                    file@,
                    ctx@,
                ) + env_part + srv_part));
            }
        },
        _ => {
            assert(warnings_view(out@) =~= warnings_view(old(out)@) + entry_warnings(
                *node,
                file@,
                ctx@,
            ));
        },
    }
}

fn push_entries(list: &Vec<YamlNode>, file: &str, base: &str, out: &mut Vec<ValidationWarning>)
    ensures
        warnings_view(final(out)@) == warnings_view(old(out)@) + entries_warnings(
            *list,
            file@,
            base@,
            list@.len(),
        ),
    decreases list,
{
    let ghost start = warnings_view(out@);
    let mut j: usize = 0;
    assert(warnings_view(out@) =~= start + entries_warnings(*list, file@, base@, 0));
    while j < list.len()
        invariant
            j <= list@.len(),
            warnings_view(out@) == start + entries_warnings(*list, file@, base@, j as nat),
        decreases list@.len() - j,
    {
        let ctx = at_index_exec(base, j);
        let ghost before = warnings_view(out@);
        push_entry(&list[j], file, ctx.as_str(), out);
        assert(warnings_view(out@) =~= start + entries_warnings(*list, file@, base@, (j + 1) as nat));
        j += 1;
    }
}

fn push_env(env: &YamlNode, file: &str, ctx: &str, out: &mut Vec<ValidationWarning>)
    ensures
        warnings_view(final(out)@) == warnings_view(old(out)@) + env_warnings(*env, file@, ctx@),
    decreases env,
{
    match env {
        YamlNode::Mapping(m) => {
            proof {
                lemma_key_index(m@, "servers"@, 0);
            }
            let ghost start = warnings_view(out@);
            let known = env_keys_vec();
            push_unknown_keys(m, &known, file, ctx, out);
            let ghost after_keys = warnings_view(out@);
            let ghost srv_part = match lookup(m@, "servers"@) {
                Some(YamlNode::Sequence(svs)) => entries_warnings(
                    svs,
                    file@,
                    ctx@ + ".servers"@,
                    svs@.len(),
                ),
                _ => seq![],
            };
            let servers_at = key_index(m, "servers");
            match servers_at {
                Some(i) => match &m[i].1 {
                    YamlNode::Sequence(svs) => {
                        let base = with_suffix(ctx, ".servers");
                        push_entries(svs, file, base.as_str(), out);
                    },
                    _ => {},
                },
                None => {},
            }
            assert(warnings_view(out@) == after_keys + srv_part);
            assert(warnings_view(out@) =~= start + (unknown_keys(m@, env_keys(), file@, ctx@)
                + srv_part));
        },
        _ => {
            assert(warnings_view(out@) =~= warnings_view(old(out)@) + env_warnings(
                *env,
                file@,
                ctx@,
            ));
        },
    }
}

fn push_envs(list: &Vec<YamlNode>, file: &str, base: &str, out: &mut Vec<ValidationWarning>)
    ensures
        warnings_view(final(out)@) == warnings_view(old(out)@) + envs_warnings(
            *list,
            file@,
            base@,
            list@.len(),
        ),
    decreases list,
{
    let ghost start = warnings_view(out@);
    let mut j: usize = 0;
    assert(warnings_view(out@) =~= start + envs_warnings(*list, file@, base@, 0));
    while j < list.len()
        invariant
            j <= list@.len(),
            warnings_view(out@) == start + envs_warnings(*list, file@, base@, j as nat),
        decreases list@.len() - j,
    {
        let ctx = at_index_exec(base, j);
        push_env(&list[j], file, ctx.as_str(), out);
        assert(warnings_view(out@) =~= start + envs_warnings(*list, file@, base@, (j + 1) as nat));
        j += 1;
    }
}

fn push_includes(list: &Vec<YamlNode>, file: &str, out: &mut Vec<ValidationWarning>)
    ensures
        warnings_view(final(out)@) == warnings_view(old(out)@) + includes_warnings(
            list@,
            file@,
            list@.len(),
        ),
{
    let ghost start = warnings_view(out@);
    let known = include_keys_vec();
    let mut j: usize = 0;
    assert(warnings_view(out@) =~= start + includes_warnings(list@, file@, 0));
    while j < list.len()
        invariant
            j <= list@.len(),
            known@ == include_keys(),
            warnings_view(out@) == start + includes_warnings(list@, file@, j as nat),
        decreases list@.len() - j,
    {
        match &list[j] {
            YamlNode::Mapping(m) => {
                let ctx = at_index_exec("includes", j);
                push_unknown_keys(m, &known, file, ctx.as_str(), out);
            },
            _ => {},
        }
        assert(warnings_view(out@) =~= start + includes_warnings(list@, file@, (j + 1) as nat));
        j += 1;
    }
}

/// Checks the keys of a parsed configuration file (see `spec_validate`);
/// `file_path` names the file in the warnings.
pub fn validate_yaml(root: &YamlNode, file_path: &str) -> (r: Vec<ValidationWarning>)
    ensures
        warnings_view(r@) == spec_validate(*root, file_path@),
{
    let mut out: Vec<ValidationWarning> = Vec::new();
    assert(warnings_view(out@) =~= Seq::<WarningView>::empty());
    match root {
        YamlNode::Mapping(m) => {
            proof {
                lemma_key_index(m@, "defaults"@, 0);
                lemma_key_index(m@, "includes"@, 0);
                lemma_key_index(m@, "groups"@, 0);
            }
            let known = root_keys_vec();
            push_unknown_keys(m, &known, file_path, "root", &mut out);
            let ghost p1 = warnings_view(out@);
            match key_index(m, "defaults") {
                Some(i) => match &m[i].1 {
                    YamlNode::Mapping(d) => {
                        let dk = defaults_keys_vec();
                        push_unknown_keys(d, &dk, file_path, "defaults", &mut out);
                    },
                    _ => {},
                },
                None => {},
            }
            let ghost p2 = warnings_view(out@);
            match key_index(m, "includes") {
                Some(i) => match &m[i].1 {
                    YamlNode::Sequence(incs) => {
                        push_includes(incs, file_path, &mut out);
                    },
                    _ => {},
                },
                None => {},
            }
            let ghost p3 = warnings_view(out@);
            match key_index(m, "groups") {
                Some(i) => match &m[i].1 {
                    YamlNode::Sequence(gs) => {
                        push_entries(gs, file_path, "groups", &mut out);
                    },
                    _ => {},
                },
                None => {},
            }
            assert(warnings_view(out@) =~= spec_validate(*root, file_path@));
        },
        _ => {},
    }
    out
}

// ─── Laws ────────────────────────────────────────────────────────────────────

/// The warnings for the keys of one mapping are exactly its string keys
/// outside the schema, in order, each at the place `ctx` of file `file`.
pub proof fn lemma_unknown_keys_exact(
    es: Seq<(Option<String>, YamlNode)>,
    known: Seq<&'static str>,
    file: Seq<char>,
    ctx: Seq<char>,
)
    ensures
        forall|w: int|
            0 <= w < unknown_keys(es, known, file, ctx).len() ==> {
                let u = #[trigger] unknown_keys(es, known, file, ctx)[w];
                &&& u.file == file
                &&& u.context == ctx
                &&& !is_known(known, u.field)
                &&& exists|j: int| 0 <= j < es.len() && key_is(es[j].0, u.field)
            },
        forall|j: int|
            0 <= j < es.len() && (#[trigger] es[j]).0 is Some && !is_known(known, es[j].0.unwrap()@)
                ==> exists|w: int|
                0 <= w < unknown_keys(es, known, file, ctx).len() && unknown_keys(es, known, file, ctx)[w].field
                    == es[j].0.unwrap()@,
    decreases es.len(),
{
    if es.len() > 0 {
        let t = es.drop_last();
        lemma_unknown_keys_exact(t, known, file, ctx);
        let prev = unknown_keys(t, known, file, ctx);
        let cur = unknown_keys(es, known, file, ctx);
        assert forall|w: int| 0 <= w < cur.len() implies {
            let u = #[trigger] cur[w];
            &&& u.file == file
            &&& u.context == ctx
            &&& !is_known(known, u.field)
            &&& exists|j: int| 0 <= j < es.len() && key_is(es[j].0, u.field)
        } by {
            if w < prev.len() {
                assert(cur[w] == prev[w]);
                let j = choose|j: int| 0 <= j < t.len() && key_is(t[j].0, prev[w].field);
                assert(es[j] == t[j]);
            } else {
                assert(key_is(es[es.len() - 1].0, cur[w].field));
            }
        }
        assert forall|j: int|
            0 <= j < es.len() && (#[trigger] es[j]).0 is Some && !is_known(known, es[j].0.unwrap()@)
                implies exists|w: int| 0 <= w < cur.len() && cur[w].field == es[j].0.unwrap()@ by {
            if j < t.len() {
                assert(t[j] == es[j]);
                let w = choose|w: int| 0 <= w < prev.len() && prev[w].field == t[j].0.unwrap()@;
                assert(cur[w] == prev[w]);
            } else {
                assert(cur[cur.len() - 1].field == es[j].0.unwrap()@);
            }
        }
    }
}

/// Every warning of `ws` names `file`.
pub open spec fn all_in_file(ws: Seq<WarningView>, file: Seq<char>) -> bool {
    forall|i: int| 0 <= i < ws.len() ==> (#[trigger] ws[i]).file == file
}

proof fn lemma_in_file_concat(a: Seq<WarningView>, b: Seq<WarningView>, file: Seq<char>)
    requires
        all_in_file(a, file),
        all_in_file(b, file),
    ensures
        all_in_file(a + b, file),
{
    assert forall|i: int| 0 <= i < (a + b).len() implies (#[trigger] (a + b)[i]).file == file by {
        if i < a.len() {
            assert((a + b)[i] == a[i]);
        } else {
            assert((a + b)[i] == b[i - a.len()]);
        }
    }
}

proof fn lemma_unknown_in_file(es: Seq<(Option<String>, YamlNode)>, known: Seq<&'static str>, file: Seq<char>, ctx: Seq<char>)
    ensures
        all_in_file(unknown_keys(es, known, file, ctx), file),
{
    lemma_unknown_keys_exact(es, known, file, ctx);
}

proof fn lemma_entry_in_file(node: YamlNode, file: Seq<char>, ctx: Seq<char>)
    ensures
        all_in_file(entry_warnings(node, file, ctx), file),
    decreases node, 0nat,
{
    match node {
        YamlNode::Mapping(m) => {
            let es = m@;
            lemma_key_index(es, "environments"@, 0);
            lemma_key_index(es, "servers"@, 0);
            lemma_unknown_in_file(es, server_keys(), file, ctx);
            lemma_unknown_in_file(es, group_keys(), file, ctx);
            let a = match lookup(es, "environments"@) {
                Some(YamlNode::Sequence(envs)) => {
                    lemma_envs_in_file(envs, file, ctx + ".environments"@, envs@.len());
                    envs_warnings(envs, file, ctx + ".environments"@, envs@.len())
                },
                _ => seq![],
            };
            let b = match lookup(es, "servers"@) {
                Some(YamlNode::Sequence(svs)) => {
                    lemma_entries_in_file(svs, file, ctx + ".servers"@, svs@.len());
                    entries_warnings(svs, file, ctx + ".servers"@, svs@.len())
                },
                _ => seq![],
            };
            lemma_in_file_concat(unknown_keys(es, group_keys(), file, ctx), a, file);
            lemma_in_file_concat(unknown_keys(es, group_keys(), file, ctx) + a, b, file);
        },
        _ => {},
    }
}

proof fn lemma_entries_in_file(list: Vec<YamlNode>, file: Seq<char>, base: Seq<char>, n: nat)
    ensures
        all_in_file(entries_warnings(list, file, base, n), file),
    decreases list, n,
{
    if n > 0 && n <= list.len() {
        lemma_entries_in_file(list, file, base, (n - 1) as nat);
        lemma_entry_in_file(list[n - 1], file, at_index(base, (n - 1) as nat));
        lemma_in_file_concat(
            entries_warnings(list, file, base, (n - 1) as nat),
            entry_warnings(list[n - 1], file, at_index(base, (n - 1) as nat)),
            file,
        );
    }
}

proof fn lemma_env_in_file(env: YamlNode, file: Seq<char>, ctx: Seq<char>)
    ensures
        all_in_file(env_warnings(env, file, ctx), file),
    decreases env, 0nat,
{
    match env {
        YamlNode::Mapping(m) => {
            let es = m@;
            lemma_key_index(es, "servers"@, 0);
            lemma_unknown_in_file(es, env_keys(), file, ctx);
            let b = match lookup(es, "servers"@) {
                Some(YamlNode::Sequence(svs)) => {
                    lemma_entries_in_file(svs, file, ctx + ".servers"@, svs@.len());
                    entries_warnings(svs, file, ctx + ".servers"@, svs@.len())
                },
                _ => seq![],
            };
            lemma_in_file_concat(unknown_keys(es, env_keys(), file, ctx), b, file);
        },
        _ => {},
    }
}

proof fn lemma_envs_in_file(list: Vec<YamlNode>, file: Seq<char>, base: Seq<char>, n: nat)
    ensures
        all_in_file(envs_warnings(list, file, base, n), file),
    decreases list, n,
{
    if n > 0 && n <= list.len() {
        lemma_envs_in_file(list, file, base, (n - 1) as nat);
        lemma_env_in_file(list[n - 1], file, at_index(base, (n - 1) as nat));
        lemma_in_file_concat(
            envs_warnings(list, file, base, (n - 1) as nat),
            env_warnings(list[n - 1], file, at_index(base, (n - 1) as nat)),
            file,
        );
    }
}

proof fn lemma_includes_in_file(list: Seq<YamlNode>, file: Seq<char>, n: nat)
    ensures
        all_in_file(includes_warnings(list, file, n), file),
    decreases n,
{
    if n > 0 && n <= list.len() {
        lemma_includes_in_file(list, file, (n - 1) as nat);
        let last = match list[n - 1] {
            YamlNode::Mapping(m) => {
                lemma_unknown_in_file(m@, include_keys(), file, at_index("includes"@, (n - 1) as nat));
                unknown_keys(m@, include_keys(), file, at_index("includes"@, (n - 1) as nat))
            },
            _ => seq![],
        };
        lemma_in_file_concat(includes_warnings(list, file, (n - 1) as nat), last, file);
    }
}

/// Every warning of a file names that file.
pub proof fn lemma_warnings_name_the_file(root: YamlNode, file: Seq<char>)
    ensures
        all_in_file(spec_validate(root, file), file),
{
    match root {
        YamlNode::Mapping(m) => {
            let es = m@;
            lemma_key_index(es, "defaults"@, 0);
            lemma_key_index(es, "includes"@, 0);
            lemma_key_index(es, "groups"@, 0);
            lemma_unknown_in_file(es, root_keys(), file, "root"@);
            let a = match lookup(es, "defaults"@) {
                Some(YamlNode::Mapping(d)) => {
                    lemma_unknown_in_file(d@, defaults_keys(), file, "defaults"@);
                    unknown_keys(d@, defaults_keys(), file, "defaults"@)
                },
                _ => seq![],
            };
            let b = match lookup(es, "includes"@) {
                Some(YamlNode::Sequence(incs)) => {
                    lemma_includes_in_file(incs@, file, incs@.len());
                    includes_warnings(incs@, file, incs@.len())
                },
                _ => seq![],
            };
            let c = match lookup(es, "groups"@) {
                Some(YamlNode::Sequence(gs)) => {
                    lemma_entries_in_file(gs, file, "groups"@, gs@.len());
                    entries_warnings(gs, file, "groups"@, gs@.len())
                },
                _ => seq![],
            };
            let r = unknown_keys(es, root_keys(), file, "root"@);
            lemma_in_file_concat(r, a, file);
            lemma_in_file_concat(r + a, b, file);
            lemma_in_file_concat(r + a + b, c, file);
        },
        _ => {},
    }
}

/// How a warning reads: `{file} ({context}): champ inconnu « {field} »`.
pub open spec fn warning_text(w: WarningView) -> Seq<char> {
    w.file + " ("@ + w.context + "): champ inconnu « "@ + w.field + " »"@
}

impl ValidationWarning {
    /// The text of the warning, as shown to the user.
    pub fn message(&self) -> (r: String)
        ensures
            r@ == warning_text(warning_view(*self)),
    {
        let mut r = self.file.clone();
        push_str(&mut r, " (");
        push_str(&mut r, self.context.as_str());
        push_str(&mut r, "): champ inconnu « ");
        push_str(&mut r, self.field.as_str());
        push_str(&mut r, " »");
        assert(r@ =~= warning_text(warning_view(*self)));
        r
    }
}


/// The fields of a server entry, as the `Server` type reads them.
pub open spec fn is_server_field(k: Seq<char>) -> bool {
    k == "name"@ || k == "host"@ || k == "user"@ || k == "ssh_key"@ || k == "ssh_port"@ || k == "ssh_options"@ || k == "mode"@ || k == "wallix"@ || k == "jump"@ || k == "probe_filesystems"@ || k == "tunnels"@ || k == "tags"@
}

/// The fields of a group entry, as the `Group` type reads them.
pub open spec fn is_group_field(k: Seq<char>) -> bool {
    k == "name"@ || k == "user"@ || k == "ssh_key"@ || k == "mode"@ || k == "ssh_port"@ || k == "ssh_options"@ || k == "wallix"@ || k == "jump"@ || k == "environments"@ || k == "servers"@ || k == "probe_filesystems"@ || k == "tunnels"@ || k == "tags"@
}

/// The fields of an environment, as the `Environment` type reads them.
pub open spec fn is_env_field(k: Seq<char>) -> bool {
    k == "name"@ || k == "user"@ || k == "ssh_key"@ || k == "mode"@ || k == "ssh_port"@ || k == "ssh_options"@ || k == "wallix"@ || k == "jump"@ || k == "servers"@ || k == "probe_filesystems"@ || k == "tunnels"@ || k == "tags"@
}

/// The names that the schema knows for this part of a file are exactly
/// its fields.
pub proof fn lemma_server_field_known(k: Seq<char>)
    ensures
        is_known(server_keys(), k) <==> is_server_field(k),
{
    if k == "name"@ {
        assert(server_keys()[0]@ == k);
    }
    if k == "host"@ {
        assert(server_keys()[1]@ == k);
    }
    if k == "user"@ {
        assert(server_keys()[2]@ == k);
    }
    if k == "ssh_key"@ {
        assert(server_keys()[3]@ == k);
    }
    if k == "ssh_port"@ {
        assert(server_keys()[4]@ == k);
    }
    if k == "ssh_options"@ {
        assert(server_keys()[5]@ == k);
    }
    if k == "mode"@ {
        assert(server_keys()[6]@ == k);
    }
    if k == "wallix"@ {
        assert(server_keys()[7]@ == k);
    }
    if k == "jump"@ {
        assert(server_keys()[8]@ == k);
    }
    if k == "probe_filesystems"@ {
        assert(server_keys()[9]@ == k);
    }
    if k == "tunnels"@ {
        assert(server_keys()[10]@ == k);
    }
    if k == "tags"@ {
        assert(server_keys()[11]@ == k);
    }
    if is_known(server_keys(), k) {
        let i = choose|i: int| 0 <= i < server_keys().len() && (#[trigger] server_keys()[i])@ == k;
        if i == 0 {
            assert(server_keys()[0]@ == "name"@);
        }
        if i == 1 {
            assert(server_keys()[1]@ == "host"@);
        }
        if i == 2 {
            assert(server_keys()[2]@ == "user"@);
        }
        if i == 3 {
            assert(server_keys()[3]@ == "ssh_key"@);
        }
        if i == 4 {
            assert(server_keys()[4]@ == "ssh_port"@);
        }
        if i == 5 {
            assert(server_keys()[5]@ == "ssh_options"@);
        }
        if i == 6 {
            assert(server_keys()[6]@ == "mode"@);
        }
        if i == 7 {
            assert(server_keys()[7]@ == "wallix"@);
        }
        if i == 8 {
            assert(server_keys()[8]@ == "jump"@);
        }
        if i == 9 {
            assert(server_keys()[9]@ == "probe_filesystems"@);
        }
        if i == 10 {
            assert(server_keys()[10]@ == "tunnels"@);
        }
        if i == 11 {
            assert(server_keys()[11]@ == "tags"@);
        }
    }
}

/// The names that the schema knows for this part of a file are exactly
/// its fields.
pub proof fn lemma_group_field_known(k: Seq<char>)
    ensures
        is_known(group_keys(), k) <==> is_group_field(k),
{
    if k == "name"@ {
        assert(group_keys()[0]@ == k);
    }
    if k == "user"@ {
        assert(group_keys()[1]@ == k);
    }
    if k == "ssh_key"@ {
        assert(group_keys()[2]@ == k);
    }
    if k == "mode"@ {
        assert(group_keys()[3]@ == k);
    }
    if k == "ssh_port"@ {
        assert(group_keys()[4]@ == k);
    }
    if k == "ssh_options"@ {
        assert(group_keys()[5]@ == k);
    }
    if k == "wallix"@ {
        assert(group_keys()[6]@ == k);
    }
    if k == "jump"@ {
        assert(group_keys()[7]@ == k);
    }
    if k == "environments"@ {
        assert(group_keys()[8]@ == k);
    }
    if k == "servers"@ {
        assert(group_keys()[9]@ == k);
    }
    if k == "probe_filesystems"@ {
        assert(group_keys()[10]@ == k);
    }
    if k == "tunnels"@ {
        assert(group_keys()[11]@ == k);
    }
    if k == "tags"@ {
        assert(group_keys()[12]@ == k);
    }
    if is_known(group_keys(), k) {
        let i = choose|i: int| 0 <= i < group_keys().len() && (#[trigger] group_keys()[i])@ == k;
        if i == 0 {
            assert(group_keys()[0]@ == "name"@);
        }
        if i == 1 {
            assert(group_keys()[1]@ == "user"@);
        }
        if i == 2 {
            assert(group_keys()[2]@ == "ssh_key"@);
        }
        if i == 3 {
            assert(group_keys()[3]@ == "mode"@);
        }
        if i == 4 {
            assert(group_keys()[4]@ == "ssh_port"@);
        }
        if i == 5 {
            assert(group_keys()[5]@ == "ssh_options"@);
        }
        if i == 6 {
            assert(group_keys()[6]@ == "wallix"@);
        }
        if i == 7 {
            assert(group_keys()[7]@ == "jump"@);
        }
        if i == 8 {
            assert(group_keys()[8]@ == "environments"@);
        }
        if i == 9 {
            assert(group_keys()[9]@ == "servers"@);
        }
        if i == 10 {
            assert(group_keys()[10]@ == "probe_filesystems"@);
        }
        if i == 11 {
            assert(group_keys()[11]@ == "tunnels"@);
        }
        if i == 12 {
            assert(group_keys()[12]@ == "tags"@);
        }
    }
}

/// The names that the schema knows for this part of a file are exactly
/// its fields.
pub proof fn lemma_env_field_known(k: Seq<char>)
    ensures
        is_known(env_keys(), k) <==> is_env_field(k),
{
    if k == "name"@ {
        assert(env_keys()[0]@ == k);
    }
    if k == "user"@ {
        assert(env_keys()[1]@ == k);
    }
    if k == "ssh_key"@ {
        assert(env_keys()[2]@ == k);
    }
    if k == "mode"@ {
        assert(env_keys()[3]@ == k);
    }
    if k == "ssh_port"@ {
        assert(env_keys()[4]@ == k);
    }
    if k == "ssh_options"@ {
        assert(env_keys()[5]@ == k);
    }
    if k == "wallix"@ {
        assert(env_keys()[6]@ == k);
    }
    if k == "jump"@ {
        assert(env_keys()[7]@ == k);
    }
    if k == "servers"@ {
        assert(env_keys()[8]@ == k);
    }
    if k == "probe_filesystems"@ {
        assert(env_keys()[9]@ == k);
    }
    if k == "tunnels"@ {
        assert(env_keys()[10]@ == k);
    }
    if k == "tags"@ {
        assert(env_keys()[11]@ == k);
    }
    if is_known(env_keys(), k) {
        let i = choose|i: int| 0 <= i < env_keys().len() && (#[trigger] env_keys()[i])@ == k;
        if i == 0 {
            assert(env_keys()[0]@ == "name"@);
        }
        if i == 1 {
            assert(env_keys()[1]@ == "user"@);
        }
        if i == 2 {
            assert(env_keys()[2]@ == "ssh_key"@);
        }
        if i == 3 {
            assert(env_keys()[3]@ == "mode"@);
        }
        if i == 4 {
            assert(env_keys()[4]@ == "ssh_port"@);
        }
        if i == 5 {
            assert(env_keys()[5]@ == "ssh_options"@);
        }
        if i == 6 {
            assert(env_keys()[6]@ == "wallix"@);
        }
        if i == 7 {
            assert(env_keys()[7]@ == "jump"@);
        }
        if i == 8 {
            assert(env_keys()[8]@ == "servers"@);
        }
        if i == 9 {
            assert(env_keys()[9]@ == "probe_filesystems"@);
        }
        if i == 10 {
            assert(env_keys()[10]@ == "tunnels"@);
        }
        if i == 11 {
            assert(env_keys()[11]@ == "tags"@);
        }
    }
}

/// A mapping whose string keys are all known gives no warning for its keys.
pub proof fn lemma_known_keys_silent(
    es: Seq<(Option<String>, YamlNode)>,
    known: Seq<&'static str>,
    file: Seq<char>,
    ctx: Seq<char>,
)
    requires
        forall|j: int| 0 <= j < es.len() && (#[trigger] es[j]).0 is Some ==> is_known(known, es[j].0.unwrap()@),
    ensures
        unknown_keys(es, known, file, ctx) == Seq::<WarningView>::empty(),
    decreases es.len(),
{
    if es.len() > 0 {
        assert forall|j: int| 0 <= j < es.drop_last().len() && (#[trigger] es.drop_last()[j]).0 is Some
            implies is_known(known, es.drop_last()[j].0.unwrap()@) by {
            assert(es.drop_last()[j] == es[j]);
        }
        lemma_known_keys_silent(es.drop_last(), known, file, ctx);
        assert(es.last() == es[es.len() - 1]);
    }
}

/// A server entry (a mapping with `host` and without `environments`)
/// whose keys are all fields of a server gives no warning.
pub proof fn lemma_server_fields_accepted(m: Vec<(Option<String>, YamlNode)>, file: Seq<char>, ctx: Seq<char>)
    requires
        has_key(m@, "host"@),
        !has_key(m@, "environments"@),
        forall|j: int| 0 <= j < m@.len() && (#[trigger] m@[j]).0 is Some ==> is_server_field(m@[j].0.unwrap()@),
    ensures
        entry_warnings(YamlNode::Mapping(m), file, ctx) == Seq::<WarningView>::empty(),
{
    assert forall|j: int| 0 <= j < m@.len() && (#[trigger] m@[j]).0 is Some implies is_known(
        server_keys(),
        m@[j].0.unwrap()@,
    ) by {
        lemma_server_field_known(m@[j].0.unwrap()@);
    }
    lemma_known_keys_silent(m@, server_keys(), file, ctx);
}

/// A group entry (a mapping without `host`, or with `environments`) whose
/// keys are all fields of a group, without environments or servers to look
/// into, gives no warning.
pub proof fn lemma_group_fields_accepted(m: Vec<(Option<String>, YamlNode)>, file: Seq<char>, ctx: Seq<char>)
    requires
        !has_key(m@, "host"@) || has_key(m@, "environments"@),
        !has_key(m@, "environments"@),
        !has_key(m@, "servers"@),
        forall|j: int| 0 <= j < m@.len() && (#[trigger] m@[j]).0 is Some ==> is_group_field(m@[j].0.unwrap()@),
    ensures
        entry_warnings(YamlNode::Mapping(m), file, ctx) == Seq::<WarningView>::empty(),
{
    assert forall|j: int| 0 <= j < m@.len() && (#[trigger] m@[j]).0 is Some implies is_known(
        group_keys(),
        m@[j].0.unwrap()@,
    ) by {
        lemma_group_field_known(m@[j].0.unwrap()@);
    }
    lemma_known_keys_silent(m@, group_keys(), file, ctx);
    assert(Seq::<WarningView>::empty() + Seq::<WarningView>::empty() + Seq::<WarningView>::empty()
        =~= Seq::<WarningView>::empty());
}

/// An environment whose keys are all fields of an environment, without
/// servers to look into, gives no warning.
pub proof fn lemma_env_fields_accepted(m: Vec<(Option<String>, YamlNode)>, file: Seq<char>, ctx: Seq<char>)
    requires
        !has_key(m@, "servers"@),
        forall|j: int| 0 <= j < m@.len() && (#[trigger] m@[j]).0 is Some ==> is_env_field(m@[j].0.unwrap()@),
    ensures
        env_warnings(YamlNode::Mapping(m), file, ctx) == Seq::<WarningView>::empty(),
{
    assert forall|j: int| 0 <= j < m@.len() && (#[trigger] m@[j]).0 is Some implies is_known(
        env_keys(),
        m@[j].0.unwrap()@,
    ) by {
        lemma_env_field_known(m@[j].0.unwrap()@);
    }
    lemma_known_keys_silent(m@, env_keys(), file, ctx);
    assert(Seq::<WarningView>::empty() + Seq::<WarningView>::empty() =~= Seq::<WarningView>::empty());
}


/// The fields of the root of a file, as the `Config` type reads them.
pub open spec fn is_root_field(k: Seq<char>) -> bool {
    k == "defaults"@ || k == "groups"@ || k == "includes"@ || k == "_vars"@
}

/// The fields of `defaults`, as the `Defaults` type reads them.
pub open spec fn is_defaults_field(k: Seq<char>) -> bool {
    k == "user"@ || k == "ssh_key"@ || k == "mode"@ || k == "ssh_port"@ || k == "ssh_options"@ || k == "wallix"@ || k == "jump"@ || k == "use_system_ssh_config"@ || k == "theme"@ || k == "probe_filesystems"@ || k == "keep_open"@ || k == "tunnels"@ || k == "default_filter"@ || k == "tags"@ || k == "control_master"@ || k == "control_path"@ || k == "control_persist"@ || k == "pre_connect_hook"@ || k == "post_disconnect_hook"@ || k == "hook_timeout_secs"@
}

/// The fields of an include, as the `IncludeEntry` type reads them.
pub open spec fn is_include_field(k: Seq<char>) -> bool {
    k == "label"@ || k == "path"@ || k == "merge_defaults"@
}

/// The names that the schema knows for this part of a file are exactly
/// its fields.
pub proof fn lemma_root_field_known(k: Seq<char>)
    ensures
        is_known(root_keys(), k) <==> is_root_field(k),
{
    if k == "defaults"@ {
        assert(root_keys()[0]@ == k);
    }
    if k == "groups"@ {
        assert(root_keys()[1]@ == k);
    }
    if k == "includes"@ {
        assert(root_keys()[2]@ == k);
    }
    if k == "_vars"@ {
        assert(root_keys()[3]@ == k);
    }
    if is_known(root_keys(), k) {
        let i = choose|i: int| 0 <= i < root_keys().len() && (#[trigger] root_keys()[i])@ == k;
        if i == 0 {
            assert(root_keys()[0]@ == "defaults"@);
        }
        if i == 1 {
            assert(root_keys()[1]@ == "groups"@);
        }
        if i == 2 {
            assert(root_keys()[2]@ == "includes"@);
        }
        if i == 3 {
            assert(root_keys()[3]@ == "_vars"@);
        }
    }
}

/// The names that the schema knows for this part of a file are exactly
/// its fields.
pub proof fn lemma_defaults_field_known(k: Seq<char>)
    ensures
        is_known(defaults_keys(), k) <==> is_defaults_field(k),
{
    if k == "user"@ {
        assert(defaults_keys()[0]@ == k);
    }
    if k == "ssh_key"@ {
        assert(defaults_keys()[1]@ == k);
    }
    if k == "mode"@ {
        assert(defaults_keys()[2]@ == k);
    }
    if k == "ssh_port"@ {
        assert(defaults_keys()[3]@ == k);
    }
    if k == "ssh_options"@ {
        assert(defaults_keys()[4]@ == k);
    }
    if k == "wallix"@ {
        assert(defaults_keys()[5]@ == k);
    }
    if k == "jump"@ {
        assert(defaults_keys()[6]@ == k);
    }
    if k == "use_system_ssh_config"@ {
        assert(defaults_keys()[7]@ == k);
    }
    if k == "theme"@ {
        assert(defaults_keys()[8]@ == k);
    }
    if k == "probe_filesystems"@ {
        assert(defaults_keys()[9]@ == k);
    }
    if k == "keep_open"@ {
        assert(defaults_keys()[10]@ == k);
    }
    if k == "tunnels"@ {
        assert(defaults_keys()[11]@ == k);
    }
    if k == "default_filter"@ {
        assert(defaults_keys()[12]@ == k);
    }
    if k == "tags"@ {
        assert(defaults_keys()[13]@ == k);
    }
    if k == "control_master"@ {
        assert(defaults_keys()[14]@ == k);
    }
    if k == "control_path"@ {
        assert(defaults_keys()[15]@ == k);
    }
    if k == "control_persist"@ {
        assert(defaults_keys()[16]@ == k);
    }
    if k == "pre_connect_hook"@ {
        assert(defaults_keys()[17]@ == k);
    }
    if k == "post_disconnect_hook"@ {
        assert(defaults_keys()[18]@ == k);
    }
    if k == "hook_timeout_secs"@ {
        assert(defaults_keys()[19]@ == k);
    }
    if is_known(defaults_keys(), k) {
        let i = choose|i: int| 0 <= i < defaults_keys().len() && (#[trigger] defaults_keys()[i])@ == k;
        if i == 0 {
            assert(defaults_keys()[0]@ == "user"@);
        }
        if i == 1 {
            assert(defaults_keys()[1]@ == "ssh_key"@);
        }
        if i == 2 {
            assert(defaults_keys()[2]@ == "mode"@);
        }
        if i == 3 {
            assert(defaults_keys()[3]@ == "ssh_port"@);
        }
        if i == 4 {
            assert(defaults_keys()[4]@ == "ssh_options"@);
        }
        if i == 5 {
            assert(defaults_keys()[5]@ == "wallix"@);
        }
        if i == 6 {
            assert(defaults_keys()[6]@ == "jump"@);
        }
        if i == 7 {
            assert(defaults_keys()[7]@ == "use_system_ssh_config"@);
        }
        if i == 8 {
            assert(defaults_keys()[8]@ == "theme"@);
        }
        if i == 9 {
            assert(defaults_keys()[9]@ == "probe_filesystems"@);
        }
        if i == 10 {
            assert(defaults_keys()[10]@ == "keep_open"@);
        }
        if i == 11 {
            assert(defaults_keys()[11]@ == "tunnels"@);
        }
        if i == 12 {
            assert(defaults_keys()[12]@ == "default_filter"@);
        }
        if i == 13 {
            assert(defaults_keys()[13]@ == "tags"@);
        }
        if i == 14 {
            assert(defaults_keys()[14]@ == "control_master"@);
        }
        if i == 15 {
            assert(defaults_keys()[15]@ == "control_path"@);
        }
        if i == 16 {
            assert(defaults_keys()[16]@ == "control_persist"@);
        }
        if i == 17 {
            assert(defaults_keys()[17]@ == "pre_connect_hook"@);
        }
        if i == 18 {
            assert(defaults_keys()[18]@ == "post_disconnect_hook"@);
        }
        if i == 19 {
            assert(defaults_keys()[19]@ == "hook_timeout_secs"@);
        }
    }
}

/// The names that the schema knows for this part of a file are exactly
/// its fields.
pub proof fn lemma_include_field_known(k: Seq<char>)
    ensures
        is_known(include_keys(), k) <==> is_include_field(k),
{
    if k == "label"@ {
        assert(include_keys()[0]@ == k);
    }
    if k == "path"@ {
        assert(include_keys()[1]@ == k);
    }
    if k == "merge_defaults"@ {
        assert(include_keys()[2]@ == k);
    }
    if is_known(include_keys(), k) {
        let i = choose|i: int| 0 <= i < include_keys().len() && (#[trigger] include_keys()[i])@ == k;
        if i == 0 {
            assert(include_keys()[0]@ == "label"@);
        }
        if i == 1 {
            assert(include_keys()[1]@ == "path"@);
        }
        if i == 2 {
            assert(include_keys()[2]@ == "merge_defaults"@);
        }
    }
}

/// The string keys of a mapping all satisfy `p`.
pub open spec fn keys_all(es: Seq<(Option<String>, YamlNode)>, p: spec_fn(Seq<char>) -> bool) -> bool {
    forall|j: int| 0 <= j < es.len() && (#[trigger] es[j]).0 is Some ==> p(es[j].0.unwrap()@)
}

/// Includes whose keys are all fields of an include give no warning.
pub proof fn lemma_include_fields_accepted(list: Seq<YamlNode>, file: Seq<char>, n: nat)
    requires
        forall|i: int| 0 <= i < list.len() ==> (#[trigger] list[i] matches YamlNode::Mapping(m) ==> keys_all(
            m@,
            |k: Seq<char>| is_include_field(k),
        )),
    ensures
        includes_warnings(list, file, n) == Seq::<WarningView>::empty(),
    decreases n,
{
    if n > 0 && n <= list.len() {
        lemma_include_fields_accepted(list, file, (n - 1) as nat);
        match list[n - 1] {
            YamlNode::Mapping(m) => {
                assert forall|j: int| 0 <= j < m@.len() && (#[trigger] m@[j]).0 is Some implies is_known(
                    include_keys(),
                    m@[j].0.unwrap()@,
                ) by {
                    lemma_include_field_known(m@[j].0.unwrap()@);
                }
                lemma_known_keys_silent(m@, include_keys(), file, at_index("includes"@, (n - 1) as nat));
            },
            _ => {},
        }
        assert(Seq::<WarningView>::empty() + Seq::<WarningView>::empty() =~= Seq::<WarningView>::empty());
    }
}

/// A file whose root keys are all root fields, whose `defaults` keys are
/// all fields of the defaults and whose includes' keys are all fields of an
/// include, and that has no groups, gives no warning.
pub proof fn lemma_root_fields_accepted(root: Vec<(Option<String>, YamlNode)>, file: Seq<char>)
    requires
        keys_all(root@, |k: Seq<char>| is_root_field(k)),
        lookup(root@, "defaults"@) matches Some(YamlNode::Mapping(d)) ==> keys_all(
            d@,
            |k: Seq<char>| is_defaults_field(k),
        ),
        lookup(root@, "includes"@) matches Some(YamlNode::Sequence(incs)) ==> forall|i: int|
            0 <= i < incs@.len() ==> (#[trigger] incs@[i] matches YamlNode::Mapping(m) ==> keys_all(
                m@,
                |k: Seq<char>| is_include_field(k),
            )),
        !has_key(root@, "groups"@),
    ensures
        spec_validate(YamlNode::Mapping(root), file) == Seq::<WarningView>::empty(),
{
    let es = root@;
    assert forall|j: int| 0 <= j < es.len() && (#[trigger] es[j]).0 is Some implies is_known(
        root_keys(),
        es[j].0.unwrap()@,
    ) by {
        lemma_root_field_known(es[j].0.unwrap()@);
    }
    lemma_known_keys_silent(es, root_keys(), file, "root"@);
    match lookup(es, "defaults"@) {
        Some(YamlNode::Mapping(d)) => {
            assert forall|j: int| 0 <= j < d@.len() && (#[trigger] d@[j]).0 is Some implies is_known(
                defaults_keys(),
                d@[j].0.unwrap()@,
            ) by {
                lemma_defaults_field_known(d@[j].0.unwrap()@);
            }
            lemma_known_keys_silent(d@, defaults_keys(), file, "defaults"@);
        },
        _ => {},
    }
    match lookup(es, "includes"@) {
        Some(YamlNode::Sequence(incs)) => {
            lemma_include_fields_accepted(incs@, file, incs@.len());
        },
        _ => {},
    }
    assert(Seq::<WarningView>::empty() + Seq::<WarningView>::empty() + Seq::<WarningView>::empty()
        + Seq::<WarningView>::empty() =~= Seq::<WarningView>::empty());
}


/// The warnings of a server entry are exactly its keys that are not fields
/// of a server: each warning names such a key of the entry, and each such
/// key has a warning.
pub proof fn lemma_server_warnings_exact(m: Vec<(Option<String>, YamlNode)>, file: Seq<char>, ctx: Seq<char>)
    requires
        has_key(m@, "host"@),
        !has_key(m@, "environments"@),
    ensures
        forall|w: int|
            0 <= w < entry_warnings(YamlNode::Mapping(m), file, ctx).len() ==> {
                let u = #[trigger] entry_warnings(YamlNode::Mapping(m), file, ctx)[w];
                &&& !is_server_field(u.field)
                &&& exists|j: int| 0 <= j < m@.len() && key_is(m@[j].0, u.field)
            },
        forall|j: int|
            0 <= j < m@.len() && (#[trigger] m@[j]).0 is Some && !is_server_field(m@[j].0.unwrap()@)
                ==> exists|w: int|
                0 <= w < entry_warnings(YamlNode::Mapping(m), file, ctx).len() && entry_warnings(
                    YamlNode::Mapping(m),
                    file,
                    ctx,
                )[w].field == m@[j].0.unwrap()@,
{
    lemma_unknown_keys_exact(m@, server_keys(), file, ctx);
    let ws = entry_warnings(YamlNode::Mapping(m), file, ctx);
    assert(ws == unknown_keys(m@, server_keys(), file, ctx));
    assert forall|w: int| 0 <= w < ws.len() implies !is_server_field((#[trigger] ws[w]).field) by {
        lemma_server_field_known(ws[w].field);
    }
    assert forall|j: int| 0 <= j < m@.len() && (#[trigger] m@[j]).0 is Some && !is_server_field(
        m@[j].0.unwrap()@,
    ) implies !is_known(server_keys(), m@[j].0.unwrap()@) by {
        lemma_server_field_known(m@[j].0.unwrap()@);
    }
}

} // verus!
