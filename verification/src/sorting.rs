//! Stable sorting by name, in the order of `str::cmp`.
use vstd::prelude::*;
use crate::text::chars_of;
use crate::config::{Config, ConfigEntry, Environment, Group, NamespaceEntry, Server};

verus! {

/// `a <= b` in the lexicographic order of characters, which is the order of
/// `str::cmp` (UTF-8 preserves the order of code points).
pub open spec fn lex_le(a: Seq<char>, b: Seq<char>) -> bool
    decreases a.len(),
{
    if a.len() == 0 {
        true
    } else if b.len() == 0 {
        false
    } else if a[0] < b[0] {
        true
    } else if a[0] > b[0] {
        false
    } else {
        lex_le(a.drop_first(), b.drop_first())
    }
}

pub proof fn lemma_lex_le_total(a: Seq<char>, b: Seq<char>)
    ensures
        lex_le(a, b) || lex_le(b, a),
    decreases a.len(),
{
    if a.len() > 0 && b.len() > 0 && a[0] == b[0] {
        lemma_lex_le_total(a.drop_first(), b.drop_first());
    }
}

pub proof fn lemma_lex_le_trans(a: Seq<char>, b: Seq<char>, c: Seq<char>)
    requires
        lex_le(a, b),
        lex_le(b, c),
    ensures
        lex_le(a, c),
    decreases a.len(),
{
    if a.len() > 0 && b.len() > 0 && c.len() > 0 && a[0] == b[0] && b[0] == c[0] {
        lemma_lex_le_trans(a.drop_first(), b.drop_first(), c.drop_first());
    }
}

pub proof fn lemma_lex_le_refl(a: Seq<char>)
    ensures
        lex_le(a, a),
    decreases a.len(),
{
    if a.len() > 0 {
        lemma_lex_le_refl(a.drop_first());
    }
}

pub fn lex_le_exec(a: &str, b: &str) -> (r: bool)
    ensures
        r == lex_le(a@, b@),
{
    let av = chars_of(a);
    let bv = chars_of(b);
    let mut i: usize = 0;
    assert(av@.skip(0) =~= av@);
    assert(bv@.skip(0) =~= bv@);
    while i < av.len() && i < bv.len()
        invariant
            i <= av@.len(),
            i <= bv@.len(),
            lex_le(a@, b@) == lex_le(av@.skip(i as int), bv@.skip(i as int)),
        decreases av@.len() - i,
    {
        if av[i] < bv[i] {
            return true;
        }
        if av[i] > bv[i] {
            return false;
        }
        assert(av@.skip(i as int).drop_first() =~= av@.skip(i + 1));
        assert(bv@.skip(i as int).drop_first() =~= bv@.skip(i + 1));
        i += 1;
    }
    av.len() <= bv.len()
}

/// A value sorted by a name.
pub trait SortKey {
    spec fn sort_key(&self) -> Seq<char>;

    fn key_str(&self) -> (r: &str)
        ensures
            r@ == self.sort_key(),
    ;
}

/// `out` is `inp` reordered by `idx` (a permutation), sorted by key, with
/// items of equal keys in their original order.
pub open spec fn stable_sort_with<T: SortKey>(out: Seq<T>, inp: Seq<T>, idx: Seq<int>) -> bool {
    &&& out.len() == inp.len()
    &&& idx.len() == inp.len()
    &&& forall|k: int| 0 <= k < idx.len() ==> 0 <= #[trigger] idx[k] < inp.len()
    &&& forall|k: int| 0 <= k < idx.len() ==> #[trigger] out[k] == inp[idx[k]]
    &&& forall|a: int, b: int| #![trigger idx[a], idx[b]] 0 <= a < b < idx.len() ==> idx[a] != idx[b]
    &&& forall|a: int, b: int|
        #![trigger out[a], out[b]]
        0 <= a < b < out.len() ==> lex_le(out[a].sort_key(), out[b].sort_key())
    &&& forall|a: int, b: int|
        #![trigger out[a], out[b]]
        0 <= a < b < out.len() && out[a].sort_key() == out[b].sort_key() ==> idx[a] < idx[b]
}

/// `out` is a stable sort of `inp` by key (what `sort_by` on the keys gives).
pub open spec fn is_stable_sort<T: SortKey>(out: Seq<T>, inp: Seq<T>) -> bool {
    exists|idx: Seq<int>| stable_sort_with(out, inp, idx)
}

/// Sorts by key, keeping items with equal keys in their order (insertion sort).
pub fn stable_sort<T: SortKey>(v: Vec<T>) -> (r: Vec<T>)
    ensures
        is_stable_sort(r@, v@),
{
    let ghost inp = v@;
    let n = v.len();
    let mut rest = v;
    let mut out: Vec<T> = Vec::new();
    let ghost mut idx: Seq<int> = seq![];
    let mut m: usize = 0;
    assert(inp.skip(0) =~= inp);
    while m < n
        invariant
            m <= n == inp.len(),
            rest@ == inp.skip(m as int),
            stable_sort_with(out@, inp.take(m as int), idx),
            forall|k: int| 0 <= k < idx.len() ==> #[trigger] idx[k] < m,
        decreases n - m,
    {
        let x = rest.remove(0);
        assert(x == inp[m as int]);
        assert(rest@ =~= inp.skip(m + 1));
        let xk = x.key_str();
        let mut pos: usize = 0;
        while pos < out.len() && lex_le_exec(out[pos].key_str(), xk)
            invariant
                pos <= out@.len(),
                xk@ == x.sort_key(),
                forall|k: int| 0 <= k < pos ==> lex_le(#[trigger] out@[k].sort_key(), x.sort_key()),
            decreases out@.len() - pos,
        {
            pos += 1;
        }
        let ghost old_out = out@;
        let ghost old_idx = idx;
        let ghost prev = inp.take(m as int);
        out.insert(pos, x);
        proof {
            idx = old_idx.insert(pos as int, m as int);
            let cur = inp.take(m + 1);
            assert(old_out.len() == m);
            assert forall|k: int| 0 <= k < idx.len() implies #[trigger] out@[k] == cur[idx[k]] by {
                if k < pos {
                    assert(out@[k] == old_out[k]);
                    assert(idx[k] == old_idx[k]);
                    assert(old_out[k] == prev[old_idx[k]]);
                } else if k > pos {
                    assert(out@[k] == old_out[k - 1]);
                    assert(idx[k] == old_idx[k - 1]);
                    assert(old_out[k - 1] == prev[old_idx[k - 1]]);
                }
            }
            assert forall|k: int| 0 <= k < idx.len() implies 0 <= #[trigger] idx[k] < cur.len()
                && idx[k] < m + 1 by {
                if k < pos {
                    assert(idx[k] == old_idx[k]);
                } else if k > pos {
                    assert(idx[k] == old_idx[k - 1]);
                }
            }
            assert forall|a: int, b: int| #![trigger idx[a], idx[b]] 0 <= a < b < idx.len()
                implies idx[a] != idx[b] by {
                if a != pos && b != pos {
                    let oa = if a < pos { a } else { a - 1 };
                    let ob = if b < pos { b } else { b - 1 };
                    assert(idx[a] == old_idx[oa]);
                    assert(idx[b] == old_idx[ob]);
                    assert(old_idx[oa] != old_idx[ob]);
                } else if a == pos {
                    assert(idx[b] == old_idx[b - 1]);
                    assert(old_idx[b - 1] < m);
                } else {
                    assert(idx[a] == old_idx[a]);
                    assert(old_idx[a] < m);
                }
            }
            assert forall|a: int, b: int| #![trigger out@[a], out@[b]] 0 <= a < b < out@.len()
                implies lex_le(out@[a].sort_key(), out@[b].sort_key()) && (out@[a].sort_key()
                == out@[b].sort_key() ==> idx[a] < idx[b]) by {
                if a != pos && b != pos {
                    let oa = if a < pos { a } else { a - 1 };
                    let ob = if b < pos { b } else { b - 1 };
                    assert(out@[a] == old_out[oa]);
                    assert(out@[b] == old_out[ob]);
                    assert(idx[a] == old_idx[oa]);
                    assert(idx[b] == old_idx[ob]);
                    assert(lex_le(old_out[oa].sort_key(), old_out[ob].sort_key()));
                } else if b == pos {
                    assert(out@[a] == old_out[a]);
                    assert(lex_le(old_out[a].sort_key(), x.sort_key()));
                    assert(idx[a] == old_idx[a]);
                    assert(old_idx[a] < m);
                } else {
                    // a == pos < b: x comes before every later item, with a strictly smaller key.
                    assert(pos < old_out.len());
                    assert(!lex_le(old_out[pos as int].sort_key(), x.sort_key()));
                    lemma_lex_le_total(old_out[pos as int].sort_key(), x.sort_key());
                    assert(out@[b] == old_out[b - 1]);
                    if b - 1 > pos {
                        assert(lex_le(old_out[pos as int].sort_key(), old_out[b - 1].sort_key()));
                        lemma_lex_le_trans(
                            x.sort_key(),
                            old_out[pos as int].sort_key(),
                            old_out[b - 1].sort_key(),
                        );
                        if old_out[b - 1].sort_key() == x.sort_key() {
                            assert(false);
                        }
                    } else {
                        if old_out[b - 1].sort_key() == x.sort_key() {
                            lemma_lex_le_refl(x.sort_key());
                            assert(false);
                        }
                    }
                }
            }
            assert(stable_sort_with(out@, cur, idx));
        }
        m += 1;
    }
    assert(inp.take(n as int) =~= inp);
    out
}

// ─── Sorting a configuration by name ─────────────────────────────────────────

impl SortKey for Server {
    open spec fn sort_key(&self) -> Seq<char> {
        self.name@
    }

    fn key_str(&self) -> (r: &str) {
        self.name.as_str()
    }
}

impl SortKey for Environment {
    open spec fn sort_key(&self) -> Seq<char> {
        self.name@
    }

    fn key_str(&self) -> (r: &str) {
        self.name.as_str()
    }
}

impl SortKey for ConfigEntry {
    /// A group or a server by its name, an included file by its label.
    open spec fn sort_key(&self) -> Seq<char> {
        match self {
            ConfigEntry::Group(g) => g.name@,
            ConfigEntry::Server(s) => s.name@,
            ConfigEntry::Namespace(n) => n.label@,
        }
    }

    fn key_str(&self) -> (r: &str) {
        match self {
            ConfigEntry::Group(g) => g.name.as_str(),
            ConfigEntry::Server(s) => s.name.as_str(),
            ConfigEntry::Namespace(n) => n.label.as_str(),
        }
    }
}

/// `b` is environment `a` with its servers sorted by name.
pub open spec fn env_sorted(a: Environment, b: Environment) -> bool {
    &&& b.name == a.name
    &&& b.user == a.user
    &&& b.ssh_key == a.ssh_key
    &&& b.mode == a.mode
    &&& b.ssh_port == a.ssh_port
    &&& b.ssh_options == a.ssh_options
    &&& b.wallix == a.wallix
    &&& b.wallix_group == a.wallix_group
    &&& b.jump == a.jump
    &&& b.probe_filesystems == a.probe_filesystems
    &&& b.tunnels == a.tunnels
    &&& b.tags == a.tags
    &&& is_stable_sort(b.servers@, a.servers@)
}

/// `b` is `a`, each item rebuilt by `rel`.
pub open spec fn each_env_sorted(a: Seq<Environment>, b: Seq<Environment>) -> bool {
    &&& b.len() == a.len()
    &&& forall|k: int| 0 <= k < a.len() ==> #[trigger] env_sorted(a[k], b[k])
}

/// `b` is group `a` with its environments sorted by name, the servers of
/// each environment sorted by name, and its own servers sorted by name.
pub open spec fn group_sorted(a: Group, b: Group) -> bool {
    &&& b.name == a.name
    &&& b.user == a.user
    &&& b.ssh_key == a.ssh_key
    &&& b.mode == a.mode
    &&& b.ssh_port == a.ssh_port
    &&& b.ssh_options == a.ssh_options
    &&& b.wallix == a.wallix
    &&& b.wallix_group == a.wallix_group
    &&& b.jump == a.jump
    &&& b.probe_filesystems == a.probe_filesystems
    &&& b.tunnels == a.tunnels
    &&& b.tags == a.tags
    &&& match (a.environments, b.environments) {
        (None, None) => true,
        (Some(x), Some(y)) => exists|mid: Seq<Environment>|
            each_env_sorted(x@, mid) && is_stable_sort(y@, mid),
        _ => false,
    }
    &&& match (a.servers, b.servers) {
        (None, None) => true,
        (Some(x), Some(y)) => is_stable_sort(y@, x@),
        _ => false,
    }
}

/// An entry of an included file after sorting: groups sorted inside,
/// anything else unchanged.
pub open spec fn inner_entry_sorted(a: ConfigEntry, b: ConfigEntry) -> bool {
    match (a, b) {
        (ConfigEntry::Group(x), ConfigEntry::Group(y)) => group_sorted(x, y),
        (ConfigEntry::Server(x), ConfigEntry::Server(y)) => x == y,
        (ConfigEntry::Namespace(x), ConfigEntry::Namespace(y)) => x == y,
        _ => false,
    }
}

pub open spec fn each_inner_sorted(a: Seq<ConfigEntry>, b: Seq<ConfigEntry>) -> bool {
    &&& b.len() == a.len()
    &&& forall|k: int| 0 <= k < a.len() ==> #[trigger] inner_entry_sorted(a[k], b[k])
}

/// `b` is included file `a` with its entries sorted by name and the groups
/// among them sorted inside.
pub open spec fn namespace_sorted(a: NamespaceEntry, b: NamespaceEntry) -> bool {
    &&& b.label == a.label
    &&& b.source_path == a.source_path
    &&& b.defaults == a.defaults
    &&& b.vars == a.vars
    &&& exists|mid: Seq<ConfigEntry>|
        each_inner_sorted(a.entries@, mid) && is_stable_sort(b.entries@, mid)
}

/// A top-level entry after sorting.
pub open spec fn entry_sorted(a: ConfigEntry, b: ConfigEntry) -> bool {
    match (a, b) {
        (ConfigEntry::Group(x), ConfigEntry::Group(y)) => group_sorted(x, y),
        (ConfigEntry::Server(x), ConfigEntry::Server(y)) => x == y,
        (ConfigEntry::Namespace(x), ConfigEntry::Namespace(y)) => namespace_sorted(x, y),
        _ => false,
    }
}

pub open spec fn each_entry_sorted(a: Seq<ConfigEntry>, b: Seq<ConfigEntry>) -> bool {
    &&& b.len() == a.len()
    &&& forall|k: int| 0 <= k < a.len() ==> #[trigger] entry_sorted(a[k], b[k])
}

fn sort_env(e: Environment) -> (r: Environment)
    ensures
        env_sorted(e, r),
{
    let Environment {
        name,
        user,
        ssh_key,
        mode,
        ssh_port,
        ssh_options,
        wallix,
        wallix_group,
        jump,
        servers,
        probe_filesystems,
        tunnels,
        tags,
    } = e;
    Environment {
        name,
        user,
        ssh_key,
        mode,
        ssh_port,
        ssh_options,
        wallix,
        wallix_group,
        jump,
        servers: stable_sort(servers),
        probe_filesystems,
        tunnels,
        tags,
    }
}

fn sort_each_env(v: Vec<Environment>) -> (r: Vec<Environment>)
    ensures
        each_env_sorted(v@, r@),
{
    let ghost inp = v@;
    let n = v.len();
    let mut rest = v;
    let mut out: Vec<Environment> = Vec::new();
    let mut m: usize = 0;
    assert(inp.skip(0) =~= inp);
    while m < n
        invariant
            m <= n == inp.len(),
            rest@ == inp.skip(m as int),
            out@.len() == m,
            forall|k: int| 0 <= k < m ==> #[trigger] env_sorted(inp[k], out@[k]),
        decreases n - m,
    {
        let x = rest.remove(0);
        assert(rest@ =~= inp.skip(m + 1));
        out.push(sort_env(x));
        m += 1;
    }
    out
}

/// Sorts, by name, the environments of a group, the servers of each
/// environment and the group's own servers.
fn sort_group(group: Group) -> (r: Group)
    ensures
        group_sorted(group, r),
{
    let Group {
        name,
        user,
        ssh_key,
        mode,
        ssh_port,
        ssh_options,
        wallix,
        wallix_group,
        jump,
        environments,
        servers,
        probe_filesystems,
        tunnels,
        tags,
    } = group;
    let ghost old_envs = environments;
    let environments = match environments {
        Some(envs) => {
            let mid = sort_each_env(envs);
            let ghost midv = mid@;
            let sorted = stable_sort(mid);
            assert(each_env_sorted(old_envs.unwrap()@, midv) && is_stable_sort(sorted@, midv));
            Some(sorted)
        },
        None => None,
    };
    let servers = match servers {
        Some(v) => Some(stable_sort(v)),
        None => None,
    };
    Group {
        name,
        user,
        ssh_key,
        mode,
        ssh_port,
        ssh_options,
        wallix,
        wallix_group,
        jump,
        environments,
        servers,
        probe_filesystems,
        tunnels,
        tags,
    }
}

fn sort_inner_entry(e: ConfigEntry) -> (r: ConfigEntry)
    ensures
        inner_entry_sorted(e, r),
{
    match e {
        ConfigEntry::Group(g) => ConfigEntry::Group(sort_group(g)),
        other => other,
    }
}

fn sort_each_inner(v: Vec<ConfigEntry>) -> (r: Vec<ConfigEntry>)
    ensures
        each_inner_sorted(v@, r@),
{
    let ghost inp = v@;
    let n = v.len();
    let mut rest = v;
    let mut out: Vec<ConfigEntry> = Vec::new();
    let mut m: usize = 0;
    assert(inp.skip(0) =~= inp);
    while m < n
        invariant
            m <= n == inp.len(),
            rest@ == inp.skip(m as int),
            out@.len() == m,
            forall|k: int| 0 <= k < m ==> #[trigger] inner_entry_sorted(inp[k], out@[k]),
        decreases n - m,
    {
        let x = rest.remove(0);
        assert(rest@ =~= inp.skip(m + 1));
        out.push(sort_inner_entry(x));
        m += 1;
    }
    out
}

fn sort_namespace(ns: NamespaceEntry) -> (r: NamespaceEntry)
    ensures
        namespace_sorted(ns, r),
{
    let NamespaceEntry { label, source_path, defaults, entries, vars } = ns;
    let mid = sort_each_inner(entries);
    let ghost midv = mid@;
    let sorted = stable_sort(mid);
    assert(each_inner_sorted(entries@, midv) && is_stable_sort(sorted@, midv));
    NamespaceEntry { label, source_path, defaults, entries: sorted, vars }
}

fn sort_entry(e: ConfigEntry) -> (r: ConfigEntry)
    ensures
        entry_sorted(e, r),
{
    match e {
        ConfigEntry::Group(g) => ConfigEntry::Group(sort_group(g)),
        ConfigEntry::Server(s) => ConfigEntry::Server(s),
        ConfigEntry::Namespace(ns) => ConfigEntry::Namespace(sort_namespace(ns)),
    }
}

fn sort_each_entry(v: Vec<ConfigEntry>) -> (r: Vec<ConfigEntry>)
    ensures
        each_entry_sorted(v@, r@),
{
    let ghost inp = v@;
    let n = v.len();
    let mut rest = v;
    let mut out: Vec<ConfigEntry> = Vec::new();
    let mut m: usize = 0;
    assert(inp.skip(0) =~= inp);
    while m < n
        invariant
            m <= n == inp.len(),
            rest@ == inp.skip(m as int),
            out@.len() == m,
            forall|k: int| 0 <= k < m ==> #[trigger] entry_sorted(inp[k], out@[k]),
        decreases n - m,
    {
        let x = rest.remove(0);
        assert(rest@ =~= inp.skip(m + 1));
        out.push(sort_entry(x));
        m += 1;
    }
    out
}

impl Config {
    /// Sorts the configuration by name: the top-level entries (groups and
    /// servers by name, included files by label), the entries of each
    /// included file, and inside each group its environments, their servers
    /// and its own servers. Items of equal names keep their order.
    pub fn sort(&mut self)
        ensures
            final(self).defaults == old(self).defaults,
            final(self).includes == old(self).includes,
            final(self).vars == old(self).vars,
            exists|mid: Seq<ConfigEntry>|
                each_entry_sorted(old(self).groups@, mid) && is_stable_sort(
                    final(self).groups@,
                    mid,
                ),
    {
        let mut groups: Vec<ConfigEntry> = Vec::new();
        std::mem::swap(&mut groups, &mut self.groups);
        let ghost g0 = groups@;
        let mid = sort_each_entry(groups);
        let ghost midv = mid@;
        self.groups = stable_sort(mid);
        assert(each_entry_sorted(g0, midv) && is_stable_sort(self.groups@, midv));
    }
}

} // verus!
