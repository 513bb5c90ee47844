//! The server tree as the list shows it: headers of included files, groups
//! and environments, each opened when expanded or while searching, and the
//! servers that pass the search and the favorites filter; or, in the
//! "recent" mode, every server that passes the filters, latest connection first.
use vstd::prelude::*;
use crate::config::{ConfigEntry, Environment, Group, Server};
use crate::forms::ConfigItem;
use crate::resolve::{ResolvedServer, ResolvedView};
use crate::search::{matches_search_query, spec_matches_query};
use crate::text::{push_str, str_eq, views};

verus! {

pub enum ItemView {
    Namespace(Seq<char>),
    Group(Seq<char>, Seq<char>),
    Environment(Seq<char>, Seq<char>, Seq<char>),
    Server(ResolvedView),
}

impl View for ConfigItem {
    type V = ItemView;

    open spec fn view(&self) -> ItemView {
        match self {
            ConfigItem::Namespace(l) => ItemView::Namespace(l@),
            ConfigItem::Group(g, ns) => ItemView::Group(g@, ns@),
            ConfigItem::Environment(g, e, ns) => ItemView::Environment(g@, e@, ns@),
            ConfigItem::Server(s) => ItemView::Server(s@),
        }
    }
}

pub open spec fn items_view(v: Seq<ConfigItem>) -> Seq<ItemView> {
    v.map_values(|i: ConfigItem| i@)
}

pub open spec fn resolved_views(v: Seq<ResolvedServer>) -> Seq<ResolvedView> {
    v.map_values(|r: ResolvedServer| r@)
}

/// A copy of a row.
pub fn clone_item(i: &ConfigItem) -> (r: ConfigItem)
    ensures
        r@ == i@,
{
    match i {
        ConfigItem::Namespace(l) => ConfigItem::Namespace(l.clone()),
        ConfigItem::Group(g, ns) => ConfigItem::Group(g.clone(), ns.clone()),
        ConfigItem::Environment(g, e, ns) => ConfigItem::Environment(g.clone(), e.clone(), ns.clone()),
        ConfigItem::Server(s) => ConfigItem::Server(Box::new((**s).clone())),
    }
}

pub fn clone_items(v: &Vec<ConfigItem>) -> (r: Vec<ConfigItem>)
    ensures
        items_view(r@) == items_view(v@),
{
    let mut r: Vec<ConfigItem> = Vec::new();
    let mut i: usize = 0;
    while i < v.len()
        invariant
            i <= v@.len(),
            items_view(r@) == items_view(v@.take(i as int)),
        decreases v@.len() - i,
    {
        let ghost before = items_view(r@);
        let x = clone_item(&v[i]);
        r.push(x);
        assert(v@.take(i + 1) =~= v@.take(i as int).push(v@[i as int]));
        assert(items_view(r@) =~= before.push(x@));
        i += 1;
    }
    assert(v@.take(i as int) =~= v@);
    r
}

// ─── Server keys ─────────────────────────────────────────────────────────────

/// The key of a server: `[NS:{ns}:][Group:{g}:][Env:{e}:]Server:{name}`,
/// each part present when its name is not empty.
pub open spec fn key_of(ns: Seq<char>, g: Seq<char>, e: Seq<char>, name: Seq<char>) -> Seq<char> {
    (if ns.len() > 0 {
        "NS:"@ + ns + ":"@
    } else {
        seq![]
    }) + (if g.len() > 0 {
        "Group:"@ + g + ":"@
    } else {
        seq![]
    }) + (if e.len() > 0 {
        "Env:"@ + e + ":"@
    } else {
        seq![]
    }) + "Server:"@ + name
}

pub open spec fn spec_server_key(r: ResolvedView) -> Seq<char> {
    key_of(r.namespace, r.group_name, r.env_name, r.name)
}

/// The stable key of a server, independent of the order of the configuration.
pub fn server_key_of(server: &ResolvedServer) -> (r: String)
    ensures
        r@ == spec_server_key(server@),
{
    let mut key = String::new();
    let ghost k0 = key@;
    if !server.namespace.as_str().is_empty() {
        push_str(&mut key, "NS:");
        push_str(&mut key, server.namespace.as_str());
        push_str(&mut key, ":");
    }
    let ghost k1 = key@;
    if !server.group_name.as_str().is_empty() {
        push_str(&mut key, "Group:");
        push_str(&mut key, server.group_name.as_str());
        push_str(&mut key, ":");
    }
    let ghost k2 = key@;
    if !server.env_name.as_str().is_empty() {
        push_str(&mut key, "Env:");
        push_str(&mut key, server.env_name.as_str());
        push_str(&mut key, ":");
    }
    push_str(&mut key, "Server:");
    push_str(&mut key, server.name.as_str());
    assert(key@ =~= spec_server_key(server@));
    key
}

// ─── What the list reads ─────────────────────────────────────────────────────

pub struct TreeCtx {
    pub rs: Seq<ResolvedView>,
    pub expanded: Seq<Seq<char>>,
    pub favorites: Seq<Seq<char>>,
    pub query: Seq<char>,
    pub favorites_only: bool,
}

/// The state the list is built from.
pub struct Tree<'a> {
    pub resolved: &'a Vec<ResolvedServer>,
    pub expanded: &'a Vec<String>,
    pub favorites: &'a Vec<String>,
    pub query: &'a str,
    pub favorites_only: bool,
}

impl<'a> Tree<'a> {
    pub open spec fn ctx(&self) -> TreeCtx {
        TreeCtx {
            rs: resolved_views(self.resolved@),
            expanded: views(self.expanded@),
            favorites: views(self.favorites@),
            query: self.query@,
            favorites_only: self.favorites_only,
        }
    }
}

pub open spec fn searching(c: TreeCtx) -> bool {
    c.query.len() > 0
}

pub open spec fn is_fav(c: TreeCtx, key: Seq<char>) -> bool {
    c.favorites.contains(key)
}

/// A tree item is open when it is expanded or while searching.
pub open spec fn is_open(c: TreeCtx, id: Seq<char>) -> bool {
    c.expanded.contains(id) || searching(c)
}

/// `s` is one of the strings of `v`.
pub fn contains_string(v: &Vec<String>, s: &str) -> (r: bool)
    ensures
        r == views(v@).contains(s@),
{
    let mut i: usize = 0;
    while i < v.len()
        invariant
            i <= v@.len(),
            forall|k: int| 0 <= k < i ==> (#[trigger] v@[k])@ != s@,
        decreases v@.len() - i,
    {
        if str_eq(v[i].as_str(), s) {
            assert(views(v@)[i as int] == s@);
            return true;
        }
        i += 1;
    }
    proof {
        if views(v@).contains(s@) {
            let k = choose|k: int| 0 <= k < views(v@).len() && views(v@)[k] == s@;
            assert(v@[k]@ == s@);
        }
    }
    false
}

// ─── Finding the resolved server of a configured one ────────────────────────

pub open spec fn same_place(
    r: ResolvedView,
    name: Seq<char>,
    g: Seq<char>,
    e: Seq<char>,
    ns: Seq<char>,
) -> bool {
    r.name == name && r.group_name == g && r.env_name == e && r.namespace == ns
}

/// Index of the first resolved server from `i` on at that place, or -1.
pub open spec fn place_index_from(
    rs: Seq<ResolvedView>,
    name: Seq<char>,
    g: Seq<char>,
    e: Seq<char>,
    ns: Seq<char>,
    i: nat,
) -> int
    decreases rs.len() - i,
{
    if i >= rs.len() {
        -1
    } else if same_place(rs[i as int], name, g, e, ns) {
        i as int
    } else {
        place_index_from(rs, name, g, e, ns, i + 1)
    }
}

/// The first resolved server named `name` in group `g`, environment `e` and
/// file `ns`.
pub open spec fn found(
    rs: Seq<ResolvedView>,
    name: Seq<char>,
    g: Seq<char>,
    e: Seq<char>,
    ns: Seq<char>,
) -> Option<ResolvedView> {
    let i = place_index_from(rs, name, g, e, ns, 0);
    if 0 <= i < rs.len() {
        Some(rs[i])
    } else {
        None
    }
}

pub proof fn lemma_place_index(
    rs: Seq<ResolvedView>,
    name: Seq<char>,
    g: Seq<char>,
    e: Seq<char>,
    ns: Seq<char>,
    i: nat,
)
    ensures
        -1 <= place_index_from(rs, name, g, e, ns, i) < rs.len(),
        place_index_from(rs, name, g, e, ns, i) >= 0 ==> same_place(
            rs[place_index_from(rs, name, g, e, ns, i)],
            name,
            g,
            e,
            ns,
        ),
        place_index_from(rs, name, g, e, ns, i) == -1 ==> forall|j: int|
            i <= j < rs.len() ==> !same_place(#[trigger] rs[j], name, g, e, ns),
    decreases rs.len() - i,
{
    if i < rs.len() && !same_place(rs[i as int], name, g, e, ns) {
        lemma_place_index(rs, name, g, e, ns, i + 1);
    }
}

fn find_place(t: &Tree, name: &str, g: &str, e: &str, ns: &str) -> (r: Option<usize>)
    ensures
        match r {
            Some(i) => i < t.resolved@.len() && place_index_from(
                t.ctx().rs,
                name@,
                g@,
                e@,
                ns@,
                0,
            ) == i,
            None => place_index_from(t.ctx().rs, name@, g@, e@, ns@, 0) == -1,
        },
{
    let ghost rs = t.ctx().rs;
    let mut i: usize = 0;
    while i < t.resolved.len()
        invariant
            i <= t.resolved@.len(),
            rs == t.ctx().rs,
            forall|j: int| 0 <= j < i ==> !same_place(#[trigger] rs[j], name@, g@, e@, ns@),
        decreases t.resolved@.len() - i,
    {
        let r = &t.resolved[i];
        assert(rs[i as int] == r@);
        if str_eq(r.name.as_str(), name) && str_eq(r.group_name.as_str(), g) && str_eq(
            r.env_name.as_str(),
            e,
        ) && str_eq(r.namespace.as_str(), ns) {
            proof {
                lemma_place_index(rs, name@, g@, e@, ns@, 0);
                if place_index_from(rs, name@, g@, e@, ns@, 0) != i {
                    let k = place_index_from(rs, name@, g@, e@, ns@, 0);
                    assert(k >= 0 ==> k >= i);
                    lemma_first_place(rs, name@, g@, e@, ns@, i as int);
                }
            }
            return Some(i);
        }
        i += 1;
    }
    proof {
        lemma_place_index(rs, name@, g@, e@, ns@, 0);
        if place_index_from(rs, name@, g@, e@, ns@, 0) != -1 {
            let k = place_index_from(rs, name@, g@, e@, ns@, 0);
            assert(same_place(rs[k], name@, g@, e@, ns@));
        }
    }
    None
}

/// When no earlier server is at the place and `rs[i]` is, it is the first.
proof fn lemma_first_place(
    rs: Seq<ResolvedView>,
    name: Seq<char>,
    g: Seq<char>,
    e: Seq<char>,
    ns: Seq<char>,
    i: int,
)
    requires
        0 <= i < rs.len(),
        same_place(rs[i], name, g, e, ns),
        forall|j: int| 0 <= j < i ==> !same_place(#[trigger] rs[j], name, g, e, ns),
    ensures
        place_index_from(rs, name, g, e, ns, 0) == i,
{
    lemma_first_place_from(rs, name, g, e, ns, i, 0);
}

proof fn lemma_first_place_from(
    rs: Seq<ResolvedView>,
    name: Seq<char>,
    g: Seq<char>,
    e: Seq<char>,
    ns: Seq<char>,
    i: int,
    k: nat,
)
    requires
        0 <= k <= i < rs.len(),
        same_place(rs[i], name, g, e, ns),
        forall|j: int| 0 <= j < i ==> !same_place(#[trigger] rs[j], name, g, e, ns),
    ensures
        place_index_from(rs, name, g, e, ns, k) == i,
    decreases i - k,
{
    if k < i {
        assert(!same_place(rs[k as int], name, g, e, ns));
        lemma_first_place_from(rs, name, g, e, ns, i, k + 1);
    }
}

// ─── Rows of servers ─────────────────────────────────────────────────────────

/// The row of the configured server `name` at a place: its resolved server,
/// unless it fails the search or (when `check_fav`) the favorites filter.
pub open spec fn server_row(
    c: TreeCtx,
    name: Seq<char>,
    g: Seq<char>,
    e: Seq<char>,
    ns: Seq<char>,
    check_fav: bool,
) -> Seq<ItemView> {
    match found(c.rs, name, g, e, ns) {
        Some(r) => if searching(c) && !spec_matches_query(c.query, r.name, r.host, r.tags) {
            seq![]
        } else if check_fav && c.favorites_only && !is_fav(c, spec_server_key(r)) {
            seq![]
        } else {
            seq![ItemView::Server(r)]
        },
        None => seq![],
    }
}

pub fn push_server_row(
    t: &Tree,
    name: &str,
    g: &str,
    e: &str,
    ns: &str,
    check_fav: bool,
    items: &mut Vec<ConfigItem>,
)
    ensures
        items_view(final(items)@) == items_view(old(items)@) + server_row(
            t.ctx(),
            name@,
            g@,
            e@,
            ns@,
            check_fav,
        ),
{
    let ghost c = t.ctx();
    let ghost start = items_view(items@);
    match find_place(t, name, g, e, ns) {
        Some(i) => {
            let r = &t.resolved[i];
            assert(c.rs[i as int] == r@);
            if !t.query.is_empty() && !matches_search_query(
                t.query,
                r.name.as_str(),
                r.host.as_str(),
                &r.tags,
            ) {
                assert(items_view(items@) =~= start + server_row(c, name@, g@, e@, ns@, check_fav));
                return ;
            }
            if check_fav && t.favorites_only {
                let key = server_key_of(r);
                if !contains_string(t.favorites, key.as_str()) {
                    assert(items_view(items@) =~= start + server_row(
                        c,
                        name@,
                        g@,
                        e@,
                        ns@,
                        check_fav,
                    ));
                    return ;
                }
            }
            let item = ConfigItem::Server(Box::new(r.clone()));
            items.push(item);
            assert(items_view(items@) =~= start + server_row(c, name@, g@, e@, ns@, check_fav));
        },
        None => {
            assert(items_view(items@) =~= start + server_row(c, name@, g@, e@, ns@, check_fav));
        },
    }
}

/// Rows of the configured servers `svs` at a place, in order.
pub open spec fn servers_rows(
    c: TreeCtx,
    svs: Seq<Server>,
    g: Seq<char>,
    e: Seq<char>,
    ns: Seq<char>,
    check_fav: bool,
) -> Seq<ItemView>
    decreases svs.len(),
{
    if svs.len() == 0 {
        seq![]
    } else {
        servers_rows(c, svs.drop_last(), g, e, ns, check_fav) + server_row(
            c,
            svs.last().name@,
            g,
            e,
            ns,
            check_fav,
        )
    }
}

pub fn push_servers(
    t: &Tree,
    svs: &Vec<Server>,
    g: &str,
    e: &str,
    ns: &str,
    check_fav: bool,
    items: &mut Vec<ConfigItem>,
)
    ensures
        items_view(final(items)@) == items_view(old(items)@) + servers_rows(
            t.ctx(),
            svs@,
            g@,
            e@,
            ns@,
            check_fav,
        ),
{
    let ghost start = items_view(items@);
    let mut i: usize = 0;
    while i < svs.len()
        invariant
            i <= svs@.len(),
            items_view(items@) == start + servers_rows(
                t.ctx(),
                svs@.take(i as int),
                g@,
                e@,
                ns@,
                check_fav,
            ),
        decreases svs@.len() - i,
    {
        assert(svs@.take(i + 1).drop_last() =~= svs@.take(i as int));
        assert(svs@.take(i + 1).last() == svs@[i as int]);
        let ghost before = items_view(items@);
        push_server_row(t, svs[i].name.as_str(), g, e, ns, check_fav, items);
        assert(items_view(items@) =~= start + servers_rows(
            t.ctx(),
            svs@.take(i + 1),
            g@,
            e@,
            ns@,
            check_fav,
        ));
        i += 1;
    }
    assert(svs@.take(i as int) =~= svs@);
}

/// The resolved server at that place exists and is a favorite.
pub open spec fn fav_at(c: TreeCtx, name: Seq<char>, g: Seq<char>, e: Seq<char>, ns: Seq<char>) -> bool {
    match found(c.rs, name, g, e, ns) {
        Some(r) => is_fav(c, spec_server_key(r)),
        None => false,
    }
}

fn fav_at_exec(t: &Tree, name: &str, g: &str, e: &str, ns: &str) -> (r: bool)
    ensures
        r == fav_at(t.ctx(), name@, g@, e@, ns@),
{
    match find_place(t, name, g, e, ns) {
        Some(i) => {
            let key = server_key_of(&t.resolved[i]);
            contains_string(t.favorites, key.as_str())
        },
        None => false,
    }
}

/// One of the servers `svs` at a place is a favorite.
pub open spec fn has_fav_server(c: TreeCtx, svs: Seq<Server>, g: Seq<char>, e: Seq<char>, ns: Seq<char>) -> bool {
    exists|i: int| 0 <= i < svs.len() && fav_at(c, (#[trigger] svs[i]).name@, g, e, ns)
}

fn has_fav_server_exec(t: &Tree, svs: &Vec<Server>, g: &str, e: &str, ns: &str) -> (r: bool)
    ensures
        r == has_fav_server(t.ctx(), svs@, g@, e@, ns@),
{
    let mut i: usize = 0;
    while i < svs.len()
        invariant
            i <= svs@.len(),
            forall|k: int| 0 <= k < i ==> !fav_at(t.ctx(), (#[trigger] svs@[k]).name@, g@, e@, ns@),
        decreases svs@.len() - i,
    {
        if fav_at_exec(t, svs[i].name.as_str(), g, e, ns) {
            assert(fav_at(t.ctx(), svs@[i as int].name@, g@, e@, ns@));
            return true;
        }
        i += 1;
    }
    false
}

// ─── Environments and groups ─────────────────────────────────────────────────

/// Id of an environment in the expanded set.
pub open spec fn env_id(in_ns: bool, ns: Seq<char>, g: Seq<char>, e: Seq<char>) -> Seq<char> {
    if in_ns {
        "NS:"@ + ns + ":Env:"@ + g + ":"@ + e
    } else {
        "Env:"@ + g + ":"@ + e
    }
}

/// Id of a group in the expanded set.
pub open spec fn group_id(in_ns: bool, ns: Seq<char>, g: Seq<char>) -> Seq<char> {
    if in_ns {
        "NS:"@ + ns + ":Group:"@ + g
    } else {
        "Group:"@ + g
    }
}

/// Id of an included file in the expanded set.
pub open spec fn ns_id(label: Seq<char>) -> Seq<char> {
    "NS:"@ + label
}

fn env_id_exec(in_ns: bool, ns: &str, g: &str, e: &str) -> (r: String)
    ensures
        r@ == env_id(in_ns, ns@, g@, e@),
{
    let mut id = String::new();
    if in_ns {
        push_str(&mut id, "NS:");
        push_str(&mut id, ns);
        push_str(&mut id, ":Env:");
    } else {
        push_str(&mut id, "Env:");
    }
    push_str(&mut id, g);
    push_str(&mut id, ":");
    push_str(&mut id, e);
    assert(id@ =~= env_id(in_ns, ns@, g@, e@));
    id
}

pub fn group_id_exec(in_ns: bool, ns: &str, g: &str) -> (r: String)
    ensures
        r@ == group_id(in_ns, ns@, g@),
{
    let mut id = String::new();
    if in_ns {
        push_str(&mut id, "NS:");
        push_str(&mut id, ns);
        push_str(&mut id, ":Group:");
    } else {
        push_str(&mut id, "Group:");
    }
    push_str(&mut id, g);
    assert(id@ =~= group_id(in_ns, ns@, g@));
    id
}

pub fn ns_id_exec(label: &str) -> (r: String)
    ensures
        r@ == ns_id(label@),
{
    let mut id = String::new();
    push_str(&mut id, "NS:");
    push_str(&mut id, label);
    assert(id@ =~= ns_id(label@));
    id
}

pub fn env_id_of(in_ns: bool, ns: &str, g: &str, e: &str) -> (r: String)
    ensures
        r@ == env_id(in_ns, ns@, g@, e@),
{
    env_id_exec(in_ns, ns, g, e)
}

/// Rows of an environment of group `g`: hidden in favorites mode when none
/// of its servers is a favorite; its header, then its servers when open.
pub open spec fn env_rows(c: TreeCtx, env: Environment, g: Seq<char>, ns: Seq<char>, in_ns: bool) -> Seq<
    ItemView,
> {
    if c.favorites_only && !has_fav_server(c, env.servers@, g, env.name@, ns) {
        seq![]
    } else {
        seq![ItemView::Environment(g, env.name@, ns)] + (if is_open(
            c,
            env_id(in_ns, ns, g, env.name@),
        ) {
            servers_rows(c, env.servers@, g, env.name@, ns, true)
        } else {
            seq![]
        })
    }
}

pub open spec fn envs_rows(c: TreeCtx, envs: Seq<Environment>, g: Seq<char>, ns: Seq<char>, in_ns: bool) -> Seq<
    ItemView,
>
    decreases envs.len(),
{
    if envs.len() == 0 {
        seq![]
    } else {
        envs_rows(c, envs.drop_last(), g, ns, in_ns) + env_rows(c, envs.last(), g, ns, in_ns)
    }
}

/// Rows under an open group: its environments, then its direct servers.
pub open spec fn group_children(c: TreeCtx, grp: Group, ns: Seq<char>, in_ns: bool) -> Seq<ItemView> {
    (match grp.environments {
        Some(envs) => envs_rows(c, envs@, grp.name@, ns, in_ns),
        None => seq![],
    }) + (match grp.servers {
        Some(svs) => servers_rows(c, svs@, grp.name@, seq![], ns, true),
        None => seq![],
    })
}

/// Some server of the group (in an environment or direct) is a favorite.
pub open spec fn group_has_fav(c: TreeCtx, grp: Group, ns: Seq<char>) -> bool {
    (match grp.environments {
        Some(envs) => exists|i: int|
            0 <= i < envs@.len() && has_fav_server(
                c,
                (#[trigger] envs@[i]).servers@,
                grp.name@,
                envs@[i].name@,
                ns,
            ),
        None => false,
    }) || (match grp.servers {
        Some(svs) => has_fav_server(c, svs@, grp.name@, seq![], ns),
        None => false,
    })
}

fn push_env(t: &Tree, env: &Environment, g: &str, ns: &str, in_ns: bool, items: &mut Vec<ConfigItem>)
    ensures
        items_view(final(items)@) == items_view(old(items)@) + env_rows(t.ctx(), *env, g@, ns@, in_ns),
{
    let ghost c = t.ctx();
    let ghost start = items_view(items@);
    if t.favorites_only && !has_fav_server_exec(t, &env.servers, g, env.name.as_str(), ns) {
        assert(items_view(items@) =~= start + env_rows(c, *env, g@, ns@, in_ns));
        return ;
    }
    let header = ConfigItem::Environment(String::from_str(g), env.name.clone(), String::from_str(ns));
    items.push(header);
    let ghost after_header = items_view(items@);
    assert(after_header =~= start + seq![ItemView::Environment(g@, env.name@, ns@)]);
    let id = env_id_exec(in_ns, ns, g, env.name.as_str());
    if contains_string(t.expanded, id.as_str()) || !t.query.is_empty() {
        push_servers(t, &env.servers, g, env.name.as_str(), ns, true, items);
    }
    assert(items_view(items@) =~= start + env_rows(c, *env, g@, ns@, in_ns));
}

fn push_envs(t: &Tree, envs: &Vec<Environment>, g: &str, ns: &str, in_ns: bool, items: &mut Vec<ConfigItem>)
    ensures
        items_view(final(items)@) == items_view(old(items)@) + envs_rows(t.ctx(), envs@, g@, ns@, in_ns),
{
    let ghost start = items_view(items@);
    let mut i: usize = 0;
    while i < envs.len()
        invariant
            i <= envs@.len(),
            items_view(items@) == start + envs_rows(t.ctx(), envs@.take(i as int), g@, ns@, in_ns),
        decreases envs@.len() - i,
    {
        assert(envs@.take(i + 1).drop_last() =~= envs@.take(i as int));
        assert(envs@.take(i + 1).last() == envs@[i as int]);
        push_env(t, &envs[i], g, ns, in_ns, items);
        assert(items_view(items@) =~= start + envs_rows(
            t.ctx(),
            envs@.take(i + 1),
            g@,
            ns@,
            in_ns,
        ));
        i += 1;
    }
    assert(envs@.take(i as int) =~= envs@);
}

pub fn push_group_children(t: &Tree, grp: &Group, ns: &str, in_ns: bool, items: &mut Vec<ConfigItem>)
    ensures
        items_view(final(items)@) == items_view(old(items)@) + group_children(t.ctx(), *grp, ns@, in_ns),
{
    let ghost start = items_view(items@);
    match &grp.environments {
        Some(envs) => push_envs(t, envs, grp.name.as_str(), ns, in_ns, items),
        None => {},
    }
    let ghost mid = items_view(items@);
    let none = String::new();
    match &grp.servers {
        Some(svs) => push_servers(t, svs, grp.name.as_str(), none.as_str(), ns, true, items),
        None => {},
    }
    assert(items_view(items@) =~= start + group_children(t.ctx(), *grp, ns@, in_ns));
}

pub fn group_has_fav_exec(t: &Tree, grp: &Group, ns: &str) -> (r: bool)
    ensures
        r == group_has_fav(t.ctx(), *grp, ns@),
{
    let none = String::new();
    match &grp.environments {
        Some(envs) => {
            let mut i: usize = 0;
            while i < envs.len()
                invariant
                    i <= envs@.len(),
                    grp.environments == Some(*envs),
                    forall|k: int|
                        0 <= k < i ==> !has_fav_server(
                            t.ctx(),
                            (#[trigger] envs@[k]).servers@,
                            grp.name@,
                            envs@[k].name@,
                            ns@,
                        ),
                decreases envs@.len() - i,
            {
                if has_fav_server_exec(t, &envs[i].servers, grp.name.as_str(), envs[i].name.as_str(), ns) {
                    assert(has_fav_server(
                        t.ctx(),
                        envs@[i as int].servers@,
                        grp.name@,
                        envs@[i as int].name@,
                        ns@,
                    ));
                    assert(grp.environments == Some(*envs));
                    assert(group_has_fav(t.ctx(), *grp, ns@));
                    return true;
                }
                i += 1;
            }
        },
        None => {},
    }
    match &grp.servers {
        Some(svs) => has_fav_server_exec(t, svs, grp.name.as_str(), none.as_str(), ns),
        None => false,
    }
}

// ─── Included files and the top level ────────────────────────────────────────

/// Index of the first resolved server from `i` on named `name` in file `ns`
/// (whatever its group), or -1.
pub open spec fn name_index_from(rs: Seq<ResolvedView>, name: Seq<char>, ns: Seq<char>, i: nat) -> int
    decreases rs.len() - i,
{
    if i >= rs.len() {
        -1
    } else if rs[i as int].name == name && rs[i as int].namespace == ns {
        i as int
    } else {
        name_index_from(rs, name, ns, i + 1)
    }
}

pub proof fn lemma_name_index(rs: Seq<ResolvedView>, name: Seq<char>, ns: Seq<char>, i: nat)
    ensures
        -1 <= name_index_from(rs, name, ns, i) < rs.len(),
        name_index_from(rs, name, ns, i) >= 0 ==> name_index_from(rs, name, ns, i) >= i
            && rs[name_index_from(rs, name, ns, i)].name == name && rs[name_index_from(
            rs,
            name,
            ns,
            i,
        )].namespace == ns,
        name_index_from(rs, name, ns, i) == -1 ==> forall|j: int|
            i <= j < rs.len() ==> !((#[trigger] rs[j]).name == name && rs[j].namespace == ns),
        forall|j: int|
            i <= j < rs.len() && (#[trigger] rs[j]).name == name && rs[j].namespace == ns
                ==> name_index_from(rs, name, ns, i) <= j,
    decreases rs.len() - i,
{
    if i < rs.len() && !(rs[i as int].name == name && rs[i as int].namespace == ns) {
        lemma_name_index(rs, name, ns, i + 1);
    }
}

/// A direct server of an included file counts as a favorite when the first
/// resolved server of that name in that file is one.
pub open spec fn ns_server_fav(c: TreeCtx, name: Seq<char>, ns: Seq<char>) -> bool {
    let i = name_index_from(c.rs, name, ns, 0);
    0 <= i < c.rs.len() && is_fav(c, spec_server_key(c.rs[i]))
}

pub open spec fn entry_has_fav(c: TreeCtx, e: ConfigEntry, ns: Seq<char>) -> bool {
    match e {
        ConfigEntry::Group(g) => group_has_fav(c, g, ns),
        ConfigEntry::Server(s) => ns_server_fav(c, s.name@, ns),
        ConfigEntry::Namespace(_) => false,
    }
}

/// Some entry of an included file holds a favorite.
pub open spec fn ns_has_fav(c: TreeCtx, es: Seq<ConfigEntry>, ns: Seq<char>) -> bool {
    exists|i: int| 0 <= i < es.len() && entry_has_fav(c, #[trigger] es[i], ns)
}

fn ns_server_fav_exec(t: &Tree, name: &str, ns: &str) -> (r: bool)
    ensures
        r == ns_server_fav(t.ctx(), name@, ns@),
{
    let ghost rs = t.ctx().rs;
    let mut i: usize = 0;
    while i < t.resolved.len()
        invariant
            i <= t.resolved@.len(),
            rs == t.ctx().rs,
            forall|j: int| 0 <= j < i ==> !((#[trigger] rs[j]).name == name@ && rs[j].namespace == ns@),
        decreases t.resolved@.len() - i,
    {
        let r = &t.resolved[i];
        assert(rs[i as int] == r@);
        if str_eq(r.name.as_str(), name) && str_eq(r.namespace.as_str(), ns) {
            proof {
                lemma_name_index(rs, name@, ns@, 0);
            }
            let key = server_key_of(r);
            return contains_string(t.favorites, key.as_str());
        }
        i += 1;
    }
    proof {
        lemma_name_index(rs, name@, ns@, 0);
    }
    false
}

fn ns_has_fav_exec(t: &Tree, es: &Vec<ConfigEntry>, ns: &str) -> (r: bool)
    ensures
        r == ns_has_fav(t.ctx(), es@, ns@),
{
    let mut i: usize = 0;
    while i < es.len()
        invariant
            i <= es@.len(),
            forall|k: int| 0 <= k < i ==> !entry_has_fav(t.ctx(), #[trigger] es@[k], ns@),
        decreases es@.len() - i,
    {
        let hit = match &es[i] {
            ConfigEntry::Group(g) => group_has_fav_exec(t, g, ns),
            ConfigEntry::Server(s) => ns_server_fav_exec(t, s.name.as_str(), ns),
            ConfigEntry::Namespace(_) => false,
        };
        if hit {
            assert(entry_has_fav(t.ctx(), es@[i as int], ns@));
            return true;
        }
        i += 1;
    }
    false
}

/// Rows of one entry of an included file `ns`: a group header (its children
/// when open), or a server (filtered by the search only).
pub open spec fn ns_entry_rows(c: TreeCtx, e: ConfigEntry, ns: Seq<char>) -> Seq<ItemView> {
    match e {
        ConfigEntry::Group(g) => seq![ItemView::Group(g.name@, ns)] + (if is_open(
            c,
            group_id(true, ns, g.name@),
        ) {
            group_children(c, g, ns, true)
        } else {
            seq![]
        }),
        ConfigEntry::Server(s) => server_row(c, s.name@, seq![], seq![], ns, false),
        ConfigEntry::Namespace(_) => seq![],
    }
}

pub open spec fn ns_entries_rows(c: TreeCtx, es: Seq<ConfigEntry>, ns: Seq<char>) -> Seq<ItemView>
    decreases es.len(),
{
    if es.len() == 0 {
        seq![]
    } else {
        ns_entries_rows(c, es.drop_last(), ns) + ns_entry_rows(c, es.last(), ns)
    }
}

fn push_ns_entries(t: &Tree, es: &Vec<ConfigEntry>, ns: &str, items: &mut Vec<ConfigItem>)
    ensures
        items_view(final(items)@) == items_view(old(items)@) + ns_entries_rows(t.ctx(), es@, ns@),
{
    let ghost start = items_view(items@);
    let none = String::new();
    let mut i: usize = 0;
    while i < es.len()
        invariant
            i <= es@.len(),
            none@ == Seq::<char>::empty(),
            items_view(items@) == start + ns_entries_rows(t.ctx(), es@.take(i as int), ns@),
        decreases es@.len() - i,
    {
        assert(es@.take(i + 1).drop_last() =~= es@.take(i as int));
        assert(es@.take(i + 1).last() == es@[i as int]);
        let ghost before = items_view(items@);
        match &es[i] {
            ConfigEntry::Group(g) => {
                items.push(ConfigItem::Group(g.name.clone(), String::from_str(ns)));
                let id = group_id_exec(true, ns, g.name.as_str());
                if contains_string(t.expanded, id.as_str()) || !t.query.is_empty() {
                    push_group_children(t, g, ns, true, items);
                }
            },
            ConfigEntry::Server(s) => {
                push_server_row(t, s.name.as_str(), none.as_str(), none.as_str(), ns, false, items);
            },
            ConfigEntry::Namespace(_) => {},
        }
        assert(items_view(items@) =~= before + ns_entry_rows(t.ctx(), es@[i as int], ns@));
        i += 1;
    }
    assert(es@.take(i as int) =~= es@);
}

/// Rows of one top-level entry: an included file (hidden in favorites mode
/// without a favorite; its entries when open), a server, or a group
/// (hidden in favorites mode without a favorite; its children when open).
pub open spec fn top_rows(c: TreeCtx, e: ConfigEntry) -> Seq<ItemView> {
    match e {
        ConfigEntry::Namespace(ns) => if c.favorites_only && !ns_has_fav(c, ns.entries@, ns.label@) {
            seq![]
        } else {
            seq![ItemView::Namespace(ns.label@)] + (if is_open(c, ns_id(ns.label@)) {
                ns_entries_rows(c, ns.entries@, ns.label@)
            } else {
                seq![]
            })
        },
        ConfigEntry::Server(s) => server_row(c, s.name@, seq![], seq![], seq![], true),
        ConfigEntry::Group(g) => if c.favorites_only && !group_has_fav(c, g, seq![]) {
            seq![]
        } else {
            seq![ItemView::Group(g.name@, seq![])] + (if is_open(c, group_id(false, seq![], g.name@)) {
                group_children(c, g, seq![], false)
            } else {
                seq![]
            })
        },
    }
}

/// The rows of the tree, entry after entry.
pub open spec fn tree_rows(c: TreeCtx, es: Seq<ConfigEntry>) -> Seq<ItemView>
    decreases es.len(),
{
    if es.len() == 0 {
        seq![]
    } else {
        tree_rows(c, es.drop_last()) + top_rows(c, es.last())
    }
}

/// Builds the rows of the tree (see `tree_rows`).
pub fn tree_items(t: &Tree, es: &Vec<ConfigEntry>) -> (r: Vec<ConfigItem>)
    ensures
        items_view(r@) == tree_rows(t.ctx(), es@),
{
    let mut items: Vec<ConfigItem> = Vec::new();
    let none = String::new();
    let mut i: usize = 0;
    assert(items_view(items@) =~= tree_rows(t.ctx(), es@.take(0)));
    while i < es.len()
        invariant
            i <= es@.len(),
            none@ == Seq::<char>::empty(),
            items_view(items@) == tree_rows(t.ctx(), es@.take(i as int)),
        decreases es@.len() - i,
    {
        assert(es@.take(i + 1).drop_last() =~= es@.take(i as int));
        assert(es@.take(i + 1).last() == es@[i as int]);
        let ghost before = items_view(items@);
        match &es[i] {
            ConfigEntry::Namespace(ns) => {
                if !t.favorites_only || ns_has_fav_exec(t, &ns.entries, ns.label.as_str()) {
                    items.push(ConfigItem::Namespace(ns.label.clone()));
                    let id = ns_id_exec(ns.label.as_str());
                    if contains_string(t.expanded, id.as_str()) || !t.query.is_empty() {
                        push_ns_entries(t, &ns.entries, ns.label.as_str(), &mut items);
                    }
                }
            },
            ConfigEntry::Server(s) => {
                push_server_row(
                    t,
                    s.name.as_str(),
                    none.as_str(),
                    none.as_str(),
                    none.as_str(),
                    true,
                    &mut items,
                );
            },
            ConfigEntry::Group(g) => {
                if !t.favorites_only || group_has_fav_exec(t, g, none.as_str()) {
                    items.push(ConfigItem::Group(g.name.clone(), String::new()));
                    let id = group_id_exec(false, none.as_str(), g.name.as_str());
                    if contains_string(t.expanded, id.as_str()) || !t.query.is_empty() {
                        push_group_children(t, g, none.as_str(), false, &mut items);
                    }
                }
            },
        }
        assert(items_view(items@) =~= before + top_rows(t.ctx(), es@[i as int]));
        i += 1;
    }
    assert(es@.take(i as int) =~= es@);
    items
}

// ─── The "recent" mode ───────────────────────────────────────────────────────

pub open spec fn seen_view(v: Seq<(String, u64)>) -> Seq<(Seq<char>, u64)> {
    v.map_values(|p: (String, u64)| (p.0@, p.1))
}

/// Time of the last connection recorded under `key` (the first entry with
/// that key), 0 when there is none.
pub open spec fn last_seen_in(ls: Seq<(Seq<char>, u64)>, key: Seq<char>) -> u64
    decreases ls.len(),
{
    if ls.len() == 0 {
        0
    } else if ls[0].0 == key {
        ls[0].1
    } else {
        last_seen_in(ls.drop_first(), key)
    }
}

/// A connection was recorded under `key`.
pub open spec fn has_seen(ls: Seq<(Seq<char>, u64)>, key: Seq<char>) -> bool {
    exists|i: int| 0 <= i < ls.len() && (#[trigger] ls[i]).0 == key
}

pub fn last_seen_lookup(ls: &Vec<(String, u64)>, key: &str) -> (r: Option<u64>)
    ensures
        r == (if has_seen(seen_view(ls@), key@) {
            Some(last_seen_in(seen_view(ls@), key@))
        } else {
            None::<u64>
        }),
{
    let ghost sv = seen_view(ls@);
    let mut i: usize = 0;
    assert(sv.skip(0) =~= sv);
    while i < ls.len()
        invariant
            i <= ls@.len(),
            sv == seen_view(ls@),
            forall|j: int| 0 <= j < i ==> (#[trigger] ls@[j]).0@ != key@,
            last_seen_in(sv, key@) == last_seen_in(sv.skip(i as int), key@),
        decreases ls@.len() - i,
    {
        assert(sv.skip(i as int)[0] == sv[i as int]);
        assert(sv[i as int] == (ls@[i as int].0@, ls@[i as int].1));
        if str_eq(ls[i].0.as_str(), key) {
            assert(has_seen(sv, key@));
            return Some(ls[i].1);
        }
        assert(sv.skip(i as int).drop_first() =~= sv.skip(i + 1));
        i += 1;
    }
    assert(sv.skip(i as int).len() == 0);
    proof {
        if has_seen(sv, key@) {
            let j = choose|j: int| 0 <= j < sv.len() && (#[trigger] sv[j]).0 == key@;
            assert(sv[j] == (ls@[j].0@, ls@[j].1));
        }
    }
    None
}

/// Time of the last connection under `key`, 0 when there is none.
pub fn last_seen_or_zero(ls: &Vec<(String, u64)>, key: &str) -> (r: u64)
    ensures
        r == last_seen_in(seen_view(ls@), key@),
{
    match last_seen_lookup(ls, key) {
        Some(t) => t,
        None => {
            proof {
                lemma_last_seen_absent(seen_view(ls@), key@);
            }
            0
        },
    }
}

pub proof fn lemma_last_seen_absent(ls: Seq<(Seq<char>, u64)>, key: Seq<char>)
    ensures
        (forall|i: int| 0 <= i < ls.len() ==> (#[trigger] ls[i]).0 != key) ==> last_seen_in(ls, key)
            == 0,
    decreases ls.len(),
{
    if ls.len() > 0 {
        lemma_last_seen_absent(ls.drop_first(), key);
        if forall|i: int| 0 <= i < ls.len() ==> (#[trigger] ls[i]).0 != key {
            assert(ls[0].0 != key);
            assert forall|i: int| 0 <= i < ls.drop_first().len() implies (
            #[trigger] ls.drop_first()[i]).0 != key by {
                assert(ls.drop_first()[i] == ls[i + 1]);
            }
        }
    }
}

/// A server is listed in the "recent" mode when it passes the favorites
/// filter and the search.
pub open spec fn recent_candidate(c: TreeCtx, r: ResolvedView) -> bool {
    (!c.favorites_only || is_fav(c, spec_server_key(r))) && (!searching(c) || spec_matches_query(
        c.query,
        r.name,
        r.host,
        r.tags,
    ))
}

/// The servers of the "recent" mode with their last connection, in the
/// order of `rs`.
pub open spec fn recent_pool(c: TreeCtx, rs: Seq<ResolvedView>, ls: Seq<(Seq<char>, u64)>) -> Seq<
    (u64, ResolvedView),
>
    decreases rs.len(),
{
    if rs.len() == 0 {
        seq![]
    } else {
        recent_pool(c, rs.drop_last(), ls) + (if recent_candidate(c, rs.last()) {
            seq![(last_seen_in(ls, spec_server_key(rs.last())), rs.last())]
        } else {
            seq![]
        })
    }
}

/// `out` is `inp` reordered by the permutation `idx`, latest connection
/// first, servers with the same time in their original order.
pub open spec fn recent_sorted_with(
    out: Seq<(u64, ResolvedView)>,
    inp: Seq<(u64, ResolvedView)>,
    idx: Seq<int>,
) -> bool {
    &&& out.len() == inp.len()
    &&& idx.len() == inp.len()
    &&& forall|k: int| 0 <= k < idx.len() ==> 0 <= #[trigger] idx[k] < inp.len()
    &&& forall|k: int| 0 <= k < idx.len() ==> #[trigger] out[k] == inp[idx[k]]
    &&& forall|a: int, b: int| #![trigger idx[a], idx[b]] 0 <= a < b < idx.len() ==> idx[a] != idx[b]
    &&& forall|a: int, b: int| #![trigger out[a], out[b]] 0 <= a < b < out.len() ==> out[a].0 >= out[b].0
    &&& forall|a: int, b: int|
        #![trigger out[a], out[b]]
        0 <= a < b < out.len() && out[a].0 == out[b].0 ==> idx[a] < idx[b]
}

/// The rows of the "recent" mode: the servers of `recent_pool` sorted by
/// their last connection, latest first, ties in configuration order.
pub open spec fn is_recent_rows(rows: Seq<ItemView>, c: TreeCtx, ls: Seq<(Seq<char>, u64)>) -> bool {
    exists|out: Seq<(u64, ResolvedView)>, idx: Seq<int>|
        recent_sorted_with(out, recent_pool(c, c.rs, ls), idx) && rows == out.map_values(
            |p: (u64, ResolvedView)| ItemView::Server(p.1),
        )
}

pub open spec fn pairs_view(v: Seq<(u64, ResolvedServer)>) -> Seq<(u64, ResolvedView)> {
    v.map_values(|p: (u64, ResolvedServer)| (p.0, p.1@))
}

/// The rows of the "recent" mode (see `is_recent_rows`).
pub fn recent_items(t: &Tree, last_seen: &Vec<(String, u64)>) -> (r: Vec<ConfigItem>)
    ensures
        is_recent_rows(items_view(r@), t.ctx(), seen_view(last_seen@)),
{
    let ghost c = t.ctx();
    let ghost ls = seen_view(last_seen@);
    let mut pool: Vec<(u64, ResolvedServer)> = Vec::new();
    let mut i: usize = 0;
    assert(pairs_view(pool@) =~= recent_pool(c, c.rs.take(0), ls));
    while i < t.resolved.len()
        invariant
            i <= t.resolved@.len(),
            c == t.ctx(),
            ls == seen_view(last_seen@),
            pairs_view(pool@) == recent_pool(c, c.rs.take(i as int), ls),
        decreases t.resolved@.len() - i,
    {
        let r = &t.resolved[i];
        assert(c.rs[i as int] == r@);
        assert(c.rs.take(i + 1).drop_last() =~= c.rs.take(i as int));
        assert(c.rs.take(i + 1).last() == r@);
        let key = server_key_of(r);
        let fav_ok = !t.favorites_only || contains_string(t.favorites, key.as_str());
        let search_ok = fav_ok && (t.query.is_empty() || matches_search_query(
            t.query,
            r.name.as_str(),
            r.host.as_str(),
            &r.tags,
        ));
        let ghost before = pairs_view(pool@);
        if fav_ok && search_ok {
            let ts = last_seen_or_zero(last_seen, key.as_str());
            pool.push((ts, r.clone()));
            assert(pairs_view(pool@) =~= before.push((ts, r@)));
        }
        assert(pairs_view(pool@) =~= recent_pool(c, c.rs.take(i + 1), ls));
        i += 1;
    }
    assert(c.rs.take(i as int) =~= c.rs);
    let sorted = sort_recent(pool);
    let ghost out = pairs_view(sorted@);
    let mut items: Vec<ConfigItem> = Vec::new();
    let mut k: usize = 0;
    while k < sorted.len()
        invariant
            k <= sorted@.len(),
            out == pairs_view(sorted@),
            items_view(items@) == out.take(k as int).map_values(
                |p: (u64, ResolvedView)| ItemView::Server(p.1),
            ),
        decreases sorted@.len() - k,
    {
        let ghost before = items_view(items@);
        let s = sorted[k].1.clone();
        items.push(ConfigItem::Server(Box::new(s)));
        assert(out[k as int].1 == s@);
        assert(out.take(k + 1) =~= out.take(k as int).push(out[k as int]));
        assert(items_view(items@) =~= before.push(ItemView::Server(s@)));
        assert(items_view(items@) =~= out.take(k + 1).map_values(
            |p: (u64, ResolvedView)| ItemView::Server(p.1),
        ));
        k += 1;
    }
    assert(out.take(k as int) =~= out);
    proof {
        let idx = choose|idx: Seq<int>| recent_sorted_with(out, recent_pool(c, c.rs, ls), idx);
        assert(recent_sorted_with(out, recent_pool(c, c.rs, ls), idx));
        assert(items_view(items@) == out.map_values(|p: (u64, ResolvedView)| ItemView::Server(p.1)));
    }
    items
}

/// Insertion sort by time, latest first, keeping the order of equal times.
fn sort_recent(v: Vec<(u64, ResolvedServer)>) -> (r: Vec<(u64, ResolvedServer)>)
    ensures
        exists|idx: Seq<int>| recent_sorted_with(pairs_view(r@), pairs_view(v@), idx),
{
    let ghost inp = pairs_view(v@);
    let n = v.len();
    let mut rest = v;
    let mut out: Vec<(u64, ResolvedServer)> = Vec::new();
    let ghost mut idx: Seq<int> = seq![];
    let mut m: usize = 0;
    assert(pairs_view(rest@) =~= inp.skip(0));
    assert(pairs_view(out@) =~= Seq::<(u64, ResolvedView)>::empty());
    while m < n
        invariant
            m <= n == inp.len(),
            pairs_view(rest@) == inp.skip(m as int),
            recent_sorted_with(pairs_view(out@), inp.take(m as int), idx),
            forall|k: int| 0 <= k < idx.len() ==> #[trigger] idx[k] < m,
        decreases n - m,
    {
        let ghost rest_before = rest@;
        assert(pairs_view(rest@).len() == rest@.len());
        let x = rest.remove(0);
        assert(pairs_view(rest_before)[0] == (x.0, x.1@));
        assert((x.0, x.1@) == inp[m as int]);
        assert forall|k: int| 0 <= k < pairs_view(rest@).len() implies #[trigger] pairs_view(
            rest@,
        )[k] == inp.skip(m + 1)[k] by {
            assert(rest@[k] == rest_before[k + 1]);
            assert(pairs_view(rest_before)[k + 1] == inp.skip(m as int)[k + 1]);
        }
        assert(pairs_view(rest@) =~= inp.skip(m + 1));
        let ghost ov = pairs_view(out@);
        let mut pos: usize = 0;
        while pos < out.len() && out[pos].0 >= x.0
            invariant
                pos <= out@.len(),
                ov == pairs_view(out@),
                forall|k: int| 0 <= k < pos ==> (#[trigger] ov[k]).0 >= x.0,
            decreases out@.len() - pos,
        {
            pos += 1;
        }
        let ghost old_out = pairs_view(out@);
        let ghost old_idx = idx;
        let ghost prev = inp.take(m as int);
        let ghost xv = (x.0, x.1@);
        out.insert(pos, x);
        proof {
            assert(pairs_view(out@) =~= old_out.insert(pos as int, xv));
            idx = old_idx.insert(pos as int, m as int);
            let o = pairs_view(out@);
            let cur = inp.take(m + 1);
            assert(old_out.len() == m);
            assert forall|k: int| 0 <= k < idx.len() implies #[trigger] o[k] == cur[idx[k]] by {
                if k < pos {
                    assert(o[k] == old_out[k]);
                    assert(idx[k] == old_idx[k]);
                    assert(old_out[k] == prev[old_idx[k]]);
                } else if k > pos {
                    assert(o[k] == old_out[k - 1]);
                    assert(idx[k] == old_idx[k - 1]);
                    assert(old_out[k - 1] == prev[old_idx[k - 1]]);
                }
            }
            assert forall|k: int| 0 <= k < idx.len() implies 0 <= #[trigger] idx[k] < cur.len()
                && idx[k] < m + 1 by {
                if k < pos {
                    assert(idx[k] == old_idx[k]);
                } else if k > pos {
                    assert(idx[k] == old_idx[k - 1]);
                }
            }
            assert forall|a: int, b: int| #![trigger idx[a], idx[b]] 0 <= a < b < idx.len()
                implies idx[a] != idx[b] by {
                if a != pos && b != pos {
                    let oa = if a < pos { a } else { a - 1 };
                    let ob = if b < pos { b } else { b - 1 };
                    assert(idx[a] == old_idx[oa]);
                    assert(idx[b] == old_idx[ob]);
                    assert(old_idx[oa] != old_idx[ob]);
                } else if a == pos {
                    assert(idx[b] == old_idx[b - 1]);
                    assert(old_idx[b - 1] < m);
                } else {
                    assert(idx[a] == old_idx[a]);
                    assert(old_idx[a] < m);
                }
            }
            assert forall|a: int, b: int| #![trigger o[a], o[b]] 0 <= a < b < o.len()
                implies o[a].0 >= o[b].0 && (o[a].0 == o[b].0 ==> idx[a] < idx[b]) by {
                if a != pos && b != pos {
                    let oa = if a < pos { a } else { a - 1 };
                    let ob = if b < pos { b } else { b - 1 };
                    assert(o[a] == old_out[oa]);
                    assert(o[b] == old_out[ob]);
                    assert(idx[a] == old_idx[oa]);
                    assert(idx[b] == old_idx[ob]);
                } else if b == pos {
                    assert(o[a] == old_out[a]);
                    assert(idx[a] == old_idx[a]);
                    assert(old_idx[a] < m);
                } else {
                    assert(pos < old_out.len());
                    assert(old_out[pos as int].0 < xv.0);
                    assert(o[b] == old_out[b - 1]);
                    if b - 1 > pos {
                        assert(old_out[pos as int].0 >= old_out[b - 1].0);
                    }
                }
            }
            assert(recent_sorted_with(o, cur, idx));
        }
        m += 1;
    }
    assert(inp.take(n as int) =~= inp);
    out
}

// ─── Laws of the tree ────────────────────────────────────────────────────────

/// What holds of a server row: it is one of the resolved servers, it
/// matches the search while searching, and (when the favorites filter
/// applies to it) it is a favorite in favorites mode.
pub open spec fn row_law(c: TreeCtx, r: ResolvedView, fav_checked: bool) -> bool {
    &&& c.rs.contains(r)
    &&& (searching(c) ==> spec_matches_query(c.query, r.name, r.host, r.tags))
    &&& (fav_checked && c.favorites_only ==> is_fav(c, spec_server_key(r)))
}

/// Every server row of `rows` obeys `row_law`.
pub open spec fn rows_obey(rows: Seq<ItemView>, c: TreeCtx, fav_checked: bool) -> bool {
    forall|i: int|
        0 <= i < rows.len() ==> match #[trigger] rows[i] {
            ItemView::Server(r) => row_law(c, r, fav_checked),
            _ => true,
        }
}

proof fn lemma_obey_concat(a: Seq<ItemView>, b: Seq<ItemView>, c: TreeCtx, f: bool)
    requires
        rows_obey(a, c, f),
        rows_obey(b, c, f),
    ensures
        rows_obey(a + b, c, f),
{
    assert forall|i: int| 0 <= i < (a + b).len() implies match #[trigger] (a + b)[i] {
        ItemView::Server(r) => row_law(c, r, f),
        _ => true,
    } by {
        if i < a.len() {
            assert((a + b)[i] == a[i]);
        } else {
            assert((a + b)[i] == b[i - a.len()]);
        }
    }
}

pub proof fn lemma_rows_obey_weaken(a: Seq<ItemView>, c: TreeCtx)
    requires
        rows_obey(a, c, true),
    ensures
        rows_obey(a, c, false),
{
    assert forall|i: int| 0 <= i < a.len() implies match #[trigger] a[i] {
        ItemView::Server(r) => row_law(c, r, false),
        _ => true,
    } by {
        assert(match a[i] {
            ItemView::Server(r) => row_law(c, r, true),
            _ => true,
        });
    }
}

proof fn lemma_server_row_obeys(
    c: TreeCtx,
    name: Seq<char>,
    g: Seq<char>,
    e: Seq<char>,
    ns: Seq<char>,
    check_fav: bool,
)
    ensures
        rows_obey(server_row(c, name, g, e, ns, check_fav), c, check_fav),
{
    lemma_place_index(c.rs, name, g, e, ns, 0);
    let rows = server_row(c, name, g, e, ns, check_fav);
    assert forall|i: int| 0 <= i < rows.len() implies match #[trigger] rows[i] {
        ItemView::Server(r) => row_law(c, r, check_fav),
        _ => true,
    } by {
        let k = place_index_from(c.rs, name, g, e, ns, 0);
        assert(c.rs[k] == found(c.rs, name, g, e, ns).unwrap());
        assert(c.rs.contains(c.rs[k]));
    }
}

proof fn lemma_servers_rows_obey(
    c: TreeCtx,
    svs: Seq<Server>,
    g: Seq<char>,
    e: Seq<char>,
    ns: Seq<char>,
    check_fav: bool,
)
    ensures
        rows_obey(servers_rows(c, svs, g, e, ns, check_fav), c, check_fav),
    decreases svs.len(),
{
    if svs.len() > 0 {
        lemma_servers_rows_obey(c, svs.drop_last(), g, e, ns, check_fav);
        lemma_server_row_obeys(c, svs.last().name@, g, e, ns, check_fav);
        lemma_obey_concat(
            servers_rows(c, svs.drop_last(), g, e, ns, check_fav),
            server_row(c, svs.last().name@, g, e, ns, check_fav),
            c,
            check_fav,
        );
    }
}

proof fn lemma_envs_rows_obey(c: TreeCtx, envs: Seq<Environment>, g: Seq<char>, ns: Seq<char>, in_ns: bool)
    ensures
        rows_obey(envs_rows(c, envs, g, ns, in_ns), c, true),
    decreases envs.len(),
{
    if envs.len() > 0 {
        lemma_envs_rows_obey(c, envs.drop_last(), g, ns, in_ns);
        let env = envs.last();
        let header = seq![ItemView::Environment(g, env.name@, ns)];
        assert(rows_obey(header, c, true)) by {
            assert forall|i: int| 0 <= i < header.len() implies match #[trigger] header[i] {
                ItemView::Server(r) => row_law(c, r, true),
                _ => true,
            } by {
                assert(header[i] == ItemView::Environment(g, env.name@, ns));
            }
        }
        lemma_servers_rows_obey(c, env.servers@, g, env.name@, ns, true);
        let body = if is_open(c, env_id(in_ns, ns, g, env.name@)) {
            servers_rows(c, env.servers@, g, env.name@, ns, true)
        } else {
            seq![]
        };
        lemma_obey_concat(header, body, c, true);
        lemma_obey_concat(envs_rows(c, envs.drop_last(), g, ns, in_ns), env_rows(c, env, g, ns, in_ns), c, true);
    }
}

proof fn lemma_group_children_obey(c: TreeCtx, grp: Group, ns: Seq<char>, in_ns: bool)
    ensures
        rows_obey(group_children(c, grp, ns, in_ns), c, true),
{
    let a = match grp.environments {
        Some(envs) => envs_rows(c, envs@, grp.name@, ns, in_ns),
        None => seq![],
    };
    let b = match grp.servers {
        Some(svs) => servers_rows(c, svs@, grp.name@, seq![], ns, true),
        None => seq![],
    };
    match grp.environments {
        Some(envs) => lemma_envs_rows_obey(c, envs@, grp.name@, ns, in_ns),
        None => {},
    }
    match grp.servers {
        Some(svs) => lemma_servers_rows_obey(c, svs@, grp.name@, seq![], ns, true),
        None => {},
    }
    lemma_obey_concat(a, b, c, true);
}

proof fn lemma_header_obeys(h: ItemView, c: TreeCtx, f: bool)
    requires
        !(h is Server),
    ensures
        rows_obey(seq![h], c, f),
{
    assert forall|i: int| 0 <= i < seq![h].len() implies match #[trigger] seq![h][i] {
        ItemView::Server(r) => row_law(c, r, f),
        _ => true,
    } by {
        assert(seq![h][i] == h);
    }
}

proof fn lemma_ns_entries_obey(c: TreeCtx, es: Seq<ConfigEntry>, ns: Seq<char>)
    ensures
        rows_obey(ns_entries_rows(c, es, ns), c, false),
    decreases es.len(),
{
    if es.len() > 0 {
        lemma_ns_entries_obey(c, es.drop_last(), ns);
        let e = es.last();
        match e {
            ConfigEntry::Group(g) => {
                lemma_header_obeys(ItemView::Group(g.name@, ns), c, false);
                lemma_group_children_obey(c, g, ns, true);
                lemma_rows_obey_weaken(group_children(c, g, ns, true), c);
                let body = if is_open(c, group_id(true, ns, g.name@)) {
                    group_children(c, g, ns, true)
                } else {
                    seq![]
                };
                lemma_obey_concat(seq![ItemView::Group(g.name@, ns)], body, c, false);
            },
            ConfigEntry::Server(s) => {
                lemma_server_row_obeys(c, s.name@, seq![], seq![], ns, false);
            },
            ConfigEntry::Namespace(_) => {},
        }
        lemma_obey_concat(ns_entries_rows(c, es.drop_last(), ns), ns_entry_rows(c, e, ns), c, false);
    }
}

proof fn lemma_top_rows_obey(c: TreeCtx, e: ConfigEntry)
    ensures
        rows_obey(top_rows(c, e), c, false),
        !(e is Namespace) ==> rows_obey(top_rows(c, e), c, true),
{
    match e {
        ConfigEntry::Namespace(ns) => {
            lemma_header_obeys(ItemView::Namespace(ns.label@), c, false);
            lemma_ns_entries_obey(c, ns.entries@, ns.label@);
            let body = if is_open(c, ns_id(ns.label@)) {
                ns_entries_rows(c, ns.entries@, ns.label@)
            } else {
                seq![]
            };
            lemma_obey_concat(seq![ItemView::Namespace(ns.label@)], body, c, false);
        },
        ConfigEntry::Server(s) => {
            lemma_server_row_obeys(c, s.name@, seq![], seq![], seq![], true);
            lemma_rows_obey_weaken(top_rows(c, e), c);
        },
        ConfigEntry::Group(g) => {
            lemma_header_obeys(ItemView::Group(g.name@, seq![]), c, true);
            lemma_group_children_obey(c, g, seq![], false);
            let body = if is_open(c, group_id(false, seq![], g.name@)) {
                group_children(c, g, seq![], false)
            } else {
                seq![]
            };
            lemma_obey_concat(seq![ItemView::Group(g.name@, seq![])], body, c, true);
            lemma_rows_obey_weaken(top_rows(c, e), c);
        },
    }
}

/// Every server row of the tree is one of the resolved servers and, while
/// searching, matches the search; in favorites mode, when no entry of the
/// top level is an included file, every server row is a favorite.
pub proof fn lemma_tree_rows_obey(c: TreeCtx, es: Seq<ConfigEntry>)
    ensures
        rows_obey(tree_rows(c, es), c, false),
        (forall|k: int| 0 <= k < es.len() ==> !((#[trigger] es[k]) is Namespace)) ==> rows_obey(
            tree_rows(c, es),
            c,
            true,
        ),
    decreases es.len(),
{
    if es.len() > 0 {
        lemma_tree_rows_obey(c, es.drop_last());
        lemma_top_rows_obey(c, es.last());
        lemma_obey_concat(tree_rows(c, es.drop_last()), top_rows(c, es.last()), c, false);
        if forall|k: int| 0 <= k < es.len() ==> !((#[trigger] es[k]) is Namespace) {
            assert forall|k: int| 0 <= k < es.drop_last().len() implies !((
            #[trigger] es.drop_last()[k]) is Namespace) by {
                assert(es.drop_last()[k] == es[k]);
            }
            assert(!(es[es.len() - 1] is Namespace));
            lemma_obey_concat(tree_rows(c, es.drop_last()), top_rows(c, es.last()), c, true);
        }
    }
}

proof fn lemma_recent_pool(c: TreeCtx, rs: Seq<ResolvedView>, ls: Seq<(Seq<char>, u64)>)
    ensures
        forall|j: int|
            0 <= j < recent_pool(c, rs, ls).len() ==> rs.contains((#[trigger] recent_pool(c, rs, ls)[j]).1)
                && recent_candidate(c, recent_pool(c, rs, ls)[j].1),
    decreases rs.len(),
{
    if rs.len() > 0 {
        lemma_recent_pool(c, rs.drop_last(), ls);
        let prev = recent_pool(c, rs.drop_last(), ls);
        let pool = recent_pool(c, rs, ls);
        assert forall|j: int| 0 <= j < pool.len() implies rs.contains((#[trigger] pool[j]).1)
            && recent_candidate(c, pool[j].1) by {
            if j < prev.len() {
                assert(pool[j] == prev[j]);
                let k = choose|k: int| 0 <= k < rs.drop_last().len() && rs.drop_last()[k] == prev[j].1;
                assert(rs[k] == rs.drop_last()[k]);
            } else {
                assert(pool[j].1 == rs.last());
                assert(rs[rs.len() - 1] == rs.last());
            }
        }
    }
}

/// In the "recent" mode every row is a server that is one of the resolved
/// servers, passes the favorites filter and matches the search; rows come
/// latest connection first.
pub proof fn lemma_recent_rows_obey(rows: Seq<ItemView>, c: TreeCtx, ls: Seq<(Seq<char>, u64)>)
    requires
        is_recent_rows(rows, c, ls),
    ensures
        rows_obey(rows, c, true),
        forall|i: int| 0 <= i < rows.len() ==> (#[trigger] rows[i]) is Server,
{
    let (out, idx) = choose|out: Seq<(u64, ResolvedView)>, idx: Seq<int>|
        recent_sorted_with(out, recent_pool(c, c.rs, ls), idx) && rows == out.map_values(
            |p: (u64, ResolvedView)| ItemView::Server(p.1),
        );
    lemma_recent_pool(c, c.rs, ls);
    let pool = recent_pool(c, c.rs, ls);
    assert forall|i: int| 0 <= i < rows.len() implies match #[trigger] rows[i] {
        ItemView::Server(r) => row_law(c, r, true),
        _ => true,
    } by {
        assert(rows[i] == ItemView::Server(out[i].1));
        assert(out[i] == pool[idx[i]]);
        assert(rs_contains_and_candidate(c, pool, idx[i]));
    }
    assert forall|i: int| 0 <= i < rows.len() implies (#[trigger] rows[i]) is Server by {
        assert(rows[i] == ItemView::Server(out[i].1));
    }
}

spec fn rs_contains_and_candidate(c: TreeCtx, pool: Seq<(u64, ResolvedView)>, j: int) -> bool {
    c.rs.contains(pool[j].1) && recent_candidate(c, pool[j].1)
}

} // verus!
