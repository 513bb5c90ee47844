//! The state behind the terminal interface: the configuration, the server
//! tree and its selection, favorites and last connections, and the overlays
//! of tunnels, SCP transfers and ad-hoc commands. Processes, threads, the
//! clipboard and the screen stay outside; they hand their results in.
use vstd::prelude::*;
use crate::config::{
    Config, ConnectionMode, Defaults, IncludeWarning, ThemeVariant, ValidationWarning,
};
use crate::forms::{AppMode, CmdState, ConfigItem, ScpState, TunnelOverlayState};
use crate::wallix_ui::{cache_view, WallixSelectorState};
use crate::i18n::{fmt, fmt_seq, Strings};
use crate::resolve::{resolved_all, config_jobs, ResolvedServer, ResolvedView};
use crate::state::{lemma_pair_keys_push, lemma_pair_keys_update, overrides_view, pair_keys, AppState, TunnelOverride};
use crate::text::views;
use crate::tree::{
    clone_items, contains_string, group_id, group_id_exec, env_id, env_id_of, is_recent_rows,
    has_seen, items_view, last_seen_in, last_seen_lookup, ns_id, ns_id_exec, recent_items, resolved_views,
    seen_view, server_key_of, spec_server_key, tree_items, tree_rows, ItemView, Tree, TreeCtx,
    lemma_recent_rows_obey, lemma_tree_rows_obey, rows_obey,
};

verus! {

/// The state of the interface.
pub struct App {
    pub config: Config,
    pub resolved_servers: Vec<ResolvedServer>,
    /// Index of the selected row.
    pub selected_index: usize,
    /// Ids of the expanded files, groups and environments (a set).
    pub expanded_items: Vec<String>,
    pub search_query: String,
    pub is_searching: bool,
    pub connection_mode: ConnectionMode,
    pub verbose_mode: bool,
    pub app_mode: AppMode,
    pub theme: ThemeVariant,
    /// Message shown for a moment in the status bar.
    pub status_message: Option<String>,
    /// The rows as last built; rebuilt on the next read when `items_dirty`.
    pub cached_items: Vec<ConfigItem>,
    pub items_dirty: bool,
    /// Problems met while loading the included files.
    pub warnings: Vec<IncludeWarning>,
    pub lang: Strings,
    /// When true only favorites are listed.
    pub favorites_only: bool,
    /// When true the list is flat, latest connection first.
    pub sort_by_recent: bool,
    /// Unix time of the last connection, by server key.
    pub last_seen: Vec<(String, u64)>,
    /// Keys of the favorite servers (a set).
    pub favorites: Vec<String>,
    pub cmd_state: CmdState,
    /// Unknown keys found in the configuration files.
    pub validation_warnings: Vec<ValidationWarning>,
    /// When true the interface comes back after an SSH session ends.
    pub keep_open: bool,
    pub tunnel_overrides: Vec<TunnelOverride>,
    /// The tunnels overlay, when open.
    pub tunnel_overlay: Option<TunnelOverlayState>,
    pub scp_state: ScpState,
    /// The Wallix menu selector, when open.
    pub wallix_selector: Option<WallixSelectorState>,
    /// Menu entry chosen before, by server key.
    pub wallix_selection_cache: Vec<(String, String)>,
    /// A Wallix connection ready to start: the server and the menu entry.
    pub wallix_pending_connection: Option<(ResolvedServer, String)>,
    /// The credential typed for the pending Wallix connection.
    pub wallix_pending_auth: Option<String>,
}

// ─── Parts of the state ──────────────────────────────────────────────────────

/// The fields the rows are built from are equal.
pub open spec fn same_tree(a: App, b: App) -> bool {
    &&& a.config == b.config
    &&& a.resolved_servers == b.resolved_servers
    &&& a.expanded_items == b.expanded_items
    &&& a.search_query == b.search_query
    &&& a.favorites_only == b.favorites_only
    &&& a.sort_by_recent == b.sort_by_recent
    &&& a.last_seen == b.last_seen
    &&& a.favorites == b.favorites
}

/// The fields of the screen around the tree are equal.
pub open spec fn same_screen(a: App, b: App) -> bool {
    &&& a.is_searching == b.is_searching
    &&& a.verbose_mode == b.verbose_mode
    &&& a.app_mode == b.app_mode
    &&& a.theme == b.theme
    &&& a.status_message == b.status_message
}

/// The loaded data around the tree, and the Wallix selection, are equal.
pub open spec fn same_data(a: App, b: App) -> bool {
    &&& a.warnings == b.warnings
    &&& a.lang == b.lang
    &&& a.validation_warnings == b.validation_warnings
    &&& a.keep_open == b.keep_open
    &&& a.wallix_selector == b.wallix_selector
    &&& a.wallix_selection_cache == b.wallix_selection_cache
    &&& a.wallix_pending_connection == b.wallix_pending_connection
    &&& a.wallix_pending_auth == b.wallix_pending_auth
}

/// The overlays and the tunnel overrides are equal.
pub open spec fn same_overlays(a: App, b: App) -> bool {
    &&& a.tunnel_overrides == b.tunnel_overrides
    &&& a.tunnel_overlay == b.tunnel_overlay
    &&& a.scp_state == b.scp_state
    &&& a.cmd_state == b.cmd_state
}

pub open spec fn same_cache(a: App, b: App) -> bool {
    a.cached_items == b.cached_items && a.items_dirty == b.items_dirty
}

pub open spec fn same_selection(a: App, b: App) -> bool {
    a.selected_index == b.selected_index && a.connection_mode == b.connection_mode
}

impl App {
    /// The sets (expanded headers, favorites) hold each item once, and the
    /// last connections and the remembered Wallix choices each server once,
    /// as the sets and maps they stand for.
    pub open spec fn sets_unique(&self) -> bool {
        &&& views(self.expanded_items@).no_duplicates()
        &&& views(self.favorites@).no_duplicates()
        &&& pair_keys(seen_view(self.last_seen@)).no_duplicates()
        &&& pair_keys(cache_view(self.wallix_selection_cache@)).no_duplicates()
    }
}

/// An operation that leaves the tree's data and the loaded data as they
/// were keeps the sets without repeats.
pub proof fn lemma_sets_unique_kept(a: App, b: App)
    requires
        a.sets_unique(),
        same_tree(a, b),
        same_data(a, b),
    ensures
        b.sets_unique(),
{
}

/// The id of a header row in the expanded set; a server row has none.
pub open spec fn item_id(i: ItemView) -> Option<Seq<char>> {
    match i {
        ItemView::Namespace(l) => Some(ns_id(l)),
        ItemView::Group(g, ns) => Some(group_id(ns.len() > 0, ns, g)),
        ItemView::Environment(g, e, ns) => Some(env_id(ns.len() > 0, ns, g, e)),
        ItemView::Server(_) => None,
    }
}

/// `new` holds `id` when `old` does not, and otherwise the same strings.
pub open spec fn toggled(old: Seq<Seq<char>>, new: Seq<Seq<char>>, id: Seq<char>) -> bool {
    forall|s: Seq<char>|
        #![trigger new.contains(s)]
        new.contains(s) <==> (if s == id {
            !old.contains(id)
        } else {
            old.contains(s)
        })
}

impl App {
    pub open spec fn ctx(&self) -> TreeCtx {
        TreeCtx {
            rs: resolved_views(self.resolved_servers@),
            expanded: views(self.expanded_items@),
            favorites: views(self.favorites@),
            query: self.search_query@,
            favorites_only: self.favorites_only,
        }
    }

    /// `rows` are the rows of the current state: the tree, or in the
    /// "recent" mode the flat list of servers.
    pub open spec fn rows_ok(&self, rows: Seq<ItemView>) -> bool {
        if self.sort_by_recent {
            is_recent_rows(rows, self.ctx(), seen_view(self.last_seen@))
        } else {
            rows == tree_rows(self.ctx(), self.config.groups@)
        }
    }

    /// `rows` are what the list shows: the rows of the current state when the
    /// cache is stale, the cached rows otherwise.
    pub open spec fn shown_ok(&self, rows: Seq<ItemView>) -> bool {
        if self.items_dirty {
            self.rows_ok(rows)
        } else {
            rows == items_view(self.cached_items@)
        }
    }

    /// The rows shown after a read of the list (the cache, then clean).
    pub open spec fn shown(&self) -> Seq<ItemView> {
        items_view(self.cached_items@)
    }

    /// The server at the selected row, if it is a server row.
    pub open spec fn selected_view(&self) -> Option<ResolvedView> {
        let rows = self.shown();
        if self.selected_index < rows.len() {
            match rows[self.selected_index as int] {
                ItemView::Server(r) => Some(r),
                _ => None,
            }
        } else {
            None
        }
    }

    fn tree(&self) -> (t: Tree)
        ensures
            t.ctx() == self.ctx(),
    {
        Tree {
            resolved: &self.resolved_servers,
            expanded: &self.expanded_items,
            favorites: &self.favorites,
            query: self.search_query.as_str(),
            favorites_only: self.favorites_only,
        }
    }

    /// The stable key of a server (see `spec_server_key`).
    pub fn server_key(server: &ResolvedServer) -> (r: String)
        ensures
            r@ == spec_server_key(server@),
    {
        server_key_of(server)
    }

    fn build_visible_items(&self) -> (r: Vec<ConfigItem>)
        ensures
            self.rows_ok(items_view(r@)),
    {
        let t = self.tree();
        if self.sort_by_recent {
            recent_items(&t, &self.last_seen)
        } else {
            tree_items(&t, &self.config.groups)
        }
    }

    /// The rows of the list: rebuilt when the cache is stale, else the cache.
    pub fn get_visible_items(&mut self) -> (r: Vec<ConfigItem>)
        ensures
            old(self).shown_ok(items_view(r@)),
            items_view(r@) == final(self).shown(),
            !final(self).items_dirty,
            same_tree(*final(self), *old(self)),
            same_screen(*final(self), *old(self)),
            same_data(*final(self), *old(self)),
            same_overlays(*final(self), *old(self)),
            same_selection(*final(self), *old(self)),
    {
        if self.items_dirty {
            self.cached_items = self.build_visible_items();
            self.items_dirty = false;
        }
        clone_items(&self.cached_items)
    }

    /// Marks the rows as stale.
    pub fn invalidate_cache(&mut self)
        ensures
            final(self).items_dirty,
            final(self).cached_items == old(self).cached_items,
            same_tree(*final(self), *old(self)),
            same_screen(*final(self), *old(self)),
            same_data(*final(self), *old(self)),
            same_overlays(*final(self), *old(self)),
            same_selection(*final(self), *old(self)),
    {
        self.items_dirty = true;
    }
}

/// The id of a row in the expanded set (see `item_id`).
pub fn item_id_of(i: &ConfigItem) -> (r: Option<String>)
    ensures
        match r {
            Some(id) => item_id(i@) == Some(id@),
            None => item_id(i@) is None,
        },
{
    match i {
        ConfigItem::Namespace(l) => Some(ns_id_exec(l.as_str())),
        ConfigItem::Group(g, ns) => Some(group_id_exec(!ns.as_str().is_empty(), ns.as_str(), g.as_str())),
        ConfigItem::Environment(g, e, ns) => Some(
            env_id_of(!ns.as_str().is_empty(), ns.as_str(), g.as_str(), e.as_str()),
        ),
        ConfigItem::Server(_) => None,
    }
}

proof fn lemma_push_contains(a: Seq<Seq<char>>, x: Seq<char>, s: Seq<char>)
    ensures
        a.push(x).contains(s) <==> (a.contains(s) || x == s),
{
    if a.push(x).contains(s) {
        let k = choose|k: int| 0 <= k < a.push(x).len() && a.push(x)[k] == s;
        if k < a.len() {
            assert(a[k] == s);
        }
    }
    if a.contains(s) {
        let k = choose|k: int| 0 <= k < a.len() && a[k] == s;
        assert(a.push(x)[k] == s);
    }
    if x == s {
        assert(a.push(x)[a.len() as int] == s);
    }
}

/// Adding an item that a list without repeats does not hold keeps it
/// without repeats.
pub proof fn lemma_push_no_repeat(a: Seq<Seq<char>>, x: Seq<char>)
    requires
        a.no_duplicates(),
        !a.contains(x),
    ensures
        a.push(x).no_duplicates(),
{
    let b = a.push(x);
    assert forall|i: int, j: int| 0 <= i < b.len() && 0 <= j < b.len() && i != j implies b[i] != b[j] by {
        if i < a.len() && j < a.len() {
            assert(b[i] == a[i] && b[j] == a[j]);
        } else if i == a.len() {
            assert(b[j] == a[j]);
        } else {
            assert(b[i] == a[i]);
        }
    }
}

/// Removes `id` from the set `v` when it holds it, adds it otherwise.
fn toggle_string(v: &mut Vec<String>, id: String)
    ensures
        toggled(views(old(v)@), views(final(v)@), id@),
        views(old(v)@).no_duplicates() ==> views(final(v)@).no_duplicates(),
{
    if contains_string(v, id.as_str()) {
        let ghost ov = views(v@);
        let mut kept: Vec<String> = Vec::new();
        let mut i: usize = 0;
        while i < v.len()
            invariant
                i <= v@.len(),
                ov == views(v@),
                forall|s: Seq<char>|
                    #![trigger views(kept@).contains(s)]
                    views(kept@).contains(s) <==> (s != id@ && ov.take(i as int).contains(s)),
                ov.no_duplicates() ==> views(kept@).no_duplicates(),
            decreases v@.len() - i,
        {
            let ghost before = views(kept@);
            assert(ov.take(i + 1) =~= ov.take(i as int).push(ov[i as int]));
            if !crate::text::str_eq(v[i].as_str(), id.as_str()) {
                kept.push(v[i].clone());
                assert(views(kept@) =~= before.push(ov[i as int]));
                proof {
                    if ov.no_duplicates() {
                        if before.contains(ov[i as int]) {
                            let k = choose|k: int| 0 <= k < i && ov.take(i as int)[k] == ov[i as int];
                            assert(ov[k] == ov[i as int]);
                        }
                        lemma_push_no_repeat(before, ov[i as int]);
                    }
                }
            }
            assert forall|s: Seq<char>| #![trigger views(kept@).contains(s)]
                views(kept@).contains(s) <==> (s != id@ && ov.take(i + 1).contains(s)) by {
                assert(before.contains(s) <==> (s != id@ && ov.take(i as int).contains(s)));
                lemma_push_contains(ov.take(i as int), ov[i as int], s);
                if views(kept@) != before {
                    lemma_push_contains(before, ov[i as int], s);
                }
            }
            i += 1;
        }
        assert(ov.take(i as int) =~= ov);
        *v = kept;
    } else {
        let ghost ov = views(v@);
        v.push(id);
        assert(views(v@) =~= ov.push(id@));
        proof {
            if ov.no_duplicates() {
                lemma_push_no_repeat(ov, id@);
            }
        }
        assert forall|s: Seq<char>| #![trigger views(v@).contains(s)]
            views(v@).contains(s) <==> (if s == id@ {
                !ov.contains(id@)
            } else {
                ov.contains(s)
            }) by {
            if views(v@).contains(s) && s != id@ {
                let k = choose|k: int| 0 <= k < views(v@).len() && views(v@)[k] == s;
                assert(k < ov.len());
                assert(ov[k] == s);
            }
            if s == id@ {
                assert(views(v@)[ov.len() as int] == s);
            }
            if s != id@ && ov.contains(s) {
                let k = choose|k: int| 0 <= k < ov.len() && ov[k] == s;
                assert(views(v@)[k] == s);
            }
        }
    }
}

impl App {
    /// Sets the connection mode to that of the server at the selected row.
    fn update_mode_from_selection(&mut self)
        ensures
            old(self).shown_ok(final(self).shown()),
            !final(self).items_dirty,
            final(self).connection_mode == match final(self).selected_view() {
                Some(r) => r.default_mode,
                None => old(self).connection_mode,
            },
            final(self).selected_index == old(self).selected_index,
            same_tree(*final(self), *old(self)),
            same_screen(*final(self), *old(self)),
            same_data(*final(self), *old(self)),
            same_overlays(*final(self), *old(self)),
    {
        let items = self.get_visible_items();
        if self.selected_index < items.len() {
            match &items[self.selected_index] {
                ConfigItem::Server(server) => {
                    self.connection_mode = server.default_mode;
                },
                _ => {},
            }
        }
    }

    /// Moves the selection down one row, wrapping to the first.
    pub fn next(&mut self)
        ensures
            old(self).shown_ok(final(self).shown()),
            !final(self).items_dirty,
            final(self).shown().len() > 0 ==> final(self).selected_index == (old(self).selected_index
                + 1) % (final(self).shown().len() as int),
            final(self).shown().len() > 0 ==> final(self).connection_mode == match final(self).selected_view() {
                Some(r) => r.default_mode,
                None => old(self).connection_mode,
            },
            final(self).shown().len() == 0 ==> same_selection(*final(self), *old(self)),
            same_tree(*final(self), *old(self)),
            same_screen(*final(self), *old(self)),
            same_data(*final(self), *old(self)),
            same_overlays(*final(self), *old(self)),
    {
        let count = self.get_visible_items().len();
        if count > 0 {
            self.selected_index = ((self.selected_index as u128 + 1) % (count as u128)) as usize;
            self.update_mode_from_selection();
        }
    }

    /// Moves the selection up one row, wrapping to the last.
    pub fn previous(&mut self)
        ensures
            old(self).shown_ok(final(self).shown()),
            !final(self).items_dirty,
            final(self).shown().len() > 0 ==> final(self).selected_index == (if old(self).selected_index == 0 {
                final(self).shown().len() - 1
            } else {
                old(self).selected_index - 1
            }),
            final(self).shown().len() > 0 ==> final(self).connection_mode == match final(self).selected_view() {
                Some(r) => r.default_mode,
                None => old(self).connection_mode,
            },
            final(self).shown().len() == 0 ==> same_selection(*final(self), *old(self)),
            same_tree(*final(self), *old(self)),
            same_screen(*final(self), *old(self)),
            same_data(*final(self), *old(self)),
            same_overlays(*final(self), *old(self)),
    {
        let count = self.get_visible_items().len();
        if count > 0 {
            if self.selected_index == 0 {
                self.selected_index = count - 1;
            } else {
                self.selected_index = self.selected_index - 1;
            }
            self.update_mode_from_selection();
        }
    }

    /// Selects row `index` when it exists; the mode follows a change of row.
    pub fn select(&mut self, index: usize)
        ensures
            old(self).shown_ok(final(self).shown()),
            !final(self).items_dirty,
            index < final(self).shown().len() ==> final(self).selected_index == index,
            index < final(self).shown().len() && index != old(self).selected_index
                ==> final(self).connection_mode == match final(self).selected_view() {
                Some(r) => r.default_mode,
                None => old(self).connection_mode,
            },
            !(index < final(self).shown().len() && index != old(self).selected_index)
                ==> final(self).connection_mode == old(self).connection_mode,
            index >= final(self).shown().len() ==> final(self).selected_index == old(self).selected_index,
            same_tree(*final(self), *old(self)),
            same_screen(*final(self), *old(self)),
            same_data(*final(self), *old(self)),
            same_overlays(*final(self), *old(self)),
    {
        let count = self.get_visible_items().len();
        if count > 0 && index < count {
            let changed = self.selected_index != index;
            self.selected_index = index;
            if changed {
                self.update_mode_from_selection();
            }
        }
    }

    /// The server at the selected row, if the row is a server.
    pub fn selected_server(&mut self) -> (r: Option<ResolvedServer>)
        ensures
            old(self).shown_ok(final(self).shown()),
            !final(self).items_dirty,
            match r {
                Some(s) => final(self).selected_view() == Some(s@),
                None => final(self).selected_view() is None,
            },
            same_tree(*final(self), *old(self)),
            same_screen(*final(self), *old(self)),
            same_data(*final(self), *old(self)),
            same_overlays(*final(self), *old(self)),
            same_selection(*final(self), *old(self)),
    {
        let items = self.get_visible_items();
        if self.selected_index < items.len() {
            match &items[self.selected_index] {
                ConfigItem::Server(s) => Some((**s).clone()),
                _ => None,
            }
        } else {
            None
        }
    }

    /// Opens or closes the header at the selected row. Rows are rebuilt on
    /// the next read, except when the selected row is a server.
    pub fn toggle_expansion(&mut self)
        ensures
            old(self).sets_unique() ==> final(self).sets_unique(),
            old(self).shown_ok(final(self).shown()),
            match final(self).selected_row() {
                Some(ItemView::Server(_)) => !final(self).items_dirty && final(self).expanded_items
                    == old(self).expanded_items,
                Some(row) => final(self).items_dirty && toggled(
                    views(old(self).expanded_items@),
                    views(final(self).expanded_items@),
                    item_id(row).unwrap(),
                ),
                None => final(self).items_dirty && final(self).expanded_items == old(self).expanded_items,
            },
            final(self).config == old(self).config,
            final(self).resolved_servers == old(self).resolved_servers,
            final(self).search_query == old(self).search_query,
            final(self).favorites_only == old(self).favorites_only,
            final(self).sort_by_recent == old(self).sort_by_recent,
            final(self).last_seen == old(self).last_seen,
            final(self).favorites == old(self).favorites,
            same_screen(*final(self), *old(self)),
            same_data(*final(self), *old(self)),
            same_overlays(*final(self), *old(self)),
            same_selection(*final(self), *old(self)),
    {
        let items = self.get_visible_items();
        assert(items_view(items@).len() == items@.len());
        assert(items_view(self.cached_items@).len() == self.cached_items@.len());
        if self.selected_index < items.len() {
            assert(items_view(items@)[self.selected_index as int] == items@[self.selected_index as int]@);
            match item_id_of(&items[self.selected_index]) {
                Some(id) => {
                    toggle_string(&mut self.expanded_items, id);
                },
                None => {
                    return ;
                },
            }
        }
        self.items_dirty = true;
    }

    /// The selected row among the cached rows.
    pub open spec fn selected_row(&self) -> Option<ItemView> {
        if self.selected_index < self.cached_items@.len() {
            Some(items_view(self.cached_items@)[self.selected_index as int])
        } else {
            None
        }
    }

    /// Closes every header and selects the first row.
    pub fn collapse_all(&mut self)
        ensures
            old(self).sets_unique() ==> final(self).sets_unique(),
            final(self).expanded_items@.len() == 0,
            final(self).selected_index == 0,
            final(self).items_dirty,
            final(self).cached_items == old(self).cached_items,
            final(self).connection_mode == old(self).connection_mode,
            final(self).config == old(self).config,
            final(self).resolved_servers == old(self).resolved_servers,
            final(self).search_query == old(self).search_query,
            final(self).favorites_only == old(self).favorites_only,
            final(self).sort_by_recent == old(self).sort_by_recent,
            final(self).last_seen == old(self).last_seen,
            final(self).favorites == old(self).favorites,
            same_screen(*final(self), *old(self)),
            same_data(*final(self), *old(self)),
            same_overlays(*final(self), *old(self)),
    {
        self.expanded_items = Vec::new();
        self.selected_index = 0;
        self.items_dirty = true;
    }
}

// ─── Creation ────────────────────────────────────────────────────────────────

pub open spec fn theme_of(config: Config) -> ThemeVariant {
    match config.defaults {
        Some(d) => match d.theme {
            Some(t) => t,
            None => ThemeVariant::Mocha,
        },
        None => ThemeVariant::Mocha,
    }
}

pub open spec fn keep_open_of(config: Config) -> bool {
    match config.defaults {
        Some(d) => match d.keep_open {
            Some(k) => k,
            None => false,
        },
        None => false,
    }
}

/// The search the list starts with: `defaults.default_filter`, or none.
pub open spec fn default_filter_of(config: Config) -> Seq<char> {
    match config.defaults {
        Some(d) => match d.default_filter {
            Some(f) => f@,
            None => seq![],
        },
        None => seq![],
    }
}

/// The message of a problem met while loading an included file.
pub open spec fn warning_line(lang: Strings, w: IncludeWarning) -> Seq<char> {
    match w {
        IncludeWarning::LoadError { label, path, error } => fmt_seq(
            lang.include_warn_load@,
            seq![label@, path@, error@],
        ),
        IncludeWarning::Circular { label, path } => fmt_seq(
            lang.include_warn_circular@,
            seq![label@, path@],
        ),
    }
}

/// The messages of `ws`, one per line.
pub open spec fn warning_lines(lang: Strings, ws: Seq<IncludeWarning>) -> Seq<char>
    decreases ws.len(),
{
    if ws.len() == 0 {
        seq![]
    } else if ws.len() == 1 {
        warning_line(lang, ws[0])
    } else {
        warning_lines(lang, ws.drop_last()) + seq!['\n'] + warning_line(lang, ws.last())
    }
}

fn warning_line_exec(lang: &Strings, w: &IncludeWarning) -> (r: String)
    ensures
        r@ == warning_line(*lang, *w),
{
    match w {
        IncludeWarning::LoadError { label, path, error } => {
            let args = vec![label.as_str(), path.as_str(), error.as_str()];
            assert(crate::i18n::str_views(args@) =~= seq![label@, path@, error@]);
            fmt(lang.include_warn_load, args.as_slice())
        },
        IncludeWarning::Circular { label, path } => {
            let args = vec![label.as_str(), path.as_str()];
            assert(crate::i18n::str_views(args@) =~= seq![label@, path@]);
            fmt(lang.include_warn_circular, args.as_slice())
        },
    }
}

fn warning_lines_exec(lang: &Strings, ws: &Vec<IncludeWarning>) -> (r: String)
    ensures
        r@ == warning_lines(*lang, ws@),
{
    let mut out = String::new();
    let mut i: usize = 0;
    while i < ws.len()
        invariant
            i <= ws@.len(),
            out@ == warning_lines(*lang, ws@.take(i as int)),
        decreases ws@.len() - i,
    {
        assert(ws@.take(i + 1).drop_last() =~= ws@.take(i as int));
        assert(ws@.take(i + 1).last() == ws@[i as int]);
        if i > 0 {
            crate::text::push_char(&mut out, '\n');
        } else {
            assert(ws@.take(1)[0] == ws@[0]);
        }
        let line = warning_line_exec(lang, &ws[i]);
        crate::text::push_str(&mut out, line.as_str());
        i += 1;
    }
    assert(ws@.take(i as int) =~= ws@);
    out
}

pub fn clone_seen(v: &Vec<(String, u64)>) -> (r: Vec<(String, u64)>)
    ensures
        seen_view(r@) == seen_view(v@),
{
    let mut r: Vec<(String, u64)> = Vec::new();
    let mut i: usize = 0;
    while i < v.len()
        invariant
            i <= v@.len(),
            seen_view(r@) == seen_view(v@.take(i as int)),
        decreases v@.len() - i,
    {
        let ghost before = seen_view(r@);
        let p = (v[i].0.clone(), v[i].1);
        r.push(p);
        assert(v@.take(i + 1) =~= v@.take(i as int).push(v@[i as int]));
        assert(seen_view(r@) =~= before.push((v@[i as int].0@, v@[i as int].1)));
        assert(seen_view(r@) =~= seen_view(v@.take(i + 1)));
        i += 1;
    }
    assert(v@.take(i as int) =~= v@);
    r
}

pub fn clone_overrides(v: &Vec<TunnelOverride>) -> (r: Vec<TunnelOverride>)
    ensures
        overrides_view(r@) == overrides_view(v@),
{
    let mut r: Vec<TunnelOverride> = Vec::new();
    let mut i: usize = 0;
    while i < v.len()
        invariant
            i <= v@.len(),
            overrides_view(r@) == overrides_view(v@.take(i as int)),
        decreases v@.len() - i,
    {
        let ghost before = overrides_view(r@);
        let o = v[i].clone();
        r.push(o);
        assert(v@.take(i + 1) =~= v@.take(i as int).push(v@[i as int]));
        assert(overrides_view(r@) =~= before.push(v@[i as int]@));
        assert(overrides_view(r@) =~= overrides_view(v@.take(i + 1)));
        i += 1;
    }
    assert(v@.take(i as int) =~= v@);
    r
}

impl App {
    /// The state at start-up: the configuration resolved, the saved state
    /// restored, the default filter applied, the mode of the first row, and
    /// the problems of the included files shown as an error. Never fails.
    pub fn new(
        config: Config,
        warnings: Vec<IncludeWarning>,
        validation_warnings: Vec<ValidationWarning>,
        lang: Strings,
        saved: AppState,
    ) -> (r: Result<App, crate::config::ConfigError>)
        ensures
            match r {
                Ok(app) => {
                    &&& resolved_all(config_jobs(config), resolved_views(app.resolved_servers@))
                    &&& (saved.wf() ==> app.sets_unique())
                    &&& app.config == config
                    &&& app.selected_index == 0
                    &&& app.expanded_items == saved.expanded_items
                    &&& app.last_seen == saved.last_seen
                    &&& app.favorites == saved.favorites
                    &&& app.sort_by_recent == saved.sort_by_recent
                    &&& app.tunnel_overrides == saved.tunnel_overrides
                    &&& app.search_query@ == default_filter_of(config)
                    &&& app.is_searching == (default_filter_of(config).len() > 0)
                    &&& app.theme == theme_of(config)
                    &&& app.keep_open == keep_open_of(config)
                    &&& !app.favorites_only
                    &&& !app.verbose_mode
                    &&& app.status_message is None
                    &&& !app.items_dirty
                    &&& app.rows_ok(app.shown())
                    &&& app.connection_mode == match app.selected_view() {
                        Some(s) => s.default_mode,
                        None => ConnectionMode::Direct,
                    }
                    &&& match app.app_mode {
                        AppMode::Normal => warnings@.len() == 0,
                        AppMode::Error(text) => warnings@.len() > 0 && text@ == warning_lines(
                            lang,
                            warnings@,
                        ),
                        AppMode::CredentialInput { .. } => false,
                    }
                    &&& app.warnings == warnings
                    &&& app.validation_warnings == validation_warnings
                    &&& app.lang == lang
                    &&& app.cmd_state == CmdState::Idle
                    &&& app.tunnel_overlay is None
                    &&& app.scp_state == ScpState::Idle
                    &&& app.wallix_selector is None
                    &&& app.wallix_selection_cache@.len() == 0
                    &&& app.wallix_pending_connection is None
                    &&& app.wallix_pending_auth is None
                },
                Err(_) => false,
            },
    {
        let resolved = match config.resolve() {
            Ok(v) => v,
            Err(e) => {
                return Err(e);
            },
        };
        let theme = match &config.defaults {
            Some(d) => match d.theme {
                Some(t) => t,
                None => ThemeVariant::Mocha,
            },
            None => ThemeVariant::Mocha,
        };
        let keep_open = match &config.defaults {
            Some(d) => match d.keep_open {
                Some(k) => k,
                None => false,
            },
            None => false,
        };
        let default_filter = match &config.defaults {
            Some(d) => match &d.default_filter {
                Some(f) => f.clone(),
                None => String::new(),
            },
            None => String::new(),
        };
        let error_text = if warnings.len() > 0 {
            Some(warning_lines_exec(&lang, &warnings))
        } else {
            None
        };
        let mut app = App {
            config,
            resolved_servers: resolved,
            selected_index: 0,
            expanded_items: saved.expanded_items,
            search_query: String::new(),
            is_searching: false,
            connection_mode: ConnectionMode::Direct,
            verbose_mode: false,
            app_mode: AppMode::Normal,
            theme,
            status_message: None,
            cached_items: Vec::new(),
            items_dirty: true,
            warnings,
            lang,
            favorites_only: false,
            sort_by_recent: saved.sort_by_recent,
            last_seen: saved.last_seen,
            favorites: saved.favorites,
            cmd_state: CmdState::Idle,
            validation_warnings,
            keep_open,
            tunnel_overrides: saved.tunnel_overrides,
            tunnel_overlay: None,
            scp_state: ScpState::Idle,
            wallix_selector: None,
            wallix_selection_cache: Vec::new(),
            wallix_pending_connection: None,
            wallix_pending_auth: None,
        };
        if !default_filter.as_str().is_empty() {
            app.search_query = default_filter;
            app.is_searching = true;
            app.items_dirty = true;
        }
        app.update_mode_from_selection();
        match error_text {
            Some(text) => {
                app.app_mode = AppMode::Error(text);
            },
            None => {},
        }
        Ok(app)
    }

    /// What is kept between runs.
    pub fn to_app_state(&self) -> (r: AppState)
        ensures
            self.sets_unique() ==> r.wf(),
            views(r.expanded_items@) == views(self.expanded_items@),
            seen_view(r.last_seen@) == seen_view(self.last_seen@),
            views(r.favorites@) == views(self.favorites@),
            r.sort_by_recent == self.sort_by_recent,
            overrides_view(r.tunnel_overrides@) == overrides_view(self.tunnel_overrides@),
    {
        AppState {
            expanded_items: crate::config::clone_strings(&self.expanded_items),
            last_seen: clone_seen(&self.last_seen),
            favorites: crate::config::clone_strings(&self.favorites),
            sort_by_recent: self.sort_by_recent,
            tunnel_overrides: clone_overrides(&self.tunnel_overrides),
        }
    }
}

// ─── Status, favorites, last connections ─────────────────────────────────────

/// Recording `now` under `key` into `old` gives `new`.
pub open spec fn recorded(
    old: Seq<(Seq<char>, u64)>,
    new: Seq<(Seq<char>, u64)>,
    key: Seq<char>,
    now: u64,
) -> bool {
    &&& forall|k: Seq<char>|
        #![trigger last_seen_in(new, k)]
        last_seen_in(new, k) == (if k == key {
            now
        } else {
            last_seen_in(old, k)
        })
    &&& forall|k: Seq<char>| #![trigger has_seen(new, k)] has_seen(new, k) <==> (k == key || has_seen(old, k))
}

proof fn lemma_seen_update(ls: Seq<(Seq<char>, u64)>, i: int, key: Seq<char>, now: u64)
    requires
        0 <= i < ls.len(),
        ls[i].0 == key,
        forall|j: int| 0 <= j < i ==> (#[trigger] ls[j]).0 != key,
    ensures
        recorded(ls, ls.update(i, (key, now)), key, now),
    decreases i,
{
    let nl = ls.update(i, (key, now));
    if i > 0 {
        assert(ls[0].0 != key);
        assert forall|j: int| 0 <= j < i - 1 implies (#[trigger] ls.drop_first()[j]).0 != key by {
            assert(ls.drop_first()[j] == ls[j + 1]);
        }
        lemma_seen_update(ls.drop_first(), i - 1, key, now);
        assert(nl.drop_first() =~= ls.drop_first().update(i - 1, (key, now)));
        assert(nl[0] == ls[0]);
        assert forall|k: Seq<char>| #![trigger last_seen_in(nl, k)] last_seen_in(nl, k) == (if k
            == key {
            now
        } else {
            last_seen_in(ls, k)
        }) by {
            assert(last_seen_in(nl.drop_first(), k) == last_seen_in(
                ls.drop_first().update(i - 1, (key, now)),
                k,
            ));
        }
    } else {
        assert(nl.drop_first() =~= ls.drop_first());
        assert forall|k: Seq<char>| #![trigger last_seen_in(nl, k)] last_seen_in(nl, k) == (if k
            == key {
            now
        } else {
            last_seen_in(ls, k)
        }) by {
            assert(nl[0] == (key, now));
        }
    }
    assert forall|k: Seq<char>| #![trigger has_seen(nl, k)] has_seen(nl, k) <==> (k == key || has_seen(ls, k)) by {
        if has_seen(nl, k) {
            let j = choose|j: int| 0 <= j < nl.len() && (#[trigger] nl[j]).0 == k;
            if j != i {
                assert(ls[j] == nl[j]);
            }
        }
        if k == key {
            assert(nl[i].0 == k);
        } else if has_seen(ls, k) {
            let j = choose|j: int| 0 <= j < ls.len() && (#[trigger] ls[j]).0 == k;
            assert(nl[j] == ls[j]);
        }
    }
}

proof fn lemma_seen_push(ls: Seq<(Seq<char>, u64)>, key: Seq<char>, now: u64)
    requires
        forall|j: int| 0 <= j < ls.len() ==> (#[trigger] ls[j]).0 != key,
    ensures
        recorded(ls, ls.push((key, now)), key, now),
    decreases ls.len(),
{
    let nl = ls.push((key, now));
    if ls.len() > 0 {
        assert(ls[0].0 != key);
        assert forall|j: int| 0 <= j < ls.drop_first().len() implies (
        #[trigger] ls.drop_first()[j]).0 != key by {
            assert(ls.drop_first()[j] == ls[j + 1]);
        }
        lemma_seen_push(ls.drop_first(), key, now);
        assert(nl.drop_first() =~= ls.drop_first().push((key, now)));
        assert(nl[0] == ls[0]);
        assert forall|k: Seq<char>| #![trigger last_seen_in(nl, k)] last_seen_in(nl, k) == (if k
            == key {
            now
        } else {
            last_seen_in(ls, k)
        }) by {
            assert(last_seen_in(nl.drop_first(), k) == last_seen_in(
                ls.drop_first().push((key, now)),
                k,
            ));
        }
    } else {
        assert(nl.drop_first() =~= Seq::<(Seq<char>, u64)>::empty());
        assert forall|k: Seq<char>| #![trigger last_seen_in(nl, k)] last_seen_in(nl, k) == (if k
            == key {
            now
        } else {
            last_seen_in(ls, k)
        }) by {
            assert(nl[0] == (key, now));
            assert(last_seen_in(nl.drop_first(), k) == 0);
        }
    }
    crate::tree::lemma_last_seen_absent(ls, key);
    assert forall|k: Seq<char>| #![trigger has_seen(nl, k)] has_seen(nl, k) <==> (k == key || has_seen(ls, k)) by {
        if has_seen(nl, k) {
            let j = choose|j: int| 0 <= j < nl.len() && (#[trigger] nl[j]).0 == k;
            if j < ls.len() {
                assert(ls[j] == nl[j]);
            }
        }
        if k == key {
            assert(nl[ls.len() as int].0 == k);
        } else if has_seen(ls, k) {
            let j = choose|j: int| 0 <= j < ls.len() && (#[trigger] ls[j]).0 == k;
            assert(nl[j] == ls[j]);
        }
    }
}

/// Position of the first entry recorded under `key`.
fn find_seen(ls: &Vec<(String, u64)>, key: &str) -> (r: Option<usize>)
    ensures
        match r {
            Some(i) => i < ls@.len() && seen_view(ls@)[i as int].0 == key@ && forall|j: int|
                0 <= j < i ==> (#[trigger] seen_view(ls@)[j]).0 != key@,
            None => forall|j: int| 0 <= j < ls@.len() ==> (#[trigger] seen_view(ls@)[j]).0 != key@,
        },
{
    let ghost sv = seen_view(ls@);
    let mut i: usize = 0;
    while i < ls.len()
        invariant
            i <= ls@.len(),
            sv == seen_view(ls@),
            forall|j: int| 0 <= j < i ==> (#[trigger] sv[j]).0 != key@,
        decreases ls@.len() - i,
    {
        assert(sv[i as int] == (ls@[i as int].0@, ls@[i as int].1));
        if crate::text::str_eq(ls[i].0.as_str(), key) {
            return Some(i);
        }
        i += 1;
    }
    None
}

impl App {
    /// Shows `msg` in the status bar.
    pub fn set_status_message(&mut self, msg: String)
        ensures
            final(self).status_message == Some(msg),
            final(self).is_searching == old(self).is_searching,
            final(self).verbose_mode == old(self).verbose_mode,
            final(self).app_mode == old(self).app_mode,
            final(self).theme == old(self).theme,
            same_tree(*final(self), *old(self)),
            same_cache(*final(self), *old(self)),
            same_data(*final(self), *old(self)),
            same_overlays(*final(self), *old(self)),
            same_selection(*final(self), *old(self)),
    {
        self.status_message = Some(msg);
    }

    /// Shows a blocking error panel with `msg`.
    pub fn set_error(&mut self, msg: String)
        ensures
            final(self).app_mode == AppMode::Error(msg),
            final(self).is_searching == old(self).is_searching,
            final(self).verbose_mode == old(self).verbose_mode,
            final(self).theme == old(self).theme,
            final(self).status_message == old(self).status_message,
            same_tree(*final(self), *old(self)),
            same_cache(*final(self), *old(self)),
            same_data(*final(self), *old(self)),
            same_overlays(*final(self), *old(self)),
            same_selection(*final(self), *old(self)),
    {
        self.app_mode = AppMode::Error(msg);
    }

    /// Closes the error panel.
    pub fn clear_error(&mut self)
        ensures
            final(self).app_mode == AppMode::Normal,
            final(self).is_searching == old(self).is_searching,
            final(self).verbose_mode == old(self).verbose_mode,
            final(self).theme == old(self).theme,
            final(self).status_message == old(self).status_message,
            same_tree(*final(self), *old(self)),
            same_cache(*final(self), *old(self)),
            same_data(*final(self), *old(self)),
            same_overlays(*final(self), *old(self)),
            same_selection(*final(self), *old(self)),
    {
        self.app_mode = AppMode::Normal;
    }

    /// Whether the server at the selected row is a favorite.
    pub fn is_selected_favorite(&mut self) -> (r: bool)
        ensures
            old(self).shown_ok(final(self).shown()),
            !final(self).items_dirty,
            r == match final(self).selected_view() {
                Some(s) => views(final(self).favorites@).contains(spec_server_key(s)),
                None => false,
            },
            same_tree(*final(self), *old(self)),
            same_screen(*final(self), *old(self)),
            same_data(*final(self), *old(self)),
            same_overlays(*final(self), *old(self)),
            same_selection(*final(self), *old(self)),
    {
        match self.selected_server() {
            Some(s) => {
                let key = server_key_of(&s);
                contains_string(&self.favorites, key.as_str())
            },
            None => false,
        }
    }

    /// Adds the server at the selected row to the favorites, or removes it,
    /// and says so in the status bar.
    pub fn toggle_favorite(&mut self)
        ensures
            old(self).sets_unique() ==> final(self).sets_unique(),
            old(self).shown_ok(final(self).shown()),
            !final(self).items_dirty,
            match final(self).selected_view() {
                Some(s) => {
                    &&& toggled(
                        views(old(self).favorites@),
                        views(final(self).favorites@),
                        spec_server_key(s),
                    )
                    &&& final(self).status_message matches Some(m) && m@ == (if views(
                        old(self).favorites@,
                    ).contains(spec_server_key(s)) {
                        fmt_seq(old(self).lang.favorite_removed@, seq![s.name])
                    } else {
                        fmt_seq(old(self).lang.favorite_added@, seq![s.name])
                    })
                },
                None => final(self).favorites == old(self).favorites && final(self).status_message
                    == old(self).status_message,
            },
            final(self).config == old(self).config,
            final(self).resolved_servers == old(self).resolved_servers,
            final(self).expanded_items == old(self).expanded_items,
            final(self).search_query == old(self).search_query,
            final(self).favorites_only == old(self).favorites_only,
            final(self).sort_by_recent == old(self).sort_by_recent,
            final(self).last_seen == old(self).last_seen,
            final(self).is_searching == old(self).is_searching,
            final(self).verbose_mode == old(self).verbose_mode,
            final(self).app_mode == old(self).app_mode,
            final(self).theme == old(self).theme,
            same_data(*final(self), *old(self)),
            same_overlays(*final(self), *old(self)),
            same_selection(*final(self), *old(self)),
    {
        match self.selected_server() {
            Some(server) => {
                let key = server_key_of(&server);
                let was = contains_string(&self.favorites, key.as_str());
                toggle_string(&mut self.favorites, key);
                let args = vec![server.name.as_str()];
                assert(crate::i18n::str_views(args@) =~= seq![server.name@]);
                let msg = if was {
                    fmt(self.lang.favorite_removed, args.as_slice())
                } else {
                    fmt(self.lang.favorite_added, args.as_slice())
                };
                self.status_message = Some(msg);
            },
            None => {},
        }
    }

    /// Switches between all servers and the favorites only; selects the
    /// first row and says which in the status bar.
    pub fn toggle_favorites_view(&mut self)
        ensures
            final(self).favorites_only == !old(self).favorites_only,
            final(self).items_dirty,
            final(self).cached_items == old(self).cached_items,
            final(self).selected_index == 0,
            final(self).connection_mode == old(self).connection_mode,
            final(self).status_message matches Some(m) && m@ == (if final(self).favorites_only {
                old(self).lang.favorites_title@
            } else {
                old(self).lang.status_normal@
            }),
            final(self).config == old(self).config,
            final(self).resolved_servers == old(self).resolved_servers,
            final(self).expanded_items == old(self).expanded_items,
            final(self).search_query == old(self).search_query,
            final(self).sort_by_recent == old(self).sort_by_recent,
            final(self).last_seen == old(self).last_seen,
            final(self).favorites == old(self).favorites,
            final(self).is_searching == old(self).is_searching,
            final(self).verbose_mode == old(self).verbose_mode,
            final(self).app_mode == old(self).app_mode,
            final(self).theme == old(self).theme,
            same_data(*final(self), *old(self)),
            same_overlays(*final(self), *old(self)),
    {
        self.favorites_only = !self.favorites_only;
        self.items_dirty = true;
        self.selected_index = 0;
        let msg = if self.favorites_only {
            self.lang.favorites_title
        } else {
            self.lang.status_normal
        };
        self.status_message = Some(String::from_str(msg));
    }

    /// Records a connection to `server` at Unix time `now`.
    pub fn record_connection(&mut self, server: &ResolvedServer, now: u64)
        ensures
            old(self).sets_unique() ==> final(self).sets_unique(),
            recorded(
                seen_view(old(self).last_seen@),
                seen_view(final(self).last_seen@),
                spec_server_key(server@),
                now,
            ),
            final(self).config == old(self).config,
            final(self).resolved_servers == old(self).resolved_servers,
            final(self).expanded_items == old(self).expanded_items,
            final(self).search_query == old(self).search_query,
            final(self).favorites_only == old(self).favorites_only,
            final(self).sort_by_recent == old(self).sort_by_recent,
            final(self).favorites == old(self).favorites,
            same_cache(*final(self), *old(self)),
            same_screen(*final(self), *old(self)),
            same_data(*final(self), *old(self)),
            same_overlays(*final(self), *old(self)),
            same_selection(*final(self), *old(self)),
    {
        let key = server_key_of(server);
        let ghost ls = seen_view(self.last_seen@);
        match find_seen(&self.last_seen, key.as_str()) {
            Some(i) => {
                proof {
                    lemma_seen_update(ls, i as int, key@, now);
                    lemma_pair_keys_update(ls, i as int, (key@, now));
                }
                self.last_seen.set(i, (key, now));
                assert(seen_view(self.last_seen@) =~= ls.update(i as int, (key@, now)));
            },
            None => {
                proof {
                    lemma_seen_push(ls, key@, now);
                    if pair_keys(ls).no_duplicates() {
                        lemma_pair_keys_push(ls, (key@, now));
                    }
                }
                self.last_seen.push((key, now));
                assert(seen_view(self.last_seen@) =~= ls.push((key@, now)));
            },
        }
    }

    /// Unix time of the last connection to `server`, if any was recorded.
    pub fn last_seen_for(&self, server: &ResolvedServer) -> (r: Option<u64>)
        ensures
            r == (if has_seen(seen_view(self.last_seen@), spec_server_key(server@)) {
                Some(last_seen_in(seen_view(self.last_seen@), spec_server_key(server@)))
            } else {
                None::<u64>
            }),
    {
        let key = server_key_of(server);
        last_seen_lookup(&self.last_seen, key.as_str())
    }
}

// ─── Laws ────────────────────────────────────────────────────────────────────

/// Toggling the same item twice (an expanded header, a favorite) leaves the
/// set as it was.
pub proof fn lemma_toggle_twice(a: Seq<Seq<char>>, b: Seq<Seq<char>>, c: Seq<Seq<char>>, id: Seq<char>)
    requires
        toggled(a, b, id),
        toggled(b, c, id),
    ensures
        forall|s: Seq<char>| #[trigger] c.contains(s) <==> a.contains(s),
{
    assert forall|s: Seq<char>| #[trigger] c.contains(s) <==> a.contains(s) by {
        assert(c.contains(s) <==> (if s == id {
            !b.contains(id)
        } else {
            b.contains(s)
        }));
        assert(b.contains(s) <==> (if s == id {
            !a.contains(id)
        } else {
            a.contains(s)
        }));
        assert(b.contains(id) <==> !a.contains(id));
    }
}

/// Every server listed is one of the resolved servers and, while searching,
/// matches the search; in favorites mode it is a favorite, except a server
/// written directly in an included file, which only the search filters.
pub proof fn lemma_listed_servers(app: App, rows: Seq<ItemView>)
    requires
        app.rows_ok(rows),
    ensures
        rows_obey(rows, app.ctx(), false),
        app.sort_by_recent || (forall|k: int|
            0 <= k < app.config.groups@.len() ==> !((#[trigger] app.config.groups@[k]) is Namespace))
            ==> rows_obey(rows, app.ctx(), true),
{
    if app.sort_by_recent {
        lemma_recent_rows_obey(rows, app.ctx(), seen_view(app.last_seen@));
        crate::tree::lemma_rows_obey_weaken(rows, app.ctx());
    } else {
        lemma_tree_rows_obey(app.ctx(), app.config.groups@);
    }
}

} // verus!
