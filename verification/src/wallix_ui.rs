//! The Wallix menu selector: what the interface does with the menu fetched
//! for a server (a remembered choice, an automatic choice, or the list to
//! choose from), and the moves within that list.
use vstd::prelude::*;
use crate::config::ConnectionMode;
use crate::forms::AppMode;
use crate::resolve::{ResolvedServer, ResolvedView};
use crate::text::{ascii_lower_seq, ascii_lower_vec, chars_of, spec_contains, spec_starts_with};
use crate::tree::{server_key_of, spec_server_key};
use crate::tui::{same_cache, same_screen, same_selection, same_tree, App};
use crate::state::{lemma_pair_keys_push, lemma_pair_keys_update, pair_keys};
use crate::wallix::{entries_view, error_message, select_id_for_server, spec_select_for_server, EntryView, WallixErrorView, WallixMenuEntry};
use crate::wallix_select::{spec_matching_error, spec_targeted, targeted_wallix_entries, wallix_matching_error};

verus! {

/// State of the Wallix menu selector.
pub enum WallixSelectorState {
    /// The menu is being fetched.
    Loading { server: Box<ResolvedServer>, verbose: bool },
    /// The entries to choose from, best first, and the selected one.
    List { server: Box<ResolvedServer>, entries: Vec<WallixMenuEntry>, selected: usize },
    /// The menu could not be fetched or no entry could be chosen.
    Error { server: Box<ResolvedServer>, message: String },
}

// ─── The remembered choices ──────────────────────────────────────────────────

pub open spec fn cache_view(v: Seq<(String, String)>) -> Seq<(Seq<char>, Seq<char>)> {
    v.map_values(|p: (String, String)| (p.0@, p.1@))
}

/// The entry remembered for `key` (the first one recorded under it).
pub open spec fn cached_choice(c: Seq<(Seq<char>, Seq<char>)>, key: Seq<char>) -> Option<Seq<char>>
    decreases c.len(),
{
    if c.len() == 0 {
        None
    } else if c[0].0 == key {
        Some(c[0].1)
    } else {
        cached_choice(c.drop_first(), key)
    }
}

/// Remembering `id` for `key` into `old` gives `new`: `key` gives `id`, any
/// other key what it gave.
pub open spec fn remembered(
    old: Seq<(Seq<char>, Seq<char>)>,
    new: Seq<(Seq<char>, Seq<char>)>,
    key: Seq<char>,
    id: Seq<char>,
) -> bool {
    forall|k: Seq<char>|
        #![trigger cached_choice(new, k)]
        cached_choice(new, k) == (if k == key {
            Some(id)
        } else {
            cached_choice(old, k)
        })
}

fn find_cached(c: &Vec<(String, String)>, key: &str) -> (r: Option<usize>)
    ensures
        match r {
            Some(i) => i < c@.len() && cache_view(c@)[i as int].0 == key@ && forall|j: int|
                0 <= j < i ==> (#[trigger] cache_view(c@)[j]).0 != key@,
            None => forall|j: int| 0 <= j < c@.len() ==> (#[trigger] cache_view(c@)[j]).0 != key@,
        },
{
    let ghost cv = cache_view(c@);
    let mut i: usize = 0;
    while i < c.len()
        invariant
            i <= c@.len(),
            cv == cache_view(c@),
            forall|j: int| 0 <= j < i ==> (#[trigger] cv[j]).0 != key@,
        decreases c@.len() - i,
    {
        assert(cv[i as int] == (c@[i as int].0@, c@[i as int].1@));
        if crate::text::str_eq(c[i].0.as_str(), key) {
            return Some(i);
        }
        i += 1;
    }
    None
}

proof fn lemma_cached_first(c: Seq<(Seq<char>, Seq<char>)>, i: int, key: Seq<char>)
    requires
        0 <= i < c.len(),
        c[i].0 == key,
        forall|j: int| 0 <= j < i ==> (#[trigger] c[j]).0 != key,
    ensures
        cached_choice(c, key) == Some(c[i].1),
    decreases i,
{
    if i > 0 {
        assert(c[0].0 != key);
        assert forall|j: int| 0 <= j < i - 1 implies (#[trigger] c.drop_first()[j]).0 != key by {
            assert(c.drop_first()[j] == c[j + 1]);
        }
        lemma_cached_first(c.drop_first(), i - 1, key);
    }
}

proof fn lemma_cached_absent(c: Seq<(Seq<char>, Seq<char>)>, key: Seq<char>)
    requires
        forall|j: int| 0 <= j < c.len() ==> (#[trigger] c[j]).0 != key,
    ensures
        cached_choice(c, key) is None,
    decreases c.len(),
{
    if c.len() > 0 {
        assert(c[0].0 != key);
        assert forall|j: int| 0 <= j < c.drop_first().len() implies (#[trigger] c.drop_first()[j]).0
            != key by {
            assert(c.drop_first()[j] == c[j + 1]);
        }
        lemma_cached_absent(c.drop_first(), key);
    }
}

proof fn lemma_cache_update(c: Seq<(Seq<char>, Seq<char>)>, i: int, key: Seq<char>, id: Seq<char>)
    requires
        0 <= i < c.len(),
        c[i].0 == key,
        forall|j: int| 0 <= j < i ==> (#[trigger] c[j]).0 != key,
    ensures
        remembered(c, c.update(i, (key, id)), key, id),
    decreases i,
{
    let n = c.update(i, (key, id));
    if i > 0 {
        assert(c[0].0 != key);
        assert forall|j: int| 0 <= j < i - 1 implies (#[trigger] c.drop_first()[j]).0 != key by {
            assert(c.drop_first()[j] == c[j + 1]);
        }
        lemma_cache_update(c.drop_first(), i - 1, key, id);
        assert(n.drop_first() =~= c.drop_first().update(i - 1, (key, id)));
        assert forall|k: Seq<char>| #![trigger cached_choice(n, k)] cached_choice(n, k) == (if k
            == key {
            Some(id)
        } else {
            cached_choice(c, k)
        }) by {
            assert(n[0] == c[0]);
            assert(cached_choice(n.drop_first(), k) == cached_choice(
                c.drop_first().update(i - 1, (key, id)),
                k,
            ));
        }
    } else {
        assert(n.drop_first() =~= c.drop_first());
    }
}

proof fn lemma_cache_push(c: Seq<(Seq<char>, Seq<char>)>, key: Seq<char>, id: Seq<char>)
    requires
        forall|j: int| 0 <= j < c.len() ==> (#[trigger] c[j]).0 != key,
    ensures
        remembered(c, c.push((key, id)), key, id),
    decreases c.len(),
{
    let n = c.push((key, id));
    if c.len() > 0 {
        assert(c[0].0 != key);
        assert forall|j: int| 0 <= j < c.drop_first().len() implies (#[trigger] c.drop_first()[j]).0
            != key by {
            assert(c.drop_first()[j] == c[j + 1]);
        }
        lemma_cache_push(c.drop_first(), key, id);
        assert(n.drop_first() =~= c.drop_first().push((key, id)));
        assert forall|k: Seq<char>| #![trigger cached_choice(n, k)] cached_choice(n, k) == (if k
            == key {
            Some(id)
        } else {
            cached_choice(c, k)
        }) by {
            assert(n[0] == c[0]);
            assert(cached_choice(n.drop_first(), k) == cached_choice(c.drop_first().push((key, id)), k));
        }
    } else {
        assert(n.drop_first() =~= Seq::<(Seq<char>, Seq<char>)>::empty());
        assert forall|k: Seq<char>| #![trigger cached_choice(n, k)] cached_choice(n, k) == (if k
            == key {
            Some(id)
        } else {
            cached_choice(c, k)
        }) by {
            assert(n[0] == (key, id));
            assert(cached_choice(n.drop_first(), k) is None);
        }
    }
}

fn remember(c: &mut Vec<(String, String)>, key: String, id: String)
    ensures
        remembered(cache_view(old(c)@), cache_view(final(c)@), key@, id@),
        pair_keys(cache_view(old(c)@)).no_duplicates() ==> pair_keys(cache_view(final(c)@)).no_duplicates(),
{
    let ghost cv = cache_view(c@);
    match find_cached(c, key.as_str()) {
        Some(i) => {
            proof {
                lemma_cache_update(cv, i as int, key@, id@);
                lemma_pair_keys_update(cv, i as int, (key@, id@));
            }
            c.set(i, (key, id));
            assert(cache_view(c@) =~= cv.update(i as int, (key@, id@)));
        },
        None => {
            proof {
                lemma_cache_push(cv, key@, id@);
                if pair_keys(cv).no_duplicates() {
                    lemma_pair_keys_push(cv, (key@, id@));
                }
            }
            c.push((key, id));
            assert(cache_view(c@) =~= cv.push((key@, id@)));
        },
    }
}

// ─── What the fetched menu leads to ──────────────────────────────────────────

/// The entries hold one with id `id`.
pub open spec fn has_id(es: Seq<EntryView>, id: Seq<char>) -> bool {
    exists|i: int| 0 <= i < es.len() && (#[trigger] es[i]).id == id
}

fn has_id_exec(es: &Vec<WallixMenuEntry>, id: &str) -> (r: bool)
    ensures
        r == has_id(entries_view(es@), id@),
{
    let mut i: usize = 0;
    while i < es.len()
        invariant
            i <= es@.len(),
            forall|j: int| 0 <= j < i ==> (#[trigger] entries_view(es@)[j]).id != id@,
        decreases es@.len() - i,
    {
        assert(entries_view(es@)[i as int] == es@[i as int]@);
        if crate::text::str_eq(es[i].id.as_str(), id) {
            return true;
        }
        i += 1;
    }
    false
}

/// The prefix of an error that asks for a credential.
pub open spec fn auth_prefix() -> Seq<char> {
    "SSH_AUTH_REQUIRED:"@
}

/// Only the Wallix selection (and what it leads to) has changed.
pub open spec fn only_wallix_changed(a: App, b: App) -> bool {
    &&& same_tree(a, b)
    &&& same_cache(a, b)
    &&& same_selection(a, b)
    &&& same_screen_but_mode(a, b)
    &&& a.warnings == b.warnings
    &&& a.lang == b.lang
    &&& a.validation_warnings == b.validation_warnings
    &&& a.keep_open == b.keep_open
    &&& a.tunnel_overrides == b.tunnel_overrides
    &&& a.tunnel_overlay == b.tunnel_overlay
    &&& a.scp_state == b.scp_state
    &&& a.cmd_state == b.cmd_state
}

pub open spec fn same_screen_but_mode(a: App, b: App) -> bool {
    &&& a.is_searching == b.is_searching
    &&& a.verbose_mode == b.verbose_mode
    &&& a.theme == b.theme
    &&& a.status_message == b.status_message
}

impl App {
    /// A Wallix connection goes through the menu selector.
    pub fn should_open_wallix_selector(&self, server: &ResolvedServer) -> (r: bool)
        ensures
            r == (self.connection_mode == ConnectionMode::Wallix),
    {
        self.connection_mode == ConnectionMode::Wallix
    }

    /// The menu of `server` is being fetched; any pending connection is dropped.
    pub fn open_wallix_selector(&mut self, server: ResolvedServer, verbose: bool)
        ensures
            final(self).wallix_selector matches Some(WallixSelectorState::Loading { server: s, verbose: v })
                && *s == server && v == verbose,
            final(self).wallix_pending_connection is None,
            final(self).wallix_selection_cache == old(self).wallix_selection_cache,
            final(self).wallix_pending_auth == old(self).wallix_pending_auth,
            final(self).app_mode == old(self).app_mode,
            only_wallix_changed(*final(self), *old(self)),
    {
        self.wallix_pending_connection = None;
        self.wallix_selector = Some(WallixSelectorState::Loading { server: Box::new(server), verbose });
    }

    /// Takes the menu fetched for `server` (or why it could not be):
    /// - a choice remembered for the server that is still in the menu makes the connection pending;
    /// - else with automatic choice, the chosen entry is remembered and the connection pending;
    ///   when the choice fails on the menu's content the list is offered, on another error the error is shown;
    /// - else the list is offered (see `spec_targeted`), first entry selected;
    /// - a fetch that asks for a credential opens its input (passphrase or password);
    ///   another failure is shown.
    pub fn wallix_menu_result(&mut self, server: ResolvedServer, result: Result<Vec<WallixMenuEntry>, String>)
        ensures
            only_wallix_changed(*final(self), *old(self)),
            final(self).wallix_pending_auth == old(self).wallix_pending_auth,
            ({
                let key = spec_server_key(server@);
                let cache = cache_view(old(self).wallix_selection_cache@);
                match result {
                    Ok(entries) => {
                        let es = entries_view(entries@);
                        &&& final(self).app_mode == old(self).app_mode
                        &&& if cached_choice(cache, key) is Some && has_id(es, cached_choice(cache, key).unwrap()) {
                            &&& final(self).wallix_pending_connection matches Some((s, id)) && s@ == server@
                                && id@ == cached_choice(cache, key).unwrap()
                            &&& final(self).wallix_selector is None
                            &&& final(self).wallix_selection_cache == old(self).wallix_selection_cache
                        } else if server.wallix_auto_select && spec_select_for_server(es, server@) is Ok {
                            let id = spec_select_for_server(es, server@)->Ok_0;
                            &&& final(self).wallix_pending_connection matches Some((s, i)) && s@ == server@ && i@ == id
                            &&& final(self).wallix_selector is None
                            &&& remembered(cache, cache_view(final(self).wallix_selection_cache@), key, id)
                        } else if server.wallix_auto_select && !spec_matching_error(error_message(
                            spec_select_for_server(es, server@)->Err_0,
                        )) {
                            &&& final(self).wallix_selector matches Some(WallixSelectorState::Error { server: s, message })
                                && s@ == server@ && message@ == error_message(
                                spec_select_for_server(es, server@)->Err_0,
                            )
                            &&& final(self).wallix_pending_connection == old(self).wallix_pending_connection
                            &&& final(self).wallix_selection_cache == old(self).wallix_selection_cache
                        } else {
                            &&& final(self).wallix_selector matches Some(WallixSelectorState::List { server: s, entries: l, selected })
                                && s@ == server@ && selected == 0 && spec_targeted(server@, es, entries_view(l@))
                            &&& final(self).wallix_pending_connection == old(self).wallix_pending_connection
                            &&& final(self).wallix_selection_cache == old(self).wallix_selection_cache
                        }
                    },
                    Err(message) => {
                        &&& final(self).wallix_pending_connection == old(self).wallix_pending_connection
                        &&& final(self).wallix_selection_cache == old(self).wallix_selection_cache
                        &&& if spec_starts_with(message@, auth_prefix()) {
                            let prompt = message@.subrange(auth_prefix().len() as int, message@.len() as int);
                            &&& final(self).wallix_selector is None
                            &&& final(self).app_mode matches AppMode::CredentialInput { server: s, mode, verbose, is_passphrase, input }
                                && s@ == server@ && mode == ConnectionMode::Wallix && verbose == (match old(self).wallix_selector {
                                    Some(WallixSelectorState::Loading { verbose, .. }) => verbose,
                                    _ => false,
                                }) && is_passphrase == spec_contains(ascii_lower_seq(prompt), "enter passphrase for key"@)
                                && input@.len() == 0
                        } else {
                            &&& final(self).wallix_selector matches Some(WallixSelectorState::Error { server: s, message: m })
                                && s@ == server@ && m@ == message@
                            &&& final(self).app_mode == old(self).app_mode
                        }
                    },
                }
            }),
    {
        match result {
            Ok(entries) => {
                let key = server_key_of(&server);
                let ghost cache = cache_view(self.wallix_selection_cache@);
                match find_cached(&self.wallix_selection_cache, key.as_str()) {
                    Some(i) => {
                        proof {
                            lemma_cached_first(cache, i as int, key@);
                        }
                        let cached_id = self.wallix_selection_cache[i].1.clone();
                        assert(cached_id@ == cache[i as int].1);
                        if has_id_exec(&entries, cached_id.as_str()) {
                            self.wallix_pending_connection = Some((server, cached_id));
                            self.wallix_selector = None;
                            return ;
                        }
                    },
                    None => {
                        proof {
                            lemma_cached_absent(cache, key@);
                        }
                    },
                }
                if server.wallix_auto_select {
                    match select_id_for_server(&entries, &server) {
                        Ok(selected_id) => {
                            remember(&mut self.wallix_selection_cache, key, selected_id.clone());
                            self.wallix_pending_connection = Some((server, selected_id));
                            self.wallix_selector = None;
                        },
                        Err(err) => {
                            let message = err.message();
                            if wallix_matching_error(message.as_str()) {
                                let targeted = targeted_wallix_entries(&server, &entries);
                                self.wallix_selector = Some(WallixSelectorState::List {
                                    server: Box::new(server),
                                    entries: targeted,
                                    selected: 0,
                                });
                            } else {
                                self.wallix_selector = Some(WallixSelectorState::Error { server: Box::new(server), message });
                            }
                        },
                    }
                } else {
                    let targeted = targeted_wallix_entries(&server, &entries);
                    self.wallix_selector = Some(WallixSelectorState::List {
                        server: Box::new(server),
                        entries: targeted,
                        selected: 0,
                    });
                }
            },
            Err(message) => {
                if crate::text::str_starts_with(message.as_str(), "SSH_AUTH_REQUIRED:") {
                    let chars = chars_of(message.as_str());
                    let n = chars.len();
                    proof {
                        reveal_strlit("SSH_AUTH_REQUIRED:");
                    }
                    let prompt = crate::text::subvec(&chars, 18, n);
                    let lower = ascii_lower_vec(&prompt);
                    let lower_s = crate::text::string_from_chars(&lower);
                    let is_passphrase = crate::text::str_contains(lower_s.as_str(), "enter passphrase for key");
                    let verbose = match &self.wallix_selector {
                        Some(WallixSelectorState::Loading { verbose, .. }) => *verbose,
                        _ => false,
                    };
                    self.wallix_selector = None;
                    self.app_mode = AppMode::CredentialInput {
                        server: Box::new(server),
                        mode: ConnectionMode::Wallix,
                        verbose,
                        is_passphrase,
                        input: String::new(),
                    };
                } else {
                    self.wallix_selector = Some(WallixSelectorState::Error { server: Box::new(server), message });
                }
            },
        }
    }

    /// Closes the selector.
    pub fn close_wallix_selector(&mut self)
        ensures
            final(self).wallix_selector is None,
            final(self).wallix_pending_connection == old(self).wallix_pending_connection,
            final(self).wallix_selection_cache == old(self).wallix_selection_cache,
            final(self).wallix_pending_auth == old(self).wallix_pending_auth,
            final(self).app_mode == old(self).app_mode,
            only_wallix_changed(*final(self), *old(self)),
    {
        self.wallix_selector = None;
    }

    /// Takes the pending connection with its credential, leaving none.
    pub fn take_pending_wallix_connection(&mut self) -> (r: Option<(ResolvedServer, String, Option<String>)>)
        ensures
            match old(self).wallix_pending_connection {
                Some((s, id)) => r matches Some((s2, id2, auth)) && s2 == s && id2 == id && auth
                    == old(self).wallix_pending_auth && final(self).wallix_pending_auth is None,
                None => r is None && final(self).wallix_pending_auth == old(self).wallix_pending_auth,
            },
            final(self).wallix_pending_connection is None,
            final(self).wallix_selector == old(self).wallix_selector,
            final(self).wallix_selection_cache == old(self).wallix_selection_cache,
            final(self).app_mode == old(self).app_mode,
            only_wallix_changed(*final(self), *old(self)),
    {
        match self.wallix_pending_connection.take() {
            Some((server, id)) => {
                let auth = self.wallix_pending_auth.take();
                Some((server, id, auth))
            },
            None => None,
        }
    }

    /// Remembers the entry chosen for `server`.
    pub fn remember_wallix_selection(&mut self, server: &ResolvedServer, selected_id: &str)
        ensures
            remembered(
                cache_view(old(self).wallix_selection_cache@),
                cache_view(final(self).wallix_selection_cache@),
                spec_server_key(server@),
                selected_id@,
            ),
            final(self).wallix_selector == old(self).wallix_selector,
            final(self).wallix_pending_connection == old(self).wallix_pending_connection,
            final(self).wallix_pending_auth == old(self).wallix_pending_auth,
            final(self).app_mode == old(self).app_mode,
            only_wallix_changed(*final(self), *old(self)),
            old(self).sets_unique() ==> final(self).sets_unique(),
    {
        let key = server_key_of(server);
        remember(&mut self.wallix_selection_cache, key, String::from_str(selected_id));
    }

    /// Moves down the selector's list, stopping at the last entry.
    pub fn wallix_selector_next(&mut self)
        ensures
            final(self).wallix_selector == match old(self).wallix_selector {
                Some(WallixSelectorState::List { server, entries, selected }) => if entries@.len() > 0 {
                    Some(WallixSelectorState::List {
                        server,
                        entries,
                        selected: if selected + 1 < entries@.len() {
                            (selected + 1) as usize
                        } else {
                            (entries@.len() - 1) as usize
                        },
                    })
                } else {
                    old(self).wallix_selector
                },
                other => other,
            },
            final(self).wallix_pending_connection == old(self).wallix_pending_connection,
            final(self).wallix_selection_cache == old(self).wallix_selection_cache,
            final(self).wallix_pending_auth == old(self).wallix_pending_auth,
            final(self).app_mode == old(self).app_mode,
            only_wallix_changed(*final(self), *old(self)),
    {
        match &mut self.wallix_selector {
            Some(WallixSelectorState::List { entries, selected, .. }) => {
                if entries.len() > 0 {
                    let last = entries.len() - 1;
                    if *selected < last {
                        *selected = *selected + 1;
                    } else {
                        *selected = last;
                    }
                }
            },
            _ => {},
        }
    }

    /// Moves up the selector's list, stopping at the first entry.
    pub fn wallix_selector_previous(&mut self)
        ensures
            final(self).wallix_selector == match old(self).wallix_selector {
                Some(WallixSelectorState::List { server, entries, selected }) => Some(
                    WallixSelectorState::List {
                        server,
                        entries,
                        selected: if selected > 0 {
                            (selected - 1) as usize
                        } else {
                            0
                        },
                    },
                ),
                other => other,
            },
            final(self).wallix_pending_connection == old(self).wallix_pending_connection,
            final(self).wallix_selection_cache == old(self).wallix_selection_cache,
            final(self).wallix_pending_auth == old(self).wallix_pending_auth,
            final(self).app_mode == old(self).app_mode,
            only_wallix_changed(*final(self), *old(self)),
    {
        match &mut self.wallix_selector {
            Some(WallixSelectorState::List { selected, .. }) => {
                if *selected > 0 {
                    *selected = *selected - 1;
                }
            },
            _ => {},
        }
    }

    /// The server and the id of the entry selected in the list, if any.
    pub fn wallix_selector_selected_id(&self) -> (r: Option<(ResolvedServer, String)>)
        ensures
            match self.wallix_selector {
                Some(WallixSelectorState::List { server, entries, selected }) => if selected < entries@.len() {
                    r matches Some((s, id)) && s@ == server@ && id@ == entries@[selected as int].id@
                } else {
                    r is None
                },
                _ => r is None,
            },
    {
        match &self.wallix_selector {
            Some(WallixSelectorState::List { server, entries, selected }) => {
                if *selected < entries.len() {
                    Some(((**server).clone(), entries[*selected].id.clone()))
                } else {
                    None
                }
            },
            _ => None,
        }
    }
}


// ─── Credential input ────────────────────────────────────────────────────────

impl App {
    /// Types `c` into the credential being asked for, if one is.
    pub fn credential_char(&mut self, c: char)
        ensures
            match old(self).app_mode {
                AppMode::CredentialInput { server, mode, verbose, is_passphrase, input } =>
                    final(self).app_mode matches AppMode::CredentialInput {
                    server: s2,
                    mode: m2,
                    verbose: v2,
                    is_passphrase: p2,
                    input: i2,
                } && s2 == server && m2 == mode && v2 == verbose && p2 == is_passphrase && i2@ == input@.push(c),
                _ => final(self).app_mode == old(self).app_mode,
            },
            final(self).wallix_selector == old(self).wallix_selector,
            final(self).wallix_pending_connection == old(self).wallix_pending_connection,
            final(self).wallix_pending_auth == old(self).wallix_pending_auth,
            final(self).wallix_selection_cache == old(self).wallix_selection_cache,
            only_wallix_changed(*final(self), *old(self)),
    {
        if let AppMode::CredentialInput { input, .. } = &mut self.app_mode {
            crate::text::push_char(input, c);
        }
    }

    /// Erases the last character of the credential being asked for, if any.
    pub fn credential_backspace(&mut self)
        ensures
            match old(self).app_mode {
                AppMode::CredentialInput { server, mode, verbose, is_passphrase, input } =>
                    final(self).app_mode matches AppMode::CredentialInput {
                    server: s2,
                    mode: m2,
                    verbose: v2,
                    is_passphrase: p2,
                    input: i2,
                } && s2 == server && m2 == mode && v2 == verbose && p2 == is_passphrase && i2@
                    == crate::forms::without_last(input@),
                _ => final(self).app_mode == old(self).app_mode,
            },
            final(self).wallix_selector == old(self).wallix_selector,
            final(self).wallix_pending_connection == old(self).wallix_pending_connection,
            final(self).wallix_pending_auth == old(self).wallix_pending_auth,
            final(self).wallix_selection_cache == old(self).wallix_selection_cache,
            only_wallix_changed(*final(self), *old(self)),
    {
        if let AppMode::CredentialInput { input, .. } = &mut self.app_mode {
            crate::forms::pop_char(input);
        }
    }

    /// Sends the credential typed: the input closes, the credential is kept
    /// for the connection, and the menu is fetched again with it. Returns
    /// the fetch to run: the server, verbose, and the credential.
    pub fn submit_credential(&mut self) -> (r: Option<(ResolvedServer, bool, String)>)
        ensures
            match old(self).app_mode {
                AppMode::CredentialInput { server, mode, verbose, is_passphrase, input } => {
                    &&& r matches Some((s, v, auth)) && s == *server && v == verbose && auth == input
                    &&& final(self).app_mode is Normal
                    &&& final(self).wallix_pending_auth == Some(input)
                    &&& final(self).wallix_selector matches Some(WallixSelectorState::Loading { server: s, verbose: v })
                        && s@ == server@ && v == verbose
                    &&& final(self).wallix_pending_connection is None
                },
                _ => {
                    &&& r is None
                    &&& final(self).app_mode == old(self).app_mode
                    &&& final(self).wallix_pending_auth == old(self).wallix_pending_auth
                    &&& final(self).wallix_selector == old(self).wallix_selector
                    &&& final(self).wallix_pending_connection == old(self).wallix_pending_connection
                },
            },
            final(self).wallix_selection_cache == old(self).wallix_selection_cache,
            only_wallix_changed(*final(self), *old(self)),
    {
        let mut mode = AppMode::Normal;
        core::mem::swap(&mut mode, &mut self.app_mode);
        match mode {
            AppMode::CredentialInput { server, mode: _, verbose, is_passphrase: _, input } => {
                let s: ResolvedServer = *server;
                self.wallix_pending_auth = Some(input.clone());
                self.open_wallix_selector(s.clone(), verbose);
                Some((s, verbose, input))
            },
            other => {
                self.app_mode = other;
                None
            },
        }
    }

    /// Gives up the credential: back to the list.
    pub fn cancel_credential(&mut self)
        ensures
            old(self).app_mode is CredentialInput ==> final(self).app_mode is Normal,
            !(old(self).app_mode is CredentialInput) ==> final(self).app_mode == old(self).app_mode,
            final(self).wallix_selector == old(self).wallix_selector,
            final(self).wallix_pending_connection == old(self).wallix_pending_connection,
            final(self).wallix_pending_auth == old(self).wallix_pending_auth,
            final(self).wallix_selection_cache == old(self).wallix_selection_cache,
            only_wallix_changed(*final(self), *old(self)),
    {
        if let AppMode::CredentialInput { .. } = &self.app_mode {
            self.app_mode = AppMode::Normal;
        }
    }
}

} // verus!
