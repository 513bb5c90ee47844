//! Included configuration files: where an include points, and how a loaded
//! included file joins the main configuration as a namespace.
use vstd::prelude::*;
use vstd::string::StringExecFns;
use crate::config::{
    entry_vars_unique, merge_default_structs, spec_merge_defaults, Config, ConfigEntry, Defaults, DefaultsView,
    IncludeEntry, IncludeWarning, NamespaceEntry,
};
use crate::text::views;
use crate::tree::contains_string;
use crate::import::{expand_glob, spec_include_path};
use crate::resolve::defaults_or_empty;
use crate::text::push_str;
use crate::tilde::{expand_tilde, tilde_expansion_of};

verus! {

/// The file an include points to: its path with `~` expanded, relative to
/// the directory `parent_dir` of the including file unless absolute.
pub fn include_target(path: &str, parent_dir: &str) -> (r: String)
    ensures
        exists|x: Seq<char>| tilde_expansion_of(path@, x) && r@ == spec_include_path(x, parent_dir@),
{
    let expanded = expand_tilde(path);
    let mut v = expand_glob(expanded.as_str(), parent_dir);
    assert(crate::text::views(v@).len() == 1);
    assert(crate::text::views(v@)[0] == v@[0]@);
    v.remove(0)
}

/// The entries of an included file that are not themselves included files.
pub open spec fn direct_entries(es: Seq<ConfigEntry>) -> Seq<ConfigEntry>
    decreases es.len(),
{
    if es.len() == 0 {
        seq![]
    } else {
        let r = direct_entries(es.drop_last());
        match es.last() {
            ConfigEntry::Namespace(_) => r,
            other => r.push(other),
        }
    }
}

/// The files the included file includes in turn, in order.
pub open spec fn nested_namespaces(es: Seq<ConfigEntry>) -> Seq<NamespaceEntry>
    decreases es.len(),
{
    if es.len() == 0 {
        seq![]
    } else {
        let r = nested_namespaces(es.drop_last());
        match es.last() {
            ConfigEntry::Namespace(ns) => r.push(ns),
            _ => r,
        }
    }
}

proof fn lemma_nested_vars_unique(es: Seq<ConfigEntry>)
    requires
        forall|k: int| 0 <= k < es.len() ==> entry_vars_unique(#[trigger] es[k]),
    ensures
        forall|k: int| 0 <= k < nested_namespaces(es).len() ==> entry_vars_unique(
            ConfigEntry::Namespace(#[trigger] nested_namespaces(es)[k]),
        ),
    decreases es.len(),
{
    if es.len() > 0 {
        assert forall|k: int| 0 <= k < es.drop_last().len() implies entry_vars_unique(
            #[trigger] es.drop_last()[k],
        ) by {
            assert(es.drop_last()[k] == es[k]);
        }
        lemma_nested_vars_unique(es.drop_last());
        assert(entry_vars_unique(es[es.len() - 1]));
    }
}

/// Whether include `label`, pointing to `path`, is to be loaded: `None`
/// when it is; otherwise the warning that skips it: its canonical path
/// could not be had (`canonical` is the error), or the file is already
/// among those being loaded (`loading_stack`), which would be a cycle.
pub fn include_check(
    label: &str,
    path: &str,
    canonical: &Result<String, String>,
    loading_stack: &Vec<String>,
) -> (r: Option<IncludeWarning>)
    ensures
        match canonical {
            Err(e) => r matches Some(IncludeWarning::LoadError { label: l, path: p, error: x })
                && l@ == label@ && p@ == path@ && x@ == e@,
            Ok(c) => if views(loading_stack@).contains(c@) {
                r matches Some(IncludeWarning::Circular { label: l, path: p }) && l@ == label@ && p@
                    == c@
            } else {
                r is None
            },
        },
{
    match canonical {
        Err(e) => Some(
            IncludeWarning::LoadError {
                label: String::from_str(label),
                path: String::from_str(path),
                error: e.clone(),
            },
        ),
        Ok(c) => {
            if contains_string(loading_stack, c.as_str()) {
                Some(IncludeWarning::Circular { label: String::from_str(label), path: c.clone() })
            } else {
                None
            }
        },
    }
}

/// The files being loaded, outermost first, by canonical path: an include
/// that leads back to one of them is a cycle.
pub struct LoadingStack {
    pub paths: Vec<String>,
}

impl LoadingStack {
    pub fn new() -> (r: Self)
        ensures
            views(r.paths@) == Seq::<Seq<char>>::empty(),
    {
        let r = LoadingStack { paths: Vec::new() };
        assert(views(r.paths@) =~= Seq::<Seq<char>>::empty());
        r
    }

    /// The loading of file `path` begins.
    pub fn enter(&mut self, path: String)
        ensures
            views(final(self).paths@) == views(old(self).paths@).push(path@),
    {
        let ghost before = views(self.paths@);
        self.paths.push(path);
        assert(views(self.paths@) =~= before.push(path@));
    }

    /// The loading of the innermost file ends.
    pub fn leave(&mut self)
        ensures
            views(final(self).paths@) == if old(self).paths@.len() > 0 {
                views(old(self).paths@).drop_last()
            } else {
                views(old(self).paths@)
            },
    {
        let ghost before = views(self.paths@);
        if self.paths.len() > 0 {
            self.paths.pop();
            assert(views(self.paths@) =~= before.drop_last());
        }
    }

    /// Whether include `label` (pointing to `path`, with canonical path
    /// `canonical` or the error met getting it) is loaded; see
    /// `include_check`.
    pub fn check(&self, label: &str, path: &str, canonical: &Result<String, String>) -> (r: Option<
        IncludeWarning,
    >)
        ensures
            match canonical {
                Err(e) => r matches Some(IncludeWarning::LoadError { label: l, path: p, error: x })
                    && l@ == label@ && p@ == path@ && x@ == e@,
                Ok(c) => if views(self.paths@).contains(c@) {
                    r matches Some(IncludeWarning::Circular { label: l, path: p }) && l@ == label@
                        && p@ == c@
                } else {
                    r is None
                },
            },
    {
        include_check(label, path, canonical, &self.paths)
    }
}

/// Loading a file and leaving it gives back the stack as it was; while the
/// file loads, an include that leads to it is a cycle.
pub proof fn lemma_enter_leave(stack: Seq<Seq<char>>, path: Seq<char>)
    ensures
        stack.push(path).drop_last() == stack,
        stack.push(path).contains(path),
{
    assert(stack.push(path).drop_last() =~= stack);
    assert(stack.push(path)[stack.len() as int] == path);
}

/// The label of a file included by the included file `parent`.
pub open spec fn nested_label(parent: Seq<char>, child: Seq<char>) -> Seq<char> {
    parent + " / "@ + child
}

/// The defaults of the included file as its namespace keeps them: merged
/// over the main file's when the include asks for it.
pub open spec fn namespace_defaults_ok(
    got: Option<Defaults>,
    merge: bool,
    main: DefaultsView,
    sub: Option<Defaults>,
) -> bool {
    if merge {
        got matches Some(d) && d@ == spec_merge_defaults(main, defaults_or_empty(sub))
    } else {
        got == sub
    }
}

/// Adds the loaded included file `sub` of `entry` (found at `source_path`)
/// to `config`: a namespace labelled as the include, with the file's
/// defaults (merged over `main_defaults` when `merge_defaults`), its direct
/// entries and its variables; then each file it includes in turn, flattened,
/// labelled `"{label} / {its label}"`.
pub fn attach_include(
    config: &mut Config,
    entry: &IncludeEntry,
    main_defaults: &Defaults,
    sub: Config,
    source_path: String,
)
    ensures
        final(config).defaults == old(config).defaults,
        final(config).includes == old(config).includes,
        final(config).vars == old(config).vars,
        old(config).vars_unique() && sub.vars_unique() ==> final(config).vars_unique(),
        final(config).groups@.len() == old(config).groups@.len() + 1 + nested_namespaces(
            sub.groups@,
        ).len(),
        final(config).groups@.take(old(config).groups@.len() as int) == old(config).groups@,
        final(config).groups@[old(config).groups@.len() as int] matches ConfigEntry::Namespace(n)
            && n.label@ == entry.label@ && n.source_path == source_path && namespace_defaults_ok(
            n.defaults,
            entry.merge_defaults,
            main_defaults@,
            sub.defaults,
        ) && n.entries@ == direct_entries(sub.groups@) && n.vars == sub.vars,
        forall|k: int|
            0 <= k < nested_namespaces(sub.groups@).len() ==> (final(config).groups@[old(
                config,
            ).groups@.len() + 1 + k] matches ConfigEntry::Namespace(m) && m.label@ == nested_label(
                entry.label@,
                (#[trigger] nested_namespaces(sub.groups@)[k]).label@,
            ) && m.source_path == nested_namespaces(sub.groups@)[k].source_path && m.defaults
                == nested_namespaces(sub.groups@)[k].defaults && m.entries == nested_namespaces(
                sub.groups@,
            )[k].entries && m.vars == nested_namespaces(sub.groups@)[k].vars),
{
    let Config { defaults: sub_defaults, groups: sub_groups, includes: _, vars: sub_vars } = sub;
    let defaults = if entry.merge_defaults {
        let sub_d = match &sub_defaults {
            Some(d) => d.clone(),
            None => Defaults::empty(),
        };
        Some(merge_default_structs(main_defaults, &sub_d))
    } else {
        sub_defaults
    };
    let ghost gs = sub_groups@;
    let mut rest = sub_groups;
    let mut direct: Vec<ConfigEntry> = Vec::new();
    let mut nested: Vec<NamespaceEntry> = Vec::new();
    let mut i: usize = 0;
    let n = rest.len();
    assert(rest@ =~= gs.skip(0));
    while i < n
        invariant
            i <= n == gs.len(),
            rest@ == gs.skip(i as int),
            direct@ == direct_entries(gs.take(i as int)),
            nested@ == nested_namespaces(gs.take(i as int)),
        decreases n - i,
    {
        assert(gs.take(i + 1).drop_last() =~= gs.take(i as int));
        assert(gs.take(i + 1).last() == gs[i as int]);
        let e = rest.remove(0);
        assert(e == gs[i as int]);
        assert(rest@ =~= gs.skip(i + 1));
        match e {
            ConfigEntry::Namespace(ns) => nested.push(ns),
            other => direct.push(other),
        }
        i += 1;
    }
    assert(gs.take(i as int) =~= gs);
    let ghost base: int = config.groups@.len() as int;
    let ghost start = config.groups@;
    config.groups.push(
        ConfigEntry::Namespace(
            NamespaceEntry {
                label: entry.label.clone(),
                source_path,
                defaults,
                entries: direct,
                vars: sub_vars,
            },
        ),
    );
    let ghost with_main = config.groups@;
    let ghost d0 = config.defaults;
    let ghost i0 = config.includes;
    let ghost v0 = config.vars;
    let ghost nv = nested@;
    let mut k: usize = 0;
    let m = nested.len();
    assert(nested@ =~= nv.skip(0));
    while k < m
        invariant
            k <= m == nv.len(),
            nested@ == nv.skip(k as int),
            config.groups@.len() == base + 1 + k,
            config.defaults == d0,
            config.includes == i0,
            config.vars == v0,
            config.groups@.take(base + 1) == with_main,
            with_main.take(base) == start,
            with_main.len() == base + 1,
            forall|j: int|
                0 <= j < k ==> (config.groups@[base + 1 + j] matches ConfigEntry::Namespace(mm)
                    && mm.label@ == nested_label(entry.label@, (#[trigger] nv[j]).label@)
                    && mm.source_path == nv[j].source_path && mm.defaults == nv[j].defaults
                    && mm.entries == nv[j].entries && mm.vars == nv[j].vars),
        decreases m - k,
    {
        let ns = nested.remove(0);
        assert(ns == nv[k as int]);
        assert(nested@ =~= nv.skip(k + 1));
        let mut label = entry.label.clone();
        push_str(&mut label, " / ");
        push_str(&mut label, ns.label.as_str());
        let NamespaceEntry { label: _, source_path, defaults, entries, vars } = ns;
        let ghost before = config.groups@;
        config.groups.push(ConfigEntry::Namespace(NamespaceEntry { label, source_path, defaults, entries, vars }));
        assert(config.groups@.take(base + 1) =~= before.take(base + 1));
        k += 1;
    }
    assert(config.groups@.take(base) =~= start) by {
        assert(config.groups@.take(base) =~= config.groups@.take(base + 1).take(base as int));
    }
    assert(config.groups@[base] == with_main[base]) by {
        assert(config.groups@.take(base + 1)[base] == config.groups@[base]);
    }
    proof {
        if old(config).vars_unique() && sub.vars_unique() {
            lemma_nested_vars_unique(gs);
            assert forall|k: int| 0 <= k < config.groups@.len() implies entry_vars_unique(
                #[trigger] config.groups@[k],
            ) by {
                if k < base {
                    assert(config.groups@[k] == config.groups@.take(base)[k]);
                    assert(old(config).groups@[k] == start[k]);
                } else if k > base {
                    assert(entry_vars_unique(ConfigEntry::Namespace(nv[k - base - 1])));
                }
            }
        }
    }
}

} // verus!
