//! Import of `~/.ssh/config`: its `Host` blocks become servers of a
//! configuration written in YAML.
use vstd::prelude::*;
use crate::text::{
    chars_of, decimal_seq, lowercase_seq, spec_parse_unsigned, split_char_seq, string_from_chars,
    subvec, to_lowercase, trim_vec, trim_ws, views, vviews,
};
use crate::tilde::{expand_tilde, tilde_expansion_of};
use vstd::string::StringExecFns;
use crate::sorting::{lex_le, lex_le_exec, lemma_lex_le_total, lemma_lex_le_trans};

verus! {

/// A `Host` block of an ssh_config file.
#[derive(Debug, Default)]
pub struct SshConfigEntry {
    /// The `Host` pattern.
    pub host_pattern: String,
    /// `HostName`, when given.
    pub hostname: Option<String>,
    pub user: Option<String>,
    pub port: Option<u16>,
    pub identity_file: Option<String>,
    /// `ProxyJump`, as written.
    pub proxy_jump: Option<String>,
    /// Further options (`ServerAliveInterval=60`, ...).
    pub ssh_options: Vec<String>,
    /// Warning when a `ProxyCommand` was found (it is not imported).
    pub proxy_command_warning: Option<String>,
}

pub struct SshEntryView {
    pub host_pattern: Seq<char>,
    pub hostname: Option<Seq<char>>,
    pub user: Option<Seq<char>>,
    pub port: Option<u16>,
    pub identity_file: Option<Seq<char>>,
    pub proxy_jump: Option<Seq<char>>,
    pub ssh_options: Seq<Seq<char>>,
    pub proxy_command_warning: Option<Seq<char>>,
}

pub open spec fn ov(o: Option<String>) -> Option<Seq<char>> {
    match o {
        Some(s) => Some(s@),
        None => None,
    }
}

impl View for SshConfigEntry {
    type V = SshEntryView;

    open spec fn view(&self) -> SshEntryView {
        SshEntryView {
            host_pattern: self.host_pattern@,
            hostname: ov(self.hostname),
            user: ov(self.user),
            port: self.port,
            identity_file: ov(self.identity_file),
            proxy_jump: ov(self.proxy_jump),
            ssh_options: views(self.ssh_options@),
            proxy_command_warning: ov(self.proxy_command_warning),
        }
    }
}

pub open spec fn ssh_entries_view(v: Seq<SshConfigEntry>) -> Seq<SshEntryView> {
    v.map_values(|e: SshConfigEntry| e@)
}

/// The host to connect to: `HostName` when given, else the pattern.
pub open spec fn spec_effective_host(e: SshEntryView) -> Seq<char> {
    match e.hostname {
        Some(h) => h,
        None => e.host_pattern,
    }
}

impl SshConfigEntry {
    /// The host to connect to: `HostName` when given, else the `Host` pattern.
    pub fn effective_host(&self) -> (r: &str)
        ensures
            r@ == spec_effective_host(self@),
    {
        match &self.hostname {
            Some(h) => h.as_str(),
            None => self.host_pattern.as_str(),
        }
    }
}

/// The result of an import: the entries and the warnings met.
pub struct ImportResult {
    pub entries: Vec<SshConfigEntry>,
    /// Non-blocking warnings (ProxyCommand, missing files, ...).
    pub warnings: Vec<String>,
}

// ─── Lines of a file ─────────────────────────────────────────────────────────

pub open spec fn is_kv_sep(c: char) -> bool {
    c == ' ' || c == '\t' || c == '='
}

/// The first space, tab or `=` of `s`.
pub open spec fn first_kv_sep(s: Seq<char>) -> Option<int>
    decreases s.len(),
{
    if s.len() == 0 {
        None
    } else {
        match first_kv_sep(s.drop_last()) {
            Some(i) => Some(i),
            None => if is_kv_sep(s.last()) {
                Some(s.len() - 1)
            } else {
                None
            },
        }
    }
}

/// `Key Value` or `Key=Value`: the key before the first separator and the
/// value after it, both trimmed (and leading `=` dropped from the value);
/// `None` when either is empty.
pub open spec fn spec_split_kv(s: Seq<char>) -> Option<(Seq<char>, Seq<char>)> {
    match first_kv_sep(s) {
        Some(pos) => {
            let key = trim_ws(s.take(pos));
            let value = trim_ws(crate::text::trim_start_char(trim_ws(s.skip(pos + 1)), '='));
            if key.len() == 0 || value.len() == 0 {
                None
            } else {
                Some((key, value))
            }
        },
        None => None,
    }
}

fn trim_start_eq(s: &Vec<char>) -> (r: Vec<char>)
    ensures
        r@ == crate::text::trim_start_char(s@, '='),
{
    let n = s.len();
    let mut i: usize = 0;
    assert(s@.subrange(0, n as int) =~= s@);
    while i < n && s[i] == '='
        invariant
            i <= n == s@.len(),
            crate::text::trim_start_char(s@, '=') == crate::text::trim_start_char(
                s@.subrange(i as int, n as int),
                '=',
            ),
        decreases n - i,
    {
        assert(s@.subrange(i as int, n as int).drop_first() =~= s@.subrange(i + 1, n as int));
        i += 1;
    }
    subvec(s, i, n)
}

fn split_kv_vec(s: &Vec<char>) -> (r: Option<(Vec<char>, Vec<char>)>)
    ensures
        match r {
            Some((k, v)) => spec_split_kv(s@) == Some((k@, v@)),
            None => spec_split_kv(s@) is None,
        },
{
    let mut pos: usize = 0;
    while pos < s.len() && !(s[pos] == ' ' || s[pos] == '\t' || s[pos] == '=')
        invariant
            pos <= s@.len(),
            first_kv_sep(s@.take(pos as int)) is None,
        decreases s@.len() - pos,
    {
        assert(s@.take(pos + 1).drop_last() =~= s@.take(pos as int));
        pos += 1;
    }
    if pos == s.len() {
        assert(s@.take(pos as int) =~= s@);
        return None;
    }
    proof {
        assert(s@.take(pos + 1).drop_last() =~= s@.take(pos as int));
        lemma_first_sep_prefix(s@, pos + 1);
    }
    let n = s.len();
    let head = subvec(s, 0, pos);
    assert(head@ =~= s@.take(pos as int));
    let key = trim_vec(&head);
    let rest = subvec(s, pos + 1, n);
    assert(rest@ =~= s@.skip(pos + 1));
    let value = trim_vec(&trim_start_eq(&trim_vec(&rest)));
    if key.len() == 0 || value.len() == 0 {
        None
    } else {
        Some((key, value))
    }
}

proof fn lemma_first_sep_prefix(s: Seq<char>, k: int)
    requires
        0 <= k <= s.len(),
        first_kv_sep(s.take(k)) is Some,
    ensures
        first_kv_sep(s) == first_kv_sep(s.take(k)),
    decreases s.len() - k,
{
    if k < s.len() {
        assert(s.take(k + 1).drop_last() =~= s.take(k));
        lemma_first_sep_prefix(s, k + 1);
    } else {
        assert(s.take(k) =~= s);
    }
}

/// Splits `Key Value` or `Key=Value` into key and value.
pub fn split_kv(s: &str) -> (r: Option<(String, String)>)
    ensures
        match r {
            Some((k, v)) => spec_split_kv(s@) == Some((k@, v@)),
            None => spec_split_kv(s@) is None,
        },
{
    match split_kv_vec(&chars_of(s)) {
        Some((k, v)) => Some((string_from_chars(&k), string_from_chars(&v))),
        None => None,
    }
}

/// What a file of ssh_config holds, in order: `Host` blocks, and `Include`
/// directives (their value as written), where the included files' blocks go.
#[derive(Debug)]
pub enum SshConfigItem {
    Entry(SshConfigEntry),
    Include(String),
}

pub enum ItemView {
    Entry(SshEntryView),
    Include(Seq<char>),
}

impl View for SshConfigItem {
    type V = ItemView;

    open spec fn view(&self) -> ItemView {
        match self {
            SshConfigItem::Entry(e) => ItemView::Entry(e@),
            SshConfigItem::Include(s) => ItemView::Include(s@),
        }
    }
}

pub open spec fn items_view(v: Seq<SshConfigItem>) -> Seq<ItemView> {
    v.map_values(|i: SshConfigItem| i@)
}

/// A new block for pattern `p`.
pub open spec fn new_entry(p: Seq<char>) -> SshEntryView {
    SshEntryView {
        host_pattern: p,
        hostname: None,
        user: None,
        port: None,
        identity_file: None,
        proxy_jump: None,
        ssh_options: seq![],
        proxy_command_warning: None,
    }
}

/// The warning for a `ProxyCommand` in the block of `pattern`.
pub open spec fn proxy_warning(pattern: Seq<char>) -> Seq<char> {
    "Host '"@ + pattern + "' : ProxyCommand non supporté, ignoré (utiliser ProxyJump)"@
}

/// A directive applied to the current block.
pub open spec fn apply_directive(e: SshEntryView, key_lc: Seq<char>, value: Seq<char>) -> SshEntryView {
    if key_lc == "hostname"@ {
        SshEntryView { hostname: Some(value), ..e }
    } else if key_lc == "user"@ {
        SshEntryView { user: Some(value), ..e }
    } else if key_lc == "port"@ {
        SshEntryView {
            port: match spec_parse_unsigned(value, 65535) {
                Some(p) => Some(p as u16),
                None => None,
            },
            ..e
        }
    } else if key_lc == "identityfile"@ {
        SshEntryView { identity_file: Some(value), ..e }
    } else if key_lc == "proxyjump"@ {
        SshEntryView { proxy_jump: Some(value), ..e }
    } else if key_lc == "proxycommand"@ {
        SshEntryView { proxy_command_warning: Some(proxy_warning(e.host_pattern)), ..e }
    } else if key_lc == "serveraliveinterval"@ {
        SshEntryView { ssh_options: e.ssh_options.push("ServerAliveInterval="@ + value), ..e }
    } else if key_lc == "serveralivecountmax"@ {
        SshEntryView { ssh_options: e.ssh_options.push("ServerAliveCountMax="@ + value), ..e }
    } else {
        e
    }
}

/// The current block, if any, added to the items.
pub open spec fn flush(items: Seq<ItemView>, cur: Option<SshEntryView>) -> Seq<ItemView> {
    match cur {
        Some(e) => items.push(ItemView::Entry(e)),
        None => items,
    }
}

/// Reading state after the lines: items so far and the block being read.
/// Comments, blank lines and lines without key and value are skipped;
/// directives outside a block are ignored; keys ignore case.
pub open spec fn read_state(lines: Seq<Seq<char>>) -> (Seq<ItemView>, Option<SshEntryView>)
    decreases lines.len(),
{
    if lines.len() == 0 {
        (seq![], None)
    } else {
        let (items, cur) = read_state(lines.drop_last());
        let t = trim_ws(lines.last());
        if t.len() == 0 || t[0] == '#' {
            (items, cur)
        } else {
            match spec_split_kv(t) {
                None => (items, cur),
                Some((key, value)) => {
                    let k = lowercase_seq(key);
                    if k == "include"@ {
                        (flush(items, cur).push(ItemView::Include(value)), None)
                    } else if k == "host"@ {
                        (flush(items, cur), Some(new_entry(value)))
                    } else {
                        match cur {
                            Some(e) => (items, Some(apply_directive(e, k, value))),
                            None => (items, cur),
                        }
                    }
                },
            }
        }
    }
}

/// The items of the text of an ssh_config file, lines split at `\n` (a
/// `\r` before it is trimmed away with the rest of the line's whitespace).
pub open spec fn spec_config_items(content: Seq<char>) -> Seq<ItemView> {
    let (items, cur) = read_state(split_char_seq(content, '\n'));
    flush(items, cur)
}

fn key_eq(k: &Vec<char>, lit: &str) -> (r: bool)
    ensures
        r == (k@ == lit@),
{
    crate::text::eq_seq(k, &chars_of(lit))
}

fn apply_directive_exec(e: &mut SshConfigEntry, key_lc: &Vec<char>, value: &Vec<char>)
    ensures
        final(e)@ == apply_directive(old(e)@, key_lc@, value@),
{
    if key_eq(key_lc, "hostname") {
        e.hostname = Some(string_from_chars(value));
    } else if key_eq(key_lc, "user") {
        e.user = Some(string_from_chars(value));
    } else if key_eq(key_lc, "port") {
        e.port = crate::text::parse_u16(value);
    } else if key_eq(key_lc, "identityfile") {
        e.identity_file = Some(string_from_chars(value));
    } else if key_eq(key_lc, "proxyjump") {
        e.proxy_jump = Some(string_from_chars(value));
    } else if key_eq(key_lc, "proxycommand") {
        let mut w = String::from_str("Host '");
        w.append(e.host_pattern.as_str());
        w.append("' : ProxyCommand non supporté, ignoré (utiliser ProxyJump)");
        e.proxy_command_warning = Some(w);
    } else if key_eq(key_lc, "serveraliveinterval") {
        let mut o = String::from_str("ServerAliveInterval=");
        let vs = string_from_chars(value);
        o.append(vs.as_str());
        let ghost before = views(e.ssh_options@);
        e.ssh_options.push(o);
        assert(views(e.ssh_options@) =~= before.push("ServerAliveInterval="@ + value@));
    } else if key_eq(key_lc, "serveralivecountmax") {
        let mut o = String::from_str("ServerAliveCountMax=");
        let vs = string_from_chars(value);
        o.append(vs.as_str());
        let ghost before = views(e.ssh_options@);
        e.ssh_options.push(o);
        assert(views(e.ssh_options@) =~= before.push("ServerAliveCountMax="@ + value@));
    }
}

fn new_entry_exec(pattern: &Vec<char>) -> (r: SshConfigEntry)
    ensures
        r@ == new_entry(pattern@),
{
    let r = SshConfigEntry {
        host_pattern: string_from_chars(pattern),
        hostname: None,
        user: None,
        port: None,
        identity_file: None,
        proxy_jump: None,
        ssh_options: Vec::new(),
        proxy_command_warning: None,
    };
    assert(views(r.ssh_options@) =~= Seq::<Seq<char>>::empty());
    r
}

fn flush_exec(items: &mut Vec<SshConfigItem>, cur: Option<SshConfigEntry>)
    ensures
        items_view(final(items)@) == flush(items_view(old(items)@), match cur {
            Some(e) => Some(e@),
            None => None,
        }),
{
    match cur {
        Some(e) => {
            let ghost before = items_view(items@);
            let ghost ev = e@;
            items.push(SshConfigItem::Entry(e));
            assert(items_view(items@) =~= before.push(ItemView::Entry(ev)));
        },
        None => {},
    }
}

pub open spec fn opt_entry_view(o: Option<SshConfigEntry>) -> Option<SshEntryView> {
    match o {
        Some(e) => Some(e@),
        None => None,
    }
}

/// The `Host` blocks and `Include` directives of the text of an ssh_config
/// file, in order (the caller reads the included files).
pub fn parse_config_items(content: &str) -> (r: Vec<SshConfigItem>)
    ensures
        items_view(r@) == spec_config_items(content@),
{
    let lines = crate::text::split_char(&chars_of(content), '\n');
    let ghost lv = vviews(lines@);
    let mut items: Vec<SshConfigItem> = Vec::new();
    let mut cur: Option<SshConfigEntry> = None;
    let mut i: usize = 0;
    assert(items_view(items@) =~= Seq::<ItemView>::empty());
    while i < lines.len()
        invariant
            i <= lines@.len(),
            lv == vviews(lines@),
            lv == split_char_seq(content@, '\n'),
            (items_view(items@), opt_entry_view(cur)) == read_state(lv.take(i as int)),
        decreases lines@.len() - i,
    {
        assert(lv.take(i + 1).drop_last() =~= lv.take(i as int));
        assert(lv.take(i + 1).last() == lines@[i as int]@);
        let t = trim_vec(&lines[i]);
        if t.len() == 0 || t[0] == '#' {
        } else {
            match split_kv_vec(&t) {
                None => {},
                Some((key, value)) => {
                    let ks = string_from_chars(&key);
                    let klc = to_lowercase(ks.as_str());
                    let k = chars_of(klc.as_str());
                    if key_eq(&k, "include") {
                        let c = cur;
                        cur = None;
                        flush_exec(&mut items, c);
                        let ghost before = items_view(items@);
                        items.push(SshConfigItem::Include(string_from_chars(&value)));
                        assert(items_view(items@) =~= before.push(ItemView::Include(value@)));
                    } else if key_eq(&k, "host") {
                        let c = cur;
                        flush_exec(&mut items, c);
                        cur = Some(new_entry_exec(&value));
                    } else {
                        match cur {
                            Some(mut e) => {
                                apply_directive_exec(&mut e, &k, &value);
                                cur = Some(e);
                            },
                            None => {
                                cur = None;
                            },
                        }
                    }
                },
            }
        }
        i += 1;
    }
    assert(lv.take(i as int) =~= lv);
    flush_exec(&mut items, cur);
    items
}

/// Keeps an entry unless its pattern has a wildcard (`*` or `?`); its
/// ProxyCommand warning, if any, goes to the warnings.
pub fn push_entry(entry: SshConfigEntry, entries: &mut Vec<SshConfigEntry>, warnings: &mut Vec<String>)
    ensures
        ({
            let p = entry@.host_pattern;
            if p.contains('*') || p.contains('?') {
                ssh_entries_view(final(entries)@) == ssh_entries_view(old(entries)@) && views(
                    final(warnings)@,
                ) == views(old(warnings)@)
            } else {
                &&& ssh_entries_view(final(entries)@) == ssh_entries_view(old(entries)@).push(entry@)
                &&& views(final(warnings)@) == match entry@.proxy_command_warning {
                    Some(w) => views(old(warnings)@).push(w),
                    None => views(old(warnings)@),
                }
            }
        }),
{
    let p = chars_of(entry.host_pattern.as_str());
    if crate::text::contains_char(&p, '*') || crate::text::contains_char(&p, '?') {
        return;
    }
    match &entry.proxy_command_warning {
        Some(w) => {
            let ghost before = views(warnings@);
            warnings.push(w.clone());
            assert(views(warnings@) =~= before.push(w@));
        },
        None => {},
    }
    let ghost before = ssh_entries_view(entries@);
    let ghost ev = entry@;
    entries.push(entry);
    assert(ssh_entries_view(entries@) =~= before.push(ev));
}

/// The file an `Include` names, relative to the directory `base` of the
/// including file unless absolute (wildcards are not expanded).
pub open spec fn spec_include_path(pattern: Seq<char>, base: Seq<char>) -> Seq<char> {
    if pattern.len() > 0 && pattern[0] == '/' {
        pattern
    } else if base.len() > 0 && base.last() == '/' {
        base + pattern
    } else if base.len() == 0 {
        pattern
    } else {
        base + seq!['/'] + pattern
    }
}

/// The files an `Include` names: the pattern, relative to `base` unless
/// absolute (wildcards are not expanded).
pub fn expand_glob(pattern: &str, base: &str) -> (r: Vec<String>)
    ensures
        views(r@) == seq![spec_include_path(pattern@, base@)],
{
    let p = chars_of(pattern);
    let b = chars_of(base);
    let path: String = if p.len() > 0 && p[0] == '/' {
        String::from_str(pattern)
    } else if b.len() > 0 && b[b.len() - 1] == '/' {
        let mut s = String::from_str(base);
        s.append(pattern);
        s
    } else if b.len() == 0 {
        String::from_str(pattern)
    } else {
        let mut s = String::from_str(base);
        crate::text::push_char(&mut s, '/');
        s.append(pattern);
        assert(s@ =~= base@ + seq!['/'] + pattern@);
        s
    };
    assert(path@ == spec_include_path(pattern@, base@));
    let mut r: Vec<String> = Vec::new();
    r.push(path);
    assert(views(r@) =~= seq![spec_include_path(pattern@, base@)]);
    r
}

/// The files an `Include` value names: its tilde expanded, then relative to
/// `base` unless absolute.
pub fn include_paths(value: &str, base: &str) -> (r: Vec<String>)
    ensures
        exists|x: Seq<char>| tilde_expansion_of(value@, x) && views(r@) == seq![
            spec_include_path(x, base@),
        ],
{
    let expanded = expand_tilde(value);
    expand_glob(expanded.as_str(), base)
}

// ─── YAML ────────────────────────────────────────────────────────────────────

pub open spec fn spaces(n: nat) -> Seq<char> {
    Seq::new(n, |i: int| ' ')
}

/// The `ssh_options` list items of a server.
pub open spec fn options_yaml(opts: Seq<Seq<char>>, pad2: Seq<char>) -> Seq<char>
    decreases opts.len(),
{
    if opts.len() == 0 {
        seq![]
    } else {
        options_yaml(opts.drop_last(), pad2) + pad2 + "  - \""@ + opts.last() + "\"\n"@
    }
}

/// The YAML of one server, indented by `indent` spaces; spaces of the
/// pattern become dashes in its name.
pub open spec fn server_yaml(e: SshEntryView, indent: nat) -> Seq<char> {
    let p = spaces(indent);
    let p2 = spaces(indent + 2);
    name_host_lines(p, p2, e) + opt_line(p2, "user: \""@, e.user) + port_line(p2, e.port) + opt_line(
        p2,
        "ssh_key: \""@,
        e.identity_file,
    ) + options_block(p2, e.ssh_options)
}

fn spaces_string(n: usize) -> (r: String)
    ensures
        r@ == spaces(n as nat),
{
    let mut v: Vec<char> = Vec::new();
    let mut i: usize = 0;
    while i < n
        invariant
            i <= n,
            v@ == spaces(i as nat),
        decreases n - i,
    {
        v.push(' ');
        i += 1;
        assert(v@ =~= spaces(i as nat));
    }
    string_from_chars(&v)
}

/// `pad2` and `label`, then `v` and a closing quote, when `v` is set.
pub open spec fn opt_line(pad2: Seq<char>, label: Seq<char>, v: Option<Seq<char>>) -> Seq<char> {
    match v {
        Some(u) => pad2 + label + u + "\"\n"@,
        None => seq![],
    }
}

pub open spec fn port_line(pad2: Seq<char>, port: Option<u16>) -> Seq<char> {
    match port {
        Some(pt) => pad2 + "ssh_port: "@ + decimal_seq(pt as nat) + "\n"@,
        None => seq![],
    }
}

pub open spec fn options_block(pad2: Seq<char>, opts: Seq<Seq<char>>) -> Seq<char> {
    if opts.len() > 0 {
        pad2 + "ssh_options:\n"@ + options_yaml(opts, pad2)
    } else {
        seq![]
    }
}

pub open spec fn name_host_lines(pad: Seq<char>, pad2: Seq<char>, e: SshEntryView) -> Seq<char> {
    pad + "- name: \""@ + crate::text::replace_seq(e.host_pattern, seq![' '], seq!['-']) + "\"\n"@
        + pad2 + "host: \""@ + spec_effective_host(e) + "\"\n"@
}

fn write_name_host(out: &mut String, pad: &String, pad2: &String, e: &SshConfigEntry)
    ensures
        final(out)@ == old(out)@ + name_host_lines(pad@, pad2@, e@),
{
    let ghost start = out@;
    let mut sp: Vec<char> = Vec::new();
    sp.push(' ');
    let mut dash: Vec<char> = Vec::new();
    dash.push('-');
    assert(sp@ =~= seq![' ']);
    assert(dash@ =~= seq!['-']);
    let name = string_from_chars(&crate::text::replace_vec(&chars_of(e.host_pattern.as_str()), &sp, &dash));
    out.append(pad.as_str());
    out.append("- name: \"");
    out.append(name.as_str());
    out.append("\"\n");
    out.append(pad2.as_str());
    out.append("host: \"");
    out.append(e.effective_host());
    out.append("\"\n");
    assert(out@ =~= start + name_host_lines(pad@, pad2@, e@));
}

fn write_opt_line(out: &mut String, pad2: &String, label: &str, v: &Option<String>)
    ensures
        final(out)@ == old(out)@ + opt_line(pad2@, label@, ov(*v)),
{
    let ghost start = out@;
    match v {
        Some(u) => {
            out.append(pad2.as_str());
            out.append(label);
            out.append(u.as_str());
            out.append("\"\n");
        },
        None => {},
    }
    assert(out@ =~= start + opt_line(pad2@, label@, ov(*v)));
}

fn write_port_line(out: &mut String, pad2: &String, port: Option<u16>)
    ensures
        final(out)@ == old(out)@ + port_line(pad2@, port),
{
    let ghost start = out@;
    match port {
        Some(pt) => {
            out.append(pad2.as_str());
            out.append("ssh_port: ");
            let n = crate::text::u64_to_string(pt as u64);
            out.append(n.as_str());
            out.append("\n");
        },
        None => {},
    }
    assert(out@ =~= start + port_line(pad2@, port));
}

fn write_options_block(out: &mut String, pad2: &String, opts: &Vec<String>)
    ensures
        final(out)@ == old(out)@ + options_block(pad2@, views(opts@)),
{
    let ghost start = out@;
    if opts.len() > 0 {
        out.append(pad2.as_str());
        out.append("ssh_options:\n");
        let ghost b0 = out@;
        let ghost ov = views(opts@);
        let mut i: usize = 0;
        while i < opts.len()
            invariant
                i <= opts@.len(),
                ov == views(opts@),
                out@ == b0 + options_yaml(ov.take(i as int), pad2@),
            decreases opts@.len() - i,
        {
            assert(ov.take(i + 1).drop_last() =~= ov.take(i as int));
            out.append(pad2.as_str());
            out.append("  - \"");
            out.append(opts[i].as_str());
            out.append("\"\n");
            i += 1;
        }
        assert(ov.take(i as int) =~= ov);
    }
    assert(out@ =~= start + options_block(pad2@, views(opts@)));
}

/// Appends the YAML of server `e`, indented by `indent` spaces.
pub fn write_server(out: &mut String, e: &SshConfigEntry, indent: usize)
    requires
        indent + 2 <= usize::MAX,
    ensures
        final(out)@ == old(out)@ + server_yaml(e@, indent as nat),
{
    let ghost start = out@;
    let pad = spaces_string(indent);
    let pad2 = spaces_string(indent + 2);
    write_name_host(out, &pad, &pad2, e);
    write_opt_line(out, &pad2, "user: \"", &e.user);
    write_port_line(out, &pad2, e.port);
    write_opt_line(out, &pad2, "ssh_key: \"", &e.identity_file);
    write_options_block(out, &pad2, &e.ssh_options);
    assert(out@ =~= start + server_yaml(e@, indent as nat));
}

/// The entries without a jump host, in order.
pub open spec fn direct_of(es: Seq<SshEntryView>) -> Seq<SshEntryView>
    decreases es.len(),
{
    if es.len() == 0 {
        seq![]
    } else {
        let r = direct_of(es.drop_last());
        if es.last().proxy_jump is None {
            r.push(es.last())
        } else {
            r
        }
    }
}

/// The entries whose jump host is `j`, in order.
pub open spec fn via_of(es: Seq<SshEntryView>, j: Seq<char>) -> Seq<SshEntryView>
    decreases es.len(),
{
    if es.len() == 0 {
        seq![]
    } else {
        let r = via_of(es.drop_last(), j);
        if es.last().proxy_jump == Some(j) {
            r.push(es.last())
        } else {
            r
        }
    }
}

/// The servers' YAML, indented by six spaces.
pub open spec fn servers_yaml(es: Seq<SshEntryView>) -> Seq<char>
    decreases es.len(),
{
    if es.len() == 0 {
        seq![]
    } else {
        servers_yaml(es.drop_last()) + server_yaml(es.last(), 6)
    }
}

/// The first hop of a jump chain, trimmed.
pub open spec fn first_hop(jump: Seq<char>) -> Seq<char> {
    trim_ws(split_char_seq(jump, ',')[0])
}

/// The group of the servers reached through jump host `jump`: named after
/// it, in jump mode, with the user and host of its first hop.
pub open spec fn jump_group_yaml(jump: Seq<char>, es: Seq<SshEntryView>) -> Seq<char> {
    let hop = first_hop(jump);
    let (user, host) = match crate::text::split_once_seq(hop, '@') {
        Some((u, h)) => (Some(u), h),
        None => (None, hop),
    };
    "  - name: \"Imported (via "@ + jump + ")\"\n"@ + "    mode: jump\n"@ + (match user {
        Some(u) => "    user: \""@ + u + "\"\n"@,
        None => seq![],
    }) + "    jump:\n      - host: \""@ + host + "\"\n"@ + "    servers:\n"@ + servers_yaml(es)
}

pub open spec fn groups_yaml(keys: Seq<Seq<char>>, es: Seq<SshEntryView>) -> Seq<char>
    decreases keys.len(),
{
    if keys.len() == 0 {
        seq![]
    } else {
        groups_yaml(keys.drop_last(), es) + jump_group_yaml(keys.last(), via_of(es, keys.last()))
    }
}

pub open spec fn yaml_header() -> Seq<char> {
    "# Généré par susshi --import-ssh-config\n"@ + "# Vérifiez et ajustez avant d'utiliser.\n\n"@
        + "groups:\n"@
}

/// The YAML of the entries: a header, the group of direct servers (when
/// any), then one group per jump host in the order of `keys`.
pub open spec fn yaml_text(es: Seq<SshEntryView>, keys: Seq<Seq<char>>) -> Seq<char> {
    let d = direct_of(es);
    yaml_header() + (if d.len() > 0 {
        "  - name: \"Imported (direct)\"\n"@ + "    servers:\n"@ + servers_yaml(d)
    } else {
        seq![]
    }) + groups_yaml(keys, es)
}

/// Strictly increasing in the order of `str::cmp`.
pub open spec fn strictly_sorted(s: Seq<Seq<char>>) -> bool {
    forall|a: int, b: int|
        #![trigger s[a], s[b]]
        0 <= a < b < s.len() ==> lex_le(s[a], s[b]) && s[a] != s[b]
}

/// `j` is the jump host of some entry.
pub open spec fn is_jump_of(es: Seq<SshEntryView>, j: Seq<char>) -> bool {
    exists|i: int| 0 <= i < es.len() && (#[trigger] es[i]).proxy_jump == Some(j)
}

fn insert_sorted_unique(keys: &mut Vec<String>, x: &String)
    requires
        strictly_sorted(views(old(keys)@)),
    ensures
        strictly_sorted(views(final(keys)@)),
        forall|k: Seq<char>| views(final(keys)@).contains(k) <==> (views(old(keys)@).contains(k) || k
            == x@),
{
    let ghost kv = views(keys@);
    if crate::config::contains_string(keys, x) {
        return;
    }
    let mut pos: usize = 0;
    while pos < keys.len() && !lex_le_exec(x.as_str(), keys[pos].as_str())
        invariant
            pos <= keys@.len(),
            kv == views(keys@),
            forall|k: int| 0 <= k < pos ==> !lex_le(x@, #[trigger] kv[k]),
        decreases keys@.len() - pos,
    {
        pos += 1;
    }
    let ghost old_k = kv;
    keys.insert(pos, x.clone());
    proof {
        let nk = views(keys@);
        assert(nk =~= old_k.insert(pos as int, x@));
        assert forall|a: int, b: int| #![trigger nk[a], nk[b]] 0 <= a < b < nk.len() implies lex_le(
            nk[a],
            nk[b],
        ) && nk[a] != nk[b] by {
            if a != pos && b != pos {
                let oa = if a < pos { a } else { a - 1 };
                let ob = if b < pos { b } else { b - 1 };
                assert(nk[a] == old_k[oa]);
                assert(nk[b] == old_k[ob]);
                assert(lex_le(old_k[oa], old_k[ob]) && old_k[oa] != old_k[ob]);
            } else if b == pos {
                assert(nk[a] == old_k[a]);
                assert(!lex_le(x@, old_k[a]));
                lemma_lex_le_total(x@, old_k[a]);
                crate::sorting::lemma_lex_le_refl(x@);
            } else {
                assert(nk[b] == old_k[b - 1]);
                assert(pos < old_k.len());
                assert(lex_le(x@, old_k[pos as int]));
                if b - 1 > pos {
                    assert(lex_le(old_k[pos as int], old_k[b - 1]));
                    lemma_lex_le_trans(x@, old_k[pos as int], old_k[b - 1]);
                }
                assert(!old_k.contains(x@));
                assert(old_k[b - 1] != x@);
            }
        }
        assert forall|k: Seq<char>| nk.contains(k) <==> (old_k.contains(k) || k == x@) by {
            if nk.contains(k) {
                let i = choose|i: int| 0 <= i < nk.len() && nk[i] == k;
                if i < pos {
                    assert(old_k[i] == k);
                } else if i > pos {
                    assert(old_k[i - 1] == k);
                }
            }
            if old_k.contains(k) {
                let i = choose|i: int| 0 <= i < old_k.len() && old_k[i] == k;
                if i < pos {
                    assert(nk[i] == k);
                } else {
                    assert(nk[i + 1] == k);
                }
            }
            if k == x@ {
                assert(nk[pos as int] == k);
            }
        }
    }
}

fn filter_direct(entries: &Vec<SshConfigEntry>) -> (r: Vec<usize>)
    ensures
        forall|k: int| 0 <= k < r@.len() ==> #[trigger] r@[k] < entries@.len(),
        r@.map_values(|i: usize| entries@[i as int]@) == direct_of(ssh_entries_view(entries@)),
{
    let ghost ev = ssh_entries_view(entries@);
    let mut r: Vec<usize> = Vec::new();
    let mut i: usize = 0;
    while i < entries.len()
        invariant
            i <= entries@.len(),
            ev == ssh_entries_view(entries@),
            forall|k: int| 0 <= k < r@.len() ==> #[trigger] r@[k] < i,
            r@.map_values(|i: usize| entries@[i as int]@) == direct_of(ev.take(i as int)),
        decreases entries@.len() - i,
    {
        assert(ev.take(i + 1).drop_last() =~= ev.take(i as int));
        if entries[i].proxy_jump.is_none() {
            let ghost before = r@.map_values(|i: usize| entries@[i as int]@);
            r.push(i);
            assert(r@.map_values(|i: usize| entries@[i as int]@) =~= before.push(ev[i as int]));
        }
        i += 1;
    }
    assert(ev.take(i as int) =~= ev);
    r
}

fn filter_via(entries: &Vec<SshConfigEntry>, j: &String) -> (r: Vec<usize>)
    ensures
        forall|k: int| 0 <= k < r@.len() ==> #[trigger] r@[k] < entries@.len(),
        r@.map_values(|i: usize| entries@[i as int]@) == via_of(ssh_entries_view(entries@), j@),
{
    let ghost ev = ssh_entries_view(entries@);
    let mut r: Vec<usize> = Vec::new();
    let mut i: usize = 0;
    while i < entries.len()
        invariant
            i <= entries@.len(),
            ev == ssh_entries_view(entries@),
            forall|k: int| 0 <= k < r@.len() ==> #[trigger] r@[k] < i,
            r@.map_values(|i: usize| entries@[i as int]@) == via_of(ev.take(i as int), j@),
        decreases entries@.len() - i,
    {
        assert(ev.take(i + 1).drop_last() =~= ev.take(i as int));
        let is_j = match &entries[i].proxy_jump {
            Some(p) => crate::text::str_eq(p.as_str(), j.as_str()),
            None => false,
        };
        if is_j {
            let ghost before = r@.map_values(|i: usize| entries@[i as int]@);
            r.push(i);
            assert(r@.map_values(|i: usize| entries@[i as int]@) =~= before.push(ev[i as int]));
        }
        i += 1;
    }
    assert(ev.take(i as int) =~= ev);
    r
}

fn write_servers(out: &mut String, entries: &Vec<SshConfigEntry>, idx: &Vec<usize>)
    requires
        forall|k: int| 0 <= k < idx@.len() ==> #[trigger] idx@[k] < entries@.len(),
    ensures
        final(out)@ == old(out)@ + servers_yaml(idx@.map_values(|i: usize| entries@[i as int]@)),
{
    let ghost start = out@;
    let ghost sel = idx@.map_values(|i: usize| entries@[i as int]@);
    let mut k: usize = 0;
    while k < idx.len()
        invariant
            k <= idx@.len(),
            sel == idx@.map_values(|i: usize| entries@[i as int]@),
            forall|m: int| 0 <= m < idx@.len() ==> #[trigger] idx@[m] < entries@.len(),
            out@ == start + servers_yaml(sel.take(k as int)),
        decreases idx@.len() - k,
    {
        assert(sel.take(k + 1).drop_last() =~= sel.take(k as int));
        assert(sel.take(k + 1).last() == entries@[idx@[k as int] as int]@);
        write_server(out, &entries[idx[k]], 6);
        k += 1;
    }
    assert(sel.take(k as int) =~= sel);
}

fn write_jump_group(out: &mut String, jump: &String, entries: &Vec<SshConfigEntry>)
    ensures
        final(out)@ == old(out)@ + jump_group_yaml(jump@, via_of(ssh_entries_view(entries@), jump@)),
{
    let ghost start = out@;
    out.append("  - name: \"Imported (via ");
    out.append(jump.as_str());
    out.append(")\"\n");
    out.append("    mode: jump\n");
    let pieces = crate::text::split_char(&chars_of(jump.as_str()), ',');
    assert(split_char_seq(jump@, ',').len() > 0);
    assert(pieces@.len() == vviews(pieces@).len());
    assert(vviews(pieces@)[0] == pieces@[0]@);
    let hop = trim_vec(&pieces[0]);
    let ghost a1 = out@;
    let host: Vec<char> = match crate::text::split_once_vec(&hop, '@') {
        Some((u, h)) => {
            out.append("    user: \"");
            let us = string_from_chars(&u);
            out.append(us.as_str());
            out.append("\"\n");
            h
        },
        None => hop,
    };
    let ghost a2 = out@;
    out.append("    jump:\n      - host: \"");
    let hs = string_from_chars(&host);
    out.append(hs.as_str());
    out.append("\"\n");
    out.append("    servers:\n");
    let ghost a3 = out@;
    let idx = filter_via(entries, jump);
    write_servers(out, entries, &idx);
    proof {
        assert(out@ =~= start + jump_group_yaml(jump@, via_of(ssh_entries_view(entries@), jump@)));
    }
}

/// The YAML configuration of the imported entries: a group of the direct
/// servers, then one group per jump host, in the order of the jump hosts'
/// text (as `str::cmp` orders it).
pub fn import_to_yaml(entries: &Vec<SshConfigEntry>) -> (r: String)
    ensures
        exists|keys: Seq<Seq<char>>|
            strictly_sorted(keys) && (forall|k: Seq<char>| keys.contains(k) <==> is_jump_of(
                ssh_entries_view(entries@),
                k,
            )) && r@ == yaml_text(ssh_entries_view(entries@), keys),
{
    let ghost ev = ssh_entries_view(entries@);
    let mut out = String::from_str("# Généré par susshi --import-ssh-config\n");
    out.append("# Vérifiez et ajustez avant d'utiliser.\n\n");
    out.append("groups:\n");
    let ghost h = out@;
    let direct = filter_direct(entries);
    if direct.len() > 0 {
        out.append("  - name: \"Imported (direct)\"\n");
        out.append("    servers:\n");
        write_servers(&mut out, entries, &direct);
    }
    let ghost after_direct = out@;
    let mut keys: Vec<String> = Vec::new();
    let mut i: usize = 0;
    assert(views(keys@) =~= Seq::<Seq<char>>::empty());
    while i < entries.len()
        invariant
            i <= entries@.len(),
            ev == ssh_entries_view(entries@),
            strictly_sorted(views(keys@)),
            forall|k: Seq<char>| views(keys@).contains(k) <==> is_jump_of(ev.take(i as int), k),
        decreases entries@.len() - i,
    {
        let ghost before = views(keys@);
        match &entries[i].proxy_jump {
            Some(j) => {
                insert_sorted_unique(&mut keys, j);
            },
            None => {},
        }
        proof {
            assert forall|k: Seq<char>| views(keys@).contains(k) <==> is_jump_of(
                ev.take(i + 1),
                k,
            ) by {
                let t1 = ev.take(i + 1);
                if is_jump_of(ev.take(i as int), k) {
                    let m = choose|m: int|
                        0 <= m < ev.take(i as int).len() && (#[trigger] ev.take(i as int)[m]).proxy_jump
                            == Some(k);
                    assert(t1[m] == ev.take(i as int)[m]);
                }
                if is_jump_of(t1, k) {
                    let m = choose|m: int| 0 <= m < t1.len() && (#[trigger] t1[m]).proxy_jump == Some(k);
                    if m < i {
                        assert(ev.take(i as int)[m] == t1[m]);
                    }
                }
                if ev[i as int].proxy_jump == Some(k) {
                    assert(t1[i as int] == ev[i as int]);
                }
            }
        }
        i += 1;
    }
    assert(ev.take(i as int) =~= ev);
    let ghost kv = views(keys@);
    let mut q: usize = 0;
    while q < keys.len()
        invariant
            q <= keys@.len(),
            kv == views(keys@),
            ev == ssh_entries_view(entries@),
            out@ == after_direct + groups_yaml(kv.take(q as int), ev),
        decreases keys@.len() - q,
    {
        assert(kv.take(q + 1).drop_last() =~= kv.take(q as int));
        write_jump_group(&mut out, &keys[q], entries);
        q += 1;
    }
    assert(kv.take(q as int) =~= kv);
    proof {
        assert(h =~= yaml_header());
        assert(out@ =~= yaml_text(ev, kv));
    }
    out
}


/// Each supported directive inside a `Host` block (key in any ASCII case)
/// sets what it stands for in the block being read and leaves the rest of
/// the block and the items read before as they were: `HostName`, `User`,
/// `IdentityFile` and `ProxyJump` set their field, `Port` the port when it
/// is a number of at most 65535 (none otherwise), and `ServerAliveInterval`
/// and `ServerAliveCountMax` add `Name=value` to the block's SSH options.
pub proof fn lemma_directive_in_block(lines: Seq<Seq<char>>, line: Seq<char>, key: Seq<char>, value: Seq<char>)
    requires
        read_state(lines).1 is Some,
        trim_ws(line).len() > 0,
        trim_ws(line)[0] != '#',
        spec_split_kv(trim_ws(line)) == Some((key, value)),
        crate::text::all_ascii(key),
    ensures
        ({
            let (items, cur) = read_state(lines);
            let e = cur.unwrap();
            let (items2, cur2) = read_state(lines.push(line));
            let k = crate::text::ascii_lower_seq(key);
            &&& k == "hostname"@ ==> items2 == items && cur2 == Some(SshEntryView { hostname: Some(value), ..e })
            &&& k == "user"@ ==> items2 == items && cur2 == Some(SshEntryView { user: Some(value), ..e })
            &&& k == "port"@ ==> items2 == items && cur2 == Some(SshEntryView {
                port: match spec_parse_unsigned(value, 65535) {
                    Some(p) => Some(p as u16),
                    None => None,
                },
                ..e
            })
            &&& k == "identityfile"@ ==> items2 == items && cur2 == Some(
                SshEntryView { identity_file: Some(value), ..e },
            )
            &&& k == "proxyjump"@ ==> items2 == items && cur2 == Some(SshEntryView { proxy_jump: Some(value), ..e })
            &&& k == "serveraliveinterval"@ ==> items2 == items && cur2 == Some(
                SshEntryView { ssh_options: e.ssh_options.push("ServerAliveInterval="@ + value), ..e },
            )
            &&& k == "serveralivecountmax"@ ==> items2 == items && cur2 == Some(
                SshEntryView { ssh_options: e.ssh_options.push("ServerAliveCountMax="@ + value), ..e },
            )
        }),
{
    reveal_strlit("include");
    reveal_strlit("host");
    reveal_strlit("hostname");
    reveal_strlit("user");
    reveal_strlit("port");
    reveal_strlit("identityfile");
    reveal_strlit("proxyjump");
    reveal_strlit("proxycommand");
    reveal_strlit("serveraliveinterval");
    reveal_strlit("serveralivecountmax");
    assert(lines.push(line).drop_last() =~= lines);
    assert(lines.push(line).last() == line);
    assert("hostname"@.len() != "include"@.len());
    assert("hostname"@.len() != "host"@.len());
    assert("user"@.len() != "include"@.len());
    assert("user"@[0] != "host"@[0]);
    assert("user"@.len() != "hostname"@.len());
    assert("port"@.len() != "include"@.len());
    assert("port"@[0] != "host"@[0]);
    assert("port"@.len() != "hostname"@.len());
    assert("port"@[0] != "user"@[0]);
    assert("identityfile"@.len() != "include"@.len());
    assert("identityfile"@.len() != "host"@.len());
    assert("identityfile"@.len() != "hostname"@.len());
    assert("identityfile"@.len() != "user"@.len());
    assert("identityfile"@.len() != "port"@.len());
    assert("proxyjump"@.len() != "include"@.len());
    assert("proxyjump"@.len() != "host"@.len());
    assert("proxyjump"@.len() != "hostname"@.len());
    assert("proxyjump"@.len() != "user"@.len());
    assert("proxyjump"@.len() != "port"@.len());
    assert("proxyjump"@.len() != "identityfile"@.len());
    assert("serveraliveinterval"@.len() != "include"@.len());
    assert("serveraliveinterval"@.len() != "host"@.len());
    assert("serveraliveinterval"@.len() != "hostname"@.len());
    assert("serveraliveinterval"@.len() != "user"@.len());
    assert("serveraliveinterval"@.len() != "port"@.len());
    assert("serveraliveinterval"@.len() != "identityfile"@.len());
    assert("serveraliveinterval"@.len() != "proxyjump"@.len());
    assert("serveraliveinterval"@.len() != "proxycommand"@.len());
    assert("serveralivecountmax"@.len() != "include"@.len());
    assert("serveralivecountmax"@.len() != "host"@.len());
    assert("serveralivecountmax"@.len() != "hostname"@.len());
    assert("serveralivecountmax"@.len() != "user"@.len());
    assert("serveralivecountmax"@.len() != "port"@.len());
    assert("serveralivecountmax"@.len() != "identityfile"@.len());
    assert("serveralivecountmax"@.len() != "proxyjump"@.len());
    assert("serveralivecountmax"@.len() != "proxycommand"@.len());
    assert("serveralivecountmax"@[11] != "serveraliveinterval"@[11]);
}


/// A `Host` line (any ASCII case) closes the block being read, if any, and
/// opens a block for its pattern; an `Include` line closes it too and adds
/// the include; blank and comment lines change nothing.
pub proof fn lemma_host_and_include_lines(lines: Seq<Seq<char>>, line: Seq<char>, key: Seq<char>, value: Seq<char>)
    ensures
        ({
            let (items, cur) = read_state(lines);
            let (items2, cur2) = read_state(lines.push(line));
            let t = trim_ws(line);
            &&& (t.len() == 0 || t[0] == '#') ==> items2 == items && cur2 == cur
            &&& (t.len() > 0 && t[0] != '#' && spec_split_kv(t) == Some((key, value)) && crate::text::all_ascii(
                key,
            )) ==> {
                &&& crate::text::ascii_lower_seq(key) == "host"@ ==> items2 == flush(items, cur) && cur2 == Some(
                    new_entry(value),
                )
                &&& crate::text::ascii_lower_seq(key) == "include"@ ==> items2 == flush(items, cur).push(
                    ItemView::Include(value),
                ) && cur2 is None
            }
        }),
{
    reveal_strlit("host");
    reveal_strlit("include");
    assert("host"@.len() != "include"@.len());
    assert(lines.push(line).drop_last() =~= lines);
    assert(lines.push(line).last() == line);
}

} // verus!
