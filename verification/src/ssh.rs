//! SSH and SCP command lines, and the parsers of what `ssh`, `scp` and the
//! Wallix bastion print.
use vstd::prelude::*;
use crate::config::{ConnectionMode, TunnelConfig, TunnelView};
use crate::resolve::{ResolvedServer, ResolvedView};
use crate::text::{
    ascii_lower_seq, ascii_lower_vec, chars_of, decimal_seq, is_ascii_digit, spec_contains,
    spec_ends_with, spec_index_of_char, spec_is_ascii_digit, spec_is_whitespace,
    spec_parse_unsigned, split_once_seq, string_from_chars, u64_to_string, views,
};
use crate::tilde::{expand_tilde, tilde_expansion_of};
use vstd::string::StringExecFns;

verus! {

/// Direction of an SCP transfer.
#[derive(Debug, Clone, Copy, PartialEq, Eq, Structural)]
pub enum ScpDirection {
    /// Local to server.
    Upload,
    /// Server to local.
    Download,
}

impl ScpDirection {
    /// Short label of the direction.
    pub fn label(&self) -> (r: &'static str)
        ensures
            *self == ScpDirection::Upload ==> r@ == "Upload"@,
            *self == ScpDirection::Download ==> r@ == "Download"@,
    {
        match self {
            Self::Upload => "Upload",
            Self::Download => "Download",
        }
    }
}

/// What the watcher of an SCP transfer reports.
#[derive(Debug)]
pub enum ScpEvent {
    /// Progress, 0 to 100.
    Progress(u8),
    /// Size in bytes of the file being transferred, once known.
    FileSize(u64),
    /// The transfer ended; true when it succeeded.
    Done(bool),
    /// The transfer could not run.
    Error(String),
}

// ─── Output parsers ──────────────────────────────────────────────────────────

/// The trailing ASCII digits of `s`.
pub open spec fn digit_suffix(s: Seq<char>) -> Seq<char>
    decreases s.len(),
{
    if s.len() == 0 || !spec_is_ascii_digit(s.last()) {
        seq![]
    } else {
        digit_suffix(s.drop_last()).push(s.last())
    }
}

/// The percentage of an `scp` progress line: the digits right before the
/// first `%` (which may not start the line), a number from 0 to 100.
pub open spec fn spec_parse_progress(line: Seq<char>) -> Option<u8> {
    match spec_index_of_char(line, '%') {
        Some(i) => if i == 0 {
            None
        } else {
            let d = digit_suffix(line.take(i));
            if d.len() == 0 {
                None
            } else {
                match spec_parse_unsigned(d, 255) {
                    Some(v) => if v <= 100 {
                        Some(v as u8)
                    } else {
                        None
                    },
                    None => None,
                }
            }
        },
        None => None,
    }
}

pub fn parse_progress(line: &str) -> (r: Option<u8>)
    ensures
        r == spec_parse_progress(line@),
{
    let v = chars_of(line);
    let pct = match crate::text::index_of_char(&v, '%') {
        Some(i) => i,
        None => {
            return None;
        },
    };
    if pct == 0 {
        return None;
    }
    let before = crate::text::subvec(&v, 0, pct);
    assert(before@ =~= v@.take(pct as int));
    let mut start: usize = pct;
    assert(before@.take(pct as int) =~= before@);
    assert(before@.subrange(pct as int, pct as int) =~= Seq::<char>::empty());
    assert(before@ + Seq::<char>::empty() =~= before@);
    while start > 0 && is_ascii_digit(before[start - 1])
        invariant
            start <= pct == before@.len(),
            digit_suffix(before@) == digit_suffix(before@.take(start as int)) + before@.subrange(
                start as int,
                pct as int,
            ),
        decreases start,
    {
        assert(before@.take(start as int).drop_last() =~= before@.take(start - 1));
        assert(before@.subrange(start - 1, pct as int) =~= seq![before@[start - 1]]
            + before@.subrange(start as int, pct as int));
        start -= 1;
    }
    proof {
        if start > 0 {
            assert(digit_suffix(before@.take(start as int)) =~= Seq::<char>::empty());
        } else {
            assert(before@.take(0) =~= Seq::<char>::empty());
        }
    }
    let digits = crate::text::subvec(&before, start, pct);
    assert(digits@ =~= digit_suffix(before@));
    if digits.len() == 0 {
        return None;
    }
    match crate::text::parse_unsigned(&digits, 255) {
        Some(p) => if p <= 100 {
            Some(p as u8)
        } else {
            None
        },
        None => None,
    }
}

/// `s` without its trailing whitespace.
pub open spec fn trim_end_seq(s: Seq<char>) -> Seq<char> {
    crate::text::trim_end_ws(s)
}

/// The bastion shows its selection prompt: the output, without trailing
/// whitespace, ends with `>` (as ` >` or alone on its last line).
pub open spec fn spec_wallix_prompt(buffer: Seq<char>) -> bool {
    spec_ends_with(trim_end_seq(buffer), seq!['>'])
}

/// Whether the bastion's output ends with its selection prompt. (A prompt
/// ` >`, or `>` alone on the last non-blank line, both end with `>`.)
pub fn contains_wallix_prompt(buffer: &str) -> (r: bool)
    ensures
        r == spec_wallix_prompt(buffer@),
{
    let v = chars_of(buffer);
    let mut n: usize = v.len();
    assert(v@.take(n as int) =~= v@);
    while n > 0 && crate::text::is_whitespace(v[n - 1])
        invariant
            n <= v@.len(),
            trim_end_seq(v@) == trim_end_seq(v@.take(n as int)),
        decreases n,
    {
        assert(v@.take(n as int).drop_last() =~= v@.take(n - 1));
        n -= 1;
    }
    proof {
        if n > 0 {
            assert(v@.take(n as int).last() == v@[n - 1]);
            assert(!spec_is_whitespace(v@[n - 1]));
            assert(trim_end_seq(v@.take(n as int)) == v@.take(n as int));
            assert(v@.take(n as int).subrange(n - 1, n as int) =~= seq![v@[n - 1]]);
            if v@[n - 1] != '>' {
                assert(seq![v@[n - 1]][0] != seq!['>'][0]);
                assert(!spec_ends_with(v@.take(n as int), seq!['>']));
            }
        } else {
            assert(v@.take(0) =~= Seq::<char>::empty());
        }
    }
    n > 0 && v[n - 1] == '>'
}

/// The bastion asks for the target address (French or English prompt).
pub open spec fn spec_target_address_prompt(buffer: Seq<char>) -> bool {
    let l = ascii_lower_seq(buffer);
    spec_contains(l, "adresse cible"@) || spec_contains(l, "target address"@) || spec_contains(
        l,
        "destination address"@,
    )
}

pub fn contains_wallix_target_address_prompt(buffer: &str) -> (r: bool)
    ensures
        r == spec_target_address_prompt(buffer@),
{
    let l = ascii_lower_vec(&chars_of(buffer));
    crate::text::contains_seq(&l, &chars_of("adresse cible")) || crate::text::contains_seq(
        &l,
        &chars_of("target address"),
    ) || crate::text::contains_seq(&l, &chars_of("destination address"))
}

/// Whether an error message tells that no menu entry matched the server, so
/// that the user may choose by hand.
pub open spec fn spec_menu_matching_error(message: Seq<char>) -> bool {
    spec_contains(message, "No menu entry found with target"@) || spec_contains(
        message,
        "No menu entry found for matching targets"@,
    ) || spec_contains(message, "No menu entry found for target"@)
}

pub fn is_wallix_menu_matching_error(message: &str) -> (r: bool)
    ensures
        r == spec_menu_matching_error(message@),
{
    crate::text::str_contains(message, "No menu entry found with target")
        || crate::text::str_contains(message, "No menu entry found for matching targets")
        || crate::text::str_contains(message, "No menu entry found for target")
}

/// Whether the Wallix menu is answered automatically.
pub fn should_use_wallix_menu_automation(server: &ResolvedServer, mode: ConnectionMode) -> (r: bool)
    ensures
        r == (mode == ConnectionMode::Wallix && server.wallix_auto_select),
{
    mode == ConnectionMode::Wallix && server.wallix_auto_select
}

/// The last position at which `p` occurs in `s`, searching down from `i`.
pub open spec fn rfind_from(s: Seq<char>, p: Seq<char>, i: int) -> Option<int>
    decreases i + 1,
{
    if i < 0 {
        None
    } else if crate::text::occurs_at(s, p, i) {
        Some(i)
    } else {
        rfind_from(s, p, i - 1)
    }
}

/// `str::rfind`: the last position at which `p` occurs in `s`.
pub open spec fn spec_rfind(s: Seq<char>, p: Seq<char>) -> Option<int> {
    rfind_from(s, p, s.len() - p.len())
}

fn rfind_vec(s: &Vec<char>, p: &Vec<char>) -> (r: Option<usize>)
    ensures
        match r {
            Some(i) => spec_rfind(s@, p@) == Some(i as int),
            None => spec_rfind(s@, p@) is None,
        },
{
    if p.len() > s.len() {
        return None;
    }
    let mut i: usize = s.len() - p.len();
    loop
        invariant
            i <= s@.len() - p@.len(),
            p@.len() <= s@.len(),
            spec_rfind(s@, p@) == rfind_from(s@, p@, i as int),
        decreases i,
    {
        if crate::text::seq_occurs_at(s, p, i) {
            return Some(i);
        }
        if i == 0 {
            assert(rfind_from(s@, p@, -1) is None);
            return None;
        }
        i -= 1;
    }
}

/// The page counter reader: digits before `/` go to the current page, digits
/// after it to the total; the first other character after some digits ends it.
pub open spec fn page_state(s: Seq<char>) -> (Seq<char>, Seq<char>, bool, bool)
    decreases s.len(),
{
    if s.len() == 0 {
        (seq![], seq![], false, false)
    } else {
        let (cur, tot, slash, stop) = page_state(s.drop_last());
        let c = s.last();
        if stop {
            (cur, tot, slash, stop)
        } else if spec_is_ascii_digit(c) {
            if slash {
                (cur, tot.push(c), slash, false)
            } else {
                (cur.push(c), tot, slash, false)
            }
        } else if c == '/' && !slash {
            (cur, tot, true, false)
        } else if cur.len() > 0 {
            (cur, tot, slash, true)
        } else {
            (cur, tot, slash, false)
        }
    }
}

/// The page position `page N/M` of the last page marker of the output.
pub open spec fn spec_page_position(buffer: Seq<char>) -> Option<(u32, u32)> {
    let l = ascii_lower_seq(buffer);
    match spec_rfind(l, "page "@) {
        Some(i) => {
            let (cur, tot, _s, _t) = page_state(l.subrange(i + 5, l.len() as int));
            if cur.len() == 0 || tot.len() == 0 {
                None
            } else {
                match (spec_parse_unsigned(cur, 0xffff_ffff), spec_parse_unsigned(tot, 0xffff_ffff)) {
                    (Some(a), Some(b)) => Some((a as u32, b as u32)),
                    _ => None,
                }
            }
        },
        None => None,
    }
}

pub fn parse_wallix_page_position(buffer: &str) -> (r: Option<(u32, u32)>)
    ensures
        r == spec_page_position(buffer@),
{
    let l = ascii_lower_vec(&chars_of(buffer));
    let marker = chars_of("page ");
    proof {
        reveal_strlit("page ");
    }
    assert(marker@.len() == 5);
    let start = match rfind_vec(&l, &marker) {
        Some(i) => i,
        None => {
            return None;
        },
    };
    proof {
        lemma_rfind_bounds(l@, marker@, l@.len() - marker@.len());
    }
    let n = l.len();
    let tail = crate::text::subvec(&l, start + 5, n);
    let mut cur: Vec<char> = Vec::new();
    let mut tot: Vec<char> = Vec::new();
    let mut slash = false;
    let mut done = false;
    let mut k: usize = 0;
    let ghost t = tail@;
    while k < tail.len() && !done
        invariant
            k <= tail@.len(),
            t == tail@,
            !done ==> (cur@, tot@, slash, false) == page_state(t.take(k as int)),
            done ==> (cur@, tot@, slash, true) == page_state(t),
        decreases tail@.len() - k,
    {
        assert(t.take(k + 1).drop_last() =~= t.take(k as int));
        let c = tail[k];
        if is_ascii_digit(c) {
            if slash {
                tot.push(c);
            } else {
                cur.push(c);
            }
        } else if c == '/' && !slash {
            slash = true;
        } else if cur.len() > 0 {
            proof {
                lemma_page_state_stops(t, k as int + 1);
            }
            done = true;
        }
        k += 1;
    }
    proof {
        if !done {
            assert(t.take(k as int) =~= t);
        }
    }
    if cur.len() == 0 || tot.len() == 0 {
        return None;
    }
    let a = match crate::text::parse_unsigned(&cur, 0xffff_ffff) {
        Some(x) => x,
        None => {
            return None;
        },
    };
    let b = match crate::text::parse_unsigned(&tot, 0xffff_ffff) {
        Some(x) => x,
        None => {
            return None;
        },
    };
    Some((a as u32, b as u32))
}

proof fn lemma_rfind_bounds(s: Seq<char>, p: Seq<char>, i: int)
    ensures
        rfind_from(s, p, i) matches Some(j) ==> 0 <= j && j + p.len() <= s.len(),
    decreases i + 1,
{
    if i >= 0 && !crate::text::occurs_at(s, p, i) {
        lemma_rfind_bounds(s, p, i - 1);
    }
}

/// Once the reader has stopped, further characters change nothing.
proof fn lemma_page_state_stops(t: Seq<char>, k: int)
    requires
        0 <= k <= t.len(),
        page_state(t.take(k)).3,
    ensures
        page_state(t) == page_state(t.take(k)),
    decreases t.len() - k,
{
    if k < t.len() {
        assert(t.take(k + 1).drop_last() =~= t.take(k));
        lemma_page_state_stops(t, k + 1);
    } else {
        assert(t.take(k) =~= t);
    }
}

// ─── Host and port ───────────────────────────────────────────────────────────

/// `host:port` split at the first `:` (no port without one).
pub open spec fn spec_host_port(s: Seq<char>) -> (Seq<char>, Option<Seq<char>>) {
    match split_once_seq(s, ':') {
        Some((h, p)) => (h, Some(p)),
        None => (s, None),
    }
}

pub fn parse_host_port(s: &str) -> (r: (String, Option<String>))
    ensures
        (r.0@, match r.1 {
            Some(p) => Some(p@),
            None => None,
        }) == spec_host_port(s@),
{
    let v = chars_of(s);
    match crate::text::split_once_vec(&v, ':') {
        Some((h, p)) => (string_from_chars(&h), Some(string_from_chars(&p))),
        None => (String::from_str(s), None),
    }
}

/// `split_host_port` of the SCP command line, the same split as for SSH.
pub fn split_host_port(s: &str) -> (r: (String, Option<String>))
    ensures
        (r.0@, match r.1 {
            Some(p) => Some(p@),
            None => None,
        }) == spec_host_port(s@),
{
    parse_host_port(s)
}

// ─── Command lines ───────────────────────────────────────────────────────────

/// Why a command line cannot be built.
#[derive(Debug, Clone, Copy, PartialEq, Eq, Structural)]
pub enum SshError {
    /// Jump mode without a jump host.
    JumpNotConfigured,
    /// Wallix mode without a bastion host.
    WallixNotConfigured,
    /// SCP is not available through Wallix.
    ScpWallixUnavailable,
    /// SCP in jump mode without a jump host.
    ScpJumpNotConfigured,
}

pub open spec fn ssh_error_message(e: SshError) -> Seq<char> {
    match e {
        SshError::JumpNotConfigured => "Jump host not configured for this server"@,
        SshError::WallixNotConfigured => "Wallix host not configured for this server"@,
        SshError::ScpWallixUnavailable => "SCP non disponible en mode Wallix"@,
        SshError::ScpJumpNotConfigured => "Jump host non configuré pour ce serveur"@,
    }
}

impl SshError {
    /// The text of the error, as shown to the user.
    pub fn message(&self) -> (r: String)
        ensures
            r@ == ssh_error_message(*self),
    {
        match self {
            SshError::JumpNotConfigured => String::from_str("Jump host not configured for this server"),
            SshError::WallixNotConfigured => String::from_str(
                "Wallix host not configured for this server",
            ),
            SshError::ScpWallixUnavailable => String::from_str("SCP non disponible en mode Wallix"),
            SshError::ScpJumpNotConfigured => String::from_str(
                "Jump host non configuré pour ce serveur",
            ),
        }
    }
}

pub open spec fn or_empty_str(o: Option<Seq<char>>) -> Seq<char> {
    match o {
        Some(s) => s,
        None => seq![],
    }
}

/// SSH options: one starting with `-` is passed as it is, any other after `-o`.
pub open spec fn option_args(opts: Seq<Seq<char>>) -> Seq<Seq<char>>
    decreases opts.len(),
{
    if opts.len() == 0 {
        seq![]
    } else {
        let r = option_args(opts.drop_last());
        let o = opts.last();
        if o.len() > 0 && o[0] == '-' {
            r.push(o)
        } else {
            r.push("-o"@).push(o)
        }
    }
}

/// The port to use: the one written in `host:port` when it is a valid port,
/// else the server's port.
pub open spec fn effective_port(host_str: Seq<char>, port: u16) -> u16 {
    match spec_host_port(host_str).1 {
        Some(p) => match spec_parse_unsigned(p, 65535) {
            Some(v) => v as u16,
            None => port,
        },
        None => port,
    }
}

/// `-p port` unless the port is 22, then `user@host`.
pub open spec fn target_args(user: Seq<char>, host_str: Seq<char>, port: u16) -> Seq<Seq<char>> {
    let host = spec_host_port(host_str).0;
    let p = effective_port(host_str, port);
    (if p != 22 {
        seq!["-p"@, decimal_seq(p as nat)]
    } else {
        seq![]
    }).push(user + seq!['@'] + host)
}

/// The options every SSH command line of a server starts with: no system
/// configuration unless asked, `-v` when verbose, its key (tilde-expanded
/// as `key`), then its own options.
pub open spec fn base_args(s: ResolvedView, verbose: bool, key: Seq<char>) -> Seq<Seq<char>> {
    (if !s.use_system_ssh_config {
        seq!["-F"@, "/dev/null"@]
    } else {
        seq![]
    }) + (if verbose {
        seq!["-v"@]
    } else {
        seq![]
    }) + (if s.ssh_key.len() > 0 {
        seq!["-i"@, key]
    } else {
        seq![]
    }) + option_args(s.ssh_options)
}

/// Connection multiplexing options, outside Wallix mode.
pub open spec fn control_args(s: ResolvedView, mode: ConnectionMode) -> Seq<Seq<char>> {
    if s.control_master && mode != ConnectionMode::Wallix && s.control_path.len() > 0 {
        seq![
            "-o"@,
            "ControlMaster=auto"@,
            "-o"@,
            "ControlPath="@ + s.control_path,
            "-o"@,
            "ControlPersist="@ + s.control_persist,
        ]
    } else {
        seq![]
    }
}

/// Why no SSH command line exists for a server in a mode, if so.
pub open spec fn ssh_error(s: ResolvedView, mode: ConnectionMode) -> Option<SshError> {
    match mode {
        ConnectionMode::Jump => if or_empty_str(s.jump_host).len() == 0 {
            Some(SshError::JumpNotConfigured)
        } else {
            None
        },
        ConnectionMode::Wallix => if or_empty_str(s.bastion_host).len() == 0 {
            Some(SshError::WallixNotConfigured)
        } else {
            None
        },
        ConnectionMode::Direct => None,
    }
}

/// The login given to the bastion: the template with `{target_user}`,
/// `{target_host}`, `{bastion_user}` and `%n` replaced.
pub open spec fn wallix_user_string(s: ResolvedView) -> Seq<char> {
    let t_host = spec_host_port(s.host).0;
    let bu = match s.bastion_user {
        Some(u) => u,
        None => "root"@,
    };
    crate::text::replace_seq(
        crate::text::replace_seq(
            crate::text::replace_seq(
                crate::text::replace_seq(s.bastion_template, "{target_user}"@, s.user),
                "{target_host}"@,
                t_host,
            ),
            "{bastion_user}"@,
            bu,
        ),
        "%n"@,
        t_host,
    )
}

/// `-p port` when the bastion address has one, then the bastion host.
pub open spec fn bastion_dest_args(bastion_host: Seq<char>) -> Seq<Seq<char>> {
    let (bh, bp) = spec_host_port(bastion_host);
    (match bp {
        Some(p) => seq!["-p"@, p],
        None => seq![],
    }).push(bh)
}

/// The arguments of `ssh` for a server in a mode, its key expanded as `key`.
pub open spec fn spec_ssh_args(
    s: ResolvedView,
    mode: ConnectionMode,
    verbose: bool,
    key: Seq<char>,
) -> Seq<Seq<char>> {
    let base = base_args(s, verbose, key) + control_args(s, mode);
    match mode {
        ConnectionMode::Direct => base + target_args(s.user, s.host, s.port),
        ConnectionMode::Jump => base + seq!["-J"@, or_empty_str(s.jump_host)] + target_args(
            s.user,
            s.host,
            s.port,
        ),
        ConnectionMode::Wallix => base + seq!["-l"@, wallix_user_string(s)] + bastion_dest_args(
            or_empty_str(s.bastion_host),
        ),
    }
}

/// Where `ssh` connects: `user@host` of the server, or the bastion host.
pub open spec fn destination(s: ResolvedView, mode: ConnectionMode) -> Seq<char> {
    match mode {
        ConnectionMode::Wallix => spec_host_port(or_empty_str(s.bastion_host)).0,
        _ => s.user + seq!['@'] + spec_host_port(s.host).0,
    }
}

/// The destination is always the last argument of `ssh`, whatever the
/// options before it (the probe and tunnels insert their options before it).
pub proof fn lemma_destination_is_last(
    s: ResolvedView,
    mode: ConnectionMode,
    verbose: bool,
    key: Seq<char>,
)
    requires
        ssh_error(s, mode) is None,
    ensures
        spec_ssh_args(s, mode, verbose, key).len() > 0,
        spec_ssh_args(s, mode, verbose, key).last() == destination(s, mode),
{
}

fn push_lit(args: &mut Vec<String>, lit: &str)
    ensures
        views(final(args)@) == views(old(args)@).push(lit@),
{
    let ghost before = views(args@);
    args.push(String::from_str(lit));
    assert(views(args@) =~= before.push(lit@));
}

fn push_string(args: &mut Vec<String>, x: String)
    ensures
        views(final(args)@) == views(old(args)@).push(x@),
{
    let ghost before = views(args@);
    args.push(x);
    assert(views(args@) =~= before.push(x@));
}

fn push_option_args(args: &mut Vec<String>, opts: &Vec<String>)
    ensures
        views(final(args)@) == views(old(args)@) + option_args(views(opts@)),
{
    let ghost start = views(args@);
    let ghost ov = views(opts@);
    let mut i: usize = 0;
    assert(start + option_args(ov.take(0)) =~= start);
    while i < opts.len()
        invariant
            i <= opts@.len(),
            ov == views(opts@),
            views(args@) == start + option_args(ov.take(i as int)),
        decreases opts@.len() - i,
    {
        assert(ov.take(i + 1).drop_last() =~= ov.take(i as int));
        let o = chars_of(opts[i].as_str());
        if o.len() > 0 && o[0] == '-' {
            push_string(args, opts[i].clone());
        } else {
            push_lit(args, "-o");
            push_string(args, opts[i].clone());
        }
        i += 1;
    }
    assert(ov.take(i as int) =~= ov);
}

/// The server's key, tilde-expanded (empty when it has none).
fn expanded_key(server: &ResolvedServer) -> (r: String)
    ensures
        tilde_expansion_of(server.ssh_key@, r@),
{
    if chars_of(server.ssh_key.as_str()).len() > 0 {
        expand_tilde(server.ssh_key.as_str())
    } else {
        assert(server.ssh_key@ =~= Seq::<char>::empty());
        String::new()
    }
}

fn push_base_args(args: &mut Vec<String>, server: &ResolvedServer, verbose: bool, key: &String)
    ensures
        views(final(args)@) == views(old(args)@) + base_args(server@, verbose, key@),
{
    let ghost start = views(args@);
    if !server.use_system_ssh_config {
        push_lit(args, "-F");
        push_lit(args, "/dev/null");
    }
    let ghost a1 = views(args@);
    if verbose {
        push_lit(args, "-v");
    }
    let ghost a2 = views(args@);
    if chars_of(server.ssh_key.as_str()).len() > 0 {
        push_lit(args, "-i");
        push_string(args, key.clone());
    }
    let ghost a3 = views(args@);
    push_option_args(args, &server.ssh_options);
    proof {
        let f = if !server.use_system_ssh_config {
            seq!["-F"@, "/dev/null"@]
        } else {
            seq![]
        };
        let v = if verbose {
            seq!["-v"@]
        } else {
            seq![]
        };
        let k = if server.ssh_key@.len() > 0 {
            seq!["-i"@, key@]
        } else {
            seq![]
        };
        assert(a1 =~= start + f);
        assert(a2 =~= start + f + v);
        assert(a3 =~= start + f + v + k);
        assert(views(args@) =~= start + (f + v + k + option_args(server@.ssh_options)));
    }
}

/// Appends `-p port` (unless 22) and `user@host` for a server's address.
pub fn collect_target_args(args: &mut Vec<String>, user: &str, host_str: &str, server_port: u16)
    ensures
        views(final(args)@) == views(old(args)@) + target_args(user@, host_str@, server_port),
{
    let ghost start = views(args@);
    let (host, embedded) = parse_host_port(host_str);
    let port: u16 = match &embedded {
        Some(p) => match crate::text::parse_u16(&chars_of(p.as_str())) {
            Some(v) => v,
            None => server_port,
        },
        None => server_port,
    };
    assert(port == effective_port(host_str@, server_port));
    if port != 22 {
        push_lit(args, "-p");
        push_string(args, crate::text::u64_to_string(port as u64));
    }
    let ghost a1 = views(args@);
    let mut dest = String::from_str(user);
    crate::text::push_char(&mut dest, '@');
    dest.append(host.as_str());
    assert(dest@ =~= user@ + seq!['@'] + spec_host_port(host_str@).0);
    push_string(args, dest);
    proof {
        let pre = if port != 22 {
            seq!["-p"@, decimal_seq(port as nat)]
        } else {
            seq![]
        };
        assert(a1 =~= start + pre);
        assert(views(args@) =~= start + pre.push(user@ + seq!['@'] + spec_host_port(host_str@).0));
    }
}

fn replace_str(s: &Vec<char>, from: &str, to: &Vec<char>) -> (r: Vec<char>)
    requires
        from@.len() > 0,
    ensures
        r@ == crate::text::replace_seq(s@, from@, to@),
{
    crate::text::replace_vec(s, &chars_of(from), to)
}

fn push_bastion_dest(args: &mut Vec<String>, bastion_host: &str)
    ensures
        views(final(args)@) == views(old(args)@) + bastion_dest_args(bastion_host@),
{
    let ghost start = views(args@);
    let (bh, bp) = parse_host_port(bastion_host);
    match bp {
        Some(p) => {
            push_lit(args, "-p");
            push_string(args, p);
        },
        None => {},
    }
    let ghost a1 = views(args@);
    push_string(args, bh);
    assert(views(args@) =~= start + bastion_dest_args(bastion_host@));
}

fn push_control_args(args: &mut Vec<String>, server: &ResolvedServer, mode: ConnectionMode)
    ensures
        views(final(args)@) == views(old(args)@) + control_args(server@, mode),
{
    let ghost start = views(args@);
    if server.control_master && mode != ConnectionMode::Wallix && chars_of(
        server.control_path.as_str(),
    ).len() > 0 {
        push_lit(args, "-o");
        push_lit(args, "ControlMaster=auto");
        push_lit(args, "-o");
        let mut cp = String::from_str("ControlPath=");
        cp.append(server.control_path.as_str());
        push_string(args, cp);
        push_lit(args, "-o");
        let mut cpe = String::from_str("ControlPersist=");
        cpe.append(server.control_persist.as_str());
        push_string(args, cpe);
        assert(views(args@) =~= start + control_args(server@, mode));
    } else {
        assert(views(args@) =~= start + control_args(server@, mode));
    }
}

fn push_wallix_login(args: &mut Vec<String>, server: &ResolvedServer)
    ensures
        views(final(args)@) == views(old(args)@) + seq!["-l"@, wallix_user_string(server@)],
{
    let ghost start = views(args@);
    let bastion_user: String = match &server.bastion_user {
        Some(u) => u.clone(),
        None => String::from_str("root"),
    };
    let (t_host, _t_port) = parse_host_port(server.host.as_str());
    proof {
        reveal_strlit("{target_user}");
        reveal_strlit("{target_host}");
        reveal_strlit("{bastion_user}");
        reveal_strlit("%n");
    }
    let th = chars_of(t_host.as_str());
    let u1 = replace_str(
        &chars_of(server.bastion_template.as_str()),
        "{target_user}",
        &chars_of(server.user.as_str()),
    );
    let u2 = replace_str(&u1, "{target_host}", &th);
    let u3 = replace_str(&u2, "{bastion_user}", &chars_of(bastion_user.as_str()));
    let u4 = replace_str(&u3, "%n", &th);
    push_lit(args, "-l");
    push_string(args, string_from_chars(&u4));
    assert(views(args@) =~= start + seq!["-l"@, wallix_user_string(server@)]);
}

/// The arguments of `ssh` for a server in a mode. The destination comes
/// last. Fails in jump mode without a jump host and in Wallix mode without
/// a bastion host. (The parent directory of the control socket is created
/// by the caller.)
#[verifier::rlimit(30)]
pub fn build_ssh_args(server: &ResolvedServer, mode: ConnectionMode, verbose: bool) -> (r: Result<
    Vec<String>,
    SshError,
>)
    ensures
        match r {
            Ok(v) => ssh_error(server@, mode) is None && exists|k: Seq<char>|
                tilde_expansion_of(server@.ssh_key, k) && views(v@) == spec_ssh_args(
                    server@,
                    mode,
                    verbose,
                    k,
                ),
            Err(e) => ssh_error(server@, mode) == Some(e),
        },
        r matches Ok(v) ==> v@.len() > 0 && v@.last()@ == destination(server@, mode),
{
    let jump_str: String = match &server.jump_host {
        Some(j) => j.clone(),
        None => String::new(),
    };
    let bastion_str: String = match &server.bastion_host {
        Some(b) => b.clone(),
        None => String::new(),
    };
    match mode {
        ConnectionMode::Jump => {
            if chars_of(jump_str.as_str()).len() == 0 {
                return Err(SshError::JumpNotConfigured);
            }
        },
        ConnectionMode::Wallix => {
            if chars_of(bastion_str.as_str()).len() == 0 {
                return Err(SshError::WallixNotConfigured);
            }
        },
        ConnectionMode::Direct => {},
    }
    let key = expanded_key(server);
    let mut args: Vec<String> = Vec::new();
    assert(views(args@) =~= Seq::<Seq<char>>::empty());
    push_base_args(&mut args, server, verbose, &key);
    push_control_args(&mut args, server, mode);
    let ghost base = views(args@);
    assert(base =~= base_args(server@, verbose, key@) + control_args(server@, mode));
    match mode {
        ConnectionMode::Direct => {
            collect_target_args(&mut args, server.user.as_str(), server.host.as_str(), server.port);
        },
        ConnectionMode::Jump => {
            push_lit(&mut args, "-J");
            push_string(&mut args, jump_str);
            collect_target_args(&mut args, server.user.as_str(), server.host.as_str(), server.port);
            proof {
                assert(views(args@) =~= base + seq!["-J"@, or_empty_str(server@.jump_host)]
                    + target_args(server@.user, server@.host, server@.port));
            }
        },
        ConnectionMode::Wallix => {
            push_wallix_login(&mut args, server);
            push_bastion_dest(&mut args, bastion_str.as_str());
            proof {
                assert(views(args@) =~= base + seq!["-l"@, wallix_user_string(server@)]
                    + bastion_dest_args(or_empty_str(server@.bastion_host)));
            }
        },
    }
    proof {
        assert(views(args@) == spec_ssh_args(server@, mode, verbose, key@));
        lemma_destination_is_last(server@, mode, verbose, key@);
        assert(views(args@).last() == args@.last()@);
    }
    Ok(args)
}

/// The arguments of `ssh` that open the Wallix menu itself: the bastion's
/// own login and address, without the target. Fails without a bastion host.
pub open spec fn spec_bastion_args(s: ResolvedView, verbose: bool, key: Seq<char>) -> Seq<Seq<char>> {
    base_args(s, verbose, key) + seq![
        "-l"@,
        match s.bastion_user {
            Some(u) => u,
            None => "root"@,
        },
    ] + bastion_dest_args(or_empty_str(s.bastion_host))
}

pub fn build_wallix_bastion_args(server: &ResolvedServer, verbose: bool) -> (r: Result<
    Vec<String>,
    SshError,
>)
    ensures
        match r {
            Ok(v) => or_empty_str(server@.bastion_host).len() > 0 && exists|k: Seq<char>|
                tilde_expansion_of(server@.ssh_key, k) && views(v@) == spec_bastion_args(
                    server@,
                    verbose,
                    k,
                ),
            Err(e) => or_empty_str(server@.bastion_host).len() == 0 && e
                == SshError::WallixNotConfigured,
        },
{
    let bastion_str: String = match &server.bastion_host {
        Some(b) => b.clone(),
        None => String::new(),
    };
    if chars_of(bastion_str.as_str()).len() == 0 {
        return Err(SshError::WallixNotConfigured);
    }
    let key = expanded_key(server);
    let mut args: Vec<String> = Vec::new();
    assert(views(args@) =~= Seq::<Seq<char>>::empty());
    push_base_args(&mut args, server, verbose, &key);
    let ghost base = views(args@);
    push_lit(&mut args, "-l");
    let bastion_user: String = match &server.bastion_user {
        Some(u) => u.clone(),
        None => String::from_str("root"),
    };
    push_string(&mut args, bastion_user);
    push_bastion_dest(&mut args, bastion_str.as_str());
    assert(views(args@) =~= spec_bastion_args(server@, verbose, key@));
    Ok(args)
}

/// Why no `scp` command line exists for a server in a mode, if so.
pub open spec fn scp_error(s: ResolvedView, mode: ConnectionMode) -> Option<SshError> {
    if mode == ConnectionMode::Wallix {
        Some(SshError::ScpWallixUnavailable)
    } else if mode == ConnectionMode::Jump && or_empty_str(s.jump_host).len() == 0 {
        Some(SshError::ScpJumpNotConfigured)
    } else {
        None
    }
}

/// The arguments of `scp`: no system configuration unless asked, the key
/// (expanded as `key`), the options, `-P port` unless 22, `-J` in jump mode,
/// then source and destination; the remote side is `user@host:remote` and
/// the local path is expanded as `local_x`.
pub open spec fn spec_scp_args(
    s: ResolvedView,
    mode: ConnectionMode,
    direction: ScpDirection,
    key: Seq<char>,
    local_x: Seq<char>,
    remote: Seq<char>,
) -> Seq<Seq<char>> {
    base_args(s, false, key) + scp_port_args(s) + (if mode == ConnectionMode::Jump {
        seq!["-J"@, or_empty_str(s.jump_host)]
    } else {
        seq![]
    }) + scp_ends(s, direction, local_x, remote)
}

/// `-P port` for `scp` unless the port is 22.
pub open spec fn scp_port_args(s: ResolvedView) -> Seq<Seq<char>> {
    let p = effective_port(s.host, s.port);
    if p != 22 {
        seq!["-P"@, decimal_seq(p as nat)]
    } else {
        seq![]
    }
}

/// Source then destination of `scp`.
pub open spec fn scp_ends(s: ResolvedView, direction: ScpDirection, local_x: Seq<char>, remote: Seq<char>) -> Seq<Seq<char>> {
    let addr = s.user + seq!['@'] + spec_host_port(s.host).0 + seq![':'] + remote;
    match direction {
        ScpDirection::Upload => seq![local_x, addr],
        ScpDirection::Download => seq![addr, local_x],
    }
}

fn push_scp_port(args: &mut Vec<String>, server: &ResolvedServer)
    ensures
        views(final(args)@) == views(old(args)@) + scp_port_args(server@),
{
    let ghost start = views(args@);
    let (_host, embedded) = parse_host_port(server.host.as_str());
    let port: u16 = match &embedded {
        Some(p) => match crate::text::parse_u16(&chars_of(p.as_str())) {
            Some(v) => v,
            None => server.port,
        },
        None => server.port,
    };
    if port != 22 {
        push_lit(args, "-P");
        push_string(args, crate::text::u64_to_string(port as u64));
    }
    assert(views(args@) =~= start + scp_port_args(server@));
}

fn push_scp_ends(
    args: &mut Vec<String>,
    server: &ResolvedServer,
    direction: &ScpDirection,
    local_x: String,
    remote: &str,
)
    ensures
        views(final(args)@) == views(old(args)@) + scp_ends(server@, *direction, local_x@, remote@),
{
    let ghost start = views(args@);
    let (host, _embedded) = parse_host_port(server.host.as_str());
    let mut addr = String::from_str(server.user.as_str());
    crate::text::push_char(&mut addr, '@');
    addr.append(host.as_str());
    crate::text::push_char(&mut addr, ':');
    addr.append(remote);
    assert(addr@ =~= server@.user + seq!['@'] + spec_host_port(server@.host).0 + seq![':']
        + remote@);
    let ghost lx = local_x@;
    match direction {
        ScpDirection::Upload => {
            push_string(args, local_x);
            push_string(args, addr);
        },
        ScpDirection::Download => {
            push_string(args, addr);
            push_string(args, local_x);
        },
    }
    assert(views(args@) =~= start + scp_ends(server@, *direction, lx, remote@));
}

/// The arguments of `scp` to copy `local` to or from `remote` on a server.
/// Not available in Wallix mode; fails in jump mode without a jump host.
#[verifier::rlimit(30)]
pub fn build_scp_args(
    server: &ResolvedServer,
    mode: ConnectionMode,
    direction: &ScpDirection,
    local: &str,
    remote: &str,
) -> (r: Result<Vec<String>, SshError>)
    ensures
        match r {
            Ok(v) => scp_error(server@, mode) is None && exists|k: Seq<char>, l: Seq<char>|
                tilde_expansion_of(server@.ssh_key, k) && tilde_expansion_of(local@, l) && views(
                    v@,
                ) == spec_scp_args(server@, mode, *direction, k, l, remote@),
            Err(e) => scp_error(server@, mode) == Some(e),
        },
{
    if mode == ConnectionMode::Wallix {
        return Err(SshError::ScpWallixUnavailable);
    }
    let jump_str: String = match &server.jump_host {
        Some(j) => j.clone(),
        None => String::new(),
    };
    if mode == ConnectionMode::Jump && chars_of(jump_str.as_str()).len() == 0 {
        return Err(SshError::ScpJumpNotConfigured);
    }
    let key = expanded_key(server);
    let mut args: Vec<String> = Vec::new();
    assert(views(args@) =~= Seq::<Seq<char>>::empty());
    push_base_args(&mut args, server, false, &key);
    let ghost a3 = views(args@);
    push_scp_port(&mut args, server);
    let ghost a4 = views(args@);
    if mode == ConnectionMode::Jump {
        push_lit(&mut args, "-J");
        push_string(&mut args, jump_str);
    }
    let ghost a5 = views(args@);
    let local_x = expand_tilde(local);
    let ghost lx = local_x@;
    push_scp_ends(&mut args, server, direction, local_x, remote);
    proof {
        let j = if mode == ConnectionMode::Jump {
            seq!["-J"@, or_empty_str(server@.jump_host)]
        } else {
            seq![]
        };
        assert(a5 =~= a3 + scp_port_args(server@) + j);
        assert(views(args@) =~= spec_scp_args(server@, mode, *direction, key@, lx, remote@));
    }
    Ok(args)
}

// ─── SFTP transfer decisions ─────────────────────────────────────────────────

/// Host and port of a native SFTP session: the port written in `host:port`
/// when valid, else the server's port.
pub fn resolve_host_port(server: &ResolvedServer) -> (r: (String, u16))
    ensures
        r.0@ == spec_host_port(server@.host).0,
        r.1 == effective_port(server@.host, server@.port),
{
    let (host, embedded) = parse_host_port(server.host.as_str());
    let port: u16 = match &embedded {
        Some(p) => match crate::text::parse_u16(&chars_of(p.as_str())) {
            Some(v) => v,
            None => server.port,
        },
        None => server.port,
    };
    (host, port)
}

/// The percentage done after `transferred` of `total` bytes, at most 100
/// (0 while the size is unknown).
pub open spec fn spec_percent(transferred: nat, total: nat) -> nat {
    if total > 0 {
        let p = (transferred * 100) / total;
        if p > 100 {
            100
        } else {
            p
        }
    } else {
        0
    }
}

/// One chunk of `n` bytes copied: the new byte count, the last percentage
/// reported, and the percentage to report now when it changed.
pub fn progress_step(transferred: u64, last_pct: u8, n: u64, total: u64) -> (r: (u64, u8, Option<u8>))
    requires
        (transferred + n) * 100 <= u64::MAX,
    ensures
        r.0 == transferred + n,
        r.1 == spec_percent((transferred + n) as nat, total as nat),
        r.2 == (if spec_percent((transferred + n) as nat, total as nat) != last_pct {
            Some(spec_percent((transferred + n) as nat, total as nat) as u8)
        } else {
            None::<u8>
        }),
{
    let t = transferred + n;
    let pct: u8 = if total > 0 {
        let p = (t * 100) / total;
        if p > 100 {
            100
        } else {
            p as u8
        }
    } else {
        0
    };
    if pct != last_pct {
        (t, pct, Some(pct))
    } else {
        (t, last_pct, None)
    }
}

/// The final report of a copy: 100% unless it was already reported.
pub fn progress_finish(last_pct: u8) -> (r: Option<u8>)
    ensures
        r == (if last_pct < 100 {
            Some(100u8)
        } else {
            None::<u8>
        }),
{
    if last_pct < 100 {
        Some(100)
    } else {
        None
    }
}


/// Along a transfer the percentage never goes back and never passes 100:
/// more bytes done give at least the same percentage. So a step reports a
/// percentage only above the last one reported.
pub proof fn lemma_progress_never_goes_back(a: nat, b: nat, total: nat)
    requires
        a <= b,
    ensures
        spec_percent(a, total) <= spec_percent(b, total),
        spec_percent(b, total) <= 100,
{
    if total > 0 {
        assert(a * 100 <= b * 100) by (nonlinear_arith)
            requires
                a <= b,
        ;
        vstd::arithmetic::div_mod::lemma_div_is_ordered((a * 100) as int, (b * 100) as int, total as int);
    }
}

/// The forwarding argument of a tunnel: `local_port:remote_host:remote_port`.
pub open spec fn forward_spec(t: TunnelView) -> Seq<char> {
    decimal_seq(t.local_port as nat) + ":"@ + t.remote_host + ":"@ + decimal_seq(t.remote_port as nat)
}

/// The arguments of `ssh` that hold a tunnel open: `-L` with the forwarding,
/// `-N` (no remote command), then the connection's own arguments, whose
/// destination comes last. Fails exactly where the connection itself would.
pub fn build_tunnel_args(server: &ResolvedServer, mode: ConnectionMode, tunnel: &TunnelConfig) -> (r:
    Result<Vec<String>, SshError>)
    ensures
        match r {
            Ok(v) => ssh_error(server@, mode) is None && exists|k: Seq<char>|
                tilde_expansion_of(server@.ssh_key, k) && views(v@) == seq!["-L"@, forward_spec(tunnel@), "-N"@]
                    + spec_ssh_args(server@, mode, false, k),
            Err(e) => ssh_error(server@, mode) == Some(e),
        },
{
    let rest = match build_ssh_args(server, mode, false) {
        Ok(v) => v,
        Err(e) => return Err(e),
    };
    let mut fwd = u64_to_string(tunnel.local_port as u64);
    fwd.append(":");
    fwd.append(tunnel.remote_host.as_str());
    fwd.append(":");
    fwd.append(u64_to_string(tunnel.remote_port as u64).as_str());
    proof {
        reveal_strlit(":");
    }
    let mut args: Vec<String> = Vec::new();
    push_lit(&mut args, "-L");
    push_string(&mut args, fwd);
    push_lit(&mut args, "-N");
    let ghost head = views(args@);
    let mut i: usize = 0;
    while i < rest.len()
        invariant
            i <= rest.len(),
            views(args@) == head + views(rest@.subrange(0, i as int)),
        decreases rest.len() - i,
    {
        push_string(&mut args, rest[i].clone());
        proof {
            assert(views(rest@.subrange(0, i + 1)) =~= views(rest@.subrange(0, i as int)).push(rest@[i as int]@));
        }
        i = i + 1;
    }
    proof {
        assert(rest@.subrange(0, rest.len() as int) =~= rest@);
    }
    Ok(args)
}


// ─── Connection hooks ────────────────────────────────────────────────────────

/// The name of a mode as the hooks receive it.
pub open spec fn mode_name_seq(m: ConnectionMode) -> Seq<char> {
    match m {
        ConnectionMode::Direct => "direct"@,
        ConnectionMode::Jump => "jump"@,
        ConnectionMode::Wallix => "wallix"@,
    }
}

/// The environment a connection hook runs with: the server's name, host,
/// user and port, and the mode.
pub open spec fn hook_env_spec(s: ResolvedView, mode: ConnectionMode) -> Seq<(Seq<char>, Seq<char>)> {
    seq![
        ("SUSSHI_SERVER"@, s.name),
        ("SUSSHI_HOST"@, s.host),
        ("SUSSHI_USER"@, s.user),
        ("SUSSHI_PORT"@, decimal_seq(s.port as nat)),
        ("SUSSHI_MODE"@, mode_name_seq(mode)),
    ]
}

pub open spec fn pairs_view(v: Seq<(String, String)>) -> Seq<(Seq<char>, Seq<char>)> {
    v.map_values(|p: (String, String)| (p.0@, p.1@))
}

/// The variables a hook of `server` receives for a connection in `mode`.
pub fn hook_env(server: &ResolvedServer, mode: ConnectionMode) -> (r: Vec<(String, String)>)
    ensures
        pairs_view(r@) == hook_env_spec(server@, mode),
{
    proof {
        reveal_strlit("SUSSHI_SERVER");
        reveal_strlit("SUSSHI_HOST");
        reveal_strlit("SUSSHI_USER");
        reveal_strlit("SUSSHI_PORT");
        reveal_strlit("SUSSHI_MODE");
    }
    let mut r: Vec<(String, String)> = Vec::new();
    r.push((String::from_str("SUSSHI_SERVER"), server.name.clone()));
    r.push((String::from_str("SUSSHI_HOST"), server.host.clone()));
    r.push((String::from_str("SUSSHI_USER"), server.user.clone()));
    r.push((String::from_str("SUSSHI_PORT"), u64_to_string(server.port as u64)));
    r.push((String::from_str("SUSSHI_MODE"), String::from_str(mode.name())));
    assert(pairs_view(r@) =~= hook_env_spec(server@, mode));
    r
}

} // verus!
