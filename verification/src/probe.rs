//! The quick diagnosis of a server: the remote one-liner's output read into
//! the kernel, CPU, load, memory and root disk figures. Running the command
//! stays outside; sizes stay in bytes here.
use vstd::prelude::*;
use crate::config::ConnectionMode;
use crate::resolve::ResolvedServer;
use crate::ssh::{build_ssh_args, spec_ssh_args, ssh_error, ssh_error_message, SshError};
use crate::tilde::tilde_expansion_of;
use crate::text::{
    decimal_seq, lines_of, lines_seq, spec_parse_unsigned, split_whitespace, split_whitespace_seq,
    trim_str, trim_ws, u64_to_string, views,
};

verus! {

/// What the diagnosis reports.
#[derive(Debug)]
pub struct ProbeResult {
    pub kernel: String,
    pub cpu_model: String,
    /// Load average as printed: `"0.42, 0.38, 0.31"`.
    pub load: String,
    /// Memory in use, percent.
    pub ram_pct: u8,
    /// Total memory, bytes.
    pub ram_bytes: u64,
    /// Root disk in use, percent.
    pub disk_pct: u8,
    /// Size of the root disk, bytes.
    pub disk_bytes: u64,
}

pub struct ProbeView {
    pub kernel: Seq<char>,
    pub cpu_model: Seq<char>,
    pub load: Seq<char>,
    pub ram_pct: u8,
    pub ram_bytes: u64,
    pub disk_pct: u8,
    pub disk_bytes: u64,
}

impl View for ProbeResult {
    type V = ProbeView;

    open spec fn view(&self) -> ProbeView {
        ProbeView {
            kernel: self.kernel@,
            cpu_model: self.cpu_model@,
            load: self.load@,
            ram_pct: self.ram_pct,
            ram_bytes: self.ram_bytes,
            disk_pct: self.disk_pct,
            disk_bytes: self.disk_bytes,
        }
    }
}

/// The message of std's integer parse error for `str::parse::<u8>` on `s`.
pub uninterp spec fn u8_parse_error(s: Seq<char>) -> Seq<char>;

/// The message of std's integer parse error for `str::parse::<u64>` on `s`.
pub uninterp spec fn u64_parse_error(s: Seq<char>) -> Seq<char>;

/// `{:?}` of a string: std's quoted and escaped form.
pub uninterp spec fn debug_text(s: Seq<char>) -> Seq<char>;

/// `str::parse::<u8>`: as documented, an optional `+` then decimal digits,
/// within range; otherwise std's error, by its message.
#[verifier::external_body]
fn parse_u8_std(s: &str) -> (r: Result<u8, String>)
    ensures
        match r {
            Ok(v) => spec_parse_unsigned(s@, 255) == Some(v as nat),
            Err(m) => spec_parse_unsigned(s@, 255) is None && m@ == u8_parse_error(s@),
        },
{
    s.parse::<u8>().map_err(|e| e.to_string())
}

/// `str::parse::<u64>`, as `parse_u8_std`.
#[verifier::external_body]
fn parse_u64_std(s: &str) -> (r: Result<u64, String>)
    ensures
        match r {
            Ok(v) => spec_parse_unsigned(s@, u64::MAX as nat) == Some(v as nat),
            Err(m) => spec_parse_unsigned(s@, u64::MAX as nat) is None && m@ == u64_parse_error(s@),
        },
{
    s.parse::<u64>().map_err(|e| e.to_string())
}

/// `format!("{:?}", s)`: the string quoted, with std's escapes.
#[verifier::external_body]
fn debug_quoted(s: &str) -> (r: String)
    ensures
        r@ == debug_text(s@),
{
    format!("{:?}", s)
}

/// The lines of the output that hold something, trimmed.
pub open spec fn kept_lines(ls: Seq<Seq<char>>) -> Seq<Seq<char>>
    decreases ls.len(),
{
    if ls.len() == 0 {
        seq![]
    } else {
        let r = kept_lines(ls.drop_last());
        let t = trim_ws(ls.last());
        if t.len() > 0 {
            r.push(t)
        } else {
            r
        }
    }
}

/// A `<percent> <bytes>` line, `label` naming it in the errors.
pub open spec fn pct_bytes_spec(line: Seq<char>, label: Seq<char>) -> Result<(u8, u64), Seq<char>> {
    let parts = split_whitespace_seq(line);
    if parts.len() < 2 {
        Err("format "@ + label + " inattendu : "@ + debug_text(line))
    } else {
        match spec_parse_unsigned(parts[0], 255) {
            None => Err(label + " pct: "@ + u8_parse_error(parts[0])),
            Some(p) => match spec_parse_unsigned(parts[1], u64::MAX as nat) {
                None => Err(label + " bytes: "@ + u64_parse_error(parts[1])),
                Some(b) => Ok((p as u8, b as u64)),
            },
        }
    }
}

/// The diagnosis read from the output: five lines that hold something —
/// kernel, CPU model, load, memory (`<pct> <bytes>`), root disk (idem).
pub open spec fn probe_spec(raw: Seq<char>) -> Result<ProbeView, Seq<char>> {
    let ls = kept_lines(lines_seq(raw));
    if ls.len() < 5 {
        Err("sortie inattendue ("@ + decimal_seq(ls.len()) + " lignes au lieu de 5) :\n"@ + raw)
    } else {
        match pct_bytes_spec(ls[3], "RAM"@) {
            Err(m) => Err(m),
            Ok((rp, rb)) => match pct_bytes_spec(ls[4], "Disk"@) {
                Err(m) => Err(m),
                Ok((dp, db)) => Ok(
                    ProbeView {
                        kernel: ls[0],
                        cpu_model: ls[1],
                        load: ls[2],
                        ram_pct: rp,
                        ram_bytes: rb,
                        disk_pct: dp,
                        disk_bytes: db,
                    },
                ),
            },
        }
    }
}

fn parse_pct_bytes(line: &str, label: &str) -> (r: Result<(u8, u64), String>)
    ensures
        match r {
            Ok(v) => pct_bytes_spec(line@, label@) == Ok::<(u8, u64), Seq<char>>(v),
            Err(m) => pct_bytes_spec(line@, label@) == Err::<(u8, u64), Seq<char>>(m@),
        },
{
    proof {
        reveal_strlit("format ");
        reveal_strlit(" inattendu : ");
        reveal_strlit(" pct: ");
        reveal_strlit(" bytes: ");
    }
    let parts = split_whitespace(line);
    if parts.len() < 2 {
        let mut m = String::from_str("format ");
        m.append(label);
        m.append(" inattendu : ");
        m.append(debug_quoted(line).as_str());
        return Err(m);
    }
    assert(parts@[0]@ == split_whitespace_seq(line@)[0]);
    assert(parts@[1]@ == split_whitespace_seq(line@)[1]);
    let pct = match parse_u8_std(parts[0].as_str()) {
        Ok(p) => p,
        Err(e) => {
            let mut m = String::from_str(label);
            m.append(" pct: ");
            m.append(e.as_str());
            return Err(m);
        },
    };
    let bytes = match parse_u64_std(parts[1].as_str()) {
        Ok(b) => b,
        Err(e) => {
            let mut m = String::from_str(label);
            m.append(" bytes: ");
            m.append(e.as_str());
            return Err(m);
        },
    };
    Ok((pct, bytes))
}

fn kept_lines_of(raw: &str) -> (r: Vec<String>)
    ensures
        views(r@) == kept_lines(lines_seq(raw@)),
{
    let lines = lines_of(raw);
    let ghost ls = views(lines@);
    let mut r: Vec<String> = Vec::new();
    let mut i: usize = 0;
    while i < lines.len()
        invariant
            i <= lines@.len(),
            ls == views(lines@),
            ls == lines_seq(raw@),
            views(r@) == kept_lines(ls.take(i as int)),
        decreases lines@.len() - i,
    {
        assert(ls.take(i + 1).drop_last() =~= ls.take(i as int));
        assert(ls.take(i + 1).last() == lines@[i as int]@);
        let t = trim_str(lines[i].as_str());
        if t.unicode_len() > 0 {
            let ghost before = views(r@);
            r.push(t);
            assert(views(r@) =~= before.push(trim_ws(lines@[i as int]@)));
        }
        i += 1;
    }
    assert(ls.take(i as int) =~= ls);
    r
}

impl ProbeResult {
    /// Reads the output of the diagnosis command (see `probe_spec`).
    pub fn parse(raw: &str) -> (r: Result<ProbeResult, String>)
        ensures
            match r {
                Ok(p) => probe_spec(raw@) == Ok::<ProbeView, Seq<char>>(p@),
                Err(m) => probe_spec(raw@) == Err::<ProbeView, Seq<char>>(m@),
            },
    {
        proof {
            reveal_strlit("sortie inattendue (");
            reveal_strlit(" lignes au lieu de 5) :\n");
            reveal_strlit("RAM");
            reveal_strlit("Disk");
        }
        let mut lines = kept_lines_of(raw);
        let ghost ls = views(lines@);
        if lines.len() < 5 {
            let mut m = String::from_str("sortie inattendue (");
            m.append(u64_to_string(lines.len() as u64).as_str());
            m.append(" lignes au lieu de 5) :\n");
            m.append(raw);
            return Err(m);
        }
        let (ram_pct, ram_bytes) = match parse_pct_bytes(lines[3].as_str(), "RAM") {
            Ok(v) => v,
            Err(m) => return Err(m),
        };
        let (disk_pct, disk_bytes) = match parse_pct_bytes(lines[4].as_str(), "Disk") {
            Ok(v) => v,
            Err(m) => return Err(m),
        };
        let load = lines.remove(2);
        let cpu_model = lines.remove(1);
        let kernel = lines.remove(0);
        assert(kernel@ == ls[0] && cpu_model@ == ls[1] && load@ == ls[2]);
        Ok(ProbeResult { kernel, cpu_model, load, ram_pct, ram_bytes, disk_pct, disk_bytes })
    }
}


// ─── The command ─────────────────────────────────────────────────────────────

/// The remote one-liner: kernel, CPU model, load average, memory
/// (`<pct> <bytes>`) and root disk (`<pct> <bytes>`), one per line.
pub const PROBE_CMD: &'static str = "uname -r; awk '/^model name/{sub(/.*: /,\"\"); print; exit}' /proc/cpuinfo; uptime | awk -F'load average:' '{print $2}' | xargs; free -b | awk '/^Mem/{printf \"%.0f %.0f\\n\", $3/$2*100, $2}'; df -B1 / | awk 'NR==2{printf \"%.0f %.0f\\n\", $3/$2*100, $2}'";

/// Why the diagnosis cannot start.
#[derive(Debug, Clone, Copy, PartialEq, Eq, Structural)]
pub enum ProbeArgsError {
    /// The Wallix bastion takes no remote command.
    WallixMode,
    /// The connection itself cannot be built.
    Ssh(SshError),
}

/// The text of a `ProbeArgsError`.
pub open spec fn probe_args_error_message(e: ProbeArgsError) -> Seq<char> {
    match e {
        ProbeArgsError::WallixMode => "Le diagnostic n'est pas disponible en mode Bastion"@,
        ProbeArgsError::Ssh(s) => ssh_error_message(s),
    }
}

impl ProbeArgsError {
    pub fn message(&self) -> (r: String)
        ensures
            r@ == probe_args_error_message(*self),
    {
        match self {
            ProbeArgsError::WallixMode => {
                proof {
                    reveal_strlit("Le diagnostic n'est pas disponible en mode Bastion");
                }
                String::from_str("Le diagnostic n'est pas disponible en mode Bastion")
            },
            ProbeArgsError::Ssh(e) => e.message(),
        }
    }
}

/// The arguments of a connection's `ssh`, with the options of a
/// non-interactive run (`-n`, a ten-second connect timeout, batch mode)
/// before the destination and the command after it.
pub open spec fn spec_probe_args(base: Seq<Seq<char>>) -> Seq<Seq<char>> {
    base.drop_last() + seq!["-n"@, "-o"@, "ConnectTimeout=10"@, "-o"@, "BatchMode=yes"@, base.last(), PROBE_CMD@]
}

/// The `ssh` arguments of the diagnosis of `server` in `mode`; refused in
/// Wallix mode, and wherever the connection cannot be built.
pub fn probe_args(server: &ResolvedServer, mode: ConnectionMode) -> (r: Result<Vec<String>, ProbeArgsError>)
    ensures
        mode == ConnectionMode::Wallix ==> r == Err::<Vec<String>, ProbeArgsError>(ProbeArgsError::WallixMode),
        mode != ConnectionMode::Wallix ==> match r {
            Ok(v) => ssh_error(server@, mode) is None && exists|k: Seq<char>|
                tilde_expansion_of(server@.ssh_key, k) && views(v@) == spec_probe_args(
                    spec_ssh_args(server@, mode, false, k),
                ),
            Err(e) => ssh_error(server@, mode) matches Some(s) && e == ProbeArgsError::Ssh(s),
        },
{
    if mode == ConnectionMode::Wallix {
        return Err(ProbeArgsError::WallixMode);
    }
    let mut args = match build_ssh_args(server, mode, false) {
        Ok(v) => v,
        Err(e) => return Err(ProbeArgsError::Ssh(e)),
    };
    let ghost base = views(args@);
    let destination = args.pop().unwrap();
    assert(views(args@) =~= base.drop_last());
    let extra: [&str; 5] = ["-n", "-o", "ConnectTimeout=10", "-o", "BatchMode=yes"];
    let mut i: usize = 0;
    while i < 5
        invariant
            i <= 5,
            extra@ == seq!["-n", "-o", "ConnectTimeout=10", "-o", "BatchMode=yes"],
            views(args@) == base.drop_last() + extra@.take(i as int).map_values(|x: &str| x@),
        decreases 5 - i,
    {
        let ghost before = views(args@);
        args.push(String::from_str(extra[i]));
        assert(views(args@) =~= before.push(extra@[i as int]@));
        assert(extra@.take(i + 1).map_values(|x: &str| x@) =~= extra@.take(i as int).map_values(|x: &str| x@).push(extra@[i as int]@));
        i += 1;
    }
    let ghost before = views(args@);
    args.push(destination);
    args.push(String::from_str(PROBE_CMD));
    assert(views(args@) =~= before.push(base.last()).push(PROBE_CMD@));
    assert(extra@.take(5).map_values(|x: &str| x@) =~= seq!["-n"@, "-o"@, "ConnectTimeout=10"@, "-o"@, "BatchMode=yes"@]);
    assert(views(args@) =~= spec_probe_args(base));
    Ok(args)
}

} // verus!
