//! States of the interface: modes, the tunnel form and the SCP form.
use vstd::prelude::*;
use crate::config::{TunnelConfig, TunnelView};
use crate::i18n::Strings;
use crate::resolve::ResolvedServer;
use crate::ssh::ScpDirection;
use crate::text::{
    chars_of, parse_u16, spec_is_ascii_digit, spec_parse_unsigned, string_from_chars, trim_vec,
    trim_ws, u64_to_string, decimal_seq, lemma_parse_decimal,
};
use vstd::string::StringExecFns;

verus! {

/// Current mode of the application.
#[derive(Debug, Default)]
pub enum AppMode {
    #[default]
    Normal,
    /// A blocking error panel, until the user confirms.
    Error(String),
    /// The user types a passphrase or password the SSH connection asked for.
    CredentialInput {
        server: Box<ResolvedServer>,
        mode: crate::config::ConnectionMode,
        verbose: bool,
        /// True when a key's passphrase is asked, false for a password.
        is_passphrase: bool,
        input: String,
    },
}

/// State of an ad-hoc SSH command (key `x`).
#[derive(Debug, Clone, Default)]
pub enum CmdState {
    #[default]
    Idle,
    /// The user is typing the command.
    Prompting(String),
    /// The command runs.
    Running(String),
    /// The command ended, with its output and whether it succeeded.
    Done { cmd: String, output: String, exit_ok: bool },
    /// The command could not be started.
    Error(String),
}

/// The field being edited in the tunnel form.
#[derive(Debug, Clone, Copy, PartialEq, Eq, Structural, Hash)]
pub enum TunnelFormField {
    Label,
    LocalPort,
    RemoteHost,
    RemotePort,
}

/// Position of a field in the form, from the top.
pub open spec fn field_index(f: TunnelFormField) -> int {
    match f {
        TunnelFormField::Label => 0,
        TunnelFormField::LocalPort => 1,
        TunnelFormField::RemoteHost => 2,
        TunnelFormField::RemotePort => 3,
    }
}

pub open spec fn field_at(i: int) -> TunnelFormField {
    if i == 0 {
        TunnelFormField::Label
    } else if i == 1 {
        TunnelFormField::LocalPort
    } else if i == 2 {
        TunnelFormField::RemoteHost
    } else {
        TunnelFormField::RemotePort
    }
}

impl TunnelFormField {
    /// The next field, cycling from the last back to the first.
    pub fn next(&self) -> (r: Self)
        ensures
            r == field_at((field_index(*self) + 1) % 4),
    {
        match self {
            Self::Label => Self::LocalPort,
            Self::LocalPort => Self::RemoteHost,
            Self::RemoteHost => Self::RemotePort,
            Self::RemotePort => Self::Label,
        }
    }

    /// The previous field, cycling from the first to the last.
    pub fn prev(&self) -> (r: Self)
        ensures
            r == field_at((field_index(*self) + 3) % 4),
    {
        match self {
            Self::Label => Self::RemotePort,
            Self::LocalPort => Self::Label,
            Self::RemoteHost => Self::LocalPort,
            Self::RemotePort => Self::RemoteHost,
        }
    }
}

/// Moving to the next field and back, or back and then forward, returns to
/// the same field; four moves forward go round the whole form.
pub proof fn lemma_tunnel_field_cycle(f: TunnelFormField)
    ensures
        field_at((field_index(field_at((field_index(f) + 1) % 4)) + 3) % 4) == f,
        field_at((field_index(field_at((field_index(f) + 3) % 4)) + 1) % 4) == f,
        field_at(
            (field_index(
                field_at(
                    (field_index(field_at((field_index(field_at((field_index(f) + 1) % 4)) + 1) % 4))
                        + 1) % 4,
                ),
            ) + 1) % 4,
        ) == f,
{
}

/// The tunnel form, for a new tunnel or to edit one.
#[derive(Debug, Clone)]
pub struct TunnelForm {
    pub label: String,
    /// Local port as typed (checked when submitted).
    pub local_port: String,
    pub remote_host: String,
    /// Remote port as typed.
    pub remote_port: String,
    /// The field being edited.
    pub focus: TunnelFormField,
    /// `Some(idx)` when editing the tunnel at that index, `None` for a new one.
    pub editing_index: Option<usize>,
    /// Validation error (empty when none).
    pub error: String,
}

pub struct TunnelFormView {
    pub label: Seq<char>,
    pub local_port: Seq<char>,
    pub remote_host: Seq<char>,
    pub remote_port: Seq<char>,
    pub focus: TunnelFormField,
    pub editing_index: Option<usize>,
    pub error: Seq<char>,
}

impl View for TunnelForm {
    type V = TunnelFormView;

    open spec fn view(&self) -> TunnelFormView {
        TunnelFormView {
            label: self.label@,
            local_port: self.local_port@,
            remote_host: self.remote_host@,
            remote_port: self.remote_port@,
            focus: self.focus,
            editing_index: self.editing_index,
            error: self.error@,
        }
    }
}

/// A port as typed: surrounding whitespace ignored, a number from 1 to 65535.
pub open spec fn parse_port(s: Seq<char>) -> Option<u16> {
    match spec_parse_unsigned(trim_ws(s), 65535) {
        Some(v) => if v >= 1 {
            Some(v as u16)
        } else {
            None
        },
        None => None,
    }
}

/// The tunnel a form describes, or the message of its first invalid field
/// (local port, then remote host, then remote port).
pub open spec fn spec_validate(f: TunnelFormView, lang: Strings) -> Result<TunnelView, Seq<char>> {
    match parse_port(f.local_port) {
        None => Err(lang.tunnel_form_local_port_invalid@),
        Some(lp) => if trim_ws(f.remote_host).len() == 0 {
            Err(lang.tunnel_form_remote_host_empty@)
        } else {
            match parse_port(f.remote_port) {
                None => Err(lang.tunnel_form_remote_port_invalid@),
                Some(rp) => Ok(
                    TunnelView {
                        local_port: lp,
                        remote_host: trim_ws(f.remote_host),
                        remote_port: rp,
                        label: trim_ws(f.label),
                    },
                ),
            }
        },
    }
}

fn parse_port_exec(s: &String) -> (r: Option<u16>)
    ensures
        r == parse_port(s@),
{
    let t = trim_vec(&chars_of(s.as_str()));
    match parse_u16(&t) {
        Some(v) => if v >= 1 {
            Some(v)
        } else {
            None
        },
        None => None,
    }
}

/// The form filled with tunnel `c`, to edit the tunnel at `idx`: its fields
/// as text, the ports in decimal, the label focused and no error.
pub open spec fn edit_form(idx: usize, c: TunnelView) -> TunnelFormView {
    TunnelFormView {
        label: c.label,
        local_port: decimal_seq(c.local_port as nat),
        remote_host: c.remote_host,
        remote_port: decimal_seq(c.remote_port as nat),
        focus: TunnelFormField::Label,
        editing_index: Some(idx),
        error: Seq::<char>::empty(),
    }
}

/// Filling the form with a tunnel and validating it unchanged gives the
/// tunnel back, in either language, when both its ports are non-zero and its
/// remote host (not empty) and its label carry no surrounding whitespace.
pub proof fn lemma_edit_then_validate(idx: usize, c: TunnelView, lang: Strings)
    requires
        c.local_port >= 1,
        c.remote_port >= 1,
        c.remote_host.len() > 0,
        trim_ws(c.remote_host) == c.remote_host,
        trim_ws(c.label) == c.label,
    ensures
        spec_validate(edit_form(idx, c), lang) == Ok::<TunnelView, Seq<char>>(c),
{
    lemma_parse_decimal(c.local_port as nat, 65535);
    lemma_parse_decimal(c.remote_port as nat, 65535);
}

/// The field being edited changed by `f`, the others kept.
pub open spec fn edit_focused(f: TunnelFormView, edit: spec_fn(Seq<char>) -> Seq<char>) -> TunnelFormView {
    TunnelFormView {
        label: if f.focus == TunnelFormField::Label {
            edit(f.label)
        } else {
            f.label
        },
        local_port: if f.focus == TunnelFormField::LocalPort {
            edit(f.local_port)
        } else {
            f.local_port
        },
        remote_host: if f.focus == TunnelFormField::RemoteHost {
            edit(f.remote_host)
        } else {
            f.remote_host
        },
        remote_port: if f.focus == TunnelFormField::RemotePort {
            edit(f.remote_port)
        } else {
            f.remote_port
        },
        ..f
    }
}

/// The form after typing `c`: a port field ignores anything but a digit;
/// otherwise `c` ends the field being edited and the error is cleared.
pub open spec fn typed(f: TunnelFormView, c: char) -> TunnelFormView {
    if (f.focus == TunnelFormField::LocalPort || f.focus == TunnelFormField::RemotePort)
        && !spec_is_ascii_digit(c) {
        f
    } else {
        TunnelFormView { error: Seq::<char>::empty(), ..edit_focused(f, |s: Seq<char>| s.push(c)) }
    }
}

/// `s` without its last character (unchanged when empty).
pub open spec fn without_last(s: Seq<char>) -> Seq<char> {
    if s.len() > 0 {
        s.drop_last()
    } else {
        s
    }
}

/// The form after a backspace: the field being edited loses its last
/// character and the error is cleared.
pub open spec fn backspaced(f: TunnelFormView) -> TunnelFormView {
    TunnelFormView { error: Seq::<char>::empty(), ..edit_focused(f, |s: Seq<char>| without_last(s)) }
}

/// `s` without its last character (unchanged when empty).
pub fn pop_char(s: &mut String)
    ensures
        final(s)@ == without_last(old(s)@),
{
    let v = chars_of(s.as_str());
    if v.len() > 0 {
        let w = crate::text::subvec(&v, 0, v.len() - 1);
        assert(w@ =~= v@.drop_last());
        *s = string_from_chars(&w);
    }
}

impl TunnelForm {
    /// An empty form, for a new tunnel.
    pub fn new_empty() -> (r: Self)
        ensures
            r@.label == Seq::<char>::empty(),
            r@.local_port == Seq::<char>::empty(),
            r@.remote_host == Seq::<char>::empty(),
            r@.remote_port == Seq::<char>::empty(),
            r@.focus == TunnelFormField::Label,
            r@.editing_index is None,
            r@.error == Seq::<char>::empty(),
    {
        TunnelForm {
            label: String::new(),
            local_port: String::new(),
            remote_host: String::new(),
            remote_port: String::new(),
            focus: TunnelFormField::Label,
            editing_index: None,
            error: String::new(),
        }
    }

    /// A form filled with tunnel `config`, to edit the tunnel at `idx`.
    pub fn new_edit(idx: usize, config: &TunnelConfig) -> (r: Self)
        ensures
            r@ == edit_form(idx, config@),
    {
        TunnelForm {
            label: config.label.clone(),
            local_port: u64_to_string(config.local_port as u64),
            remote_host: config.remote_host.clone(),
            remote_port: u64_to_string(config.remote_port as u64),
            focus: TunnelFormField::Label,
            editing_index: Some(idx),
            error: String::new(),
        }
    }

    /// The text of the field being edited, to change it.
    pub fn current_buf_mut(&mut self) -> (r: &mut String)
        ensures
            old(self).focus == TunnelFormField::Label ==> *r == old(self).label && *final(self)
                == (TunnelForm { label: *final(r), ..*old(self) }),
            old(self).focus == TunnelFormField::LocalPort ==> *r == old(self).local_port
                && *final(self) == (TunnelForm { local_port: *final(r), ..*old(self) }),
            old(self).focus == TunnelFormField::RemoteHost ==> *r == old(self).remote_host
                && *final(self) == (TunnelForm { remote_host: *final(r), ..*old(self) }),
            old(self).focus == TunnelFormField::RemotePort ==> *r == old(self).remote_port
                && *final(self) == (TunnelForm { remote_port: *final(r), ..*old(self) }),
    {
        match self.focus {
            TunnelFormField::Label => &mut self.label,
            TunnelFormField::LocalPort => &mut self.local_port,
            TunnelFormField::RemoteHost => &mut self.remote_host,
            TunnelFormField::RemotePort => &mut self.remote_port,
        }
    }

    /// Checks the fields and gives the tunnel they describe, or the message
    /// of the first invalid one in `lang`.
    pub fn validate(&self, lang: &Strings) -> (r: Result<TunnelConfig, String>)
        ensures
            match r {
                Ok(t) => spec_validate(self@, *lang) == Ok::<TunnelView, Seq<char>>(t@),
                Err(e) => spec_validate(self@, *lang) == Err::<TunnelView, Seq<char>>(e@),
            },
    {
        let local_port = match parse_port_exec(&self.local_port) {
            Some(p) => p,
            None => {
                return Err(String::from_str(lang.tunnel_form_local_port_invalid));
            },
        };
        let host = trim_vec(&chars_of(self.remote_host.as_str()));
        if host.len() == 0 {
            return Err(String::from_str(lang.tunnel_form_remote_host_empty));
        }
        let remote_port = match parse_port_exec(&self.remote_port) {
            Some(p) => p,
            None => {
                return Err(String::from_str(lang.tunnel_form_remote_port_invalid));
            },
        };
        let label = trim_vec(&chars_of(self.label.as_str()));
        Ok(
            TunnelConfig {
                local_port,
                remote_host: string_from_chars(&host),
                remote_port,
                label: string_from_chars(&label),
            },
        )
    }

    /// Types `c` into the field being edited; port fields take digits only.
    /// Any validation error is cleared when the character is taken.
    pub fn type_char(&mut self, c: char)
        ensures
            final(self)@ == typed(old(self)@, c),
    {
        let is_port = match self.focus {
            TunnelFormField::LocalPort | TunnelFormField::RemotePort => true,
            _ => false,
        };
        if is_port && !crate::text::is_ascii_digit(c) {
            return;
        }
        match self.focus {
            TunnelFormField::Label => crate::text::push_char(&mut self.label, c),
            TunnelFormField::LocalPort => crate::text::push_char(&mut self.local_port, c),
            TunnelFormField::RemoteHost => crate::text::push_char(&mut self.remote_host, c),
            TunnelFormField::RemotePort => crate::text::push_char(&mut self.remote_port, c),
        }
        self.error = String::new();
    }

    /// Removes the last character of the field being edited and clears the error.
    pub fn backspace(&mut self)
        ensures
            final(self)@ == backspaced(old(self)@),
    {
        match self.focus {
            TunnelFormField::Label => pop_char(&mut self.label),
            TunnelFormField::LocalPort => pop_char(&mut self.local_port),
            TunnelFormField::RemoteHost => pop_char(&mut self.remote_host),
            TunnelFormField::RemotePort => pop_char(&mut self.remote_port),
        }
        self.error = String::new();
    }
}

/// State of the tunnel overlay (key `T`).
#[derive(Debug, Clone)]
pub enum TunnelOverlayState {
    /// The list of the selected server's tunnels; the last row is the "+" button.
    List { selected: usize },
    /// The form to edit or create a tunnel.
    Form(TunnelForm),
}

/// The field being edited in the SCP form.
#[derive(Debug, Clone, Copy, PartialEq, Eq, Structural)]
pub enum ScpFormField {
    Local,
    Remote,
}

impl ScpFormField {
    /// The other field.
    pub fn next(&self) -> (r: Self)
        ensures
            *self == ScpFormField::Local ==> r == ScpFormField::Remote,
            *self == ScpFormField::Remote ==> r == ScpFormField::Local,
    {
        match self {
            Self::Local => Self::Remote,
            Self::Remote => Self::Local,
        }
    }

    /// The other field (with two fields, the same as `next`).
    pub fn prev(&self) -> (r: Self)
        ensures
            *self == ScpFormField::Local ==> r == ScpFormField::Remote,
            *self == ScpFormField::Remote ==> r == ScpFormField::Local,
    {
        self.next()
    }
}

/// `std::time::Instant`, carried as it is by the SCP state.
#[verifier::external_type_specification]
#[verifier::external_body]
pub struct ExInstant(std::time::Instant);

/// State of the SCP transfer (key `s`).
#[derive(Debug, Default)]
pub enum ScpState {
    /// No transfer.
    #[default]
    Idle,
    /// The user chooses the direction.
    SelectingDirection,
    /// The user types the paths.
    FillingForm {
        direction: ScpDirection,
        /// Local path (may start with `~`).
        local: String,
        /// Remote path, without `user@host:`.
        remote: String,
        focus: ScpFormField,
        /// Validation error.
        error: String,
    },
    /// The transfer runs.
    Running {
        direction: ScpDirection,
        /// Short name shown in the progress bar.
        label: String,
        /// Progress, 0 to 100.
        progress: u8,
        /// When the transfer started (for speed and remaining time).
        started_at: std::time::Instant,
        /// Size of the file in bytes (0 when unknown).
        file_size: u64,
    },
    /// The transfer ended.
    Done { direction: ScpDirection, exit_ok: bool },
    /// The transfer failed.
    Error(String),
}

/// A row of the server tree.
#[derive(Debug)]
pub enum ConfigItem {
    /// Header of an included file.
    Namespace(String),
    /// Header of a group: its name and the label of its file ("" for the main one).
    Group(String, String),
    /// Header of an environment: group, environment, label of the file.
    Environment(String, String, String),
    Server(Box<ResolvedServer>),
}

} // verus!
