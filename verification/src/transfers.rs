//! SCP transfers and ad-hoc commands in the interface, and reloading the
//! configuration: the decisions and state changes, around the processes
//! and threads that run outside.
use vstd::prelude::*;
use crate::config::{opt_view, Config, ConnectionMode, IncludeWarning, ValidationWarning};
use crate::forms::{pop_char, without_last, CmdState, ScpFormField, ScpState};
use crate::i18n::{fmt, fmt_seq};
use crate::resolve::{config_jobs, resolved_all, resolved_views, ResolvedServer, ResolvedView};
use crate::ssh::{ScpDirection, ScpEvent};
use crate::text::{
    chars_of, decimal_seq, push_char, push_str, split_once_seq, split_once_vec, string_from_chars,
    spec_parse_unsigned, trim_start_char, trim_str, trim_ws, u64_to_string, views,
};
use crate::tilde::{expand_tilde, tilde_expansion_of};
use crate::tui::{keep_open_of, same_cache, same_data, same_screen, same_selection, same_tree, App};
use crate::tunnels::read_list;

verus! {

// ─── SCP ─────────────────────────────────────────────────────────────────────

/// A transfer to start, as the SCP form describes it.
pub struct ScpRequest {
    pub server: ResolvedServer,
    pub mode: ConnectionMode,
    pub direction: ScpDirection,
    /// The local path, trimmed.
    pub local: String,
    /// The remote path, without any `user@host:` before it.
    pub remote_path: String,
    /// What the progress bar shows: the local path for an upload, the
    /// remote path for a download.
    pub label: String,
}

/// The remote path of what was typed: the part after the first `:`, if any.
pub open spec fn remote_path_of(remote: Seq<char>) -> Seq<char> {
    match split_once_seq(remote, ':') {
        Some((_, p)) => p,
        None => remote,
    }
}

/// Nothing but the SCP state (and the status bar) has changed.
pub open spec fn only_scp_changed(a: App, b: App) -> bool {
    &&& same_tree(a, b)
    &&& same_cache(a, b)
    &&& same_data(a, b)
    &&& same_selection(a, b)
    &&& a.tunnel_overrides == b.tunnel_overrides
    &&& a.tunnel_overlay == b.tunnel_overlay
    &&& a.cmd_state == b.cmd_state
    &&& a.app_mode == b.app_mode
    &&& a.is_searching == b.is_searching
    &&& a.verbose_mode == b.verbose_mode
    &&& a.theme == b.theme
}

impl App {
    /// Opens the choice of direction for the selected server (not in Wallix
    /// mode: the status bar says so).
    pub fn open_scp_select_direction(&mut self)
        ensures
            old(self).connection_mode == ConnectionMode::Wallix ==> {
                &&& final(self).status_message matches Some(m) && m@
                    == old(self).lang.scp_wallix_unavailable@
                &&& final(self).scp_state == old(self).scp_state
                &&& only_scp_changed(*final(self), *old(self))
            },
            old(self).connection_mode != ConnectionMode::Wallix ==> {
                &&& read_list(*final(self), *old(self))
                &&& final(self).scp_state == (if final(self).selected_view() is Some {
                    ScpState::SelectingDirection
                } else {
                    old(self).scp_state
                })
                &&& final(self).status_message == old(self).status_message
                &&& final(self).tunnel_overlay == old(self).tunnel_overlay
                &&& final(self).cmd_state == old(self).cmd_state
            },
    {
        if self.connection_mode == ConnectionMode::Wallix {
            self.status_message = Some(String::from_str(self.lang.scp_wallix_unavailable));
            return ;
        }
        if self.selected_server().is_some() {
            self.scp_state = ScpState::SelectingDirection;
        }
    }

    /// Chooses the direction and opens the form, the remote field filled
    /// with `user@host:~` of the selected server.
    pub fn scp_select_direction(&mut self, direction: ScpDirection)
        ensures
            read_list(*final(self), *old(self)),
            same_screen(*final(self), *old(self)),
            final(self).tunnel_overlay == old(self).tunnel_overlay,
            final(self).cmd_state == old(self).cmd_state,
            match final(self).selected_view() {
                Some(s) => final(self).scp_state matches ScpState::FillingForm {
                    direction: d,
                    local,
                    remote,
                    focus,
                    error,
                } && d == direction && local@.len() == 0 && remote@ == s.user + "@"@ + s.host
                    + ":~"@ && focus == ScpFormField::Local && error@.len() == 0,
                None => final(self).scp_state == old(self).scp_state,
            },
    {
        let server = match self.selected_server() {
            Some(s) => s,
            None => {
                return ;
            },
        };
        let mut remote = String::from_str(server.user.as_str());
        push_str(&mut remote, "@");
        push_str(&mut remote, server.host.as_str());
        push_str(&mut remote, ":~");
        assert(remote@ =~= server@.user + "@"@ + server@.host + ":~"@);
        self.scp_state = ScpState::FillingForm {
            direction,
            local: String::new(),
            remote,
            focus: ScpFormField::Local,
            error: String::new(),
        };
    }

    /// Closes the SCP overlay, unless a transfer runs.
    pub fn close_scp_overlay(&mut self)
        ensures
            final(self).scp_state == (if old(self).scp_state is Running {
                old(self).scp_state
            } else {
                ScpState::Idle
            }),
            final(self).status_message == old(self).status_message,
            only_scp_changed(*final(self), *old(self)),
    {
        if let ScpState::Running { .. } = self.scp_state {
            return ;
        }
        self.scp_state = ScpState::Idle;
    }

    /// Acknowledges the end of a transfer (done or failed).
    pub fn dismiss_scp_result(&mut self)
        ensures
            final(self).scp_state == (if old(self).scp_state is Done || old(self).scp_state is Error {
                ScpState::Idle
            } else {
                old(self).scp_state
            }),
            final(self).status_message == old(self).status_message,
            only_scp_changed(*final(self), *old(self)),
    {
        let done = match &self.scp_state {
            ScpState::Done { .. } | ScpState::Error(_) => true,
            _ => false,
        };
        if done {
            self.scp_state = ScpState::Idle;
        }
    }

    /// Types `c` into the field of the SCP form being edited.
    pub fn scp_form_char(&mut self, c: char)
        ensures
            match old(self).scp_state {
                ScpState::FillingForm { direction, local, remote, focus, error } => final(self).scp_state matches ScpState::FillingForm {
                    direction: d2,
                    local: l2,
                    remote: r2,
                    focus: f2,
                    error: e2,
                } && d2 == direction && f2 == focus && e2 == error && l2@ == (if focus
                    == ScpFormField::Local {
                    local@.push(c)
                } else {
                    local@
                }) && r2@ == (if focus == ScpFormField::Remote {
                    remote@.push(c)
                } else {
                    remote@
                }),
                _ => final(self).scp_state == old(self).scp_state,
            },
            final(self).status_message == old(self).status_message,
            only_scp_changed(*final(self), *old(self)),
    {
        match &mut self.scp_state {
            ScpState::FillingForm { local, remote, focus, .. } => {
                match *focus {
                    ScpFormField::Local => push_char(local, c),
                    ScpFormField::Remote => push_char(remote, c),
                }
            },
            _ => {},
        }
    }

    /// Removes the last character of the field of the SCP form being edited.
    pub fn scp_form_backspace(&mut self)
        ensures
            match old(self).scp_state {
                ScpState::FillingForm { direction, local, remote, focus, error } => final(self).scp_state matches ScpState::FillingForm {
                    direction: d2,
                    local: l2,
                    remote: r2,
                    focus: f2,
                    error: e2,
                } && d2 == direction && f2 == focus && e2 == error && l2@ == (if focus
                    == ScpFormField::Local {
                    without_last(local@)
                } else {
                    local@
                }) && r2@ == (if focus == ScpFormField::Remote {
                    without_last(remote@)
                } else {
                    remote@
                }),
                _ => final(self).scp_state == old(self).scp_state,
            },
            final(self).status_message == old(self).status_message,
            only_scp_changed(*final(self), *old(self)),
    {
        match &mut self.scp_state {
            ScpState::FillingForm { local, remote, focus, .. } => {
                match *focus {
                    ScpFormField::Local => pop_char(local),
                    ScpFormField::Remote => pop_char(remote),
                }
            },
            _ => {},
        }
    }

    /// Moves the SCP form to its other field.
    pub fn scp_form_next_field(&mut self)
        ensures
            match old(self).scp_state {
                ScpState::FillingForm { direction, local, remote, focus, error } => final(self).scp_state == (ScpState::FillingForm {
                    direction,
                    local,
                    remote,
                    focus: if focus == ScpFormField::Local {
                        ScpFormField::Remote
                    } else {
                        ScpFormField::Local
                    },
                    error,
                }),
                _ => final(self).scp_state == old(self).scp_state,
            },
            final(self).status_message == old(self).status_message,
            only_scp_changed(*final(self), *old(self)),
    {
        match &mut self.scp_state {
            ScpState::FillingForm { focus, .. } => {
                *focus = focus.next();
            },
            _ => {},
        }
    }

    /// Submits the SCP form: both paths are required (trimmed); the form
    /// shows the message of the first one missing. Otherwise gives the
    /// transfer to start for the selected server, with the connection mode.
    pub fn scp_form_submit(&mut self) -> (r: Option<ScpRequest>)
        ensures
            match old(self).scp_state {
                ScpState::FillingForm { direction, local, remote, focus, error } => {
                    let l = trim_ws(local@);
                    let rm = trim_ws(remote@);
                    if l.len() == 0 || rm.len() == 0 {
                        &&& r is None
                        &&& final(self).scp_state matches ScpState::FillingForm {
                            direction: d2,
                            local: l2,
                            remote: r2,
                            focus: f2,
                            error: e2,
                        } && d2 == direction && l2 == local && r2 == remote && f2 == focus && e2@
                            == (if l.len() == 0 {
                            old(self).lang.scp_form_local_required@
                        } else {
                            old(self).lang.scp_form_remote_required@
                        })
                        &&& only_scp_changed(*final(self), *old(self))
                        &&& final(self).status_message == old(self).status_message
                    } else {
                        &&& read_list(*final(self), *old(self))
                        &&& same_screen(*final(self), *old(self))
                        &&& final(self).scp_state == old(self).scp_state
                        &&& final(self).tunnel_overlay == old(self).tunnel_overlay
                        &&& final(self).cmd_state == old(self).cmd_state
                        &&& match final(self).selected_view() {
                            Some(s) => r matches Some(q) && q.server@ == s && q.mode == old(self).connection_mode && q.direction == direction && q.local@ == l
                                && q.remote_path@ == remote_path_of(rm) && q.label@ == (
                            if direction == ScpDirection::Upload {
                                l
                            } else {
                                remote_path_of(rm)
                            }),
                            None => r is None,
                        }
                    }
                },
                _ => r is None && final(self).scp_state == old(self).scp_state && only_scp_changed(
                    *final(self),
                    *old(self),
                ) && final(self).status_message == old(self).status_message,
            },
    {
        let (direction, local, remote) = match &self.scp_state {
            ScpState::FillingForm { direction, local, remote, .. } => (
                *direction,
                trim_str(local.as_str()),
                trim_str(remote.as_str()),
            ),
            _ => {
                return None;
            },
        };
        if local.as_str().is_empty() {
            let msg = String::from_str(self.lang.scp_form_local_required);
            match &mut self.scp_state {
                ScpState::FillingForm { error, .. } => {
                    *error = msg;
                },
                _ => {},
            }
            return None;
        }
        if remote.as_str().is_empty() {
            let msg = String::from_str(self.lang.scp_form_remote_required);
            match &mut self.scp_state {
                ScpState::FillingForm { error, .. } => {
                    *error = msg;
                },
                _ => {},
            }
            return None;
        }
        let server = match self.selected_server() {
            Some(s) => s,
            None => {
                return None;
            },
        };
        let remote_path = match split_once_vec(&chars_of(remote.as_str()), ':') {
            Some((_, p)) => string_from_chars(&p),
            None => remote,
        };
        let label = match direction {
            ScpDirection::Upload => local.clone(),
            ScpDirection::Download => remote_path.clone(),
        };
        Some(
            ScpRequest {
                server,
                mode: self.connection_mode,
                direction,
                local,
                remote_path,
                label,
            },
        )
    }

    /// The transfer of `request` started at `started_at`; `file_size` is the
    /// size known so far (0 when unknown).
    pub fn scp_transfer_started(&mut self, request: &ScpRequest, started_at: std::time::Instant, file_size: u64)
        ensures
            final(self).scp_state matches ScpState::Running {
                direction,
                label,
                progress,
                started_at: t,
                file_size: sz,
            } && direction == request.direction && label@ == request.label@ && progress == 0 && t
                == started_at && sz == file_size,
            final(self).status_message == old(self).status_message,
            only_scp_changed(*final(self), *old(self)),
    {
        self.scp_state = ScpState::Running {
            direction: request.direction,
            label: request.label.clone(),
            progress: 0,
            started_at,
            file_size,
        };
    }

    /// The transfer could not start: the error is shown.
    pub fn scp_transfer_failed(&mut self, message: String)
        ensures
            final(self).scp_state == ScpState::Error(message),
            final(self).status_message == old(self).status_message,
            only_scp_changed(*final(self), *old(self)),
    {
        self.scp_state = ScpState::Error(message);
    }

    /// Takes one event of the running transfer; true when the transfer is over
    /// (done or failed), its state and the status bar then saying how.
    pub fn apply_scp_event(&mut self, event: ScpEvent) -> (over: bool)
        ensures
            only_scp_changed(*final(self), *old(self)),
            match event {
                ScpEvent::Progress(p) => {
                    &&& !over
                    &&& final(self).status_message == old(self).status_message
                    &&& final(self).scp_state == match old(self).scp_state {
                        ScpState::Running { direction, label, progress, started_at, file_size } =>
                        ScpState::Running { direction, label, progress: p, started_at, file_size },
                        other => other,
                    }
                },
                ScpEvent::FileSize(sz) => {
                    &&& !over
                    &&& final(self).status_message == old(self).status_message
                    &&& final(self).scp_state == match old(self).scp_state {
                        ScpState::Running { direction, label, progress, started_at, file_size } =>
                        ScpState::Running { direction, label, progress, started_at, file_size: sz },
                        other => other,
                    }
                },
                ScpEvent::Done(ok) => {
                    &&& over
                    &&& final(self).status_message matches Some(m) && m@ == (if ok {
                        old(self).lang.scp_done_ok@
                    } else {
                        old(self).lang.scp_done_err@
                    })
                    &&& final(self).scp_state == ScpState::Done {
                        direction: match old(self).scp_state {
                            ScpState::Running { direction, .. } => direction,
                            _ => ScpDirection::Upload,
                        },
                        exit_ok: ok,
                    }
                },
                ScpEvent::Error(e) => {
                    &&& over
                    &&& final(self).status_message matches Some(m) && m@ == fmt_seq(
                        old(self).lang.scp_failed@,
                        seq![e@],
                    )
                    &&& final(self).scp_state == ScpState::Error(e)
                },
            },
    {
        match event {
            ScpEvent::Progress(pct) => {
                match &mut self.scp_state {
                    ScpState::Running { progress, .. } => {
                        *progress = pct;
                    },
                    _ => {},
                }
                false
            },
            ScpEvent::FileSize(sz) => {
                match &mut self.scp_state {
                    ScpState::Running { file_size, .. } => {
                        *file_size = sz;
                    },
                    _ => {},
                }
                false
            },
            ScpEvent::Done(ok) => {
                let msg = if ok {
                    self.lang.scp_done_ok
                } else {
                    self.lang.scp_done_err
                };
                self.status_message = Some(String::from_str(msg));
                let direction = match &self.scp_state {
                    ScpState::Running { direction, .. } => *direction,
                    _ => ScpDirection::Upload,
                };
                self.scp_state = ScpState::Done { direction, exit_ok: ok };
                true
            },
            ScpEvent::Error(e) => {
                let args = vec![e.as_str()];
                assert(crate::i18n::str_views(args@) =~= seq![e@]);
                let msg = fmt(self.lang.scp_failed, args.as_slice());
                self.status_message = Some(msg);
                self.scp_state = ScpState::Error(e);
                true
            },
        }
    }
}

// ─── Ad-hoc commands ─────────────────────────────────────────────────────────

/// The arguments of `ssh` that run `cmd` on server `s` without a terminal:
/// batch mode, a connection timeout of 10 s, the port, the key (its path
/// expanded: `key`) when one is set, `user@host`, then the command.
pub open spec fn spec_cmd_args(s: ResolvedView, key: Option<Seq<char>>, cmd: Seq<char>) -> Seq<Seq<char>> {
    seq!["-o"@, "BatchMode=yes"@, "-o"@, "ConnectTimeout=10"@, "-p"@, decimal_seq(s.port as nat)]
        + match key {
        Some(k) => seq!["-i"@, k],
        None => seq![],
    } + seq![s.user + "@"@ + s.host, cmd]
}

/// The output shown for a command: standard output, then the errors after a
/// `---` line when both are there.
pub open spec fn spec_combined_output(stdout: Seq<char>, stderr: Seq<char>) -> Seq<char> {
    if stderr.len() == 0 {
        stdout
    } else if stdout.len() == 0 {
        stderr
    } else {
        stdout + "\n---\n"@ + stderr
    }
}

pub fn combine_output(stdout: String, stderr: String) -> (r: String)
    ensures
        r@ == spec_combined_output(stdout@, stderr@),
{
    if stderr.as_str().is_empty() {
        stdout
    } else if stdout.as_str().is_empty() {
        stderr
    } else {
        let mut r = stdout;
        push_str(&mut r, "\n---\n");
        push_str(&mut r, stderr.as_str());
        r
    }
}

fn push_arg(args: &mut Vec<String>, a: &str)
    ensures
        views(final(args)@) == views(old(args)@).push(a@),
{
    let ghost before = views(args@);
    args.push(String::from_str(a));
    assert(views(args@) =~= before.push(a@));
}

impl App {
    /// Starts the ad-hoc command `cmd` on `server`: the state says it runs,
    /// and the arguments of `ssh` to run it are given (see `spec_cmd_args`).
    pub fn start_cmd(&mut self, server: &ResolvedServer, cmd: String) -> (r: Vec<String>)
        ensures
            final(self).cmd_state matches CmdState::Running(c) && c@ == cmd@,
            server@.ssh_key.len() == 0 ==> views(r@) == spec_cmd_args(server@, None, cmd@),
            server@.ssh_key.len() > 0 ==> exists|k: Seq<char>|
                tilde_expansion_of(server@.ssh_key, k) && views(r@) == spec_cmd_args(
                    server@,
                    Some(k),
                    cmd@,
                ),
            same_tree(*final(self), *old(self)),
            same_cache(*final(self), *old(self)),
            same_screen(*final(self), *old(self)),
            same_data(*final(self), *old(self)),
            same_selection(*final(self), *old(self)),
            final(self).tunnel_overrides == old(self).tunnel_overrides,
            final(self).tunnel_overlay == old(self).tunnel_overlay,
            final(self).scp_state == old(self).scp_state,
    {
        let mut args: Vec<String> = Vec::new();
        push_arg(&mut args, "-o");
        push_arg(&mut args, "BatchMode=yes");
        push_arg(&mut args, "-o");
        push_arg(&mut args, "ConnectTimeout=10");
        push_arg(&mut args, "-p");
        let port = u64_to_string(server.port as u64);
        push_arg(&mut args, port.as_str());
        let ghost head = views(args@);
        let ghost mut key_part: Option<Seq<char>> = None;
        if !server.ssh_key.as_str().is_empty() {
            let expanded = expand_tilde(server.ssh_key.as_str());
            push_arg(&mut args, "-i");
            push_arg(&mut args, expanded.as_str());
            proof {
                key_part = Some(expanded@);
            }
        }
        let mut dest = String::from_str(server.user.as_str());
        push_str(&mut dest, "@");
        push_str(&mut dest, server.host.as_str());
        push_arg(&mut args, dest.as_str());
        push_arg(&mut args, cmd.as_str());
        assert(views(args@) =~= spec_cmd_args(server@, key_part, cmd@));
        self.cmd_state = CmdState::Running(cmd);
        args
    }

    /// The command ended with `output`; `exit_ok` tells whether it succeeded.
    pub fn finish_cmd(&mut self, output: String, exit_ok: bool)
        ensures
            final(self).cmd_state matches CmdState::Done { cmd, output: o, exit_ok: ok } && cmd@
                == (match old(self).cmd_state {
                CmdState::Running(c) => c@,
                _ => Seq::<char>::empty(),
            }) && o == output && ok == exit_ok,
            same_tree(*final(self), *old(self)),
            same_cache(*final(self), *old(self)),
            same_screen(*final(self), *old(self)),
            same_data(*final(self), *old(self)),
            same_selection(*final(self), *old(self)),
            final(self).tunnel_overrides == old(self).tunnel_overrides,
            final(self).tunnel_overlay == old(self).tunnel_overlay,
            final(self).scp_state == old(self).scp_state,
    {
        let cmd = match &self.cmd_state {
            CmdState::Running(c) => c.clone(),
            _ => String::new(),
        };
        self.cmd_state = CmdState::Done { cmd, output, exit_ok };
    }

    /// Forgets the ad-hoc command.
    pub fn reset_cmd(&mut self)
        ensures
            final(self).cmd_state == CmdState::Idle,
            same_tree(*final(self), *old(self)),
            same_cache(*final(self), *old(self)),
            same_screen(*final(self), *old(self)),
            same_data(*final(self), *old(self)),
            same_selection(*final(self), *old(self)),
            final(self).tunnel_overrides == old(self).tunnel_overrides,
            final(self).tunnel_overlay == old(self).tunnel_overlay,
            final(self).scp_state == old(self).scp_state,
    {
        self.cmd_state = CmdState::Idle;
    }

    // ─── Reloading ───────────────────────────────────────────────────────────

    /// Takes a configuration read again from disk: resolved anew, with its
    /// problems; the expanded items and the selected row are kept and the
    /// status bar says it was reloaded. Never fails.
    pub fn apply_reload(
        &mut self,
        new_config: Config,
        new_warnings: Vec<IncludeWarning>,
        new_validation_warnings: Vec<ValidationWarning>,
    ) -> (r: Result<(), crate::config::ConfigError>)
        ensures
            r is Ok,
            final(self).config == new_config,
            resolved_all(config_jobs(new_config), resolved_views(final(self).resolved_servers@)),
            final(self).keep_open == keep_open_of(new_config),
            final(self).warnings == new_warnings,
            final(self).validation_warnings == new_validation_warnings,
            final(self).lang == old(self).lang,
            final(self).expanded_items == old(self).expanded_items,
            final(self).search_query == old(self).search_query,
            final(self).favorites_only == old(self).favorites_only,
            final(self).sort_by_recent == old(self).sort_by_recent,
            final(self).last_seen == old(self).last_seen,
            final(self).favorites == old(self).favorites,
            final(self).items_dirty,
            final(self).cached_items == old(self).cached_items,
            same_selection(*final(self), *old(self)),
            final(self).status_message matches Some(m) && m@ == old(self).lang.config_reloaded@,
            final(self).app_mode == old(self).app_mode,
            final(self).is_searching == old(self).is_searching,
            final(self).verbose_mode == old(self).verbose_mode,
            final(self).theme == old(self).theme,
            final(self).tunnel_overrides == old(self).tunnel_overrides,
            final(self).tunnel_overlay == old(self).tunnel_overlay,
            final(self).scp_state == old(self).scp_state,
            final(self).cmd_state == old(self).cmd_state,
    {
        let resolved = match new_config.resolve() {
            Ok(v) => v,
            Err(e) => {
                return Err(e);
            },
        };
        let keep_open = match &new_config.defaults {
            Some(d) => match d.keep_open {
                Some(k) => k,
                None => false,
            },
            None => false,
        };
        self.config = new_config;
        self.keep_open = keep_open;
        self.resolved_servers = resolved;
        self.warnings = new_warnings;
        self.validation_warnings = new_validation_warnings;
        self.items_dirty = true;
        self.status_message = Some(String::from_str(self.lang.config_reloaded));
        Ok(())
    }

    /// The file has not changed since it was loaded: only the status bar
    /// says it was reloaded.
    pub fn reload_unchanged(&mut self)
        ensures
            final(self).status_message matches Some(m) && m@ == old(self).lang.config_reloaded@,
            final(self).app_mode == old(self).app_mode,
            final(self).is_searching == old(self).is_searching,
            final(self).verbose_mode == old(self).verbose_mode,
            final(self).theme == old(self).theme,
            same_tree(*final(self), *old(self)),
            same_cache(*final(self), *old(self)),
            same_data(*final(self), *old(self)),
            same_selection(*final(self), *old(self)),
            final(self).tunnel_overrides == old(self).tunnel_overrides,
            final(self).tunnel_overlay == old(self).tunnel_overlay,
            final(self).scp_state == old(self).scp_state,
            final(self).cmd_state == old(self).cmd_state,
    {
        self.status_message = Some(String::from_str(self.lang.config_reloaded));
    }
}


// ─── SFTP sessions ───────────────────────────────────────────────────────────

/// The first hop of a jump chain `u1@h1:p1,u2@h2`: its user (`default_user`
/// without one), host, and port (22 without one or when it is no number).
pub open spec fn first_hop_spec(jump: Seq<char>, default_user: Seq<char>) -> (Seq<char>, Seq<char>, u16) {
    let first = match split_once_seq(jump, ',') {
        Some((a, _)) => a,
        None => jump,
    };
    let (user, host_port) = match split_once_seq(first, '@') {
        Some((u, hp)) => (u, hp),
        None => (default_user, first),
    };
    match split_once_seq(host_port, ':') {
        Some((h, p)) => (user, h, match spec_parse_unsigned(p, 65535) {
            Some(n) => n as u16,
            None => 22u16,
        }),
        None => (user, host_port, 22u16),
    }
}

/// The user, host and port of the first hop of `jump`.
pub fn first_jump_hop(jump: &str, default_user: &str) -> (r: (String, String, u16))
    ensures
        (r.0@, r.1@, r.2) == first_hop_spec(jump@, default_user@),
{
    let j = chars_of(jump);
    let first: Vec<char> = match split_once_vec(&j, ',') {
        Some((a, _)) => a,
        None => j,
    };
    let (user, host_port): (Vec<char>, Vec<char>) = match split_once_vec(&first, '@') {
        Some((u, hp)) => (u, hp),
        None => (chars_of(default_user), first),
    };
    match split_once_vec(&host_port, ':') {
        Some((h, p)) => {
            let port: u16 = match crate::text::parse_u16(&p) {
                Some(n) => n,
                None => 22,
            };
            (string_from_chars(&user), string_from_chars(&h), port)
        },
        None => (string_from_chars(&user), string_from_chars(&host_port), 22),
    }
}

/// `s` without the leading repetitions of `p`.
pub open spec fn trim_start_pat(s: Seq<char>, p: Seq<char>) -> Seq<char>
    decreases s.len(),
{
    if p.len() > 0 && s.len() >= p.len() && s.take(p.len() as int) == p {
        trim_start_pat(s.skip(p.len() as int), p)
    } else {
        s
    }
}

/// Where a remote path that starts with `~` lies under the home directory:
/// nothing for `~` itself, else the path without its leading `~/`, `~` and
/// `/` runs. A path without `~` is not under the home directory.
pub open spec fn home_tail_spec(remote: Seq<char>) -> Option<Seq<char>> {
    if remote.len() > 0 && remote[0] == '~' {
        if remote == seq!['~'] {
            Some(seq![])
        } else {
            Some(trim_start_char(trim_start_char(trim_start_pat(remote, seq!['~', '/']), '~'), '/'))
        }
    } else {
        None
    }
}

fn trim_start_char_vec(s: Vec<char>, c: char) -> (r: Vec<char>)
    ensures
        r@ == trim_start_char(s@, c),
{
    let mut i: usize = 0;
    assert(s@.skip(0) =~= s@);
    while i < s.len() && s[i] == c
        invariant
            i <= s@.len(),
            trim_start_char(s@, c) == trim_start_char(s@.skip(i as int), c),
        decreases s@.len() - i,
    {
        assert(s@.skip(i as int).drop_first() =~= s@.skip(i + 1));
        i += 1;
    }
    let r = crate::text::subvec(&s, i, s.len());
    assert(r@ =~= s@.skip(i as int));
    r
}

/// The part of `remote` under the remote home directory (see `home_tail_spec`).
pub fn remote_home_tail(remote: &str) -> (r: Option<String>)
    ensures
        opt_view(r) == home_tail_spec(remote@),
{
    let s = chars_of(remote);
    if s.len() == 0 || s[0] != '~' {
        return None;
    }
    if s.len() == 1 {
        assert(s@ =~= seq!['~']);
        return Some(String::new());
    }
    assert(s@ != seq!['~']);
    let mut i: usize = 0;
    assert(s@.skip(0) =~= s@);
    while s.len() - i >= 2 && s[i] == '~' && s[i + 1] == '/'
        invariant
            i <= s@.len(),
            trim_start_pat(s@, seq!['~', '/']) == trim_start_pat(s@.skip(i as int), seq!['~', '/']),
        decreases s@.len() - i,
    {
        assert(s@.skip(i as int).take(2) =~= seq!['~', '/']);
        assert(s@.skip(i as int).skip(2) =~= s@.skip(i + 2));
        i += 2;
    }
    proof {
        let t = s@.skip(i as int);
        if t.len() >= 2 {
            assert(t.take(2) != seq!['~', '/']) by {
                if t.take(2) == seq!['~', '/'] {
                    assert(t.take(2)[0] == s@[i as int]);
                    assert(t.take(2)[1] == s@[i + 1]);
                }
            }
        }
    }
    let rest = crate::text::subvec(&s, i, s.len());
    assert(rest@ =~= s@.skip(i as int));
    let a = trim_start_char_vec(rest, '~');
    let b = trim_start_char_vec(a, '/');
    Some(string_from_chars(&b))
}

} // verus!
