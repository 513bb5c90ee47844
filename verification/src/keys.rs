//! The keyboard: which action a key stands for in the current state of the
//! interface, and the actions on the state that keys lead to. Actions that
//! need the outside world (connecting, copying, probing, running a command,
//! reloading) give what the outside needs.
use vstd::prelude::*;
use crate::config::{mode_from_index, mode_index, ConnectionMode};
use crate::forms::{AppMode, CmdState, ScpState, TunnelOverlayState};
use crate::wallix_ui::WallixSelectorState;
use crate::i18n::{fmt, fmt_seq};
use crate::resolve::{ResolvedServer, ResolvedView};
use crate::ssh::{build_ssh_args, destination, spec_ssh_args, ssh_error, ssh_error_message, SshError};
use crate::text::{chars_of, trim_str, trim_ws, views};
use crate::tilde::tilde_expansion_of;
use crate::transfers::spec_cmd_args;
use crate::tree::{items_view, ItemView};
use crate::tui::{same_cache, same_data, same_screen, same_selection, same_tree, App};
use crate::tunnels::read_list;
use crate::wallix::{join_seq, join_strings};

verus! {

/// A key, as far as the interface tells keys apart.
#[derive(Clone, Copy, PartialEq, Eq, Structural)]
pub enum Key {
    Char(char),
    /// A character typed with Control held.
    Ctrl(char),
    Enter,
    Esc,
    Backspace,
    Tab,
    Up,
    Down,
    /// Shift-Tab.
    BackTab,
    Delete,
    Other,
}

/// What a key does.
#[derive(Clone, Copy, PartialEq, Eq, Structural)]
pub enum KeyAction {
    Nothing,
    ClearError,
    ResetCmd,
    SubmitCmd,
    CmdChar(char),
    CmdBackspace,
    StopSearch,
    ClearSearch,
    SearchChar(char),
    SearchBackspace,
    Exit,
    Next,
    Previous,
    CycleMode,
    SetMode(ConnectionMode),
    ToggleVerbose,
    CopyCommand,
    StartSearch,
    Reload,
    ToggleFavorite,
    ToggleFavoritesView,
    CollapseAll,
    ToggleRecent,
    PromptCmd,
    Probe,
    ToggleExpansion,
    Activate,
    OpenTunnels,
    OpenScp,
}

/// The action of `key`: a panel (error or credential) takes Esc, Enter and
/// `q` to close; while a command is typed, keys edit it; while searching,
/// keys edit the search; otherwise the keys of the list.
pub open spec fn spec_key_action(app_mode_normal: bool, prompting: bool, searching: bool, cmd_finished: bool, key: Key) -> KeyAction {
    if !app_mode_normal {
        match key {
            Key::Esc | Key::Enter | Key::Char('q') => KeyAction::ClearError,
            _ => KeyAction::Nothing,
        }
    } else if prompting {
        match key {
            Key::Esc => KeyAction::ResetCmd,
            Key::Enter => KeyAction::SubmitCmd,
            Key::Char(c) => KeyAction::CmdChar(c),
            Key::Ctrl(c) => KeyAction::CmdChar(c),
            Key::Backspace => KeyAction::CmdBackspace,
            _ => KeyAction::Nothing,
        }
    } else if searching {
        match key {
            Key::Enter | Key::Esc => KeyAction::StopSearch,
            Key::Ctrl('u') => KeyAction::ClearSearch,
            Key::Char(c) => KeyAction::SearchChar(c),
            Key::Ctrl(c) => KeyAction::SearchChar(c),
            Key::Backspace => KeyAction::SearchBackspace,
            _ => KeyAction::Nothing,
        }
    } else {
        match key {
            Key::Char('q') => KeyAction::Exit,
            Key::Down | Key::Char('j') => KeyAction::Next,
            Key::Up | Key::Char('k') => KeyAction::Previous,
            Key::Tab => KeyAction::CycleMode,
            Key::Char('1') => KeyAction::SetMode(ConnectionMode::Direct),
            Key::Char('2') => KeyAction::SetMode(ConnectionMode::Jump),
            Key::Char('3') => KeyAction::SetMode(ConnectionMode::Wallix),
            Key::Char('v') => KeyAction::ToggleVerbose,
            Key::Char('y') => KeyAction::CopyCommand,
            Key::Char('/') => KeyAction::StartSearch,
            Key::Char('r') => KeyAction::Reload,
            Key::Char('f') => KeyAction::ToggleFavorite,
            Key::Char('F') => KeyAction::ToggleFavoritesView,
            Key::Char('C') => KeyAction::CollapseAll,
            Key::Char('H') => KeyAction::ToggleRecent,
            Key::Char('x') => KeyAction::PromptCmd,
            Key::Esc => if cmd_finished {
                KeyAction::ResetCmd
            } else {
                KeyAction::Nothing
            },
            Key::Char('d') => KeyAction::Probe,
            Key::Char(' ') => KeyAction::ToggleExpansion,
            Key::Enter => KeyAction::Activate,
            Key::Char('T') => KeyAction::OpenTunnels,
            Key::Char('s') => KeyAction::OpenScp,
            _ => KeyAction::Nothing,
        }
    }
}

/// What a key does while an overlay is open; `Main` when none takes keys
/// and the key goes to the list (see `spec_key_action`).
#[derive(Clone, Copy, PartialEq, Eq, Structural)]
pub enum OverlayAction {
    Main,
    Nothing,
    CredentialCancel,
    CredentialSubmit,
    CredentialBackspace,
    CredentialChar(char),
    WallixClose,
    WallixPrevious,
    WallixNext,
    WallixChoose,
    TunnelFormCancel,
    TunnelFormSubmit,
    TunnelFormNextField,
    TunnelFormPrevField,
    TunnelFormBackspace,
    TunnelFormChar(char),
    TunnelClose,
    TunnelPrevious,
    TunnelNext,
    /// Starts or stops the selected tunnel, or opens the form on the `+` row.
    TunnelActivate,
    TunnelEdit,
    TunnelAdd,
    TunnelDelete,
    ScpUpload,
    ScpDownload,
    ScpClose,
    ScpSubmit,
    ScpNextField,
    ScpBackspace,
    ScpChar(char),
    ScpDismiss,
}

/// The action of `key` in the overlays, from the topmost: the credential
/// prompt, the Wallix selector, the tunnels overlay (its form or its list),
/// then the SCP overlay (direction, form, result). The keys are those that
/// each overlay's hint line shows, with the list's own arrows (`k`, `j`).
pub open spec fn spec_overlay_action(app: App, key: Key) -> OverlayAction {
    if app.app_mode is CredentialInput {
        match key {
            Key::Esc => OverlayAction::CredentialCancel,
            Key::Enter => OverlayAction::CredentialSubmit,
            Key::Backspace => OverlayAction::CredentialBackspace,
            Key::Char(c) => OverlayAction::CredentialChar(c),
            _ => OverlayAction::Nothing,
        }
    } else if app.wallix_selector is Some {
        let listing = app.wallix_selector matches Some(WallixSelectorState::List { .. });
        match key {
            Key::Esc | Key::Char('q') => OverlayAction::WallixClose,
            Key::Up | Key::Char('k') => if listing {
                OverlayAction::WallixPrevious
            } else {
                OverlayAction::Nothing
            },
            Key::Down | Key::Char('j') => if listing {
                OverlayAction::WallixNext
            } else {
                OverlayAction::Nothing
            },
            Key::Enter => if listing {
                OverlayAction::WallixChoose
            } else {
                OverlayAction::WallixClose
            },
            _ => OverlayAction::Nothing,
        }
    } else if app.tunnel_overlay matches Some(TunnelOverlayState::Form(_)) {
        match key {
            Key::Esc => OverlayAction::TunnelFormCancel,
            Key::Enter => OverlayAction::TunnelFormSubmit,
            Key::Tab | Key::Down => OverlayAction::TunnelFormNextField,
            Key::Up | Key::BackTab => OverlayAction::TunnelFormPrevField,
            Key::Backspace => OverlayAction::TunnelFormBackspace,
            Key::Char(c) => OverlayAction::TunnelFormChar(c),
            _ => OverlayAction::Nothing,
        }
    } else if app.tunnel_overlay is Some {
        match key {
            Key::Esc | Key::Char('q') | Key::Char('T') => OverlayAction::TunnelClose,
            Key::Up | Key::Char('k') => OverlayAction::TunnelPrevious,
            Key::Down | Key::Char('j') => OverlayAction::TunnelNext,
            Key::Enter | Key::Char(' ') => OverlayAction::TunnelActivate,
            Key::Char('e') => OverlayAction::TunnelEdit,
            Key::Char('a') | Key::Char('+') => OverlayAction::TunnelAdd,
            Key::Delete | Key::Char('d') | Key::Char('x') => OverlayAction::TunnelDelete,
            _ => OverlayAction::Nothing,
        }
    } else {
        match app.scp_state {
            ScpState::Idle | ScpState::Running { .. } => OverlayAction::Main,
            ScpState::SelectingDirection => match key {
                Key::Up | Key::Char('u') | Key::Char('U') => OverlayAction::ScpUpload,
                Key::Down | Key::Char('d') | Key::Char('D') => OverlayAction::ScpDownload,
                Key::Esc | Key::Char('q') => OverlayAction::ScpClose,
                _ => OverlayAction::Nothing,
            },
            ScpState::FillingForm { .. } => match key {
                Key::Esc => OverlayAction::ScpClose,
                Key::Enter => OverlayAction::ScpSubmit,
                Key::Tab | Key::Up | Key::Down => OverlayAction::ScpNextField,
                Key::Backspace => OverlayAction::ScpBackspace,
                Key::Char(c) => OverlayAction::ScpChar(c),
                _ => OverlayAction::Nothing,
            },
            _ => match key {
                Key::Esc | Key::Enter | Key::Char('q') => OverlayAction::ScpDismiss,
                _ => OverlayAction::Nothing,
            },
        }
    }
}

/// The row of the server list under a click at screen line `line`, when
/// the list's frame spans lines `top` to `bottom` (borders included) and
/// shows the rows from `offset` on: the rows sit inside the borders, one a
/// line; a click on a border or below the last of `count` rows is on none.
pub open spec fn spec_clicked_row(line: u16, top: u16, bottom: u16, offset: usize, count: usize) -> Option<
    usize,
> {
    if top < line && line < bottom && offset + (line - top - 1) < count {
        Some((offset + (line - top - 1)) as usize)
    } else {
        None
    }
}

/// The row under a click (see `spec_clicked_row`).
pub fn clicked_row(line: u16, top: u16, bottom: u16, offset: usize, count: usize) -> (r: Option<usize>)
    ensures
        r == spec_clicked_row(line, top, bottom, offset, count),
{
    if top < line && line < bottom {
        let k = (line - top - 1) as usize;
        if offset < count && k < count - offset {
            return Some(offset + k);
        }
    }
    None
}

/// A click makes a double click with the previous one, given as (time in
/// milliseconds, column, line), when it is at the same place less than
/// 400 ms later.
pub open spec fn spec_double_click(prev: Option<(u64, u16, u16)>, now: u64, col: u16, line: u16) -> bool {
    match prev {
        Some((t, c, l)) => c == col && l == line && t <= now && now - t < 400,
        None => false,
    }
}

pub fn is_double_click(prev: Option<(u64, u16, u16)>, now: u64, col: u16, line: u16) -> (r: bool)
    ensures
        r == spec_double_click(prev, now, col, line),
{
    match prev {
        Some((t, c, l)) => c == col && l == line && t <= now && now - t < 400,
        None => false,
    }
}

/// A connection to start.
pub struct ConnectRequest {
    pub server: ResolvedServer,
    pub mode: ConnectionMode,
    pub verbose: bool,
}

/// Only the screen fields named by the caller may have changed.
pub open spec fn same_but_screen(a: App, b: App) -> bool {
    &&& same_tree(a, b)
    &&& same_cache(a, b)
    &&& same_data(a, b)
    &&& same_selection(a, b)
    &&& a.tunnel_overrides == b.tunnel_overrides
    &&& a.tunnel_overlay == b.tunnel_overlay
    &&& a.scp_state == b.scp_state
    &&& a.cmd_state == b.cmd_state
}

impl App {
    /// The action of `key` in the open overlay (see `spec_overlay_action`).
    pub fn overlay_action(&self, key: Key) -> (r: OverlayAction)
        ensures
            r == spec_overlay_action(*self, key),
    {
        if let AppMode::CredentialInput { .. } = self.app_mode {
            return match key {
                Key::Esc => OverlayAction::CredentialCancel,
                Key::Enter => OverlayAction::CredentialSubmit,
                Key::Backspace => OverlayAction::CredentialBackspace,
                Key::Char(c) => OverlayAction::CredentialChar(c),
                _ => OverlayAction::Nothing,
            };
        }
        if let Some(sel) = &self.wallix_selector {
            let listing = match sel {
                WallixSelectorState::List { .. } => true,
                _ => false,
            };
            return match key {
                Key::Esc | Key::Char('q') => OverlayAction::WallixClose,
                Key::Up | Key::Char('k') => if listing {
                    OverlayAction::WallixPrevious
                } else {
                    OverlayAction::Nothing
                },
                Key::Down | Key::Char('j') => if listing {
                    OverlayAction::WallixNext
                } else {
                    OverlayAction::Nothing
                },
                Key::Enter => if listing {
                    OverlayAction::WallixChoose
                } else {
                    OverlayAction::WallixClose
                },
                _ => OverlayAction::Nothing,
            };
        }
        match &self.tunnel_overlay {
            Some(TunnelOverlayState::Form(_)) => {
                return match key {
                    Key::Esc => OverlayAction::TunnelFormCancel,
                    Key::Enter => OverlayAction::TunnelFormSubmit,
                    Key::Tab | Key::Down => OverlayAction::TunnelFormNextField,
                    Key::Up | Key::BackTab => OverlayAction::TunnelFormPrevField,
                    Key::Backspace => OverlayAction::TunnelFormBackspace,
                    Key::Char(c) => OverlayAction::TunnelFormChar(c),
                    _ => OverlayAction::Nothing,
                };
            },
            Some(_) => {
                return match key {
                    Key::Esc | Key::Char('q') | Key::Char('T') => OverlayAction::TunnelClose,
                    Key::Up | Key::Char('k') => OverlayAction::TunnelPrevious,
                    Key::Down | Key::Char('j') => OverlayAction::TunnelNext,
                    Key::Enter | Key::Char(' ') => OverlayAction::TunnelActivate,
                    Key::Char('e') => OverlayAction::TunnelEdit,
                    Key::Char('a') | Key::Char('+') => OverlayAction::TunnelAdd,
                    Key::Delete | Key::Char('d') | Key::Char('x') => OverlayAction::TunnelDelete,
                    _ => OverlayAction::Nothing,
                };
            },
            None => {},
        }
        match &self.scp_state {
            ScpState::Idle | ScpState::Running { .. } => OverlayAction::Main,
            ScpState::SelectingDirection => match key {
                Key::Up | Key::Char('u') | Key::Char('U') => OverlayAction::ScpUpload,
                Key::Down | Key::Char('d') | Key::Char('D') => OverlayAction::ScpDownload,
                Key::Esc | Key::Char('q') => OverlayAction::ScpClose,
                _ => OverlayAction::Nothing,
            },
            ScpState::FillingForm { .. } => match key {
                Key::Esc => OverlayAction::ScpClose,
                Key::Enter => OverlayAction::ScpSubmit,
                Key::Tab | Key::Up | Key::Down => OverlayAction::ScpNextField,
                Key::Backspace => OverlayAction::ScpBackspace,
                Key::Char(c) => OverlayAction::ScpChar(c),
                _ => OverlayAction::Nothing,
            },
            _ => match key {
                Key::Esc | Key::Enter | Key::Char('q') => OverlayAction::ScpDismiss,
                _ => OverlayAction::Nothing,
            },
        }
    }

    /// The action of `key` in the current state (see `spec_key_action`).
    pub fn key_action(&self, key: Key) -> (r: KeyAction)
        ensures
            r == spec_key_action(
                self.app_mode is Normal,
                self.cmd_state is Prompting,
                self.is_searching,
                self.cmd_state is Done || self.cmd_state is Error,
                key,
            ),
    {
        let normal = match self.app_mode {
            AppMode::Normal => true,
            _ => false,
        };
        if !normal {
            return match key {
                Key::Esc | Key::Enter | Key::Char('q') => KeyAction::ClearError,
                _ => KeyAction::Nothing,
            };
        }
        let prompting = match self.cmd_state {
            CmdState::Prompting(_) => true,
            _ => false,
        };
        if prompting {
            return match key {
                Key::Esc => KeyAction::ResetCmd,
                Key::Enter => KeyAction::SubmitCmd,
                Key::Char(c) => KeyAction::CmdChar(c),
                Key::Ctrl(c) => KeyAction::CmdChar(c),
                Key::Backspace => KeyAction::CmdBackspace,
                _ => KeyAction::Nothing,
            };
        }
        if self.is_searching {
            return match key {
                Key::Enter | Key::Esc => KeyAction::StopSearch,
                Key::Ctrl('u') => KeyAction::ClearSearch,
                Key::Char(c) => KeyAction::SearchChar(c),
                Key::Ctrl(c) => KeyAction::SearchChar(c),
                Key::Backspace => KeyAction::SearchBackspace,
                _ => KeyAction::Nothing,
            };
        }
        let finished = match self.cmd_state {
            CmdState::Done { .. } | CmdState::Error(_) => true,
            _ => false,
        };
        match key {
            Key::Char('q') => KeyAction::Exit,
            Key::Down | Key::Char('j') => KeyAction::Next,
            Key::Up | Key::Char('k') => KeyAction::Previous,
            Key::Tab => KeyAction::CycleMode,
            Key::Char('1') => KeyAction::SetMode(ConnectionMode::Direct),
            Key::Char('2') => KeyAction::SetMode(ConnectionMode::Jump),
            Key::Char('3') => KeyAction::SetMode(ConnectionMode::Wallix),
            Key::Char('v') => KeyAction::ToggleVerbose,
            Key::Char('y') => KeyAction::CopyCommand,
            Key::Char('/') => KeyAction::StartSearch,
            Key::Char('r') => KeyAction::Reload,
            Key::Char('f') => KeyAction::ToggleFavorite,
            Key::Char('F') => KeyAction::ToggleFavoritesView,
            Key::Char('C') => KeyAction::CollapseAll,
            Key::Char('H') => KeyAction::ToggleRecent,
            Key::Char('x') => KeyAction::PromptCmd,
            Key::Esc => if finished {
                KeyAction::ResetCmd
            } else {
                KeyAction::Nothing
            },
            Key::Char('d') => KeyAction::Probe,
            Key::Char(' ') => KeyAction::ToggleExpansion,
            Key::Enter => KeyAction::Activate,
            Key::Char('T') => KeyAction::OpenTunnels,
            Key::Char('s') => KeyAction::OpenScp,
            _ => KeyAction::Nothing,
        }
    }

    // ─── The search ──────────────────────────────────────────────────────────

    /// Starts typing a search.
    pub fn start_search(&mut self)
        ensures
            final(self).is_searching,
            final(self).verbose_mode == old(self).verbose_mode,
            final(self).app_mode == old(self).app_mode,
            final(self).theme == old(self).theme,
            final(self).status_message == old(self).status_message,
            same_but_screen(*final(self), *old(self)),
    {
        self.is_searching = true;
    }

    /// Stops typing the search (which stays applied).
    pub fn stop_search(&mut self)
        ensures
            !final(self).is_searching,
            final(self).verbose_mode == old(self).verbose_mode,
            final(self).app_mode == old(self).app_mode,
            final(self).theme == old(self).theme,
            final(self).status_message == old(self).status_message,
            same_but_screen(*final(self), *old(self)),
    {
        self.is_searching = false;
    }

    /// Types `c` into the search; the first row is selected and the rows are rebuilt.
    pub fn search_char(&mut self, c: char)
        ensures
            final(self).search_query@ == old(self).search_query@.push(c),
            final(self).selected_index == 0,
            final(self).items_dirty,
            final(self).cached_items == old(self).cached_items,
            final(self).connection_mode == old(self).connection_mode,
            final(self).config == old(self).config,
            final(self).resolved_servers == old(self).resolved_servers,
            final(self).expanded_items == old(self).expanded_items,
            final(self).favorites_only == old(self).favorites_only,
            final(self).sort_by_recent == old(self).sort_by_recent,
            final(self).last_seen == old(self).last_seen,
            final(self).favorites == old(self).favorites,
            same_screen(*final(self), *old(self)),
            same_data(*final(self), *old(self)),
            final(self).tunnel_overrides == old(self).tunnel_overrides,
            final(self).tunnel_overlay == old(self).tunnel_overlay,
            final(self).scp_state == old(self).scp_state,
            final(self).cmd_state == old(self).cmd_state,
    {
        crate::text::push_char(&mut self.search_query, c);
        self.selected_index = 0;
        self.items_dirty = true;
    }

    /// Removes the last character of the search; the first row is selected
    /// and the rows are rebuilt.
    pub fn search_backspace(&mut self)
        ensures
            final(self).search_query@ == crate::forms::without_last(old(self).search_query@),
            final(self).selected_index == 0,
            final(self).items_dirty,
            final(self).cached_items == old(self).cached_items,
            final(self).connection_mode == old(self).connection_mode,
            final(self).config == old(self).config,
            final(self).resolved_servers == old(self).resolved_servers,
            final(self).expanded_items == old(self).expanded_items,
            final(self).favorites_only == old(self).favorites_only,
            final(self).sort_by_recent == old(self).sort_by_recent,
            final(self).last_seen == old(self).last_seen,
            final(self).favorites == old(self).favorites,
            same_screen(*final(self), *old(self)),
            same_data(*final(self), *old(self)),
            final(self).tunnel_overrides == old(self).tunnel_overrides,
            final(self).tunnel_overlay == old(self).tunnel_overlay,
            final(self).scp_state == old(self).scp_state,
            final(self).cmd_state == old(self).cmd_state,
    {
        crate::forms::pop_char(&mut self.search_query);
        self.selected_index = 0;
        self.items_dirty = true;
    }

    /// Empties the search (Ctrl+U); the first row is selected and the rows are rebuilt.
    pub fn clear_search(&mut self)
        ensures
            final(self).search_query@.len() == 0,
            final(self).selected_index == 0,
            final(self).items_dirty,
            final(self).cached_items == old(self).cached_items,
            final(self).connection_mode == old(self).connection_mode,
            final(self).config == old(self).config,
            final(self).resolved_servers == old(self).resolved_servers,
            final(self).expanded_items == old(self).expanded_items,
            final(self).favorites_only == old(self).favorites_only,
            final(self).sort_by_recent == old(self).sort_by_recent,
            final(self).last_seen == old(self).last_seen,
            final(self).favorites == old(self).favorites,
            same_screen(*final(self), *old(self)),
            same_data(*final(self), *old(self)),
            final(self).tunnel_overrides == old(self).tunnel_overrides,
            final(self).tunnel_overlay == old(self).tunnel_overlay,
            final(self).scp_state == old(self).scp_state,
            final(self).cmd_state == old(self).cmd_state,
    {
        self.search_query = String::new();
        self.selected_index = 0;
        self.items_dirty = true;
    }

    // ─── Modes ───────────────────────────────────────────────────────────────

    /// Moves to the next connection mode (Tab).
    pub fn cycle_mode(&mut self)
        ensures
            final(self).connection_mode == mode_from_index((mode_index(old(self).connection_mode) + 1) % 3),
            final(self).selected_index == old(self).selected_index,
            same_tree(*final(self), *old(self)),
            same_cache(*final(self), *old(self)),
            same_screen(*final(self), *old(self)),
            same_data(*final(self), *old(self)),
            final(self).tunnel_overrides == old(self).tunnel_overrides,
            final(self).tunnel_overlay == old(self).tunnel_overlay,
            final(self).scp_state == old(self).scp_state,
            final(self).cmd_state == old(self).cmd_state,
    {
        self.connection_mode = self.connection_mode.next();
    }

    /// Chooses connection mode `m`.
    pub fn set_mode(&mut self, m: ConnectionMode)
        ensures
            final(self).connection_mode == m,
            final(self).selected_index == old(self).selected_index,
            same_tree(*final(self), *old(self)),
            same_cache(*final(self), *old(self)),
            same_screen(*final(self), *old(self)),
            same_data(*final(self), *old(self)),
            final(self).tunnel_overrides == old(self).tunnel_overrides,
            final(self).tunnel_overlay == old(self).tunnel_overlay,
            final(self).scp_state == old(self).scp_state,
            final(self).cmd_state == old(self).cmd_state,
    {
        self.connection_mode = m;
    }

    /// Switches verbose SSH on or off.
    pub fn toggle_verbose(&mut self)
        ensures
            final(self).verbose_mode == !old(self).verbose_mode,
            final(self).is_searching == old(self).is_searching,
            final(self).app_mode == old(self).app_mode,
            final(self).theme == old(self).theme,
            final(self).status_message == old(self).status_message,
            same_but_screen(*final(self), *old(self)),
    {
        self.verbose_mode = !self.verbose_mode;
    }

    /// Switches the "recent" mode on or off and says which in the status bar.
    pub fn toggle_recent(&mut self)
        ensures
            final(self).sort_by_recent == !old(self).sort_by_recent,
            final(self).items_dirty,
            final(self).cached_items == old(self).cached_items,
            final(self).status_message matches Some(m) && m@ == (if final(self).sort_by_recent {
                old(self).lang.sort_recent_on@
            } else {
                old(self).lang.sort_recent_off@
            }),
            final(self).config == old(self).config,
            final(self).resolved_servers == old(self).resolved_servers,
            final(self).expanded_items == old(self).expanded_items,
            final(self).search_query == old(self).search_query,
            final(self).favorites_only == old(self).favorites_only,
            final(self).last_seen == old(self).last_seen,
            final(self).favorites == old(self).favorites,
            final(self).is_searching == old(self).is_searching,
            final(self).verbose_mode == old(self).verbose_mode,
            final(self).app_mode == old(self).app_mode,
            final(self).theme == old(self).theme,
            same_selection(*final(self), *old(self)),
            same_data(*final(self), *old(self)),
            final(self).tunnel_overrides == old(self).tunnel_overrides,
            final(self).tunnel_overlay == old(self).tunnel_overlay,
            final(self).scp_state == old(self).scp_state,
            final(self).cmd_state == old(self).cmd_state,
    {
        self.sort_by_recent = !self.sort_by_recent;
        self.items_dirty = true;
        let msg = if self.sort_by_recent {
            self.lang.sort_recent_on
        } else {
            self.lang.sort_recent_off
        };
        self.status_message = Some(String::from_str(msg));
    }

    // ─── The ad-hoc command prompt ───────────────────────────────────────────

    /// Starts typing a command when the selected row is a server.
    pub fn prompt_cmd(&mut self)
        ensures
            read_list(*final(self), *old(self)),
            same_screen(*final(self), *old(self)),
            final(self).selected_view() is Some ==> (final(self).cmd_state matches CmdState::Prompting(b)
                && b@.len() == 0),
            final(self).selected_view() is None ==> final(self).cmd_state == old(self).cmd_state,
            final(self).tunnel_overrides == old(self).tunnel_overrides,
            final(self).tunnel_overlay == old(self).tunnel_overlay,
            final(self).scp_state == old(self).scp_state,
    {
        if self.selected_server().is_some() {
            self.cmd_state = CmdState::Prompting(String::new());
        }
    }

    /// Types `c` into the command being typed.
    pub fn cmd_char(&mut self, c: char)
        ensures
            match old(self).cmd_state {
                CmdState::Prompting(b) => final(self).cmd_state matches CmdState::Prompting(b2) && b2@
                    == b@.push(c),
                _ => final(self).cmd_state == old(self).cmd_state,
            },
            same_tree(*final(self), *old(self)),
            same_cache(*final(self), *old(self)),
            same_screen(*final(self), *old(self)),
            same_data(*final(self), *old(self)),
            same_selection(*final(self), *old(self)),
            final(self).tunnel_overrides == old(self).tunnel_overrides,
            final(self).tunnel_overlay == old(self).tunnel_overlay,
            final(self).scp_state == old(self).scp_state,
    {
        match &mut self.cmd_state {
            CmdState::Prompting(buf) => crate::text::push_char(buf, c),
            _ => {},
        }
    }

    /// Removes the last character of the command being typed.
    pub fn cmd_backspace(&mut self)
        ensures
            match old(self).cmd_state {
                CmdState::Prompting(b) => final(self).cmd_state matches CmdState::Prompting(b2) && b2@
                    == crate::forms::without_last(b@),
                _ => final(self).cmd_state == old(self).cmd_state,
            },
            same_tree(*final(self), *old(self)),
            same_cache(*final(self), *old(self)),
            same_screen(*final(self), *old(self)),
            same_data(*final(self), *old(self)),
            same_selection(*final(self), *old(self)),
            final(self).tunnel_overrides == old(self).tunnel_overrides,
            final(self).tunnel_overlay == old(self).tunnel_overlay,
            final(self).scp_state == old(self).scp_state,
    {
        match &mut self.cmd_state {
            CmdState::Prompting(buf) => crate::forms::pop_char(buf),
            _ => {},
        }
    }

    /// Submits the command typed: an empty one (once trimmed) is dropped;
    /// otherwise it starts on the selected server (see `start_cmd`), giving
    /// the server and the arguments of `ssh`.
    pub fn submit_cmd(&mut self) -> (r: Option<(ResolvedServer, Vec<String>)>)
        ensures
            match old(self).cmd_state {
                CmdState::Prompting(b) => if trim_ws(b@).len() == 0 {
                    &&& r is None
                    &&& final(self).cmd_state == CmdState::Idle
                    &&& same_tree(*final(self), *old(self))
                    &&& same_cache(*final(self), *old(self))
                    &&& same_selection(*final(self), *old(self))
                    &&& same_data(*final(self), *old(self))
                } else {
                    &&& read_list(*final(self), *old(self))
                    &&& match final(self).selected_view() {
                        Some(s) => r matches Some((srv, args)) && srv@ == s && (final(self).cmd_state matches CmdState::Running(c) && c@ == trim_ws(b@)) && (s.ssh_key.len()
                            == 0 ==> views(args@) == spec_cmd_args(s, None, trim_ws(b@))) && (
                        s.ssh_key.len() > 0 ==> exists|k: Seq<char>|
                            tilde_expansion_of(s.ssh_key, k) && views(args@) == spec_cmd_args(
                                s,
                                Some(k),
                                trim_ws(b@),
                            )),
                        None => r is None && final(self).cmd_state == old(self).cmd_state,
                    }
                },
                _ => {
                    &&& r is None
                    &&& final(self).cmd_state == old(self).cmd_state
                    &&& same_tree(*final(self), *old(self))
                    &&& same_cache(*final(self), *old(self))
                    &&& same_selection(*final(self), *old(self))
                    &&& same_data(*final(self), *old(self))
                },
            },
            same_screen(*final(self), *old(self)),
            final(self).tunnel_overrides == old(self).tunnel_overrides,
            final(self).tunnel_overlay == old(self).tunnel_overlay,
            final(self).scp_state == old(self).scp_state,
    {
        let typed = match &self.cmd_state {
            CmdState::Prompting(buf) => trim_str(buf.as_str()),
            _ => {
                return None;
            },
        };
        if typed.as_str().is_empty() {
            self.cmd_state = CmdState::Idle;
            return None;
        }
        match self.selected_server() {
            Some(server) => {
                let args = self.start_cmd(&server, typed);
                Some((server, args))
            },
            None => None,
        }
    }

    // ─── Actions on the selected server ──────────────────────────────────────

    /// The `ssh` command line of the selected server (`y`), to copy; when
    /// its arguments cannot be built the status bar gives the reason.
    pub fn copy_command(&mut self) -> (r: Option<String>)
        ensures
            read_list(*final(self), *old(self)),
            final(self).tunnel_overrides == old(self).tunnel_overrides,
            final(self).tunnel_overlay == old(self).tunnel_overlay,
            final(self).scp_state == old(self).scp_state,
            final(self).cmd_state == old(self).cmd_state,
            final(self).app_mode == old(self).app_mode,
            match final(self).selected_view() {
                Some(s) => match ssh_error(s, old(self).connection_mode) {
                    None => r matches Some(text) && exists|k: Seq<char>|
                        tilde_expansion_of(s.ssh_key, k) && text@ == "ssh "@ + join_seq(
                            spec_ssh_args(s, old(self).connection_mode, old(self).verbose_mode, k),
                            " "@,
                        ) && final(self).status_message == old(self).status_message,
                    Some(e) => r is None && (final(self).status_message matches Some(m) && m@
                        == fmt_seq(old(self).lang.ssh_error@, seq![ssh_error_message(e)])),
                },
                None => r is None && final(self).status_message == old(self).status_message,
            },
    {
        let server = match self.selected_server() {
            Some(s) => s,
            None => {
                return None;
            },
        };
        match build_ssh_args(&server, self.connection_mode, self.verbose_mode) {
            Ok(args) => {
                let joined = join_strings(&args, " ");
                let mut text = String::from_str("ssh ");
                crate::text::push_str(&mut text, joined.as_str());
                Some(text)
            },
            Err(e) => {
                let m = e.message();
                let a = vec![m.as_str()];
                assert(crate::i18n::str_views(a@) =~= seq![m@]);
                self.status_message = Some(fmt(self.lang.ssh_error, a.as_slice()));
                None
            },
        }
    }

    /// The server to probe (`d`) with the mode; not in Wallix mode (the status bar says so).
    pub fn probe_target(&mut self) -> (r: Option<(ResolvedServer, ConnectionMode)>)
        ensures
            read_list(*final(self), *old(self)),
            final(self).tunnel_overrides == old(self).tunnel_overrides,
            final(self).tunnel_overlay == old(self).tunnel_overlay,
            final(self).scp_state == old(self).scp_state,
            final(self).cmd_state == old(self).cmd_state,
            final(self).app_mode == old(self).app_mode,
            match final(self).selected_view() {
                Some(s) => if old(self).connection_mode == ConnectionMode::Wallix {
                    r is None && (final(self).status_message matches Some(m) && m@
                        == old(self).lang.probe_wallix_error@)
                } else {
                    r matches Some((srv, mode)) && srv@ == s && mode == old(self).connection_mode
                        && final(self).status_message == old(self).status_message
                },
                None => r is None && final(self).status_message == old(self).status_message,
            },
    {
        let server = match self.selected_server() {
            Some(s) => s,
            None => {
                return None;
            },
        };
        if self.connection_mode == ConnectionMode::Wallix {
            self.status_message = Some(String::from_str(self.lang.probe_wallix_error));
            return None;
        }
        Some((server, self.connection_mode))
    }

    /// Enter: on a server whose arguments can be built, the connection to
    /// start (in the current mode and verbosity); on a server whose
    /// arguments cannot be built, the error panel; on a header, it opens or
    /// closes (see `toggle_expansion`).
    pub fn activate(&mut self) -> (r: Option<ConnectRequest>)
        ensures
            old(self).shown_ok(final(self).shown()),
            final(self).tunnel_overrides == old(self).tunnel_overrides,
            final(self).tunnel_overlay == old(self).tunnel_overlay,
            final(self).scp_state == old(self).scp_state,
            final(self).cmd_state == old(self).cmd_state,
            final(self).status_message == old(self).status_message,
            final(self).config == old(self).config,
            final(self).resolved_servers == old(self).resolved_servers,
            final(self).favorites == old(self).favorites,
            final(self).last_seen == old(self).last_seen,
            same_selection(*final(self), *old(self)),
            match final(self).selected_view() {
                Some(s) => {
                    &&& final(self).expanded_items == old(self).expanded_items
                    &&& match ssh_error(s, old(self).connection_mode) {
                        None => r matches Some(q) && q.server@ == s && q.mode == old(self).connection_mode && q.verbose == old(self).verbose_mode && final(self).app_mode == old(self).app_mode,
                        Some(e) => r is None && (final(self).app_mode matches AppMode::Error(m) && m@
                            == ssh_error_message(e)),
                    }
                },
                None => r is None && final(self).app_mode == old(self).app_mode && (match final(self).selected_row() {
                    Some(row) => !(row is Server) && final(self).items_dirty
                        && crate::tui::toggled(
                        views(old(self).expanded_items@),
                        views(final(self).expanded_items@),
                        crate::tui::item_id(row).unwrap(),
                    ),
                    None => final(self).items_dirty && final(self).expanded_items == old(self).expanded_items,
                }),
            },
    {
        match self.selected_server() {
            Some(server) => {
                match build_ssh_args(&server, self.connection_mode, self.verbose_mode) {
                    Ok(_) => Some(
                        ConnectRequest {
                            server,
                            mode: self.connection_mode,
                            verbose: self.verbose_mode,
                        },
                    ),
                    Err(e) => {
                        self.app_mode = AppMode::Error(e.message());
                        None
                    },
                }
            },
            None => {
                self.toggle_expansion();
                None
            },
        }
    }
}

/// The resolved servers of group `g` (and environment `e`, when given), in order.
pub open spec fn servers_of(rs: Seq<ResolvedView>, g: Seq<char>, e: Option<Seq<char>>) -> Seq<ResolvedView>
    decreases rs.len(),
{
    if rs.len() == 0 {
        seq![]
    } else {
        let prev = servers_of(rs.drop_last(), g, e);
        let r = rs.last();
        if r.group_name == g && (match e {
            Some(env) => r.env_name == env,
            None => true,
        }) {
            prev.push(r)
        } else {
            prev
        }
    }
}

impl App {
    /// The servers the overview probes for the selected header: those of the
    /// group (titled by its name), or of the environment (titled
    /// `"{group} / {env}"`); none for another row or an empty selection.
    pub fn overview_targets(&mut self) -> (r: Option<(String, Vec<ResolvedServer>)>)
        ensures
            old(self).shown_ok(final(self).shown()),
            !final(self).items_dirty,
            same_tree(*final(self), *old(self)),
            same_screen(*final(self), *old(self)),
            same_data(*final(self), *old(self)),
            same_selection(*final(self), *old(self)),
            final(self).tunnel_overrides == old(self).tunnel_overrides,
            final(self).tunnel_overlay == old(self).tunnel_overlay,
            final(self).scp_state == old(self).scp_state,
            final(self).cmd_state == old(self).cmd_state,
            match final(self).selected_row() {
                Some(ItemView::Group(g, _)) => if servers_of(final(self).ctx().rs, g, None).len() > 0 {
                    r matches Some((title, svs)) && title@ == g && crate::tree::resolved_views(svs@)
                        == servers_of(final(self).ctx().rs, g, None)
                } else {
                    r is None
                },
                Some(ItemView::Environment(g, e, _)) => if servers_of(final(self).ctx().rs, g, Some(e)).len()
                    > 0 {
                    r matches Some((title, svs)) && title@ == g + " / "@ + e
                        && crate::tree::resolved_views(svs@) == servers_of(final(self).ctx().rs, g, Some(e))
                } else {
                    r is None
                },
                _ => r is None,
            },
    {
        let items = self.get_visible_items();
        assert(items_view(items@).len() == items@.len());
        assert(items_view(self.cached_items@).len() == self.cached_items@.len());
        if self.selected_index >= items.len() {
            return None;
        }
        assert(items_view(items@)[self.selected_index as int] == items@[self.selected_index as int]@);
        let (title, group, env) = match &items[self.selected_index] {
            crate::forms::ConfigItem::Group(g, _) => (g.clone(), g.clone(), None),
            crate::forms::ConfigItem::Environment(g, e, _) => {
                let mut t = g.clone();
                crate::text::push_str(&mut t, " / ");
                crate::text::push_str(&mut t, e.as_str());
                (t, g.clone(), Some(e.clone()))
            },
            _ => {
                return None;
            },
        };
        let ghost rs = self.ctx().rs;
        let ghost ev: Option<Seq<char>> = match &env {
            Some(e) => Some(e@),
            None => None,
        };
        let mut svs: Vec<ResolvedServer> = Vec::new();
        let mut i: usize = 0;
        assert(crate::tree::resolved_views(svs@) =~= servers_of(rs.take(0), group@, ev));
        while i < self.resolved_servers.len()
            invariant
                i <= self.resolved_servers@.len(),
                rs == self.ctx().rs,
                ev == match env {
                    Some(e) => Some(e@),
                    None => None::<Seq<char>>,
                },
                crate::tree::resolved_views(svs@) == servers_of(rs.take(i as int), group@, ev),
            decreases self.resolved_servers@.len() - i,
        {
            let r = &self.resolved_servers[i];
            assert(rs[i as int] == r@);
            assert(rs.take(i + 1).drop_last() =~= rs.take(i as int));
            assert(rs.take(i + 1).last() == r@);
            let in_env = match &env {
                Some(e) => crate::text::str_eq(r.env_name.as_str(), e.as_str()),
                None => true,
            };
            let ghost before = crate::tree::resolved_views(svs@);
            if crate::text::str_eq(r.group_name.as_str(), group.as_str()) && in_env {
                svs.push(r.clone());
                assert(crate::tree::resolved_views(svs@) =~= before.push(r@));
            }
            i += 1;
        }
        assert(rs.take(i as int) =~= rs);
        if svs.len() == 0 {
            return None;
        }
        Some((title, svs))
    }
}

} // verus!
