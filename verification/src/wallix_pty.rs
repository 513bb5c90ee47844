//! Answering the Wallix bastion through its terminal: what to type, given
//! what the bastion has printed so far. The terminal itself (reading,
//! writing, the child process) stays outside; each piece of output goes
//! through `PtySession::on_output`, which says what to send.
use vstd::prelude::*;
use crate::resolve::{ResolvedServer, ResolvedView};
use crate::ssh::{
    contains_wallix_prompt, contains_wallix_target_address_prompt, is_wallix_menu_matching_error,
    parse_wallix_page_position, spec_menu_matching_error, spec_page_position,
    spec_target_address_prompt, spec_wallix_prompt,
};
use crate::config::opt_view;
use crate::text::{
    ascii_lower_seq, ascii_lower_vec, chars_of, lines_of, lines_seq, push_char, push_str, spec_contains,
    str_contains, string_from_chars, subvec, trim_str, trim_ws, views, char_utf8_len, utf8_char_len,
    utf8_len,
};
use crate::wallix::{
    entries_view, error_message, menu_entries, parse_wallix_menu, select_id_for_server,
    spec_select_for_server, WallixError, WallixErrorView, WallixMenuEntry,
};

verus! {

/// How much of the bastion's output is kept to recognize its prompts.
pub const TRANSCRIPT_LIMIT: usize = 65536;

/// What the bastion's output has led to so far.
pub struct PtySession {
    /// The end of the output read since the last answer.
    pub transcript: String,
    /// The menu entry has been chosen (or left to the user).
    pub selection_completed: bool,
    /// The target address has been typed.
    pub target_address_sent: bool,
}

/// What to do after a piece of output.
pub enum PtyAction {
    Nothing,
    /// Type this text.
    Send(String),
    /// Stop the connection with this error.
    Abort(String),
}

/// Where the kept end of `s` starts, looking back from `i`: the end grows
/// one character at a time while its UTF-8 encoding stays within
/// `TRANSCRIPT_LIMIT` bytes.
pub open spec fn tail_start(s: Seq<char>, i: int) -> int
    decreases i,
{
    if i > 0 && i <= s.len() && utf8_len(s.subrange(i - 1, s.len() as int)) <= TRANSCRIPT_LIMIT {
        tail_start(s, i - 1)
    } else {
        i
    }
}

/// The last `TRANSCRIPT_LIMIT` bytes of `s` (UTF-8), cut at a character
/// boundary: the longest end of `s` that takes no more than that.
pub open spec fn keep_tail(s: Seq<char>) -> Seq<char> {
    s.subrange(tail_start(s, s.len() as int), s.len() as int)
}

proof fn lemma_utf8_len_extend(s: Seq<char>, i: int)
    requires
        0 < i <= s.len(),
    ensures
        utf8_len(s.subrange(i - 1, s.len() as int)) == utf8_char_len(s[i - 1]) + utf8_len(
            s.subrange(i, s.len() as int),
        ),
{
    assert(s.subrange(i - 1, s.len() as int).drop_first() =~= s.subrange(i, s.len() as int));
}

proof fn lemma_utf8_len_grows(s: Seq<char>, i: int, j: int)
    requires
        0 <= i <= j <= s.len(),
    ensures
        utf8_len(s.subrange(j, s.len() as int)) <= utf8_len(s.subrange(i, s.len() as int)),
    decreases j - i,
{
    if i < j {
        lemma_utf8_len_grows(s, i + 1, j);
        lemma_utf8_len_extend(s, i + 1);
    }
}

/// The kept end takes at most `TRANSCRIPT_LIMIT` bytes, and one character
/// more would take more: exactly the bytes beyond the limit are dropped
/// when they end at a character boundary.
pub proof fn lemma_keep_tail_bytes(s: Seq<char>)
    ensures
        0 <= tail_start(s, s.len() as int) <= s.len(),
        utf8_len(keep_tail(s)) <= TRANSCRIPT_LIMIT,
        tail_start(s, s.len() as int) > 0 ==> utf8_len(
            s.subrange(tail_start(s, s.len() as int) - 1, s.len() as int),
        ) > TRANSCRIPT_LIMIT,
{
    lemma_tail_start(s, s.len() as int);
}

proof fn lemma_tail_start(s: Seq<char>, i: int)
    requires
        0 <= i <= s.len(),
        utf8_len(s.subrange(i, s.len() as int)) <= TRANSCRIPT_LIMIT,
    ensures
        0 <= tail_start(s, i) <= i,
        utf8_len(s.subrange(tail_start(s, i), s.len() as int)) <= TRANSCRIPT_LIMIT,
        tail_start(s, i) > 0 ==> utf8_len(s.subrange(tail_start(s, i) - 1, s.len() as int))
            > TRANSCRIPT_LIMIT,
    decreases i,
{
    if i > 0 && utf8_len(s.subrange(i - 1, s.len() as int)) <= TRANSCRIPT_LIMIT {
        lemma_tail_start(s, i - 1);
    }
}

/// The menu entry to choose: the one given, or the one the menu offers for the server.
pub open spec fn menu_selection(
    transcript: Seq<char>,
    server: ResolvedView,
    selected_id: Option<Seq<char>>,
) -> Result<Seq<char>, WallixErrorView> {
    match selected_id {
        Some(id) => Ok(id),
        None => if menu_entries(transcript).len() == 0 {
            Err(WallixErrorView::NoEntries)
        } else {
            spec_select_for_server(menu_entries(transcript), server)
        },
    }
}

impl PtySession {
    pub fn new() -> (r: Self)
        ensures
            r.transcript@.len() == 0,
            !r.selection_completed,
            !r.target_address_sent,
    {
        PtySession { transcript: String::new(), selection_completed: false, target_address_sent: false }
    }

    /// Whether what the user types goes to the bastion: once the entry is chosen.
    pub fn forwards_input(&self) -> (r: bool)
        ensures
            r == self.selection_completed,
    {
        self.selection_completed
    }

    /// Takes `chunk` of the bastion's output. Before the entry is chosen, at
    /// the menu's prompt: the entry given (or found in the menu for `server`)
    /// is typed; when none matches and the server asks to stop on that, the
    /// next page is asked for if there is one, else the user chooses, and
    /// another error stops the connection; when the server does not ask to
    /// stop, the user chooses. After that, at the target address prompt the
    /// server's host is typed once.
    pub fn on_output(&mut self, chunk: &str, server: &ResolvedServer, selected_id: Option<&str>) -> (r:
        PtyAction)
        ensures
            ({
                let t = keep_tail(old(self).transcript@ + chunk@);
                if !old(self).selection_completed {
                    if !spec_wallix_prompt(t) {
                        &&& r is Nothing
                        &&& final(self).transcript@ == t
                        &&& !final(self).selection_completed
                        &&& final(self).target_address_sent == old(self).target_address_sent
                    } else {
                        match menu_selection(t, server@, match selected_id {
                            Some(s) => Some(s@),
                            None => None,
                        }) {
                            Ok(id) => {
                                &&& r matches PtyAction::Send(text) && text@ == id.push('\n')
                                &&& final(self).selection_completed
                                &&& final(self).transcript@ == t
                                &&& final(self).target_address_sent == old(self).target_address_sent
                            },
                            Err(e) => {
                                let msg = error_message(e);
                                if !server.wallix_fail_if_menu_match_error {
                                    &&& r is Nothing
                                    &&& final(self).selection_completed
                                    &&& final(self).transcript@ == t
                                    &&& final(self).target_address_sent == old(self).target_address_sent
                                } else if spec_menu_matching_error(msg) && (spec_page_position(t) matches Some(
                                    (current, total),
                                ) && current < total) {
                                    &&& r matches PtyAction::Send(text) && text@ == seq!['n', '\n']
                                    &&& final(self).transcript@.len() == 0
                                    &&& !final(self).selection_completed
                                    &&& final(self).target_address_sent == old(self).target_address_sent
                                } else if spec_menu_matching_error(msg) {
                                    &&& r is Nothing
                                    &&& final(self).selection_completed
                                    &&& final(self).transcript@ == t
                                    &&& final(self).target_address_sent == old(self).target_address_sent
                                } else {
                                    &&& r matches PtyAction::Abort(m) && m@ == msg
                                    &&& final(self).transcript@ == t
                                    &&& !final(self).selection_completed
                                    &&& final(self).target_address_sent == old(self).target_address_sent
                                }
                            },
                        }
                    }
                } else if !old(self).target_address_sent {
                    &&& final(self).transcript@ == t
                    &&& final(self).selection_completed
                    &&& if spec_target_address_prompt(t) {
                        &&& r matches PtyAction::Send(text) && text@ == server@.host.push('\n')
                        &&& final(self).target_address_sent
                    } else {
                        &&& r is Nothing
                        &&& !final(self).target_address_sent
                    }
                } else {
                    &&& r is Nothing
                    &&& final(self).transcript == old(self).transcript
                    &&& final(self).selection_completed
                    &&& final(self).target_address_sent
                }
            }),
    {
        if self.selection_completed && self.target_address_sent {
            return PtyAction::Nothing;
        }
        let mut all = chars_of(self.transcript.as_str());
        let c = chars_of(chunk);
        let mut i: usize = 0;
        let ghost start = all@;
        while i < c.len()
            invariant
                i <= c@.len(),
                all@ == start + c@.take(i as int),
            decreases c@.len() - i,
        {
            all.push(c[i]);
            i += 1;
            assert(all@ =~= start + c@.take(i as int));
        }
        assert(c@.take(i as int) =~= c@);
        let n = all.len();
        let mut from: usize = n;
        let mut bytes: usize = 0;
        let mut full = false;
        assert(all@.subrange(n as int, n as int) =~= Seq::<char>::empty());
        while from > 0 && !full
            invariant
                from <= n == all@.len(),
                bytes == utf8_len(all@.subrange(from as int, n as int)),
                bytes <= TRANSCRIPT_LIMIT,
                tail_start(all@, n as int) == tail_start(all@, from as int),
                full ==> from > 0 && utf8_len(all@.subrange(from - 1, n as int)) > TRANSCRIPT_LIMIT,
            decreases from as int + if full { 0int } else { 1int },
        {
            let w = char_utf8_len(all[from - 1]);
            proof {
                lemma_utf8_len_extend(all@, from as int);
            }
            if bytes + w > TRANSCRIPT_LIMIT {
                full = true;
            } else {
                bytes = bytes + w;
                from = from - 1;
            }
        }
        let kept = subvec(&all, from, n);
        self.transcript = string_from_chars(&kept);
        if !self.selection_completed {
            if !contains_wallix_prompt(self.transcript.as_str()) {
                return PtyAction::Nothing;
            }
            let selection = match selected_id {
                Some(id) => Ok(String::from_str(id)),
                None => match parse_wallix_menu(self.transcript.as_str()) {
                    Ok(entries) => select_id_for_server(&entries, server),
                    Err(e) => Err(e),
                },
            };
            match selection {
                Ok(id) => {
                    let mut text = id;
                    push_char(&mut text, '\n');
                    self.selection_completed = true;
                    PtyAction::Send(text)
                },
                Err(err) => {
                    let msg = err.message();
                    if !server.wallix_fail_if_menu_match_error {
                        self.selection_completed = true;
                        return PtyAction::Nothing;
                    }
                    let matching = is_wallix_menu_matching_error(msg.as_str());
                    if matching {
                        match parse_wallix_page_position(self.transcript.as_str()) {
                            Some((current, total)) => {
                                if current < total {
                                    self.transcript = String::new();
                                    let mut text = String::new();
                                    push_char(&mut text, 'n');
                                    push_char(&mut text, '\n');
                                    assert(text@ =~= seq!['n', '\n']);
                                    return PtyAction::Send(text);
                                }
                            },
                            None => {},
                        }
                        self.selection_completed = true;
                        return PtyAction::Nothing;
                    }
                    PtyAction::Abort(msg)
                },
            }
        } else {
            if contains_wallix_target_address_prompt(self.transcript.as_str()) {
                let mut text = server.host.clone();
                push_char(&mut text, '\n');
                self.target_address_sent = true;
                PtyAction::Send(text)
            } else {
                PtyAction::Nothing
            }
        }
    }
}


// ─── Credential prompts ──────────────────────────────────────────────────────

/// The last of the lines `ls` that holds something, trimmed.
pub open spec fn last_filled_line(ls: Seq<Seq<char>>) -> Option<Seq<char>>
    decreases ls.len(),
{
    if ls.len() == 0 {
        None
    } else if trim_ws(ls.last()).len() > 0 {
        Some(trim_ws(ls.last()))
    } else {
        last_filled_line(ls.drop_last())
    }
}

/// The prompt `ssh` shows when it asks for a credential: the last line of
/// the output that holds something, when (ignoring ASCII case) it asks for a
/// password or a key's passphrase.
pub open spec fn credential_prompt_spec(output: Seq<char>) -> Option<Seq<char>> {
    match last_filled_line(lines_seq(output)) {
        Some(l) => if spec_contains(ascii_lower_seq(l), "password"@) || spec_contains(
            ascii_lower_seq(l),
            "enter passphrase for key"@,
        ) {
            Some(l)
        } else {
            None
        },
        None => None,
    }
}

/// The credential prompt at the end of `output`, if `ssh` is asking for one.
pub fn credential_prompt(output: &str) -> (r: Option<String>)
    ensures
        opt_view(r) == credential_prompt_spec(output@),
{
    proof {
        reveal_strlit("password");
        reveal_strlit("enter passphrase for key");
    }
    let lines = lines_of(output);
    let ghost ls = views(lines@);
    let mut i: usize = lines.len();
    let mut found: Option<String> = None;
    assert(ls.take(i as int) =~= ls);
    while i > 0
        invariant_except_break
            i <= lines@.len(),
            ls == views(lines@),
            ls == lines_seq(output@),
            found is None,
            last_filled_line(ls) == last_filled_line(ls.take(i as int)),
        ensures
            ls == lines_seq(output@),
            opt_view(found) == last_filled_line(ls),
        decreases i,
    {
        let t = trim_str(lines[i - 1].as_str());
        assert(ls.take(i as int).last() == lines@[i - 1]@);
        assert(ls.take(i as int).drop_last() =~= ls.take(i - 1));
        if t.unicode_len() > 0 {
            found = Some(t);
            break;
        }
        i -= 1;
    }
    proof {
        if found is None {
            assert(ls.take(0) =~= Seq::<Seq<char>>::empty());
        }
    }
    match found {
        Some(l) => {
            let lower = string_from_chars(&ascii_lower_vec(&chars_of(l.as_str())));
            if str_contains(lower.as_str(), "password") || str_contains(lower.as_str(), "enter passphrase for key") {
                Some(l)
            } else {
                None
            }
        },
        None => None,
    }
}

/// What to type when `chunk` of a session's output asks for a credential:
/// `auth` and a newline, once (while `auth_sent` is false); nothing
/// otherwise.
pub fn credential_answer(chunk: &str, auth: Option<&str>, auth_sent: bool) -> (r: Option<String>)
    ensures
        match r {
            Some(t) => {
                &&& !auth_sent
                &&& credential_prompt_spec(chunk@) is Some
                &&& auth matches Some(a) && t@ == a@.push('\n')
            },
            None => auth_sent || auth is None || credential_prompt_spec(chunk@) is None,
        },
{
    if auth_sent {
        return None;
    }
    match auth {
        Some(a) => {
            if credential_prompt(chunk).is_some() {
                let mut t = String::from_str(a);
                push_char(&mut t, '\n');
                Some(t)
            } else {
                None
            }
        },
        None => None,
    }
}

// ─── Reading the whole menu ──────────────────────────────────────────────────

/// Reading the bastion's menu, every page of it, without opening a session.
pub struct MenuFetch {
    /// The pages read so far that ended at the menu's prompt.
    pub transcript: String,
    /// The output of the current page.
    pub page: String,
    /// The credential has been typed.
    pub auth_sent: bool,
}

/// What to do after a piece of the menu's output.
pub enum MenuAction {
    /// Read on.
    Wait,
    /// Type this text and read on.
    Send(String),
    /// A credential is asked for and none was given: stop with this message.
    AuthRequired(String),
    /// The last page has been read: the entries of all pages, or the error.
    Menu(Result<Vec<WallixMenuEntry>, WallixError>),
}

impl MenuFetch {
    pub fn new() -> (r: Self)
        ensures
            r.transcript@.len() == 0,
            r.page@.len() == 0,
            !r.auth_sent,
    {
        MenuFetch { transcript: String::new(), page: String::new(), auth_sent: false }
    }

    /// Takes `chunk` of the output. A credential prompt on the page, before
    /// any credential was typed, is answered with `auth` (the page starts
    /// over), or stops the reading when none was given. Otherwise nothing is
    /// done until the page ends at the menu's prompt; the page then joins the
    /// transcript, and the next page is asked for (`n`) while the page
    /// position shows one, else the menu is the entries of the transcript.
    pub fn on_output(&mut self, chunk: &str, auth: Option<&str>) -> (r: MenuAction)
        ensures
            ({
                let p = old(self).page@ + chunk@;
                if !old(self).auth_sent && credential_prompt_spec(p) is Some {
                    match auth {
                        Some(secret) => {
                            &&& r matches MenuAction::Send(t) && t@ == secret@.push('\n')
                            &&& final(self).auth_sent
                            &&& final(self).page@.len() == 0
                            &&& final(self).transcript == old(self).transcript
                        },
                        None => {
                            &&& r matches MenuAction::AuthRequired(m) && m@ == "SSH_AUTH_REQUIRED:"@
                                + credential_prompt_spec(p).unwrap()
                            &&& final(self).auth_sent == old(self).auth_sent
                            &&& final(self).page@ == p
                            &&& final(self).transcript == old(self).transcript
                        },
                    }
                } else if !spec_wallix_prompt(p) {
                    &&& r is Wait
                    &&& final(self).auth_sent == old(self).auth_sent
                    &&& final(self).page@ == p
                    &&& final(self).transcript == old(self).transcript
                } else {
                    let t = old(self).transcript@ + p;
                    &&& final(self).transcript@ == t
                    &&& final(self).auth_sent == old(self).auth_sent
                    &&& if spec_page_position(p) matches Some((c, n)) && c < n {
                        &&& r matches MenuAction::Send(x) && x@ == "n\n"@
                        &&& final(self).page@.len() == 0
                    } else {
                        &&& final(self).page@ == p
                        &&& r matches MenuAction::Menu(res) && match res {
                            Ok(v) => entries_view(v@) == menu_entries(t) && v@.len() > 0,
                            Err(e) => menu_entries(t).len() == 0 && e@ == WallixErrorView::NoEntries,
                        }
                    }
                }
            }),
    {
        push_str(&mut self.page, chunk);
        if !self.auth_sent {
            if let Some(prompt) = credential_prompt(self.page.as_str()) {
                match auth {
                    Some(secret) => {
                        let mut t = String::from_str(secret);
                        push_char(&mut t, '\n');
                        self.auth_sent = true;
                        self.page = String::new();
                        return MenuAction::Send(t);
                    },
                    None => {
                        let mut m = String::from_str("SSH_AUTH_REQUIRED:");
                        push_str(&mut m, prompt.as_str());
                        return MenuAction::AuthRequired(m);
                    },
                }
            }
        }
        if !contains_wallix_prompt(self.page.as_str()) {
            return MenuAction::Wait;
        }
        push_str(&mut self.transcript, self.page.as_str());
        match parse_wallix_page_position(self.page.as_str()) {
            Some((current, total)) => {
                if current < total {
                    self.page = String::new();
                    return MenuAction::Send(String::from_str("n\n"));
                }
            },
            None => {},
        }
        MenuAction::Menu(parse_wallix_menu(self.transcript.as_str()))
    }
}

} // verus!
