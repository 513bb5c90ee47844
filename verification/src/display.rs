//! The texts of the panels: what the screen shows of a server, a transfer,
//! a command's output, the search bar and the tree rows. Colors, layout and
//! drawing stay with the terminal; they take these texts as they are.
use vstd::prelude::*;
use crate::config::{opt_view, TunnelConfig, TunnelView};
use crate::forms::{CmdState, ConfigItem, ScpState};
use crate::ssh::ScpDirection;
use crate::tree::{
    contains_string, env_id, env_id_of, group_id, group_id_exec, items_view, ns_id, ns_id_exec,
    server_key_of, spec_server_key, ItemView,
};
use crate::tui::{same_data, same_overlays, same_screen, same_selection, same_tree, App};
use crate::i18n::{fmt, fmt_seq, str_views, Strings};
use crate::resolve::{ResolvedServer, ResolvedView};
use crate::text::{
    chars_of, decimal_seq, lines_of, lines_seq, string_from_chars, u64_to_string, views,
};

verus! {

// ─── Last connection ─────────────────────────────────────────────────────────

/// How long ago, in the largest whole unit: days (`N j`), hours (`N h`) or
/// minutes (`N min`).
pub open spec fn ago_seq(elapsed: nat) -> Seq<char> {
    let minutes = elapsed / 60;
    let hours = minutes / 60;
    let days = hours / 24;
    if days >= 1 {
        decimal_seq(days) + " j"@
    } else if hours >= 1 {
        decimal_seq(hours) + " h"@
    } else {
        decimal_seq(minutes) + " min"@
    }
}

/// The "last connection" text: never, just now (under a minute), or how
/// long ago. A time in the future counts as now.
pub open spec fn last_seen_seq(lang: Strings, last: Option<u64>, now: u64) -> Seq<char> {
    match last {
        None => lang.last_seen_never@,
        Some(ts) => {
            let elapsed: nat = if now >= ts {
                (now - ts) as nat
            } else {
                0
            };
            if elapsed < 60 {
                lang.last_seen_just_now@
            } else {
                fmt_seq(lang.last_seen_ago@, seq![ago_seq(elapsed)])
            }
        },
    }
}

/// How long ago `elapsed` seconds were, in the largest whole unit.
pub fn ago_text(elapsed: u64) -> (r: String)
    ensures
        r@ == ago_seq(elapsed as nat),
{
    let minutes = elapsed / 60;
    let hours = minutes / 60;
    let days = hours / 24;
    let (n, unit) = if days >= 1 {
        (days, " j")
    } else if hours >= 1 {
        (hours, " h")
    } else {
        (minutes, " min")
    };
    let mut r = u64_to_string(n);
    r.append(unit);
    proof {
        reveal_strlit(" j");
        reveal_strlit(" h");
        reveal_strlit(" min");
    }
    r
}

/// The "last connection" text of a server last reached at `last_seen`
/// (Unix seconds), seen at `now`.
pub fn last_seen_text(lang: &Strings, last_seen: Option<u64>, now: u64) -> (r: String)
    ensures
        r@ == last_seen_seq(*lang, last_seen, now),
{
    match last_seen {
        None => String::from_str(lang.last_seen_never),
        Some(ts) => {
            let elapsed: u64 = if now >= ts {
                now - ts
            } else {
                0
            };
            if elapsed < 60 {
                String::from_str(lang.last_seen_just_now)
            } else {
                let ago = ago_text(elapsed);
                let args = vec![ago.as_str()];
                assert(str_views(args@) =~= seq![ago_seq(elapsed as nat)]);
                fmt(lang.last_seen_ago, args.as_slice())
            }
        },
    }
}

// ─── Tunnels badge ───────────────────────────────────────────────────────────

/// `s` after a count above one.
pub open spec fn plural_seq(n: nat) -> Seq<char> {
    if n > 1 {
        "s"@
    } else {
        ""@
    }
}

fn plural(n: usize) -> (r: &'static str)
    ensures
        r@ == plural_seq(n as nat),
{
    proof {
        reveal_strlit("s");
        reveal_strlit("");
    }
    if n > 1 {
        "s"
    } else {
        ""
    }
}

/// The tunnels badge: none without configured tunnels; else how many run
/// out of how many are configured, or that none runs.
pub open spec fn tunnel_badge_seq(lang: Strings, configured: nat, running: nat) -> Option<Seq<char>> {
    if configured == 0 {
        None
    } else if running > 0 {
        Some(
            fmt_seq(
                lang.tunnel_badge_active@,
                seq![decimal_seq(running), plural_seq(running), decimal_seq(configured), plural_seq(configured)],
            ),
        )
    } else {
        Some(fmt_seq(lang.tunnel_badge_none@, seq![decimal_seq(configured), plural_seq(configured)]))
    }
}

/// The tunnels badge of a server with `configured` tunnels, `running` of
/// them running.
pub fn tunnel_badge_text(lang: &Strings, configured: usize, running: usize) -> (r: Option<String>)
    ensures
        opt_view(r) == tunnel_badge_seq(*lang, configured as nat, running as nat),
{
    if configured == 0 {
        return None;
    }
    let c = u64_to_string(configured as u64);
    if running > 0 {
        let n = u64_to_string(running as u64);
        let args = vec![n.as_str(), plural(running), c.as_str(), plural(configured)];
        assert(str_views(args@) =~= seq![
            decimal_seq(running as nat),
            plural_seq(running as nat),
            decimal_seq(configured as nat),
            plural_seq(configured as nat),
        ]);
        Some(fmt(lang.tunnel_badge_active, args.as_slice()))
    } else {
        let args = vec![c.as_str(), plural(configured)];
        assert(str_views(args@) =~= seq![decimal_seq(configured as nat), plural_seq(configured as nat)]);
        Some(fmt(lang.tunnel_badge_none, args.as_slice()))
    }
}

// ─── Server details ──────────────────────────────────────────────────────────

/// The Wallix line of the details: `user@host`, or the host alone.
pub open spec fn bastion_label_seq(s: ResolvedView) -> Option<Seq<char>> {
    match s.bastion_host {
        None => None,
        Some(h) => Some(
            match s.bastion_user {
                Some(u) => u + "@"@ + h,
                None => h,
            },
        ),
    }
}

/// The Wallix line of a server's details, when it has a bastion.
pub fn bastion_label(server: &ResolvedServer) -> (r: Option<String>)
    ensures
        opt_view(r) == bastion_label_seq(server@),
{
    match &server.bastion_host {
        None => None,
        Some(h) => match &server.bastion_user {
            Some(u) => {
                let mut r = u.clone();
                r.append("@");
                r.append(h.as_str());
                proof {
                    reveal_strlit("@");
                }
                Some(r)
            },
            None => Some(h.clone()),
        },
    }
}

// ─── Transfer progress ───────────────────────────────────────────────────────

/// Two digits, a zero in front of a single one.
pub open spec fn two_digits(n: nat) -> Seq<char> {
    if n < 10 {
        seq!['0'] + decimal_seq(n)
    } else {
        decimal_seq(n)
    }
}

/// The remaining time: `ETA 1h05m`, `ETA 3m07s` or `ETA 42s`.
pub open spec fn eta_seq(secs: nat) -> Seq<char> {
    if secs >= 3600 {
        "ETA "@ + decimal_seq(secs / 3600) + "h"@ + two_digits((secs % 3600) / 60) + "m"@
    } else if secs >= 60 {
        "ETA "@ + decimal_seq(secs / 60) + "m"@ + two_digits(secs % 60) + "s"@
    } else {
        "ETA "@ + decimal_seq(secs) + "s"@
    }
}

fn two_digits_text(n: u64) -> (r: String)
    ensures
        r@ == two_digits(n as nat),
{
    let d = u64_to_string(n);
    if n < 10 {
        let mut r = String::from_str("0");
        r.append(d.as_str());
        proof {
            reveal_strlit("0");
        }
        r
    } else {
        d
    }
}

/// The remaining time of a transfer, `secs` seconds.
pub fn eta_text(secs: u64) -> (r: String)
    ensures
        r@ == eta_seq(secs as nat),
{
    proof {
        reveal_strlit("ETA ");
        reveal_strlit("h");
        reveal_strlit("m");
        reveal_strlit("s");
    }
    let mut r = String::from_str("ETA ");
    if secs >= 3600 {
        r.append(u64_to_string(secs / 3600).as_str());
        r.append("h");
        r.append(two_digits_text((secs % 3600) / 60).as_str());
        r.append("m");
    } else if secs >= 60 {
        r.append(u64_to_string(secs / 60).as_str());
        r.append("m");
        r.append(two_digits_text(secs % 60).as_str());
        r.append("s");
    } else {
        r.append(u64_to_string(secs).as_str());
        r.append("s");
    }
    r
}

/// The filled cells of a bar `width` cells wide at `pct` percent.
pub fn bar_fill(pct: u8, width: usize) -> (r: usize)
    requires
        width * 255 <= usize::MAX,
    ensures
        r == (if pct as int * width as int / 100 <= width as int {
            pct as int * width as int / 100
        } else {
            width as int
        }),
{
    assert((pct as usize) * width <= width * 255) by (nonlinear_arith)
        requires
            pct <= 255,
    ;
    let f = (pct as usize) * width / 100;
    if f <= width {
        f
    } else {
        width
    }
}

/// How full a gauge is: below 60 %, below 85 %, or above.
#[derive(Debug, Clone, Copy, PartialEq, Eq, Structural)]
pub enum Level {
    Low,
    Medium,
    High,
}

/// The level of a gauge at `pct` percent.
pub fn level_of(pct: u8) -> (r: Level)
    ensures
        r == (if pct < 60 {
            Level::Low
        } else if pct < 85 {
            Level::Medium
        } else {
            Level::High
        }),
{
    if pct < 60 {
        Level::Low
    } else if pct < 85 {
        Level::Medium
    } else {
        Level::High
    }
}

/// The frames of the busy indicator.
pub open spec fn spinner_frames() -> Seq<char> {
    seq!['\u{280b}', '\u{2819}', '\u{2839}', '\u{2838}', '\u{283c}', '\u{2834}', '\u{2826}', '\u{2827}', '\u{2807}', '\u{280f}']
}

/// The frame of the busy indicator at `millis` into the second: one frame
/// per tenth of a second.
pub fn spinner_frame(millis: u32) -> (r: char)
    ensures
        r == spinner_frames()[((millis / 100) % 10) as int],
{
    let frames: [char; 10] = [
        '\u{280b}', '\u{2819}', '\u{2839}', '\u{2838}', '\u{283c}', '\u{2834}', '\u{2826}',
        '\u{2827}', '\u{2807}', '\u{280f}',
    ];
    let i = ((millis / 100) % 10) as usize;
    assert(frames@ =~= spinner_frames());
    frames[i]
}


// ─── Texts of several lines ──────────────────────────────────────────────────

/// The most lines of a command's output that the details show.
pub const OUTPUT_PREVIEW_LINES: usize = 20;

/// The first lines of a command's output, at most twenty, each indented by
/// two spaces.
pub fn output_preview(output: &str) -> (r: Vec<String>)
    ensures
        r@.len() == (if lines_seq(output@).len() < OUTPUT_PREVIEW_LINES {
            lines_seq(output@).len()
        } else {
            OUTPUT_PREVIEW_LINES as nat
        }),
        forall|i: int| 0 <= i < r@.len() ==> #[trigger] r@[i]@ == "  "@ + lines_seq(output@)[i],
{
    proof {
        reveal_strlit("  ");
    }
    let lines = lines_of(output);
    let limit: usize = if lines.len() < OUTPUT_PREVIEW_LINES {
        lines.len()
    } else {
        OUTPUT_PREVIEW_LINES
    };
    let mut r: Vec<String> = Vec::new();
    let mut i: usize = 0;
    while i < limit
        invariant
            views(lines@) == lines_seq(output@),
            limit <= lines@.len(),
            i <= limit,
            r@.len() == i,
            forall|k: int| 0 <= k < i ==> #[trigger] r@[k]@ == "  "@ + lines_seq(output@)[k],
        decreases limit - i,
    {
        let mut line = String::from_str("  ");
        line.append(lines[i].as_str());
        assert(lines@[i as int]@ == lines_seq(output@)[i as int]);
        r.push(line);
        i += 1;
    }
    r
}

/// `text` shortened from the left to `max_w` characters, an ellipsis in
/// front, so that the end (a file name) stays visible; unchanged when it
/// fits or when `max_w` leaves no room.
pub open spec fn fit_tail_seq(text: Seq<char>, max_w: nat) -> Seq<char> {
    if text.len() > max_w && max_w > 1 {
        seq!['\u{2026}'] + text.subrange(text.len() - (max_w - 1), text.len() as int)
    } else {
        text
    }
}

/// `text` cut from the left to fit `max_w` characters.
pub fn fit_tail(text: &str, max_w: usize) -> (r: String)
    ensures
        r@ == fit_tail_seq(text@, max_w as nat),
{
    let cs = chars_of(text);
    let n = cs.len();
    if n > max_w && max_w > 1 {
        let tail = crate::text::subvec(&cs, n - (max_w - 1), n);
        let mut v: Vec<char> = Vec::new();
        v.push('\u{2026}');
        let mut i: usize = 0;
        while i < tail.len()
            invariant
                i <= tail@.len(),
                v@ == seq!['\u{2026}'] + tail@.take(i as int),
            decreases tail@.len() - i,
        {
            v.push(tail[i]);
            assert(tail@.take(i + 1) =~= tail@.take(i as int).push(tail@[i as int]));
            i += 1;
        }
        assert(tail@.take(i as int) =~= tail@);
        string_from_chars(&v)
    } else {
        String::from_str(text)
    }
}

/// A shortened text fits its width and keeps the end of the text: the last
/// `max_w - 1` characters after the ellipsis.
pub proof fn lemma_fit_tail_keeps_end(text: Seq<char>, max_w: nat)
    requires
        max_w > 1,
    ensures
        text.len() > max_w ==> fit_tail_seq(text, max_w).len() == max_w && fit_tail_seq(text, max_w).drop_first()
            == text.subrange(text.len() - (max_w - 1), text.len() as int),
        text.len() <= max_w ==> fit_tail_seq(text, max_w) == text,
{
    if text.len() > max_w {
        assert((seq!['\u{2026}'] + text.subrange(text.len() - (max_w - 1), text.len() as int)).drop_first()
            =~= text.subrange(text.len() - (max_w - 1), text.len() as int));
    }
}

// ─── Tunnels overlay ─────────────────────────────────────────────────────────

/// The name of a tunnel in the overlay: its label, or `host:port` without one.
pub open spec fn tunnel_name_seq(t: TunnelView) -> Seq<char> {
    if t.label.len() == 0 {
        t.remote_host + ":"@ + decimal_seq(t.remote_port as nat)
    } else {
        t.label
    }
}

/// The route of a tunnel: `localhost:LOCAL → HOST:PORT`.
pub open spec fn tunnel_route_seq(t: TunnelView) -> Seq<char> {
    "localhost:"@ + decimal_seq(t.local_port as nat) + " \u{2192} "@ + t.remote_host + ":"@
        + decimal_seq(t.remote_port as nat)
}

/// The name and the route of a tunnel, as its overlay row shows them.
pub fn tunnel_row_text(t: &TunnelConfig) -> (r: (String, String))
    ensures
        r.0@ == tunnel_name_seq(t@),
        r.1@ == tunnel_route_seq(t@),
{
    proof {
        reveal_strlit(":");
        reveal_strlit("localhost:");
        reveal_strlit(" \u{2192} ");
    }
    let remote = u64_to_string(t.remote_port as u64);
    let name = if t.label.unicode_len() == 0 {
        let mut n = t.remote_host.clone();
        n.append(":");
        n.append(remote.as_str());
        n
    } else {
        t.label.clone()
    };
    let mut route = String::from_str("localhost:");
    route.append(u64_to_string(t.local_port as u64).as_str());
    route.append(" \u{2192} ");
    route.append(t.remote_host.as_str());
    route.append(":");
    route.append(remote.as_str());
    (name, route)
}

// ─── Search bar ──────────────────────────────────────────────────────────────

/// The number of server rows.
pub open spec fn count_servers(rows: Seq<ItemView>) -> nat
    decreases rows.len(),
{
    if rows.len() == 0 {
        0
    } else {
        count_servers(rows.drop_last()) + (if rows.last() is Server {
            1nat
        } else {
            0nat
        })
    }
}

/// What the search bar shows: its text, its title, and whether it reports
/// the result of a finished search (then `count` servers matched).
pub struct SearchBar {
    pub text: String,
    pub title: String,
    pub results: bool,
    pub count: usize,
}

/// The text of the search bar: the query with a cursor while typing (or a
/// placeholder before the first character), the query once the search is
/// done, a hint without a query.
pub open spec fn search_text_seq(lang: Strings, searching: bool, query: Seq<char>) -> Seq<char> {
    if searching {
        if query.len() == 0 {
            "\u{2502}  "@ + lang.search_placeholder@
        } else {
            query + "\u{2502}"@
        }
    } else if query.len() == 0 {
        lang.search_idle_hint@
    } else {
        query
    }
}

/// The title of the search bar, by how many of the `total` servers the
/// `count` shown rows hold.
pub open spec fn search_title_seq(lang: Strings, searching: bool, query: Seq<char>, count: nat, total: nat) -> Seq<char> {
    if searching {
        if query.len() == 0 {
            fmt_seq(lang.search_title_active@, seq![decimal_seq(total)])
        } else if count == 0 {
            fmt_seq(lang.search_no_results@, seq![query])
        } else if count == total {
            fmt_seq(lang.search_all_match@, seq![decimal_seq(count)])
        } else {
            fmt_seq(lang.search_partial@, seq![decimal_seq(count), decimal_seq(total)])
        }
    } else if query.len() == 0 {
        lang.search_title_idle@
    } else if count == total {
        fmt_seq(lang.search_result_all@, seq![decimal_seq(count)])
    } else {
        fmt_seq(lang.search_result_partial@, seq![decimal_seq(count), decimal_seq(total), query])
    }
}

fn search_title(lang: &Strings, searching: bool, query: &str, count: usize, total: usize) -> (r: String)
    ensures
        r@ == search_title_seq(*lang, searching, query@, count as nat, total as nat),
{
    let c = u64_to_string(count as u64);
    let t = u64_to_string(total as u64);
    let empty = query.unicode_len() == 0;
    if searching {
        if empty {
            let args = vec![t.as_str()];
            assert(str_views(args@) =~= seq![decimal_seq(total as nat)]);
            fmt(lang.search_title_active, args.as_slice())
        } else if count == 0 {
            let args = vec![query];
            assert(str_views(args@) =~= seq![query@]);
            fmt(lang.search_no_results, args.as_slice())
        } else if count == total {
            let args = vec![c.as_str()];
            assert(str_views(args@) =~= seq![decimal_seq(count as nat)]);
            fmt(lang.search_all_match, args.as_slice())
        } else {
            let args = vec![c.as_str(), t.as_str()];
            assert(str_views(args@) =~= seq![decimal_seq(count as nat), decimal_seq(total as nat)]);
            fmt(lang.search_partial, args.as_slice())
        }
    } else if empty {
        String::from_str(lang.search_title_idle)
    } else if count == total {
        let args = vec![c.as_str()];
        assert(str_views(args@) =~= seq![decimal_seq(count as nat)]);
        fmt(lang.search_result_all, args.as_slice())
    } else {
        let args = vec![c.as_str(), t.as_str(), query];
        assert(str_views(args@) =~= seq![decimal_seq(count as nat), decimal_seq(total as nat), query@]);
        fmt(lang.search_result_partial, args.as_slice())
    }
}

fn search_text(lang: &Strings, searching: bool, query: &str) -> (r: String)
    ensures
        r@ == search_text_seq(*lang, searching, query@),
{
    proof {
        reveal_strlit("\u{2502}  ");
        reveal_strlit("\u{2502}");
    }
    let empty = query.unicode_len() == 0;
    if searching {
        if empty {
            let mut r = String::from_str("\u{2502}  ");
            r.append(lang.search_placeholder);
            r
        } else {
            let mut r = String::from_str(query);
            r.append("\u{2502}");
            r
        }
    } else if empty {
        String::from_str(lang.search_idle_hint)
    } else {
        String::from_str(query)
    }
}

fn count_server_items(items: &Vec<ConfigItem>) -> (r: usize)
    ensures
        r == count_servers(items_view(items@)),
{
    let mut n: usize = 0;
    let mut i: usize = 0;
    while i < items.len()
        invariant
            i <= items@.len(),
            n == count_servers(items_view(items@).take(i as int)),
            n <= i,
        decreases items@.len() - i,
    {
        assert(items_view(items@).take(i + 1).drop_last() =~= items_view(items@).take(i as int));
        if let ConfigItem::Server(_) = &items[i] {
            n += 1;
        }
        i += 1;
    }
    assert(items_view(items@).take(i as int) =~= items_view(items@));
    n
}

impl App {
    /// What the search bar shows, counting the server rows now listed.
    pub fn search_bar(&mut self) -> (r: SearchBar)
        ensures
            r.count == count_servers(final(self).shown()),
            r.text@ == search_text_seq(old(self).lang, old(self).is_searching, old(self).search_query@),
            r.title@ == search_title_seq(
                old(self).lang,
                old(self).is_searching,
                old(self).search_query@,
                r.count as nat,
                old(self).resolved_servers@.len(),
            ),
            r.results == (!old(self).is_searching && old(self).search_query@.len() > 0),
            old(self).shown_ok(final(self).shown()),
            !final(self).items_dirty,
            same_tree(*final(self), *old(self)),
            same_screen(*final(self), *old(self)),
            same_data(*final(self), *old(self)),
            same_overlays(*final(self), *old(self)),
            same_selection(*final(self), *old(self)),
    {
        let items = self.get_visible_items();
        let count = count_server_items(&items);
        let searching = self.is_searching;
        let text = search_text(&self.lang, searching, self.search_query.as_str());
        let title = search_title(
            &self.lang,
            searching,
            self.search_query.as_str(),
            count,
            self.resolved_servers.len(),
        );
        let results = !searching && self.search_query.unicode_len() > 0;
        SearchBar { text, title, results, count }
    }
}

// ─── Tree rows ───────────────────────────────────────────────────────────────

/// A header shows itself open when expanded or while a query filters.
pub open spec fn shows_open(a: App, id: Seq<char>) -> bool {
    views(a.expanded_items@).contains(id) || a.search_query@.len() > 0
}

/// The indentation of a server row, by the levels above it.
pub open spec fn server_indent(r: ResolvedView) -> Seq<char> {
    let depth: nat = (if r.namespace.len() > 0 { 1nat } else { 0nat }) + (if r.group_name.len() > 0 {
        1nat + (if r.env_name.len() > 0 { 1nat } else { 0nat })
    } else {
        0nat
    });
    if depth == 0 {
        ""@
    } else if depth == 1 {
        "  "@
    } else if depth == 2 {
        "    "@
    } else {
        "      "@
    }
}

/// How a row of the tree reads: its indentation, its icon and name, and
/// whether it is a favorite server.
pub open spec fn tree_line_seq(a: App, i: ItemView) -> (Seq<char>, Seq<char>, bool) {
    match i {
        ItemView::Namespace(l) => (
            ""@,
            (if shows_open(a, ns_id(l)) { "\u{1f4e6}"@ } else { "\u{1f4eb}"@ }) + " "@ + l,
            false,
        ),
        ItemView::Group(g, ns) => (
            (if ns.len() == 0 { ""@ } else { "  "@ }),
            (if shows_open(a, group_id(ns.len() > 0, ns, g)) { "\u{1f4c2}"@ } else { "\u{1f4c1}"@ }) + " "@ + g,
            false,
        ),
        ItemView::Environment(g, e, ns) => (
            (if ns.len() == 0 { "  "@ } else { "    "@ }),
            (if shows_open(a, env_id(ns.len() > 0, ns, g, e)) {
                "\u{1f329}\u{fe0f}"@
            } else {
                "\u{2601}\u{fe0f}"@
            }) + " "@ + e,
            false,
        ),
        ItemView::Server(r) => {
            let fav = views(a.favorites@).contains(spec_server_key(r));
            (server_indent(r), (if fav { "\u{2b50}"@ } else { "\u{1f5a5}\u{fe0f}"@ }) + " "@ + r.name, fav)
        },
    }
}

/// A row of the tree as text.
pub struct TreeLine {
    pub indent: &'static str,
    pub label: String,
    pub favorite: bool,
}

fn icon_label(icon: &str, name: &str) -> (r: String)
    ensures
        r@ == icon@ + " "@ + name@,
{
    proof {
        reveal_strlit(" ");
    }
    let mut r = String::from_str(icon);
    r.append(" ");
    r.append(name);
    r
}

fn server_indent_text(r: &ResolvedServer) -> (s: &'static str)
    ensures
        s@ == server_indent(r@),
{
    proof {
        reveal_strlit("");
        reveal_strlit("  ");
        reveal_strlit("    ");
        reveal_strlit("      ");
    }
    let mut depth: usize = 0;
    if r.namespace.unicode_len() > 0 {
        depth += 1;
    }
    if r.group_name.unicode_len() > 0 {
        depth += 1;
        if r.env_name.unicode_len() > 0 {
            depth += 1;
        }
    }
    if depth == 0 {
        ""
    } else if depth == 1 {
        "  "
    } else if depth == 2 {
        "    "
    } else {
        "      "
    }
}

impl App {
    fn shows_open_exec(&self, id: &str) -> (r: bool)
        ensures
            r == shows_open(*self, id@),
    {
        contains_string(&self.expanded_items, id) || self.search_query.unicode_len() > 0
    }

    /// How `item` reads in the tree.
    pub fn tree_line(&self, item: &ConfigItem) -> (r: TreeLine)
        ensures
            (r.indent@, r.label@, r.favorite) == tree_line_seq(*self, item@),
    {
        proof {
            reveal_strlit("");
            reveal_strlit("  ");
            reveal_strlit("    ");
        }
        match item {
            ConfigItem::Namespace(l) => {
                let open = self.shows_open_exec(ns_id_exec(l.as_str()).as_str());
                let icon = if open { "\u{1f4e6}" } else { "\u{1f4eb}" };
                TreeLine { indent: "", label: icon_label(icon, l.as_str()), favorite: false }
            },
            ConfigItem::Group(g, ns) => {
                let in_ns = ns.unicode_len() > 0;
                let open = self.shows_open_exec(group_id_exec(in_ns, ns.as_str(), g.as_str()).as_str());
                let icon = if open { "\u{1f4c2}" } else { "\u{1f4c1}" };
                let indent = if in_ns { "  " } else { "" };
                TreeLine { indent, label: icon_label(icon, g.as_str()), favorite: false }
            },
            ConfigItem::Environment(g, e, ns) => {
                let in_ns = ns.unicode_len() > 0;
                let open = self.shows_open_exec(env_id_of(in_ns, ns.as_str(), g.as_str(), e.as_str()).as_str());
                let icon = if open { "\u{1f329}\u{fe0f}" } else { "\u{2601}\u{fe0f}" };
                let indent = if in_ns { "    " } else { "  " };
                TreeLine { indent, label: icon_label(icon, e.as_str()), favorite: false }
            },
            ConfigItem::Server(s) => {
                let key = server_key_of(s);
                let fav = contains_string(&self.favorites, key.as_str());
                let icon = if fav { "\u{2b50}" } else { "\u{1f5a5}\u{fe0f}" };
                TreeLine { indent: server_indent_text(s), label: icon_label(icon, s.name.as_str()), favorite: fav }
            },
        }
    }
}

// ─── Status bar ──────────────────────────────────────────────────────────────

/// Which key hints the status bar lists: while typing a query, while a
/// query filters the list, or while browsing.
#[derive(Debug, Clone, Copy, PartialEq, Eq, Structural)]
pub enum HintSet {
    Searching,
    Filtered,
    Browsing,
}

/// What the status bar shows: the command being typed, a message, or the
/// key hints.
pub enum StatusLine {
    Prompt(String),
    Message(String),
    Hints(HintSet),
}

impl App {
    /// What the status bar shows now.
    pub fn status_line(&self) -> (r: StatusLine)
        ensures
            match self.cmd_state {
                CmdState::Prompting(buf) => r matches StatusLine::Prompt(p) && p@ == self.lang.cmd_prompt@ + " "@
                    + buf@ + "\u{2588}"@,
                _ => match self.status_message {
                    Some(m) => r matches StatusLine::Message(t) && t@ == m@,
                    None => r matches StatusLine::Hints(h) && h == (if self.is_searching {
                        HintSet::Searching
                    } else if self.search_query@.len() > 0 {
                        HintSet::Filtered
                    } else {
                        HintSet::Browsing
                    }),
                },
            },
    {
        proof {
            reveal_strlit(" ");
            reveal_strlit("\u{2588}");
        }
        if let CmdState::Prompting(buf) = &self.cmd_state {
            let mut p = String::from_str(self.lang.cmd_prompt);
            p.append(" ");
            p.append(buf.as_str());
            p.append("\u{2588}");
            return StatusLine::Prompt(p);
        }
        match &self.status_message {
            Some(m) => StatusLine::Message(m.clone()),
            None => {
                if self.is_searching {
                    StatusLine::Hints(HintSet::Searching)
                } else if self.search_query.unicode_len() > 0 {
                    StatusLine::Hints(HintSet::Filtered)
                } else {
                    StatusLine::Hints(HintSet::Browsing)
                }
            },
        }
    }
}


// ─── Transfer result ─────────────────────────────────────────────────────────

impl App {
    /// The result of the last transfer, when one is shown: whether it
    /// succeeded, and the message.
    pub fn scp_result_text(&self) -> (r: Option<(bool, String)>)
        ensures
            match self.scp_state {
                ScpState::Done { direction, exit_ok } => r matches Some((ok, m)) && ok == exit_ok && m@
                    == fmt_seq(
                    (if exit_ok {
                        self.lang.scp_result_success@
                    } else {
                        self.lang.scp_result_errors@
                    }),
                    seq![direction_label_seq(direction)],
                ),
                ScpState::Error(e) => r matches Some((ok, m)) && !ok && m@ == fmt_seq(
                    self.lang.scp_result_fail@,
                    seq![e@],
                ),
                _ => r is None,
            },
    {
        match &self.scp_state {
            ScpState::Done { direction, exit_ok } => {
                let label = direction.label();
                let args = vec![label];
                assert(str_views(args@) =~= seq![direction_label_seq(*direction)]);
                let template = if *exit_ok {
                    self.lang.scp_result_success
                } else {
                    self.lang.scp_result_errors
                };
                Some((*exit_ok, fmt(template, args.as_slice())))
            },
            ScpState::Error(e) => {
                let args = vec![e.as_str()];
                assert(str_views(args@) =~= seq![e@]);
                Some((false, fmt(self.lang.scp_result_fail, args.as_slice())))
            },
            _ => None,
        }
    }
}

/// The label of a transfer direction.
pub open spec fn direction_label_seq(d: ScpDirection) -> Seq<char> {
    match d {
        ScpDirection::Upload => "Upload"@,
        ScpDirection::Download => "Download"@,
    }
}

} // verus!
