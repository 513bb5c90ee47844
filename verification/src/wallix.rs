//! The Wallix bastion menu: parsing its entries and choosing the one that
//! matches a server by target (`user@account@host:protocol`) and by
//! authorization group.
use vstd::prelude::*;
use crate::resolve::ResolvedServer;
use crate::text::{
    chars_of, contains_char, eq_seq, is_ascii_digit, spec_is_ascii_digit,
    split_char, split_char_seq, string_from_chars, trim_vec, trim_ws, vviews, views,
};
use vstd::string::StringExecFns;
use crate::config::append_missing;

verus! {

/// One entry of the Wallix menu.
#[derive(Debug, PartialEq, Eq)]
pub struct WallixMenuEntry {
    /// Entry number, as shown (leading zeros kept).
    pub id: String,
    /// Target, `user@account@host:protocol`.
    pub target: String,
    /// Authorization group.
    pub group: String,
}

pub struct EntryView {
    pub id: Seq<char>,
    pub target: Seq<char>,
    pub group: Seq<char>,
}

impl View for WallixMenuEntry {
    type V = EntryView;

    open spec fn view(&self) -> EntryView {
        EntryView { id: self.id@, target: self.target@, group: self.group@ }
    }
}

impl Clone for WallixMenuEntry {
    fn clone(&self) -> (r: Self)
        ensures
            r@ == self@,
    {
        WallixMenuEntry { id: self.id.clone(), target: self.target.clone(), group: self.group.clone() }
    }
}

pub open spec fn entries_view(v: Seq<WallixMenuEntry>) -> Seq<EntryView> {
    v.map_values(|e: WallixMenuEntry| e@)
}

/// Why no entry could be chosen.
#[derive(Debug, Clone, PartialEq, Eq)]
pub enum WallixError {
    /// The menu holds no entry.
    NoEntries,
    /// No entry has the expected target; the targets of the menu.
    TargetNotFound { target: String, available: Vec<String> },
    /// Entries have the target but none the group; their groups.
    GroupNotFound { target: String, group: String, available: Vec<String> },
    /// Several entries have the target and the group.
    Ambiguous { count: usize, target: String, group: String },
    /// Several entries have the target and a group ending with the configured one.
    AmbiguousSuffix { count: usize, target: String, group: String },
    /// Entries have one of the expected targets but none a matching group;
    /// the groups of those entries.
    GroupNotFoundForTargets { group: String, available: Vec<String> },
    /// The server has no Wallix group configured.
    GroupNotConfigured { server: String },
}

pub enum WallixErrorView {
    NoEntries,
    TargetNotFound { target: Seq<char>, available: Seq<Seq<char>> },
    GroupNotFound { target: Seq<char>, group: Seq<char>, available: Seq<Seq<char>> },
    Ambiguous { count: usize, target: Seq<char>, group: Seq<char> },
    AmbiguousSuffix { count: usize, target: Seq<char>, group: Seq<char> },
    GroupNotFoundForTargets { group: Seq<char>, available: Seq<Seq<char>> },
    GroupNotConfigured { server: Seq<char> },
}

impl View for WallixError {
    type V = WallixErrorView;

    open spec fn view(&self) -> WallixErrorView {
        match self {
            WallixError::NoEntries => WallixErrorView::NoEntries,
            WallixError::TargetNotFound { target, available } => WallixErrorView::TargetNotFound {
                target: target@,
                available: views(available@),
            },
            WallixError::GroupNotFound { target, group, available } =>
                WallixErrorView::GroupNotFound {
                target: target@,
                group: group@,
                available: views(available@),
            },
            WallixError::Ambiguous { count, target, group } => WallixErrorView::Ambiguous {
                count: *count,
                target: target@,
                group: group@,
            },
            WallixError::AmbiguousSuffix { count, target, group } =>
                WallixErrorView::AmbiguousSuffix { count: *count, target: target@, group: group@ },
            WallixError::GroupNotFoundForTargets { group, available } =>
                WallixErrorView::GroupNotFoundForTargets {
                group: group@,
                available: views(available@),
            },
            WallixError::GroupNotConfigured { server } => WallixErrorView::GroupNotConfigured {
                server: server@,
            },
        }
    }
}

/// `items` joined by `sep`.
pub open spec fn join_seq(items: Seq<Seq<char>>, sep: Seq<char>) -> Seq<char>
    decreases items.len(),
{
    if items.len() == 0 {
        seq![]
    } else if items.len() == 1 {
        items[0]
    } else {
        join_seq(items.drop_last(), sep) + sep + items.last()
    }
}

pub fn join_strings(items: &Vec<String>, sep: &str) -> (r: String)
    ensures
        r@ == join_seq(views(items@), sep@),
{
    let ghost iv = views(items@);
    let mut r = String::new();
    let mut i: usize = 0;
    while i < items.len()
        invariant
            i <= items@.len(),
            iv == views(items@),
            r@ == join_seq(iv.take(i as int), sep@),
        decreases items@.len() - i,
    {
        assert(iv.take(i + 1).drop_last() =~= iv.take(i as int));
        let ghost before = r@;
        if i > 0 {
            r.append(sep);
        }
        r.append(items[i].as_str());
        proof {
            if i == 0 {
                assert(iv.take(1)[0] == iv[0]);
                assert(r@ =~= iv[0]);
            } else {
                assert(r@ =~= before + sep@ + iv[i as int]);
            }
        }
        i += 1;
    }
    assert(iv.take(i as int) =~= iv);
    r
}

/// The text of an error, as shown to the user.
pub open spec fn error_message(e: WallixErrorView) -> Seq<char> {
    match e {
        WallixErrorView::NoEntries => "No valid menu entries found in Wallix output"@,
        WallixErrorView::TargetNotFound { target, available } => "No menu entry found with target '"@
            + target + "'. Available targets: "@ + join_seq(available, ", "@),
        WallixErrorView::GroupNotFound { target, group, available } =>
            "No menu entry found for target '"@ + target + "' with group '"@ + group
            + "'. Available groups for this target: "@ + join_seq(available, ", "@),
        WallixErrorView::Ambiguous { count, target, group } => "Multiple menu entries ("@
            + crate::text::decimal_seq(count as nat) + ") found for target '"@ + target
            + "' and group '"@ + group + "'. Cannot auto-select."@,
        WallixErrorView::AmbiguousSuffix { count, target, group } => "Multiple menu entries ("@
            + crate::text::decimal_seq(count as nat) + ") found for target '"@ + target
            + "' matching group suffix '"@ + group + "'. Cannot auto-select."@,
        WallixErrorView::GroupNotFoundForTargets { group, available } =>
            "No menu entry found for matching targets with group '"@ + group
            + "'. Available groups for these targets: "@ + join_seq(available, ", "@),
        WallixErrorView::GroupNotConfigured { server } => "wallix.group is not configured for server '"@
            + server + "'"@,
    }
}

impl WallixError {
    /// The text of the error, as shown to the user.
    pub fn message(&self) -> (r: String)
        ensures
            r@ == error_message(self@),
    {
        match self {
            WallixError::NoEntries => String::from_str("No valid menu entries found in Wallix output"),
            WallixError::TargetNotFound { target, available } => {
                let mut r = String::from_str("No menu entry found with target '");
                r.append(target.as_str());
                r.append("'. Available targets: ");
                let j = join_strings(available, ", ");
                r.append(j.as_str());
                r
            },
            WallixError::GroupNotFound { target, group, available } => {
                let mut r = String::from_str("No menu entry found for target '");
                r.append(target.as_str());
                r.append("' with group '");
                r.append(group.as_str());
                r.append("'. Available groups for this target: ");
                let j = join_strings(available, ", ");
                r.append(j.as_str());
                r
            },
            WallixError::Ambiguous { count, target, group } => {
                let mut r = String::from_str("Multiple menu entries (");
                let n = crate::text::u64_to_string(*count as u64);
                r.append(n.as_str());
                r.append(") found for target '");
                r.append(target.as_str());
                r.append("' and group '");
                r.append(group.as_str());
                r.append("'. Cannot auto-select.");
                r
            },
            WallixError::AmbiguousSuffix { count, target, group } => {
                let mut r = String::from_str("Multiple menu entries (");
                let n = crate::text::u64_to_string(*count as u64);
                r.append(n.as_str());
                r.append(") found for target '");
                r.append(target.as_str());
                r.append("' matching group suffix '");
                r.append(group.as_str());
                r.append("'. Cannot auto-select.");
                r
            },
            WallixError::GroupNotFoundForTargets { group, available } => {
                let mut r = String::from_str("No menu entry found for matching targets with group '");
                r.append(group.as_str());
                r.append("'. Available groups for these targets: ");
                let j = join_strings(available, ", ");
                r.append(j.as_str());
                r
            },
            WallixError::GroupNotConfigured { server } => {
                let mut r = String::from_str("wallix.group is not configured for server '");
                r.append(server.as_str());
                r.append("'");
                r
            },
        }
    }
}

// ─── Parsing the menu ────────────────────────────────────────────────────────

/// Box-drawing and ASCII frame characters of the menu's separator lines.
pub open spec fn is_frame_char(c: char) -> bool {
    c == '─' || c == '┼' || c == '│' || c == '-' || c == '+'
}

pub open spec fn all_frame_chars(s: Seq<char>) -> bool {
    forall|i: int| 0 <= i < s.len() ==> is_frame_char(#[trigger] s[i])
}

/// The pieces, trimmed, without the empty ones.
pub open spec fn nonempty_trimmed(pieces: Seq<Seq<char>>) -> Seq<Seq<char>>
    decreases pieces.len(),
{
    if pieces.len() == 0 {
        seq![]
    } else {
        let r = nonempty_trimmed(pieces.drop_last());
        let t = trim_ws(pieces.last());
        if t.len() > 0 {
            r.push(t)
        } else {
            r
        }
    }
}

pub open spec fn all_ascii_digits(s: Seq<char>) -> bool {
    forall|i: int| 0 <= i < s.len() ==> spec_is_ascii_digit(#[trigger] s[i])
}

/// The cells of the menu's header row: `ID`, `Cible`, `Autorisation`; a row
/// is the header when one of its first three cells is the header's cell of
/// that column.
pub open spec fn is_header_row(cols: Seq<Seq<char>>) -> bool {
    cols.len() >= 3 && (cols[0] == "ID"@ || cols[1] == "Cible"@ || cols[2] == "Autorisation"@)
}

/// The entry that a line of the menu holds, if any: header, separator and
/// empty lines hold none; the columns are split on `│` (or on `|`), and an
/// entry needs a numeric ID, a target and a group.
pub open spec fn menu_line_entry(line: Seq<char>) -> Option<EntryView> {
    let t = trim_ws(line);
    if t.len() == 0 || all_frame_chars(t) {
        None
    } else {
        let sep = if t.contains('│') {
            Some('│')
        } else if t.contains('|') {
            Some('|')
        } else {
            None
        };
        match sep {
            None => None,
            Some(c) => {
                let cols = nonempty_trimmed(split_char_seq(t, c));
                if cols.len() >= 3 && !is_header_row(cols) && all_ascii_digits(cols[0]) {
                    Some(EntryView { id: cols[0], target: cols[1], group: cols[2] })
                } else {
                    None
                }
            },
        }
    }
}

/// The entries of the lines, in order.
pub open spec fn entries_of_lines(lines: Seq<Seq<char>>) -> Seq<EntryView>
    decreases lines.len(),
{
    if lines.len() == 0 {
        seq![]
    } else {
        let r = entries_of_lines(lines.drop_last());
        match menu_line_entry(lines.last()) {
            Some(e) => r.push(e),
            None => r,
        }
    }
}

/// The entries of a menu output. Lines are split at `\n`; a `\r` before it
/// and a last empty line are of no account, since every line is trimmed and
/// empty lines hold no entry.
pub open spec fn menu_entries(output: Seq<char>) -> Seq<EntryView> {
    entries_of_lines(split_char_seq(output, '\n'))
}

fn nonempty_trimmed_exec(pieces: &Vec<Vec<char>>) -> (r: Vec<Vec<char>>)
    ensures
        vviews(r@) == nonempty_trimmed(vviews(pieces@)),
{
    let ghost pv = vviews(pieces@);
    let mut r: Vec<Vec<char>> = Vec::new();
    let mut i: usize = 0;
    assert(vviews(r@) =~= Seq::<Seq<char>>::empty());
    while i < pieces.len()
        invariant
            i <= pieces@.len(),
            pv == vviews(pieces@),
            vviews(r@) == nonempty_trimmed(pv.take(i as int)),
        decreases pieces@.len() - i,
    {
        assert(pv.take(i + 1).drop_last() =~= pv.take(i as int));
        let t = trim_vec(&pieces[i]);
        if t.len() > 0 {
            let ghost before = vviews(r@);
            r.push(t);
            assert(vviews(r@) =~= before.push(t@));
        }
        i += 1;
    }
    assert(pv.take(i as int) =~= pv);
    r
}

fn all_frame_chars_exec(s: &Vec<char>) -> (r: bool)
    ensures
        r == all_frame_chars(s@),
{
    let mut i: usize = 0;
    while i < s.len()
        invariant
            i <= s@.len(),
            forall|k: int| 0 <= k < i ==> is_frame_char(#[trigger] s@[k]),
        decreases s@.len() - i,
    {
        let c = s[i];
        if !(c == '─' || c == '┼' || c == '│' || c == '-' || c == '+') {
            return false;
        }
        i += 1;
    }
    true
}

fn all_ascii_digits_exec(s: &Vec<char>) -> (r: bool)
    ensures
        r == all_ascii_digits(s@),
{
    let mut i: usize = 0;
    while i < s.len()
        invariant
            i <= s@.len(),
            forall|k: int| 0 <= k < i ==> spec_is_ascii_digit(#[trigger] s@[k]),
        decreases s@.len() - i,
    {
        if !is_ascii_digit(s[i]) {
            return false;
        }
        i += 1;
    }
    true
}

fn is_header_row_exec(cols: &Vec<Vec<char>>) -> (r: bool)
    requires
        cols@.len() >= 3,
    ensures
        r == is_header_row(vviews(cols@)),
{
    eq_seq(&cols[0], &chars_of("ID")) || eq_seq(&cols[1], &chars_of("Cible")) || eq_seq(
        &cols[2],
        &chars_of("Autorisation"),
    )
}

fn menu_line_entry_exec(line: &Vec<char>) -> (r: Option<WallixMenuEntry>)
    ensures
        match r {
            Some(e) => menu_line_entry(line@) == Some(e@),
            None => menu_line_entry(line@) is None,
        },
{
    let t = trim_vec(line);
    if t.len() == 0 || all_frame_chars_exec(&t) {
        return None;
    }
    let sep: char = if contains_char(&t, '│') {
        '│'
    } else if contains_char(&t, '|') {
        '|'
    } else {
        return None;
    };
    let pieces = split_char(&t, sep);
    let cols = nonempty_trimmed_exec(&pieces);
    if cols.len() >= 3 && !is_header_row_exec(&cols) && all_ascii_digits_exec(&cols[0]) {
        Some(
            WallixMenuEntry {
                id: string_from_chars(&cols[0]),
                target: string_from_chars(&cols[1]),
                group: string_from_chars(&cols[2]),
            },
        )
    } else {
        None
    }
}

/// Parses the menu that the bastion prints into its entries (ID, target,
/// group columns); fails when the output holds no entry.
pub fn parse_wallix_menu(output: &str) -> (r: Result<Vec<WallixMenuEntry>, WallixError>)
    ensures
        match r {
            Ok(v) => entries_view(v@) == menu_entries(output@) && v@.len() > 0,
            Err(e) => menu_entries(output@).len() == 0 && e@ == WallixErrorView::NoEntries,
        },
{
    let lines = split_char(&chars_of(output), '\n');
    let ghost lv = vviews(lines@);
    let mut entries: Vec<WallixMenuEntry> = Vec::new();
    let mut i: usize = 0;
    assert(entries_view(entries@) =~= Seq::<EntryView>::empty());
    while i < lines.len()
        invariant
            i <= lines@.len(),
            lv == vviews(lines@),
            lv == split_char_seq(output@, '\n'),
            entries_view(entries@) == entries_of_lines(lv.take(i as int)),
        decreases lines@.len() - i,
    {
        assert(lv.take(i + 1).drop_last() =~= lv.take(i as int));
        match menu_line_entry_exec(&lines[i]) {
            Some(e) => {
                let ghost before = entries_view(entries@);
                entries.push(e);
                assert(entries_view(entries@) =~= before.push(e@));
            },
            None => {},
        }
        i += 1;
    }
    assert(lv.take(i as int) =~= lv);
    if entries.len() == 0 {
        return Err(WallixError::NoEntries);
    }
    Ok(entries)
}

// ─── Choosing an entry by target and group ───────────────────────────────────

/// The entries whose target is `target`, in order.
pub open spec fn with_target(entries: Seq<EntryView>, target: Seq<char>) -> Seq<EntryView>
    decreases entries.len(),
{
    if entries.len() == 0 {
        seq![]
    } else {
        let r = with_target(entries.drop_last(), target);
        if entries.last().target == target {
            r.push(entries.last())
        } else {
            r
        }
    }
}

/// The entries whose group is `group`, in order.
pub open spec fn with_group(entries: Seq<EntryView>, group: Seq<char>) -> Seq<EntryView>
    decreases entries.len(),
{
    if entries.len() == 0 {
        seq![]
    } else {
        let r = with_group(entries.drop_last(), group);
        if entries.last().group == group {
            r.push(entries.last())
        } else {
            r
        }
    }
}

pub open spec fn targets_of(entries: Seq<EntryView>) -> Seq<Seq<char>> {
    entries.map_values(|e: EntryView| e.target)
}

pub open spec fn groups_of(entries: Seq<EntryView>) -> Seq<Seq<char>> {
    entries.map_values(|e: EntryView| e.group)
}

/// The entry with exactly `target` and `group`, when there is exactly one.
pub open spec fn spec_select_by_target_and_group(
    entries: Seq<EntryView>,
    target: Seq<char>,
    group: Seq<char>,
) -> Result<Seq<char>, WallixErrorView> {
    let tm = with_target(entries, target);
    if tm.len() == 0 {
        Err(WallixErrorView::TargetNotFound { target, available: targets_of(entries) })
    } else {
        let gm = with_group(tm, group);
        if gm.len() == 0 {
            Err(WallixErrorView::GroupNotFound { target, group, available: groups_of(tm) })
        } else if gm.len() == 1 {
            Ok(gm[0].id)
        } else {
            Err(WallixErrorView::Ambiguous { count: gm.len() as usize, target, group })
        }
    }
}

fn filter_target(entries: &Vec<WallixMenuEntry>, target: &str) -> (r: Vec<WallixMenuEntry>)
    ensures
        entries_view(r@) == with_target(entries_view(entries@), target@),
{
    let ghost ev = entries_view(entries@);
    let mut r: Vec<WallixMenuEntry> = Vec::new();
    let mut i: usize = 0;
    assert(entries_view(r@) =~= Seq::<EntryView>::empty());
    while i < entries.len()
        invariant
            i <= entries@.len(),
            ev == entries_view(entries@),
            entries_view(r@) == with_target(ev.take(i as int), target@),
        decreases entries@.len() - i,
    {
        assert(ev.take(i + 1).drop_last() =~= ev.take(i as int));
        if crate::text::str_eq(entries[i].target.as_str(), target) {
            let ghost before = entries_view(r@);
            let e = entries[i].clone();
            r.push(e);
            assert(entries_view(r@) =~= before.push(ev[i as int]));
        }
        i += 1;
    }
    assert(ev.take(i as int) =~= ev);
    r
}

fn filter_group(entries: &Vec<WallixMenuEntry>, group: &str) -> (r: Vec<WallixMenuEntry>)
    ensures
        entries_view(r@) == with_group(entries_view(entries@), group@),
{
    let ghost ev = entries_view(entries@);
    let mut r: Vec<WallixMenuEntry> = Vec::new();
    let mut i: usize = 0;
    assert(entries_view(r@) =~= Seq::<EntryView>::empty());
    while i < entries.len()
        invariant
            i <= entries@.len(),
            ev == entries_view(entries@),
            entries_view(r@) == with_group(ev.take(i as int), group@),
        decreases entries@.len() - i,
    {
        assert(ev.take(i + 1).drop_last() =~= ev.take(i as int));
        if crate::text::str_eq(entries[i].group.as_str(), group) {
            let ghost before = entries_view(r@);
            let e = entries[i].clone();
            r.push(e);
            assert(entries_view(r@) =~= before.push(ev[i as int]));
        }
        i += 1;
    }
    assert(ev.take(i as int) =~= ev);
    r
}

fn collect_targets(entries: &Vec<WallixMenuEntry>) -> (r: Vec<String>)
    ensures
        views(r@) == targets_of(entries_view(entries@)),
{
    let mut r: Vec<String> = Vec::new();
    let mut i: usize = 0;
    while i < entries.len()
        invariant
            i <= entries@.len(),
            views(r@) == targets_of(entries_view(entries@)).take(i as int),
        decreases entries@.len() - i,
    {
        let ghost before = views(r@);
        let x = entries[i].target.clone();
        r.push(x);
        assert(views(r@) =~= before.push(entries@[i as int].target@));
        assert(targets_of(entries_view(entries@)).take(i + 1) =~= targets_of(entries_view(entries@)).take(
            i as int,
        ).push(entries@[i as int].target@));
        i += 1;
    }
    assert(targets_of(entries_view(entries@)).take(i as int) =~= targets_of(entries_view(entries@)));
    r
}

fn collect_groups(entries: &Vec<WallixMenuEntry>) -> (r: Vec<String>)
    ensures
        views(r@) == groups_of(entries_view(entries@)),
{
    let mut r: Vec<String> = Vec::new();
    let mut i: usize = 0;
    while i < entries.len()
        invariant
            i <= entries@.len(),
            views(r@) == groups_of(entries_view(entries@)).take(i as int),
        decreases entries@.len() - i,
    {
        let ghost before = views(r@);
        let x = entries[i].group.clone();
        r.push(x);
        assert(views(r@) =~= before.push(entries@[i as int].group@));
        assert(groups_of(entries_view(entries@)).take(i + 1) =~= groups_of(entries_view(entries@)).take(
            i as int,
        ).push(entries@[i as int].group@));
        i += 1;
    }
    assert(groups_of(entries_view(entries@)).take(i as int) =~= groups_of(entries_view(entries@)));
    r
}

/// Chooses the entry with exactly `target` and `group`: fails when no entry
/// has the target, when none of those has the group, or when several do.
pub fn select_id_by_target_and_group(
    entries: &Vec<WallixMenuEntry>,
    target: &str,
    group: &str,
) -> (r: Result<String, WallixError>)
    ensures
        match r {
            Ok(id) => spec_select_by_target_and_group(entries_view(entries@), target@, group@)
                == Ok::<Seq<char>, WallixErrorView>(id@),
            Err(e) => spec_select_by_target_and_group(entries_view(entries@), target@, group@)
                == Err::<Seq<char>, WallixErrorView>(e@),
        },
{
    let tm = filter_target(entries, target);
    if tm.len() == 0 {
        return Err(
            WallixError::TargetNotFound {
                target: String::from_str(target),
                available: collect_targets(entries),
            },
        );
    }
    let gm = filter_group(&tm, group);
    if gm.len() == 0 {
        Err(
            WallixError::GroupNotFound {
                target: String::from_str(target),
                group: String::from_str(group),
                available: collect_groups(&tm),
            },
        )
    } else if gm.len() == 1 {
        Ok(gm[0].id.clone())
    } else {
        Err(
            WallixError::Ambiguous {
                count: gm.len(),
                target: String::from_str(target),
                group: String::from_str(group),
            },
        )
    }
}

/// `entry_group` is the configured group or ends with `_` and the
/// configured group (case-sensitive).
pub open spec fn spec_group_suffix_matches(entry_group: Seq<char>, configured: Seq<char>) -> bool {
    entry_group == configured || crate::text::spec_ends_with(entry_group, seq!['_'] + configured)
}

pub fn group_suffix_matches(entry_group: &str, configured_group: &str) -> (r: bool)
    ensures
        r == spec_group_suffix_matches(entry_group@, configured_group@),
{
    let mut suffix: Vec<char> = Vec::new();
    suffix.push('_');
    let c = chars_of(configured_group);
    let mut i: usize = 0;
    while i < c.len()
        invariant
            i <= c@.len(),
            suffix@ == seq!['_'] + c@.take(i as int),
        decreases c@.len() - i,
    {
        suffix.push(c[i]);
        i += 1;
        assert(suffix@ =~= seq!['_'] + c@.take(i as int));
    }
    assert(c@.take(i as int) =~= c@);
    crate::text::str_eq(entry_group, configured_group) || crate::text::ends_with_seq(
        &chars_of(entry_group),
        &suffix,
    )
}

// ─── Expected targets and groups of a server ─────────────────────────────────

/// Normalization state after reading `s`: the text so far and whether it
/// ends with a dash that stands for a run of other characters.
pub open spec fn norm_state(s: Seq<char>) -> (Seq<char>, bool)
    decreases s.len(),
{
    if s.len() == 0 {
        (seq![], false)
    } else {
        let (o, dash) = norm_state(s.drop_last());
        let c = s.last();
        if crate::text::spec_is_ascii_alphanumeric(c) {
            (o.push(crate::text::spec_to_ascii_upper(c)), false)
        } else if !dash {
            (o.push('-'), true)
        } else {
            (o, dash)
        }
    }
}

/// A name as Wallix writes it: trimmed, ASCII letters and digits in upper
/// case, each run of other characters as one `-`, no `-` at either end.
pub open spec fn normalize_seq(v: Seq<char>) -> Seq<char> {
    crate::text::trim_char(norm_state(trim_ws(v)).0, '-')
}

fn normalize_vec(value: &Vec<char>) -> (r: Vec<char>)
    ensures
        r@ == normalize_seq(value@),
{
    let t = trim_vec(value);
    let mut out: Vec<char> = Vec::new();
    let mut dash = false;
    let mut i: usize = 0;
    while i < t.len()
        invariant
            i <= t@.len(),
            (out@, dash) == norm_state(t@.take(i as int)),
        decreases t@.len() - i,
    {
        assert(t@.take(i + 1).drop_last() =~= t@.take(i as int));
        let c = t[i];
        if crate::text::is_ascii_alphanumeric(c) {
            out.push(crate::text::to_ascii_upper(c));
            dash = false;
        } else if !dash {
            out.push('-');
            dash = true;
        }
        i += 1;
    }
    assert(t@.take(i as int) =~= t@);
    crate::text::trim_char_vec(&out, '-')
}

/// `user@account@host:protocol`.
pub open spec fn target_seq(
    user: Seq<char>,
    account: Seq<char>,
    host: Seq<char>,
    protocol: Seq<char>,
) -> Seq<char> {
    user + seq!['@'] + account + seq!['@'] + host + seq![':'] + protocol
}

fn target_string(user: &str, account: &str, host: &str, protocol: &str) -> (r: String)
    ensures
        r@ == target_seq(user@, account@, host@, protocol@),
{
    let mut r = String::from_str(user);
    crate::text::push_char(&mut r, '@');
    r.append(account);
    crate::text::push_char(&mut r, '@');
    r.append(host);
    crate::text::push_char(&mut r, ':');
    r.append(protocol);
    r
}

/// The Wallix target of a server: `user@account@host:protocol`.
pub fn build_expected_target(server: &ResolvedServer) -> (r: String)
    ensures
        r@ == target_seq(server.user@, server.wallix_account@, server.host@, server.wallix_protocol@),
{
    target_string(
        server.user.as_str(),
        server.wallix_account.as_str(),
        server.host.as_str(),
        server.wallix_protocol.as_str(),
    )
}

/// The part of `s` before the first `c` (all of `s` without one).
pub open spec fn before_first(s: Seq<char>, c: char) -> Seq<char> {
    split_char_seq(s, c)[0]
}

/// The part of `s` after the last `c` (all of `s` without one).
pub open spec fn after_last(s: Seq<char>, c: char) -> Seq<char> {
    split_char_seq(s, c).last()
}

/// The leading characters of `s` that are not ASCII digits.
pub open spec fn non_digit_prefix(s: Seq<char>) -> Seq<char>
    decreases s.len(),
{
    if s.len() == 0 || spec_is_ascii_digit(s[0]) {
        seq![]
    } else {
        seq![s[0]] + non_digit_prefix(s.drop_first())
    }
}

/// The role that a short role key stands for in Wallix names.
pub open spec fn role_of_key(k: Seq<char>) -> Option<Seq<char>> {
    if k == "bdd"@ || k == "bd"@ || k == "db"@ {
        Some("BD"@)
    } else if k == "apps"@ || k == "app"@ || k == "appli"@ {
        Some("APPLI"@)
    } else if k == "adm"@ || k == "admin"@ {
        Some("ADMIN"@)
    } else if k == "web"@ {
        Some("WEB"@)
    } else if k == "kafka"@ {
        Some("KAFKA"@)
    } else if k == "els"@ {
        Some("ELS"@)
    } else if k == "mig"@ {
        Some("MIG"@)
    } else if k == "idp"@ {
        Some("IDP"@)
    } else if k == "frt"@ || k == "frtrac"@ {
        Some("FRTRAC"@)
    } else if k.len() > 0 {
        Some(normalize_seq(k))
    } else {
        None
    }
}

/// The role of a server, from the letters that start its name (or, when
/// the name is blank, the last `-` part of its host's first label).
pub open spec fn spec_infer_role(name: Seq<char>, host: Seq<char>) -> Option<Seq<char>> {
    let first_label = before_first(host, '.');
    let last_token = after_last(first_label, '-');
    let source = if trim_ws(name).len() > 0 {
        name
    } else {
        last_token
    };
    role_of_key(crate::text::ascii_lower_seq(non_digit_prefix(source)))
}

fn non_digit_prefix_vec(s: &Vec<char>) -> (r: Vec<char>)
    ensures
        r@ == non_digit_prefix(s@),
{
    let mut r: Vec<char> = Vec::new();
    let mut i: usize = 0;
    assert(s@.skip(0) =~= s@);
    while i < s.len() && !is_ascii_digit(s[i])
        invariant
            i <= s@.len(),
            non_digit_prefix(s@) == r@ + non_digit_prefix(s@.skip(i as int)),
        decreases s@.len() - i,
    {
        assert(s@.skip(i as int).drop_first() =~= s@.skip(i + 1));
        let ghost before = r@;
        r.push(s[i]);
        assert(before + (seq![s@[i as int]] + non_digit_prefix(s@.skip(i + 1))) =~= r@
            + non_digit_prefix(s@.skip(i + 1)));
        i += 1;
    }
    assert(non_digit_prefix(s@.skip(i as int)) =~= Seq::<char>::empty());
    assert(r@ + Seq::<char>::empty() =~= r@);
    r
}

fn key_is(k: &Vec<char>, lit: &str) -> (r: bool)
    ensures
        r == (k@ == lit@),
{
    crate::text::eq_seq(k, &chars_of(lit))
}

fn role_of_key_exec(k: &Vec<char>) -> (r: Option<String>)
    ensures
        opt_view_s(r) == role_of_key(k@),
{
    if key_is(k, "bdd") || key_is(k, "bd") || key_is(k, "db") {
        Some(String::from_str("BD"))
    } else if key_is(k, "apps") || key_is(k, "app") || key_is(k, "appli") {
        Some(String::from_str("APPLI"))
    } else if key_is(k, "adm") || key_is(k, "admin") {
        Some(String::from_str("ADMIN"))
    } else if key_is(k, "web") {
        Some(String::from_str("WEB"))
    } else if key_is(k, "kafka") {
        Some(String::from_str("KAFKA"))
    } else if key_is(k, "els") {
        Some(String::from_str("ELS"))
    } else if key_is(k, "mig") {
        Some(String::from_str("MIG"))
    } else if key_is(k, "idp") {
        Some(String::from_str("IDP"))
    } else if key_is(k, "frt") || key_is(k, "frtrac") {
        Some(String::from_str("FRTRAC"))
    } else if k.len() > 0 {
        Some(string_from_chars(&normalize_vec(k)))
    } else {
        None
    }
}

pub open spec fn opt_view_s(o: Option<String>) -> Option<Seq<char>> {
    match o {
        Some(s) => Some(s@),
        None => None,
    }
}

fn first_piece(s: &Vec<char>, c: char) -> (r: Vec<char>)
    ensures
        r@ == before_first(s@, c),
{
    let pieces = split_char(s, c);
    assert(split_char_seq(s@, c).len() > 0);
    assert(pieces@.len() == vviews(pieces@).len());
    assert(vviews(pieces@)[0] == pieces@[0]@);
    pieces[0].clone()
}

fn last_piece(s: &Vec<char>, c: char) -> (r: Vec<char>)
    ensures
        r@ == after_last(s@, c),
{
    let pieces = split_char(s, c);
    assert(split_char_seq(s@, c).len() > 0);
    assert(pieces@.len() == vviews(pieces@).len());
    let n = pieces.len();
    assert(vviews(pieces@)[n - 1] == pieces@[n - 1]@);
    pieces[n - 1].clone()
}

fn infer_wallix_role(server: &ResolvedServer) -> (r: Option<String>)
    ensures
        opt_view_s(r) == spec_infer_role(server.name@, server.host@),
{
    let host = chars_of(server.host.as_str());
    let first_label = first_piece(&host, '.');
    let last_token = last_piece(&first_label, '-');
    let name = chars_of(server.name.as_str());
    let source = if trim_vec(&name).len() > 0 {
        name
    } else {
        last_token
    };
    let key = crate::text::ascii_lower_vec(&non_digit_prefix_vec(&source));
    role_of_key_exec(&key)
}

/// The second `.`-separated part of `s`, if any.
pub open spec fn second_label(s: Seq<char>) -> Option<Seq<char>> {
    let ps = split_char_seq(s, '.');
    if ps.len() > 1 {
        Some(ps[1])
    } else {
        None
    }
}

/// Removes consecutive repeats (`Vec::dedup`).
pub open spec fn dedup_seq(s: Seq<Seq<char>>) -> Seq<Seq<char>>
    decreases s.len(),
{
    if s.len() <= 1 {
        s
    } else {
        let r = dedup_seq(s.drop_last());
        if s.last() == s[s.len() - 2] {
            r
        } else {
            r.push(s.last())
        }
    }
}

/// The candidates of a server, before repeats are removed: its full target,
/// its target with the host's first label normalized (when not empty), then
/// `env-project-role` targets for the project taken from the host's domain
/// and from the group (when env, project and role are all known).
pub open spec fn target_candidates(s: crate::resolve::ResolvedView) -> Seq<Seq<char>> {
    let first_label = before_first(s.host, '.');
    let short_host = normalize_seq(first_label);
    let env = if trim_ws(s.env_name).len() > 0 {
        normalize_seq(s.env_name)
    } else {
        normalize_seq(before_first(first_label, '-'))
    };
    let project_domain = match second_label(s.host) {
        Some(p) => normalize_seq(p),
        None => seq![],
    };
    let project_group = if trim_ws(s.group_name).len() == 0 {
        seq![]
    } else {
        normalize_seq(s.group_name)
    };
    let role = match spec_infer_role(s.name, s.host) {
        Some(r) => r,
        None => seq![],
    };
    let c0 = seq![target_seq(s.user, s.wallix_account, s.host, s.wallix_protocol)];
    let c1 = if short_host.len() > 0 {
        c0.push(target_seq(s.user, s.wallix_account, short_host, s.wallix_protocol))
    } else {
        c0
    };
    let c2 = if env.len() > 0 && project_domain.len() > 0 && role.len() > 0 {
        c1.push(
            target_seq(
                s.user,
                s.wallix_account,
                env + seq!['-'] + project_domain + seq!['-'] + role,
                s.wallix_protocol,
            ),
        )
    } else {
        c1
    };
    if env.len() > 0 && project_group.len() > 0 && role.len() > 0 {
        c2.push(
            target_seq(
                s.user,
                s.wallix_account,
                env + seq!['-'] + project_group + seq!['-'] + role,
                s.wallix_protocol,
            ),
        )
    } else {
        c2
    }
}

fn dedup_strings(v: Vec<String>) -> (r: Vec<String>)
    ensures
        views(r@) == dedup_seq(views(v@)),
{
    let ghost vv = views(v@);
    let mut r: Vec<String> = Vec::new();
    let mut i: usize = 0;
    assert(views(r@) =~= Seq::<Seq<char>>::empty());
    while i < v.len()
        invariant
            i <= v@.len(),
            vv == views(v@),
            views(r@) == dedup_seq(vv.take(i as int)),
            i > 0 ==> r@.len() > 0 && r@.last()@ == vv[i - 1],
        decreases v@.len() - i,
    {
        assert(vv.take(i + 1).drop_last() =~= vv.take(i as int));
        let ghost before = views(r@);
        if i == 0 || !crate::text::str_eq(v[i].as_str(), v[i - 1].as_str()) {
            let x = v[i].clone();
            r.push(x);
            assert(views(r@) =~= before.push(vv[i as int]));
            proof {
                if i == 0 {
                    assert(vv.take(1) =~= seq![vv[0]]);
                    assert(dedup_seq(vv.take(1)) == vv.take(1));
                    assert(before =~= Seq::<Seq<char>>::empty());
                }
            }
        } else {
            assert(vv[i as int] == vv[i - 1]);
            assert(r@.last()@ == vv[i as int]);
        }
        i += 1;
    }
    assert(vv.take(i as int) =~= vv);
    r
}

/// The targets that may stand for a server in the menu, without
/// consecutive repeats; the first is its full target.
pub fn build_expected_targets(server: &ResolvedServer) -> (r: Vec<String>)
    ensures
        views(r@) == dedup_seq(target_candidates(server@)),
{
    let user = server.user.as_str();
    let account = server.wallix_account.as_str();
    let protocol = server.wallix_protocol.as_str();
    let mut candidates: Vec<String> = Vec::new();
    candidates.push(build_expected_target(server));
    let host = chars_of(server.host.as_str());
    let first_label = first_piece(&host, '.');
    let short_host = normalize_vec(&first_label);
    if short_host.len() > 0 {
        let sh = string_from_chars(&short_host);
        candidates.push(target_string(user, account, sh.as_str(), protocol));
    }
    let env: Vec<char> = if trim_vec(&chars_of(server.env_name.as_str())).len() > 0 {
        normalize_vec(&chars_of(server.env_name.as_str()))
    } else {
        normalize_vec(&first_piece(&first_label, '-'))
    };
    let dots = split_char(&host, '.');
    let project_domain: Vec<char> = if dots.len() > 1 {
        assert(vviews(dots@)[1] == dots@[1]@);
        normalize_vec(&dots[1])
    } else {
        Vec::new()
    };
    let project_group: Vec<char> = if trim_vec(&chars_of(server.group_name.as_str())).len() == 0 {
        Vec::new()
    } else {
        normalize_vec(&chars_of(server.group_name.as_str()))
    };
    let role: Vec<char> = match infer_wallix_role(server) {
        Some(r) => chars_of(r.as_str()),
        None => Vec::new(),
    };
    if env.len() > 0 && project_domain.len() > 0 && role.len() > 0 {
        let mid = mid_segment(&env, &project_domain, &role);
        candidates.push(target_string(user, account, mid.as_str(), protocol));
    }
    if env.len() > 0 && project_group.len() > 0 && role.len() > 0 {
        let mid = mid_segment(&env, &project_group, &role);
        candidates.push(target_string(user, account, mid.as_str(), protocol));
    }
    proof {
        let c = target_candidates(server@);
        assert(views(candidates@) =~= c);
    }
    dedup_strings(candidates)
}

fn mid_segment(env: &Vec<char>, project: &Vec<char>, role: &Vec<char>) -> (r: String)
    ensures
        r@ == env@ + seq!['-'] + project@ + seq!['-'] + role@,
{
    let mut r = string_from_chars(env);
    crate::text::push_char(&mut r, '-');
    let p = string_from_chars(project);
    r.append(p.as_str());
    crate::text::push_char(&mut r, '-');
    let q = string_from_chars(role);
    r.append(q.as_str());
    r
}

/// The groups that may stand for the configured group `g` in the menu: `g`
/// itself and, when `g` has no `_`, `ENV-GROUP_g` built from the server's
/// environment and group names (those that are not blank once normalized).
pub open spec fn group_candidates(s: crate::resolve::ResolvedView, g: Seq<char>) -> Seq<Seq<char>> {
    let c0 = seq![g];
    if g.contains('_') {
        c0
    } else {
        let env = normalize_seq(s.env_name);
        let grp = normalize_seq(s.group_name);
        let p1 = if trim_ws(s.env_name).len() > 0 && env.len() > 0 {
            seq![env]
        } else {
            seq![]
        };
        let parts = if trim_ws(s.group_name).len() > 0 && grp.len() > 0 {
            p1.push(grp)
        } else {
            p1
        };
        if parts.len() > 0 {
            c0.push(join_seq(parts, "-"@) + seq!['_'] + g)
        } else {
            c0
        }
    }
}

pub open spec fn spec_expected_groups(s: crate::resolve::ResolvedView) -> Result<
    Seq<Seq<char>>,
    WallixErrorView,
> {
    match s.wallix_group {
        None => Err(WallixErrorView::GroupNotConfigured { server: s.name }),
        Some(g) => Ok(dedup_seq(group_candidates(s, g))),
    }
}

/// The groups that may stand for the server's configured Wallix group;
/// fails when none is configured.
pub fn build_expected_groups(server: &ResolvedServer) -> (r: Result<Vec<String>, WallixError>)
    ensures
        match r {
            Ok(v) => spec_expected_groups(server@) == Ok::<Seq<Seq<char>>, WallixErrorView>(
                views(v@),
            ),
            Err(e) => spec_expected_groups(server@) == Err::<Seq<Seq<char>>, WallixErrorView>(e@),
        },
{
    let configured = match &server.wallix_group {
        Some(g) => g,
        None => {
            return Err(WallixError::GroupNotConfigured { server: server.name.clone() });
        },
    };
    let mut candidates: Vec<String> = Vec::new();
    candidates.push(configured.clone());
    if !contains_char(&chars_of(configured.as_str()), '_') {
        let ghost env = normalize_seq(server.env_name@);
        let ghost grp = normalize_seq(server.group_name@);
        let mut parts: Vec<String> = Vec::new();
        if trim_vec(&chars_of(server.env_name.as_str())).len() > 0 {
            let env_v = normalize_vec(&chars_of(server.env_name.as_str()));
            if env_v.len() > 0 {
                parts.push(string_from_chars(&env_v));
            }
        }
        let ghost p1 = views(parts@);
        assert(p1 =~= (if trim_ws(server.env_name@).len() > 0 && env.len() > 0 {
            seq![env]
        } else {
            seq![]
        }));
        if trim_vec(&chars_of(server.group_name.as_str())).len() > 0 {
            let grp_v = normalize_vec(&chars_of(server.group_name.as_str()));
            if grp_v.len() > 0 {
                parts.push(string_from_chars(&grp_v));
                assert(views(parts@) =~= p1.push(grp));
            }
        }
        let ghost ps = views(parts@);
        assert(ps =~= (if trim_ws(server.group_name@).len() > 0 && grp.len() > 0 {
            p1.push(grp)
        } else {
            p1
        }));
        let ghost c0 = views(candidates@);
        assert(c0 =~= seq![configured@]);
        if parts.len() > 0 {
            let mut joined = join_strings(&parts, "-");
            crate::text::push_char(&mut joined, '_');
            joined.append(configured.as_str());
            assert(joined@ =~= join_seq(ps, "-"@) + seq!['_'] + configured@);
            candidates.push(joined);
            assert(views(candidates@) =~= c0.push(join_seq(ps, "-"@) + seq!['_'] + configured@));
        }
        proof {
            assert(views(candidates@) =~= group_candidates(server@, configured@));
        }
    } else {
        assert(views(candidates@) =~= group_candidates(server@, configured@));
    }
    Ok(dedup_strings(candidates))
}

/// The entries whose group matches the configured group by suffix.
pub open spec fn with_suffix(entries: Seq<EntryView>, cg: Seq<char>) -> Seq<EntryView>
    decreases entries.len(),
{
    if entries.len() == 0 {
        seq![]
    } else {
        let r = with_suffix(entries.drop_last(), cg);
        if spec_group_suffix_matches(entries.last().group, cg) {
            r.push(entries.last())
        } else {
            r
        }
    }
}

/// The decision for a target's entries by exact group, trying the expected
/// groups in order: one entry chosen, several an error, none undecided.
pub open spec fn group_decision(
    te: Seq<EntryView>,
    groups: Seq<Seq<char>>,
    target: Seq<char>,
) -> Option<Result<Seq<char>, WallixErrorView>>
    decreases groups.len(),
{
    if groups.len() == 0 {
        None
    } else {
        let exact = with_group(te, groups[0]);
        if exact.len() == 1 {
            Some(Ok(exact[0].id))
        } else if exact.len() > 1 {
            Some(Err(WallixErrorView::Ambiguous { count: exact.len() as usize, target, group: groups[0] }))
        } else {
            group_decision(te, groups.drop_first(), target)
        }
    }
}

/// The choice over the expected targets from the `i`-th on: for the first
/// target that has entries, an exact group match, else a unique suffix
/// match; a target whose entries match no group passes to the next one.
pub open spec fn select_from(
    targets: Seq<Seq<char>>,
    i: int,
    entries: Seq<EntryView>,
    groups: Seq<Seq<char>>,
    cg: Seq<char>,
    had: bool,
    avail: Seq<Seq<char>>,
) -> Result<Seq<char>, WallixErrorView>
    decreases targets.len() - i,
{
    if i < 0 || i >= targets.len() {
        if had {
            Err(WallixErrorView::GroupNotFoundForTargets { group: cg, available: avail })
        } else {
            Err(WallixErrorView::TargetNotFound { target: targets.last(), available: targets_of(entries) })
        }
    } else {
        let t = targets[i];
        let te = with_target(entries, t);
        if te.len() == 0 {
            select_from(targets, i + 1, entries, groups, cg, had, avail)
        } else {
            match group_decision(te, groups, t) {
                Some(r) => r,
                None => {
                    let sm = with_suffix(te, cg);
                    if sm.len() == 1 {
                        Ok(sm[0].id)
                    } else if sm.len() > 1 {
                        Err(WallixErrorView::AmbiguousSuffix { count: sm.len() as usize, target: t, group: cg })
                    } else {
                        select_from(
                            targets,
                            i + 1,
                            entries,
                            groups,
                            cg,
                            true,
                            append_missing(avail, groups_of(te)),
                        )
                    }
                },
            }
        }
    }
}

/// The entry chosen for a server, or why none could be.
pub open spec fn spec_select_for_server(entries: Seq<EntryView>, s: crate::resolve::ResolvedView) -> Result<
    Seq<char>,
    WallixErrorView,
> {
    match spec_expected_groups(s) {
        Err(e) => Err(e),
        Ok(groups) => select_from(
            dedup_seq(target_candidates(s)),
            0,
            entries,
            groups,
            s.wallix_group.unwrap(),
            false,
            seq![],
        ),
    }
}

fn filter_suffix(entries: &Vec<WallixMenuEntry>, cg: &str) -> (r: Vec<WallixMenuEntry>)
    ensures
        entries_view(r@) == with_suffix(entries_view(entries@), cg@),
{
    let ghost ev = entries_view(entries@);
    let mut r: Vec<WallixMenuEntry> = Vec::new();
    let mut i: usize = 0;
    assert(entries_view(r@) =~= Seq::<EntryView>::empty());
    while i < entries.len()
        invariant
            i <= entries@.len(),
            ev == entries_view(entries@),
            entries_view(r@) == with_suffix(ev.take(i as int), cg@),
        decreases entries@.len() - i,
    {
        assert(ev.take(i + 1).drop_last() =~= ev.take(i as int));
        if group_suffix_matches(entries[i].group.as_str(), cg) {
            let ghost before = entries_view(r@);
            let e = entries[i].clone();
            r.push(e);
            assert(entries_view(r@) =~= before.push(ev[i as int]));
        }
        i += 1;
    }
    assert(ev.take(i as int) =~= ev);
    r
}

fn group_decision_exec(te: &Vec<WallixMenuEntry>, groups: &Vec<String>, target: &String) -> (r:
    Option<Result<String, WallixError>>)
    ensures
        match r {
            None => group_decision(entries_view(te@), views(groups@), target@) is None,
            Some(Ok(id)) => group_decision(entries_view(te@), views(groups@), target@) == Some(
                Ok::<Seq<char>, WallixErrorView>(id@),
            ),
            Some(Err(e)) => group_decision(entries_view(te@), views(groups@), target@) == Some(
                Err::<Seq<char>, WallixErrorView>(e@),
            ),
        },
{
    let ghost gv = views(groups@);
    let ghost tv = entries_view(te@);
    let mut j: usize = 0;
    assert(gv.skip(0) =~= gv);
    while j < groups.len()
        invariant
            j <= groups@.len(),
            gv == views(groups@),
            tv == entries_view(te@),
            group_decision(tv, gv, target@) == group_decision(tv, gv.skip(j as int), target@),
        decreases groups@.len() - j,
    {
        assert(gv.skip(j as int)[0] == gv[j as int]);
        assert(gv.skip(j as int).drop_first() =~= gv.skip(j + 1));
        let exact = filter_group(te, groups[j].as_str());
        if exact.len() == 1 {
            return Some(Ok(exact[0].id.clone()));
        } else if exact.len() > 1 {
            return Some(
                Err(
                    WallixError::Ambiguous {
                        count: exact.len(),
                        target: target.clone(),
                        group: groups[j].clone(),
                    },
                ),
            );
        }
        j += 1;
    }
    None
}

fn add_missing_groups(avail: &mut Vec<String>, te: &Vec<WallixMenuEntry>)
    ensures
        views(final(avail)@) == append_missing(views(old(avail)@), groups_of(entries_view(te@))),
{
    let gs = collect_groups(te);
    crate::config::append_missing_vec(avail, &gs);
}

/// Chooses the menu entry of a server: the expected targets are tried in
/// order, and for the first that has entries, an entry whose group is one
/// of the expected groups (exactly one), else one whose group ends with
/// `_` and the configured group (exactly one). Fails when the server has no
/// group, when an exact or suffix match is ambiguous, when entries have an
/// expected target but no matching group, or when none has an expected target.
pub fn select_id_for_server(entries: &Vec<WallixMenuEntry>, server: &ResolvedServer) -> (r: Result<
    String,
    WallixError,
>)
    ensures
        match r {
            Ok(id) => spec_select_for_server(entries_view(entries@), server@) == Ok::<
                Seq<char>,
                WallixErrorView,
            >(id@),
            Err(e) => spec_select_for_server(entries_view(entries@), server@) == Err::<
                Seq<char>,
                WallixErrorView,
            >(e@),
        },
{
    let targets = build_expected_targets(server);
    let groups = match build_expected_groups(server) {
        Ok(g) => g,
        Err(e) => {
            return Err(e);
        },
    };
    let configured = match &server.wallix_group {
        Some(g) => g,
        None => {
            return Err(WallixError::GroupNotConfigured { server: server.name.clone() });
        },
    };
    let ghost tv = views(targets@);
    let ghost ev = entries_view(entries@);
    let ghost gv = views(groups@);
    let ghost cg = configured@;
    let mut had = false;
    let mut avail: Vec<String> = Vec::new();
    let mut i: usize = 0;
    assert(views(avail@) =~= Seq::<Seq<char>>::empty());
    while i < targets.len()
        invariant
            i <= targets@.len(),
            tv == views(targets@),
            ev == entries_view(entries@),
            gv == views(groups@),
            cg == configured@,
            spec_select_for_server(ev, server@) == select_from(tv, i as int, ev, gv, cg, had, views(avail@)),
        decreases targets@.len() - i,
    {
        let te = filter_target(entries, targets[i].as_str());
        if te.len() > 0 {
            match group_decision_exec(&te, &groups, &targets[i]) {
                Some(res) => {
                    return res;
                },
                None => {},
            }
            let sm = filter_suffix(&te, configured.as_str());
            if sm.len() == 1 {
                return Ok(sm[0].id.clone());
            } else if sm.len() > 1 {
                return Err(
                    WallixError::AmbiguousSuffix {
                        count: sm.len(),
                        target: targets[i].clone(),
                        group: configured.clone(),
                    },
                );
            }
            had = true;
            add_missing_groups(&mut avail, &te);
        }
        i += 1;
    }
    if had {
        return Err(
            WallixError::GroupNotFoundForTargets { group: configured.clone(), available: avail },
        );
    }
    proof {
        assert(dedup_seq(target_candidates(server@)).len() > 0) by {
            lemma_dedup_nonempty(target_candidates(server@));
        }
    }
    let n = targets.len();
    assert(tv.len() == n);
    Err(
        WallixError::TargetNotFound {
            target: targets[n - 1].clone(),
            available: collect_targets(entries),
        },
    )
}

proof fn lemma_dedup_nonempty(s: Seq<Seq<char>>)
    requires
        s.len() > 0,
    ensures
        dedup_seq(s).len() > 0,
    decreases s.len(),
{
    if s.len() > 1 {
        lemma_dedup_nonempty(s.drop_last());
    }
}

// ─── Laws ────────────────────────────────────────────────────────────────────

/// The role table of Wallix names: a server whose name is not blank takes
/// its role from the letters that start its name (digits end them, case
/// ignored): `bdd`, `bd`, `db` → `BD`; `apps`, `app`, `appli` → `APPLI`;
/// `adm`, `admin` → `ADMIN`; `web` → `WEB`; `kafka` → `KAFKA`; `els` →
/// `ELS`; `mig` → `MIG`; `idp` → `IDP`; `frt`, `frtrac` → `FRTRAC`. The
/// host plays no part.
pub proof fn lemma_role_table(name: Seq<char>, host: Seq<char>)
    requires
        trim_ws(name).len() > 0,
    ensures
        ({
            let k = crate::text::ascii_lower_seq(non_digit_prefix(name));
            let role = spec_infer_role(name, host);
            &&& (k == "bdd"@ || k == "bd"@ || k == "db"@) ==> role == Some("BD"@)
            &&& (k == "apps"@ || k == "app"@ || k == "appli"@) ==> role == Some("APPLI"@)
            &&& (k == "adm"@ || k == "admin"@) ==> role == Some("ADMIN"@)
            &&& k == "web"@ ==> role == Some("WEB"@)
            &&& k == "kafka"@ ==> role == Some("KAFKA"@)
            &&& k == "els"@ ==> role == Some("ELS"@)
            &&& k == "mig"@ ==> role == Some("MIG"@)
            &&& k == "idp"@ ==> role == Some("IDP"@)
            &&& (k == "frt"@ || k == "frtrac"@) ==> role == Some("FRTRAC"@)
        }),
{
    reveal_strlit("bdd");
    reveal_strlit("bd");
    reveal_strlit("db");
    reveal_strlit("apps");
    reveal_strlit("app");
    reveal_strlit("appli");
    reveal_strlit("adm");
    reveal_strlit("admin");
    reveal_strlit("web");
    reveal_strlit("kafka");
    reveal_strlit("els");
    reveal_strlit("mig");
    reveal_strlit("idp");
    reveal_strlit("frt");
    reveal_strlit("frtrac");
    let k = crate::text::ascii_lower_seq(non_digit_prefix(name));
    assert(spec_infer_role(name, host) == role_of_key(k));
    assert("apps"@.len() != "bdd"@.len());
    assert("apps"@.len() != "bd"@.len());
    assert("apps"@.len() != "db"@.len());
    assert("app"@[0] != "bdd"@[0]);
    assert("app"@.len() != "bd"@.len());
    assert("app"@.len() != "db"@.len());
    assert("appli"@.len() != "bdd"@.len());
    assert("appli"@.len() != "bd"@.len());
    assert("appli"@.len() != "db"@.len());
    assert("adm"@[0] != "bdd"@[0]);
    assert("adm"@.len() != "bd"@.len());
    assert("adm"@.len() != "db"@.len());
    assert("adm"@.len() != "apps"@.len());
    assert("adm"@[1] != "app"@[1]);
    assert("adm"@.len() != "appli"@.len());
    assert("admin"@.len() != "bdd"@.len());
    assert("admin"@.len() != "bd"@.len());
    assert("admin"@.len() != "db"@.len());
    assert("admin"@.len() != "apps"@.len());
    assert("admin"@.len() != "app"@.len());
    assert("admin"@[1] != "appli"@[1]);
    assert("web"@[0] != "bdd"@[0]);
    assert("web"@.len() != "bd"@.len());
    assert("web"@.len() != "db"@.len());
    assert("web"@.len() != "apps"@.len());
    assert("web"@[0] != "app"@[0]);
    assert("web"@.len() != "appli"@.len());
    assert("web"@[0] != "adm"@[0]);
    assert("web"@.len() != "admin"@.len());
    assert("kafka"@.len() != "bdd"@.len());
    assert("kafka"@.len() != "bd"@.len());
    assert("kafka"@.len() != "db"@.len());
    assert("kafka"@.len() != "apps"@.len());
    assert("kafka"@.len() != "app"@.len());
    assert("kafka"@[0] != "appli"@[0]);
    assert("kafka"@.len() != "adm"@.len());
    assert("kafka"@[0] != "admin"@[0]);
    assert("kafka"@.len() != "web"@.len());
    assert("els"@[0] != "bdd"@[0]);
    assert("els"@.len() != "bd"@.len());
    assert("els"@.len() != "db"@.len());
    assert("els"@.len() != "apps"@.len());
    assert("els"@[0] != "app"@[0]);
    assert("els"@.len() != "appli"@.len());
    assert("els"@[0] != "adm"@[0]);
    assert("els"@.len() != "admin"@.len());
    assert("els"@[0] != "web"@[0]);
    assert("els"@.len() != "kafka"@.len());
    assert("mig"@[0] != "bdd"@[0]);
    assert("mig"@.len() != "bd"@.len());
    assert("mig"@.len() != "db"@.len());
    assert("mig"@.len() != "apps"@.len());
    assert("mig"@[0] != "app"@[0]);
    assert("mig"@.len() != "appli"@.len());
    assert("mig"@[0] != "adm"@[0]);
    assert("mig"@.len() != "admin"@.len());
    assert("mig"@[0] != "web"@[0]);
    assert("mig"@.len() != "kafka"@.len());
    assert("mig"@[0] != "els"@[0]);
    assert("idp"@[0] != "bdd"@[0]);
    assert("idp"@.len() != "bd"@.len());
    assert("idp"@.len() != "db"@.len());
    assert("idp"@.len() != "apps"@.len());
    assert("idp"@[0] != "app"@[0]);
    assert("idp"@.len() != "appli"@.len());
    assert("idp"@[0] != "adm"@[0]);
    assert("idp"@.len() != "admin"@.len());
    assert("idp"@[0] != "web"@[0]);
    assert("idp"@.len() != "kafka"@.len());
    assert("idp"@[0] != "els"@[0]);
    assert("idp"@[0] != "mig"@[0]);
    assert("frt"@[0] != "bdd"@[0]);
    assert("frt"@.len() != "bd"@.len());
    assert("frt"@.len() != "db"@.len());
    assert("frt"@.len() != "apps"@.len());
    assert("frt"@[0] != "app"@[0]);
    assert("frt"@.len() != "appli"@.len());
    assert("frt"@[0] != "adm"@[0]);
    assert("frt"@.len() != "admin"@.len());
    assert("frt"@[0] != "web"@[0]);
    assert("frt"@.len() != "kafka"@.len());
    assert("frt"@[0] != "els"@[0]);
    assert("frt"@[0] != "mig"@[0]);
    assert("frt"@[0] != "idp"@[0]);
    assert("frtrac"@.len() != "bdd"@.len());
    assert("frtrac"@.len() != "bd"@.len());
    assert("frtrac"@.len() != "db"@.len());
    assert("frtrac"@.len() != "apps"@.len());
    assert("frtrac"@.len() != "app"@.len());
    assert("frtrac"@.len() != "appli"@.len());
    assert("frtrac"@.len() != "adm"@.len());
    assert("frtrac"@.len() != "admin"@.len());
    assert("frtrac"@.len() != "web"@.len());
    assert("frtrac"@.len() != "kafka"@.len());
    assert("frtrac"@.len() != "els"@.len());
    assert("frtrac"@.len() != "mig"@.len());
    assert("frtrac"@.len() != "idp"@.len());
}

/// Removing adjacent repeats keeps every candidate.
pub proof fn lemma_dedup_keeps(s: Seq<Seq<char>>, x: Seq<char>)
    requires
        s.contains(x),
    ensures
        dedup_seq(s).contains(x),
    decreases s.len(),
{
    if s.len() > 1 {
        let r = dedup_seq(s.drop_last());
        if s.last() == x {
            if s[s.len() - 2] == x {
                assert(s.drop_last()[s.len() - 2] == x);
                lemma_dedup_keeps(s.drop_last(), x);
            } else {
                assert(r.push(x)[r.len() as int] == x);
            }
        } else {
            let i = choose|i: int| 0 <= i < s.len() && s[i] == x;
            assert(i < s.len() - 1);
            assert(s.drop_last()[i] == x);
            lemma_dedup_keeps(s.drop_last(), x);
            if s.last() != s[s.len() - 2] {
                let j = choose|j: int| 0 <= j < r.len() && r[j] == x;
                assert(r.push(s.last())[j] == x);
            }
        }
    }
}

/// A server named like `app01` (role `APPLI`), with an environment and a
/// host with a second label, is looked for in the menu as
/// `user@account@ENV-PROJECT-APPLI:protocol`, ENV and PROJECT being its
/// environment and its host's second label, normalized.
pub proof fn lemma_appli_target(s: crate::resolve::ResolvedView, project: Seq<char>)
    requires
        trim_ws(s.name).len() > 0,
        ({
            let k = crate::text::ascii_lower_seq(non_digit_prefix(s.name));
            k == "apps"@ || k == "app"@ || k == "appli"@
        }),
        trim_ws(s.env_name).len() > 0,
        normalize_seq(s.env_name).len() > 0,
        second_label(s.host) == Some(project),
        normalize_seq(project).len() > 0,
    ensures
        dedup_seq(target_candidates(s)).contains(
            target_seq(
                s.user,
                s.wallix_account,
                normalize_seq(s.env_name) + seq!['-'] + normalize_seq(project) + seq!['-'] + "APPLI"@,
                s.wallix_protocol,
            ),
        ),
{
    lemma_role_table(s.name, s.host);
    reveal_strlit("APPLI");
    let t = target_seq(
        s.user,
        s.wallix_account,
        normalize_seq(s.env_name) + seq!['-'] + normalize_seq(project) + seq!['-'] + "APPLI"@,
        s.wallix_protocol,
    );
    let c = target_candidates(s);
    let first_label = before_first(s.host, '.');
    let short_host = normalize_seq(first_label);
    let c0 = seq![target_seq(s.user, s.wallix_account, s.host, s.wallix_protocol)];
    let c1 = if short_host.len() > 0 {
        c0.push(target_seq(s.user, s.wallix_account, short_host, s.wallix_protocol))
    } else {
        c0
    };
    let c2 = c1.push(t);
    assert(c2[c1.len() as int] == t);
    assert(c == c2 || c == c2.push(c[c.len() - 1]));
    if c != c2 {
        assert(c[c1.len() as int] == c2[c1.len() as int]);
    }
    assert(c.contains(t));
    lemma_dedup_keeps(c, t);
}



proof fn lemma_with_target_members(entries: Seq<EntryView>, target: Seq<char>)
    ensures
        forall|k: int|
            0 <= k < with_target(entries, target).len() ==> (#[trigger] with_target(
                entries,
                target,
            )[k]).target == target && entries.contains(with_target(entries, target)[k]),
    decreases entries.len(),
{
    if entries.len() > 0 {
        lemma_with_target_members(entries.drop_last(), target);
        let r = with_target(entries.drop_last(), target);
        assert forall|k: int| 0 <= k < with_target(entries, target).len() implies (
        #[trigger] with_target(entries, target)[k]).target == target && entries.contains(
            with_target(entries, target)[k],
        ) by {
            if k < r.len() {
                assert(with_target(entries, target)[k] == r[k]);
                let j = choose|j: int| 0 <= j < entries.drop_last().len() && entries.drop_last()[j] == r[k];
                assert(entries[j] == r[k]);
            } else {
                assert(entries[entries.len() - 1] == entries.last());
            }
        }
    }
}

proof fn lemma_with_group_members(entries: Seq<EntryView>, group: Seq<char>)
    ensures
        forall|k: int|
            0 <= k < with_group(entries, group).len() ==> (#[trigger] with_group(
                entries,
                group,
            )[k]).group == group && entries.contains(with_group(entries, group)[k]),
    decreases entries.len(),
{
    if entries.len() > 0 {
        lemma_with_group_members(entries.drop_last(), group);
        let r = with_group(entries.drop_last(), group);
        assert forall|k: int| 0 <= k < with_group(entries, group).len() implies (
        #[trigger] with_group(entries, group)[k]).group == group && entries.contains(
            with_group(entries, group)[k],
        ) by {
            if k < r.len() {
                assert(with_group(entries, group)[k] == r[k]);
                let j = choose|j: int| 0 <= j < entries.drop_last().len() && entries.drop_last()[j] == r[k];
                assert(entries[j] == r[k]);
            } else {
                assert(entries[entries.len() - 1] == entries.last());
            }
        }
    }
}

/// An ID chosen by target and group is that of a menu entry with exactly
/// that target and that group, and the only such entry.
pub proof fn lemma_selected_entry_matches(entries: Seq<EntryView>, target: Seq<char>, group: Seq<char>)
    ensures
        spec_select_by_target_and_group(entries, target, group) matches Ok(id) ==> exists|e: EntryView|
            entries.contains(e) && e.target == target && e.group == group && e.id == id,
        spec_select_by_target_and_group(entries, target, group) matches Ok(_) ==> with_group(
            with_target(entries, target),
            group,
        ).len() == 1,
{
    let tm = with_target(entries, target);
    lemma_with_target_members(entries, target);
    lemma_with_group_members(tm, group);
    if spec_select_by_target_and_group(entries, target, group) is Ok {
        let gm = with_group(tm, group);
        let e = gm[0];
        assert(tm.contains(e));
        let j = choose|j: int| 0 <= j < tm.len() && tm[j] == e;
        assert(tm[j].target == target);
        assert(entries.contains(tm[j]));
    }
}

proof fn lemma_nonempty_trimmed(pieces: Seq<Seq<char>>)
    ensures
        forall|k: int| 0 <= k < nonempty_trimmed(pieces).len() ==> (#[trigger] nonempty_trimmed(
            pieces,
        )[k]).len() > 0,
    decreases pieces.len(),
{
    if pieces.len() > 0 {
        lemma_nonempty_trimmed(pieces.drop_last());
        let r = nonempty_trimmed(pieces.drop_last());
        assert forall|k: int| 0 <= k < nonempty_trimmed(pieces).len() implies (
        #[trigger] nonempty_trimmed(pieces)[k]).len() > 0 by {
            if k < r.len() {
                assert(nonempty_trimmed(pieces)[k] == r[k]);
            }
        }
    }
}

/// Every entry read from a menu has a non-empty numeric ID, a target and a group.
pub proof fn lemma_menu_entries_well_formed(output: Seq<char>)
    ensures
        forall|k: int|
            0 <= k < menu_entries(output).len() ==> {
                let e = #[trigger] menu_entries(output)[k];
                e.id.len() > 0 && all_ascii_digits(e.id) && e.target.len() > 0 && e.group.len()
                    > 0
            },
{
    lemma_entries_of_lines_well_formed(split_char_seq(output, '\n'));
}

proof fn lemma_entries_of_lines_well_formed(lines: Seq<Seq<char>>)
    ensures
        forall|k: int|
            0 <= k < entries_of_lines(lines).len() ==> {
                let e = #[trigger] entries_of_lines(lines)[k];
                e.id.len() > 0 && all_ascii_digits(e.id) && e.target.len() > 0 && e.group.len()
                    > 0
            },
    decreases lines.len(),
{
    if lines.len() > 0 {
        lemma_entries_of_lines_well_formed(lines.drop_last());
        let r = entries_of_lines(lines.drop_last());
        let t = trim_ws(lines.last());
        if t.contains('│') {
            lemma_nonempty_trimmed(split_char_seq(t, '│'));
        }
        if t.contains('|') {
            lemma_nonempty_trimmed(split_char_seq(t, '|'));
        }
        assert forall|k: int| 0 <= k < entries_of_lines(lines).len() implies {
            let e = #[trigger] entries_of_lines(lines)[k];
            e.id.len() > 0 && all_ascii_digits(e.id) && e.target.len() > 0 && e.group.len() > 0
        } by {
            if k < r.len() {
                assert(entries_of_lines(lines)[k] == r[k]);
            }
        }
    }
}

} // verus!
