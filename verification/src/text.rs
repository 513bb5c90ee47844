//! Character and string helpers shared by the parsers and formatters of the
//! library, each stated over the `Seq<char>` view of a string.
use vstd::prelude::*;
use vstd::string::StringExecFns;

verus! {

// ─── Characters ──────────────────────────────────────────────────────────────

pub open spec fn spec_is_ascii_digit(c: char) -> bool {
    '0' <= c && c <= '9'
}

pub open spec fn spec_is_ascii_lower(c: char) -> bool {
    'a' <= c && c <= 'z'
}

pub open spec fn spec_is_ascii_upper(c: char) -> bool {
    'A' <= c && c <= 'Z'
}

pub open spec fn spec_is_ascii_alphanumeric(c: char) -> bool {
    spec_is_ascii_digit(c) || spec_is_ascii_lower(c) || spec_is_ascii_upper(c)
}

/// The Unicode `White_Space` property, which `char::is_whitespace` tests.
pub open spec fn spec_is_whitespace(c: char) -> bool {
    ||| c == ' '
    ||| ('\u{9}' <= c && c <= '\u{d}')
    ||| c == '\u{85}'
    ||| c == '\u{a0}'
    ||| c == '\u{1680}'
    ||| ('\u{2000}' <= c && c <= '\u{200a}')
    ||| c == '\u{2028}'
    ||| c == '\u{2029}'
    ||| c == '\u{202f}'
    ||| c == '\u{205f}'
    ||| c == '\u{3000}'
}

pub open spec fn spec_to_ascii_upper(c: char) -> char {
    if spec_is_ascii_lower(c) {
        ((c as int) - 32) as char
    } else {
        c
    }
}

pub open spec fn spec_to_ascii_lower(c: char) -> char {
    if spec_is_ascii_upper(c) {
        ((c as int) + 32) as char
    } else {
        c
    }
}

/// Bytes that `c` takes in UTF-8 (`char::len_utf8`).
pub open spec fn utf8_char_len(c: char) -> nat {
    if c as u32 >= 0x10000 {
        4
    } else if c as u32 >= 0x800 {
        3
    } else if c as u32 >= 0x80 {
        2
    } else {
        1
    }
}

/// Bytes that `s` takes in UTF-8 (`str::len`).
pub open spec fn utf8_len(s: Seq<char>) -> nat
    decreases s.len(),
{
    if s.len() == 0 {
        0
    } else {
        utf8_char_len(s[0]) + utf8_len(s.drop_first())
    }
}

pub fn char_utf8_len(c: char) -> (r: usize)
    ensures
        r == utf8_char_len(c),
{
    if c as u32 >= 0x10000 {
        4
    } else if c as u32 >= 0x800 {
        3
    } else if c as u32 >= 0x80 {
        2
    } else {
        1
    }
}

pub fn is_ascii_digit(c: char) -> (b: bool)
    ensures
        b == spec_is_ascii_digit(c),
{
    '0' <= c && c <= '9'
}

pub fn is_ascii_alphanumeric(c: char) -> (b: bool)
    ensures
        b == spec_is_ascii_alphanumeric(c),
{
    ('0' <= c && c <= '9') || ('a' <= c && c <= 'z') || ('A' <= c && c <= 'Z')
}

pub fn is_whitespace(c: char) -> (b: bool)
    ensures
        b == spec_is_whitespace(c),
{
    c == ' ' || ('\u{9}' <= c && c <= '\u{d}') || c == '\u{85}' || c == '\u{a0}' || c
        == '\u{1680}' || ('\u{2000}' <= c && c <= '\u{200a}') || c == '\u{2028}' || c
        == '\u{2029}' || c == '\u{202f}' || c == '\u{205f}' || c == '\u{3000}'
}

pub fn to_ascii_upper(c: char) -> (r: char)
    ensures
        r == spec_to_ascii_upper(c),
{
    if 'a' <= c && c <= 'z' {
        let b: u8 = c as u8;
        let r = (b - 32) as char;
        r
    } else {
        c
    }
}

pub fn to_ascii_lower(c: char) -> (r: char)
    ensures
        r == spec_to_ascii_lower(c),
{
    if 'A' <= c && c <= 'Z' {
        let b: u8 = c as u8;
        let r = (b + 32) as char;
        r
    } else {
        c
    }
}

// ─── Conversions ─────────────────────────────────────────────────────────────

/// The characters of `s`, in order.
pub fn chars_of(s: &str) -> (v: Vec<char>)
    ensures
        v@ == s@,
{
    let mut v: Vec<char> = Vec::new();
    for c in it: s.chars()
        invariant
            v@ == it.seq().take(it.index() as int),
            it.seq() == s@,
    {
        v.push(c);
    }
    v
}

/// The characters `v` as a `String`.
pub fn string_from_chars(v: &Vec<char>) -> (s: String)
    ensures
        s@ == v@,
{
    let mut s = String::new();
    let mut i: usize = 0;
    while i < v.len()
        invariant
            i <= v@.len(),
            s@ == v@.take(i as int),
        decreases v@.len() - i,
    {
        push_char(&mut s, v[i]);
        assert(v@.take(i + 1) =~= v@.take(i as int).push(v@[i as int]));
        i += 1;
    }
    assert(v@.take(i as int) =~= v@);
    s
}

pub fn push_str(s: &mut String, t: &str)
    ensures
        final(s)@ == old(s)@ + t@,
{
    s.append(t);
}

/// `String::push`: `c` added at the end.
#[verifier::external_body]
pub(crate) fn push_char(s: &mut String, c: char)
    ensures
        final(s)@ == old(s)@.push(c),
{
    s.push(c);
}

// ─── Sequence predicates ─────────────────────────────────────────────────────

pub open spec fn spec_starts_with(s: Seq<char>, p: Seq<char>) -> bool {
    p.len() <= s.len() && s.subrange(0, p.len() as int) == p
}

pub open spec fn spec_ends_with(s: Seq<char>, p: Seq<char>) -> bool {
    p.len() <= s.len() && s.subrange(s.len() - p.len(), s.len() as int) == p
}

/// `p` occurs in `s` at position `i`.
pub open spec fn occurs_at(s: Seq<char>, p: Seq<char>, i: int) -> bool {
    0 <= i && i + p.len() <= s.len() && s.subrange(i, i + p.len()) == p
}

pub open spec fn spec_contains(s: Seq<char>, p: Seq<char>) -> bool {
    exists|i: int| occurs_at(s, p, i)
}

/// The first position at which `p` occurs in `s` at or after `from`.
pub open spec fn spec_find_from(s: Seq<char>, p: Seq<char>, from: int) -> Option<int>
    decreases s.len() + 1 - from,
{
    if from < 0 || from + p.len() > s.len() {
        None
    } else if occurs_at(s, p, from) {
        Some(from)
    } else {
        spec_find_from(s, p, from + 1)
    }
}

pub open spec fn spec_find(s: Seq<char>, p: Seq<char>) -> Option<int> {
    spec_find_from(s, p, 0)
}

pub proof fn lemma_find_from_some(s: Seq<char>, p: Seq<char>, from: int)
    requires
        0 <= from,
    ensures
        spec_find_from(s, p, from) matches Some(i) ==> from <= i && occurs_at(s, p, i) && forall|
            j: int,
        | from <= j < i ==> !occurs_at(s, p, j),
        spec_find_from(s, p, from) is None ==> forall|j: int| from <= j ==> !occurs_at(s, p, j),
    decreases s.len() + 1 - from,
{
    if from + p.len() > s.len() {
    } else if occurs_at(s, p, from) {
    } else {
        lemma_find_from_some(s, p, from + 1);
    }
}

pub fn seq_occurs_at(s: &Vec<char>, p: &Vec<char>, i: usize) -> (b: bool)
    requires
        i + p@.len() <= s@.len(),
    ensures
        b == occurs_at(s@, p@, i as int),
{
    let n = s.len();
    let mut k: usize = 0;
    while k < p.len()
        invariant
            k <= p@.len(),
            n == s@.len(),
            i + p@.len() <= s@.len(),
            forall|j: int| 0 <= j < k ==> s@[i + j] == p@[j],
        decreases p@.len() - k,
    {
        assert(i + k < s@.len());
        if s[i + k] != p[k] {
            assert(s@.subrange(i as int, i + p@.len())[k as int] != p@[k as int]);
            return false;
        }
        k += 1;
    }
    assert(s@.subrange(i as int, i + p@.len()) =~= p@);
    true
}

/// Position of the first occurrence of `p` in `s` at or after `from`.
pub fn find_from(s: &Vec<char>, p: &Vec<char>, from: usize) -> (r: Option<usize>)
    ensures
        r matches Some(i) ==> spec_find_from(s@, p@, from as int) == Some(i as int),
        r is None ==> spec_find_from(s@, p@, from as int) is None,
{
    if p.len() > s.len() || from > s.len() - p.len() {
        return None;
    }
    if p.len() == 0 {
        assert(occurs_at(s@, p@, from as int)) by {
            assert(s@.subrange(from as int, from as int) =~= p@);
        }
        return Some(from);
    }
    let mut i = from;
    while i <= s.len() - p.len()
        invariant
            from <= i,
            1 <= p@.len() <= s@.len(),
            spec_find_from(s@, p@, from as int) == spec_find_from(s@, p@, i as int),
        decreases s@.len() - i,
    {
        if seq_occurs_at(s, p, i) {
            return Some(i);
        }
        i += 1;
    }
    None
}

pub fn find(s: &Vec<char>, p: &Vec<char>) -> (r: Option<usize>)
    ensures
        r matches Some(i) ==> spec_find(s@, p@) == Some(i as int),
        r is None ==> spec_find(s@, p@) is None,
{
    find_from(s, p, 0)
}

pub fn contains_seq(s: &Vec<char>, p: &Vec<char>) -> (b: bool)
    ensures
        b == spec_contains(s@, p@),
{
    let r = find(s, p);
    proof {
        lemma_find_from_some(s@, p@, 0);
    }
    r.is_some()
}

/// `s` contains `p` (`str::contains` with a string pattern).
pub fn str_contains(s: &str, p: &str) -> (b: bool)
    ensures
        b == spec_contains(s@, p@),
{
    let sv = chars_of(s);
    let pv = chars_of(p);
    contains_seq(&sv, &pv)
}

pub fn starts_with_seq(s: &Vec<char>, p: &Vec<char>) -> (b: bool)
    ensures
        b == spec_starts_with(s@, p@),
{
    if p.len() > s.len() {
        return false;
    }
    seq_occurs_at(s, p, 0)
}

pub fn ends_with_seq(s: &Vec<char>, p: &Vec<char>) -> (b: bool)
    ensures
        b == spec_ends_with(s@, p@),
{
    if p.len() > s.len() {
        return false;
    }
    seq_occurs_at(s, p, s.len() - p.len())
}

pub fn str_starts_with(s: &str, p: &str) -> (b: bool)
    ensures
        b == spec_starts_with(s@, p@),
{
    starts_with_seq(&chars_of(s), &chars_of(p))
}

pub fn contains_char(s: &Vec<char>, c: char) -> (b: bool)
    ensures
        b == s@.contains(c),
{
    let mut i: usize = 0;
    while i < s.len()
        invariant
            i <= s@.len(),
            forall|j: int| 0 <= j < i ==> s@[j] != c,
        decreases s@.len() - i,
    {
        if s[i] == c {
            return true;
        }
        i += 1;
    }
    false
}

/// Index of the first occurrence of `c`, if any.
pub open spec fn spec_index_of_char(s: Seq<char>, c: char) -> Option<int> {
    if s.contains(c) {
        Some(choose|i: int| 0 <= i < s.len() && s[i] == c && forall|j: int| 0 <= j < i ==> s[j] != c)
    } else {
        None
    }
}

pub fn index_of_char(s: &Vec<char>, c: char) -> (r: Option<usize>)
    ensures
        r matches Some(i) ==> i < s@.len() && s@[i as int] == c && forall|j: int|
            0 <= j < i ==> s@[j] != c,
        r is None ==> !s@.contains(c),
        r matches Some(i) ==> spec_index_of_char(s@, c) == Some(i as int),
        r is None ==> spec_index_of_char(s@, c) is None,
{
    let mut i: usize = 0;
    while i < s.len()
        invariant
            i <= s@.len(),
            forall|j: int| 0 <= j < i ==> s@[j] != c,
        decreases s@.len() - i,
    {
        if s[i] == c {
            proof {
                let k = choose|k: int|
                    0 <= k < s@.len() && s@[k] == c && forall|j: int| 0 <= j < k ==> s@[j] != c;
                assert(k == i);
            }
            return Some(i);
        }
        i += 1;
    }
    None
}

pub fn subvec(s: &Vec<char>, from: usize, to: usize) -> (r: Vec<char>)
    requires
        from <= to <= s@.len(),
    ensures
        r@ == s@.subrange(from as int, to as int),
{
    let mut r: Vec<char> = Vec::new();
    let mut i = from;
    while i < to
        invariant
            from <= i <= to <= s@.len(),
            r@ == s@.subrange(from as int, i as int),
        decreases to - i,
    {
        r.push(s[i]);
        i += 1;
    }
    r
}

pub fn eq_seq(a: &Vec<char>, b: &Vec<char>) -> (r: bool)
    ensures
        r == (a@ == b@),
{
    if a.len() != b.len() {
        return false;
    }
    let r = seq_occurs_at(a, b, 0);
    proof {
        if r {
            assert(a@ =~= a@.subrange(0, b@.len() as int));
        } else {
            assert(a@.subrange(0, b@.len() as int) =~= a@);
        }
    }
    r
}

pub fn str_eq(a: &str, b: &str) -> (r: bool)
    ensures
        r == (a@ == b@),
{
    eq_seq(&chars_of(a), &chars_of(b))
}


// ─── Trimming ────────────────────────────────────────────────────────────────

pub open spec fn trim_start_ws(s: Seq<char>) -> Seq<char>
    decreases s.len(),
{
    if s.len() > 0 && spec_is_whitespace(s[0]) {
        trim_start_ws(s.drop_first())
    } else {
        s
    }
}

pub open spec fn trim_end_ws(s: Seq<char>) -> Seq<char>
    decreases s.len(),
{
    if s.len() > 0 && spec_is_whitespace(s.last()) {
        trim_end_ws(s.drop_last())
    } else {
        s
    }
}

/// `str::trim`: leading and trailing whitespace removed.
pub open spec fn trim_ws(s: Seq<char>) -> Seq<char> {
    trim_end_ws(trim_start_ws(s))
}

pub open spec fn trim_start_char(s: Seq<char>, c: char) -> Seq<char>
    decreases s.len(),
{
    if s.len() > 0 && s[0] == c {
        trim_start_char(s.drop_first(), c)
    } else {
        s
    }
}

pub open spec fn trim_end_char(s: Seq<char>, c: char) -> Seq<char>
    decreases s.len(),
{
    if s.len() > 0 && s.last() == c {
        trim_end_char(s.drop_last(), c)
    } else {
        s
    }
}

/// `str::trim_matches(c)`.
pub open spec fn trim_char(s: Seq<char>, c: char) -> Seq<char> {
    trim_end_char(trim_start_char(s, c), c)
}

pub fn trim_vec(s: &Vec<char>) -> (r: Vec<char>)
    ensures
        r@ == trim_ws(s@),
{
    let n = s.len();
    let mut i: usize = 0;
    assert(s@.subrange(0, n as int) =~= s@);
    while i < n && is_whitespace(s[i])
        invariant
            i <= n == s@.len(),
            trim_start_ws(s@) == trim_start_ws(s@.subrange(i as int, n as int)),
        decreases n - i,
    {
        assert(s@.subrange(i as int, n as int).drop_first() =~= s@.subrange(i + 1, n as int));
        i += 1;
    }
    assert(trim_start_ws(s@.subrange(i as int, n as int)) == s@.subrange(i as int, n as int));
    let mut j: usize = n;
    while j > i && is_whitespace(s[j - 1])
        invariant
            i <= j <= n == s@.len(),
            trim_end_ws(s@.subrange(i as int, n as int)) == trim_end_ws(
                s@.subrange(i as int, j as int),
            ),
        decreases j,
    {
        assert(s@.subrange(i as int, j as int).drop_last() =~= s@.subrange(i as int, j - 1));
        j -= 1;
    }
    assert(trim_end_ws(s@.subrange(i as int, j as int)) == s@.subrange(i as int, j as int));
    subvec(s, i, j)
}

pub fn trim_char_vec(s: &Vec<char>, c: char) -> (r: Vec<char>)
    ensures
        r@ == trim_char(s@, c),
{
    let n = s.len();
    let mut i: usize = 0;
    assert(s@.subrange(0, n as int) =~= s@);
    while i < n && s[i] == c
        invariant
            i <= n == s@.len(),
            trim_start_char(s@, c) == trim_start_char(s@.subrange(i as int, n as int), c),
        decreases n - i,
    {
        assert(s@.subrange(i as int, n as int).drop_first() =~= s@.subrange(i + 1, n as int));
        i += 1;
    }
    assert(trim_start_char(s@.subrange(i as int, n as int), c) == s@.subrange(i as int, n as int));
    let mut j: usize = n;
    while j > i && s[j - 1] == c
        invariant
            i <= j <= n == s@.len(),
            trim_end_char(s@.subrange(i as int, n as int), c) == trim_end_char(
                s@.subrange(i as int, j as int),
                c,
            ),
        decreases j,
    {
        assert(s@.subrange(i as int, j as int).drop_last() =~= s@.subrange(i as int, j - 1));
        j -= 1;
    }
    assert(trim_end_char(s@.subrange(i as int, j as int), c) == s@.subrange(i as int, j as int));
    subvec(s, i, j)
}

/// `str::trim` on a string.
pub fn trim_str(s: &str) -> (r: String)
    ensures
        r@ == trim_ws(s@),
{
    let v = trim_vec(&chars_of(s));
    string_from_chars(&v)
}

// ─── Splitting ───────────────────────────────────────────────────────────────

/// The views of a sequence of strings.
pub open spec fn views(v: Seq<String>) -> Seq<Seq<char>> {
    v.map_values(|x: String| x@)
}

/// Words found so far and the word being read, after reading `s` from the left.
pub open spec fn ws_split_state(s: Seq<char>) -> (Seq<Seq<char>>, Seq<char>)
    decreases s.len(),
{
    if s.len() == 0 {
        (seq![], seq![])
    } else {
        let (words, cur) = ws_split_state(s.drop_last());
        if spec_is_whitespace(s.last()) {
            if cur.len() > 0 {
                (words.push(cur), seq![])
            } else {
                (words, cur)
            }
        } else {
            (words, cur.push(s.last()))
        }
    }
}

/// `str::split_whitespace`: the maximal runs of non-whitespace characters.
pub open spec fn split_whitespace_seq(s: Seq<char>) -> Seq<Seq<char>> {
    let (words, cur) = ws_split_state(s);
    if cur.len() > 0 {
        words.push(cur)
    } else {
        words
    }
}

pub fn split_whitespace(s: &str) -> (r: Vec<String>)
    ensures
        views(r@) == split_whitespace_seq(s@),
{
    let v = chars_of(s);
    let mut words: Vec<String> = Vec::new();
    let mut cur: Vec<char> = Vec::new();
    let mut i: usize = 0;
    while i < v.len()
        invariant
            i <= v@.len(),
            (views(words@), cur@) == ws_split_state(v@.take(i as int)),
        decreases v@.len() - i,
    {
        assert(v@.take(i + 1).drop_last() =~= v@.take(i as int));
        let c = v[i];
        if is_whitespace(c) {
            if cur.len() > 0 {
                let w = string_from_chars(&cur);
                words.push(w);
                cur = Vec::new();
                assert(views(words@) =~= ws_split_state(v@.take(i + 1)).0);
            }
        } else {
            cur.push(c);
        }
        i += 1;
    }
    assert(v@.take(v@.len() as int) =~= v@);
    if cur.len() > 0 {
        let w = string_from_chars(&cur);
        words.push(w);
        assert(views(words@) =~= split_whitespace_seq(s@));
    }
    words
}

/// `str::split_once(c)`: the parts before and after the first `c`.
pub open spec fn split_once_seq(s: Seq<char>, c: char) -> Option<(Seq<char>, Seq<char>)> {
    match spec_index_of_char(s, c) {
        Some(i) => Some((s.subrange(0, i), s.subrange(i + 1, s.len() as int))),
        None => None,
    }
}

pub fn split_once_vec(s: &Vec<char>, c: char) -> (r: Option<(Vec<char>, Vec<char>)>)
    ensures
        match r {
            Some((a, b)) => split_once_seq(s@, c) == Some((a@, b@)),
            None => split_once_seq(s@, c) is None,
        },
{
    match index_of_char(s, c) {
        Some(i) => {
            let n = s.len();
            let a = subvec(s, 0, i);
            let b = subvec(s, i + 1, n);
            Some((a, b))
        },
        None => None,
    }
}

// ─── Replacing ───────────────────────────────────────────────────────────────

/// `str::replace(from, to)` for a non-empty pattern: every non-overlapping
/// occurrence, from the left, replaced.
pub open spec fn replace_seq(s: Seq<char>, from: Seq<char>, to: Seq<char>) -> Seq<char>
    decreases s.len(),
{
    if from.len() == 0 || s.len() < from.len() {
        s
    } else if s.subrange(0, from.len() as int) == from {
        to + replace_seq(s.subrange(from.len() as int, s.len() as int), from, to)
    } else {
        seq![s[0]] + replace_seq(s.drop_first(), from, to)
    }
}

pub fn replace_vec(s: &Vec<char>, from: &Vec<char>, to: &Vec<char>) -> (r: Vec<char>)
    requires
        from@.len() > 0,
    ensures
        r@ == replace_seq(s@, from@, to@),
{
    let n = s.len();
    let m = from.len();
    let mut r: Vec<char> = Vec::new();
    let mut i: usize = 0;
    assert(s@.subrange(0, n as int) =~= s@);
    while i < n
        invariant
            i <= n == s@.len(),
            m == from@.len() > 0,
            r@ + replace_seq(s@.subrange(i as int, n as int), from@, to@) == replace_seq(
                s@,
                from@,
                to@,
            ),
        decreases n - i,
    {
        let ghost rest = s@.subrange(i as int, n as int);
        if m <= n - i && seq_occurs_at(s, from, i) {
            assert(rest.subrange(0, m as int) =~= s@.subrange(i as int, i + m));
            assert(rest.subrange(m as int, rest.len() as int) =~= s@.subrange(i + m, n as int));
            let mut k: usize = 0;
            let ghost r0 = r@;
            while k < to.len()
                invariant
                    k <= to@.len(),
                    r@ == r0 + to@.subrange(0, k as int),
                decreases to@.len() - k,
            {
                r.push(to[k]);
                k += 1;
            }
            assert(to@.subrange(0, to@.len() as int) =~= to@);
            assert(r@ + replace_seq(s@.subrange(i + m, n as int), from@, to@) =~= r0 + (to@
                + replace_seq(s@.subrange(i + m, n as int), from@, to@)));
            i += m;
        } else {
            proof {
                if m <= n - i {
                    assert(rest.subrange(0, m as int) =~= s@.subrange(i as int, i + m));
                }
                assert(rest.drop_first() =~= s@.subrange(i + 1, n as int));
            }
            let ghost r0 = r@;
            r.push(s[i]);
            assert(r@ + replace_seq(s@.subrange(i + 1, n as int), from@, to@) =~= r0 + (seq![
                s@[i as int],
            ] + replace_seq(s@.subrange(i + 1, n as int), from@, to@)));
            i += 1;
        }
    }
    assert(replace_seq(s@.subrange(n as int, n as int), from@, to@) =~= Seq::<char>::empty());
    assert(r@ + Seq::<char>::empty() =~= r@);
    r
}

// ─── Case mapping ────────────────────────────────────────────────────────────

/// What `str::to_lowercase` returns: the full Unicode lowercase mapping.
pub uninterp spec fn lowercase_of(s: Seq<char>) -> Seq<char>;

/// Every character of `s` is ASCII.
pub open spec fn all_ascii(s: Seq<char>) -> bool {
    forall|i: int| 0 <= i < s.len() ==> (#[trigger] s[i] as int) < 128
}

/// The lowercase form of `s` as `str::to_lowercase` gives it: the ASCII
/// lowercasing on ASCII text, the Unicode mapping (named, not stated)
/// otherwise.
pub open spec fn lowercase_seq(s: Seq<char>) -> Seq<char> {
    if all_ascii(s) {
        ascii_lower_seq(s)
    } else {
        lowercase_of(s)
    }
}

/// `str::to_lowercase`: the result is named (`lowercase_of`), a function of
/// the text alone. On ASCII text it is the ASCII lowercasing (`A`–`Z` to
/// `a`–`z`, every other character unchanged), as std documents; the Unicode
/// mapping of other characters is not stated.
#[verifier::external_body]
pub(crate) fn to_lowercase(s: &str) -> (r: String)
    ensures
        r@ == lowercase_of(s@),
        all_ascii(s@) ==> r@ == ascii_lower_seq(s@),
{
    s.to_lowercase()
}

pub open spec fn ascii_lower_seq(s: Seq<char>) -> Seq<char> {
    s.map_values(|c: char| spec_to_ascii_lower(c))
}

pub fn ascii_lower_vec(s: &Vec<char>) -> (r: Vec<char>)
    ensures
        r@ == ascii_lower_seq(s@),
{
    let mut r: Vec<char> = Vec::new();
    let mut i: usize = 0;
    while i < s.len()
        invariant
            i <= s@.len(),
            r@ == ascii_lower_seq(s@.take(i as int)),
        decreases s@.len() - i,
    {
        r.push(to_ascii_lower(s[i]));
        i += 1;
        assert(r@ =~= ascii_lower_seq(s@.take(i as int)));
    }
    assert(s@.take(s@.len() as int) =~= s@);
    r
}

/// `str::eq_ignore_ascii_case`.
pub open spec fn eq_ignore_ascii_case(a: Seq<char>, b: Seq<char>) -> bool {
    ascii_lower_seq(a) == ascii_lower_seq(b)
}

pub fn eq_ignore_ascii_case_vec(a: &Vec<char>, b: &Vec<char>) -> (r: bool)
    ensures
        r == eq_ignore_ascii_case(a@, b@),
{
    let la = ascii_lower_vec(a);
    let lb = ascii_lower_vec(b);
    eq_seq(&la, &lb)
}

// ─── Numbers ─────────────────────────────────────────────────────────────────

pub open spec fn digit_value(c: char) -> nat {
    ((c as int) - ('0' as int)) as nat
}

pub open spec fn all_digits(s: Seq<char>) -> bool {
    forall|i: int| 0 <= i < s.len() ==> spec_is_ascii_digit(#[trigger] s[i])
}

/// The number that a string of decimal digits denotes.
pub open spec fn digits_value(s: Seq<char>) -> nat
    decreases s.len(),
{
    if s.len() == 0 {
        0
    } else {
        digits_value(s.drop_last()) * 10 + digit_value(s.last())
    }
}

/// `str::parse` for an unsigned integer type whose largest value is `max`:
/// an optional `+`, then at least one decimal digit, and a value within range.
pub open spec fn spec_parse_unsigned(s: Seq<char>, max: nat) -> Option<nat> {
    let d = if s.len() > 0 && s[0] == '+' {
        s.drop_first()
    } else {
        s
    };
    if d.len() > 0 && all_digits(d) && digits_value(d) <= max {
        Some(digits_value(d))
    } else {
        None
    }
}

pub proof fn lemma_digits_value_prefix(s: Seq<char>, k: int)
    requires
        0 <= k <= s.len(),
        all_digits(s),
    ensures
        digits_value(s.take(k)) <= digits_value(s),
    decreases s.len() - k,
{
    if k < s.len() {
        lemma_digits_value_prefix(s, k + 1);
        assert(s.take(k + 1).drop_last() =~= s.take(k));
    } else {
        assert(s.take(k) =~= s);
    }
}

pub fn parse_unsigned(s: &Vec<char>, max: u64) -> (r: Option<u64>)
    ensures
        match r {
            Some(v) => spec_parse_unsigned(s@, max as nat) == Some(v as nat),
            None => spec_parse_unsigned(s@, max as nat) is None,
        },
{
    let start: usize = if s.len() > 0 && s[0] == '+' {
        1
    } else {
        0
    };
    let ghost d = if s@.len() > 0 && s@[0] == '+' {
        s@.drop_first()
    } else {
        s@
    };
    assert(d =~= s@.subrange(start as int, s@.len() as int));
    if start >= s.len() {
        return None;
    }
    let mut acc: u64 = 0;
    let mut i: usize = start;
    while i < s.len()
        invariant
            start <= i <= s@.len(),
            start < s@.len(),
            d == s@.subrange(start as int, s@.len() as int),
            d == (if s@.len() > 0 && s@[0] == '+' {
                s@.drop_first()
            } else {
                s@
            }),
            all_digits(d.take(i - start)),
            acc as nat == digits_value(d.take(i - start)),
            acc <= max,
        decreases s@.len() - i,
    {
        let c = s[i];
        if !is_ascii_digit(c) {
            assert(d[i - start] == c);
            return None;
        }
        let dv: u64 = (c as u64) - ('0' as u64);
        assert(d.take(i - start + 1).drop_last() =~= d.take(i - start));
        let next: u128 = (acc as u128) * 10 + (dv as u128);
        assert(digits_value(d.take(i - start + 1)) == next);
        if next > max as u128 {
            proof {
                if all_digits(d) {
                    lemma_digits_value_prefix(d, i - start + 1);
                }
            }
            return None;
        }
        acc = next as u64;
        i += 1;
        assert(all_digits(d.take(i - start)));
    }
    assert(d.take(i - start) =~= d);
    Some(acc)
}

pub fn parse_u16(s: &Vec<char>) -> (r: Option<u16>)
    ensures
        match r {
            Some(v) => spec_parse_unsigned(s@, 65535) == Some(v as nat),
            None => spec_parse_unsigned(s@, 65535) is None,
        },
{
    match parse_unsigned(s, 65535) {
        Some(v) => Some(v as u16),
        None => None,
    }
}

pub open spec fn digit_char(d: nat) -> char {
    (('0' as int) + d) as char
}

/// Decimal digits of `n`, without leading zeros (`"0"` for zero).
pub open spec fn decimal_seq(n: nat) -> Seq<char>
    decreases n,
{
    if n < 10 {
        seq![digit_char(n)]
    } else {
        decimal_seq(n / 10).push(digit_char(n % 10))
    }
}

/// The decimal digits of `n` are digits, at least one, and denote `n`.
pub proof fn lemma_decimal_seq(n: nat)
    ensures
        decimal_seq(n).len() > 0,
        all_digits(decimal_seq(n)),
        digits_value(decimal_seq(n)) == n,
    decreases n,
{
    if n < 10 {
        assert(decimal_seq(n).drop_last() =~= Seq::<char>::empty());
        assert(digit_value(digit_char(n)) == n);
        assert(digits_value(decimal_seq(n)) == digits_value(Seq::<char>::empty()) * 10 + digit_value(digit_char(n)));
    } else {
        lemma_decimal_seq(n / 10);
        let d = decimal_seq(n / 10);
        assert(decimal_seq(n).drop_last() =~= d);
        assert(digit_value(digit_char(n % 10)) == n % 10);
        assert((n / 10) * 10 + n % 10 == n) by (nonlinear_arith);
        assert(decimal_seq(n) == d.push(digit_char(n % 10)));
        assert(decimal_seq(n).last() == digit_char(n % 10));
        assert(digits_value(decimal_seq(n)) == digits_value(d) * 10 + digit_value(digit_char(n % 10)));
        assert forall|i: int| 0 <= i < decimal_seq(n).len() implies spec_is_ascii_digit(
            #[trigger] decimal_seq(n)[i],
        ) by {
            if i < d.len() {
                assert(decimal_seq(n)[i] == d[i]);
            }
        }
    }
}

/// Trimming keeps a text whose ends are not whitespace.
pub proof fn lemma_trim_keeps(s: Seq<char>)
    requires
        s.len() > 0 ==> !spec_is_whitespace(s[0]) && !spec_is_whitespace(s.last()),
    ensures
        trim_ws(s) == s,
{
}

/// `str::parse` reads back the decimal digits of a number within range.
pub proof fn lemma_parse_decimal(n: nat, max: nat)
    requires
        n <= max,
    ensures
        trim_ws(decimal_seq(n)) == decimal_seq(n),
        spec_parse_unsigned(decimal_seq(n), max) == Some(n),
{
    lemma_decimal_seq(n);
    let d = decimal_seq(n);
    assert(spec_is_ascii_digit(d[0]));
    assert(spec_is_ascii_digit(d[d.len() - 1]));
    lemma_trim_keeps(d);
}

pub fn decimal_vec(n: u64) -> (r: Vec<char>)
    ensures
        r@ == decimal_seq(n as nat),
    decreases n,
{
    if n < 10 {
        let c = ((n as u8) + 48) as char;
        let mut r: Vec<char> = Vec::new();
        r.push(c);
        assert(r@ =~= seq![digit_char(n as nat)]);
        r
    } else {
        let mut r = decimal_vec(n / 10);
        let c = (((n % 10) as u8) + 48) as char;
        r.push(c);
        r
    }
}

/// `u64::to_string`.
pub fn u64_to_string(n: u64) -> (r: String)
    ensures
        r@ == decimal_seq(n as nat),
{
    let v = decimal_vec(n);
    string_from_chars(&v)
}

// ─── Splitting on a character ────────────────────────────────────────────────

/// The views of a sequence of character vectors.
pub open spec fn vviews(v: Seq<Vec<char>>) -> Seq<Seq<char>> {
    v.map_values(|x: Vec<char>| x@)
}

/// Pieces found so far and the piece being read.
pub open spec fn split_state(s: Seq<char>, c: char) -> (Seq<Seq<char>>, Seq<char>)
    decreases s.len(),
{
    if s.len() == 0 {
        (seq![], seq![])
    } else {
        let (ps, cur) = split_state(s.drop_last(), c);
        if s.last() == c {
            (ps.push(cur), seq![])
        } else {
            (ps, cur.push(s.last()))
        }
    }
}

/// `str::split(c)`: the pieces between the occurrences of `c`, empty ones
/// included; there is always one more piece than occurrences.
pub open spec fn split_char_seq(s: Seq<char>, c: char) -> Seq<Seq<char>> {
    let (ps, cur) = split_state(s, c);
    ps.push(cur)
}

pub fn split_char(s: &Vec<char>, c: char) -> (r: Vec<Vec<char>>)
    ensures
        vviews(r@) == split_char_seq(s@, c),
{
    let mut pieces: Vec<Vec<char>> = Vec::new();
    let mut cur: Vec<char> = Vec::new();
    let mut i: usize = 0;
    assert(vviews(pieces@) =~= Seq::<Seq<char>>::empty());
    while i < s.len()
        invariant
            i <= s@.len(),
            (vviews(pieces@), cur@) == split_state(s@.take(i as int), c),
        decreases s@.len() - i,
    {
        assert(s@.take(i + 1).drop_last() =~= s@.take(i as int));
        if s[i] == c {
            let ghost before = vviews(pieces@);
            let done = cur;
            pieces.push(done);
            cur = Vec::new();
            assert(vviews(pieces@) =~= before.push(done@));
        } else {
            cur.push(s[i]);
        }
        i += 1;
    }
    assert(s@.take(i as int) =~= s@);
    let ghost before = vviews(pieces@);
    let last = cur;
    pieces.push(last);
    assert(vviews(pieces@) =~= before.push(last@));
    pieces
}


// ─── Lines ───────────────────────────────────────────────────────────────────

/// A line without the carriage return that ended it.
pub open spec fn strip_cr(p: Seq<char>) -> Seq<char> {
    if p.len() > 0 && p.last() == '\r' {
        p.drop_last()
    } else {
        p
    }
}

/// `str::lines`: the pieces between the `\n`, each without a `\r` just
/// before its `\n`; a text that ends with `\n` has no empty last line.
pub open spec fn lines_seq(s: Seq<char>) -> Seq<Seq<char>> {
    let ps = split_char_seq(s, '\n');
    let body = ps.drop_last().map_values(|p: Seq<char>| strip_cr(p));
    if ps.last().len() > 0 {
        body.push(ps.last())
    } else {
        body
    }
}

/// `str::lines` on a string.
pub fn lines_of(s: &str) -> (r: Vec<String>)
    ensures
        views(r@) == lines_seq(s@),
{
    let pieces = split_char(&chars_of(s), '\n');
    let ghost ps = split_char_seq(s@, '\n');
    assert(vviews(pieces@) == ps);
    assert(ps.len() > 0) by {
        let (a, b) = split_state(s@, '\n');
        assert(ps == a.push(b));
    }
    let n = pieces.len();
    let ghost body = ps.drop_last().map_values(|p: Seq<char>| strip_cr(p));
    let mut r: Vec<String> = Vec::new();
    let mut i: usize = 0;
    while i + 1 < n
        invariant
            n == pieces@.len(),
            n >= 1,
            vviews(pieces@) == ps,
            ps == split_char_seq(s@, '\n'),
            body == ps.drop_last().map_values(|p: Seq<char>| strip_cr(p)),
            i < n,
            views(r@) == body.take(i as int),
        decreases n - i,
    {
        let p = &pieces[i];
        assert(p@ == ps[i as int]);
        let len = p.len();
        let stripped = if len > 0 && p[len - 1] == '\r' {
            subvec(p, 0, len - 1)
        } else {
            p.clone()
        };
        assert(stripped@ =~= strip_cr(ps[i as int]));
        let ghost before = views(r@);
        r.push(string_from_chars(&stripped));
        assert(views(r@) =~= before.push(body[i as int]));
        assert(body.take(i + 1) =~= body.take(i as int).push(body[i as int]));
        i += 1;
    }
    assert(body.take(i as int) =~= body);
    let last = &pieces[n - 1];
    assert(last@ == ps.last());
    if last.len() > 0 {
        let ghost before = views(r@);
        r.push(string_from_chars(last));
        assert(views(r@) =~= before.push(ps.last()));
    }
    r
}

} // verus!
