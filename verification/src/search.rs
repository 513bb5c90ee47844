//! The search bar: a query of words and `#tag` tokens, matched fuzzily
//! against a server's name and host and exactly against its tags.
use vstd::prelude::*;
use crate::text::{
    chars_of, lowercase_seq, spec_is_whitespace, split_whitespace, split_whitespace_seq,
    string_from_chars, to_lowercase, views, ws_split_state,
};

verus! {

/// Text and tag tokens after reading `words` in order: a word starting with
/// `#` is a tag (without the `#`, lower-cased; a bare `#` is dropped), any
/// other word is text (lower-cased).
pub open spec fn tokens_of(words: Seq<Seq<char>>) -> (Seq<Seq<char>>, Seq<Seq<char>>)
    decreases words.len(),
{
    if words.len() == 0 {
        (seq![], seq![])
    } else {
        let (text, tags) = tokens_of(words.drop_last());
        let w = words.last();
        if w.len() > 0 && w[0] == '#' {
            if w.len() > 1 {
                (text, tags.push(lowercase_seq(w.drop_first())))
            } else {
                (text, tags)
            }
        } else {
            (text.push(lowercase_seq(w)), tags)
        }
    }
}

/// The search tokens of a query: words are separated by whitespace.
pub open spec fn search_tokens(query: Seq<char>) -> (Seq<Seq<char>>, Seq<Seq<char>>) {
    tokens_of(split_whitespace_seq(query))
}

/// Splits a query into text tokens and `#tag` tokens, both lower-cased.
pub fn parse_search_tokens(query: &str) -> (r: (Vec<String>, Vec<String>))
    ensures
        (views(r.0@), views(r.1@)) == search_tokens(query@),
{
    let words = split_whitespace(query);
    let ghost ws = views(words@);
    let mut text: Vec<String> = Vec::new();
    let mut tags: Vec<String> = Vec::new();
    let mut i: usize = 0;
    assert(views(text@) =~= Seq::<Seq<char>>::empty());
    assert(views(tags@) =~= Seq::<Seq<char>>::empty());
    while i < words.len()
        invariant
            i <= words@.len(),
            ws == views(words@),
            (views(text@), views(tags@)) == tokens_of(ws.take(i as int)),
        decreases words@.len() - i,
    {
        assert(ws.take(i + 1).drop_last() =~= ws.take(i as int));
        let w = chars_of(words[i].as_str());
        assert(w@ == ws[i as int]);
        if w.len() > 0 && w[0] == '#' {
            if w.len() > 1 {
                let rest = crate::text::subvec(&w, 1, w.len());
                assert(rest@ =~= w@.drop_first());
                let rs = string_from_chars(&rest);
                let t = to_lowercase(rs.as_str());
                let ghost before = views(tags@);
                tags.push(t);
                assert(views(tags@) =~= before.push(lowercase_seq(w@.drop_first())));
            }
        } else {
            let t = to_lowercase(words[i].as_str());
            let ghost before = views(text@);
            text.push(t);
            assert(views(text@) =~= before.push(lowercase_seq(w@)));
        }
        i += 1;
    }
    assert(ws.take(i as int) =~= ws);
    (text, tags)
}

// ─── Fuzzy matching ──────────────────────────────────────────────────────────

/// What `SkimMatcherV2::default().fuzzy_match(choice, pattern)` returns.
pub uninterp spec fn skim_fuzzy_match(choice: Seq<char>, pattern: Seq<char>) -> Option<i64>;

/// `SkimMatcherV2::fuzzy_match` with the default settings (smart case): the
/// score of the best alignment of `pattern` in `choice`, `None` when the
/// characters of `pattern` do not all occur in order. Its result depends on
/// the two strings alone; for an empty pattern it is `Some(0)`.
#[verifier::external_body]
fn fuzzy_match(choice: &str, pattern: &str) -> (r: Option<i64>)
    ensures
        r == skim_fuzzy_match(choice@, pattern@),
        pattern@.len() == 0 ==> r == Some(0i64),
{
    let matcher = fuzzy_matcher::skim::SkimMatcherV2::default();
    fuzzy_matcher::FuzzyMatcher::fuzzy_match(&matcher, choice, pattern)
}

pub open spec fn score_or_zero(o: Option<i64>) -> i64 {
    match o {
        Some(s) => s,
        None => 0,
    }
}

/// The better of a token's fuzzy scores in the name and in the host, a
/// missing match counting as 0.
pub open spec fn spec_best_score(in_name: Option<i64>, in_host: Option<i64>) -> i64 {
    let a = score_or_zero(in_name);
    let b = score_or_zero(in_host);
    if a >= b {
        a
    } else {
        b
    }
}

/// The score of a token from its fuzzy scores in the name and in the host
/// (see `spec_best_score`).
pub fn best_score(in_name: Option<i64>, in_host: Option<i64>) -> (r: i64)
    ensures
        r == spec_best_score(in_name, in_host),
{
    let a = match in_name {
        Some(s) => s,
        None => 0,
    };
    let b = match in_host {
        Some(s) => s,
        None => 0,
    };
    if a >= b {
        a
    } else {
        b
    }
}

/// The total after one more token: none when the token's score is not
/// positive (the server does not match), else the sum, wrapping on `i64`.
pub open spec fn spec_add_token(total: i64, score: i64) -> Option<i64> {
    if score <= 0 {
        None
    } else {
        Some(vstd::wrapping::i64_specs::wrapping_add(total, score))
    }
}

/// Adds a token's score to the running total (see `spec_add_token`).
pub fn add_token(total: i64, score: i64) -> (r: Option<i64>)
    ensures
        r == spec_add_token(total, score),
{
    if score <= 0 {
        None
    } else {
        Some(total.wrapping_add(score))
    }
}

/// The better of the fuzzy scores of `token` in the name and in the host.
pub open spec fn spec_token_score(token: Seq<char>, name_lc: Seq<char>, host_lc: Seq<char>) -> i64 {
    spec_best_score(skim_fuzzy_match(name_lc, token), skim_fuzzy_match(host_lc, token))
}

fn token_score(token: &str, name_lc: &str, host_lc: &str) -> (r: i64)
    ensures
        r == spec_token_score(token@, name_lc@, host_lc@),
{
    best_score(fuzzy_match(name_lc, token), fuzzy_match(host_lc, token))
}

/// Every text token has a positive score in the name or the host.
pub open spec fn all_tokens_match(tokens: Seq<Seq<char>>, name_lc: Seq<char>, host_lc: Seq<char>) -> bool {
    forall|i: int| 0 <= i < tokens.len() ==> spec_token_score(#[trigger] tokens[i], name_lc, host_lc) > 0
}

/// Sum of the token scores (wrapping on `i64`), or `None` at the first token
/// without a positive score.
pub open spec fn total_score(tokens: Seq<Seq<char>>, name_lc: Seq<char>, host_lc: Seq<char>) -> Option<
    i64,
>
    decreases tokens.len(),
{
    if tokens.len() == 0 {
        Some(0)
    } else {
        match total_score(tokens.drop_last(), name_lc, host_lc) {
            Some(t) => spec_add_token(t, spec_token_score(tokens.last(), name_lc, host_lc)),
            None => None,
        }
    }
}

/// Combined fuzzy score of the text tokens of `query` against a server:
/// `Some(0)` without text tokens, `None` when one token matches neither the
/// name nor the host, otherwise the sum of the token scores.
pub fn fuzzy_score(query: &str, name: &str, host: &str) -> (r: Option<i64>)
    ensures
        r == total_score(search_tokens(query@).0, lowercase_seq(name@), lowercase_seq(host@)),
{
    let (text_tokens, _tags) = parse_search_tokens(query);
    let ghost ts = views(text_tokens@);
    if text_tokens.len() == 0 {
        return Some(0);
    }
    let name_lc = to_lowercase(name);
    let host_lc = to_lowercase(host);
    let mut total: i64 = 0;
    let mut i: usize = 0;
    while i < text_tokens.len()
        invariant
            i <= text_tokens@.len(),
            ts == views(text_tokens@),
            ts == search_tokens(query@).0,
            name_lc@ == lowercase_seq(name@),
            host_lc@ == lowercase_seq(host@),
            total_score(ts.take(i as int), name_lc@, host_lc@) == Some(total),
        decreases text_tokens@.len() - i,
    {
        assert(ts.take(i + 1).drop_last() =~= ts.take(i as int));
        let score = token_score(text_tokens[i].as_str(), name_lc.as_str(), host_lc.as_str());
        assert(ts.take(i + 1).last() == ts[i as int]);
        match add_token(total, score) {
            None => {
                proof {
                    assert(total_score(ts.take(i + 1), name_lc@, host_lc@) is None);
                    lemma_total_none_stays(ts, name_lc@, host_lc@, i + 1);
                }
                return None;
            },
            Some(t) => {
                total = t;
            },
        }
        i += 1;
    }
    assert(ts.take(i as int) =~= ts);
    Some(total)
}

proof fn lemma_total_none_stays(ts: Seq<Seq<char>>, n: Seq<char>, h: Seq<char>, k: int)
    requires
        0 <= k <= ts.len(),
        total_score(ts.take(k), n, h) is None,
    ensures
        total_score(ts, n, h) is None,
    decreases ts.len() - k,
{
    if k < ts.len() {
        assert(ts.take(k + 1).drop_last() =~= ts.take(k));
        lemma_total_none_stays(ts, n, h, k + 1);
    } else {
        assert(ts.take(k) =~= ts);
    }
}

/// Some tag of the server equals `t`, ignoring case.
pub open spec fn has_tag(tags: Seq<Seq<char>>, t: Seq<char>) -> bool {
    exists|j: int| 0 <= j < tags.len() && lowercase_seq(#[trigger] tags[j]) == lowercase_seq(t)
}

/// A server matches a query when it has every `#tag` of the query (ignoring
/// case) and every text token matches its name or host fuzzily.
pub open spec fn spec_matches_query(
    query: Seq<char>,
    name: Seq<char>,
    host: Seq<char>,
    tags: Seq<Seq<char>>,
) -> bool {
    let (text, tag_tokens) = search_tokens(query);
    &&& forall|i: int| 0 <= i < tag_tokens.len() ==> has_tag(tags, #[trigger] tag_tokens[i])
    &&& (text.len() == 0 || all_tokens_match(text, lowercase_seq(name), lowercase_seq(host)))
}

fn eq_strings(a: &String, b: &String) -> (r: bool)
    ensures
        r == (a@ == b@),
{
    crate::text::str_eq(a.as_str(), b.as_str())
}

fn has_tag_exec(tags: &Vec<String>, t: &String) -> (r: bool)
    ensures
        r == has_tag(views(tags@), t@),
{
    let t_lc = to_lowercase(t.as_str());
    let mut j: usize = 0;
    while j < tags.len()
        invariant
            j <= tags@.len(),
            t_lc@ == lowercase_seq(t@),
            forall|k: int| 0 <= k < j ==> lowercase_seq(#[trigger] views(tags@)[k]) != lowercase_seq(t@),
        decreases tags@.len() - j,
    {
        let lc = to_lowercase(tags[j].as_str());
        if eq_strings(&lc, &t_lc) {
            assert(lowercase_seq(views(tags@)[j as int]) == lowercase_seq(t@));
            return true;
        }
        j += 1;
    }
    false
}

/// Whether a server matches the search query.
pub fn matches_search_query(query: &str, name: &str, host: &str, tags: &Vec<String>) -> (r: bool)
    ensures
        r == spec_matches_query(query@, name@, host@, views(tags@)),
{
    let (text_tokens, tag_tokens) = parse_search_tokens(query);
    let ghost tt = views(tag_tokens@);
    let ghost st = search_tokens(query@);
    assert(st.1 == tt && st.0 == views(text_tokens@));
    let mut i: usize = 0;
    while i < tag_tokens.len()
        invariant
            i <= tag_tokens@.len(),
            tt == views(tag_tokens@),
            st == search_tokens(query@),
            st.1 == tt,
            forall|k: int| 0 <= k < i ==> has_tag(views(tags@), #[trigger] tt[k]),
        decreases tag_tokens@.len() - i,
    {
        if !has_tag_exec(tags, &tag_tokens[i]) {
            assert(!has_tag(views(tags@), st.1[i as int]));
            return false;
        }
        i += 1;
    }
    if text_tokens.len() == 0 {
        return true;
    }
    let ghost ts = views(text_tokens@);
    let name_lc = to_lowercase(name);
    let host_lc = to_lowercase(host);
    let mut k: usize = 0;
    while k < text_tokens.len()
        invariant
            k <= text_tokens@.len(),
            ts == views(text_tokens@),
            st == search_tokens(query@),
            st.0 == ts,
            forall|k: int| 0 <= k < st.1.len() ==> has_tag(views(tags@), #[trigger] st.1[k]),
            name_lc@ == lowercase_seq(name@),
            host_lc@ == lowercase_seq(host@),
            forall|m: int| 0 <= m < k ==> spec_token_score(#[trigger] ts[m], name_lc@, host_lc@) > 0,
        decreases text_tokens@.len() - k,
    {
        if token_score(text_tokens[k].as_str(), name_lc.as_str(), host_lc.as_str()) <= 0 {
            assert(spec_token_score(st.0[k as int], lowercase_seq(name@), lowercase_seq(host@)) <= 0);
            assert(!all_tokens_match(st.0, lowercase_seq(name@), lowercase_seq(host@)));
            return false;
        }
        k += 1;
    }
    true
}


// ─── Laws ────────────────────────────────────────────────────────────────────

proof fn lemma_split_after_space(q: Seq<char>)
    ensures
        ws_split_state(q.push(' ')).1.len() == 0,
        split_whitespace_seq(q.push(' ')) == split_whitespace_seq(q),
{
    assert(q.push(' ').drop_last() =~= q);
    assert(spec_is_whitespace(' '));
}

proof fn lemma_split_word(s: Seq<char>, w: Seq<char>)
    requires
        ws_split_state(s).1.len() == 0,
        forall|i: int| 0 <= i < w.len() ==> !spec_is_whitespace(#[trigger] w[i]),
    ensures
        ws_split_state(s + w) == (ws_split_state(s).0, w),
    decreases w.len(),
{
    if w.len() == 0 {
        assert(s + w =~= s);
    } else {
        let v = w.drop_last();
        lemma_split_word(s, v);
        assert((s + w).drop_last() =~= s + v);
        assert((s + w).last() == w.last());
        assert(v.push(w.last()) =~= w);
    }
}

/// Tag filtering is a conjunction: adding a `#tag` word to a query keeps
/// exactly the servers that matched the query and also have that tag.
pub proof fn lemma_tag_narrows(query: Seq<char>, tag_word: Seq<char>, name: Seq<char>, host: Seq<char>, tags: Seq<Seq<char>>)
    requires
        tag_word.len() > 1,
        tag_word[0] == '#',
        forall|i: int| 0 <= i < tag_word.len() ==> !spec_is_whitespace(#[trigger] tag_word[i]),
    ensures
        spec_matches_query(query.push(' ') + tag_word, name, host, tags) == (spec_matches_query(
            query,
            name,
            host,
            tags,
        ) && has_tag(tags, lowercase_seq(tag_word.drop_first()))),
{
    let q1 = query.push(' ');
    lemma_split_after_space(query);
    lemma_split_word(q1, tag_word);
    let ws = split_whitespace_seq(query);
    assert(split_whitespace_seq(q1 + tag_word) == ws.push(tag_word));
    assert(ws.push(tag_word).drop_last() =~= ws);
    let (text, tg) = search_tokens(query);
    let (text2, tg2) = search_tokens(q1 + tag_word);
    assert(text2 == text);
    assert(tg2 == tg.push(lowercase_seq(tag_word.drop_first())));
    if spec_matches_query(q1 + tag_word, name, host, tags) {
        assert forall|i: int| 0 <= i < tg.len() implies has_tag(tags, #[trigger] tg[i]) by {
            assert(tg2[i] == tg[i]);
        }
        assert(tg2[tg.len() as int] == lowercase_seq(tag_word.drop_first()));
    }
    if spec_matches_query(query, name, host, tags) && has_tag(tags, lowercase_seq(tag_word.drop_first())) {
        assert forall|i: int| 0 <= i < tg2.len() implies has_tag(tags, #[trigger] tg2[i]) by {
            if i < tg.len() {
                assert(tg2[i] == tg[i]);
            }
        }
    }
}

/// Words are a conjunction too: adding a word to a query keeps exactly the
/// servers that matched the query and whose name or host also matches the
/// word fuzzily.
pub proof fn lemma_word_narrows(query: Seq<char>, word: Seq<char>, name: Seq<char>, host: Seq<char>, tags: Seq<Seq<char>>)
    requires
        word.len() > 0,
        word[0] != '#',
        forall|i: int| 0 <= i < word.len() ==> !spec_is_whitespace(#[trigger] word[i]),
    ensures
        spec_matches_query(query.push(' ') + word, name, host, tags) == (spec_matches_query(
            query,
            name,
            host,
            tags,
        ) && spec_token_score(lowercase_seq(word), lowercase_seq(name), lowercase_seq(host)) > 0),
{
    let q1 = query.push(' ');
    lemma_split_after_space(query);
    lemma_split_word(q1, word);
    let ws = split_whitespace_seq(query);
    assert(split_whitespace_seq(q1 + word) == ws.push(word));
    assert(ws.push(word).drop_last() =~= ws);
    let (text, tg) = search_tokens(query);
    let (text2, tg2) = search_tokens(q1 + word);
    assert(tg2 == tg);
    assert(text2 == text.push(lowercase_seq(word)));
    let n = lowercase_seq(name);
    let h = lowercase_seq(host);
    if all_tokens_match(text2, n, h) {
        assert forall|i: int| 0 <= i < text.len() implies spec_token_score(#[trigger] text[i], n, h) > 0 by {
            assert(text2[i] == text[i]);
        }
        assert(text2[text.len() as int] == lowercase_seq(word));
    }
    if (text.len() == 0 || all_tokens_match(text, n, h)) && spec_token_score(lowercase_seq(word), n, h) > 0 {
        assert forall|i: int| 0 <= i < text2.len() implies spec_token_score(#[trigger] text2[i], n, h) > 0 by {
            if i < text.len() {
                assert(text2[i] == text[i]);
            }
        }
    }
}

} // verus!
