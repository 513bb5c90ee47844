//! Template variables `{{ name }}` of a configuration file.
use vstd::prelude::*;
use crate::text::{
    chars_of, find, lemma_find_from_some, occurs_at, replace_seq, replace_vec, spec_find,
    string_from_chars, subvec, trim_vec, trim_ws,
};

verus! {

/// The variables of a file as pairs (name, value), in the order they apply.
pub open spec fn vars_seq(v: Seq<(String, String)>) -> Seq<(Seq<char>, Seq<char>)> {
    v.map_values(|p: (String, String)| (p.0@, p.1@))
}

/// The names of the variables.
pub open spec fn var_names(v: Seq<(Seq<char>, Seq<char>)>) -> Seq<Seq<char>> {
    v.map_values(|p: (Seq<char>, Seq<char>)| p.0)
}

/// `{{ name }}`: the text that stands for variable `name`.
pub open spec fn placeholder(name: Seq<char>) -> Seq<char> {
    seq!['{', '{', ' '] + name + seq![' ', '}', '}']
}

/// `s` with every `{{ name }}` of each variable replaced by its value, the
/// variables taken in order.
pub open spec fn interpolate_seq(s: Seq<char>, vars: Seq<(Seq<char>, Seq<char>)>) -> Seq<char>
    decreases vars.len(),
{
    if vars.len() == 0 {
        s
    } else {
        replace_seq(
            interpolate_seq(s, vars.drop_last()),
            placeholder(vars.last().0),
            vars.last().1,
        )
    }
}

fn placeholder_vec(name: &str) -> (r: Vec<char>)
    ensures
        r@ == placeholder(name@),
{
    let mut r: Vec<char> = Vec::new();
    r.push('{');
    r.push('{');
    r.push(' ');
    let n = chars_of(name);
    let mut i: usize = 0;
    while i < n.len()
        invariant
            i <= n@.len(),
            r@ == seq!['{', '{', ' '] + n@.take(i as int),
        decreases n@.len() - i,
    {
        r.push(n[i]);
        i += 1;
        assert(r@ =~= seq!['{', '{', ' '] + n@.take(i as int));
    }
    r.push(' ');
    r.push('}');
    r.push('}');
    assert(n@.take(n@.len() as int) =~= n@);
    assert(r@ =~= placeholder(name@));
    r
}

/// Replaces each `{{ name }}` of a known variable by its value; unknown
/// variables are left as they are.
pub fn interpolate(s: &str, vars: &Vec<(String, String)>) -> (r: String)
    ensures
        r@ == interpolate_seq(s@, vars_seq(vars@)),
{
    let ghost vs = vars_seq(vars@);
    let mut result = chars_of(s);
    let mut i: usize = 0;
    while i < vars.len()
        invariant
            i <= vars@.len(),
            vs == vars_seq(vars@),
            result@ == interpolate_seq(s@, vs.take(i as int)),
        decreases vars@.len() - i,
    {
        assert(vs.take(i + 1).drop_last() =~= vs.take(i as int));
        let (key, value) = &vars[i];
        let ph = placeholder_vec(key.as_str());
        let val = chars_of(value.as_str());
        result = replace_vec(&result, &ph, &val);
        i += 1;
    }
    assert(vs.take(i as int) =~= vs);
    string_from_chars(&result)
}

pub open spec fn open_marker() -> Seq<char> {
    seq!['{', '{']
}

pub open spec fn close_marker() -> Seq<char> {
    seq!['}', '}']
}

/// The names between `{{` and `}}` in `rest`, trimmed, that are not empty and
/// not among `names`, from the left.
pub open spec fn undefined_in(rest: Seq<char>, names: Seq<Seq<char>>) -> Seq<Seq<char>>
    decreases rest.len(),
{
    match spec_find(rest, open_marker()) {
        Some(st) => if 0 <= st && st + 2 <= rest.len() {
            let r1 = rest.subrange(st + 2, rest.len() as int);
            match spec_find(r1, close_marker()) {
                Some(end) => if 0 <= end && end + 2 <= r1.len() {
                    let inner = trim_ws(r1.subrange(0, end));
                    let tail = undefined_in(r1.subrange(end + 2, r1.len() as int), names);
                    if inner.len() > 0 && !names.contains(inner) {
                        seq![inner] + tail
                    } else {
                        tail
                    }
                } else {
                    seq![]
                },
                None => seq![],
            }
        } else {
            seq![]
        },
        None => seq![],
    }
}

fn has_name(vars: &Vec<(String, String)>, name: &Vec<char>) -> (b: bool)
    ensures
        b == var_names(vars_seq(vars@)).contains(name@),
{
    let ghost ns = var_names(vars_seq(vars@));
    let mut i: usize = 0;
    while i < vars.len()
        invariant
            i <= vars@.len(),
            ns == var_names(vars_seq(vars@)),
            forall|j: int| 0 <= j < i ==> ns[j] != name@,
        decreases vars@.len() - i,
    {
        let k = chars_of(vars[i].0.as_str());
        if crate::text::eq_seq(&k, name) {
            assert(ns[i as int] == name@);
            return true;
        }
        i += 1;
    }
    false
}

/// The names of the `{{ name }}` placeholders of `s` that no variable defines,
/// from the left (a name may come several times).
pub fn undefined_vars(s: &str, vars: &Vec<(String, String)>) -> (r: Vec<String>)
    ensures
        crate::text::views(r@) == undefined_in(s@, var_names(vars_seq(vars@))),
{
    let ghost names = var_names(vars_seq(vars@));
    let mut open: Vec<char> = Vec::new();
    open.push('{');
    open.push('{');
    let mut close: Vec<char> = Vec::new();
    close.push('}');
    close.push('}');
    assert(open@ =~= open_marker());
    assert(close@ =~= close_marker());
    let mut found: Vec<String> = Vec::new();
    let mut rest = chars_of(s);
    loop
        invariant
            names == var_names(vars_seq(vars@)),
            open@ == open_marker(),
            close@ == close_marker(),
            crate::text::views(found@) + undefined_in(rest@, names) == undefined_in(s@, names),
        ensures
            crate::text::views(found@) == undefined_in(s@, names),
        decreases rest@.len(),
    {
        let ghost before = crate::text::views(found@);
        match find(&rest, &open) {
            Some(start) => {
                proof {
                    lemma_find_from_some(rest@, open@, 0);
                }
                let n = rest.len();
                let r1 = subvec(&rest, start + 2, n);
                match find(&r1, &close) {
                    Some(end) => {
                        proof {
                            lemma_find_from_some(r1@, close@, 0);
                        }
                        let m = r1.len();
                        let inner = trim_vec(&subvec(&r1, 0, end));
                        let tail = subvec(&r1, end + 2, m);
                        if inner.len() > 0 && !has_name(vars, &inner) {
                            found.push(string_from_chars(&inner));
                            assert(crate::text::views(found@) =~= before + seq![inner@]);
                        }
                        rest = tail;
                    },
                    None => {
                        assert(undefined_in(rest@, names) =~= seq![]);
                        assert(before + seq![] =~= before);
                        break ;
                    },
                }
            },
            None => {
                assert(before + seq![] =~= before);
                break ;
            },
        }
    }
    found
}

// ─── Laws ────────────────────────────────────────────────────────────────────

/// Replacing a pattern that does not occur changes nothing.
pub proof fn lemma_replace_absent(s: Seq<char>, from: Seq<char>, to: Seq<char>)
    requires
        !crate::text::spec_contains(s, from),
    ensures
        replace_seq(s, from, to) == s,
    decreases s.len(),
{
    if from.len() == 0 || s.len() < from.len() {
    } else if s.subrange(0, from.len() as int) == from {
        assert(crate::text::occurs_at(s, from, 0));
    } else {
        let t = s.drop_first();
        if crate::text::spec_contains(t, from) {
            let i = choose|i: int| crate::text::occurs_at(t, from, i);
            assert(s.subrange(i + 1, i + 1 + from.len()) =~= t.subrange(i, i + from.len()));
            assert(crate::text::occurs_at(s, from, i + 1));
        }
        lemma_replace_absent(t, from, to);
        assert(seq![s[0]] + t =~= s);
    }
}

/// A text without `{{` comes out of interpolation unchanged, whatever the
/// variables.
pub proof fn lemma_interpolate_without_placeholder(s: Seq<char>, vars: Seq<(Seq<char>, Seq<char>)>)
    requires
        !crate::text::spec_contains(s, open_marker()),
    ensures
        interpolate_seq(s, vars) == s,
    decreases vars.len(),
{
    if vars.len() > 0 {
        lemma_interpolate_without_placeholder(s, vars.drop_last());
        let p = placeholder(vars.last().0);
        if crate::text::spec_contains(s, p) {
            let i = choose|i: int| crate::text::occurs_at(s, p, i);
            assert(s.subrange(i, i + 2) =~= p.subrange(0, 2));
            assert(p.subrange(0, 2) =~= open_marker());
            assert(crate::text::occurs_at(s, open_marker(), i));
        }
        lemma_replace_absent(s, p, vars.last().1);
    }
}

/// Every name reported undefined is not empty and is the name of no variable.
pub proof fn lemma_undefined_are_unknown(rest: Seq<char>, names: Seq<Seq<char>>)
    ensures
        forall|k: int|
            0 <= k < undefined_in(rest, names).len() ==> (#[trigger] undefined_in(rest, names)[k]).len()
                > 0 && !names.contains(undefined_in(rest, names)[k]),
    decreases rest.len(),
{
    match spec_find(rest, open_marker()) {
        Some(st) => if 0 <= st && st + 2 <= rest.len() {
            let r1 = rest.subrange(st + 2, rest.len() as int);
            match spec_find(r1, close_marker()) {
                Some(end) => if 0 <= end && end + 2 <= r1.len() {
                    let tail_src = r1.subrange(end + 2, r1.len() as int);
                    lemma_undefined_are_unknown(tail_src, names);
                    let tail = undefined_in(tail_src, names);
                    let inner = trim_ws(r1.subrange(0, end));
                    if inner.len() > 0 && !names.contains(inner) {
                        assert forall|k: int| 0 <= k < undefined_in(rest, names).len() implies (
                        #[trigger] undefined_in(rest, names)[k]).len() > 0 && !names.contains(
                            undefined_in(rest, names)[k],
                        ) by {
                            if k > 0 {
                                assert(undefined_in(rest, names)[k] == tail[k - 1]);
                            }
                        }
                    }
                },
                None => {},
            }
        },
        None => {},
    }
}

} // verus!
