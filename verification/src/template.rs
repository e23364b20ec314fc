//! Placeholder substitution in command and path templates.

use crate::text::{
    contains_seq, occurs_at, push_range, replace, replace_all, string_of, to_chars,
};
use vstd::prelude::*;

verus! {

/// The text that stands for `key` in a template: the key in braces.
pub open spec fn placeholder(key: Seq<char>) -> Seq<char> {
    seq!['{'] + key + seq!['}']
}

/// The keys and values of `vars`, as character sequences.
pub open spec fn bindings(vars: Seq<(&str, &str)>) -> Seq<(Seq<char>, Seq<char>)> {
    Seq::new(vars.len(), |i: int| (vars[i].0@, vars[i].1@))
}

/// The template after each binding, in order, has replaced every occurrence
/// of its placeholder in the text left by the bindings before it.
pub open spec fn substituted(t: Seq<char>, vars: Seq<(Seq<char>, Seq<char>)>) -> Seq<char>
    decreases vars.len(),
{
    if vars.len() == 0 {
        t
    } else {
        replace_all(substituted(t, vars.drop_last()), placeholder(vars.last().0), vars.last().1)
    }
}

/// The placeholder of `key`, as characters.
pub fn placeholder_of(key: &str) -> (p: Vec<char>)
    ensures
        p@ == placeholder(key@),
{
    let k = to_chars(key);
    let mut p: Vec<char> = Vec::new();
    p.push('{');
    push_range(&mut p, &k, 0, k.len());
    assert(k@.subrange(0, k.len() as int) == k@);
    p.push('}');
    assert(p@ == placeholder(key@));
    p
}

/// Replaces every `{key}` of `template` by the value bound to `key`, one
/// binding after the other.
pub fn substitute(template: &str, vars: &[(&str, &str)]) -> (r: String)
    ensures
        r@ == substituted(template@, bindings(vars@)),
{
    let mut text = to_chars(template);
    let mut i: usize = 0;
    while i < vars.len()
        invariant
            i <= vars.len(),
            text@ == substituted(template@, bindings(vars@).take(i as int)),
        decreases vars.len() - i,
    {
        let pat = placeholder_of(vars[i].0);
        let to = to_chars(vars[i].1);
        proof {
            let b = bindings(vars@);
            assert(b.take(i + 1).drop_last() == b.take(i as int));
            assert(b.take(i + 1).last() == (vars@[i as int].0@, vars@[i as int].1@));
        }
        text = replace(&text, &pat, &to);
        i = i + 1;
    }
    assert(bindings(vars@).take(vars.len() as int) == bindings(vars@));
    string_of(&text)
}

/// Text without the pattern is left as it is.
pub proof fn lemma_replace_without(s: Seq<char>, pat: Seq<char>, to: Seq<char>)
    requires
        !contains_seq(s, pat),
    ensures
        replace_all(s, pat, to) == s,
    decreases s.len(),
{
    if pat.len() == 0 || s.len() < pat.len() {
    } else {
        assert(!occurs_at(s, pat, 0));
        let rest = s.skip(1);
        assert forall|i: int| !occurs_at(rest, pat, i) by {
            if occurs_at(rest, pat, i) {
                assert(rest.subrange(i, i + pat.len()) == s.subrange(i + 1, i + 1 + pat.len()));
                assert(occurs_at(s, pat, i + 1));
            }
        }
        lemma_replace_without(rest, pat, to);
        assert(s.take(1) + rest == s);
    }
}

/// A template that holds none of the placeholders is left as it is,
/// whatever the values are.
pub proof fn lemma_untouched(t: Seq<char>, vars: Seq<(Seq<char>, Seq<char>)>)
    requires
        forall|i: int|
            0 <= i < vars.len() ==> !contains_seq(t, placeholder(#[trigger] vars[i].0)),
    ensures
        substituted(t, vars) == t,
    decreases vars.len(),
{
    if vars.len() > 0 {
        let init = vars.drop_last();
        assert forall|i: int| 0 <= i < init.len() implies !contains_seq(
            t,
            placeholder(#[trigger] init[i].0),
        ) by {
            assert(init[i] == vars[i]);
        }
        lemma_untouched(t, init);
        assert(vars.last() == vars[vars.len() - 1]);
        lemma_replace_without(t, placeholder(vars.last().0), vars.last().1);
    }
}

/// Whether `s` holds no `{`.
pub open spec fn no_open(s: Seq<char>) -> bool {
    forall|i: int| 0 <= i < s.len() ==> s[i] != '{'
}

/// Whether `s` holds neither `{` nor `}`.
pub open spec fn brace_free(s: Seq<char>) -> bool {
    forall|i: int| 0 <= i < s.len() ==> s[i] != '{' && s[i] != '}'
}

/// Whether the braces of a template do not nest: between any two `{` there
/// is a `}`.
pub open spec fn flat(t: Seq<char>) -> bool {
    forall|i: int, j: int|
        0 <= i < j < t.len() && #[trigger] t[i] == '{' && #[trigger] t[j] == '{' ==> exists|
            k: int,
        |
            i < k < j && #[trigger] t[k] == '}'
}

/// Whether the keys of the bindings hold no braces and the values no `{`.
pub open spec fn plain_bindings(vars: Seq<(Seq<char>, Seq<char>)>) -> bool {
    forall|i: int|
        0 <= i < vars.len() ==> brace_free((#[trigger] vars[i]).0) && no_open(vars[i].1)
}

/// Whether no key is bound twice.
pub open spec fn distinct_keys(vars: Seq<(Seq<char>, Seq<char>)>) -> bool {
    forall|i: int, j: int|
        0 <= i < j < vars.len() ==> (#[trigger] vars[i]).0 != (#[trigger] vars[j]).0
}

/// Index of the first binding whose placeholder stands at the start of `t`,
/// or `vars.len()` where there is none.
pub open spec fn binding_at(t: Seq<char>, vars: Seq<(Seq<char>, Seq<char>)>) -> int
    decreases vars.len(),
{
    if vars.len() == 0 || occurs_at(t, placeholder(vars[0].0), 0) {
        0
    } else {
        1 + binding_at(t, vars.skip(1))
    }
}

/// The template filled in one pass from the left: where a placeholder of the
/// bindings stands, its value stands in the result, and the pass goes on
/// behind the placeholder; every other character stands as it is.
pub open spec fn filled(t: Seq<char>, vars: Seq<(Seq<char>, Seq<char>)>) -> Seq<char>
    decreases t.len(),
{
    if t.len() == 0 {
        t
    } else {
        let b = binding_at(t, vars);
        if 0 <= b < vars.len() && vars[b].0.len() + 2 <= t.len() {
            vars[b].1 + filled(t.skip(vars[b].0.len() as int + 2), vars)
        } else {
            t.take(1) + filled(t.skip(1), vars)
        }
    }
}

/// What `binding_at` finds is the first binding whose placeholder stands at
/// the start of the text.
pub proof fn lemma_binding_at(t: Seq<char>, vars: Seq<(Seq<char>, Seq<char>)>)
    ensures
        0 <= binding_at(t, vars) <= vars.len(),
        binding_at(t, vars) < vars.len() ==> occurs_at(
            t,
            placeholder(vars[binding_at(t, vars)].0),
            0,
        ),
        forall|j: int|
            0 <= j < binding_at(t, vars) ==> !occurs_at(t, placeholder((#[trigger] vars[j]).0), 0),
    decreases vars.len(),
{
    if vars.len() == 0 || occurs_at(t, placeholder(vars[0].0), 0) {
    } else {
        let rest = vars.skip(1);
        lemma_binding_at(t, rest);
        let b = binding_at(t, rest);
        if b < rest.len() {
            assert(rest[b] == vars[b + 1]);
        }
        assert forall|j: int| 0 <= j < 1 + b implies !occurs_at(
            t,
            placeholder((#[trigger] vars[j]).0),
            0,
        ) by {
            if j > 0 {
                assert(rest[j - 1] == vars[j]);
            }
        }
    }
}

/// What stands at the start of a text that a placeholder starts.
pub proof fn lemma_placeholder_at(t: Seq<char>, key: Seq<char>)
    requires
        occurs_at(t, placeholder(key), 0),
    ensures
        t.len() >= key.len() + 2,
        t[0] == '{',
        t[key.len() as int + 1] == '}',
        forall|i: int| 0 <= i < key.len() ==> t[i + 1] == key[i],
{
    let p = placeholder(key);
    assert(p.len() == key.len() + 2);
    assert forall|i: int| 0 <= i < p.len() implies t[i] == p[i] by {
        assert(t.subrange(0, p.len() as int)[i] == t[i]);
    }
    assert(p[0] == '{');
    assert(p[key.len() as int + 1] == '}');
    assert forall|i: int| 0 <= i < key.len() implies t[i + 1] == key[i] by {
        assert(p[i + 1] == key[i]);
    }
}

/// Only one key without braces has its placeholder at the start of a text.
pub proof fn lemma_same_key(t: Seq<char>, k1: Seq<char>, k2: Seq<char>)
    requires
        brace_free(k1),
        brace_free(k2),
        occurs_at(t, placeholder(k1), 0),
        occurs_at(t, placeholder(k2), 0),
    ensures
        k1 == k2,
{
    lemma_placeholder_at(t, k1);
    lemma_placeholder_at(t, k2);
    if k1.len() < k2.len() {
        assert(t[k1.len() as int + 1] == k2[k1.len() as int]);
    } else if k2.len() < k1.len() {
        assert(t[k2.len() as int + 1] == k1[k2.len() as int]);
    } else {
        assert(k1 =~= k2);
    }
}

/// A text that does not start with `{` starts with no placeholder.
pub proof fn lemma_no_binding(t: Seq<char>, vars: Seq<(Seq<char>, Seq<char>)>)
    requires
        t.len() == 0 || t[0] != '{',
    ensures
        binding_at(t, vars) == vars.len(),
    decreases vars.len(),
{
    if vars.len() > 0 {
        if occurs_at(t, placeholder(vars[0].0), 0) {
            lemma_placeholder_at(t, vars[0].0);
        }
        lemma_no_binding(t, vars.skip(1));
    }
}

/// Replacing a pattern that starts with `{` passes over text without `{`.
pub proof fn lemma_replace_passes(w: Seq<char>, x: Seq<char>, pat: Seq<char>, to: Seq<char>)
    requires
        pat.len() > 0,
        pat[0] == '{',
        no_open(w),
    ensures
        replace_all(w + x, pat, to) == w + replace_all(x, pat, to),
    decreases w.len(),
{
    let s = w + x;
    if w.len() == 0 {
        assert(s =~= x);
        assert(w + replace_all(x, pat, to) =~= replace_all(x, pat, to));
    } else {
        assert(s[0] == w[0]);
        if occurs_at(s, pat, 0) {
            assert(s.subrange(0, pat.len() as int)[0] == s[0]);
        }
        assert(s.skip(1) =~= w.skip(1) + x);
        lemma_replace_passes(w.skip(1), x, pat, to);
        if s.len() < pat.len() {
            assert(x.len() < pat.len());
            assert(w.skip(1) + x =~= s.skip(1));
        } else {
            assert(s.take(1) + (w.skip(1) + replace_all(x, pat, to)) =~= w + replace_all(
                x,
                pat,
                to,
            ));
        }
    }
}

/// Filling passes over text without `{`.
pub proof fn lemma_filled_passes(w: Seq<char>, y: Seq<char>, vars: Seq<(Seq<char>, Seq<char>)>)
    requires
        no_open(w),
    ensures
        filled(w + y, vars) == w + filled(y, vars),
    decreases w.len(),
{
    let s = w + y;
    if w.len() == 0 {
        assert(s =~= y);
        assert(w + filled(y, vars) =~= filled(y, vars));
    } else {
        assert(s[0] == w[0]);
        lemma_no_binding(s, vars);
        assert(s.skip(1) =~= w.skip(1) + y);
        lemma_filled_passes(w.skip(1), y, vars);
        assert(s.take(1) + (w.skip(1) + filled(y, vars)) =~= w + filled(y, vars));
    }
}

/// Filling with no bindings leaves the text as it is.
pub proof fn lemma_filled_empty(t: Seq<char>)
    ensures
        filled(t, Seq::empty()) == t,
    decreases t.len(),
{
    if t.len() > 0 {
        lemma_filled_empty(t.skip(1));
        assert(t.take(1) + t.skip(1) =~= t);
    }
}

/// What is left of a flat template behind its start is flat.
pub proof fn lemma_flat_skip(t: Seq<char>, n: int)
    requires
        flat(t),
        0 <= n <= t.len(),
    ensures
        flat(t.skip(n)),
{
    let u = t.skip(n);
    assert forall|i: int, j: int|
        0 <= i < j < u.len() && #[trigger] u[i] == '{' && #[trigger] u[j] == '{' implies exists|
        k: int,
    |
        i < k < j && #[trigger] u[k] == '}' by {
        assert(t[i + n] == '{' && t[j + n] == '{');
        let k = choose|k: int| i + n < k < j + n && #[trigger] t[k] == '}';
        assert(u[k - n] == '}');
    }
}

/// Index of the first brace of `s`, or `s.len()` where there is none.
pub open spec fn first_brace(s: Seq<char>) -> int
    decreases s.len(),
{
    if s.len() == 0 || s[0] == '{' || s[0] == '}' {
        0
    } else {
        1 + first_brace(s.skip(1))
    }
}

proof fn lemma_first_brace(s: Seq<char>)
    ensures
        0 <= first_brace(s) <= s.len(),
        first_brace(s) < s.len() ==> s[first_brace(s)] == '{' || s[first_brace(s)] == '}',
        forall|j: int| 0 <= j < first_brace(s) ==> s[j] != '{' && s[j] != '}',
    decreases s.len(),
{
    if s.len() == 0 || s[0] == '{' || s[0] == '}' {
    } else {
        lemma_first_brace(s.skip(1));
        let k = first_brace(s.skip(1));
        assert forall|j: int| 0 <= j < 1 + k implies s[j] != '{' && s[j] != '}' by {
            if j > 0 {
                assert(s.skip(1)[j - 1] == s[j]);
            }
        }
    }
}

/// Adding a binding at the end changes nothing where an earlier binding
/// is found; where none is found, the added one is found if its placeholder
/// stands at the start of the text.
proof fn lemma_binding_push(
    t: Seq<char>,
    vars: Seq<(Seq<char>, Seq<char>)>,
    key: Seq<char>,
    value: Seq<char>,
)
    ensures
        binding_at(t, vars) < vars.len() ==> binding_at(t, vars.push((key, value)))
            == binding_at(t, vars),
        binding_at(t, vars) == vars.len() && occurs_at(t, placeholder(key), 0) ==> binding_at(
            t,
            vars.push((key, value)),
        ) == vars.len(),
        binding_at(t, vars) == vars.len() && !occurs_at(t, placeholder(key), 0) ==> binding_at(
            t,
            vars.push((key, value)),
        ) == vars.len() + 1,
    decreases vars.len(),
{
    let more = vars.push((key, value));
    lemma_binding_at(t, vars);
    if vars.len() == 0 {
        assert(more[0] == (key, value));
        assert(more.skip(1) =~= Seq::<(Seq<char>, Seq<char>)>::empty());
        assert(binding_at(t, more.skip(1)) == 0);
    } else {
        assert(more[0] == vars[0]);
        assert(more.skip(1) =~= vars.skip(1).push((key, value)));
        if !occurs_at(t, placeholder(vars[0].0), 0) {
            lemma_binding_push(t, vars.skip(1), key, value);
        }
    }
}

/// Where no binding is found at the start of a flat template, a placeholder
/// without braces that starts the filled template starts the template too:
/// filling makes no placeholder.
proof fn lemma_fill_keeps_start(t: Seq<char>, vars: Seq<(Seq<char>, Seq<char>)>, key: Seq<char>)
    requires
        flat(t),
        t.len() > 0,
        binding_at(t, vars) == vars.len(),
        brace_free(key),
        occurs_at(t.take(1) + filled(t.skip(1), vars), placeholder(key), 0),
    ensures
        occurs_at(t, placeholder(key), 0),
{
    let u = t.skip(1);
    let s = t.take(1) + filled(u, vars);
    let p = placeholder(key);
    lemma_placeholder_at(s, key);
    assert(s[0] == t[0]);
    lemma_first_brace(u);
    let m = first_brace(u);
    if m < u.len() {
        if u[m] == '{' {
            assert(t[0] == '{' && t[m + 1] == '{');
            let k = choose|k: int| 0 < k < m + 1 && #[trigger] t[k] == '}';
            assert(u[k - 1] == '}');
        }
        let w = u.take(m + 1);
        let rest = u.skip(m + 1);
        assert(w + rest =~= u);
        assert(no_open(w));
        lemma_filled_passes(w, rest, vars);
        assert(forall|i: int| 0 <= i <= m ==> s[i + 1] == u[i]);
        if key.len() < m {
            assert(s[key.len() as int + 1] == u[key.len() as int]);
        } else if m < key.len() {
            assert(s[m + 1] == key[m]);
        }
        assert(key.len() == m);
        assert(t.subrange(0, p.len() as int) =~= p) by {
            assert forall|i: int| 0 <= i < p.len() implies t[i] == p[i] by {
                if i > 0 {
                    assert(t[i] == u[i - 1]);
                    assert(s[i] == u[i - 1]);
                    assert(s.subrange(0, p.len() as int)[i] == s[i]);
                }
            }
        }
    } else {
        assert(no_open(u));
        assert(u + Seq::<char>::empty() =~= u);
        lemma_filled_passes(u, Seq::<char>::empty(), vars);
        assert(filled(Seq::<char>::empty(), vars) =~= Seq::<char>::empty());
        assert(s =~= t);
    }
}

/// Filling a flat template and then replacing one more placeholder is the
/// same as filling with one more binding.
pub proof fn lemma_fill_then_replace(
    t: Seq<char>,
    vars: Seq<(Seq<char>, Seq<char>)>,
    key: Seq<char>,
    value: Seq<char>,
)
    requires
        flat(t),
        plain_bindings(vars),
        brace_free(key),
        no_open(value),
    ensures
        replace_all(filled(t, vars), placeholder(key), value) == filled(
            t,
            vars.push((key, value)),
        ),
    decreases t.len(),
{
    let p = placeholder(key);
    let more = vars.push((key, value));
    assert(p.len() == key.len() + 2);
    assert(p[0] == '{');
    if t.len() > 0 {
        lemma_binding_at(t, vars);
        lemma_binding_push(t, vars, key, value);
        let b = binding_at(t, vars);
        if b < vars.len() {
            lemma_placeholder_at(t, vars[b].0);
            let n = vars[b].0.len() as int + 2;
            let rest = t.skip(n);
            lemma_flat_skip(t, n);
            lemma_fill_then_replace(rest, vars, key, value);
            assert(more[b] == vars[b]);
            assert(no_open(vars[b].1));
            lemma_replace_passes(vars[b].1, filled(rest, vars), p, value);
        } else if occurs_at(t, p, 0) {
            lemma_placeholder_at(t, key);
            let n = key.len() as int + 2;
            let rest = t.skip(n);
            let tail = key + seq!['}'];
            assert(t.skip(1) =~= tail + rest);
            assert(no_open(tail));
            lemma_filled_passes(tail, rest, vars);
            let x = filled(rest, vars);
            let s = filled(t, vars);
            assert(s =~= p + x) by {
                assert(t.take(1) =~= seq!['{']);
            }
            assert(s.subrange(0, p.len() as int) =~= p);
            assert(s.skip(p.len() as int) =~= x);
            lemma_flat_skip(t, n);
            lemma_fill_then_replace(rest, vars, key, value);
            assert(more[vars.len() as int] == (key, value));
        } else {
            let u = t.skip(1);
            let x = filled(u, vars);
            let s = t.take(1) + x;
            lemma_flat_skip(t, 1);
            lemma_fill_then_replace(u, vars, key, value);
            if occurs_at(s, p, 0) {
                lemma_fill_keeps_start(t, vars, key);
            }
            if s.len() >= p.len() {
                assert(s.take(1) =~= t.take(1));
                assert(s.skip(1) =~= x);
            } else {
                assert(x.len() < p.len());
            }
        }
    }
}

/// On a flat template, with keys that hold no braces and values that hold
/// no `{`, substitution is one pass of filling: each placeholder of the
/// bindings is replaced where it stands in the template, by the value of the
/// first binding of its key, and all other text stays.
pub proof fn lemma_substituted_is_filled(t: Seq<char>, vars: Seq<(Seq<char>, Seq<char>)>)
    requires
        flat(t),
        plain_bindings(vars),
    ensures
        substituted(t, vars) == filled(t, vars),
    decreases vars.len(),
{
    if vars.len() == 0 {
        lemma_filled_empty(t);
        assert(vars =~= Seq::<(Seq<char>, Seq<char>)>::empty());
    } else {
        let init = vars.drop_last();
        let last = vars.last();
        assert forall|i: int| 0 <= i < init.len() implies brace_free((#[trigger] init[i]).0)
            && no_open(init[i].1) by {
            assert(init[i] == vars[i]);
        }
        assert(last == vars[vars.len() - 1]);
        lemma_substituted_is_filled(t, init);
        lemma_fill_then_replace(t, init, last.0, last.1);
        assert(init.push((last.0, last.1)) =~= vars);
    }
}

/// Filling does not depend on the order of the bindings: lists of plain
/// bindings, with no key bound twice, that hold the same bindings fill every
/// template alike.
pub proof fn lemma_filled_any_order(
    t: Seq<char>,
    a: Seq<(Seq<char>, Seq<char>)>,
    b: Seq<(Seq<char>, Seq<char>)>,
)
    requires
        plain_bindings(a),
        plain_bindings(b),
        distinct_keys(a),
        distinct_keys(b),
        forall|x: (Seq<char>, Seq<char>)| a.contains(x) <==> b.contains(x),
    ensures
        filled(t, a) == filled(t, b),
    decreases t.len(),
{
    if t.len() > 0 {
        lemma_binding_at(t, a);
        lemma_binding_at(t, b);
        let ia = binding_at(t, a);
        let ib = binding_at(t, b);
        if ia < a.len() {
            lemma_found_in_both(t, a, b);
            lemma_placeholder_at(t, a[ia].0);
            lemma_filled_any_order(t.skip(a[ia].0.len() as int + 2), a, b);
        } else if ib < b.len() {
            lemma_found_in_both(t, b, a);
        } else {
            lemma_filled_any_order(t.skip(1), a, b);
        }
    }
}

proof fn lemma_found_in_both(
    t: Seq<char>,
    a: Seq<(Seq<char>, Seq<char>)>,
    b: Seq<(Seq<char>, Seq<char>)>,
)
    requires
        plain_bindings(a),
        plain_bindings(b),
        distinct_keys(b),
        forall|x: (Seq<char>, Seq<char>)| a.contains(x) <==> b.contains(x),
        binding_at(t, a) < a.len(),
    ensures
        binding_at(t, b) < b.len(),
        b[binding_at(t, b)] == a[binding_at(t, a)],
{
    lemma_binding_at(t, a);
    lemma_binding_at(t, b);
    let ia = binding_at(t, a);
    let ib = binding_at(t, b);
    assert(a.contains(a[ia]));
    assert(b.contains(a[ia]));
    let j = choose|j: int| 0 <= j < b.len() && b[j] == a[ia];
    if ib > j {
        assert(!occurs_at(t, placeholder(b[j].0), 0));
    }
    lemma_same_key(t, a[ia].0, b[ib].0);
    if ib < j {
        assert(b[ib].0 != b[j].0);
    }
}

/// A reordering of bindings with no key bound twice binds no key twice.
proof fn lemma_reordering_keeps_distinct(
    a: Seq<(Seq<char>, Seq<char>)>,
    b: Seq<(Seq<char>, Seq<char>)>,
)
    requires
        distinct_keys(a),
        a.to_multiset() == b.to_multiset(),
    ensures
        distinct_keys(b),
{
    assert(a.no_duplicates());
    a.lemma_multiset_has_no_duplicates();
    b.lemma_multiset_has_no_duplicates_conv();
    assert forall|i: int, j: int| 0 <= i < j < b.len() implies (#[trigger] b[i]).0 != (
    #[trigger] b[j]).0 by {
        vstd::seq_lib::to_multiset_contains(a, b[i]);
        vstd::seq_lib::to_multiset_contains(b, b[i]);
        vstd::seq_lib::to_multiset_contains(a, b[j]);
        vstd::seq_lib::to_multiset_contains(b, b[j]);
        assert(b.contains(b[i]) && b.contains(b[j]));
        let p = choose|p: int| 0 <= p < a.len() && a[p] == b[i];
        let q = choose|q: int| 0 <= q < a.len() && a[q] == b[j];
        assert(b[i] != b[j]);
        if p < q {
            assert(a[p].0 != a[q].0);
        } else {
            assert(a[q].0 != a[p].0);
        }
    }
}

/// The order in which the keys are bound does not matter: on a flat
/// template, with keys that hold no braces, values that hold no `{`, and no
/// key bound twice, a list of bindings and any reordering of it give the
/// same text.
pub proof fn lemma_order_is_immaterial(
    t: Seq<char>,
    a: Seq<(Seq<char>, Seq<char>)>,
    b: Seq<(Seq<char>, Seq<char>)>,
)
    requires
        flat(t),
        plain_bindings(a),
        distinct_keys(a),
        a.to_multiset() == b.to_multiset(),
    ensures
        substituted(t, a) == substituted(t, b),
{
    lemma_reordering_keeps_distinct(a, b);
    assert forall|x: (Seq<char>, Seq<char>)| a.contains(x) <==> b.contains(x) by {
        vstd::seq_lib::to_multiset_contains(a, x);
        vstd::seq_lib::to_multiset_contains(b, x);
    }
    assert forall|i: int| 0 <= i < b.len() implies brace_free((#[trigger] b[i]).0) && no_open(
        b[i].1,
    ) by {
        assert(b.contains(b[i]));
        let j = choose|j: int| 0 <= j < a.len() && a[j] == b[i];
        assert(brace_free(a[j].0));
    }
    lemma_substituted_is_filled(t, a);
    lemma_substituted_is_filled(t, b);
    lemma_filled_any_order(t, a, b);
}

/// Replacing a pattern by nothing makes the text shorter where the pattern
/// stands in it.
proof fn lemma_removal_shortens(s: Seq<char>, pat: Seq<char>)
    requires
        pat.len() > 0,
    ensures
        replace_all(s, pat, Seq::empty()).len() <= s.len(),
        contains_seq(s, pat) ==> replace_all(s, pat, Seq::empty()).len() < s.len(),
    decreases s.len(),
{
    let none = Seq::<char>::empty();
    if s.len() < pat.len() {
        if contains_seq(s, pat) {
            let i = choose|i: int| occurs_at(s, pat, i);
        }
    } else if occurs_at(s, pat, 0) {
        lemma_removal_shortens(s.skip(pat.len() as int), pat);
    } else {
        let rest = s.skip(1);
        lemma_removal_shortens(rest, pat);
        if contains_seq(s, pat) {
            let i = choose|i: int| occurs_at(s, pat, i);
            assert(rest.subrange(i - 1, i - 1 + pat.len()) == s.subrange(i, i + pat.len()));
            assert(occurs_at(rest, pat, i - 1));
        }
    }
}

/// Every occurrence is replaced: on a flat template, with keys that hold no
/// braces and values that hold no `{`, the text that substitution gives
/// holds the placeholder of none of the keys.
pub proof fn lemma_no_placeholder_left(
    t: Seq<char>,
    vars: Seq<(Seq<char>, Seq<char>)>,
    i: int,
)
    requires
        flat(t),
        plain_bindings(vars),
        0 <= i < vars.len(),
    ensures
        !contains_seq(substituted(t, vars), placeholder(vars[i].0)),
{
    let key = vars[i].0;
    let none = Seq::<char>::empty();
    let more = vars.push((key, none));
    lemma_substituted_is_filled(t, vars);
    lemma_fill_then_replace(t, vars, key, none);
    lemma_push_bound_key(t, vars, i, none);
    lemma_removal_shortens(filled(t, vars), placeholder(key));
}

/// A binding added at the end for a key that is already bound fills
/// nothing.
proof fn lemma_push_bound_key(
    t: Seq<char>,
    vars: Seq<(Seq<char>, Seq<char>)>,
    i: int,
    value: Seq<char>,
)
    requires
        0 <= i < vars.len(),
    ensures
        filled(t, vars.push((vars[i].0, value))) == filled(t, vars),
    decreases t.len(),
{
    let key = vars[i].0;
    let more = vars.push((key, value));
    if t.len() > 0 {
        lemma_binding_at(t, vars);
        lemma_binding_push(t, vars, key, value);
        let b = binding_at(t, vars);
        if b < vars.len() {
            assert(more[b] == vars[b]);
            if vars[b].0.len() + 2 <= t.len() {
                lemma_push_bound_key(t.skip(vars[b].0.len() as int + 2), vars, i, value);
            } else {
                lemma_push_bound_key(t.skip(1), vars, i, value);
            }
        } else {
            assert(!occurs_at(t, placeholder(vars[i].0), 0));
            lemma_push_bound_key(t.skip(1), vars, i, value);
        }
    }
}

} // verus!
