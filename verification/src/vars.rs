//! Bash-style variable interpolation: `$NAME`, `${NAME}`, `${NAME:-default}`
//! and the escape `$$`, over any [`EnvSource`].
//!
//! A single pass scans left to right.  `$$` yields a literal `$`; `$NAME`
//! (NAME a run of ASCII letters, digits or `_`) is replaced by the source's
//! value, or by nothing when absent; `${...}` is the brace-delimited form,
//! tolerating a missing closing brace and carrying an optional `:-` default
//! that is used only when the variable is absent (an empty value still
//! wins).  The default text is not itself re-expanded within the pass.
//!
//! `expand_env_recursive` re-applies the pass while the text still holds a
//! `$` and keeps changing, up to a fixed bound of eight rounds, so cyclic
//! definitions settle instead of looping forever.

use vstd::prelude::*;
use vstd::string::StrSliceExecFns;
use crate::env_source::{lookup, EnvSource};
use crate::strutil::{push_char, str_contains_char};
use vstd::string::StringExecFns;

verus! {

/// A character that may appear in a bare `$NAME` reference.
pub open spec fn is_name_char(c: char) -> bool {
    ('a' <= c && c <= 'z') || ('A' <= c && c <= 'Z') || ('0' <= c && c <= '9') || c == '_'
}

/// Executable test for [`is_name_char`].
pub fn name_char(c: char) -> (r: bool)
    ensures
        r == is_name_char(c),
{
    ('a' <= c && c <= 'z') || ('A' <= c && c <= 'Z') || ('0' <= c && c <= '9') || c == '_'
}

/// The state reached by scanning a `${...}` form: starting just after the
/// opening brace at `i`, collect the key, switch to the default text at the
/// first `:-`, and stop after `}` or at the end of the input.  Returns the
/// position after the form, the key, and the default (if any text followed
/// a `:-`).
pub open spec fn scan_braced(
    s: Seq<char>,
    i: int,
    key: Seq<char>,
    def: Option<Seq<char>>,
    in_def: bool,
) -> (int, Seq<char>, Option<Seq<char>>)
    decreases s.len() - i,
{
    if i < 0 || i >= s.len() {
        (i, key, def)
    } else if s[i] == '}' {
        (i + 1, key, def)
    } else if s[i] == ':' && i + 1 < s.len() && s[i + 1] == '-' {
        scan_braced(s, i + 2, key, def, true)
    } else if in_def {
        let d = match def {
            Some(d) => d,
            None => Seq::empty(),
        };
        scan_braced(s, i + 1, key, Some(d.push(s[i])), true)
    } else {
        scan_braced(s, i + 1, key.push(s[i]), def, false)
    }
}

proof fn lemma_scan_braced_bounds(
    s: Seq<char>,
    i: int,
    key: Seq<char>,
    def: Option<Seq<char>>,
    in_def: bool,
)
    requires
        0 <= i <= s.len(),
    ensures
        i <= scan_braced(s, i, key, def, in_def).0 <= s.len(),
    decreases s.len() - i,
{
    if i < s.len() {
        if s[i] == '}' {
        } else if s[i] == ':' && i + 1 < s.len() && s[i + 1] == '-' {
            lemma_scan_braced_bounds(s, i + 2, key, def, true);
        } else if in_def {
            let d = match def {
                Some(d) => d,
                None => Seq::empty(),
            };
            lemma_scan_braced_bounds(s, i + 1, key, Some(d.push(s[i])), true);
        } else {
            lemma_scan_braced_bounds(s, i + 1, key.push(s[i]), def, false);
        }
    }
}

/// The end of the run of name characters that starts at `i`.
pub open spec fn name_end(s: Seq<char>, i: int) -> int
    decreases s.len() - i,
{
    if 0 <= i < s.len() && is_name_char(s[i]) {
        name_end(s, i + 1)
    } else {
        i
    }
}

proof fn lemma_name_end_bounds(s: Seq<char>, i: int)
    requires
        0 <= i <= s.len(),
    ensures
        i <= name_end(s, i) <= s.len(),
    decreases s.len() - i,
{
    if i < s.len() && is_name_char(s[i]) {
        lemma_name_end_bounds(s, i + 1);
    }
}

/// The text a `${...}` form stands for: the variable's value when defined,
/// else the default text, else nothing.
pub open spec fn braced_value(
    env: Map<Seq<char>, Seq<char>>,
    key: Seq<char>,
    def: Option<Seq<char>>,
) -> Seq<char> {
    match lookup(env, key) {
        Some(v) => v,
        None => match def {
            Some(d) => d,
            None => Seq::empty(),
        },
    }
}

/// The text a bare `$NAME` reference stands for.
pub open spec fn name_value(env: Map<Seq<char>, Seq<char>>, key: Seq<char>) -> Seq<char> {
    match lookup(env, key) {
        Some(v) => v,
        None => Seq::empty(),
    }
}

/// One full left-to-right interpolation pass over `s` against the
/// environment `env`.
pub open spec fn spec_expand(s: Seq<char>, env: Map<Seq<char>, Seq<char>>) -> Seq<char>
    decreases s.len(),
    via spec_expand_dec
{
    if s.len() == 0 {
        Seq::empty()
    } else if s[0] != '$' {
        seq![s[0]] + spec_expand(s.skip(1), env)
    } else if s.len() == 1 {
        seq!['$']
    } else if s[1] == '$' {
        seq!['$'] + spec_expand(s.skip(2), env)
    } else if s[1] == '{' {
        let (j, key, def) = scan_braced(s, 2, Seq::empty(), None, false);
        braced_value(env, key, def) + spec_expand(s.skip(j), env)
    } else if is_name_char(s[1]) {
        let j = name_end(s, 1);
        name_value(env, s.subrange(1, j)) + spec_expand(s.skip(j), env)
    } else {
        seq!['$'] + spec_expand(s.skip(1), env)
    }
}

#[via_fn]
proof fn spec_expand_dec(s: Seq<char>, env: Map<Seq<char>, Seq<char>>) {
    if s.len() >= 2 && s[0] == '$' && s[1] == '{' {
        lemma_scan_braced_bounds(s, 2, Seq::empty(), None, false);
    }
    if s.len() >= 2 && s[0] == '$' && s[1] != '$' && s[1] != '{' && is_name_char(s[1]) {
        assert(name_end(s, 1) == name_end(s, 2));
        lemma_name_end_bounds(s, 2);
    }
}

/// A pass over text without `$` reproduces the text: interpolation is the
/// identity on reference-free input, whatever the environment holds.
pub proof fn lemma_expand_no_dollar(s: Seq<char>, env: Map<Seq<char>, Seq<char>>)
    requires
        !s.contains('$'),
    ensures
        spec_expand(s, env) == s,
    decreases s.len(),
{
    if s.len() == 0 {
        assert(spec_expand(s, env) =~= s);
    } else {
        assert(s[0] != '$') by {
            if s[0] == '$' {
                assert(s.contains('$'));
            }
        }
        assert(!s.skip(1).contains('$')) by {
            if s.skip(1).contains('$') {
                let k = choose|k: int| 0 <= k < s.skip(1).len() && s.skip(1)[k] == '$';
                assert(s[k + 1] == '$');
                assert(s.contains('$'));
            }
        }
        lemma_expand_no_dollar(s.skip(1), env);
        assert(spec_expand(s, env) =~= s);
    }
}

/// Interpolate every reference in `input` from `env`, in one pass.
pub fn expand_env<E: EnvSource>(input: &str, env: &E) -> (r: String)
    requires
        forall|k: &str| env.pre(k),
    ensures
        env.obeys() ==> r@ == spec_expand(input@, env.model()),
        !input@.contains('$') ==> r@ == input@,
{
    let ghost s = input@;
    let ghost m = env.model();
    let n = input.unicode_len();
    let mut out = String::new();
    let mut i: usize = 0;
    proof {
        assert(s.skip(0) =~= s);
    }
    while i < n
        invariant
            n == s.len(),
            s == input@,
            m == env.model(),
            forall|k: &str| env.pre(k),
            0 <= i <= n,
            env.obeys() ==> out@ + spec_expand(s.skip(i as int), m) == spec_expand(s, m),
            !s.contains('$') ==> out@ == s.subrange(0, i as int),
        decreases n - i,
    {
        let ghost i0 = i as int;
        let ghost sk = s.skip(i0);
        let c = input.get_char(i);
        proof {
            assert(sk[0] == s[i0]);
        }
        if c != '$' {
            push_char(&mut out, c);
            i = i + 1;
            proof {
                assert(sk.skip(1) =~= s.skip(i0 + 1));
                if env.obeys() {
                    assert(spec_expand(sk, m) == seq![c] + spec_expand(s.skip(i0 + 1), m));
                    assert(out@ + spec_expand(s.skip(i0 + 1), m) =~= spec_expand(s, m));
                }
                if !s.contains('$') {
                    assert(out@ =~= s.subrange(0, i0 + 1));
                }
            }
        } else if i + 1 >= n {
            push_char(&mut out, '$');
            i = i + 1;
            proof {
                assert(s.contains('$')) by {
                    assert(s[i0] == '$');
                }
                assert(sk.len() == 1);
                assert(spec_expand(sk, m) == seq!['$']);
                assert(s.skip(i0 + 1) =~= Seq::<char>::empty());
                if env.obeys() {
                    assert(out@ + spec_expand(s.skip(i0 + 1), m) =~= spec_expand(s, m));
                }
            }
        } else {
            proof {
                assert(s.contains('$')) by {
                    assert(s[i0] == '$');
                }
                assert(sk[1] == s[i0 + 1]);
            }
            let c2 = input.get_char(i + 1);
            if c2 == '$' {
                push_char(&mut out, '$');
                i = i + 2;
                proof {
                    assert(sk.skip(2) =~= s.skip(i0 + 2));
                    if env.obeys() {
                        assert(spec_expand(sk, m) == seq!['$'] + spec_expand(s.skip(i0 + 2), m));
                        assert(out@ + spec_expand(s.skip(i0 + 2), m) =~= spec_expand(s, m));
                    }
                }
            } else if c2 == '{' {
                let ghost sc = scan_braced(sk, 2, Seq::empty(), None, false);
                let mut j = i + 2;
                let mut key = String::new();
                let mut def: Option<String> = None;
                let mut in_def = false;
                let mut done = false;
                while !done && j < n
                    invariant
                        n == s.len(),
                        s == input@,
                        sk == s.skip(i0),
                        0 <= i0 <= i0 + 2 <= j <= n,
                        n - i0 == sk.len(),
                        sc == scan_braced(sk, 2, Seq::empty(), None, false),
                        !done ==> sc == scan_braced(
                            sk,
                            j - i0,
                            key@,
                            match def {
                                Some(d) => Some(d@),
                                None => None,
                            },
                            in_def,
                        ),
                        done ==> sc == (
                            j - i0,
                            key@,
                            match def {
                                Some(d) => Some(d@),
                                None => None,
                            },
                        ),
                    decreases n - j, (if done { 0int } else { 1int }),
                {
                    let ghost jr = j - i0;
                    let cj = input.get_char(j);
                    proof {
                        assert(sk[jr] == s[j as int]);
                    }
                    if cj == '}' {
                        j = j + 1;
                        done = true;
                    } else {
                        let mut two = false;
                        if cj == ':' && j + 1 < n {
                            if input.get_char(j + 1) == '-' {
                                two = true;
                            }
                            proof {
                                assert(sk[jr + 1] == s[j + 1]);
                            }
                        }
                        if two {
                            j = j + 2;
                            in_def = true;
                        } else if in_def {
                            let mut d = match def {
                                Some(d0) => d0,
                                None => String::new(),
                            };
                            push_char(&mut d, cj);
                            def = Some(d);
                            j = j + 1;
                        } else {
                            push_char(&mut key, cj);
                            j = j + 1;
                        }
                    }
                }
                proof {
                    if !done {
                        assert(j == n);
                        assert(j - i0 == sk.len());
                    }
                    assert(sc == (
                        j - i0,
                        key@,
                        match def {
                            Some(d) => Some(d@),
                            None => None,
                        },
                    ));
                }
                let looked = env.get(key.as_str());
                let val = match looked {
                    Some(v) => v,
                    None => match def {
                        Some(d) => d,
                        None => String::new(),
                    },
                };
                out.append(val.as_str());
                i = j;
                proof {
                    assert(sk.skip(j - i0) =~= s.skip(j as int));
                    if env.obeys() {
                        assert(val@ == braced_value(m, sc.1, sc.2));
                        assert(spec_expand(sk, m) == braced_value(m, sc.1, sc.2) + spec_expand(
                            s.skip(j as int),
                            m,
                        ));
                        assert(out@ + spec_expand(s.skip(j as int), m) =~= spec_expand(s, m));
                    }
                }
            } else if name_char(c2) {
                let mut j = i + 1;
                let mut key = String::new();
                proof {
                    assert(key@ =~= sk.subrange(1, 1));
                }
                let mut done = false;
                while !done && j < n
                    invariant
                        n == s.len(),
                        s == input@,
                        sk == s.skip(i0),
                        0 <= i0 < i0 + 1 <= j <= n,
                        n - i0 == sk.len(),
                        !done ==> name_end(sk, 1) == name_end(sk, j - i0),
                        done ==> name_end(sk, 1) == j - i0,
                        key@ == sk.subrange(1, j - i0),
                    decreases n - j, (if done { 0int } else { 1int }),
                {
                    let ghost jr = j - i0;
                    let cj = input.get_char(j);
                    proof {
                        assert(sk[jr] == s[j as int]);
                    }
                    if !name_char(cj) {
                        proof {
                            assert(name_end(sk, jr) == jr);
                        }
                        done = true;
                    } else {
                        push_char(&mut key, cj);
                        j = j + 1;
                        proof {
                            assert(name_end(sk, jr) == name_end(sk, jr + 1));
                            assert(key@ =~= sk.subrange(1, jr + 1));
                        }
                    }
                }
                proof {
                    if !done {
                        assert(j == n);
                        assert(name_end(sk, j - i0) == j - i0);
                    }
                    assert(name_end(sk, 1) == j - i0);
                }
                let looked = env.get(key.as_str());
                let val = match looked {
                    Some(v) => v,
                    None => String::new(),
                };
                out.append(val.as_str());
                i = j;
                proof {
                    assert(sk.skip(j - i0) =~= s.skip(j as int));
                    if env.obeys() {
                        assert(val@ == name_value(m, sk.subrange(1, j - i0)));
                        assert(spec_expand(sk, m) == name_value(m, sk.subrange(1, j - i0))
                            + spec_expand(s.skip(j as int), m));
                        assert(out@ + spec_expand(s.skip(j as int), m) =~= spec_expand(s, m));
                    }
                }
            } else {
                push_char(&mut out, '$');
                i = i + 1;
                proof {
                    assert(sk.skip(1) =~= s.skip(i0 + 1));
                    if env.obeys() {
                        assert(spec_expand(sk, m) == seq!['$'] + spec_expand(s.skip(i0 + 1), m));
                        assert(out@ + spec_expand(s.skip(i0 + 1), m) =~= spec_expand(s, m));
                    }
                }
            }
        }
    }
    proof {
        assert(s.skip(n as int) =~= Seq::<char>::empty());
        if env.obeys() {
            assert(out@ + spec_expand(s.skip(n as int), m) =~= out@);
        }
        if !s.contains('$') {
            assert(s.subrange(0, n as int) =~= s);
        }
    }
    out
}

/// The bound on re-expansion rounds.
pub open spec fn max_expand_rounds() -> int {
    8
}

/// Repeated interpolation: apply passes while the text still holds a `$`
/// and keeps changing, up to the round bound, then return the last text.
pub open spec fn spec_expand_rec(
    s: Seq<char>,
    env: Map<Seq<char>, Seq<char>>,
    round: int,
) -> Seq<char>
    decreases max_expand_rounds() - round,
{
    if round < 0 || round >= max_expand_rounds() {
        s
    } else {
        let e = spec_expand(s, env);
        if e.contains('$') && e != s {
            spec_expand_rec(e, env, round + 1)
        } else {
            e
        }
    }
}

/// Interpolate repeatedly until the text settles or the round bound is
/// reached; a cyclic definition is returned as it last stood, not an error.
pub fn expand_env_recursive<E: EnvSource>(input: &str, env: &E) -> (r: String)
    requires
        forall|k: &str| env.pre(k),
    ensures
        env.obeys() ==> r@ == spec_expand_rec(input@, env.model(), 0),
        !input@.contains('$') ==> r@ == input@,
{
    let ghost m = env.model();
    let mut cur: String = input.to_owned();
    let mut round: usize = 0;
    loop
        invariant
            forall|k: &str| env.pre(k),
            m == env.model(),
            0 <= round <= 8,
            env.obeys() ==> spec_expand_rec(cur@, m, round as int) == spec_expand_rec(
                input@,
                m,
                0,
            ),
            !input@.contains('$') ==> cur@ == input@,
        decreases 8 - round,
    {
        if round >= 8 {
            return cur;
        }
        let e = expand_env(cur.as_str(), env);
        let keeps_going = str_contains_char(e.as_str(), '$') && !(e == cur);
        if keeps_going {
            cur = e;
            round = round + 1;
        } else {
            proof {
                if env.obeys() {
                    assert(spec_expand_rec(cur@, m, round as int) == e@);
                }
            }
            return e;
        }
    }
}

} // verus!
