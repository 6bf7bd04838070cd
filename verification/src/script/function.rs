//! The `function` script node: emits `function NAME {`, the body
//! re-indented to one consistent level, and `}`.
//!
//! Re-indentation first drops leading newlines and trailing whitespace,
//! splits the body into lines, measures the smallest leading run of blanks
//! and tabs over the non-blank lines, strips exactly that many characters
//! from every non-blank line, and prefixes each non-blank line with the
//! target indent.  Blank lines stay empty.  Relative indentation between
//! lines is therefore preserved.

use vstd::prelude::*;
use vstd::string::StrSliceExecFns;
use vstd::string::StringExecFns;
use crate::condition::{Condition, Facts};
use crate::strutil::push_char;
use crate::visitor::{grows_from, lemma_grows_refl, lemma_prefix_concat, step_matches, CtxView, StepView, VisitorContext, VisitorError};

verus! {

/// A script node that defines a shell function.
pub struct FunctionScript {
    /// The function name.
    pub name: String,
    /// The body text, re-indented when rendered.
    pub body: String,
    /// The guard; the node is a no-op when it fails.
    pub condition: Condition,
}

/// Whitespace trimmed from the end of a body.
pub open spec fn is_trim_ws(c: char) -> bool {
    c == ' ' || c == '\t' || c == '\n' || c == '\r'
}

/// Whitespace counted as indentation.
pub open spec fn is_indent_ws(c: char) -> bool {
    c == ' ' || c == '\t'
}

/// The text with its leading newlines removed.
pub open spec fn trim_lead_newlines(s: Seq<char>) -> Seq<char>
    decreases s.len(),
{
    if s.len() > 0 && s[0] == '\n' {
        trim_lead_newlines(s.skip(1))
    } else {
        s
    }
}

/// The text with its trailing whitespace removed.
pub open spec fn trim_trail_ws(s: Seq<char>) -> Seq<char>
    decreases s.len(),
{
    if s.len() > 0 && is_trim_ws(s.last()) {
        trim_trail_ws(s.drop_last())
    } else {
        s
    }
}

/// The position of the first newline at or after `i`, or the length.
pub open spec fn first_nl(s: Seq<char>, i: int) -> int
    decreases s.len() - i,
{
    if 0 <= i < s.len() {
        if s[i] == '\n' {
            i
        } else {
            first_nl(s, i + 1)
        }
    } else {
        i
    }
}

proof fn lemma_first_nl_bounds(s: Seq<char>, i: int)
    requires
        0 <= i <= s.len(),
    ensures
        i <= first_nl(s, i) <= s.len(),
    decreases s.len() - i,
{
    if i < s.len() && s[i] != '\n' {
        lemma_first_nl_bounds(s, i + 1);
    }
}

/// The lines of the text, split at newlines; a trailing newline does not
/// open a further empty line.
pub open spec fn split_lines(s: Seq<char>) -> Seq<Seq<char>>
    decreases s.len(),
    via split_lines_dec
{
    if s.len() == 0 {
        Seq::empty()
    } else {
        let k = first_nl(s, 0);
        if k == s.len() {
            seq![s]
        } else {
            seq![s.subrange(0, k)] + split_lines(s.skip(k + 1))
        }
    }
}

#[via_fn]
proof fn split_lines_dec(s: Seq<char>) {
    if s.len() > 0 {
        lemma_first_nl_bounds(s, 0);
    }
}

/// Whether a line holds nothing but whitespace.
pub open spec fn is_blank(line: Seq<char>) -> bool {
    forall|i: int| 0 <= i < line.len() ==> is_trim_ws(#[trigger] line[i])
}

/// The length of the line's leading run of blanks and tabs.
pub open spec fn leading_ws(line: Seq<char>, i: int) -> int
    decreases line.len() - i,
{
    if 0 <= i < line.len() && is_indent_ws(line[i]) {
        leading_ws(line, i + 1)
    } else {
        i
    }
}

proof fn lemma_leading_ws_bounds(line: Seq<char>, i: int)
    requires
        0 <= i <= line.len(),
    ensures
        i <= leading_ws(line, i) <= line.len(),
    decreases line.len() - i,
{
    if i < line.len() && is_indent_ws(line[i]) {
        lemma_leading_ws_bounds(line, i + 1);
    }
}

/// The smaller of two optional measures; an absent measure never wins.
pub open spec fn opt_min(a: Option<int>, b: Option<int>) -> Option<int> {
    match (a, b) {
        (Option::Some(x), Option::Some(y)) => if x <= y {
            Some(x)
        } else {
            Some(y)
        },
        (Option::Some(x), Option::None) => Some(x),
        (Option::None, Option::Some(y)) => Some(y),
        (Option::None, Option::None) => None,
    }
}

/// The indentation a line contributes to the minimum: none when blank.
pub open spec fn line_key(line: Seq<char>) -> Option<int> {
    if is_blank(line) {
        None
    } else {
        Some(leading_ws(line, 0))
    }
}

/// The smallest leading-whitespace width over the non-blank lines, if any
/// line is non-blank.
pub open spec fn min_indent_opt(lines: Seq<Seq<char>>) -> Option<int>
    decreases lines.len(),
{
    if lines.len() == 0 {
        None
    } else {
        opt_min(line_key(lines[0]), min_indent_opt(lines.skip(1)))
    }
}

proof fn lemma_opt_min_assoc(a: Option<int>, b: Option<int>, c: Option<int>)
    ensures
        opt_min(a, opt_min(b, c)) == opt_min(opt_min(a, b), c),
{
}

proof fn lemma_min_indent_le(lines: Seq<Seq<char>>, m: int, i: int)
    requires
        min_indent_opt(lines) == Some(m),
        0 <= i < lines.len(),
        !is_blank(lines[i]),
    ensures
        m <= leading_ws(lines[i], 0),
    decreases lines.len(),
{
    if i == 0 {
    } else {
        let rest = min_indent_opt(lines.skip(1));
        match rest {
            Some(mr) => {
                lemma_min_indent_le(lines.skip(1), mr, i - 1);
            },
            None => {
                assert(!is_blank(lines.skip(1)[i - 1]));
                lemma_min_indent_some(lines.skip(1), i - 1);
            },
        }
    }
}

proof fn lemma_min_indent_some(lines: Seq<Seq<char>>, i: int)
    requires
        0 <= i < lines.len(),
        !is_blank(lines[i]),
    ensures
        min_indent_opt(lines) is Some,
    decreases lines.len(),
{
    if i > 0 {
        lemma_min_indent_some(lines.skip(1), i - 1);
    }
}

/// One re-indented line: blank lines become empty, others lose the common
/// indentation and gain the target indent.
pub open spec fn reindent_line(line: Seq<char>, m: int, indent: Seq<char>) -> Seq<char> {
    if is_blank(line) {
        Seq::empty()
    } else {
        indent + line.skip(m)
    }
}

/// Lines joined back together with single newlines.
pub open spec fn join_lines(parts: Seq<Seq<char>>) -> Seq<char>
    decreases parts.len(),
{
    if parts.len() == 0 {
        Seq::empty()
    } else if parts.len() == 1 {
        parts[0]
    } else {
        parts[0] + seq!['\n'] + join_lines(parts.skip(1))
    }
}

proof fn lemma_join_push(parts: Seq<Seq<char>>, p: Seq<char>)
    ensures
        parts.len() == 0 ==> join_lines(parts.push(p)) == p,
        parts.len() > 0 ==> join_lines(parts.push(p)) == join_lines(parts) + seq!['\n'] + p,
    decreases parts.len(),
{
    let pp = parts.push(p);
    if parts.len() == 0 {
        assert(pp.len() == 1);
        assert(join_lines(pp) == pp[0]);
        assert(pp[0] == p);
    } else {
        assert(pp.skip(1) =~= parts.skip(1).push(p));
        lemma_join_push(parts.skip(1), p);
        if parts.len() == 1 {
            assert(parts.skip(1).len() == 0);
            assert(join_lines(pp) == pp[0] + seq!['\n'] + join_lines(pp.skip(1)));
            assert(join_lines(pp.skip(1)) == p);
            assert(join_lines(parts) == parts[0]);
        } else {
            assert(join_lines(pp) == pp[0] + seq!['\n'] + join_lines(pp.skip(1)));
            assert(join_lines(pp) =~= join_lines(parts) + seq!['\n'] + p);
        }
    }
}

/// The whole re-indentation: trim, split, measure, strip and re-prefix,
/// and join.
pub open spec fn spec_re_indent(text: Seq<char>, indent: Seq<char>) -> Seq<char> {
    let t = trim_trail_ws(trim_lead_newlines(text));
    let ls = split_lines(t);
    let m = match min_indent_opt(ls) {
        Some(m) => m,
        None => 0,
    };
    join_lines(ls.map_values(|l: Seq<char>| reindent_line(l, m, indent)))
}

/// Whether the line holds nothing but whitespace.
fn line_is_blank(line: &str) -> (r: bool)
    ensures
        r == is_blank(line@),
{
    let n = line.unicode_len();
    let mut i: usize = 0;
    while i < n
        invariant
            n == line@.len(),
            0 <= i <= n,
            forall|j: int| 0 <= j < i ==> is_trim_ws(#[trigger] line@[j]),
        decreases n - i,
    {
        let c = line.get_char(i);
        if !(c == ' ' || c == '\t' || c == '\n' || c == '\r') {
            return false;
        }
        i = i + 1;
    }
    true
}

/// The length of the line's leading run of blanks and tabs.
#[verifier::loop_isolation(false)]
fn line_leading_ws(line: &str) -> (r: usize)
    ensures
        r == leading_ws(line@, 0),
        r <= line@.len(),
{
    let n = line.unicode_len();
    let mut i: usize = 0;
    while i < n
        invariant
            0 <= i <= n,
            leading_ws(line@, 0) == leading_ws(line@, i as int),
        decreases n - i,
    {
        let c = line.get_char(i);
        if !(c == ' ' || c == '\t') {
            return i;
        }
        i = i + 1;
    }
    i
}

/// Split text with no trailing newline into its lines.
#[verifier::loop_isolation(false)]
fn split_into_lines(t: &str) -> (r: Vec<String>)
    ensures
        r.deep_view() == split_lines(t@),
{
    let n = t.unicode_len();
    let mut lines: Vec<String> = Vec::new();
    proof {
        assert(lines.deep_view() =~= Seq::<Seq<char>>::empty());
        assert(t@.skip(0) =~= t@);
    }
    if n == 0 {
        return lines;
    }
    let mut p: usize = 0;
    loop
        invariant
            n == t@.len(),
            0 <= p < n,
            split_lines(t@) == lines.deep_view() + split_lines(t@.skip(p as int)),
        decreases n - p,
    {
        let ghost pre = lines.deep_view();
        let ghost rest = t@.skip(p as int);
        let mut k = p;
        while k < n
            invariant
                p <= k <= n,
                forall|j: int| p <= j < k ==> t@[j] != '\n',
            decreases n - k,
        {
            if t.get_char(k) == '\n' {
                break ;
            }
            k = k + 1;
        }
        let is_nl = k < n;
        proof {
            assert(forall|j: int|
                0 <= j < k - p ==> rest[j] == t@[j + p] && t@[j + p] != '\n');
            if is_nl {
                assert(rest[k - p] == t@[k as int]);
                assert(first_nl(rest, 0) == k - p) by {
                    lemma_first_nl_at(rest, 0, k - p);
                }
            } else {
                assert(first_nl(rest, 0) == rest.len()) by {
                    lemma_first_nl_at(rest, 0, rest.len() as int);
                }
            }
        }
        let seg = t.substring_char(p, k).to_owned();
        lines.push(seg);
        proof {
            assert(lines.deep_view() =~= pre.push(t@.subrange(p as int, k as int)));
        }
        if !is_nl {
            proof {
                assert(rest.subrange(0, rest.len() as int) =~= rest);
                assert(split_lines(rest) == seq![rest]);
                assert(t@.subrange(p as int, k as int) =~= rest);
                assert(lines.deep_view() =~= pre + seq![rest]);
            }
            return lines;
        }
        proof {
            assert(t@.subrange(p as int, k as int) =~= rest.subrange(0, k - p));
            assert(rest.skip(k - p + 1) =~= t@.skip(k as int + 1));
            assert(split_lines(rest) == seq![rest.subrange(0, k - p)] + split_lines(
                t@.skip(k as int + 1),
            ));
            assert(lines.deep_view() + split_lines(t@.skip(k as int + 1)) =~= pre + split_lines(
                rest,
            ));
        }
        p = k + 1;
        if p >= n {
            proof {
                assert(p == n);
                assert(t@.skip(n as int) =~= Seq::<char>::empty());
                assert(split_lines(t@.skip(p as int)).len() == 0);
                assert(split_lines(t@) =~= lines.deep_view());
            }
            return lines;
        }
    }
}

proof fn lemma_first_nl_at(s: Seq<char>, i: int, k: int)
    requires
        0 <= i <= k <= s.len(),
        forall|j: int| i <= j < k ==> s[j] != '\n',
        k < s.len() ==> s[k] == '\n',
    ensures
        first_nl(s, i) == k,
    decreases k - i,
{
    if i < k {
        lemma_first_nl_at(s, i + 1, k);
    }
}

/// Re-indent multi-line text: strip the smallest common leading
/// whitespace of the non-blank lines, then prefix each non-blank line with
/// `indent`; blank lines become empty.  Leading newlines and trailing
/// whitespace of the whole text are dropped first.
#[verifier::loop_isolation(false)]
pub fn re_indent(text: &str, indent: &str) -> (r: String)
    ensures
        r@ == spec_re_indent(text@, indent@),
{
    let n = text.unicode_len();
    let mut a: usize = 0;
    proof {
        assert(text@.skip(0) =~= text@);
    }
    while a < n
        invariant
            0 <= a <= n,
            trim_lead_newlines(text@) == trim_lead_newlines(text@.skip(a as int)),
        decreases n - a,
    {
        proof {
            assert(text@.skip(a as int)[0] == text@[a as int]);
            assert(text@.skip(a as int).skip(1) =~= text@.skip(a as int + 1));
        }
        if text.get_char(a) != '\n' {
            break ;
        }
        a = a + 1;
    }
    proof {
        if a == n {
            assert(text@.skip(a as int).len() == 0);
        }
        assert(trim_lead_newlines(text@) == text@.skip(a as int));
    }
    let mut e: usize = n;
    proof {
        assert(text@.skip(a as int) =~= text@.subrange(a as int, n as int));
    }
    while e > a
        invariant
            a <= e <= n,
            trim_trail_ws(text@.skip(a as int)) == trim_trail_ws(
                text@.subrange(a as int, e as int),
            ),
        decreases e,
    {
        proof {
            assert(text@.subrange(a as int, e as int).last() == text@[e - 1]);
            assert(text@.subrange(a as int, e as int).drop_last() =~= text@.subrange(
                a as int,
                e - 1,
            ));
        }
        let c = text.get_char(e - 1);
        if !(c == ' ' || c == '\t' || c == '\n' || c == '\r') {
            break ;
        }
        e = e - 1;
    }
    proof {
        if e == a {
            assert(text@.subrange(a as int, e as int).len() == 0);
        }
        assert(text@.skip(a as int) =~= text@.subrange(a as int, n as int));
        assert(trim_trail_ws(trim_lead_newlines(text@)) == text@.subrange(a as int, e as int));
    }
    let t = text.substring_char(a, e);
    let lines = split_into_lines(t);
    let ghost ls = split_lines(t@);
    let mut min: Option<usize> = None;
    let ln = lines.len();
    let mut i: usize = 0;
    proof {
        assert(ls.skip(0) =~= ls);
    }
    while i < ln
        invariant
            ln == ls.len(),
            lines.deep_view() == ls,
            0 <= i <= ln,
            min_indent_opt(ls) == opt_min(
                match min {
                    Some(m) => Some(m as int),
                    None => None,
                },
                min_indent_opt(ls.skip(i as int)),
            ),
        decreases ln - i,
    {
        proof {
            assert(ls.skip(i as int)[0] == ls[i as int]);
            assert(ls.skip(i as int).skip(1) =~= ls.skip(i as int + 1));
            assert(lines[i as int]@ == ls[i as int]);
        }
        let line = &lines[i];
        let ghost old_min = min;
        if !line_is_blank(line.as_str()) {
            let w = line_leading_ws(line.as_str());
            min = match min {
                Some(m) => if w < m {
                    Some(w)
                } else {
                    Some(m)
                },
                None => Some(w),
            };
        }
        i = i + 1;
        proof {
            let a1 = match old_min {
                Some(m) => Some(m as int),
                None => None,
            };
            let k = line_key(ls[i - 1]);
            lemma_opt_min_assoc(a1, k, min_indent_opt(ls.skip(i as int)));
        }
    }
    proof {
        assert(ls.skip(ln as int) =~= Seq::<Seq<char>>::empty());
    }
    let m: usize = match min {
        Some(m) => m,
        None => 0,
    };
    let ghost parts = ls.map_values(|l: Seq<char>| reindent_line(l, m as int, indent@));
    let mut out = String::new();
    let mut i: usize = 0;
    proof {
        assert(parts.take(0) =~= Seq::<Seq<char>>::empty());
    }
    while i < ln
        invariant
            ln == ls.len(),
            lines.deep_view() == ls,
            parts == ls.map_values(|l: Seq<char>| reindent_line(l, m as int, indent@)),
            min_indent_opt(ls) is Some ==> min_indent_opt(ls) == Some(m as int),
            min_indent_opt(ls) is None ==> m == 0,
            0 <= i <= ln,
            out@ == join_lines(parts.take(i as int)),
        decreases ln - i,
    {
        proof {
            assert(lines[i as int]@ == ls[i as int]);
            assert(parts[i as int] == reindent_line(ls[i as int], m as int, indent@));
            lemma_join_push(parts.take(i as int), parts[i as int]);
            assert(parts.take(i as int).push(parts[i as int]) =~= parts.take(i as int + 1));
        }
        if i > 0 {
            push_char(&mut out, '\n');
        }
        let line = &lines[i];
        if !line_is_blank(line.as_str()) {
            proof {
                lemma_min_indent_some(ls, i as int);
                lemma_min_indent_le(ls, m as int, i as int);
                lemma_leading_ws_bounds(ls[i as int], 0);
            }
            out.append(indent);
            let tail = line.as_str().substring_char(m, line.as_str().unicode_len());
            out.append(tail);
            proof {
                assert(ls[i as int].subrange(m as int, ls[i as int].len() as int) =~= ls[
                    i as int].skip(m as int));
            }
        } else {
            proof {
                assert(reindent_line(ls[i as int], m as int, indent@) =~= Seq::<char>::empty());
            }
        }
        i = i + 1;
        proof {
            if i - 1 == 0 {
                assert(out@ =~= join_lines(parts.take(i as int)));
            } else {
                assert(out@ =~= join_lines(parts.take(i as int)));
            }
        }
    }
    proof {
        assert(parts.take(ln as int) =~= parts);
    }
    out
}

/// The opening line `function NAME {` with its newline.
pub open spec fn function_open(name: Seq<char>) -> Seq<char> {
    "function "@ + name + " {\n"@
}

/// The whole rendered function block.
pub open spec fn function_block(name: Seq<char>, body: Seq<char>) -> Seq<char> {
    function_open(name) + spec_re_indent(body, "    "@) + "\n}\n"@
}

impl FunctionScript {
    /// The document tag this node answers to.
    pub fn tag() -> (r: &'static str)
        ensures
            r@ == "<function name>"@,
    {
        "<function name>"
    }

    /// What a visit of this node does: nothing when the guard fails, else
    /// append the function block with its body re-indented by one level.
    pub open spec fn visit_spec(&self, facts: &Facts, c: CtxView) -> StepView {
        if !self.condition.eval(facts) {
            (c, None)
        } else {
            ((CtxView { out: c.out + function_block(self.name@, self.body@), ..c }), None)
        }
    }

    /// Visit this node.
    pub fn visit(&self, ctx: &mut VisitorContext) -> (r: Result<(), VisitorError>)
        ensures
            final(ctx).facts == old(ctx).facts,
            step_matches(final(ctx)@, r, self.visit_spec(&old(ctx).facts, old(ctx)@)),
    {
        if !self.condition.check(&ctx.facts) {
            return Ok(());
        }
        ctx.out.append("function ");
        ctx.out.append(self.name.as_str());
        ctx.out.append(" {\n");
        let body = re_indent(self.body.as_str(), "    ");
        ctx.out.append(body.as_str());
        ctx.out.append("\n}\n");
        proof {
            assert(ctx@.out =~= old(ctx)@.out + function_block(self.name@, self.body@));
            assert(ctx@ =~= self.visit_spec(&old(ctx).facts, old(ctx)@).0);
        }
        Ok(())
    }
}

/// A visit of this node leaves the context extending what it was.
pub proof fn lemma_function_visit_grows(a: FunctionScript, facts: &Facts, c: CtxView)
    ensures
        grows_from(c, a.visit_spec(facts, c).0),
{
    lemma_grows_refl(c);
    if a.condition.eval(facts) {
        lemma_prefix_concat(c.out, function_block(a.name@, a.body@));
    }
}

} // verus!
