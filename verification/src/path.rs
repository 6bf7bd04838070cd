//! Search-path entries and the centralized `PATH` mutation discipline.
//!
//! Appending an entry reads the current `PATH` value from the context's
//! environment, joins the entry onto it with the path-list separator `:`,
//! and writes the result back, so each addition builds on the previous one
//! within the same walk.  The entry is also recorded in the context's path
//! list.  When the environment holds no `PATH` at all, the environment is
//! left alone and the entry is only recorded.  An entry that itself holds
//! the separator cannot be joined and raises an error.

use vstd::prelude::*;
use vstd::string::StringExecFns;
use crate::env_source::EnvSource;
use crate::strutil::{push_char, str_contains_char};
use crate::visitor::{grows_from, lemma_grows_refl, lemma_prefix_concat, lemma_prefix_push, step_matches, CtxView, ErrView, StepView, VisitorContext, VisitorError};

verus! {

/// A single filesystem path destined for the search path.
pub struct Path(pub String);

/// A list of search-path entries, appended in declaration order.
pub struct Paths(pub Vec<Path>);

/// What appending one entry does to a context.
pub open spec fn path_visit_spec(entry: Seq<char>, c: CtxView) -> StepView {
    if c.env.dom().contains("PATH"@) {
        if entry.contains(':') {
            (c, Some(ErrView::JoinPathsError(entry)))
        } else {
            (
                (CtxView {
                    env: c.env.insert("PATH"@, c.env["PATH"@] + seq![':'] + entry),
                    paths: c.paths.push(entry),
                    ..c
                }),
                None,
            )
        }
    } else {
        ((CtxView { paths: c.paths.push(entry), ..c }), None)
    }
}

/// The first entry that holds the separator, if any.
pub open spec fn first_sep_entry(entries: Seq<Seq<char>>) -> Option<Seq<char>>
    decreases entries.len(),
{
    if entries.len() == 0 {
        None
    } else if entries[0].contains(':') {
        Some(entries[0])
    } else {
        first_sep_entry(entries.skip(1))
    }
}

/// The environment after joining every entry onto `PATH` in order.
pub open spec fn append_all(env: Map<Seq<char>, Seq<char>>, entries: Seq<Seq<char>>) -> Map<
    Seq<char>,
    Seq<char>,
>
    decreases entries.len(),
{
    if entries.len() == 0 {
        env
    } else {
        append_all(env.insert("PATH"@, env["PATH"@] + seq![':'] + entries[0]), entries.skip(1))
    }
}

proof fn lemma_append_all_push(env: Map<Seq<char>, Seq<char>>, entries: Seq<Seq<char>>, e: Seq<
    char,
>)
    ensures
        append_all(env, entries.push(e)) == append_all(env, entries).insert(
            "PATH"@,
            append_all(env, entries)["PATH"@] + seq![':'] + e,
        ),
    decreases entries.len(),
{
    let pp = entries.push(e);
    if entries.len() == 0 {
        assert(pp[0] == e);
        assert(pp.skip(1) =~= Seq::<Seq<char>>::empty());
        let env1 = env.insert("PATH"@, env["PATH"@] + seq![':'] + e);
        assert(append_all(env, pp) == append_all(env1, pp.skip(1)));
        assert(append_all(env1, pp.skip(1)) == env1);
        assert(append_all(env, entries) == env);
    } else {
        assert(pp[0] == entries[0]);
        assert(pp.skip(1) =~= entries.skip(1).push(e));
        let env1 = env.insert("PATH"@, env["PATH"@] + seq![':'] + entries[0]);
        assert(append_all(env, pp) == append_all(env1, pp.skip(1)));
        assert(append_all(env, entries) == append_all(env1, entries.skip(1)));
        lemma_append_all_push(env1, entries.skip(1), e);
    }
}

/// What appending a whole list of entries does: with `PATH` unset the
/// entries are only recorded; with `PATH` set, a single entry holding the
/// separator makes the whole addition fail with nothing changed, and
/// otherwise every entry is joined on in order and recorded.
pub open spec fn paths_visit_spec(entries: Seq<Seq<char>>, c: CtxView) -> StepView {
    if !c.env.dom().contains("PATH"@) {
        ((CtxView { paths: c.paths + entries, ..c }), None)
    } else {
        match first_sep_entry(entries) {
            Some(bad) => (c, Some(ErrView::JoinPathsError(bad))),
            None => (
                (CtxView { env: append_all(c.env, entries), paths: c.paths + entries, ..c }),
                None,
            ),
        }
    }
}

impl Path {
    /// The document tag this node answers to.
    pub fn tag() -> (r: &'static str)
        ensures
            r@ == "<path>"@,
    {
        "<path>"
    }

    /// Append this entry to `PATH` and record it.
    pub fn visit(&self, ctx: &mut VisitorContext) -> (r: Result<(), VisitorError>)
        ensures
            final(ctx).facts == old(ctx).facts,
            step_matches(final(ctx)@, r, path_visit_spec(self.0@, old(ctx)@)),
    {
        match ctx.env.get("PATH") {
            Some(cur) => {
                if str_contains_char(self.0.as_str(), ':') {
                    return Err(VisitorError::JoinPathsError(self.0.clone()));
                }
                let mut nv = cur;
                push_char(&mut nv, ':');
                nv.append(self.0.as_str());
                ctx.env.set("PATH", nv.as_str());
                proof {
                    assert(nv@ =~= old(ctx)@.env["PATH"@] + seq![':'] + self.0@);
                }
            },
            None => {},
        }
        ctx.paths.push(self.0.clone());
        proof {
            assert(ctx.paths.deep_view() =~= old(ctx).paths.deep_view().push(self.0@));
            assert(ctx@ =~= path_visit_spec(self.0@, old(ctx)@).0);
        }
        Ok(())
    }
}

impl Paths {
    /// The entries of this list, as character sequences.
    pub open spec fn entries(&self) -> Seq<Seq<char>> {
        self.0@.map_values(|p: Path| p.0@)
    }

    /// What a visit of this list does.
    pub open spec fn visit_spec(&self, c: CtxView) -> StepView {
        paths_visit_spec(self.entries(), c)
    }

    /// Append every entry to `PATH` in declaration order and record them.
    /// An entry holding the separator fails the whole list with nothing
    /// changed.
    #[verifier::loop_isolation(false)]
    pub fn visit(&self, ctx: &mut VisitorContext) -> (r: Result<(), VisitorError>)
        ensures
            final(ctx).facts == old(ctx).facts,
            step_matches(final(ctx)@, r, self.visit_spec(old(ctx)@)),
    {
        let ghost entries = self.entries();
        let n = self.0.len();
        let has_path = match ctx.env.get("PATH") {
            Some(_) => true,
            None => false,
        };
        if has_path {
            let mut i: usize = 0;
            proof {
                assert(entries.skip(0) =~= entries);
            }
            while i < n
                invariant
                    0 <= i <= n,
                    forall|j: int| 0 <= j < i ==> !(#[trigger] entries[j]).contains(':'),
                    first_sep_entry(entries) == first_sep_entry(entries.skip(i as int)),
                decreases n - i,
            {
                proof {
                    assert(entries.skip(i as int)[0] == entries[i as int]);
                    assert(entries.skip(i as int).skip(1) =~= entries.skip(i as int + 1));
                }
                if str_contains_char(self.0[i].0.as_str(), ':') {
                    return Err(VisitorError::JoinPathsError(self.0[i].0.clone()));
                }
                i = i + 1;
            }
            proof {
                assert(entries.skip(n as int) =~= Seq::<Seq<char>>::empty());
                assert(first_sep_entry(entries) is None);
            }
        }
        let mut i: usize = 0;
        proof {
            assert(entries.take(0) =~= Seq::<Seq<char>>::empty());
            assert(old(ctx).paths.deep_view() + entries.take(0) =~= old(ctx).paths.deep_view());
        }
        while i < n
            invariant
                0 <= i <= n,
                ctx.facts == old(ctx).facts,
                has_path == old(ctx)@.env.dom().contains("PATH"@),
                has_path ==> first_sep_entry(entries) is None,
                has_path ==> ctx@ == (CtxView {
                    env: append_all(old(ctx)@.env, entries.take(i as int)),
                    paths: old(ctx)@.paths + entries.take(i as int),
                    ..old(ctx)@
                }),
                !has_path ==> ctx@ == (CtxView {
                    paths: old(ctx)@.paths + entries.take(i as int),
                    ..old(ctx)@
                }),
            decreases n - i,
        {
            proof {
                assert(entries.take(i as int).push(entries[i as int]) =~= entries.take(
                    i as int + 1,
                ));
                if has_path {
                    lemma_append_all_contains(old(ctx)@.env, entries.take(i as int));
                    lemma_append_all_push(old(ctx)@.env, entries.take(i as int), entries[i as int]);
                    assert(!entries[i as int].contains(':'));
                }
            }
            match Path::visit(&self.0[i], ctx) {
                Ok(()) => {},
                Err(e) => {
                    proof {
                        assert(false);
                    }
                    return Err(e);
                },
            }
            i = i + 1;
            proof {
                assert(ctx@.paths =~= old(ctx)@.paths + entries.take(i as int));
                if has_path {
                    assert(ctx@ =~= (CtxView {
                        env: append_all(old(ctx)@.env, entries.take(i as int)),
                        paths: old(ctx)@.paths + entries.take(i as int),
                        ..old(ctx)@
                    }));
                } else {
                    assert(ctx@ =~= (CtxView {
                        paths: old(ctx)@.paths + entries.take(i as int),
                        ..old(ctx)@
                    }));
                }
            }
        }
        proof {
            assert(entries.take(n as int) =~= entries);
            assert(ctx@ =~= self.visit_spec(old(ctx)@).0);
        }
        Ok(())
    }
}

/// Two separator-free entries appended in order extend `PATH` with both,
/// in that order and each once, on top of whatever `PATH` held before,
/// and both are recorded in order.
pub proof fn lemma_paths_append_two(e1: Seq<char>, e2: Seq<char>, c: CtxView)
    requires
        c.env.dom().contains("PATH"@),
        !e1.contains(':'),
        !e2.contains(':'),
    ensures
        paths_visit_spec(seq![e1, e2], c).1 is None,
        paths_visit_spec(seq![e1, e2], c).0.env["PATH"@] == c.env["PATH"@] + seq![':'] + e1
            + seq![':'] + e2,
        paths_visit_spec(seq![e1, e2], c).0.paths == c.paths + seq![e1, e2],
{
    let es = seq![e1, e2];
    assert(es.skip(1) =~= seq![e2]);
    assert(seq![e2].skip(1) =~= Seq::<Seq<char>>::empty());
    assert(es[0] == e1);
    assert(seq![e2][0] == e2);
    assert(first_sep_entry(es) == first_sep_entry(seq![e2]));
    assert(first_sep_entry(seq![e2]) == first_sep_entry(Seq::<Seq<char>>::empty()));
    assert(first_sep_entry(es) is None);
    let env1 = c.env.insert("PATH"@, c.env["PATH"@] + seq![':'] + e1);
    let env2 = env1.insert("PATH"@, env1["PATH"@] + seq![':'] + e2);
    assert(append_all(c.env, es) == append_all(env1, es.skip(1)));
    assert(append_all(env1, seq![e2]) == append_all(env2, seq![e2].skip(1)));
    assert(append_all(env2, seq![e2].skip(1)) == env2);
    assert(env2["PATH"@] =~= c.env["PATH"@] + seq![':'] + e1 + seq![':'] + e2);
}

proof fn lemma_append_all_contains(env: Map<Seq<char>, Seq<char>>, entries: Seq<Seq<char>>)
    requires
        env.dom().contains("PATH"@),
    ensures
        append_all(env, entries).dom().contains("PATH"@),
    decreases entries.len(),
{
    if entries.len() > 0 {
        lemma_append_all_contains(
            env.insert("PATH"@, env["PATH"@] + seq![':'] + entries[0]),
            entries.skip(1),
        );
    }
}

proof fn lemma_append_all_dom(env: Map<Seq<char>, Seq<char>>, entries: Seq<Seq<char>>)
    ensures
        env.dom().subset_of(append_all(env, entries).dom()),
    decreases entries.len(),
{
    if entries.len() > 0 {
        let env1 = env.insert("PATH"@, env["PATH"@] + seq![':'] + entries[0]);
        lemma_append_all_dom(env1, entries.skip(1));
    }
}

/// Appending one entry leaves the context extending what it was.
pub proof fn lemma_path_visit_grows(entry: Seq<char>, c: CtxView)
    ensures
        grows_from(c, path_visit_spec(entry, c).0),
{
    lemma_grows_refl(c);
    lemma_prefix_push(c.paths, entry);
}

/// Appending a list of entries leaves the context extending what it was.
pub proof fn lemma_paths_visit_grows(entries: Seq<Seq<char>>, c: CtxView)
    ensures
        grows_from(c, paths_visit_spec(entries, c).0),
{
    lemma_grows_refl(c);
    lemma_prefix_concat(c.paths, entries);
    if c.env.dom().contains("PATH"@) && first_sep_entry(entries) is None {
        lemma_append_all_dom(c.env, entries);
    }
}

} // verus!
