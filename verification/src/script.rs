//! The seven script node kinds and lists of them.
//!
//! Every node is guarded: a failing condition makes its visit a no-op.
//! When a list of scripts is visited, a missing source file is recoverable:
//! the walk records it and goes on as if the node had done nothing, while
//! every other error stops the walk at once.

pub mod alias;
pub mod eval;
pub mod export;
pub mod function;
pub mod raw;
pub mod source;
pub mod var;

use vstd::prelude::*;
use crate::condition::Facts;
use crate::visitor::{grows_from, lemma_grows_refl, lemma_grows_trans, lemma_prefix_push, step_matches, CtxView, ErrView, StepView, VisitorContext, VisitorError};
use crate::script::alias::AliasScript;
use crate::script::eval::EvalScript;
use crate::script::export::ExportScript;
use crate::script::function::FunctionScript;
use crate::script::raw::RawScript;
use crate::script::source::SourceScript;
use crate::script::var::VarScript;
use crate::strutil::str_in;
use crate::vars::spec_expand_rec;

verus! {

/// One script node of any kind.
pub enum Script {
    /// An alias definition.
    Alias(AliasScript),
    /// A statement evaluated through `eval`.
    Eval(EvalScript),
    /// An environment-variable export.
    Export(ExportScript),
    /// A function definition.
    Function(FunctionScript),
    /// Verbatim script text.
    Raw(RawScript),
    /// A `source` statement guarded by a file-existence check.
    Source(SourceScript),
    /// A plain shell variable assignment.
    Var(VarScript),
    /// An empty node that emits nothing.
    Nothing,
}

/// A list of script nodes, visited in declaration order.
pub struct Scripts(pub Vec<Script>);

impl Script {
    /// What a visit of one node inside a script list does.  A source node
    /// whose target is missing is caught here: the file text joins the
    /// skipped list and the walk continues; every other outcome passes
    /// through.
    pub open spec fn visit_spec(&self, facts: &Facts, c: CtxView) -> StepView {
        match self {
            Script::Alias(a) => a.visit_spec(facts, c),
            Script::Eval(e) => e.visit_spec(facts, c),
            Script::Export(e) => e.visit_spec(facts, c),
            Script::Function(f) => f.visit_spec(facts, c),
            Script::Raw(r) => r.visit_spec(facts, c),
            Script::Source(s) => {
                let step = s.visit_spec(facts, c);
                match step.1 {
                    Some(ErrView::SourceFileNotExist(f)) => (
                        (CtxView { skipped: step.0.skipped.push(f), ..step.0 }),
                        None,
                    ),
                    _ => step,
                }
            },
            Script::Var(v) => v.visit_spec(facts, c),
            Script::Nothing => (c, None),
        }
    }

    /// Visit one node as part of a script list.
    pub fn visit(&self, ctx: &mut VisitorContext) -> (r: Result<(), VisitorError>)
        ensures
            final(ctx).facts == old(ctx).facts,
            step_matches(final(ctx)@, r, self.visit_spec(&old(ctx).facts, old(ctx)@)),
    {
        match self {
            Script::Alias(a) => a.visit(ctx),
            Script::Eval(e) => e.visit(ctx),
            Script::Export(e) => e.visit(ctx),
            Script::Function(f) => f.visit(ctx),
            Script::Raw(r) => r.visit(ctx),
            Script::Source(s) => {
                match s.visit(ctx) {
                    Ok(()) => Ok(()),
                    Err(VisitorError::SourceFileNotExist(f)) => {
                        ctx.skipped_sources.push(f);
                        proof {
                            assert(ctx@ =~= self.visit_spec(&old(ctx).facts, old(ctx)@).0);
                        }
                        Ok(())
                    },
                    Err(e) => Err(e),
                }
            },
            Script::Var(v) => v.visit(ctx),
            Script::Nothing => Ok(()),
        }
    }
}

/// A source node whose guard passes but whose expanded target is not a
/// known file propagates an error when visited standalone, with nothing
/// changed; the same node visited inside a script list raises no error
/// and emits nothing, and only the record of skipped files grows.
pub proof fn lemma_source_missing(s: SourceScript, facts: &Facts, c: CtxView)
    requires
        s.condition.eval(facts),
        !str_in(facts.files@, spec_expand_rec(s.file@, c.env, 0)),
    ensures
        s.visit_spec(facts, c) == (c, Some(ErrView::SourceFileNotExist(s.file@))),
        Script::Source(s).visit_spec(facts, c) == (
            (CtxView { skipped: c.skipped.push(s.file@), ..c }),
            None::<ErrView>,
        ),
{
}

/// What visiting a whole list does: each node in order, stopping at the
/// first error.
pub open spec fn scripts_visit_spec(ss: Seq<Script>, facts: &Facts, c: CtxView) -> StepView
    decreases ss.len(),
{
    if ss.len() == 0 {
        (c, None)
    } else {
        let step = ss[0].visit_spec(facts, c);
        match step.1 {
            Some(e) => step,
            None => scripts_visit_spec(ss.skip(1), facts, step.0),
        }
    }
}

impl Scripts {
    /// What a visit of this list does.
    pub open spec fn visit_spec(&self, facts: &Facts, c: CtxView) -> StepView {
        scripts_visit_spec(self.0@, facts, c)
    }

    /// Visit every node of the list in declaration order, stopping at the
    /// first error.
    #[verifier::loop_isolation(false)]
    pub fn visit(&self, ctx: &mut VisitorContext) -> (r: Result<(), VisitorError>)
        ensures
            final(ctx).facts == old(ctx).facts,
            step_matches(final(ctx)@, r, self.visit_spec(&old(ctx).facts, old(ctx)@)),
    {
        let n = self.0.len();
        let mut i: usize = 0;
        proof {
            assert(self.0@.skip(0) =~= self.0@);
        }
        while i < n
            invariant
                0 <= i <= n,
                ctx.facts == old(ctx).facts,
                scripts_visit_spec(self.0@, &old(ctx).facts, old(ctx)@) == scripts_visit_spec(
                    self.0@.skip(i as int),
                    &old(ctx).facts,
                    ctx@,
                ),
            decreases n - i,
        {
            proof {
                assert(self.0@.skip(i as int)[0] == self.0@[i as int]);
                assert(self.0@.skip(i as int).skip(1) =~= self.0@.skip(i as int + 1));
            }
            match self.0[i].visit(ctx) {
                Ok(()) => {},
                Err(e) => {
                    return Err(e);
                },
            }
            i = i + 1;
        }
        proof {
            assert(self.0@.skip(n as int) =~= Seq::<Script>::empty());
        }
        Ok(())
    }
}

/// A visit of one node in a list leaves the context extending what it
/// was, the recoverable source case included.
pub proof fn lemma_script_visit_grows(s: Script, facts: &Facts, c: CtxView)
    ensures
        grows_from(c, s.visit_spec(facts, c).0),
{
    match s {
        Script::Alias(a) => crate::script::alias::lemma_alias_visit_grows(a, facts, c),
        Script::Eval(e) => crate::script::eval::lemma_eval_visit_grows(e, facts, c),
        Script::Export(e) => crate::script::export::lemma_export_visit_grows(e, facts, c),
        Script::Function(f) => crate::script::function::lemma_function_visit_grows(f, facts, c),
        Script::Raw(r) => crate::script::raw::lemma_raw_visit_grows(r, facts, c),
        Script::Source(src) => {
            crate::script::source::lemma_source_visit_grows(src, facts, c);
            let step = src.visit_spec(facts, c);
            match step.1 {
                Some(ErrView::SourceFileNotExist(f)) => {
                    lemma_prefix_push(step.0.skipped, f);
                    lemma_grows_refl(step.0);
                    lemma_grows_trans(
                        c,
                        step.0,
                        (CtxView { skipped: step.0.skipped.push(f), ..step.0 }),
                    );
                },
                _ => {},
            }
        },
        Script::Var(v) => crate::script::var::lemma_var_visit_grows(v, facts, c),
        Script::Nothing => lemma_grows_refl(c),
    }
}

/// A visit of a whole script list leaves the context extending what it
/// was, whether or not it stopped at an error.
pub proof fn lemma_scripts_visit_grows(ss: Seq<Script>, facts: &Facts, c: CtxView)
    ensures
        grows_from(c, scripts_visit_spec(ss, facts, c).0),
    decreases ss.len(),
{
    if ss.len() == 0 {
        lemma_grows_refl(c);
    } else {
        let step = ss[0].visit_spec(facts, c);
        lemma_script_visit_grows(ss[0], facts, c);
        match step.1 {
            Some(e) => {},
            None => {
                lemma_scripts_visit_grows(ss.skip(1), facts, step.0);
                lemma_grows_trans(c, step.0, scripts_visit_spec(ss.skip(1), facts, step.0).0);
            },
        }
    }
}

} // verus!
