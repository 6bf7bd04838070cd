//! The tool node: structurally and behaviourally identical to a language
//! node — a guard, an optional version exported as `NAME_VERSION`, path
//! entries and scripts, visited in that order when the guard passes.

use vstd::prelude::*;
use vstd::string::StringExecFns;
use crate::condition::{Condition, Facts};
use crate::path::Paths;
use crate::script::export::{export_apply, ExportScript};
use crate::script::Scripts;
use crate::strutil::{spec_upper, to_upper};
use crate::visitor::{grows_from, lemma_grows_refl, lemma_grows_trans, step_matches, CtxView, StepView, VisitorContext, VisitorError};

verus! {

/// A development-tool entry of the document.
pub struct Tool {
    /// The tool name.
    pub name: String,
    /// The version to pin, exported as `NAME_VERSION` when present.
    pub version: Option<String>,
    /// A human-readable description; not emitted.
    pub description: String,
    /// The guard; the whole node is skipped when it fails.
    pub condition: Condition,
    /// The scripts of the node, visited after the paths.
    pub scripts: Scripts,
    /// The search-path entries of the node.
    pub paths: Paths,
}

/// A list of tool nodes, visited in declaration order.
pub struct Tools(pub Vec<Tool>);

impl Tool {
    /// What a visit of this node does: nothing when the guard fails; else
    /// the version export (if any), then the paths, then the scripts,
    /// stopping at the first error.
    pub open spec fn visit_spec(&self, facts: &Facts, c: CtxView) -> StepView {
        if !self.condition.eval(facts) {
            (c, None)
        } else {
            let step0 = match self.version {
                Some(v) => export_apply(spec_upper(self.name@) + "_VERSION"@, v@, c),
                None => (c, None),
            };
            match step0.1 {
                Some(e) => step0,
                None => {
                    let step1 = self.paths.visit_spec(step0.0);
                    match step1.1 {
                        Some(e) => step1,
                        None => self.scripts.visit_spec(facts, step1.0),
                    }
                },
            }
        }
    }

    /// Visit this node.
    pub fn visit(&self, ctx: &mut VisitorContext) -> (r: Result<(), VisitorError>)
        ensures
            final(ctx).facts == old(ctx).facts,
            step_matches(final(ctx)@, r, self.visit_spec(&old(ctx).facts, old(ctx)@)),
    {
        if !self.condition.check(&ctx.facts) {
            return Ok(());
        }
        match &self.version {
            Some(v) => {
                let mut vn = to_upper(self.name.as_str());
                vn.append("_VERSION");
                match ExportScript::export(vn.as_str(), v.as_str(), ctx) {
                    Ok(()) => {},
                    Err(e) => {
                        return Err(e);
                    },
                }
            },
            None => {},
        }
        match self.paths.visit(ctx) {
            Ok(()) => {},
            Err(e) => {
                return Err(e);
            },
        }
        self.scripts.visit(ctx)
    }
}

/// What visiting a list of tools does: each in order, stopping at the
/// first error.
pub open spec fn tools_visit_spec(ts: Seq<Tool>, facts: &Facts, c: CtxView) -> StepView
    decreases ts.len(),
{
    if ts.len() == 0 {
        (c, None)
    } else {
        let step = ts[0].visit_spec(facts, c);
        match step.1 {
            Some(e) => step,
            None => tools_visit_spec(ts.skip(1), facts, step.0),
        }
    }
}

impl Tools {
    /// What a visit of this list does.
    pub open spec fn visit_spec(&self, facts: &Facts, c: CtxView) -> StepView {
        tools_visit_spec(self.0@, facts, c)
    }

    /// Visit every tool in declaration order, stopping at the first error.
    #[verifier::loop_isolation(false)]
    pub fn visit(&self, ctx: &mut VisitorContext) -> (r: Result<(), VisitorError>)
        ensures
            final(ctx).facts == old(ctx).facts,
            step_matches(final(ctx)@, r, self.visit_spec(&old(ctx).facts, old(ctx)@)),
    {
        let n = self.0.len();
        let mut i: usize = 0;
        proof {
            assert(self.0@.skip(0) =~= self.0@);
        }
        while i < n
            invariant
                0 <= i <= n,
                ctx.facts == old(ctx).facts,
                tools_visit_spec(self.0@, &old(ctx).facts, old(ctx)@) == tools_visit_spec(
                    self.0@.skip(i as int),
                    &old(ctx).facts,
                    ctx@,
                ),
            decreases n - i,
        {
            proof {
                assert(self.0@.skip(i as int)[0] == self.0@[i as int]);
                assert(self.0@.skip(i as int).skip(1) =~= self.0@.skip(i as int + 1));
            }
            match self.0[i].visit(ctx) {
                Ok(()) => {},
                Err(e) => {
                    return Err(e);
                },
            }
            i = i + 1;
        }
        proof {
            assert(self.0@.skip(n as int) =~= Seq::<Tool>::empty());
        }
        Ok(())
    }
}

/// A visit of one tool leaves the context extending what it was.
pub proof fn lemma_tool_visit_grows(tl: Tool, facts: &Facts, c: CtxView)
    ensures
        grows_from(c, tl.visit_spec(facts, c).0),
{
    lemma_grows_refl(c);
    if tl.condition.eval(facts) {
        let step0 = match tl.version {
            Some(v) => export_apply(spec_upper(tl.name@) + "_VERSION"@, v@, c),
            None => (c, None),
        };
        if let Some(v) = tl.version {
            crate::script::export::lemma_export_apply_grows(
                spec_upper(tl.name@) + "_VERSION"@,
                v@,
                c,
            );
        }
        if step0.1 is None {
            let step1 = tl.paths.visit_spec(step0.0);
            crate::path::lemma_paths_visit_grows(tl.paths.entries(), step0.0);
            lemma_grows_trans(c, step0.0, step1.0);
            if step1.1 is None {
                crate::script::lemma_scripts_visit_grows(tl.scripts.0@, facts, step1.0);
                lemma_grows_trans(c, step1.0, tl.scripts.visit_spec(facts, step1.0).0);
            }
        }
    }
}

/// A visit of a tool list leaves the context extending what it was.
pub proof fn lemma_tools_visit_grows(ts: Seq<Tool>, facts: &Facts, c: CtxView)
    ensures
        grows_from(c, tools_visit_spec(ts, facts, c).0),
    decreases ts.len(),
{
    if ts.len() == 0 {
        lemma_grows_refl(c);
    } else {
        let step = ts[0].visit_spec(facts, c);
        lemma_tool_visit_grows(ts[0], facts, c);
        if step.1 is None {
            lemma_tools_visit_grows(ts.skip(1), facts, step.0);
            lemma_grows_trans(c, step.0, tools_visit_spec(ts.skip(1), facts, step.0).0);
        }
    }
}

} // verus!
