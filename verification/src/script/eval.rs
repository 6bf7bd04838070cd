//! The `eval` script node: emits `eval $(SCRIPT)`.

use vstd::prelude::*;
use vstd::string::StringExecFns;
use crate::condition::{Condition, Facts};
use crate::visitor::{grows_from, lemma_grows_refl, lemma_prefix_concat, step_matches, CtxView, StepView, VisitorContext, VisitorError};

verus! {

/// A script node whose text is evaluated by the shell at startup.
pub struct EvalScript {
    /// The command whose output is evaluated.
    pub script: String,
    /// The guard; the node is a no-op when it fails.
    pub condition: Condition,
}

/// The statement `eval $(SCRIPT)` with its newline.
pub open spec fn eval_line(script: Seq<char>) -> Seq<char> {
    "eval $("@ + script + ")\n"@
}

impl EvalScript {
    /// The document tag this node answers to.
    pub fn tag() -> (r: &'static str)
        ensures
            r@ == "<eval>"@,
    {
        "<eval>"
    }

    /// What a visit of this node does: nothing when the guard fails, else
    /// append the eval statement.
    pub open spec fn visit_spec(&self, facts: &Facts, c: CtxView) -> StepView {
        if !self.condition.eval(facts) {
            (c, None)
        } else {
            ((CtxView { out: c.out + eval_line(self.script@), ..c }), None)
        }
    }

    /// Visit this node.
    pub fn visit(&self, ctx: &mut VisitorContext) -> (r: Result<(), VisitorError>)
        ensures
            final(ctx).facts == old(ctx).facts,
            step_matches(final(ctx)@, r, self.visit_spec(&old(ctx).facts, old(ctx)@)),
    {
        if !self.condition.check(&ctx.facts) {
            return Ok(());
        }
        ctx.out.append("eval $(");
        ctx.out.append(self.script.as_str());
        ctx.out.append(")\n");
        proof {
            assert(ctx@ =~= self.visit_spec(&old(ctx).facts, old(ctx)@).0);
        }
        Ok(())
    }
}

/// A visit of this node leaves the context extending what it was.
pub proof fn lemma_eval_visit_grows(a: EvalScript, facts: &Facts, c: CtxView)
    ensures
        grows_from(c, a.visit_spec(facts, c).0),
{
    lemma_grows_refl(c);
    if a.condition.eval(facts) {
        lemma_prefix_concat(c.out, eval_line(a.script@));
    }
}

} // verus!
