//! The `var` script node: emits a plain assignment `NAME="VALUE"` without
//! exporting it and without touching the environment model.

use vstd::prelude::*;
use vstd::string::StringExecFns;
use crate::condition::{Condition, Facts};
use crate::visitor::{grows_from, lemma_grows_refl, lemma_prefix_concat, step_matches, CtxView, StepView, VisitorContext, VisitorError};

verus! {

/// A script node that assigns a shell variable without exporting it.
pub struct VarScript {
    /// The variable name.
    pub name: String,
    /// The value, as literal text.
    pub value: String,
    /// The guard; the node is a no-op when it fails.
    pub condition: Condition,
}

/// The statement `NAME="VALUE"` with its newline.
pub open spec fn var_line(name: Seq<char>, value: Seq<char>) -> Seq<char> {
    name + "=\""@ + value + "\"\n"@
}

impl VarScript {
    /// The document tag this node answers to.
    pub fn tag() -> (r: &'static str)
        ensures
            r@ == "<var name>"@,
    {
        "<var name>"
    }

    /// What a visit of this node does: nothing when the guard fails, else
    /// append the assignment.
    pub open spec fn visit_spec(&self, facts: &Facts, c: CtxView) -> StepView {
        if !self.condition.eval(facts) {
            (c, None)
        } else {
            ((CtxView { out: c.out + var_line(self.name@, self.value@), ..c }), None)
        }
    }

    /// Visit this node.
    pub fn visit(&self, ctx: &mut VisitorContext) -> (r: Result<(), VisitorError>)
        ensures
            final(ctx).facts == old(ctx).facts,
            step_matches(final(ctx)@, r, self.visit_spec(&old(ctx).facts, old(ctx)@)),
    {
        if !self.condition.check(&ctx.facts) {
            return Ok(());
        }
        ctx.out.append(self.name.as_str());
        ctx.out.append("=\"");
        ctx.out.append(self.value.as_str());
        ctx.out.append("\"\n");
        proof {
            assert(ctx@ =~= self.visit_spec(&old(ctx).facts, old(ctx)@).0);
        }
        Ok(())
    }
}

/// A visit of this node leaves the context extending what it was.
pub proof fn lemma_var_visit_grows(a: VarScript, facts: &Facts, c: CtxView)
    ensures
        grows_from(c, a.visit_spec(facts, c).0),
{
    lemma_grows_refl(c);
    if a.condition.eval(facts) {
        lemma_prefix_concat(c.out, var_line(a.name@, a.value@));
    }
}

} // verus!
