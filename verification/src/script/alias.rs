//! The `alias` script node: emits `alias NAME="COMMAND"`.

use vstd::prelude::*;
use vstd::string::StringExecFns;
use crate::condition::{Condition, Facts};
use crate::visitor::{grows_from, lemma_grows_refl, lemma_prefix_concat, step_matches, CtxView, StepView, VisitorContext, VisitorError};

verus! {

/// A script node that defines a shell alias.
pub struct AliasScript {
    /// The alias name.
    pub name: String,
    /// The command the alias stands for.
    pub command: String,
    /// The guard; the node is a no-op when it fails.
    pub condition: Condition,
}

/// The statement `alias NAME="COMMAND"` with its newline.
pub open spec fn alias_line(name: Seq<char>, command: Seq<char>) -> Seq<char> {
    "alias "@ + name + "=\""@ + command + "\"\n"@
}

impl AliasScript {
    /// The document tag this node answers to.
    pub fn tag() -> (r: &'static str)
        ensures
            r@ == "<alias name>"@,
    {
        "<alias name>"
    }

    /// What a visit of this node does: nothing when the guard fails, else
    /// append the alias statement.
    pub open spec fn visit_spec(&self, facts: &Facts, c: CtxView) -> StepView {
        if !self.condition.eval(facts) {
            (c, None)
        } else {
            ((CtxView { out: c.out + alias_line(self.name@, self.command@), ..c }), None)
        }
    }

    /// Visit this node.
    pub fn visit(&self, ctx: &mut VisitorContext) -> (r: Result<(), VisitorError>)
        ensures
            final(ctx).facts == old(ctx).facts,
            step_matches(final(ctx)@, r, self.visit_spec(&old(ctx).facts, old(ctx)@)),
    {
        if !self.condition.check(&ctx.facts) {
            return Ok(());
        }
        ctx.out.append("alias ");
        ctx.out.append(self.name.as_str());
        ctx.out.append("=\"");
        ctx.out.append(self.command.as_str());
        ctx.out.append("\"\n");
        proof {
            assert(ctx@ =~= self.visit_spec(&old(ctx).facts, old(ctx)@).0);
        }
        Ok(())
    }
}

/// A visit of this node leaves the context extending what it was.
pub proof fn lemma_alias_visit_grows(a: AliasScript, facts: &Facts, c: CtxView)
    ensures
        grows_from(c, a.visit_spec(facts, c).0),
{
    lemma_grows_refl(c);
    if a.condition.eval(facts) {
        lemma_prefix_concat(c.out, alias_line(a.name@, a.command@));
    }
}

} // verus!
