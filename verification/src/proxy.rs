//! The proxy node of the document: a bare list of scripts, visited
//! unconditionally at the start of the walk.

use vstd::prelude::*;
use crate::condition::Facts;
use crate::script::Scripts;
use crate::visitor::{step_matches, CtxView, StepView, VisitorContext, VisitorError};

verus! {

/// The proxy section of the document.
pub struct Proxy {
    /// The scripts of the section.
    pub scripts: Scripts,
}

impl Proxy {
    /// What a visit of this node does: exactly what its scripts do.
    pub open spec fn visit_spec(&self, facts: &Facts, c: CtxView) -> StepView {
        self.scripts.visit_spec(facts, c)
    }

    /// Visit this node.
    pub fn visit(&self, ctx: &mut VisitorContext) -> (r: Result<(), VisitorError>)
        ensures
            final(ctx).facts == old(ctx).facts,
            step_matches(final(ctx)@, r, self.visit_spec(&old(ctx).facts, old(ctx)@)),
    {
        self.scripts.visit(ctx)
    }
}

} // verus!
