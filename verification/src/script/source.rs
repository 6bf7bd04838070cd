//! The `source` script node: emits `source FILE` after checking that the
//! file exists.
//!
//! The file text is expanded against the context's environment (with
//! repeated interpolation, so chained variables resolve) before the
//! existence check, but the emitted statement carries the original,
//! unexpanded text.  A missing target raises a recoverable error carrying
//! that original text.

use vstd::prelude::*;
use vstd::string::StringExecFns;
use crate::condition::{Condition, Facts};
use crate::strutil::{list_contains_str, str_in};
use crate::vars::{expand_env_recursive, spec_expand_rec};
use crate::visitor::{grows_from, lemma_grows_refl, lemma_prefix_concat, step_matches, CtxView, ErrView, StepView, VisitorContext, VisitorError};

verus! {

/// A script node that sources another file.
pub struct SourceScript {
    /// The file to source; may hold `$VAR` references.
    pub file: String,
    /// The guard; the node is a no-op when it fails.
    pub condition: Condition,
}

/// The statement `source FILE` with its newline, with the original text.
pub open spec fn source_line(file: Seq<char>) -> Seq<char> {
    "source "@ + file + "\n"@
}

impl SourceScript {
    /// The document tag this node answers to.
    pub fn tag() -> (r: &'static str)
        ensures
            r@ == "<source>"@,
    {
        "<source>"
    }

    /// What a visit of this node does: nothing when the guard fails; an
    /// error naming the original file text when the expanded target is not
    /// a known file; else the `source` statement.
    pub open spec fn visit_spec(&self, facts: &Facts, c: CtxView) -> StepView {
        if !self.condition.eval(facts) {
            (c, None)
        } else {
            let expanded = spec_expand_rec(self.file@, c.env, 0);
            if str_in(facts.files@, expanded) {
                ((CtxView { out: c.out + source_line(self.file@), ..c }), None)
            } else {
                (c, Some(ErrView::SourceFileNotExist(self.file@)))
            }
        }
    }

    /// Visit this node standalone: a missing target is an error here; a
    /// script list catches it and records the file as skipped instead.
    pub fn visit(&self, ctx: &mut VisitorContext) -> (r: Result<(), VisitorError>)
        ensures
            final(ctx).facts == old(ctx).facts,
            step_matches(final(ctx)@, r, self.visit_spec(&old(ctx).facts, old(ctx)@)),
    {
        if !self.condition.check(&ctx.facts) {
            return Ok(());
        }
        let expanded = expand_env_recursive(self.file.as_str(), &ctx.env);
        if !list_contains_str(&ctx.facts.files, expanded.as_str()) {
            return Err(VisitorError::SourceFileNotExist(self.file.clone()));
        }
        ctx.out.append("source ");
        ctx.out.append(self.file.as_str());
        ctx.out.append("\n");
        proof {
            assert(ctx@ =~= self.visit_spec(&old(ctx).facts, old(ctx)@).0);
        }
        Ok(())
    }
}

/// A visit of this node leaves the context extending what it was.
pub proof fn lemma_source_visit_grows(s: SourceScript, facts: &Facts, c: CtxView)
    ensures
        grows_from(c, s.visit_spec(facts, c).0),
{
    lemma_grows_refl(c);
    if s.condition.eval(facts) {
        lemma_prefix_concat(c.out, source_line(s.file@));
    }
}

} // verus!
