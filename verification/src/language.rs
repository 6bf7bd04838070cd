//! The language node: a toolchain entry bundling a guard, an optional
//! version, search-path entries and scripts.
//!
//! A failing guard skips the node entirely — no version export, no path or
//! script visit.  An active node first exports `NAME_VERSION` (name
//! upper-cased) when a version is present, then appends its path entries,
//! then visits its scripts, all in declaration order.

use vstd::prelude::*;
use vstd::string::StringExecFns;
use crate::condition::{Condition, Facts};
use crate::path::Paths;
use crate::script::export::{export_apply, ExportScript};
use crate::script::Scripts;
use crate::strutil::{spec_upper, to_upper};
use crate::visitor::{grows_from, lemma_grows_refl, lemma_grows_trans, step_matches, CtxView, StepView, VisitorContext, VisitorError};

verus! {

/// A language toolchain entry of the document.
pub struct Language {
    /// The language name.
    pub name: String,
    /// The version to pin, exported as `NAME_VERSION` when present.
    pub version: Option<String>,
    /// A human-readable description; not emitted.
    pub description: String,
    /// The guard; the whole node is skipped when it fails.
    pub condition: Condition,
    /// The scripts of the node, visited after the paths.
    pub scripts: Scripts,
    /// The search-path entries of the node.
    pub paths: Paths,
}

/// A list of language nodes, visited in declaration order.
pub struct Languages(pub Vec<Language>);

impl Language {
    /// The document tag this node answers to.
    pub fn tag() -> (r: &'static str)
        ensures
            r@ == "<language>"@,
    {
        "<language>"
    }

    /// What a visit of this node does: nothing when the guard fails; else
    /// the version export (if any), then the paths, then the scripts,
    /// stopping at the first error.
    pub open spec fn visit_spec(&self, facts: &Facts, c: CtxView) -> StepView {
        if !self.condition.eval(facts) {
            (c, None)
        } else {
            let step0 = match self.version {
                Some(v) => export_apply(spec_upper(self.name@) + "_VERSION"@, v@, c),
                None => (c, None),
            };
            match step0.1 {
                Some(e) => step0,
                None => {
                    let step1 = self.paths.visit_spec(step0.0);
                    match step1.1 {
                        Some(e) => step1,
                        None => self.scripts.visit_spec(facts, step1.0),
                    }
                },
            }
        }
    }

    /// Visit this node.
    pub fn visit(&self, ctx: &mut VisitorContext) -> (r: Result<(), VisitorError>)
        ensures
            final(ctx).facts == old(ctx).facts,
            step_matches(final(ctx)@, r, self.visit_spec(&old(ctx).facts, old(ctx)@)),
    {
        if !self.condition.check(&ctx.facts) {
            return Ok(());
        }
        match &self.version {
            Some(v) => {
                let mut vn = to_upper(self.name.as_str());
                vn.append("_VERSION");
                match ExportScript::export(vn.as_str(), v.as_str(), ctx) {
                    Ok(()) => {},
                    Err(e) => {
                        return Err(e);
                    },
                }
            },
            None => {},
        }
        match self.paths.visit(ctx) {
            Ok(()) => {},
            Err(e) => {
                return Err(e);
            },
        }
        self.scripts.visit(ctx)
    }
}

/// A language whose guard fails leaves the context exactly as it was —
/// no version export, no path entries, no scripts — even when it carries
/// all of them.
pub proof fn lemma_language_skipped(l: &Language, facts: &Facts, c: CtxView)
    requires
        !l.condition.eval(facts),
    ensures
        l.visit_spec(facts, c) == (c, None::<crate::visitor::ErrView>),
{
}

/// What visiting a list of languages does: each in order, stopping at the
/// first error.
pub open spec fn languages_visit_spec(ls: Seq<Language>, facts: &Facts, c: CtxView) -> StepView
    decreases ls.len(),
{
    if ls.len() == 0 {
        (c, None)
    } else {
        let step = ls[0].visit_spec(facts, c);
        match step.1 {
            Some(e) => step,
            None => languages_visit_spec(ls.skip(1), facts, step.0),
        }
    }
}

impl Languages {
    /// What a visit of this list does.
    pub open spec fn visit_spec(&self, facts: &Facts, c: CtxView) -> StepView {
        languages_visit_spec(self.0@, facts, c)
    }

    /// Visit every language in declaration order, stopping at the first
    /// error.
    #[verifier::loop_isolation(false)]
    pub fn visit(&self, ctx: &mut VisitorContext) -> (r: Result<(), VisitorError>)
        ensures
            final(ctx).facts == old(ctx).facts,
            step_matches(final(ctx)@, r, self.visit_spec(&old(ctx).facts, old(ctx)@)),
    {
        let n = self.0.len();
        let mut i: usize = 0;
        proof {
            assert(self.0@.skip(0) =~= self.0@);
        }
        while i < n
            invariant
                0 <= i <= n,
                ctx.facts == old(ctx).facts,
                languages_visit_spec(self.0@, &old(ctx).facts, old(ctx)@) == languages_visit_spec(
                    self.0@.skip(i as int),
                    &old(ctx).facts,
                    ctx@,
                ),
            decreases n - i,
        {
            proof {
                assert(self.0@.skip(i as int)[0] == self.0@[i as int]);
                assert(self.0@.skip(i as int).skip(1) =~= self.0@.skip(i as int + 1));
            }
            match self.0[i].visit(ctx) {
                Ok(()) => {},
                Err(e) => {
                    return Err(e);
                },
            }
            i = i + 1;
        }
        proof {
            assert(self.0@.skip(n as int) =~= Seq::<Language>::empty());
        }
        Ok(())
    }
}

/// A visit of one language leaves the context extending what it was.
pub proof fn lemma_language_visit_grows(l: Language, facts: &Facts, c: CtxView)
    ensures
        grows_from(c, l.visit_spec(facts, c).0),
{
    lemma_grows_refl(c);
    if l.condition.eval(facts) {
        let step0 = match l.version {
            Some(v) => export_apply(spec_upper(l.name@) + "_VERSION"@, v@, c),
            None => (c, None),
        };
        if let Some(v) = l.version {
            crate::script::export::lemma_export_apply_grows(
                spec_upper(l.name@) + "_VERSION"@,
                v@,
                c,
            );
        }
        if step0.1 is None {
            let step1 = l.paths.visit_spec(step0.0);
            crate::path::lemma_paths_visit_grows(l.paths.entries(), step0.0);
            lemma_grows_trans(c, step0.0, step1.0);
            if step1.1 is None {
                crate::script::lemma_scripts_visit_grows(l.scripts.0@, facts, step1.0);
                lemma_grows_trans(c, step1.0, l.scripts.visit_spec(facts, step1.0).0);
            }
        }
    }
}

/// A visit of a language list leaves the context extending what it was.
pub proof fn lemma_languages_visit_grows(ls: Seq<Language>, facts: &Facts, c: CtxView)
    ensures
        grows_from(c, languages_visit_spec(ls, facts, c).0),
    decreases ls.len(),
{
    if ls.len() == 0 {
        lemma_grows_refl(c);
    } else {
        let step = ls[0].visit_spec(facts, c);
        lemma_language_visit_grows(ls[0], facts, c);
        if step.1 is None {
            lemma_languages_visit_grows(ls.skip(1), facts, step.0);
            lemma_grows_trans(c, step.0, languages_visit_spec(ls.skip(1), facts, step.0).0);
        }
    }
}

} // verus!
