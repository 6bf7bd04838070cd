//! The plugin node: a guard, a name, a working directory and scripts.
//!
//! An active plugin exports `NAME_DIR` (name upper-cased) with its working
//! directory, records the directory in the context's plugin-directory
//! list, and then visits its scripts.  A failing guard skips all of it.

use vstd::prelude::*;
use vstd::string::StringExecFns;
use crate::condition::{Condition, Facts};
use crate::script::export::{export_apply, ExportScript};
use crate::script::Scripts;
use crate::strutil::{spec_upper, to_upper};
use crate::visitor::{grows_from, lemma_grows_refl, lemma_grows_trans, lemma_prefix_push, step_matches, CtxView, StepView, VisitorContext, VisitorError};

verus! {

/// A plugin entry of the document.
pub struct Plugin {
    /// The plugin name.
    pub name: String,
    /// The plugin's working directory, exported as `NAME_DIR`.
    pub work_dir: String,
    /// The guard; the whole node is skipped when it fails.
    pub condition: Condition,
    /// The scripts of the node.
    pub scripts: Scripts,
}

/// A list of plugin nodes, visited in declaration order.
pub struct Plugins(pub Vec<Plugin>);

impl Plugin {
    /// The document tag this node answers to.
    pub fn tag() -> (r: &'static str)
        ensures
            r@ == "<plugin name work_dir>"@,
    {
        "<plugin name work_dir>"
    }

    /// What a visit of this node does: nothing when the guard fails; else
    /// the directory export, the directory recorded, then the scripts.
    pub open spec fn visit_spec(&self, facts: &Facts, c: CtxView) -> StepView {
        if !self.condition.eval(facts) {
            (c, None)
        } else {
            let step0 = export_apply(spec_upper(self.name@) + "_DIR"@, self.work_dir@, c);
            match step0.1 {
                Some(e) => step0,
                None => self.scripts.visit_spec(
                    facts,
                    (CtxView { dirs: step0.0.dirs.push(self.work_dir@), ..step0.0 }),
                ),
            }
        }
    }

    /// Visit this node.
    pub fn visit(&self, ctx: &mut VisitorContext) -> (r: Result<(), VisitorError>)
        ensures
            final(ctx).facts == old(ctx).facts,
            step_matches(final(ctx)@, r, self.visit_spec(&old(ctx).facts, old(ctx)@)),
    {
        if !self.condition.check(&ctx.facts) {
            return Ok(());
        }
        let mut dn = to_upper(self.name.as_str());
        dn.append("_DIR");
        match ExportScript::export(dn.as_str(), self.work_dir.as_str(), ctx) {
            Ok(()) => {},
            Err(e) => {
                return Err(e);
            },
        }
        ctx.plugin_work_dirs.push(self.work_dir.clone());
        proof {
            assert(ctx.plugin_work_dirs.deep_view() =~= old(ctx).plugin_work_dirs.deep_view().push(
                self.work_dir@,
            ));
            assert(ctx@ =~= (CtxView {
                dirs: export_apply(
                    spec_upper(self.name@) + "_DIR"@,
                    self.work_dir@,
                    old(ctx)@,
                ).0.dirs.push(self.work_dir@),
                ..export_apply(spec_upper(self.name@) + "_DIR"@, self.work_dir@, old(ctx)@).0
            }));
        }
        self.scripts.visit(ctx)
    }
}

/// What visiting a list of plugins does: each in order, stopping at the
/// first error.
pub open spec fn plugins_visit_spec(ps: Seq<Plugin>, facts: &Facts, c: CtxView) -> StepView
    decreases ps.len(),
{
    if ps.len() == 0 {
        (c, None)
    } else {
        let step = ps[0].visit_spec(facts, c);
        match step.1 {
            Some(e) => step,
            None => plugins_visit_spec(ps.skip(1), facts, step.0),
        }
    }
}

impl Plugins {
    /// What a visit of this list does.
    pub open spec fn visit_spec(&self, facts: &Facts, c: CtxView) -> StepView {
        plugins_visit_spec(self.0@, facts, c)
    }

    /// Visit every plugin in declaration order, stopping at the first
    /// error.
    #[verifier::loop_isolation(false)]
    pub fn visit(&self, ctx: &mut VisitorContext) -> (r: Result<(), VisitorError>)
        ensures
            final(ctx).facts == old(ctx).facts,
            step_matches(final(ctx)@, r, self.visit_spec(&old(ctx).facts, old(ctx)@)),
    {
        let n = self.0.len();
        let mut i: usize = 0;
        proof {
            assert(self.0@.skip(0) =~= self.0@);
        }
        while i < n
            invariant
                0 <= i <= n,
                ctx.facts == old(ctx).facts,
                plugins_visit_spec(self.0@, &old(ctx).facts, old(ctx)@) == plugins_visit_spec(
                    self.0@.skip(i as int),
                    &old(ctx).facts,
                    ctx@,
                ),
            decreases n - i,
        {
            proof {
                assert(self.0@.skip(i as int)[0] == self.0@[i as int]);
                assert(self.0@.skip(i as int).skip(1) =~= self.0@.skip(i as int + 1));
            }
            match self.0[i].visit(ctx) {
                Ok(()) => {},
                Err(e) => {
                    return Err(e);
                },
            }
            i = i + 1;
        }
        proof {
            assert(self.0@.skip(n as int) =~= Seq::<Plugin>::empty());
        }
        Ok(())
    }
}

/// A visit of one plugin leaves the context extending what it was.
pub proof fn lemma_plugin_visit_grows(p: Plugin, facts: &Facts, c: CtxView)
    ensures
        grows_from(c, p.visit_spec(facts, c).0),
{
    lemma_grows_refl(c);
    if p.condition.eval(facts) {
        let step0 = export_apply(spec_upper(p.name@) + "_DIR"@, p.work_dir@, c);
        crate::script::export::lemma_export_apply_grows(
            spec_upper(p.name@) + "_DIR"@,
            p.work_dir@,
            c,
        );
        if step0.1 is None {
            let c1 = CtxView { dirs: step0.0.dirs.push(p.work_dir@), ..step0.0 };
            lemma_prefix_push(step0.0.dirs, p.work_dir@);
            lemma_grows_refl(step0.0);
            lemma_grows_trans(c, step0.0, c1);
            crate::script::lemma_scripts_visit_grows(p.scripts.0@, facts, c1);
            lemma_grows_trans(c, c1, p.scripts.visit_spec(facts, c1).0);
        }
    }
}

/// A visit of a plugin list leaves the context extending what it was.
pub proof fn lemma_plugins_visit_grows(ps: Seq<Plugin>, facts: &Facts, c: CtxView)
    ensures
        grows_from(c, plugins_visit_spec(ps, facts, c).0),
    decreases ps.len(),
{
    if ps.len() == 0 {
        lemma_grows_refl(c);
    } else {
        let step = ps[0].visit_spec(facts, c);
        lemma_plugin_visit_grows(ps[0], facts, c);
        if step.1 is None {
            lemma_plugins_visit_grows(ps.skip(1), facts, step.0);
            lemma_grows_trans(c, step.0, plugins_visit_spec(ps.skip(1), facts, step.0).0);
        }
    }
}

} // verus!
