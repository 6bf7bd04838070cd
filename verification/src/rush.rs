//! The document root: the whole configuration, visited in one fixed
//! order — proxy, plugins, free-standing functions, aliases, environment
//! scripts, languages, tools.  The order is part of the contract: later
//! sections observe the environment and search-path effects of earlier
//! ones.  Decoration between sections is the caller's concern; the
//! sections themselves can be visited one by one through their own types.

use vstd::prelude::*;
use crate::condition::Facts;
use crate::language::Languages;
use crate::plugin::Plugins;
use crate::proxy::Proxy;
use crate::script::Scripts;
use crate::tool::Tools;
use crate::visitor::{grows_from, lemma_grows_trans, step_matches, CtxView, StepView, VisitorContext, VisitorError};

verus! {

/// The full configuration document.
pub struct Rush {
    /// The proxy section, visited first.
    pub proxy: Proxy,
    /// The plugin list.
    pub plugins: Plugins,
    /// Free-standing function scripts.
    pub functions: Scripts,
    /// Free-standing alias scripts.
    pub aliases: Scripts,
    /// Free-standing environment scripts.
    pub envs: Scripts,
    /// The language list.
    pub languages: Languages,
    /// The tool list, visited last.
    pub tools: Tools,
}

impl Rush {
    /// What a walk of the whole document does: the seven sections in
    /// order, stopping at the first error.
    pub open spec fn visit_spec(&self, facts: &Facts, c: CtxView) -> StepView {
        let s1 = self.proxy.visit_spec(facts, c);
        if s1.1 is Some {
            s1
        } else {
            let s2 = self.plugins.visit_spec(facts, s1.0);
            if s2.1 is Some {
                s2
            } else {
                let s3 = self.functions.visit_spec(facts, s2.0);
                if s3.1 is Some {
                    s3
                } else {
                    let s4 = self.aliases.visit_spec(facts, s3.0);
                    if s4.1 is Some {
                        s4
                    } else {
                        let s5 = self.envs.visit_spec(facts, s4.0);
                        if s5.1 is Some {
                            s5
                        } else {
                            let s6 = self.languages.visit_spec(facts, s5.0);
                            if s6.1 is Some {
                                s6
                            } else {
                                self.tools.visit_spec(facts, s6.0)
                            }
                        }
                    }
                }
            }
        }
    }

    /// Walk the whole document in declaration order.
    pub fn visit(&self, ctx: &mut VisitorContext) -> (r: Result<(), VisitorError>)
        ensures
            final(ctx).facts == old(ctx).facts,
            step_matches(final(ctx)@, r, self.visit_spec(&old(ctx).facts, old(ctx)@)),
    {
        match self.proxy.visit(ctx) {
            Ok(()) => {},
            Err(e) => {
                return Err(e);
            },
        }
        match self.plugins.visit(ctx) {
            Ok(()) => {},
            Err(e) => {
                return Err(e);
            },
        }
        match self.functions.visit(ctx) {
            Ok(()) => {},
            Err(e) => {
                return Err(e);
            },
        }
        match self.aliases.visit(ctx) {
            Ok(()) => {},
            Err(e) => {
                return Err(e);
            },
        }
        match self.envs.visit(ctx) {
            Ok(()) => {},
            Err(e) => {
                return Err(e);
            },
        }
        match self.languages.visit(ctx) {
            Ok(()) => {},
            Err(e) => {
                return Err(e);
            },
        }
        self.tools.visit(ctx)
    }
}

/// A whole walk is append-only: whatever its outcome, the final context
/// extends the initial one — the output and the collected lists keep
/// everything already accumulated, and the environment keeps every name.
pub proof fn lemma_rush_visit_grows(r: Rush, facts: &Facts, c: CtxView)
    ensures
        grows_from(c, r.visit_spec(facts, c).0),
{
    let s1 = r.proxy.visit_spec(facts, c);
    crate::script::lemma_scripts_visit_grows(r.proxy.scripts.0@, facts, c);
    if s1.1 is None {
        let s2 = r.plugins.visit_spec(facts, s1.0);
        crate::plugin::lemma_plugins_visit_grows(r.plugins.0@, facts, s1.0);
        lemma_grows_trans(c, s1.0, s2.0);
        if s2.1 is None {
            let s3 = r.functions.visit_spec(facts, s2.0);
            crate::script::lemma_scripts_visit_grows(r.functions.0@, facts, s2.0);
            lemma_grows_trans(c, s2.0, s3.0);
            if s3.1 is None {
                let s4 = r.aliases.visit_spec(facts, s3.0);
                crate::script::lemma_scripts_visit_grows(r.aliases.0@, facts, s3.0);
                lemma_grows_trans(c, s3.0, s4.0);
                if s4.1 is None {
                    let s5 = r.envs.visit_spec(facts, s4.0);
                    crate::script::lemma_scripts_visit_grows(r.envs.0@, facts, s4.0);
                    lemma_grows_trans(c, s4.0, s5.0);
                    if s5.1 is None {
                        let s6 = r.languages.visit_spec(facts, s5.0);
                        crate::language::lemma_languages_visit_grows(r.languages.0@, facts, s5.0);
                        lemma_grows_trans(c, s5.0, s6.0);
                        if s6.1 is None {
                            crate::tool::lemma_tools_visit_grows(r.tools.0@, facts, s6.0);
                            lemma_grows_trans(c, s6.0, r.tools.visit_spec(facts, s6.0).0);
                        }
                    }
                }
            }
        }
    }
}

} // verus!
