//! Boolean guards on document nodes, evaluated against a set of resolved
//! facts about the machine.
//!
//! A predicate tree combines conjunction, disjunction and negation over
//! leaves that ask whether a command is installed, whether a path is a
//! file, directory or symbolic link, or whether the platform matches a
//! pattern.  The probes themselves run outside this crate; their answers
//! arrive as [`Facts`], and evaluation is a pure function of predicate and
//! facts.  Paths in the filesystem leaves are taken literally: no variable
//! expansion is applied to them.

use vstd::prelude::*;
use crate::platform::Platform;
use crate::strutil::{list_contains_str, str_in};

verus! {

/// The resolved answers to every probe a document's predicates may ask:
/// the current platform, the paths that are regular files, directories and
/// symbolic links, and the commands found on the search path.
pub struct Facts {
    /// The platform of the running machine, both axes set.
    pub platform: Platform,
    /// Paths that exist as regular files.
    pub files: Vec<String>,
    /// Paths that exist as directories.
    pub dirs: Vec<String>,
    /// Paths that exist as symbolic links.
    pub links: Vec<String>,
    /// Commands that resolve to an executable on the search path.
    pub commands: Vec<String>,
}

impl Facts {
    /// Facts for a machine on which every probe answers no.
    pub fn new(platform: Platform) -> (r: Facts)
        ensures
            r.platform == platform,
            r.files@.len() == 0,
            r.dirs@.len() == 0,
            r.links@.len() == 0,
            r.commands@.len() == 0,
    {
        Facts {
            platform,
            files: Vec::new(),
            dirs: Vec::new(),
            links: Vec::new(),
            commands: Vec::new(),
        }
    }
}

/// A guard wrapping exactly one predicate; an absent guard in a document
/// becomes the always-true predicate.
pub struct Condition(pub Predicate);

/// A list of predicates, as the children of a conjunction or disjunction.
pub struct Conditions(pub Vec<Predicate>);

/// A node guard: boolean combinators over machine probes.
pub enum Predicate {
    /// True iff every child is true; true of no children.
    All(Conditions),
    /// True iff at least one child is true; false of no children.
    Any(Conditions),
    /// True iff the wrapped condition is false.
    Not(Box<Condition>),
    /// True iff the command resolves to an executable.
    Has(String),
    /// True iff the literal path is a regular file.
    FileExists(String),
    /// True iff the literal path is a directory.
    DirExists(String),
    /// True iff the literal path is a symbolic link.
    LinkExists(String),
    /// True iff the pattern matches the current platform.
    Platform(Platform),
    /// Always true: the absence of a condition.
    Always,
}

impl Predicate {
    /// The value of this predicate under the given facts.
    pub open spec fn eval(&self, facts: &Facts) -> bool
        decreases self,
    {
        match self {
            Predicate::All(cs) => Predicate::eval_all(cs.0@, facts),
            Predicate::Any(cs) => Predicate::eval_any(cs.0@, facts),
            Predicate::Not(c) => !c.0.eval(facts),
            Predicate::Has(cmd) => str_in(facts.commands@, cmd@),
            Predicate::FileExists(p) => str_in(facts.files@, p@),
            Predicate::DirExists(p) => str_in(facts.dirs@, p@),
            Predicate::LinkExists(p) => str_in(facts.links@, p@),
            Predicate::Platform(pl) => pl.spec_matches(facts.platform),
            Predicate::Always => true,
        }
    }

    /// Conjunction over a list of predicates; true of the empty list.
    pub open spec fn eval_all(ps: Seq<Predicate>, facts: &Facts) -> bool
        decreases ps,
    {
        if ps.len() == 0 {
            true
        } else {
            ps[0].eval(facts) && Predicate::eval_all(ps.skip(1), facts)
        }
    }

    /// Disjunction over a list of predicates; false of the empty list.
    pub open spec fn eval_any(ps: Seq<Predicate>, facts: &Facts) -> bool
        decreases ps,
    {
        if ps.len() == 0 {
            false
        } else {
            ps[0].eval(facts) || Predicate::eval_any(ps.skip(1), facts)
        }
    }

    /// Evaluate this predicate under the given facts.
    #[verifier::loop_isolation(false)]
    pub fn check(&self, facts: &Facts) -> (r: bool)
        ensures
            r == self.eval(facts),
        decreases self,
    {
        match self {
            Predicate::All(cs) => {
                let n = cs.0.len();
                let mut i: usize = 0;
                proof {
                    assert(cs.0@.skip(0) =~= cs.0@);
                }
                while i < n
                    invariant
                        n == cs.0@.len(),
                        0 <= i <= n,
                        Predicate::eval_all(cs.0@, facts) == Predicate::eval_all(
                            cs.0@.skip(i as int),
                            facts,
                        ),
                    decreases n - i,
                {
                    proof {
                        assert(cs.0@.skip(i as int)[0] == cs.0@[i as int]);
                        assert(cs.0@.skip(i as int).skip(1) =~= cs.0@.skip(i as int + 1));
                    }
                    proof {
                        assert(decreases_to!(cs.0 => cs.0@));
                        assert(decreases_to!(cs.0@ => cs.0@[i as int]));
                    }
                    if !cs.0[i].check(facts) {
                        return false;
                    }
                    i = i + 1;
                }
                true
            },
            Predicate::Any(cs) => {
                let n = cs.0.len();
                let mut i: usize = 0;
                proof {
                    assert(cs.0@.skip(0) =~= cs.0@);
                }
                while i < n
                    invariant
                        n == cs.0@.len(),
                        0 <= i <= n,
                        Predicate::eval_any(cs.0@, facts) == Predicate::eval_any(
                            cs.0@.skip(i as int),
                            facts,
                        ),
                    decreases n - i,
                {
                    proof {
                        assert(cs.0@.skip(i as int)[0] == cs.0@[i as int]);
                        assert(cs.0@.skip(i as int).skip(1) =~= cs.0@.skip(i as int + 1));
                    }
                    proof {
                        assert(decreases_to!(cs.0 => cs.0@));
                        assert(decreases_to!(cs.0@ => cs.0@[i as int]));
                    }
                    if cs.0[i].check(facts) {
                        return true;
                    }
                    i = i + 1;
                }
                false
            },
            Predicate::Not(c) => !c.0.check(facts),
            Predicate::Has(cmd) => list_contains_str(&facts.commands, cmd.as_str()),
            Predicate::FileExists(p) => list_contains_str(&facts.files, p.as_str()),
            Predicate::DirExists(p) => list_contains_str(&facts.dirs, p.as_str()),
            Predicate::LinkExists(p) => list_contains_str(&facts.links, p.as_str()),
            Predicate::Platform(pl) => pl.contains_current(&facts.platform),
            Predicate::Always => true,
        }
    }
}

impl Condition {
    /// The value of the wrapped predicate under the given facts.
    pub open spec fn eval(&self, facts: &Facts) -> bool {
        self.0.eval(facts)
    }

    /// Evaluate the wrapped predicate under the given facts.
    pub fn check(&self, facts: &Facts) -> (r: bool)
        ensures
            r == self.eval(facts),
    {
        self.0.check(facts)
    }
}

/// A conjunction with no children holds under any facts.
pub proof fn lemma_all_empty(p: &Predicate, facts: &Facts)
    requires
        p matches Predicate::All(cs) && cs.0@.len() == 0,
    ensures
        p.eval(facts),
{
    if let Predicate::All(cs) = p {
        assert(Predicate::eval_all(cs.0@, facts));
    }
}

/// A disjunction with no children fails under any facts.
pub proof fn lemma_any_empty(p: &Predicate, facts: &Facts)
    requires
        p matches Predicate::Any(cs) && cs.0@.len() == 0,
    ensures
        !p.eval(facts),
{
    if let Predicate::Any(cs) = p {
        assert(!Predicate::eval_any(cs.0@, facts));
    }
}

} // verus!
