//! The traversal context and the errors a document walk can raise.
//!
//! One [`VisitorContext`] is threaded through a whole walk.  It accumulates
//! the emitted shell text, the collected search-path entries and plugin
//! working directories, the source files skipped because they were missing,
//! and — centrally — a model of the process environment that export nodes
//! write and later condition checks and expansions read.  Everything is
//! append-only except the environment, which only gains or replaces keys.

use vstd::prelude::*;
use crate::condition::Facts;
use crate::env_map::EnvMap;

verus! {

/// An error raised while visiting a node.
pub enum VisitorError {
    /// An export node tried to set the search path itself; the value it
    /// carried is kept for the report.
    ExportPath(String),
    /// A source node's expanded target is not an existing file; the
    /// original file text is kept for the report.
    SourceFileNotExist(String),
    /// A search-path entry holds the path-list separator and cannot be
    /// joined onto the path.
    JoinPathsError(String),
}

/// The mathematical content of a [`VisitorError`].
pub enum ErrView {
    /// See [`VisitorError::ExportPath`].
    ExportPath(Seq<char>),
    /// See [`VisitorError::SourceFileNotExist`].
    SourceFileNotExist(Seq<char>),
    /// See [`VisitorError::JoinPathsError`].
    JoinPathsError(Seq<char>),
}

impl View for VisitorError {
    type V = ErrView;

    open spec fn view(&self) -> ErrView {
        match self {
            VisitorError::ExportPath(s) => ErrView::ExportPath(s@),
            VisitorError::SourceFileNotExist(s) => ErrView::SourceFileNotExist(s@),
            VisitorError::JoinPathsError(s) => ErrView::JoinPathsError(s@),
        }
    }
}

impl VisitorError {
    /// A human-readable description of the failure.
    pub fn message(&self) -> (r: String)
        ensures
            r@ == self.spec_message(),
    {
        let mut m = String::new();
        match self {
            VisitorError::ExportPath(v) => {
                m.append("Cannot export ${PATH} using '<export>': ");
                m.append(v.as_str());
                m.append(". Consider using '<path>' instead.");
            },
            VisitorError::SourceFileNotExist(f) => {
                m.append("Not found source file: ");
                m.append(f.as_str());
                m.append(".");
            },
            VisitorError::JoinPathsError(p) => {
                m.append("Cannot join search path entry: ");
                m.append(p.as_str());
                m.append(".");
            },
        }
        m
    }

    /// The description [`Self::message`] renders.
    pub open spec fn spec_message(&self) -> Seq<char> {
        match self {
            VisitorError::ExportPath(v) => "Cannot export ${PATH} using '<export>': "@ + v@
                + ". Consider using '<path>' instead."@,
            VisitorError::SourceFileNotExist(f) => "Not found source file: "@ + f@ + "."@,
            VisitorError::JoinPathsError(p) => "Cannot join search path entry: "@ + p@ + "."@,
        }
    }
}

/// The mathematical content of a [`VisitorContext`].
#[verifier::ext_equal]
pub struct CtxView {
    /// The environment model: names mapped to values.
    pub env: Map<Seq<char>, Seq<char>>,
    /// The shell text emitted so far.
    pub out: Seq<char>,
    /// The search-path entries collected so far, in visit order.
    pub paths: Seq<Seq<char>>,
    /// The plugin working directories collected so far, in visit order.
    pub dirs: Seq<Seq<char>>,
    /// The source-file texts skipped as missing so far, in visit order.
    pub skipped: Seq<Seq<char>>,
}

/// The mutable accumulator of one document walk.
pub struct VisitorContext {
    /// The model of the process environment that the walk reads and writes.
    pub env: EnvMap,
    /// The resolved probe answers conditions are evaluated against.
    pub facts: Facts,
    /// The shell text emitted so far.
    pub out: String,
    /// The search-path entries collected so far, in visit order.
    pub paths: Vec<String>,
    /// The plugin working directories collected so far, in visit order.
    pub plugin_work_dirs: Vec<String>,
    /// The source-file texts skipped as missing, in visit order.
    pub skipped_sources: Vec<String>,
}

impl View for VisitorContext {
    type V = CtxView;

    open spec fn view(&self) -> CtxView {
        CtxView {
            env: self.env@,
            out: self.out@,
            paths: self.paths.deep_view(),
            dirs: self.plugin_work_dirs.deep_view(),
            skipped: self.skipped_sources.deep_view(),
        }
    }
}

impl VisitorContext {
    /// A fresh context over the given environment and facts, with nothing
    /// yet emitted or collected.
    pub fn new(env: EnvMap, facts: Facts) -> (r: VisitorContext)
        ensures
            r.facts == facts,
            r@ == (CtxView {
                env: env@,
                out: Seq::empty(),
                paths: Seq::empty(),
                dirs: Seq::empty(),
                skipped: Seq::empty(),
            }),
    {
        let r = VisitorContext {
            env,
            facts,
            out: String::new(),
            paths: Vec::new(),
            plugin_work_dirs: Vec::new(),
            skipped_sources: Vec::new(),
        };
        proof {
            assert(r.paths.deep_view() =~= Seq::<Seq<char>>::empty());
            assert(r.plugin_work_dirs.deep_view() =~= Seq::<Seq<char>>::empty());
            assert(r.skipped_sources.deep_view() =~= Seq::<Seq<char>>::empty());
        }
        r
    }
}

/// Whether `c1` extends `c0`: the output and the collected lists keep
/// everything `c0` held, in place, and the environment keeps every name it
/// defined.  Every visit of the walk relates its final context to its
/// initial one this way — the context is append-only.
pub open spec fn grows_from(c0: CtxView, c1: CtxView) -> bool {
    &&& c0.out.is_prefix_of(c1.out)
    &&& c0.paths.is_prefix_of(c1.paths)
    &&& c0.dirs.is_prefix_of(c1.dirs)
    &&& c0.skipped.is_prefix_of(c1.skipped)
    &&& c0.env.dom().subset_of(c1.env.dom())
}

/// Every sequence is a prefix of itself.
pub proof fn lemma_prefix_refl<A>(s: Seq<A>)
    ensures
        s.is_prefix_of(s),
{
    assert(s.subrange(0, s.len() as int) =~= s);
}

/// A sequence is a prefix of itself with anything appended.
pub proof fn lemma_prefix_concat<A>(s: Seq<A>, t: Seq<A>)
    ensures
        s.is_prefix_of(s + t),
{
    assert((s + t).subrange(0, s.len() as int) =~= s);
}

/// A sequence is a prefix of itself with one element pushed.
pub proof fn lemma_prefix_push<A>(s: Seq<A>, x: A)
    ensures
        s.is_prefix_of(s.push(x)),
{
    assert(s.push(x).subrange(0, s.len() as int) =~= s);
}

/// Being a prefix carries over chains.
pub proof fn lemma_prefix_trans<A>(a: Seq<A>, b: Seq<A>, c: Seq<A>)
    requires
        a.is_prefix_of(b),
        b.is_prefix_of(c),
    ensures
        a.is_prefix_of(c),
{
    assert(c.subrange(0, a.len() as int) =~= b.subrange(0, a.len() as int));
    assert(b.subrange(0, a.len() as int) =~= a.subrange(0, a.len() as int).subrange(
        0,
        a.len() as int,
    )) by {
        assert(b.subrange(0, a.len() as int) =~= a);
        assert(a.subrange(0, a.len() as int).subrange(0, a.len() as int) =~= a);
    }
    assert(c.subrange(0, a.len() as int) =~= a);
}

/// A context extends itself.
pub proof fn lemma_grows_refl(c: CtxView)
    ensures
        grows_from(c, c),
{
    lemma_prefix_refl(c.out);
    lemma_prefix_refl(c.paths);
    lemma_prefix_refl(c.dirs);
    lemma_prefix_refl(c.skipped);
}

/// Extension carries over chains of visits.
pub proof fn lemma_grows_trans(a: CtxView, b: CtxView, c: CtxView)
    requires
        grows_from(a, b),
        grows_from(b, c),
    ensures
        grows_from(a, c),
{
    lemma_prefix_trans(a.out, b.out, c.out);
    lemma_prefix_trans(a.paths, b.paths, c.paths);
    lemma_prefix_trans(a.dirs, b.dirs, c.dirs);
    lemma_prefix_trans(a.skipped, b.skipped, c.skipped);
}

/// The outcome of visiting a node: the context it leaves behind, and the
/// error that stopped it, if one did.
pub type StepView = (CtxView, Option<ErrView>);

/// Whether an executable visit result and final context agree with a
/// modelled outcome.
pub open spec fn step_matches(
    c: CtxView,
    r: Result<(), VisitorError>,
    step: StepView,
) -> bool {
    c == step.0 && match r {
        Ok(()) => step.1 is None,
        Err(e) => step.1 == Some(e@),
    }
}

} // verus!
