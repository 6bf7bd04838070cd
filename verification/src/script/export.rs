//! The `export` script node: sets a variable in the live environment model
//! and emits the matching `export` statement, so that conditions and
//! expansions later in the walk observe the new value.  The search path
//! itself may not be set this way: a name that upper-cases to `PATH` is
//! refused, and path entries go through the dedicated path mechanism.

use vstd::prelude::*;
use vstd::string::StrSliceExecFns;
use vstd::string::StringExecFns;
use crate::condition::{Condition, Facts, Predicate};
use crate::strutil::{spec_upper, upper_char};
use crate::visitor::{grows_from, lemma_grows_refl, lemma_prefix_concat, step_matches, CtxView, ErrView, StepView, VisitorContext, VisitorError};

verus! {

/// A script node that exports an environment variable.
pub struct ExportScript {
    /// The variable name.
    pub name: String,
    /// The value, as literal text.
    pub value: String,
    /// The guard; the node is a no-op when it fails.
    pub condition: Condition,
}

/// Whether a name, upper-cased ASCII-wise, is exactly `PATH`.
pub open spec fn is_path_name(name: Seq<char>) -> bool {
    spec_upper(name) == "PATH"@
}

/// The statement `export NAME="VALUE"` with its newline.
pub open spec fn export_line(name: Seq<char>, value: Seq<char>) -> Seq<char> {
    "export "@ + name + "=\""@ + value + "\"\n"@
}

/// What exporting does to a context: refuse the `PATH` name with nothing
/// changed, else record the variable in the environment and append the
/// export statement to the output.
pub open spec fn export_apply(name: Seq<char>, value: Seq<char>, c: CtxView) -> StepView {
    if is_path_name(name) {
        (c, Some(ErrView::ExportPath(value)))
    } else {
        (
            (CtxView {
                env: c.env.insert(name, value),
                out: c.out + export_line(name, value),
                ..c
            }),
            None,
        )
    }
}

/// Exporting only appends to the output and only adds to the defined
/// names; nothing already accumulated is touched.
pub proof fn lemma_export_apply_grows(name: Seq<char>, value: Seq<char>, c: CtxView)
    ensures
        grows_from(c, export_apply(name, value, c).0),
{
    lemma_grows_refl(c);
    if !is_path_name(name) {
        lemma_prefix_concat(c.out, export_line(name, value));
    }
}

/// A visit of this node leaves the context extending what it was.
pub proof fn lemma_export_visit_grows(e: ExportScript, facts: &Facts, c: CtxView)
    ensures
        grows_from(c, e.visit_spec(facts, c).0),
{
    lemma_grows_refl(c);
    if e.condition.eval(facts) {
        lemma_export_apply_grows(e.name@, e.value@, c);
    }
}

/// An export whose name upper-cases to `PATH` always fails with the
/// path-export error, changes no variable and emits nothing, whatever the
/// context holds.
pub proof fn lemma_export_path_forbidden(name: Seq<char>, value: Seq<char>, c: CtxView)
    requires
        is_path_name(name),
    ensures
        export_apply(name, value, c) == (c, Some(ErrView::ExportPath(value))),
{
}

/// Whether the name upper-cases to `PATH`.
fn name_is_path(name: &str) -> (r: bool)
    ensures
        r == is_path_name(name@),
{
    proof {
        reveal_strlit("PATH");
    }
    let n = name.unicode_len();
    if n != 4 {
        proof {
            assert(spec_upper(name@).len() == name@.len());
        }
        return false;
    }
    let c0 = upper_char(name.get_char(0));
    let c1 = upper_char(name.get_char(1));
    let c2 = upper_char(name.get_char(2));
    let c3 = upper_char(name.get_char(3));
    let r = c0 == 'P' && c1 == 'A' && c2 == 'T' && c3 == 'H';
    proof {
        if r {
            assert(spec_upper(name@) =~= "PATH"@);
        } else {
            if c0 != 'P' {
                assert(spec_upper(name@)[0] != "PATH"@[0]);
            } else if c1 != 'A' {
                assert(spec_upper(name@)[1] != "PATH"@[1]);
            } else if c2 != 'T' {
                assert(spec_upper(name@)[2] != "PATH"@[2]);
            } else {
                assert(spec_upper(name@)[3] != "PATH"@[3]);
            }
        }
    }
    r
}

impl ExportScript {
    /// An unconditional export of `value` under `name`.
    pub fn new(name: &str, value: &str) -> (r: ExportScript)
        ensures
            r.name@ == name@,
            r.value@ == value@,
            r.condition == Condition(Predicate::Always),
    {
        ExportScript {
            name: name.to_owned(),
            value: value.to_owned(),
            condition: Condition(Predicate::Always),
        }
    }

    /// The document tag this node answers to.
    pub fn tag() -> (r: &'static str)
        ensures
            r@ == "<export name>"@,
    {
        "<export name>"
    }

    /// Set `name` to `value` in the context's environment and emit the
    /// export statement; a name that upper-cases to `PATH` is refused, with
    /// nothing emitted and nothing changed.
    pub fn export(name: &str, value: &str, ctx: &mut VisitorContext) -> (r: Result<
        (),
        VisitorError,
    >)
        ensures
            final(ctx).facts == old(ctx).facts,
            step_matches(final(ctx)@, r, export_apply(name@, value@, old(ctx)@)),
    {
        if name_is_path(name) {
            return Err(VisitorError::ExportPath(value.to_owned()));
        }
        ctx.env.set(name, value);
        ctx.out.append("export ");
        ctx.out.append(name);
        ctx.out.append("=\"");
        ctx.out.append(value);
        ctx.out.append("\"\n");
        proof {
            assert(ctx@ =~= export_apply(name@, value@, old(ctx)@).0);
        }
        Ok(())
    }

    /// What a visit of this node does: nothing when the guard fails, else
    /// the export.
    pub open spec fn visit_spec(&self, facts: &Facts, c: CtxView) -> StepView {
        if !self.condition.eval(facts) {
            (c, None)
        } else {
            export_apply(self.name@, self.value@, c)
        }
    }

    /// Visit this node.
    pub fn visit(&self, ctx: &mut VisitorContext) -> (r: Result<(), VisitorError>)
        ensures
            final(ctx).facts == old(ctx).facts,
            step_matches(final(ctx)@, r, self.visit_spec(&old(ctx).facts, old(ctx)@)),
    {
        if !self.condition.check(&ctx.facts) {
            return Ok(());
        }
        Self::export(self.name.as_str(), self.value.as_str(), ctx)
    }
}

} // verus!
