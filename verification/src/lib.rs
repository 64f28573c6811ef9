//! A layout-template compiler: it parses a constrained markup language that
//! describes a nested arrangement of rectangular regions (strips subdivided
//! into panels, with sizing rules and optional gaps and separators), and
//! produces the ordered plan of layout operations that a host rendering
//! layer executes to subdivide its space.
//!
//! The compiler is a pure function of the markup text: [`compile`] reads the
//! text into structural events, folds the events into a node tree, resolves
//! each node's attributes into typed values, and expands strips into the
//! flat operation plan. No partial plan is ever produced; the first fault
//! anywhere in the tree fails the whole compilation with a
//! [`error::CompileError`] naming the fault.
//!
//! Attribute values may be literals of a fixed type or, marked by the sigil
//! `@`, opaque fragments of host-language source; the compiler checks only
//! that such a fragment lexes as a token stream and passes it through
//! unread.

pub mod attribute;
pub mod decimal;
pub mod direction;
pub mod error;
pub mod expand;
pub mod hostexpr;
pub mod plan;
pub mod reader;
pub mod strip;
pub mod text;
pub mod tree;

use vstd::prelude::*;

use crate::error::{err_model, CompileError, ErrModel};
use crate::expand::{expand_node, spec_expand_node};
use crate::plan::{ops_model, Op, OpModel};
use crate::tree::{node_model, spec_form, XMLForm};

verus! {

/// The whole compilation as a function of the markup text: read the text
/// into events, fold the events into a tree, and expand the tree into the
/// operation plan.
pub open spec fn spec_compile(s: Seq<char>) -> Result<Seq<OpModel>, ErrModel> {
    match spec_form(s) {
        Err(e) => Err(e),
        Ok(root) => spec_expand_node(root),
    }
}

/// Compiles a markup text into its ordered operation plan, or fails with
/// the first error found; no partial plan is ever returned.
pub fn compile(markup: &str) -> (r: Result<Vec<Op>, CompileError>)
    ensures
        match r {
            Ok(ops) => spec_compile(markup@) == Ok::<_, ErrModel>(ops_model(ops@)),
            Err(e) => spec_compile(markup@) == Err::<Seq<OpModel>, _>(err_model(e)),
        },
{
    let form = match XMLForm::try_from(markup) {
        Ok(f) => f,
        Err(e) => {
            return Err(e);
        },
    };
    proof {
        assert(spec_form(markup@) == Ok::<_, ErrModel>(node_model(form.root)));
    }
    expand_node(&form.root)
}

/// Compilation is deterministic: the plan is a function of the markup text
/// alone, so equal texts always yield structurally equal plans (or the same
/// error).
pub proof fn lemma_compile_deterministic(a: Seq<char>, b: Seq<char>)
    requires
        a == b,
    ensures
        spec_compile(a) == spec_compile(b),
{
}

} // verus!
