use vstd::prelude::*;

use crate::direction::Axis;
use crate::strip::{size_model, SizeBlueprint, SizeModel};

verus! {

/// One operation of the layout plan, in the order the host layout engine
/// must execute them. A strip emits its panels' size constraints (with a
/// spacer constraint inside each gap), then one subdivision along its axis,
/// then one cell operation per panel in the same order, with a filler cell
/// inside each gap.
#[derive(Debug, PartialEq)]
pub enum Op {
    /// Reserve space for the next cell under this sizing rule.
    SizeConstraint(SizeBlueprint),
    /// Subdivide the current region along `axis`, building into the `ui`
    /// surface when one is named, else into the ambient one.
    BeginSubdivision { axis: Axis, ui: Option<String> },
    /// A cell whose content is the nested operation sequence.
    Cell(Vec<Op>),
    /// A cell that reserves its space and renders nothing.
    EmptyCell,
    /// A cell that renders a dividing line; with a condition, the host
    /// evaluates the expression and renders the line only when it is true.
    SeparatorCell { condition: Option<String> },
    /// A verbatim fragment of host-language source, passed through unread.
    HostCode(String),
}

/// Mathematical model of an `Op`.
pub enum OpModel {
    SizeConstraint(SizeModel),
    BeginSubdivision { axis: Axis, ui: Option<Seq<char>> },
    Cell(Seq<OpModel>),
    EmptyCell,
    SeparatorCell { condition: Option<Seq<char>> },
    HostCode(Seq<char>),
}

pub open spec fn op_model(op: Op) -> OpModel
    decreases op,
{
    match op {
        Op::SizeConstraint(b) => OpModel::SizeConstraint(size_model(b)),
        Op::BeginSubdivision { axis, ui } => OpModel::BeginSubdivision {
            axis,
            ui: match ui {
                Some(u) => Some(u@),
                None => None,
            },
        },
        Op::Cell(ops) => OpModel::Cell(ops_model(ops@)),
        Op::EmptyCell => OpModel::EmptyCell,
        Op::SeparatorCell { condition } => OpModel::SeparatorCell {
            condition: match condition {
                Some(c) => Some(c@),
                None => None,
            },
        },
        Op::HostCode(code) => OpModel::HostCode(code@),
    }
}

pub open spec fn ops_model(s: Seq<Op>) -> Seq<OpModel>
    decreases s,
{
    if s.len() == 0 {
        Seq::empty()
    } else {
        ops_model(s.drop_last()).push(op_model(s.last()))
    }
}

pub proof fn lemma_ops_model_len(s: Seq<Op>)
    ensures
        ops_model(s).len() == s.len(),
    decreases s,
{
    if s.len() > 0 {
        lemma_ops_model_len(s.drop_last());
    }
}

pub proof fn lemma_ops_model_push(s: Seq<Op>, x: Op)
    ensures
        ops_model(s.push(x)) == ops_model(s).push(op_model(x)),
{
    assert(s.push(x).drop_last() =~= s);
    assert(s.push(x).last() == x);
}

pub proof fn lemma_ops_model_concat(a: Seq<Op>, b: Seq<Op>)
    ensures
        ops_model(a + b) == ops_model(a) + ops_model(b),
    decreases b,
{
    if b.len() == 0 {
        assert(a + b =~= a);
        assert(ops_model(a) + ops_model(b) =~= ops_model(a));
    } else {
        lemma_ops_model_concat(a, b.drop_last());
        assert((a + b).drop_last() =~= a + b.drop_last());
        assert((a + b).last() == b.last());
        assert(ops_model(a) + ops_model(b.drop_last()).push(op_model(b.last())) =~= (ops_model(a)
            + ops_model(b.drop_last())).push(op_model(b.last())));
    }
}

/// A one-element plan.
pub proof fn lemma_ops_model_single(x: Op)
    ensures
        ops_model(seq![x]) == seq![op_model(x)],
{
    assert(seq![x].drop_last() =~= Seq::<Op>::empty());
    assert(ops_model(Seq::<Op>::empty()) =~= Seq::<OpModel>::empty());
    assert(ops_model(seq![x]) =~= seq![op_model(x)]);
}

/// Indexing a plan made of one head operation, a middle section, and a
/// tail section.
pub proof fn lemma_concat3_index(head: OpModel, mid: Seq<OpModel>, rest: Seq<OpModel>, j: int)
    requires
        1 + mid.len() <= j < 1 + mid.len() + rest.len(),
    ensures
        (seq![head] + mid + rest)[j] == rest[j - 1 - mid.len()],
{
}

/// Indexing a plan made of a front section, one middle operation, and a
/// back section.
pub proof fn lemma_concat_mid(a: Seq<OpModel>, x: OpModel, b: Seq<OpModel>, j: int)
    requires
        0 <= j < a.len() + 1 + b.len(),
    ensures
        (a + seq![x] + b)[j] == (if j < a.len() {
            a[j]
        } else if j == a.len() {
            x
        } else {
            b[j - a.len() - 1]
        }),
{
}

} // verus!
