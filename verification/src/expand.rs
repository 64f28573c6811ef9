use vstd::prelude::*;

use crate::attribute::{hybrid_model, AttributeBool, AttributeFloat, HybridAttribute, HybridModel};
use crate::decimal::Decimal;
use crate::direction::dir_axis;
use crate::direction::dir_reversed;
use crate::error::{err_model, CompileError, ErrModel};
use crate::plan::{
    lemma_ops_model_concat, lemma_ops_model_len, lemma_ops_model_push, lemma_ops_model_single,
    op_model, ops_model, Op, OpModel,
};
use crate::strip::{
    spec_resolve_size, spec_resolve_strip, SizeBlueprint, SizeModel, StripBlueprint,
};
use crate::tree::{
    lemma_nodes_model_index, lemma_nodes_model_len, model_attrs, model_children, node_model,
    nodes_model, Node, NodeModel,
};

verus! {

// ---------------------------------------------------------------------------
// The specification of expansion
// ---------------------------------------------------------------------------

/// A non-leaf node is above its own child sequence in the termination
/// order.
pub proof fn lemma_children_decrease(n: NodeModel)
    requires
        !(n is Rust),
    ensures
        decreases_to!(n => model_children(n)),
{
    match n {
        NodeModel::Panel { attributes, children } => {
            assert(decreases_to!(n => n->Panel_children));
        },
        NodeModel::Rust { .. } => {},
        NodeModel::Border { attributes, children } => {
            assert(decreases_to!(n => n->Border_children));
        },
        NodeModel::Grid { attributes, children } => {
            assert(decreases_to!(n => n->Grid_children));
        },
        NodeModel::Default { attributes, children } => {
            assert(decreases_to!(n => n->Default_children));
        },
        NodeModel::Strip { attributes, children } => {
            assert(decreases_to!(n => n->Strip_children));
        },
    }
}

/// Expansion of one node into its operation sequence: a host-code leaf is a
/// verbatim passthrough, a strip delegates to strip expansion, and every
/// other node concatenates its children's expansions in declaration order.
pub open spec fn spec_expand_node(n: NodeModel) -> Result<Seq<OpModel>, ErrModel>
    decreases n, 1int,
{
    match n {
        NodeModel::Rust { code } => Ok(seq![OpModel::HostCode(code)]),
        NodeModel::Strip { .. } => spec_expand_strip(n),
        NodeModel::Panel { attributes, children } => spec_expand_nodes(children, 0),
        NodeModel::Border { attributes, children } => spec_expand_nodes(children, 0),
        NodeModel::Grid { attributes, children } => spec_expand_nodes(children, 0),
        NodeModel::Default { attributes, children } => spec_expand_nodes(children, 0),
    }
}

/// Concatenation of the expansions of `cs[i..]`, failing fast on the first
/// error.
pub open spec fn spec_expand_nodes(cs: Seq<NodeModel>, i: int) -> Result<Seq<OpModel>, ErrModel>
    decreases cs, cs.len() - i,
{
    if i < 0 || i >= cs.len() {
        Ok(Seq::empty())
    } else {
        proof {
            assert(decreases_to!(cs => cs[i]));
        }
        match spec_expand_node(cs[i]) {
            Err(e) => Err(e),
            Ok(ops) => match spec_expand_nodes(cs, i + 1) {
                Err(e) => Err(e),
                Ok(rest) => Ok(ops + rest),
            },
        }
    }
}

/// The index, in declaration order, of the child visited at iteration
/// position `pos` of a strip with `n` children.
pub open spec fn child_at(n: int, rev: bool, pos: int) -> int {
    if rev {
        n - 1 - pos
    } else {
        pos
    }
}

/// The cell of one child: an empty cell when the child has no content,
/// else a cell holding the child's expansion.
pub open spec fn spec_cell_of(c: NodeModel) -> Result<OpModel, ErrModel>
    decreases c, 2int,
{
    if model_children(c).len() == 0 {
        Ok(OpModel::EmptyCell)
    } else {
        match spec_expand_node(c) {
            Ok(ops) => Ok(OpModel::Cell(ops)),
            Err(e) => Err(e),
        }
    }
}

/// The filler emitted inside a gap: a separator cell when the flag is the
/// literal `true`, an empty cell when it is the literal `false`, and a
/// conditional separator cell when the flag is a host expression.
pub open spec fn spec_filler(sep: HybridModel<bool>) -> OpModel {
    match sep {
        HybridModel::Literal(b) => if b {
            OpModel::SeparatorCell { condition: None }
        } else {
            OpModel::EmptyCell
        },
        HybridModel::HostExpression(e2) => OpModel::SeparatorCell { condition: Some(e2) },
    }
}

/// The size-constraint sequence of a strip: one constraint per child in
/// iteration order, and a fixed spacer constraint between adjacent children
/// when a gap is configured. `rev` says whether iteration order is the
/// reverse of declaration order; each child's sizing errors name its
/// declaration position.
pub open spec fn spec_constraints(
    cs: Seq<NodeModel>,
    gap: Option<HybridModel<Decimal>>,
    rev: bool,
    i: int,
) -> Result<Seq<OpModel>, ErrModel>
    decreases cs.len() - i,
{
    if i < 0 || i >= cs.len() {
        Ok(Seq::empty())
    } else {
        let d = if rev {
            cs.len() - 1 - i
        } else {
            i
        };
        match spec_resolve_size(model_attrs(cs[d]), d) {
            Err(e) => Err(e),
            Ok(size) => {
                let spacer: Seq<OpModel> = match gap {
                    Some(g) => if i + 1 < cs.len() {
                        seq![
                            OpModel::SizeConstraint(
                                SizeModel::Exact { value: g, min: None, max: None },
                            ),
                        ]
                    } else {
                        Seq::empty()
                    },
                    None => Seq::empty(),
                };
                match spec_constraints(cs, gap, rev, i + 1) {
                    Err(e) => Err(e),
                    Ok(rest) => Ok(seq![OpModel::SizeConstraint(size)] + spacer + rest),
                }
            },
        }
    }
}

/// The cell sequence of a strip: per child in iteration order, an empty
/// cell when the child has no content, else a cell holding the child's
/// expansion; and between adjacent children, when a gap is configured, a
/// separator cell (unconditional for a literal `true` flag, conditional on
/// a host expression) or an empty filler cell.
pub open spec fn spec_cells(
    cs: Seq<NodeModel>,
    gap_some: bool,
    sep: HybridModel<bool>,
    rev: bool,
    i: int,
) -> Result<Seq<OpModel>, ErrModel>
    decreases cs, cs.len() - i,
{
    if i < 0 || i >= cs.len() {
        Ok(Seq::empty())
    } else {
        let d = child_at(cs.len() as int, rev, i);
        proof {
            assert(decreases_to!(cs => cs[d]));
        }
        match spec_cell_of(cs[d]) {
            Err(e) => Err(e),
            Ok(cell) => {
                let filler: Seq<OpModel> = if i + 1 < cs.len() && gap_some {
                    seq![spec_filler(sep)]
                } else {
                    Seq::empty()
                };
                match spec_cells(cs, gap_some, sep, rev, i + 1) {
                    Err(e) => Err(e),
                    Ok(rest) => Ok(seq![cell] + filler + rest),
                }
            },
        }
    }
}

/// Expansion of a strip node: resolve the strip's attributes, emit the
/// constraint sequence, one subdivision along the direction's axis, and the
/// cell sequence, all in iteration order (declaration order, reversed for
/// the two reversing directions).
pub open spec fn spec_expand_strip(n: NodeModel) -> Result<Seq<OpModel>, ErrModel>
    decreases n, 0int,
{
    match spec_resolve_strip(model_attrs(n)) {
        Err(e) => Err(e),
        Ok(sm) => {
            proof {
                if n is Rust {
                    assert(crate::attribute::attr_get(
                        Seq::<(Seq<char>, Seq<char>)>::empty(),
                        "direction"@,
                    ) is None);
                } else {
                    lemma_children_decrease(n);
                }
            }
            let cs = model_children(n);
            let rev = dir_reversed(sm.direction);
            match spec_constraints(cs, sm.gap, rev, 0) {
                Err(e) => Err(e),
                Ok(cons) => match spec_cells(cs, sm.gap is Some, sm.separator, rev, 0) {
                    Err(e) => Err(e),
                    Ok(cells) => Ok(
                        cons + seq![
                            OpModel::BeginSubdivision { axis: dir_axis(sm.direction), ui: sm.ui },
                        ] + cells,
                    ),
                },
            }
        },
    }
}

// ---------------------------------------------------------------------------
// Shape of a strip's plan
// ---------------------------------------------------------------------------

/// The length of the constraint sequence: one entry per remaining child,
/// plus one spacer per remaining adjacent pair when a gap is configured.
pub proof fn lemma_constraints_len(
    cs: Seq<NodeModel>,
    gap: Option<HybridModel<Decimal>>,
    rev: bool,
    i: int,
)
    requires
        0 <= i <= cs.len(),
    ensures
        match spec_constraints(cs, gap, rev, i) {
            Ok(cons) => cons.len() == (if gap is Some {
                if i == cs.len() {
                    0int
                } else {
                    2 * (cs.len() - i) - 1
                }
            } else {
                cs.len() - i
            }),
            Err(_) => true,
        },
    decreases cs.len() - i,
{
    if i < cs.len() {
        lemma_constraints_len(cs, gap, rev, i + 1);
    }
}

/// The constraint entries of the child visited at iteration position `k`:
/// its own size constraint and, when a gap is configured and another child
/// follows, the spacer constraint after it.
pub proof fn lemma_constraints_entry(
    cs: Seq<NodeModel>,
    gap: Option<HybridModel<Decimal>>,
    rev: bool,
    i: int,
    k: int,
)
    requires
        0 <= i <= k < cs.len(),
    ensures
        match spec_constraints(cs, gap, rev, i) {
            Ok(cons) => {
                let step: int = if gap is Some {
                    2
                } else {
                    1
                };
                let d = child_at(cs.len() as int, rev, k);
                &&& spec_resolve_size(model_attrs(cs[d]), d) is Ok
                &&& cons[step * (k - i)] == OpModel::SizeConstraint(
                    spec_resolve_size(model_attrs(cs[d]), d)->Ok_0,
                )
                &&& (gap is Some && k < cs.len() - 1 ==> cons[step * (k - i) + 1]
                    == OpModel::SizeConstraint(
                    SizeModel::Exact { value: gap->Some_0, min: None, max: None },
                ))
            },
            Err(_) => true,
        },
    decreases k - i,
{
    match spec_constraints(cs, gap, rev, i) {
        Err(_) => {},
        Ok(cons) => {
            let d0 = child_at(cs.len() as int, rev, i);
            match spec_resolve_size(model_attrs(cs[d0]), d0) {
                Err(_) => {},
                Ok(size) => {
                    match spec_constraints(cs, gap, rev, i + 1) {
                        Err(_) => {},
                        Ok(rest) => {
                            let spacer: Seq<OpModel> = match gap {
                                Some(g) => if i + 1 < cs.len() {
                                    seq![
                                        OpModel::SizeConstraint(
                                            SizeModel::Exact { value: g, min: None, max: None },
                                        ),
                                    ]
                                } else {
                                    Seq::empty()
                                },
                                None => Seq::empty(),
                            };
                            assert(cons == seq![OpModel::SizeConstraint(size)] + spacer + rest);
                            if k == i {
                                assert(cons[0] == OpModel::SizeConstraint(size));
                                if gap is Some && k < cs.len() - 1 {
                                    assert(cons[1] == OpModel::SizeConstraint(
                                        SizeModel::Exact {
                                            value: gap->Some_0,
                                            min: None,
                                            max: None,
                                        },
                                    ));
                                }
                            } else {
                                assert(spacer.len() == (if gap is Some { 1int } else { 0 }));
                                lemma_constraints_entry(cs, gap, rev, i + 1, k);
                                lemma_constraints_len(cs, gap, rev, i + 1);
                                if gap is Some {
                                    crate::plan::lemma_concat3_index(
                                        OpModel::SizeConstraint(size),
                                        spacer,
                                        rest,
                                        2 * (k - i),
                                    );
                                    assert(cons[2 * (k - i)] == rest[2 * (k - i) - 2]);
                                    assert(rest[2 * (k - (i + 1))] == rest[2 * (k - i) - 2]);
                                    if k < cs.len() - 1 {
                                        crate::plan::lemma_concat3_index(
                                            OpModel::SizeConstraint(size),
                                            spacer,
                                            rest,
                                            2 * (k - i) + 1,
                                        );
                                        assert(cons[2 * (k - i) + 1] == rest[2 * (k - i) - 1]);
                                        assert(rest[2 * (k - (i + 1)) + 1] == rest[2 * (k - i)
                                            - 1]);
                                    }
                                } else {
                                    crate::plan::lemma_concat3_index(
                                        OpModel::SizeConstraint(size),
                                        spacer,
                                        rest,
                                        1 * (k - i),
                                    );
                                    assert(cons[1 * (k - i)] == rest[(k - i) - 1]);
                                    assert(rest[1 * (k - (i + 1))] == rest[(k - i) - 1]);
                                }
                            }
                        },
                    }
                },
            }
        },
    }
}

/// The length of the cell sequence: one cell per remaining child, plus one
/// filler per remaining adjacent pair when a gap is configured.
pub proof fn lemma_cells_len(
    cs: Seq<NodeModel>,
    gap_some: bool,
    sep: HybridModel<bool>,
    rev: bool,
    i: int,
)
    requires
        0 <= i <= cs.len(),
    ensures
        match spec_cells(cs, gap_some, sep, rev, i) {
            Ok(cells) => cells.len() == (if gap_some {
                if i == cs.len() {
                    0int
                } else {
                    2 * (cs.len() - i) - 1
                }
            } else {
                cs.len() - i
            }),
            Err(_) => true,
        },
    decreases cs.len() - i,
{
    if i < cs.len() {
        lemma_cells_len(cs, gap_some, sep, rev, i + 1);
    }
}

/// The cell entries of the child visited at iteration position `k`: its
/// own cell and, when a gap is configured and another child follows, the
/// filler after it.
pub proof fn lemma_cells_entry(
    cs: Seq<NodeModel>,
    gap_some: bool,
    sep: HybridModel<bool>,
    rev: bool,
    i: int,
    k: int,
)
    requires
        0 <= i <= k < cs.len(),
    ensures
        match spec_cells(cs, gap_some, sep, rev, i) {
            Ok(cells) => {
                let step: int = if gap_some {
                    2
                } else {
                    1
                };
                let d = child_at(cs.len() as int, rev, k);
                &&& spec_cell_of(cs[d]) == Ok::<OpModel, ErrModel>(cells[step * (k - i)])
                &&& (gap_some && k < cs.len() - 1 ==> cells[step * (k - i) + 1] == spec_filler(
                    sep,
                ))
            },
            Err(_) => true,
        },
    decreases k - i,
{
    match spec_cells(cs, gap_some, sep, rev, i) {
        Err(_) => {},
        Ok(cells) => {
            let d0 = child_at(cs.len() as int, rev, i);
            match spec_cell_of(cs[d0]) {
                Err(_) => {},
                Ok(cell) => {
                    match spec_cells(cs, gap_some, sep, rev, i + 1) {
                        Err(_) => {},
                        Ok(rest) => {
                            let filler: Seq<OpModel> = if i + 1 < cs.len() && gap_some {
                                seq![spec_filler(sep)]
                            } else {
                                Seq::empty()
                            };
                            assert(cells == seq![cell] + filler + rest);
                            if k == i {
                                assert(cells[0] == cell);
                                if gap_some && k < cs.len() - 1 {
                                    assert(cells[1] == spec_filler(sep));
                                }
                            } else {
                                assert(filler.len() == (if gap_some { 1int } else { 0 }));
                                lemma_cells_entry(cs, gap_some, sep, rev, i + 1, k);
                                lemma_cells_len(cs, gap_some, sep, rev, i + 1);
                                if gap_some {
                                    crate::plan::lemma_concat3_index(cell, filler, rest, 2 * (k
                                        - i));
                                    assert(cells[2 * (k - i)] == rest[2 * (k - i) - 2]);
                                    assert(rest[2 * (k - (i + 1))] == rest[2 * (k - i) - 2]);
                                    if k < cs.len() - 1 {
                                        crate::plan::lemma_concat3_index(
                                            cell,
                                            filler,
                                            rest,
                                            2 * (k - i) + 1,
                                        );
                                        assert(cells[2 * (k - i) + 1] == rest[2 * (k - i) - 1]);
                                        assert(rest[2 * (k - (i + 1)) + 1] == rest[2 * (k - i)
                                            - 1]);
                                    }
                                } else {
                                    crate::plan::lemma_concat3_index(cell, filler, rest, 1 * (k
                                        - i));
                                    assert(cells[1 * (k - i)] == rest[(k - i) - 1]);
                                    assert(rest[1 * (k - (i + 1))] == rest[(k - i) - 1]);
                                }
                            }
                        },
                    }
                },
            }
        },
    }
}

/// The shape of a strip's whole plan. For `N` panels the plan is the
/// constraint sequence, one subdivision along the direction's axis, and
/// the cell sequence. With a gap both sequences have `2N - 1` entries (`N`
/// panel entries interleaved with `N - 1` gap entries), else `N` entries.
/// The panel entry at iteration position `k` belongs to the child at
/// declaration position `k` for left-to-right and top-down strips, and to
/// the child at declaration position `N - 1 - k` for right-to-left and
/// bottom-up strips: emitted order is declaration order or exactly its
/// reverse.
#[verifier::rlimit(100)]
pub proof fn lemma_strip_plan(n: NodeModel, sm: crate::strip::StripModel, plan: Seq<OpModel>)
    requires
        spec_resolve_strip(model_attrs(n)) == Ok::<crate::strip::StripModel, ErrModel>(sm),
        spec_expand_strip(n) == Ok::<Seq<OpModel>, ErrModel>(plan),
    ensures
        ({
            let cs = model_children(n);
            let rev = dir_reversed(sm.direction);
            let m = cs.len() as int;
            let step: int = if sm.gap is Some {
                2
            } else {
                1
            };
            let half: int = if sm.gap is Some {
                if m == 0 {
                    0int
                } else {
                    2 * m - 1
                }
            } else {
                m
            };
            &&& plan.len() == half + 1 + half
            &&& plan[half] == OpModel::BeginSubdivision { axis: dir_axis(sm.direction), ui: sm.ui }
            &&& forall|k: int|
                0 <= k < m ==> {
                    let d = child_at(m, rev, k);
                    &&& spec_resolve_size(model_attrs(cs[d]), d) is Ok
                    &&& #[trigger] plan[step * k] == OpModel::SizeConstraint(
                        spec_resolve_size(model_attrs(cs[d]), d)->Ok_0,
                    )
                    &&& spec_cell_of(cs[d]) == Ok::<OpModel, ErrModel>(plan[half + 1 + step * k])
                }
            &&& sm.gap is Some ==> forall|k: int|
                0 <= k < m - 1 ==> {
                    &&& #[trigger] plan[step * k + 1] == OpModel::SizeConstraint(
                        SizeModel::Exact { value: sm.gap->Some_0, min: None, max: None },
                    )
                    &&& plan[half + 1 + step * k + 1] == spec_filler(sm.separator)
                }
        }),
{
    let cs = model_children(n);
    let rev = dir_reversed(sm.direction);
    let m = cs.len() as int;
    let step: int = if sm.gap is Some {
        2
    } else {
        1
    };
    let half: int = if sm.gap is Some {
        if m == 0 {
            0int
        } else {
            2 * m - 1
        }
    } else {
        m
    };
    match spec_constraints(cs, sm.gap, rev, 0) {
        Err(_) => {},
        Ok(cons) => {
            match spec_cells(cs, sm.gap is Some, sm.separator, rev, 0) {
                Err(_) => {},
                Ok(cells) => {
                    let begin = OpModel::BeginSubdivision {
                        axis: dir_axis(sm.direction),
                        ui: sm.ui,
                    };
                    assert(plan =~= cons + seq![begin] + cells);
                    lemma_constraints_len(cs, sm.gap, rev, 0);
                    lemma_cells_len(cs, sm.gap is Some, sm.separator, rev, 0);
                    crate::plan::lemma_concat_mid(cons, begin, cells, half);
                    assert(plan[half] == begin);
                    assert forall|k: int| 0 <= k < m implies {
                        let d = child_at(m, rev, k);
                        &&& spec_resolve_size(model_attrs(cs[d]), d) is Ok
                        &&& #[trigger] plan[step * k] == OpModel::SizeConstraint(
                            spec_resolve_size(model_attrs(cs[d]), d)->Ok_0,
                        )
                        &&& spec_cell_of(cs[d]) == Ok::<OpModel, ErrModel>(
                            plan[half + 1 + step * k],
                        )
                    } by {
                        lemma_constraints_entry(cs, sm.gap, rev, 0, k);
                        lemma_cells_entry(cs, sm.gap is Some, sm.separator, rev, 0, k);
                        if sm.gap is Some {
                            crate::plan::lemma_concat_mid(cons, begin, cells, 2 * k);
                            crate::plan::lemma_concat_mid(cons, begin, cells, half + 1 + 2 * k);
                            assert(plan[2 * k] == cons[2 * k]);
                            assert(plan[half + 1 + 2 * k] == cells[2 * k]);
                        } else {
                            crate::plan::lemma_concat_mid(cons, begin, cells, 1 * k);
                            crate::plan::lemma_concat_mid(cons, begin, cells, half + 1 + 1 * k);
                            assert(plan[1 * k] == cons[1 * k]);
                            assert(plan[half + 1 + 1 * k] == cells[1 * k]);
                        }
                    }
                    if sm.gap is Some {
                        assert forall|k: int| 0 <= k < m - 1 implies {
                            &&& #[trigger] plan[step * k + 1] == OpModel::SizeConstraint(
                                SizeModel::Exact { value: sm.gap->Some_0, min: None, max: None },
                            )
                            &&& plan[half + 1 + step * k + 1] == spec_filler(sm.separator)
                        } by {
                            lemma_constraints_entry(cs, sm.gap, rev, 0, k);
                            lemma_cells_entry(cs, sm.gap is Some, sm.separator, rev, 0, k);
                            crate::plan::lemma_concat_mid(cons, begin, cells, 2 * k + 1);
                            crate::plan::lemma_concat_mid(cons, begin, cells, half + 1 + 2 * k + 1);
                            assert(plan[2 * k + 1] == cons[2 * k + 1]);
                            assert(plan[half + 1 + 2 * k + 1] == cells[2 * k + 1]);
                        }
                    }
                },
            }
        },
    }
}

// ---------------------------------------------------------------------------
// Executable expansion
// ---------------------------------------------------------------------------

fn dup_float_hybrid(h: &HybridAttribute<AttributeFloat>) -> (r: HybridAttribute<AttributeFloat>)
    ensures
        hybrid_model(r) == hybrid_model(*h),
{
    match h {
        HybridAttribute::Literal(af) => HybridAttribute::Literal(AttributeFloat(af.0)),
        HybridAttribute::HostExpression(s) => HybridAttribute::HostExpression(s.clone()),
    }
}

/// Emits the size-constraint sequence of the children from iteration
/// position `i` on.
fn expand_constraints(
    children: &Vec<Node>,
    gap: &Option<HybridAttribute<AttributeFloat>>,
    rev: bool,
    i: usize,
) -> (r: Result<Vec<Op>, CompileError>)
    requires
        i <= children@.len(),
    ensures
        match r {
            Ok(ops) => spec_constraints(
                nodes_model(children@),
                crate::strip::opt_float_model(*gap),
                rev,
                i as int,
            ) == Ok::<_, ErrModel>(ops_model(ops@)),
            Err(e) => spec_constraints(
                nodes_model(children@),
                crate::strip::opt_float_model(*gap),
                rev,
                i as int,
            ) == Err::<Seq<OpModel>, _>(err_model(e)),
        },
    decreases children@.len() - i,
{
    let n = children.len();
    proof {
        lemma_nodes_model_len(children@);
    }
    if i >= n {
        let done: Vec<Op> = Vec::new();
        proof {
            assert(ops_model(done@) =~= Seq::<OpModel>::empty());
        }
        return Ok(done);
    }
    let d = if rev {
        n - 1 - i
    } else {
        i
    };
    proof {
        lemma_nodes_model_index(children@, d as int);
        assert(child_at(nodes_model(children@).len() as int, rev, i as int) == d as int);
    }
    let child = &children[d];
    let size = match child.get_attributes() {
        Some(attrs) => {
            match SizeBlueprint::resolve(attrs, d) {
                Ok(b) => b,
                Err(e) => {
                    return Err(e);
                },
            }
        },
        None => {
            proof {
                assert(crate::attribute::attr_get(
                    Seq::<(Seq<char>, Seq<char>)>::empty(),
                    "size"@,
                ) is None);
            }
            return Err(CompileError::MissingSizeAttribute { panel: d });
        },
    };
    let rest = match expand_constraints(children, gap, rev, i + 1) {
        Ok(rest) => rest,
        Err(e) => {
            return Err(e);
        },
    };
    let mut ops: Vec<Op> = Vec::new();
    let head_op = Op::SizeConstraint(size);
    let ghost head_ghost = head_op;
    ops.push(head_op);
    let ghost head = ops@;
    match gap {
        Some(g) => {
            if i + 1 < n {
                ops.push(
                    Op::SizeConstraint(
                        SizeBlueprint::Exact { value: dup_float_hybrid(g), min: None, max: None },
                    ),
                );
            }
        },
        None => {},
    }
    let ghost with_spacer = ops@;
    let mut rest = rest;
    let ghost rest_seq = rest@;
    ops.append(&mut rest);
    proof {
        let csm = nodes_model(children@);
        let gm = crate::strip::opt_float_model(*gap);
        let spec_spacer: Seq<OpModel> = match gm {
            Some(gv) => if i + 1 < csm.len() {
                seq![
                    OpModel::SizeConstraint(SizeModel::Exact { value: gv, min: None, max: None }),
                ]
            } else {
                Seq::empty()
            },
            None => Seq::empty(),
        };
        lemma_ops_model_concat(with_spacer, rest_seq);
        assert(ops@ =~= with_spacer + rest_seq);
        lemma_ops_model_single(head_ghost);
        if with_spacer.len() == 2 {
            lemma_ops_model_push(head, with_spacer[1]);
            lemma_ops_model_single(with_spacer[0]);
            assert(head =~= seq![with_spacer[0]]);
            assert(with_spacer =~= head.push(with_spacer[1]));
            assert(op_model(with_spacer[1]) == spec_spacer[0]);
            assert(ops_model(with_spacer) =~= seq![op_model(head_ghost)] + spec_spacer);
        } else {
            assert(with_spacer =~= seq![head_ghost]);
            assert(ops_model(with_spacer) =~= seq![op_model(head_ghost)] + spec_spacer);
        }
        assert(spec_constraints(csm, gm, rev, i as int) == Ok::<_, ErrModel>(
            seq![op_model(head_ghost)] + spec_spacer + ops_model(rest_seq),
        ));
        assert(seq![op_model(head_ghost)] + spec_spacer + ops_model(rest_seq) =~= ops_model(
            with_spacer,
        ) + ops_model(rest_seq));
        assert(ops_model(ops@) =~= ops_model(with_spacer) + ops_model(rest_seq));
    }
    Ok(ops)
}

/// Emits the cell sequence of the children from iteration position `i` on.
fn expand_cells(
    children: &Vec<Node>,
    gap_some: bool,
    sep: &HybridAttribute<AttributeBool>,
    rev: bool,
    i: usize,
) -> (r: Result<Vec<Op>, CompileError>)
    requires
        i <= children@.len(),
    ensures
        match r {
            Ok(ops) => spec_cells(
                nodes_model(children@),
                gap_some,
                hybrid_model(*sep),
                rev,
                i as int,
            ) == Ok::<_, ErrModel>(ops_model(ops@)),
            Err(e) => spec_cells(nodes_model(children@), gap_some, hybrid_model(*sep), rev, i as int)
                == Err::<Seq<OpModel>, _>(err_model(e)),
        },
    decreases nodes_model(children@), children@.len() - i,
{
    let n = children.len();
    proof {
        lemma_nodes_model_len(children@);
    }
    if i >= n {
        let done: Vec<Op> = Vec::new();
        proof {
            assert(ops_model(done@) =~= Seq::<OpModel>::empty());
        }
        return Ok(done);
    }
    let d = if rev {
        n - 1 - i
    } else {
        i
    };
    proof {
        lemma_nodes_model_index(children@, d as int);
        assert(decreases_to!(nodes_model(children@) => nodes_model(children@)[d as int]));
        assert(child_at(nodes_model(children@).len() as int, rev, i as int) == d as int);
    }
    let child = &children[d];
    let content_empty = match child.get_children() {
        Some(c) => {
            proof {
                lemma_nodes_model_len(c@);
            }
            c.len() == 0
        },
        None => true,
    };
    proof {
        assert(content_empty == (model_children(node_model(*child)).len() == 0));
    }
    let cell: Op = if content_empty {
        Op::EmptyCell
    } else {
        match expand_node(child) {
            Ok(ops) => Op::Cell(ops),
            Err(e) => {
                proof {
                    let csm = nodes_model(children@);
                    assert(spec_cell_of(csm[d as int]) == Err::<OpModel, ErrModel>(err_model(e)));
                    assert(spec_cells(csm, gap_some, hybrid_model(*sep), rev, i as int) == Err::<
                        Seq<OpModel>,
                        ErrModel,
                    >(err_model(e)));
                }
                return Err(e);
            },
        }
    };
    proof {
        let csm = nodes_model(children@);
        assert(spec_cell_of(csm[d as int]) == Ok::<OpModel, ErrModel>(op_model(cell)));
    }
    let rest = match expand_cells(children, gap_some, sep, rev, i + 1) {
        Ok(rest) => rest,
        Err(e) => {
            proof {
                let csm = nodes_model(children@);
                assert(spec_cells(csm, gap_some, hybrid_model(*sep), rev, i as int) == Err::<
                    Seq<OpModel>,
                    ErrModel,
                >(err_model(e)));
            }
            return Err(e);
        },
    };
    let mut ops: Vec<Op> = Vec::new();
    let ghost cell_ghost = cell;
    ops.push(cell);
    let ghost head = ops@;
    if i + 1 < n && gap_some {
        let filler = match sep {
            HybridAttribute::Literal(b) => if b.0 {
                Op::SeparatorCell { condition: None }
            } else {
                Op::EmptyCell
            },
            HybridAttribute::HostExpression(e2) => Op::SeparatorCell {
                condition: Some(e2.clone()),
            },
        };
        ops.push(filler);
    }
    let ghost with_filler = ops@;
    let mut rest = rest;
    let ghost rest_seq = rest@;
    ops.append(&mut rest);
    proof {
        let csm = nodes_model(children@);
        let sepm = hybrid_model(*sep);
        let spec_fill: Seq<OpModel> = if i + 1 < csm.len() && gap_some {
            seq![spec_filler(sepm)]
        } else {
            Seq::empty()
        };
        lemma_ops_model_concat(with_filler, rest_seq);
        assert(ops@ =~= with_filler + rest_seq);
        lemma_ops_model_single(cell_ghost);
        if with_filler.len() == 2 {
            lemma_ops_model_push(head, with_filler[1]);
            lemma_ops_model_single(with_filler[0]);
            assert(head =~= seq![with_filler[0]]);
            assert(with_filler =~= head.push(with_filler[1]));
            assert(op_model(with_filler[1]) == spec_filler(sepm));
            assert(ops_model(with_filler) =~= seq![op_model(cell_ghost)] + spec_fill);
        } else {
            assert(with_filler =~= seq![cell_ghost]);
            assert(ops_model(with_filler) =~= seq![op_model(cell_ghost)] + spec_fill);
        }
        assert(spec_cells(csm, gap_some, sepm, rev, i as int) == Ok::<_, ErrModel>(
            seq![op_model(cell_ghost)] + spec_fill + ops_model(rest_seq),
        ));
        assert(seq![op_model(cell_ghost)] + spec_fill + ops_model(rest_seq) =~= ops_model(
            with_filler,
        ) + ops_model(rest_seq));
        assert(ops_model(ops@) =~= ops_model(with_filler) + ops_model(rest_seq));
    }
    Ok(ops)
}

/// Expands one strip node into its operation sequence.
pub fn expand_strip(strip: &Node) -> (r: Result<Vec<Op>, CompileError>)
    requires
        !(*strip is Rust),
    ensures
        match r {
            Ok(ops) => spec_expand_strip(node_model(*strip)) == Ok::<_, ErrModel>(ops_model(ops@)),
            Err(e) => spec_expand_strip(node_model(*strip)) == Err::<Seq<OpModel>, _>(
                err_model(e),
            ),
        },
    decreases node_model(*strip), 0int,
{
    let attributes = match strip.get_attributes() {
        Some(a) => a,
        // only a leaf has no attributes, and the caller rules leaves out
        None => {
            return Err(CompileError::MissingAttribute { attribute: String::from_str("direction") });
        },
    };
    let bp = match StripBlueprint::resolve(attributes) {
        Ok(b) => b,
        Err(e) => {
            return Err(e);
        },
    };
    let children = match strip.get_children() {
        Some(c) => c,
        // only a leaf has no children, and the caller rules leaves out
        None => {
            return Err(CompileError::MissingAttribute { attribute: String::from_str("direction") });
        },
    };
    proof {
        lemma_children_decrease(node_model(*strip));
    }
    let rev = bp.direction.reversed();
    let cons = match expand_constraints(children, &bp.gap, rev, 0) {
        Ok(c) => c,
        Err(e) => {
            return Err(e);
        },
    };
    let gap_some = bp.gap.is_some();
    let cells = match expand_cells(children, gap_some, &bp.separator, rev, 0) {
        Ok(c) => c,
        Err(e) => {
            return Err(e);
        },
    };
    let axis = bp.direction.axis();
    let mut ops = cons;
    let ghost cons_seq = ops@;
    let begin = Op::BeginSubdivision { axis, ui: bp.ui };
    let ghost begin_ghost = begin;
    ops.push(begin);
    let mut cells = cells;
    let ghost cells_seq = cells@;
    let ghost mid = ops@;
    ops.append(&mut cells);
    proof {
        lemma_ops_model_push(cons_seq, begin_ghost);
        lemma_ops_model_concat(mid, cells_seq);
        assert(ops@ =~= mid + cells_seq);
        assert(ops_model(mid) =~= ops_model(cons_seq) + seq![op_model(begin_ghost)]);
        assert(ops_model(ops@) =~= ops_model(cons_seq) + seq![op_model(begin_ghost)] + ops_model(
            cells_seq,
        ));
    }
    Ok(ops)
}

/// Expands one node of the tree.
pub fn expand_node(node: &Node) -> (r: Result<Vec<Op>, CompileError>)
    ensures
        match r {
            Ok(ops) => spec_expand_node(node_model(*node)) == Ok::<_, ErrModel>(ops_model(ops@)),
            Err(e) => spec_expand_node(node_model(*node)) == Err::<Seq<OpModel>, _>(err_model(e)),
        },
    decreases node_model(*node), 1int,
{
    match node {
        Node::Rust { code } => {
            let mut ops: Vec<Op> = Vec::new();
            let leaf = Op::HostCode(code.clone());
            let ghost leaf_ghost = leaf;
            ops.push(leaf);
            proof {
                lemma_ops_model_single(leaf_ghost);
                assert(ops@ =~= seq![leaf_ghost]);
            }
            Ok(ops)
        },
        Node::Strip { .. } => expand_strip(node),
        Node::Panel { children, .. } => expand_nodes_from(children, 0),
        Node::Border { children, .. } => expand_nodes_from(children, 0),
        Node::Grid { children, .. } => expand_nodes_from(children, 0),
        Node::Default { children, .. } => expand_nodes_from(children, 0),
    }
}

fn expand_nodes_from(children: &Vec<Node>, i: usize) -> (r: Result<Vec<Op>, CompileError>)
    requires
        i <= children@.len(),
    ensures
        match r {
            Ok(ops) => spec_expand_nodes(nodes_model(children@), i as int) == Ok::<_, ErrModel>(
                ops_model(ops@),
            ),
            Err(e) => spec_expand_nodes(nodes_model(children@), i as int) == Err::<
                Seq<OpModel>,
                _,
            >(err_model(e)),
        },
    decreases nodes_model(children@), children@.len() - i,
{
    let n = children.len();
    proof {
        lemma_nodes_model_len(children@);
    }
    if i >= n {
        let done: Vec<Op> = Vec::new();
        proof {
            assert(ops_model(done@) =~= Seq::<OpModel>::empty());
        }
        return Ok(done);
    }
    proof {
        lemma_nodes_model_index(children@, i as int);
        assert(decreases_to!(nodes_model(children@) => nodes_model(children@)[i as int]));
    }
    let head = match expand_node(&children[i]) {
        Ok(ops) => ops,
        Err(e) => {
            return Err(e);
        },
    };
    let rest = match expand_nodes_from(children, i + 1) {
        Ok(ops) => ops,
        Err(e) => {
            return Err(e);
        },
    };
    let mut ops = head;
    let ghost head_seq = ops@;
    let mut rest = rest;
    let ghost rest_seq = rest@;
    ops.append(&mut rest);
    proof {
        lemma_ops_model_concat(head_seq, rest_seq);
        assert(ops@ =~= head_seq + rest_seq);
    }
    Ok(ops)
}

/// Expands a sequence of sibling nodes in declaration order.
pub fn expand_nodes(children: &Vec<Node>) -> (r: Result<Vec<Op>, CompileError>)
    ensures
        match r {
            Ok(ops) => spec_expand_nodes(nodes_model(children@), 0) == Ok::<_, ErrModel>(
                ops_model(ops@),
            ),
            Err(e) => spec_expand_nodes(nodes_model(children@), 0) == Err::<Seq<OpModel>, _>(
                err_model(e),
            ),
        },
{
    expand_nodes_from(children, 0)
}

} // verus!
