use vstd::prelude::*;

use crate::error::{err_model, CompileError, ErrModel};
use crate::reader::{events_model, spec_events, take_events, EventModel, MarkupEvent};

verus! {

/// A node of the parsed markup tree. Children are owned by their parent and
/// appear in declaration order; the finished tree is traversed strictly
/// top-down, so no link back to the parent is kept.
#[derive(Debug, PartialEq)]
pub enum Node {
    Panel { attributes: Vec<(String, String)>, children: Vec<Node> },
    Rust { code: String },
    Border { attributes: Vec<(String, String)>, children: Vec<Node> },
    Grid { attributes: Vec<(String, String)>, children: Vec<Node> },
    Default { attributes: Vec<(String, String)>, children: Vec<Node> },
    Strip { attributes: Vec<(String, String)>, children: Vec<Node> },
}

/// Mathematical model of a `Node`.
pub enum NodeModel {
    Panel { attributes: Seq<(Seq<char>, Seq<char>)>, children: Seq<NodeModel> },
    Rust { code: Seq<char> },
    Border { attributes: Seq<(Seq<char>, Seq<char>)>, children: Seq<NodeModel> },
    Grid { attributes: Seq<(Seq<char>, Seq<char>)>, children: Seq<NodeModel> },
    Default { attributes: Seq<(Seq<char>, Seq<char>)>, children: Seq<NodeModel> },
    Strip { attributes: Seq<(Seq<char>, Seq<char>)>, children: Seq<NodeModel> },
}

pub open spec fn node_model(n: Node) -> NodeModel
    decreases n,
{
    match n {
        Node::Panel { attributes, children } => NodeModel::Panel {
            attributes: attributes.deep_view(),
            children: nodes_model(children@),
        },
        Node::Rust { code } => NodeModel::Rust { code: code@ },
        Node::Border { attributes, children } => NodeModel::Border {
            attributes: attributes.deep_view(),
            children: nodes_model(children@),
        },
        Node::Grid { attributes, children } => NodeModel::Grid {
            attributes: attributes.deep_view(),
            children: nodes_model(children@),
        },
        Node::Default { attributes, children } => NodeModel::Default {
            attributes: attributes.deep_view(),
            children: nodes_model(children@),
        },
        Node::Strip { attributes, children } => NodeModel::Strip {
            attributes: attributes.deep_view(),
            children: nodes_model(children@),
        },
    }
}

pub open spec fn nodes_model(s: Seq<Node>) -> Seq<NodeModel>
    decreases s,
{
    if s.len() == 0 {
        Seq::empty()
    } else {
        nodes_model(s.drop_last()).push(node_model(s.last()))
    }
}

pub proof fn lemma_nodes_model_len(s: Seq<Node>)
    ensures
        nodes_model(s).len() == s.len(),
    decreases s,
{
    if s.len() > 0 {
        lemma_nodes_model_len(s.drop_last());
    }
}

pub proof fn lemma_nodes_model_index(s: Seq<Node>, i: int)
    requires
        0 <= i < s.len(),
    ensures
        nodes_model(s).len() == s.len(),
        nodes_model(s)[i] == node_model(s[i]),
    decreases s,
{
    lemma_nodes_model_len(s);
    if i < s.len() - 1 {
        lemma_nodes_model_index(s.drop_last(), i);
        assert(s.drop_last()[i] == s[i]);
    } else {
        lemma_nodes_model_len(s.drop_last());
    }
}

pub proof fn lemma_nodes_model_push(s: Seq<Node>, x: Node)
    ensures
        nodes_model(s.push(x)) == nodes_model(s).push(node_model(x)),
{
    assert(s.push(x).drop_last() =~= s);
    assert(s.push(x).last() == x);
}

// ---------------------------------------------------------------------------
// Model helpers
// ---------------------------------------------------------------------------

/// The children of a node; a leaf has none.
pub open spec fn model_children(n: NodeModel) -> Seq<NodeModel> {
    match n {
        NodeModel::Panel { children, .. } => children,
        NodeModel::Rust { .. } => Seq::empty(),
        NodeModel::Border { children, .. } => children,
        NodeModel::Grid { children, .. } => children,
        NodeModel::Default { children, .. } => children,
        NodeModel::Strip { children, .. } => children,
    }
}

/// The attributes of a node; a leaf has none.
pub open spec fn model_attrs(n: NodeModel) -> Seq<(Seq<char>, Seq<char>)> {
    match n {
        NodeModel::Panel { attributes, .. } => attributes,
        NodeModel::Rust { .. } => Seq::empty(),
        NodeModel::Border { attributes, .. } => attributes,
        NodeModel::Grid { attributes, .. } => attributes,
        NodeModel::Default { attributes, .. } => attributes,
        NodeModel::Strip { attributes, .. } => attributes,
    }
}

/// The node with further children appended; a leaf is left unchanged.
pub open spec fn model_add_children(n: NodeModel, cs: Seq<NodeModel>) -> NodeModel {
    match n {
        NodeModel::Panel { attributes, children } => NodeModel::Panel {
            attributes,
            children: children + cs,
        },
        NodeModel::Rust { code } => NodeModel::Rust { code },
        NodeModel::Border { attributes, children } => NodeModel::Border {
            attributes,
            children: children + cs,
        },
        NodeModel::Grid { attributes, children } => NodeModel::Grid {
            attributes,
            children: children + cs,
        },
        NodeModel::Default { attributes, children } => NodeModel::Default {
            attributes,
            children: children + cs,
        },
        NodeModel::Strip { attributes, children } => NodeModel::Strip {
            attributes,
            children: children + cs,
        },
    }
}

pub open spec fn model_add_child(n: NodeModel, c: NodeModel) -> NodeModel {
    model_add_children(n, seq![c])
}

/// The node with further attributes appended; a leaf is left unchanged.
pub open spec fn model_add_attrs(n: NodeModel, extra: Seq<(Seq<char>, Seq<char>)>) -> NodeModel {
    match n {
        NodeModel::Panel { attributes, children } => NodeModel::Panel {
            attributes: attributes + extra,
            children,
        },
        NodeModel::Rust { code } => NodeModel::Rust { code },
        NodeModel::Border { attributes, children } => NodeModel::Border {
            attributes: attributes + extra,
            children,
        },
        NodeModel::Grid { attributes, children } => NodeModel::Grid {
            attributes: attributes + extra,
            children,
        },
        NodeModel::Default { attributes, children } => NodeModel::Default {
            attributes: attributes + extra,
            children,
        },
        NodeModel::Strip { attributes, children } => NodeModel::Strip {
            attributes: attributes + extra,
            children,
        },
    }
}

// ---------------------------------------------------------------------------
// Node methods
// ---------------------------------------------------------------------------

impl Node {
    /// Appends a child. The receiver must not be a leaf node.
    pub fn add_node(&mut self, node: Node)
        requires
            !(*old(self) is Rust),
        ensures
            node_model(*final(self)) == model_add_child(node_model(*old(self)), node_model(node)),
    {
        let ghost nm = node_model(node);
        match self {
            Node::Panel { children, .. } => {
                let ghost old_children = children@;
                children.push(node);
                proof {
                    lemma_nodes_model_push(old_children, node);
                    assert(nodes_model(old_children).push(nm) =~= nodes_model(old_children)
                        + seq![nm]);
                }
            },
            Node::Rust { .. } => {},
            Node::Border { children, .. } => {
                let ghost old_children = children@;
                children.push(node);
                proof {
                    lemma_nodes_model_push(old_children, node);
                    assert(nodes_model(old_children).push(nm) =~= nodes_model(old_children)
                        + seq![nm]);
                }
            },
            Node::Grid { children, .. } => {
                let ghost old_children = children@;
                children.push(node);
                proof {
                    lemma_nodes_model_push(old_children, node);
                    assert(nodes_model(old_children).push(nm) =~= nodes_model(old_children)
                        + seq![nm]);
                }
            },
            Node::Default { children, .. } => {
                let ghost old_children = children@;
                children.push(node);
                proof {
                    lemma_nodes_model_push(old_children, node);
                    assert(nodes_model(old_children).push(nm) =~= nodes_model(old_children)
                        + seq![nm]);
                }
            },
            Node::Strip { children, .. } => {
                let ghost old_children = children@;
                children.push(node);
                proof {
                    lemma_nodes_model_push(old_children, node);
                    assert(nodes_model(old_children).push(nm) =~= nodes_model(old_children)
                        + seq![nm]);
                }
            },
        }
    }

    /// The node's children, or `None` for a leaf.
    pub fn get_children(&self) -> (r: Option<&Vec<Node>>)
        ensures
            match r {
                Some(c) => !(*self is Rust) && nodes_model(c@) == model_children(
                    node_model(*self),
                ),
                None => *self is Rust,
            },
    {
        match self {
            Node::Panel { children, .. } => Some(children),
            Node::Rust { .. } => None,
            Node::Border { children, .. } => Some(children),
            Node::Grid { children, .. } => Some(children),
            Node::Default { children, .. } => Some(children),
            Node::Strip { children, .. } => Some(children),
        }
    }

    /// The node's attributes, or `None` for a leaf.
    pub fn get_attributes(&self) -> (r: Option<&Vec<(String, String)>>)
        ensures
            match r {
                Some(a) => !(*self is Rust) && a.deep_view() == model_attrs(node_model(*self)),
                None => *self is Rust,
            },
    {
        match self {
            Node::Panel { attributes, .. } => Some(attributes),
            Node::Rust { .. } => None,
            Node::Border { attributes, .. } => Some(attributes),
            Node::Grid { attributes, .. } => Some(attributes),
            Node::Default { attributes, .. } => Some(attributes),
            Node::Strip { attributes, .. } => Some(attributes),
        }
    }
}

/// A handle that exposes a tree node to surrounding code.
#[derive(Debug)]
pub struct ExposeNode(pub Node);

// ---------------------------------------------------------------------------
// The tree builder
// ---------------------------------------------------------------------------

/// A frame of the build stack: the node under construction, the tag that
/// opened it, where that tag stood, and whether the frame is spliced into
/// its parent on close (the designated root tag).
pub struct FrameModel {
    pub tag: Seq<char>,
    pub position: int,
    pub node: NodeModel,
    pub splice: bool,
}

struct Frame {
    tag: String,
    position: usize,
    node: Node,
    splice: bool,
}

spec fn frame_model(f: Frame) -> FrameModel {
    FrameModel {
        tag: f.tag@,
        position: f.position as int,
        node: node_model(f.node),
        splice: f.splice,
    }
}

spec fn frames_model(s: Seq<Frame>) -> Seq<FrameModel> {
    s.map_values(|f: Frame| frame_model(f))
}

/// All frames below the top hold nodes that may take children.
pub open spec fn stack_wf(stack: Seq<FrameModel>) -> bool {
    forall|k: int| 0 <= k < stack.len() - 1 ==> !(#[trigger] stack[k].node is Rust)
}

/// One step of tree building: how one event transforms the build stack.
///
/// An open tag pushes a frame for the named element (`Form`, the designated
/// root tag, pushes a transparent frame whose contents are spliced into its
/// parent); a text run becomes a leaf child of the top frame; a close tag
/// pops the top frame into its parent. A leaf node accepts neither children
/// nor text.
pub open spec fn spec_build_step(stack: Seq<FrameModel>, ev: EventModel) -> Result<
    Seq<FrameModel>,
    ErrModel,
> {
    match ev {
        EventModel::Open { name, attributes, position } => {
            if stack.last().node is Rust {
                Err(ErrModel::NoChildrenAllowed { position })
            } else if name == "Panel"@ {
                Ok(
                    stack.push(
                        FrameModel {
                            tag: name,
                            position,
                            node: NodeModel::Panel { attributes, children: Seq::empty() },
                            splice: false,
                        },
                    ),
                )
            } else if name == "Strip"@ {
                Ok(
                    stack.push(
                        FrameModel {
                            tag: name,
                            position,
                            node: NodeModel::Strip { attributes, children: Seq::empty() },
                            splice: false,
                        },
                    ),
                )
            } else if name == "Border"@ {
                Ok(
                    stack.push(
                        FrameModel {
                            tag: name,
                            position,
                            node: NodeModel::Border { attributes, children: Seq::empty() },
                            splice: false,
                        },
                    ),
                )
            } else if name == "Grid"@ {
                Ok(
                    stack.push(
                        FrameModel {
                            tag: name,
                            position,
                            node: NodeModel::Grid { attributes, children: Seq::empty() },
                            splice: false,
                        },
                    ),
                )
            } else if name == "Default"@ {
                Ok(
                    stack.push(
                        FrameModel {
                            tag: name,
                            position,
                            node: NodeModel::Default { attributes, children: Seq::empty() },
                            splice: false,
                        },
                    ),
                )
            } else if name == "Rust"@ {
                Ok(
                    stack.push(
                        FrameModel {
                            tag: name,
                            position,
                            node: NodeModel::Rust { code: Seq::empty() },
                            splice: false,
                        },
                    ),
                )
            } else if name == "Form"@ {
                Ok(
                    stack.push(
                        FrameModel {
                            tag: name,
                            position,
                            node: NodeModel::Default { attributes, children: Seq::empty() },
                            splice: true,
                        },
                    ),
                )
            } else {
                Err(ErrModel::UnknownElement { name, position })
            }
        },
        EventModel::Text { text, position } => {
            if stack.last().node is Rust {
                Err(ErrModel::NoChildrenAllowed { position })
            } else {
                let top = stack.last();
                Ok(
                    stack.update(
                        stack.len() - 1,
                        FrameModel {
                            node: model_add_child(top.node, NodeModel::Rust { code: text }),
                            ..top
                        },
                    ),
                )
            }
        },
        EventModel::Close { name, position } => {
            if stack.len() <= 1 {
                Err(ErrModel::UnbalancedTree { position })
            } else if name != stack.last().tag {
                Err(ErrModel::MalformedMarkup { position })
            } else {
                let f = stack.last();
                let parent = stack[stack.len() - 2];
                let joined = if f.splice {
                    model_add_attrs(
                        model_add_children(parent.node, model_children(f.node)),
                        model_attrs(f.node),
                    )
                } else {
                    model_add_child(parent.node, f.node)
                };
                Ok(
                    stack.drop_last().update(
                        stack.len() - 2,
                        FrameModel { node: joined, ..parent },
                    ),
                )
            }
        },
    }
}

/// Folding the build step over the events from position `i`, finishing with
/// the root node. Text left unclosed fails with the position of the tag
/// still open.
pub open spec fn spec_build_from(
    events: Seq<EventModel>,
    i: int,
    stack: Seq<FrameModel>,
) -> Result<NodeModel, ErrModel>
    decreases events.len() - i,
{
    if i < 0 || i >= events.len() {
        if stack.len() == 1 {
            Ok(stack[0].node)
        } else {
            Err(ErrModel::MalformedMarkup { position: stack.last().position })
        }
    } else {
        match spec_build_step(stack, events[i]) {
            Ok(st) => spec_build_from(events, i + 1, st),
            Err(e) => Err(e),
        }
    }
}

/// The initial stack: one frame holding the implicit root container.
pub open spec fn root_stack() -> Seq<FrameModel> {
    seq![
        FrameModel {
            tag: Seq::empty(),
            position: 0,
            node: NodeModel::Default { attributes: Seq::empty(), children: Seq::empty() },
            splice: false,
        },
    ]
}

pub open spec fn spec_build(events: Seq<EventModel>) -> Result<NodeModel, ErrModel> {
    spec_build_from(events, 0, root_stack())
}

/// The whole front half of compilation: reading the markup text into events
/// and folding them into a tree.
pub open spec fn spec_form(s: Seq<char>) -> Result<NodeModel, ErrModel> {
    match spec_events(s, 0) {
        Ok(events) => spec_build(events),
        Err(e) => Err(e),
    }
}

/// The parsed form of a markup text: the implicit root container node.
#[derive(Debug, PartialEq)]
pub struct XMLForm {
    pub root: Node,
}

fn tag_is(name: &String, lit: &str) -> (r: bool)
    ensures
        r == (name@ == lit@),
{
    let l = String::from_str(lit);
    name.eq(&l)
}

fn clone_attrs(attrs: &Vec<(String, String)>) -> (r: Vec<(String, String)>)
    ensures
        r.deep_view() == attrs.deep_view(),
{
    let mut r: Vec<(String, String)> = Vec::new();
    let mut i: usize = 0;
    while i < attrs.len()
        invariant
            0 <= i <= attrs@.len(),
            r@.len() == i,
            forall|k: int| 0 <= k < i ==> r.deep_view()[k] == attrs.deep_view()[k],
        decreases attrs@.len() - i,
    {
        let (k, v) = (&attrs[i].0, &attrs[i].1);
        r.push((k.clone(), v.clone()));
        i = i + 1;
    }
    proof {
        assert(r.deep_view() =~= attrs.deep_view());
    }
    r
}

fn clone_event(e: &MarkupEvent) -> (r: MarkupEvent)
    ensures
        crate::reader::event_model(r) == crate::reader::event_model(*e),
{
    match e {
        MarkupEvent::Open { name, attributes, position } => MarkupEvent::Open {
            name: name.clone(),
            attributes: clone_attrs(attributes),
            position: *position,
        },
        MarkupEvent::Close { name, position } => MarkupEvent::Close {
            name: name.clone(),
            position: *position,
        },
        MarkupEvent::Text { text, position } => MarkupEvent::Text {
            text: text.clone(),
            position: *position,
        },
    }
}

/// Splits a non-leaf node into its attributes and children.
fn take_parts(n: Node) -> (r: (Vec<(String, String)>, Vec<Node>))
    ensures
        r.0.deep_view() == model_attrs(node_model(n)),
        nodes_model(r.1@) == model_children(node_model(n)),
{
    match n {
        Node::Panel { attributes, children } => (attributes, children),
        Node::Rust { .. } => {
            let r: (Vec<(String, String)>, Vec<Node>) = (Vec::new(), Vec::new());
            proof {
                assert(r.0.deep_view() =~= Seq::<(Seq<char>, Seq<char>)>::empty());
            }
            r
        },
        Node::Border { attributes, children } => (attributes, children),
        Node::Grid { attributes, children } => (attributes, children),
        Node::Default { attributes, children } => (attributes, children),
        Node::Strip { attributes, children } => (attributes, children),
    }
}

/// Appends attribute entries to a non-leaf node.
fn add_attrs(n: &mut Node, mut extra: Vec<(String, String)>)
    requires
        !(*old(n) is Rust),
    ensures
        node_model(*final(n)) == model_add_attrs(node_model(*old(n)), extra.deep_view()),
        !(*final(n) is Rust),
{
    let ghost target = model_add_attrs(node_model(*old(n)), extra.deep_view());
    while extra.len() > 0
        invariant
            !(*n is Rust),
            target == model_add_attrs(node_model(*n), extra.deep_view()),
        decreases extra@.len(),
    {
        let ghost old_dv = extra.deep_view();
        let kv = extra.remove(0);
        let ghost before = node_model(*n);
        let ghost rest = extra.deep_view();
        proof {
            assert(old_dv =~= seq![kv.deep_view()] + rest);
        }
        match n {
            Node::Panel { attributes, .. } => attributes.push(kv),
            Node::Rust { .. } => {},
            Node::Border { attributes, .. } => attributes.push(kv),
            Node::Grid { attributes, .. } => attributes.push(kv),
            Node::Default { attributes, .. } => attributes.push(kv),
            Node::Strip { attributes, .. } => attributes.push(kv),
        }
        proof {
            assert(model_attrs(node_model(*n)) =~= model_attrs(before).push(kv.deep_view()));
            assert(model_attrs(before).push(kv.deep_view()) + rest =~= model_attrs(before) + (
            seq![kv.deep_view()] + rest));
            assert(model_add_attrs(node_model(*n), rest) == target);
        }
    }
    proof {
        assert(model_add_attrs(node_model(*n), extra.deep_view()) == node_model(*n)) by {
            assert(model_attrs(node_model(*n)) + extra.deep_view() =~= model_attrs(
                node_model(*n),
            ));
        }
    }
}

/// Appends child nodes to a non-leaf node.
fn add_children(n: &mut Node, mut extra: Vec<Node>)
    requires
        !(*old(n) is Rust),
    ensures
        node_model(*final(n)) == model_add_children(node_model(*old(n)), nodes_model(extra@)),
        !(*final(n) is Rust),
{
    let ghost target = model_add_children(node_model(*old(n)), nodes_model(extra@));
    while extra.len() > 0
        invariant
            !(*n is Rust),
            target == model_add_children(node_model(*n), nodes_model(extra@)),
        decreases extra@.len(),
    {
        let ghost whole = extra@;
        let c = extra.remove(0);
        let ghost cm = node_model(c);
        let ghost before = node_model(*n);
        n.add_node(c);
        proof {
            assert(whole =~= seq![whole[0]] + whole.drop_first());
            lemma_nodes_model_concat(seq![whole[0]], whole.drop_first());
            assert(nodes_model(seq![whole[0]]) =~= seq![cm]) by {
                assert(seq![whole[0]].drop_last() =~= Seq::<Node>::empty());
                assert(nodes_model(Seq::<Node>::empty()) =~= Seq::<NodeModel>::empty());
                assert(seq![whole[0]].last() == whole[0]);
            }
            assert(extra@ == whole.drop_first());
            assert(model_children(before) + (seq![cm] + nodes_model(extra@)) =~= (model_children(
                before,
            ) + seq![cm]) + nodes_model(extra@));
            assert(model_add_children(node_model(*n), nodes_model(extra@)) == target);
        }
    }
    proof {
        assert(model_add_children(node_model(*n), nodes_model(extra@)) == node_model(*n)) by {
            assert(model_children(node_model(*n)) + nodes_model(extra@) =~= model_children(
                node_model(*n),
            ));
        }
    }
}

pub proof fn lemma_nodes_model_concat(a: Seq<Node>, b: Seq<Node>)
    ensures
        nodes_model(a + b) == nodes_model(a) + nodes_model(b),
    decreases b,
{
    if b.len() == 0 {
        assert(a + b =~= a);
        assert(nodes_model(a) + nodes_model(b) =~= nodes_model(a));
    } else {
        lemma_nodes_model_concat(a, b.drop_last());
        assert((a + b).drop_last() =~= a + b.drop_last());
        assert((a + b).last() == b.last());
        assert(nodes_model(a) + nodes_model(b.drop_last()).push(node_model(b.last())) =~= (
        nodes_model(a) + nodes_model(b.drop_last())).push(node_model(b.last())));
    }
}

/// Applies one event to the build stack.
fn build_step(stack: &mut Vec<Frame>, ev: MarkupEvent) -> (r: Result<(), CompileError>)
    requires
        old(stack)@.len() >= 1,
        stack_wf(frames_model(old(stack)@)),
    ensures
        match r {
            Ok(_) => {
                &&& spec_build_step(
                    frames_model(old(stack)@),
                    crate::reader::event_model(ev),
                ) == Ok::<_, ErrModel>(frames_model(final(stack)@))
                &&& final(stack)@.len() >= 1
                &&& stack_wf(frames_model(final(stack)@))
            },
            Err(e) => spec_build_step(frames_model(old(stack)@), crate::reader::event_model(ev))
                == Err::<Seq<FrameModel>, _>(err_model(e)),
        },
{
    let idx = stack.len() - 1;
    match ev {
        MarkupEvent::Open { name, attributes, position } => {
            let top_leaf = match &stack[idx].node {
                Node::Rust { .. } => true,
                _ => false,
            };
            if top_leaf {
                return Err(CompileError::NoChildrenAllowed { position });
            }
            let frame = if tag_is(&name, "Panel") {
                Frame {
                    tag: name,
                    position,
                    node: Node::Panel { attributes, children: Vec::new() },
                    splice: false,
                }
            } else if tag_is(&name, "Strip") {
                Frame {
                    tag: name,
                    position,
                    node: Node::Strip { attributes, children: Vec::new() },
                    splice: false,
                }
            } else if tag_is(&name, "Border") {
                Frame {
                    tag: name,
                    position,
                    node: Node::Border { attributes, children: Vec::new() },
                    splice: false,
                }
            } else if tag_is(&name, "Grid") {
                Frame {
                    tag: name,
                    position,
                    node: Node::Grid { attributes, children: Vec::new() },
                    splice: false,
                }
            } else if tag_is(&name, "Default") {
                Frame {
                    tag: name,
                    position,
                    node: Node::Default { attributes, children: Vec::new() },
                    splice: false,
                }
            } else if tag_is(&name, "Rust") {
                Frame { tag: name, position, node: Node::Rust { code: String::new() }, splice: false }
            } else if tag_is(&name, "Form") {
                Frame {
                    tag: name,
                    position,
                    node: Node::Default { attributes, children: Vec::new() },
                    splice: true,
                }
            } else {
                return Err(CompileError::UnknownElement { name, position });
            };
            let ghost old_frames = frames_model(stack@);
            let ghost fm = frame_model(frame);
            stack.push(frame);
            proof {
                assert(nodes_model(Seq::<Node>::empty()) =~= Seq::<NodeModel>::empty());
                assert(frames_model(stack@) =~= old_frames.push(fm));
            }
            Ok(())
        },
        MarkupEvent::Text { text, position } => {
            let top_leaf = match &stack[idx].node {
                Node::Rust { .. } => true,
                _ => false,
            };
            if top_leaf {
                return Err(CompileError::NoChildrenAllowed { position });
            }
            let ghost old_frames = frames_model(stack@);
            let mut f = stack.pop().unwrap();
            f.node.add_node(Node::Rust { code: text });
            stack.push(f);
            proof {
                assert(frames_model(stack@) =~= old_frames.update(
                    old_frames.len() - 1,
                    frame_model(f),
                ));
            }
            Ok(())
        },
        MarkupEvent::Close { name, position } => {
            if stack.len() == 1 {
                return Err(CompileError::UnbalancedTree { position });
            }
            if !stack[idx].tag.eq(&name) {
                return Err(CompileError::MalformedMarkup { position });
            }
            let ghost old_frames = frames_model(stack@);
            let f = stack.pop().unwrap();
            let mut p = stack.pop().unwrap();
            if f.splice {
                let (fa, fc) = take_parts(f.node);
                add_children(&mut p.node, fc);
                add_attrs(&mut p.node, fa);
            } else {
                p.node.add_node(f.node);
            }
            stack.push(p);
            proof {
                assert(frames_model(stack@) =~= old_frames.drop_last().update(
                    old_frames.len() - 2,
                    frame_model(p),
                ));
            }
            Ok(())
        },
    }
}

impl XMLForm {
    /// Parses a markup text into its node tree.
    pub fn try_from(xml: &str) -> (r: Result<XMLForm, CompileError>)
        ensures
            match r {
                Ok(form) => spec_form(xml@) == Ok::<_, ErrModel>(node_model(form.root)),
                Err(e) => spec_form(xml@) == Err::<NodeModel, _>(err_model(e)),
            },
    {
        let n = xml.unicode_len();
        let events = match take_events(xml, n, 0) {
            Ok(events) => events,
            Err(e) => {
                return Err(e);
            },
        };
        let ghost evm = events_model(events@);
        let mut stack: Vec<Frame> = Vec::new();
        let root_attrs: Vec<(String, String)> = Vec::new();
        let root_children: Vec<Node> = Vec::new();
        proof {
            assert(root_attrs.deep_view() =~= Seq::<(Seq<char>, Seq<char>)>::empty());
            assert(nodes_model(root_children@) =~= Seq::<NodeModel>::empty());
        }
        stack.push(
            Frame {
                tag: String::new(),
                position: 0,
                node: Node::Default { attributes: root_attrs, children: root_children },
                splice: false,
            },
        );
        proof {
            assert(frames_model(stack@) =~= root_stack());
        }
        let mut i: usize = 0;
        while i < events.len()
            invariant
                0 <= i <= events@.len(),
                evm == events_model(events@),
                spec_events(xml@, 0) == Ok::<_, ErrModel>(evm),
                evm.len() == events@.len(),
                stack@.len() >= 1,
                stack_wf(frames_model(stack@)),
                spec_build_from(evm, i as int, frames_model(stack@)) == spec_build(evm),
            decreases events@.len() - i,
        {
            let ghost frames_before = frames_model(stack@);
            let ev = clone_event(&events[i]);
            proof {
                assert(evm[i as int] == crate::reader::event_model(events@[i as int]));
            }
            match build_step(&mut stack, ev) {
                Ok(_) => {
                    proof {
                        assert(spec_build_from(evm, i as int, frames_before) == spec_build_from(
                            evm,
                            i + 1,
                            frames_model(stack@),
                        ));
                    }
                },
                Err(e) => {
                    proof {
                        assert(spec_build_from(evm, i as int, frames_before) == Err::<
                            NodeModel,
                            _,
                        >(err_model(e)));
                    }
                    return Err(e);
                },
            }
            i = i + 1;
        }
        if stack.len() == 1 {
            let f = stack.pop().unwrap();
            Ok(XMLForm { root: f.node })
        } else {
            let position = stack[stack.len() - 1].position;
            Err(CompileError::MalformedMarkup { position })
        }
    }
}

} // verus!
