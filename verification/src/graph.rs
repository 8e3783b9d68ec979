//! Instruction records and the sealed, read-only graphs they form.
use vstd::prelude::*;
use crate::types::TypeId;

verus! {

/// The identity of a node: the builder that recorded it and its position in
/// that builder's arena.
#[derive(Clone, Copy, PartialEq, Eq, Structural, Debug)]
pub struct NodeRef {
    pub builder: u64,
    pub index: usize,
}

/// A constant. A 32-bit float is held by its bit pattern.
#[derive(Clone, Copy, PartialEq, Eq, Structural, Debug)]
pub enum Literal {
    Bool(bool),
    Int32(i32),
    Uint32(u32),
    Float32(u32),
}

/// The built-in functions a call node can apply.
#[derive(Clone, Copy, PartialEq, Eq, Structural, Debug)]
pub enum Func {
    Add,
    Sub,
    Mul,
    Div,
    Rem,
    BitAnd,
    BitOr,
    BitXor,
    Shl,
    Shr,
    Lt,
    Le,
    Gt,
    Ge,
    Eq,
    Ne,
    /// Widens a scalar to a vector of this many lanes.
    Splat(u32),
    All,
    Any,
    ReduceSum,
    ReduceProd,
    ReduceMin,
    ReduceMax,
    Dot,
    Cross,
    Length,
    LengthSquared,
    Normalize,
    Fma,
    OuterProduct,
    Select,
    Inverse,
    Transpose,
}

/// What a node does with its operands.
#[derive(Clone, Copy, PartialEq, Eq, Structural, Debug)]
pub enum Op {
    /// A constant; no operands.
    Literal(Literal),
    /// The argument of a callable at this position; no operands.
    Argument(usize),
    /// A built-in function applied to the operands.
    Call(Func),
    /// A vector, matrix, struct or array made of the operands, in order.
    Compose,
    /// The component of the one operand at this index.
    Extract(u32),
    /// The first operand with the component at this index replaced by the
    /// second operand.
    Insert(u32),
    /// A storage location, initialised with the one operand.
    Local,
    /// The value now held by the storage location that is the one operand.
    Load,
    /// Writes the second operand to the storage location that is the first.
    Store,
    /// The element of the buffer with this handle at the index that is the
    /// one operand.
    BufferRead(u64),
    /// A sealed block: the nodes from this position up to the block node.
    Block(usize),
    /// One arm of a switch: the sealed block from the given position that is
    /// taken when the selector equals the tag; the one operand is its value.
    Arm(u32, usize),
    /// A multi-way conditional: the first operand is the selector, the rest
    /// are arms.
    Switch,
    /// A call of the sealed graph with this identity on the operands.
    Invoke(u64),
}

/// An instruction record. It is never changed once recorded.
#[derive(Clone, Debug, PartialEq, Eq)]
pub struct Node {
    pub op: Op,
    pub operands: Vec<NodeRef>,
    pub ty: TypeId,
}

/// The mathematical value of a node.
pub struct NodeView {
    pub op: Op,
    pub operands: Seq<NodeRef>,
    pub ty: TypeId,
}

impl View for Node {
    type V = NodeView;

    open spec fn view(&self) -> NodeView {
        NodeView { op: self.op, operands: self.operands@, ty: self.ty }
    }
}

/// The views of a vector of nodes, in order.
pub open spec fn views(nodes: Seq<Node>) -> Seq<NodeView> {
    Seq::new(nodes.len(), |i: int| nodes[i]@)
}

/// The node at `at` in the arena of builder `id` only refers backwards: each
/// operand was recorded by the same builder strictly before it, and a block
/// starts no later than the node that seals it.
pub open spec fn backward(id: u64, node: NodeView, at: int) -> bool {
    &&& forall|k: int|
        0 <= k < node.operands.len() ==> (#[trigger] node.operands[k]).builder == id
            && node.operands[k].index < at
    &&& match node.op {
        Op::Block(start) => start <= at,
        Op::Arm(_, start) => start <= at,
        _ => true,
    }
}

/// Every node of the arena only refers backwards.
pub open spec fn forward(id: u64, nodes: Seq<NodeView>) -> bool {
    forall|i: int| 0 <= i < nodes.len() ==> backward(id, #[trigger] nodes[i], i)
}

/// Node `user` has node `used` among its operands.
pub open spec fn uses(id: u64, nodes: Seq<NodeView>, user: int, used: int) -> bool {
    &&& 0 <= user < nodes.len()
    &&& exists|k: int|
        0 <= k < nodes[user].operands.len() && (#[trigger] nodes[user].operands[k]).builder == id
            && nodes[user].operands[k].index == used
}

/// `path` walks from a node through operands: each entry uses the next.
pub open spec fn chain(id: u64, nodes: Seq<NodeView>, path: Seq<int>) -> bool {
    forall|i: int| 0 <= i < path.len() - 1 ==> uses(id, nodes, #[trigger] path[i], path[i + 1])
}

/// Along a walk through operands the positions strictly fall.
pub proof fn lemma_chain_descends(id: u64, nodes: Seq<NodeView>, path: Seq<int>)
    requires
        forward(id, nodes),
        chain(id, nodes, path),
        path.len() >= 2,
    ensures
        path.last() < path.first(),
    decreases path.len(),
{
    let n = path.len() as int;
    assert(uses(id, nodes, path[n - 2], path[n - 2 + 1]));
    let user = path[n - 2];
    assert(backward(id, nodes[user], user));
    assert(path[n - 1] < path[n - 2]);
    if n > 2 {
        let shorter = path.drop_last();
        assert forall|i: int| 0 <= i < shorter.len() - 1 implies uses(
            id,
            nodes,
            #[trigger] shorter[i],
            shorter[i + 1],
        ) by {
            assert(uses(id, nodes, path[i], path[i + 1]));
        }
        lemma_chain_descends(id, nodes, shorter);
        assert(shorter.last() == path[n - 2]);
        assert(shorter.first() == path.first());
    }
}

/// A forward-built arena is acyclic: no walk through operands, however
/// long, leads from a node back to itself.
pub proof fn lemma_acyclic(id: u64, nodes: Seq<NodeView>, path: Seq<int>)
    requires
        forward(id, nodes),
        chain(id, nodes, path),
        path.len() >= 2,
    ensures
        path.first() != path.last(),
{
    lemma_chain_descends(id, nodes, path);
}

/// A sealed graph: what one builder recorded, read-only from now on.
#[derive(Debug)]
pub struct Graph {
    id: u64,
    nodes: Vec<Node>,
}

/// The mathematical value of a sealed graph.
pub struct GraphView {
    pub id: u64,
    pub nodes: Seq<NodeView>,
}

impl View for Graph {
    type V = GraphView;

    closed spec fn view(&self) -> GraphView {
        GraphView { id: self.id, nodes: views(self.nodes@) }
    }
}

impl Graph {
    /// A sealed graph is forward built.
    pub open spec fn wf(&self) -> bool {
        forward(self@.id, self@.nodes)
    }

    /// Every sealed graph is forward built, wherever it came from.
    #[verifier::type_invariant]
    closed spec fn sealed(&self) -> bool {
        forward(self.id, views(self.nodes@))
    }

    /// Seals a forward-built arena under a builder's identity.
    pub(crate) fn seal(id: u64, nodes: Vec<Node>) -> (graph: Graph)
        requires
            forward(id, views(nodes@)),
        ensures
            graph@ == (GraphView { id, nodes: views(nodes@) }),
            graph.wf(),
    {
        Graph { id, nodes }
    }

    /// Acyclicity. In a sealed graph no walk through operands, however
    /// long, leads from a node back to itself.
    pub proof fn lemma_no_cycle(&self, path: Seq<int>)
        requires
            self.wf(),
            chain(self@.id, self@.nodes, path),
            path.len() >= 2,
        ensures
            path.first() != path.last(),
    {
        lemma_acyclic(self@.id, self@.nodes, path);
    }

    /// The identity of the builder that recorded the graph.
    pub fn id(&self) -> (id: u64)
        ensures
            id == self@.id,
            self.wf(),
    {
        proof {
            use_type_invariant(self);
        }
        self.id
    }

    /// The number of nodes.
    pub fn len(&self) -> (n: usize)
        ensures
            n == self@.nodes.len(),
            self.wf(),
    {
        proof {
            use_type_invariant(self);
        }
        self.nodes.len()
    }

    /// The node at `index`, if there is one. It only refers to nodes
    /// before it.
    pub fn node(&self, index: usize) -> (found: Option<&Node>)
        ensures
            found.is_some() == (index < self@.nodes.len()),
            found matches Some(node) ==> node@ == self@.nodes[index as int] && backward(
                self@.id,
                node@,
                index as int,
            ),
            self.wf(),
    {
        proof {
            use_type_invariant(self);
        }
        if index < self.nodes.len() {
            Some(&self.nodes[index])
        } else {
            None
        }
    }
}

} // verus!
