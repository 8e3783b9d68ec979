//! The recording context: the interned types, the stack of builders under
//! construction, and the scopes open in each.
use vstd::prelude::*;
use crate::error::Error;
use crate::graph::{backward, forward, views, Graph, GraphView, Node, NodeRef, NodeView, Op};
use crate::types::{extends, Shape, Type, TypeId, TypeRegistry};

verus! {

/// The live graph of one kernel, callable or nested block: an arena of
/// nodes, and the positions at which its open scopes began.
#[derive(Debug)]
pub struct Builder {
    id: u64,
    nodes: Vec<Node>,
    scopes: Vec<usize>,
}

/// The mathematical value of a builder.
pub struct BuilderView {
    pub id: u64,
    pub nodes: Seq<NodeView>,
    pub scopes: Seq<usize>,
}

impl View for Builder {
    type V = BuilderView;

    closed spec fn view(&self) -> BuilderView {
        BuilderView { id: self.id, nodes: views(self.nodes@), scopes: self.scopes@ }
    }
}

/// A builder's invariant: its arena is forward built and its positions fit
/// the machine's index type, and every open scope began at a position the
/// arena has reached.
pub open spec fn builder_wf(b: BuilderView) -> bool {
    &&& forward(b.id, b.nodes)
    &&& b.nodes.len() <= usize::MAX
    &&& forall|i: int| 0 <= i < b.scopes.len() ==> #[trigger] b.scopes[i] <= b.nodes.len()
}

/// Every node's type is one of the first `bound` interned types.
pub open spec fn typed(nodes: Seq<NodeView>, bound: nat) -> bool {
    forall|i: int| 0 <= i < nodes.len() ==> (#[trigger] nodes[i]).ty.index < bound
}

impl Builder {
    /// The identity under which the builder's nodes are known.
    pub fn id(&self) -> (id: u64)
        ensures
            id == self@.id,
    {
        self.id
    }

    /// The number of nodes recorded so far.
    pub fn len(&self) -> (n: usize)
        ensures
            n == self@.nodes.len(),
    {
        self.nodes.len()
    }

    /// The number of open scopes.
    pub fn depth(&self) -> (n: usize)
        ensures
            n == self@.scopes.len(),
    {
        self.scopes.len()
    }

    /// The node at `index`, if there is one.
    pub fn node(&self, index: usize) -> (found: Option<&Node>)
        ensures
            found.is_some() == (index < self@.nodes.len()),
            found matches Some(node) ==> node@ == self@.nodes[index as int],
    {
        if index < self.nodes.len() {
            Some(&self.nodes[index])
        } else {
            None
        }
    }
}

/// The recording context. It is handed by reference to every operation
/// that records; the builder on top of its stack is the current one.
#[derive(Debug)]
pub struct Context {
    types: TypeRegistry,
    stack: Vec<Builder>,
    opened: u64,
}

/// The mathematical value of a context.
pub struct ContextView {
    /// The interned types, by identity.
    pub types: Seq<Shape>,
    /// The builders under construction, the current one last.
    pub stack: Seq<BuilderView>,
    /// How many builders were ever opened.
    pub opened: nat,
}

impl ContextView {
    /// A builder is current.
    pub open spec fn active(self) -> bool {
        self.stack.len() > 0
    }

    /// The current builder.
    pub open spec fn current(self) -> BuilderView
        recommends
            self.active(),
    {
        self.stack.last()
    }

    /// The current builder holds the node `n`.
    pub open spec fn holds(self, n: NodeRef) -> bool {
        self.active() && n.builder == self.current().id && n.index < self.current().nodes.len()
    }

    /// The current builder holds every node of `operands`.
    pub open spec fn holds_all(self, operands: Seq<NodeRef>) -> bool {
        forall|k: int| 0 <= k < operands.len() ==> self.holds(#[trigger] operands[k])
    }

    /// The node that `n` names in the current builder.
    pub open spec fn node(self, n: NodeRef) -> NodeView
        recommends
            self.holds(n),
    {
        self.current().nodes[n.index as int]
    }

    /// The type of the node that `n` names.
    pub open spec fn shape(self, n: NodeRef) -> Shape
        recommends
            self.holds(n),
    {
        self.types[self.node(n).ty.index as int]
    }

    /// The current builder holds the node `n`, and it has the type
    /// `shape`.
    pub open spec fn has(self, n: NodeRef, shape: Shape) -> bool {
        self.holds(n) && self.shape(n) == shape
    }

    /// The identity the next recorded node gets.
    pub open spec fn next(self) -> NodeRef
        recommends
            self.active(),
    {
        NodeRef { builder: self.current().id, index: self.current().nodes.len() as usize }
    }

    /// The context with the current builder replaced.
    pub open spec fn with_current(self, b: BuilderView) -> ContextView
        recommends
            self.active(),
    {
        ContextView { stack: self.stack.update(self.stack.len() - 1, b), ..self }
    }

    /// The context after the current builder recorded `node`.
    pub open spec fn appended(self, node: NodeView) -> ContextView
        recommends
            self.active(),
    {
        self.with_current(
            BuilderView { nodes: self.current().nodes.push(node), ..self.current() },
        )
    }

    /// The context with other interned types.
    pub open spec fn with_types(self, types: Seq<Shape>) -> ContextView {
        ContextView { types, ..self }
    }

    /// The context after a fresh builder was opened on top of the stack.
    pub open spec fn entered(self) -> ContextView {
        ContextView {
            types: self.types,
            stack: self.stack.push(
                BuilderView {
                    id: self.opened as u64,
                    nodes: Seq::<NodeView>::empty(),
                    scopes: Seq::<usize>::empty(),
                },
            ),
            opened: self.opened + 1,
        }
    }

    /// The context with, on top of its stack, the builder that recorded the
    /// sealed graph `graph`, which has no scope open.
    pub open spec fn entered_with(self, graph: GraphView) -> ContextView {
        ContextView {
            types: self.types,
            stack: self.stack.push(
                BuilderView { id: graph.id, nodes: graph.nodes, scopes: Seq::<usize>::empty() },
            ),
            opened: self.opened,
        }
    }

    /// The context after a scope was opened in the current builder.
    pub open spec fn scoped(self) -> ContextView
        recommends
            self.active(),
    {
        self.with_current(
            BuilderView {
                scopes: self.current().scopes.push(self.current().nodes.len() as usize),
                ..self.current()
            },
        )
    }

    /// The context after the innermost scope of the current builder was
    /// dropped from the stack of open scopes.
    pub open spec fn unscoped(self) -> ContextView
        recommends
            self.active(),
            self.current().scopes.len() > 0,
    {
        self.with_current(
            BuilderView { scopes: self.current().scopes.drop_last(), ..self.current() },
        )
    }

    /// The context with the current builder cut back to its first `nodes`
    /// nodes and its first `scopes` open scopes.
    pub open spec fn rewound(self, nodes: int, scopes: int) -> ContextView
        recommends
            self.active(),
    {
        self.with_current(
            BuilderView {
                id: self.current().id,
                nodes: self.current().nodes.take(nodes),
                scopes: self.current().scopes.take(scopes),
            },
        )
    }

    /// The invariant of a context: the registry's and each builder's
    /// invariants hold, every node's type is interned, and the builders'
    /// identities rise along the stack and were all handed out.
    pub open spec fn wf(self) -> bool {
        &&& crate::types::canonical(self.types)
        &&& crate::types::grounded(self.types)
        &&& self.types.len() <= usize::MAX
        &&& forall|i: int|
            0 <= i < self.stack.len() ==> builder_wf(#[trigger] self.stack[i]) && typed(
                self.stack[i].nodes,
                self.types.len(),
            ) && self.stack[i].id < self.opened
        &&& forall|i: int, j: int|
            0 <= i < j < self.stack.len() ==> (#[trigger] self.stack[i]).id < (
            #[trigger] self.stack[j]).id
        &&& self.opened <= u64::MAX
    }
}

/// Why `emit` refuses a node, if it does: an operand that the current
/// builder does not hold, else a type that is not interned, else a block
/// that starts beyond the arena.
pub open spec fn refusal(v: ContextView, node: NodeView) -> Option<Error> {
    if !v.holds_all(node.operands) {
        Some(Error::UnknownNode)
    } else if node.ty.index >= v.types.len() {
        Some(Error::InvalidType)
    } else if !block_in_range(node.op, v.current().nodes.len()) {
        Some(Error::IndexOutOfRange)
    } else {
        None
    }
}

/// A block or arm starts no later than position `at`.
pub open spec fn block_in_range(op: Op, at: nat) -> bool {
    match op {
        Op::Block(start) => start <= at,
        Op::Arm(_, start) => start <= at,
        _ => true,
    }
}

/// The current builder keeps its identity and only gains nodes, the
/// builders below it are untouched, and the registry and the count of
/// builders only grow. Scopes may have been opened or closed.
pub open spec fn advances(before: ContextView, after: ContextView) -> bool {
    &&& before.active()
    &&& after.stack.len() == before.stack.len()
    &&& after.stack.drop_last() == before.stack.drop_last()
    &&& after.current().id == before.current().id
    &&& extends(before.current().nodes, after.current().nodes)
    &&& extends(before.types, after.types)
    &&& before.opened <= after.opened
}

/// What recording does to a context and nothing else does: the context
/// advances, and the current builder has the open scopes it had.
pub open spec fn grows(before: ContextView, after: ContextView) -> bool {
    &&& advances(before, after)
    &&& after.current().scopes == before.current().scopes
}

/// The builders are as they were; the registry and the count of builders
/// may have grown.
pub open spec fn unwound(before: ContextView, after: ContextView) -> bool {
    &&& after.stack == before.stack
    &&& extends(before.types, after.types)
    &&& before.opened <= after.opened
}

/// Growth is reflexive.
pub proof fn lemma_grows_refl(v: ContextView)
    requires
        v.active(),
    ensures
        grows(v, v),
{
    assert(v.current().nodes.take(v.current().nodes.len() as int) =~= v.current().nodes);
    assert(v.types.take(v.types.len() as int) =~= v.types);
}

/// Growth is transitive.
pub proof fn lemma_grows_trans(a: ContextView, b: ContextView, c: ContextView)
    requires
        grows(a, b),
        grows(b, c),
    ensures
        grows(a, c),
{
    lemma_extends_trans(a.current().nodes, b.current().nodes, c.current().nodes);
    lemma_extends_trans(a.types, b.types, c.types);
}

/// Advancing is transitive.
pub proof fn lemma_advances_trans(a: ContextView, b: ContextView, c: ContextView)
    requires
        advances(a, b),
        advances(b, c),
    ensures
        advances(a, c),
{
    lemma_extends_trans(a.current().nodes, b.current().nodes, c.current().nodes);
    lemma_extends_trans(a.types, b.types, c.types);
}

/// A node that the current builder held before the context advanced is
/// held after, and is the same node of the same type.
pub proof fn lemma_advances_keeps(before: ContextView, after: ContextView, n: NodeRef)
    requires
        before.wf(),
        advances(before, after),
        before.holds(n),
    ensures
        after.holds(n),
        after.node(n) == before.node(n),
        after.shape(n) == before.shape(n),
{
    let old_nodes = before.current().nodes;
    let new_nodes = after.current().nodes;
    assert(typed(before.stack[before.stack.len() - 1].nodes, before.types.len()));
    assert(new_nodes.take(old_nodes.len() as int)[n.index as int] == new_nodes[n.index as int]);
    let t = before.node(n).ty.index as int;
    assert(after.types.take(before.types.len() as int)[t] == after.types[t]);
}

/// The prefix relation is transitive.
pub proof fn lemma_extends_trans<T>(a: Seq<T>, b: Seq<T>, c: Seq<T>)
    requires
        extends(a, b),
        extends(b, c),
    ensures
        extends(a, c),
{
    assert(c.take(a.len() as int) =~= c.take(b.len() as int).take(a.len() as int));
}

/// Recording never changes what an existing handle denotes: a node that
/// the current builder held before is held after, and is the same node of
/// the same type.
pub proof fn lemma_grows_keeps(before: ContextView, after: ContextView, n: NodeRef)
    requires
        before.wf(),
        grows(before, after),
        before.holds(n),
    ensures
        after.holds(n),
        after.node(n) == before.node(n),
        after.shape(n) == before.shape(n),
{
    lemma_advances_keeps(before, after, n);
}

impl View for Context {
    type V = ContextView;

    closed spec fn view(&self) -> ContextView {
        ContextView {
            types: self.types@,
            stack: Seq::new(self.stack@.len(), |i: int| self.stack@[i]@),
            opened: self.opened as nat,
        }
    }
}

impl Context {
    /// The context's invariant.
    pub open spec fn wf(&self) -> bool {
        self@.wf()
    }

    /// A context with no types interned and no builder open.
    pub fn new() -> (ctx: Context)
        ensures
            ctx.wf(),
            ctx@.types == Seq::<Shape>::empty(),
            ctx@.stack == Seq::<BuilderView>::empty(),
            ctx@.opened == 0,
    {
        let ctx = Context { types: TypeRegistry::new(), stack: Vec::new(), opened: 0 };
        assert(ctx@.stack =~= Seq::<BuilderView>::empty());
        ctx
    }

    /// Whether a builder is current.
    pub fn active(&self) -> (yes: bool)
        ensures
            yes == self@.active(),
    {
        self.stack.len() > 0
    }

    /// The number of builders under construction.
    pub fn depth(&self) -> (n: usize)
        ensures
            n == self@.stack.len(),
    {
        self.stack.len()
    }

    /// The current builder. Recording outside any builder is a programming
    /// error, so the caller must know that one is current.
    pub fn current(&self) -> (builder: &Builder)
        requires
            self@.active(),
        ensures
            builder@ == self@.current(),
    {
        &self.stack[self.stack.len() - 1]
    }

    /// The registry of interned types.
    pub fn types(&self) -> (registry: &TypeRegistry)
        ensures
            registry@ == self@.types,
    {
        &self.types
    }

    /// Interns a descriptor in the context's registry. The builders are not
    /// touched.
    pub fn register_type(&mut self, shape: Type) -> (result: Result<TypeId, Error>)
        requires
            old(self).wf(),
        ensures
            final(self).wf(),
            extends(old(self)@.types, final(self)@.types),
            final(self)@ == old(self)@.with_types(final(self)@.types),
            match result {
                Ok(id) => crate::types::well_formed(shape@, old(self)@.types.len()) && (
                    final(self)@.types,
                    id.index as nat,
                ) == crate::types::intern(old(self)@.types, shape@) && final(self)@.types[id.index as int]
                    == shape@,
                Err(e) => e == Error::InvalidType && !crate::types::well_formed(
                    shape@,
                    old(self)@.types.len(),
                ) && final(self)@.types == old(self)@.types,
            },
    {
        let result = self.types.register(shape);
        assert(final(self)@.stack =~= old(self)@.stack);
        result
    }

    /// The descriptor interned under `id`, if there is one.
    pub fn type_shape(&self, id: TypeId) -> (found: Option<&Type>)
        ensures
            found.is_some() == (id.index < self@.types.len()),
            found matches Some(shape) ==> shape@ == self@.types[id.index as int],
    {
        self.types.get(id)
    }

    /// Whether the current builder holds the node `n`.
    pub fn holds(&self, n: NodeRef) -> (yes: bool)
        ensures
            yes == self@.holds(n),
    {
        let depth = self.stack.len();
        if depth == 0 {
            return false;
        }
        let builder = &self.stack[depth - 1];
        n.builder == builder.id && n.index < builder.nodes.len()
    }

    /// The type of the node `n`, if the current builder holds it.
    pub fn type_of(&self, n: NodeRef) -> (found: Option<TypeId>)
        requires
            self.wf(),
        ensures
            found.is_some() == self@.holds(n),
            found matches Some(id) ==> id == self@.node(n).ty && id.index < self@.types.len(),
    {
        if !self.holds(n) {
            return None;
        }
        let builder = &self.stack[self.stack.len() - 1];
        assert(typed(self@.stack[self.stack.len() - 1].nodes, self@.types.len()));
        Some(builder.nodes[n.index].ty)
    }

    /// Whether the current builder holds every node of `operands`.
    pub fn holds_all(&self, operands: &Vec<NodeRef>) -> (yes: bool)
        ensures
            yes == self@.holds_all(operands@),
    {
        let mut k: usize = 0;
        while k < operands.len()
            invariant
                k <= operands.len(),
                forall|j: int| 0 <= j < k ==> self@.holds(#[trigger] operands@[j]),
            decreases operands.len() - k,
        {
            if !self.holds(operands[k]) {
                assert(!self@.holds(operands@[k as int]));
                return false;
            }
            k += 1;
        }
        true
    }

    /// Records one node in the current builder and gives its identity. The
    /// node is always appended: equal instructions are not shared. It is
    /// refused, and nothing changes, when an operand is not a node the
    /// current builder already holds, when the type is not interned, or
    /// when it seals a block that starts beyond the arena.
    pub fn emit(&mut self, op: Op, operands: Vec<NodeRef>, ty: TypeId) -> (result: Result<
        NodeRef,
        Error,
    >)
        requires
            old(self).wf(),
            old(self)@.active(),
        ensures
            final(self).wf(),
            match result {
                Ok(n) => refusal(old(self)@, NodeView { op, operands: operands@, ty }).is_none()
                    && n == old(self)@.next() && final(self)@ == old(self)@.appended(
                    NodeView { op, operands: operands@, ty },
                ),
                Err(e) => refusal(old(self)@, NodeView { op, operands: operands@, ty }) == Some(e)
                    && final(self)@ == old(self)@,
            },
            grows(old(self)@, final(self)@),
    {
        proof {
            lemma_grows_refl(self@);
        }
        if !self.holds_all(&operands) {
            return Err(Error::UnknownNode);
        }
        if ty.index >= self.types.len() {
            return Err(Error::InvalidType);
        }
        let top = self.stack.len() - 1;
        let at = self.stack[top].nodes.len();
        let in_range = match op {
            Op::Block(start) => start <= at,
            Op::Arm(_, start) => start <= at,
            _ => true,
        };
        if !in_range {
            return Err(Error::IndexOutOfRange);
        }
        let id = self.stack[top].id;
        let ghost node = NodeView { op, operands: operands@, ty };
        let ghost before = self@;
        self.stack[top].nodes.push(Node { op, operands, ty });
        proof {
            let after = self@;
            assert(after.current().nodes =~= before.current().nodes.push(node));
            assert(after.stack =~= before.appended(node).stack);
            assert(after.stack.drop_last() =~= before.stack.drop_last());
            assert(after.current().nodes.take(before.current().nodes.len() as int)
                =~= before.current().nodes);
            assert(backward(id, node, at as int));
            assert forall|i: int| 0 <= i < after.stack.len() implies builder_wf(
                #[trigger] after.stack[i],
            ) && typed(after.stack[i].nodes, after.types.len()) && after.stack[i].id
                < after.opened by {
                assert(builder_wf(before.stack[i]));
                assert(typed(before.stack[i].nodes, before.types.len()));
                assert(after.stack[i].nodes.len() == self.stack@[i].nodes.len());
            }
            assert forall|i: int, j: int| 0 <= i < j < after.stack.len() implies (
            #[trigger] after.stack[i]).id < (#[trigger] after.stack[j]).id by {
                assert(before.stack[i].id < before.stack[j].id);
            }
        }
        Ok(NodeRef { builder: id, index: at })
    }

    /// Restates the invariant for a context that differs from a well-formed
    /// one only in its current builder.
    proof fn lemma_wf_with_current(before: ContextView, b: BuilderView)
        requires
            before.wf(),
            before.active(),
            builder_wf(b),
            typed(b.nodes, before.types.len()),
            b.id == before.current().id,
        ensures
            before.with_current(b).wf(),
    {
        let after = before.with_current(b);
        assert forall|i: int| 0 <= i < after.stack.len() implies builder_wf(
            #[trigger] after.stack[i],
        ) && typed(after.stack[i].nodes, after.types.len()) && after.stack[i].id
            < after.opened by {
            assert(builder_wf(before.stack[i]));
        }
        assert forall|i: int, j: int| 0 <= i < j < after.stack.len() implies (
        #[trigger] after.stack[i]).id < (#[trigger] after.stack[j]).id by {
            assert(before.stack[i].id < before.stack[j].id);
        }
    }

    /// Opens a nested block in the current builder: the nodes recorded from
    /// now until the matching `pop_scope` belong to it.
    pub fn push_scope(&mut self)
        requires
            old(self).wf(),
            old(self)@.active(),
        ensures
            final(self).wf(),
            final(self)@ == old(self)@.scoped(),
    {
        let top = self.stack.len() - 1;
        let at = self.stack[top].nodes.len();
        let ghost before = self@;
        self.stack[top].scopes.push(at);
        proof {
            let after = self@;
            assert(after.stack =~= before.scoped().stack);
            Self::lemma_wf_with_current(before, before.scoped().current());
        }
    }

    /// Drops the innermost open scope and gives the position at which it
    /// began.
    pub(crate) fn leave_scope(&mut self) -> (start: usize)
        requires
            old(self).wf(),
            old(self)@.active(),
            old(self)@.current().scopes.len() > 0,
        ensures
            final(self).wf(),
            final(self)@ == old(self)@.unscoped(),
            start == old(self)@.current().scopes.last(),
            start <= old(self)@.current().nodes.len(),
    {
        let top = self.stack.len() - 1;
        let ghost before = self@;
        assert(builder_wf(before.stack[top as int]));
        let start = self.stack[top].scopes.pop().unwrap();
        proof {
            let after = self@;
            assert(after.stack =~= before.unscoped().stack);
            Self::lemma_wf_with_current(before, before.unscoped().current());
        }
        start
    }

    /// Cuts the current builder back to its first `nodes` nodes and its
    /// first `scopes` open scopes.
    pub(crate) fn rewind(&mut self, nodes: usize, scopes: usize)
        requires
            old(self).wf(),
            old(self)@.active(),
            nodes <= old(self)@.current().nodes.len(),
            scopes <= old(self)@.current().scopes.len(),
            forall|i: int| 0 <= i < scopes ==> old(self)@.current().scopes[i] <= nodes,
        ensures
            final(self).wf(),
            final(self)@ == old(self)@.rewound(nodes as int, scopes as int),
    {
        let top = self.stack.len() - 1;
        let ghost before = self@;
        assert(builder_wf(before.stack[top as int]));
        assert(typed(before.stack[top as int].nodes, before.types.len()));
        self.stack[top].nodes.truncate(nodes);
        self.stack[top].scopes.truncate(scopes);
        proof {
            let after = self@;
            let cut = before.rewound(nodes as int, scopes as int).current();
            assert(after.current().nodes =~= cut.nodes);
            assert(after.current().scopes =~= cut.scopes);
            assert(after.stack =~= before.rewound(nodes as int, scopes as int).stack);
            assert forall|i: int| 0 <= i < cut.nodes.len() implies backward(
                cut.id,
                #[trigger] cut.nodes[i],
                i,
            ) by {
                assert(backward(before.current().id, before.current().nodes[i], i));
            }
            Self::lemma_wf_with_current(before, cut);
        }
    }

    /// Closes the innermost open scope of the current builder and seals the
    /// nodes recorded inside it into one block node, whose identity is
    /// returned. The block has the empty struct as its type. Closing a scope
    /// that was never opened is a programming error, so the caller must know
    /// that one is open.
    pub fn pop_scope(&mut self) -> (block: NodeRef)
        requires
            old(self).wf(),
            old(self)@.active(),
            old(self)@.current().scopes.len() > 0,
        ensures
            final(self).wf(),
            block == old(self)@.next(),
            final(self)@ == old(self)@.with_types(
                crate::types::intern(old(self)@.types, unit_shape()).0,
            ).unscoped().appended(
                NodeView {
                    op: Op::Block(old(self)@.current().scopes.last()),
                    operands: Seq::<NodeRef>::empty(),
                    ty: TypeId {
                        index: crate::types::intern(old(self)@.types, unit_shape()).1 as usize,
                    },
                },
            ),
    {
        let ghost before = self@;
        let unit = self.register_type(Type::Struct(Vec::new()));
        assert(crate::types::well_formed(unit_shape(), before.types.len()));
        let ty = unit.unwrap();
        let start = self.leave_scope();
        let ghost node = NodeView { op: Op::Block(start), operands: Seq::<NodeRef>::empty(), ty };
        let block = self.emit(Op::Block(start), Vec::new(), ty);
        assert(refusal(before.with_types(self@.types).unscoped(), node).is_none());
        block.unwrap()
    }

    /// Opens a fresh builder on top of the stack and makes it current.
    pub(crate) fn enter(&mut self)
        requires
            old(self).wf(),
            old(self)@.opened < u64::MAX,
        ensures
            final(self).wf(),
            final(self)@ == old(self)@.entered(),
    {
        let ghost before = self@;
        let id = self.opened;
        self.opened = self.opened + 1;
        self.stack.push(Builder { id, nodes: Vec::new(), scopes: Vec::new() });
        proof {
            assert(views(Seq::<Node>::empty()) =~= Seq::<NodeView>::empty());
            assert(self@.stack =~= before.entered().stack);
            assert(forward(id, Seq::<NodeView>::empty()));
            assert forall|i: int| 0 <= i < self@.stack.len() implies builder_wf(
                #[trigger] self@.stack[i],
            ) && typed(self@.stack[i].nodes, self@.types.len()) && self@.stack[i].id
                < self@.opened by {
                if i < before.stack.len() {
                    assert(builder_wf(before.stack[i]));
                }
            }
            assert forall|i: int, j: int| 0 <= i < j < self@.stack.len() implies (
            #[trigger] self@.stack[i]).id < (#[trigger] self@.stack[j]).id by {
                if j < before.stack.len() {
                    assert(before.stack[i].id < before.stack[j].id);
                } else {
                    assert(before.stack[i].id < before.opened);
                }
            }
        }
    }

    /// Takes the current builder off the stack and seals what it recorded.
    /// The builder below it, if any, is current again.
    pub(crate) fn leave(&mut self) -> (graph: Graph)
        requires
            old(self).wf(),
            old(self)@.active(),
        ensures
            final(self).wf(),
            final(self)@ == (ContextView { stack: old(self)@.stack.drop_last(), ..old(self)@ }),
            graph@ == (GraphView { id: old(self)@.current().id, nodes: old(self)@.current().nodes }),
            graph.wf(),
            typed(graph@.nodes, final(self)@.types.len()),
    {
        let ghost inside = self@;
        assert(builder_wf(inside.stack[inside.stack.len() - 1]));
        assert(typed(inside.stack[inside.stack.len() - 1].nodes, inside.types.len()));
        let builder = self.stack.pop().unwrap();
        let graph = Graph::seal(builder.id, builder.nodes);
        proof {
            let after = self@;
            assert(after.stack =~= inside.stack.drop_last());
            assert forall|i: int| 0 <= i < after.stack.len() implies builder_wf(
                #[trigger] after.stack[i],
            ) && typed(after.stack[i].nodes, after.types.len()) && after.stack[i].id
                < after.opened by {
                assert(builder_wf(inside.stack[i]));
                assert(typed(inside.stack[i].nodes, inside.types.len()));
            }
            assert forall|i: int, j: int| 0 <= i < j < after.stack.len() implies (
            #[trigger] after.stack[i]).id < (#[trigger] after.stack[j]).id by {
                assert(inside.stack[i].id < inside.stack[j].id);
            }
        }
        graph
    }

    /// Runs `f` with a fresh builder as the current one and restores the
    /// previous current builder, or none, however `f` returns. What the
    /// fresh builder recorded comes back sealed, beside the result of `f`.
    /// Builders nest: inside `f` this can be called again, and the inner
    /// graph is a graph of its own.
    pub fn with_new_builder<R, F: FnOnce(&mut Context) -> R>(&mut self, f: F) -> (out: (R, Graph))
        requires
            old(self).wf(),
            old(self)@.opened < u64::MAX,
            forall|c: &mut Context| c.wf() && c@ == old(self)@.entered() ==> call_requires(f, (c,)),
            forall|c: &mut Context, r: R|
                c@ == old(self)@.entered() && call_ensures(f, (c,), r) ==> final(c).wf() && grows(
                    c@,
                    final(c)@,
                ),
        ensures
            final(self).wf(),
            unwound(old(self)@, final(self)@),
            old(self)@.opened < final(self)@.opened,
            out.1.wf(),
            out.1@.id == old(self)@.opened,
            typed(out.1@.nodes, final(self)@.types.len()),
            exists|c: &mut Context|
                c@ == old(self)@.entered() && #[trigger] call_ensures(f, (c,), out.0) && final(c)@
                    == final(self)@.entered_with(out.1@),
    {
        let ghost before = self@;
        self.enter();
        let r = f(self);
        let ghost inside = self@;
        let ghost witness = choose|c: &mut Context|
            c@ == before.entered() && #[trigger] call_ensures(f, (c,), r) && final(c)@ == inside;
        let graph = self.leave();
        proof {
            let after = self@;
            assert(before.entered().stack.drop_last() =~= before.stack);
            assert(after.stack =~= before.stack);
            assert(inside.stack =~= after.entered_with(graph@).stack);
            assert(final(witness)@ == after.entered_with(graph@));
        }
        let out = (r, graph);
        assert(call_ensures(f, (witness,), out.0));
        out
    }
}

/// The empty struct, the type of nodes that carry no value.
pub open spec fn unit_shape() -> Shape {
    Shape::Struct(Seq::<TypeId>::empty())
}

} // verus!
