//! The proxy layer: lightweight handles over nodes, and the operations that
//! turn host syntax into recorded instructions.
use vstd::prelude::*;
use crate::context::{block_in_range, grows, lemma_grows_refl, lemma_grows_trans, Context, ContextView};
use crate::error::Error;
use crate::graph::{Func, Literal, NodeRef, NodeView, Op};
use crate::policy::{
    arity, broadcast, call_shape, component, component_type, infer_call,
    lemma_call_shape_well_formed, lemma_component_well_formed,
};
use crate::types::{grounded, intern, well_formed, Primitive, Shape, Type, TypeId};

verus! {

/// A handle over one node: the value that node computes. It is a plain
/// copyable value and owns nothing of the graph.
#[derive(Clone, Copy, PartialEq, Eq, Structural, Debug)]
pub struct Expr {
    pub node: NodeRef,
}

/// The nodes that the handles name, in order.
pub open spec fn nodes_of(args: Seq<Expr>) -> Seq<NodeRef> {
    Seq::new(args.len(), |i: int| args[i].node)
}

/// The types of the nodes, in order.
pub open spec fn operand_shapes(v: ContextView, operands: Seq<NodeRef>) -> Seq<Shape> {
    Seq::new(operands.len(), |i: int| v.shape(operands[i]))
}

/// The context after `shape` was interned and the current builder recorded
/// a node of that type.
pub open spec fn recorded(v: ContextView, op: Op, operands: Seq<NodeRef>, shape: Shape) -> ContextView {
    v.with_types(intern(v.types, shape).0).appended(
        NodeView { op, operands, ty: TypeId { index: intern(v.types, shape).1 as usize } },
    )
}

/// How an operation that records at most one node ends: where the check of
/// its operands gives a type, it records the node with that type and
/// returns the new node's handle; where the check gives an error, it
/// returns that error and changes nothing.
pub open spec fn outcome(
    before: ContextView,
    after: ContextView,
    op: Op,
    operands: Seq<NodeRef>,
    check: Result<Shape, Error>,
    result: Result<Expr, Error>,
) -> bool {
    match check {
        Ok(shape) => result == Ok::<Expr, Error>(Expr { node: before.next() }) && after == recorded(
            before,
            op,
            operands,
            shape,
        ),
        Err(e) => result == Err::<Expr, Error>(e) && after == before,
    }
}

/// The check of a call of a built-in function: every operand must be a
/// node of the current builder, and the function must accept their types.
pub open spec fn call_check(v: ContextView, f: Func, operands: Seq<NodeRef>) -> Result<
    Shape,
    Error,
> {
    if !v.holds_all(operands) {
        Err(Error::UnknownNode)
    } else {
        match call_shape(f, operand_shapes(v, operands)) {
            Some(shape) => Ok(shape),
            None => Err(Error::TypeMismatch),
        }
    }
}

/// The scalar type of a constant.
pub open spec fn literal_shape(value: Literal) -> Shape {
    match value {
        Literal::Bool(_) => Shape::Scalar(Primitive::Bool),
        Literal::Int32(_) => Shape::Scalar(Primitive::Int32),
        Literal::Uint32(_) => Shape::Scalar(Primitive::Uint32),
        Literal::Float32(_) => Shape::Scalar(Primitive::Float32),
    }
}

/// Every interned type is well formed against the whole table.
pub proof fn lemma_interned_well_formed(types: Seq<Shape>, i: int)
    requires
        grounded(types),
        0 <= i < types.len(),
    ensures
        well_formed(types[i], types.len()),
{
    crate::types::lemma_well_formed_grows(types[i], i as nat, types.len());
}

/// Interns `shape` and records one node of that type in the current
/// builder.
pub(crate) fn record(ctx: &mut Context, op: Op, operands: Vec<NodeRef>, shape: Type) -> (n: NodeRef)
    requires
        old(ctx).wf(),
        old(ctx)@.active(),
        well_formed(shape@, old(ctx)@.types.len()),
        old(ctx)@.holds_all(operands@),
        block_in_range(op, old(ctx)@.current().nodes.len()),
    ensures
        final(ctx).wf(),
        n == old(ctx)@.next(),
        final(ctx)@ == recorded(old(ctx)@, op, operands@, shape@),
        grows(old(ctx)@, final(ctx)@),
        final(ctx)@.holds(n),
        final(ctx)@.shape(n) == shape@,
{
    let ghost before = ctx@;
    let ty = ctx.register_type(shape).unwrap();
    let ghost mid = ctx@;
    proof {
        assert(mid.stack == before.stack);
        assert(mid.holds_all(operands@)) by {
            assert forall|k: int| 0 <= k < operands@.len() implies mid.holds(
                #[trigger] operands@[k],
            ) by {
                assert(before.holds(operands@[k]));
            }
        }
        lemma_grows_refl(before);
        assert(grows(before, mid)) by {
            assert(mid.current().nodes.take(before.current().nodes.len() as int)
                =~= before.current().nodes);
        }
    }
    let r = ctx.emit(op, operands, ty);
    proof {
        lemma_grows_trans(before, mid, ctx@);
    }
    r.unwrap()
}

/// How a binary operation ends. Both operands must be nodes of the current
/// builder. Where one is a scalar and the other a vector of the same
/// element kind, and the function accepts two such vectors, the scalar is
/// first widened by a `Splat` node and the function is applied to the
/// widened node and the vector: two nodes are recorded. Otherwise the
/// function is applied to the operands as they are.
pub open spec fn binary_spec(
    before: ContextView,
    after: ContextView,
    f: Func,
    lhs: NodeRef,
    rhs: NodeRef,
    result: Result<Expr, Error>,
) -> bool {
    if !before.holds(lhs) || !before.holds(rhs) {
        result == Err::<Expr, Error>(Error::UnknownNode) && after == before
    } else {
        match broadcast(before.shape(lhs), before.shape(rhs)) {
            None => outcome(
                before,
                after,
                Op::Call(f),
                seq![lhs, rhs],
                match call_shape(f, seq![before.shape(lhs), before.shape(rhs)]) {
                    Some(shape) => Ok(shape),
                    None => Err(Error::TypeMismatch),
                },
                result,
            ),
            Some((left, n)) => {
                let wide = if left {
                    before.shape(rhs)
                } else {
                    before.shape(lhs)
                };
                let narrow = if left {
                    lhs
                } else {
                    rhs
                };
                let widened = recorded(before, Op::Call(Func::Splat(n as u32)), seq![narrow], wide);
                let operands = if left {
                    seq![before.next(), rhs]
                } else {
                    seq![lhs, before.next()]
                };
                match call_shape(f, seq![wide, wide]) {
                    None => result == Err::<Expr, Error>(Error::TypeMismatch) && after == before,
                    Some(shape) => result == Ok::<Expr, Error>(Expr { node: widened.next() })
                        && after == recorded(widened, Op::Call(f), operands, shape),
                }
            },
        }
    }
}

/// The check of a component read: the receiver must be a node of the
/// current builder, must have components, and `index` must be below its
/// arity. It gives the component's type.
pub open spec fn extract_check(v: ContextView, receiver: NodeRef, index: u32) -> Result<
    Shape,
    Error,
> {
    if !v.holds(receiver) {
        Err(Error::UnknownNode)
    } else if v.shape(receiver) is Scalar {
        Err(Error::TypeMismatch)
    } else if index >= arity(v.shape(receiver)) {
        Err(Error::IndexOutOfRange)
    } else {
        Ok(component(v.types, v.shape(receiver), index as nat).unwrap())
    }
}

/// The check of a component replacement: as for a read, and the new value
/// must be a node of the current builder of the component's type. It gives
/// the receiver's type.
pub open spec fn insert_check(v: ContextView, receiver: NodeRef, index: u32, value: NodeRef) -> Result<
    Shape,
    Error,
> {
    if !v.holds(receiver) || !v.holds(value) {
        Err(Error::UnknownNode)
    } else {
        match extract_check(v, receiver, index) {
            Err(e) => Err(e),
            Ok(part) => if v.shape(value) == part {
                Ok(v.shape(receiver))
            } else {
                Err(Error::TypeMismatch)
            },
        }
    }
}

/// Part `i` has the type of component `i` of `whole`.
pub open spec fn part_fits(v: ContextView, whole: Shape, parts: Seq<NodeRef>, i: int) -> bool {
    component(v.types, whole, i as nat) == Some(v.shape(parts[i]))
}

/// The check of a composition: the parts must be nodes of the current
/// builder, the target type must be interned and have as many components
/// as there are parts, and each part must have the type of its component.
/// It gives the target type.
pub open spec fn compose_check(v: ContextView, target: TypeId, parts: Seq<NodeRef>) -> Result<
    Shape,
    Error,
> {
    if !v.holds_all(parts) {
        Err(Error::UnknownNode)
    } else if target.index >= v.types.len() {
        Err(Error::InvalidType)
    } else if v.types[target.index as int] is Scalar || arity(v.types[target.index as int])
        != parts.len() {
        Err(Error::TypeMismatch)
    } else if !(forall|i: int|
        0 <= i < parts.len() ==> #[trigger] part_fits(v, v.types[target.index as int], parts, i)) {
        Err(Error::TypeMismatch)
    } else {
        Ok(v.types[target.index as int])
    }
}

/// How building a value of a given type from its parts ends. A malformed
/// type is refused and nothing changes. Otherwise the type is interned,
/// and the parts are composed into a value of it; where the composition is
/// refused the type stays interned and no node is recorded.
pub open spec fn build_spec(
    before: ContextView,
    after: ContextView,
    shape: Shape,
    parts: Seq<NodeRef>,
    result: Result<Expr, Error>,
) -> bool {
    if !well_formed(shape, before.types.len()) {
        result == Err::<Expr, Error>(Error::InvalidType) && after == before
    } else {
        let mid = before.with_types(intern(before.types, shape).0);
        let target = TypeId { index: intern(before.types, shape).1 as usize };
        outcome(mid, after, Op::Compose, parts, compose_check(mid, target, parts), result)
    }
}

/// The type of every component of a vector or a matrix: the element of
/// the vector, the column of the matrix.
pub open spec fn part_of(whole: Shape) -> Shape {
    match whole {
        Shape::Matrix(p, n) => Shape::Vector(p, n),
        Shape::Vector(p, _) => Shape::Scalar(p),
        _ => whole,
    }
}

/// Every node of `parts` is a node of the current builder of type `part`.
pub open spec fn all_of(v: ContextView, parts: Seq<NodeRef>, part: Shape) -> bool {
    forall|k: int| 0 <= k < parts.len() ==> v.has(#[trigger] parts[k], part)
}

/// How making a vector or a matrix of type `whole` from as many parts as
/// it has components ends. It succeeds exactly where every part is a node
/// of the current builder of the component type; then the type is
/// interned and one `Compose` node is recorded. Otherwise only the type
/// is interned; the error is `UnknownNode` where a part is not a node of
/// the current builder, else `TypeMismatch`.
pub open spec fn uniform_spec(
    before: ContextView,
    after: ContextView,
    whole: Shape,
    parts: Seq<NodeRef>,
    result: Result<Expr, Error>,
) -> bool {
    match result {
        Ok(e) => {
            &&& all_of(before, parts, part_of(whole))
            &&& e.node == before.next()
            &&& after == recorded(before, Op::Compose, parts, whole)
            &&& after.has(e.node, whole)
        },
        Err(err) => {
            &&& !all_of(before, parts, part_of(whole))
            &&& after == before.with_types(intern(before.types, whole).0)
            &&& err == if before.holds_all(parts) {
                Error::TypeMismatch
            } else {
                Error::UnknownNode
            }
        },
    }
}

impl Expr {
    /// The handle over the node `node`.
    pub fn from_node(node: NodeRef) -> (e: Expr)
        ensures
            e.node == node,
    {
        Expr { node }
    }

    /// The node the handle names.
    pub fn node(&self) -> (n: NodeRef)
        ensures
            n == self.node,
    {
        self.node
    }

    /// Records a constant and gives its handle.
    pub fn constant(ctx: &mut Context, value: Literal) -> (e: Expr)
        requires
            old(ctx).wf(),
            old(ctx)@.active(),
        ensures
            final(ctx).wf(),
            grows(old(ctx)@, final(ctx)@),
            e.node == old(ctx)@.next(),
            final(ctx)@ == recorded(
                old(ctx)@,
                Op::Literal(value),
                Seq::<NodeRef>::empty(),
                literal_shape(value),
            ),
            final(ctx)@.holds(e.node),
            final(ctx)@.shape(e.node) == literal_shape(value),
    {
        let shape = match value {
            Literal::Bool(_) => Type::Scalar(Primitive::Bool),
            Literal::Int32(_) => Type::Scalar(Primitive::Int32),
            Literal::Uint32(_) => Type::Scalar(Primitive::Uint32),
            Literal::Float32(_) => Type::Scalar(Primitive::Float32),
        };
        let node = record(ctx, Op::Literal(value), Vec::new(), shape);
        Expr { node }
    }

    /// Applies a built-in function: checks that the current builder holds
    /// every operand and that the function accepts their types, then
    /// records exactly one call node of the type the function yields.
    pub fn call(ctx: &mut Context, f: Func, args: &Vec<Expr>) -> (result: Result<Expr, Error>)
        requires
            old(ctx).wf(),
            old(ctx)@.active(),
        ensures
            final(ctx).wf(),
            grows(old(ctx)@, final(ctx)@),
            outcome(
                old(ctx)@,
                final(ctx)@,
                Op::Call(f),
                nodes_of(args@),
                call_check(old(ctx)@, f, nodes_of(args@)),
                result,
            ),
    {
        let ghost before = ctx@;
        let ghost wanted = nodes_of(args@);
        proof {
            lemma_grows_refl(before);
        }
        let mut operands: Vec<NodeRef> = Vec::new();
        let mut ids: Vec<TypeId> = Vec::new();
        let mut k: usize = 0;
        while k < args.len()
            invariant
                k <= args.len(),
                ctx.wf(),
                ctx@ == before,
                grows(before, before),
                wanted == nodes_of(args@),
                operands@ == wanted.take(k as int),
                ids@.len() == k,
                forall|j: int| 0 <= j < k ==> before.holds(#[trigger] wanted[j]),
                forall|j: int|
                    0 <= j < k ==> (#[trigger] ids@[j]) == before.node(wanted[j]).ty && ids@[j].index
                        < before.types.len(),
            decreases args.len() - k,
        {
            let node = args[k].node;
            match ctx.type_of(node) {
                None => {
                    assert(!before.holds(wanted[k as int]));
                    return Err(Error::UnknownNode);
                },
                Some(ty) => {
                    operands.push(node);
                    ids.push(ty);
                    assert(wanted.take(k + 1) =~= wanted.take(k as int).push(wanted[k as int]));
                },
            }
            k += 1;
        }
        assert(operands@ =~= wanted);
        assert(before.holds_all(wanted));
        let shape = {
            let registry = ctx.types();
            let mut kinds: Vec<&Type> = Vec::new();
            let mut j: usize = 0;
            while j < ids.len()
                invariant
                    j <= ids.len(),
                    ids@.len() == wanted.len(),
                    registry@ == before.types,
                    kinds@.len() == j,
                    forall|i: int|
                        0 <= i < ids@.len() ==> (#[trigger] ids@[i]) == before.node(wanted[i]).ty
                            && ids@[i].index < before.types.len(),
                    forall|i: int| 0 <= i < j ==> (#[trigger] kinds@[i])@ == before.shape(wanted[i]),
                decreases ids.len() - j,
            {
                let kind = registry.get(ids[j]).unwrap();
                kinds.push(kind);
                j += 1;
            }
            assert(crate::policy::shapes(kinds@) =~= operand_shapes(before, wanted));
            infer_call(f, &kinds)
        };
        match shape {
            None => Err(Error::TypeMismatch),
            Some(shape) => {
                proof {
                    let given = operand_shapes(before, wanted);
                    assert forall|i: int| 0 <= i < given.len() implies well_formed(
                        #[trigger] given[i],
                        before.types.len(),
                    ) by {
                        assert(before.holds(wanted[i]));
                        lemma_interned_well_formed(
                            before.types,
                            before.node(wanted[i]).ty.index as int,
                        );
                    }
                    lemma_call_shape_well_formed(f, given, before.types.len());
                }
                let node = record(ctx, Op::Call(f), operands, shape);
                Ok(Expr { node })
            },
        }
    }

    /// Which operand of a binary operation is widened, and to how many
    /// lanes.
    fn plan(lhs: &Type, rhs: &Type) -> (widen: Option<(bool, u32)>)
        ensures
            match widen {
                Some((left, n)) => broadcast(lhs@, rhs@) == Some((left, n as nat)),
                None => broadcast(lhs@, rhs@).is_none(),
            },
    {
        match lhs {
            Type::Scalar(p) => match rhs {
                Type::Vector(q, n) => if *p == *q {
                    Some((true, *n))
                } else {
                    None
                },
                _ => None,
            },
            Type::Vector(p, n) => match rhs {
                Type::Scalar(q) => if *p == *q {
                    Some((false, *n))
                } else {
                    None
                },
                _ => None,
            },
            _ => None,
        }
    }

    /// Applies a binary built-in function, widening a scalar operand to the
    /// vector type of the other where the element kinds agree.
    pub fn binary(ctx: &mut Context, f: Func, lhs: Expr, rhs: Expr) -> (result: Result<Expr, Error>)
        requires
            old(ctx).wf(),
            old(ctx)@.active(),
        ensures
            final(ctx).wf(),
            grows(old(ctx)@, final(ctx)@),
            binary_spec(old(ctx)@, final(ctx)@, f, lhs.node, rhs.node, result),
    {
        let ghost before = ctx@;
        proof {
            lemma_grows_refl(before);
        }
        let lt = match ctx.type_of(lhs.node) {
            None => {
                return Err(Error::UnknownNode);
            },
            Some(t) => t,
        };
        let rt = match ctx.type_of(rhs.node) {
            None => {
                return Err(Error::UnknownNode);
            },
            Some(t) => t,
        };
        let (widen, accepted) = {
            let a = ctx.type_shape(lt).unwrap();
            let b = ctx.type_shape(rt).unwrap();
            let widen = Self::plan(a, b);
            let accepted = match widen {
                Some((left, _)) => {
                    let wide = if left {
                        b
                    } else {
                        a
                    };
                    let both: Vec<&Type> = vec![wide, wide];
                    assert(crate::policy::shapes(both@) =~= seq![wide@, wide@]);
                    infer_call(f, &both).is_some()
                },
                None => true,
            };
            (widen, accepted)
        };
        match widen {
            None => {
                let args = vec![lhs, rhs];
                proof {
                    let both = seq![lhs.node, rhs.node];
                    assert(nodes_of(args@) =~= both);
                    assert(before.holds_all(both));
                    assert(operand_shapes(before, both) =~= seq![
                        before.shape(lhs.node),
                        before.shape(rhs.node),
                    ]);
                }
                Expr::call(ctx, f, &args)
            },
            Some((left, n)) => {
                if !accepted {
                    return Err(Error::TypeMismatch);
                }
                let ghost wide = if left {
                    before.shape(rhs.node)
                } else {
                    before.shape(lhs.node)
                };
                let narrow = if left {
                    lhs
                } else {
                    rhs
                };
                let first = vec![narrow];
                proof {
                    assert(nodes_of(first@) =~= seq![narrow.node]);
                    assert(before.holds_all(seq![narrow.node]));
                    assert(operand_shapes(before, seq![narrow.node]) =~= seq![
                        before.shape(narrow.node),
                    ]);
                    lemma_interned_well_formed(before.types, if left {
                        rt.index as int
                    } else {
                        lt.index as int
                    });
                }
                let widened = Expr::call(ctx, Func::Splat(n), &first);
                let ghost mid = ctx@;
                let s = widened.unwrap();
                let second = if left {
                    vec![s, rhs]
                } else {
                    vec![lhs, s]
                };
                proof {
                    let kept = if left {
                        rhs.node
                    } else {
                        lhs.node
                    };
                    crate::context::lemma_grows_keeps(before, mid, kept);
                    let operands = if left {
                        seq![s.node, rhs.node]
                    } else {
                        seq![lhs.node, s.node]
                    };
                    assert(nodes_of(second@) =~= operands);
                    assert(mid.holds(s.node));
                    assert(mid.shape(s.node) == wide);
                    assert(mid.holds_all(operands));
                    assert(operand_shapes(mid, operands) =~= seq![wide, wide]);
                }
                let result = Expr::call(ctx, f, &second);
                proof {
                    lemma_grows_trans(before, mid, ctx@);
                }
                result
            },
        }
    }

    /// Reads component `index` of the value: an element of a vector, a
    /// column of a matrix, a field of a struct, an element of an array.
    /// Records one `Extract` node of the component's type.
    pub fn extract(&self, ctx: &mut Context, index: u32) -> (result: Result<Expr, Error>)
        requires
            old(ctx).wf(),
            old(ctx)@.active(),
        ensures
            final(ctx).wf(),
            grows(old(ctx)@, final(ctx)@),
            outcome(
                old(ctx)@,
                final(ctx)@,
                Op::Extract(index),
                seq![self.node],
                extract_check(old(ctx)@, self.node, index),
                result,
            ),
    {
        let ghost before = ctx@;
        proof {
            lemma_grows_refl(before);
        }
        let ty = match ctx.type_of(self.node) {
            None => {
                return Err(Error::UnknownNode);
            },
            Some(t) => t,
        };
        proof {
            lemma_interned_well_formed(before.types, ty.index as int);
        }
        let part = {
            let whole = ctx.type_shape(ty).unwrap();
            match whole {
                Type::Scalar(_) => {
                    return Err(Error::TypeMismatch);
                },
                _ => component_type(ctx.types(), whole, index as u64),
            }
        };
        match part {
            None => Err(Error::IndexOutOfRange),
            Some(part) => {
                proof {
                    assert(before.types.contains(before.types[ty.index as int]));
                    lemma_component_well_formed(
                        before.types,
                        before.types[ty.index as int],
                        index as nat,
                    );
                }
                let operands = vec![self.node];
                assert(operands@ =~= seq![self.node]);
                let node = record(ctx, Op::Extract(index), operands, part);
                Ok(Expr { node })
            },
        }
    }

    /// The value with component `index` replaced by `value`. The receiver
    /// is not touched: one `Insert` node of the receiver's type is recorded
    /// and its handle returned.
    pub fn insert(&self, ctx: &mut Context, index: u32, value: Expr) -> (result: Result<Expr, Error>)
        requires
            old(ctx).wf(),
            old(ctx)@.active(),
        ensures
            final(ctx).wf(),
            grows(old(ctx)@, final(ctx)@),
            outcome(
                old(ctx)@,
                final(ctx)@,
                Op::Insert(index),
                seq![self.node, value.node],
                insert_check(old(ctx)@, self.node, index, value.node),
                result,
            ),
    {
        let ghost before = ctx@;
        proof {
            lemma_grows_refl(before);
        }
        let ty = match ctx.type_of(self.node) {
            None => {
                return Err(Error::UnknownNode);
            },
            Some(t) => t,
        };
        let given = match ctx.type_of(value.node) {
            None => {
                return Err(Error::UnknownNode);
            },
            Some(t) => t,
        };
        proof {
            lemma_interned_well_formed(before.types, ty.index as int);
        }
        let shape = {
            let whole = ctx.type_shape(ty).unwrap();
            let part = match whole {
                Type::Scalar(_) => {
                    return Err(Error::TypeMismatch);
                },
                _ => component_type(ctx.types(), whole, index as u64),
            };
            match part {
                None => {
                    return Err(Error::IndexOutOfRange);
                },
                Some(part) => {
                    if !ctx.type_shape(given).unwrap().same(&part) {
                        return Err(Error::TypeMismatch);
                    }
                    whole.duplicate()
                },
            }
        };
        let operands = vec![self.node, value.node];
        proof {
            assert(operands@ =~= seq![self.node, value.node]);
            crate::types::lemma_well_formed_grows(
                before.types[ty.index as int],
                before.types.len(),
                before.types.len(),
            );
        }
        let node = record(ctx, Op::Insert(index), operands, shape);
        Ok(Expr { node })
    }

    /// A value of the interned type `target` made of `parts`, one per
    /// component and in their order. Records one `Compose` node.
    pub fn compose(ctx: &mut Context, target: TypeId, parts: &Vec<Expr>) -> (result: Result<
        Expr,
        Error,
    >)
        requires
            old(ctx).wf(),
            old(ctx)@.active(),
        ensures
            final(ctx).wf(),
            grows(old(ctx)@, final(ctx)@),
            outcome(
                old(ctx)@,
                final(ctx)@,
                Op::Compose,
                nodes_of(parts@),
                compose_check(old(ctx)@, target, nodes_of(parts@)),
                result,
            ),
    {
        let ghost before = ctx@;
        let ghost wanted = nodes_of(parts@);
        proof {
            lemma_grows_refl(before);
        }
        let mut operands: Vec<NodeRef> = Vec::new();
        let mut ids: Vec<TypeId> = Vec::new();
        let mut k: usize = 0;
        while k < parts.len()
            invariant
                k <= parts.len(),
                ctx.wf(),
                ctx@ == before,
                grows(before, before),
                wanted == nodes_of(parts@),
                operands@ == wanted.take(k as int),
                ids@.len() == k,
                forall|j: int| 0 <= j < k ==> before.holds(#[trigger] wanted[j]),
                forall|j: int|
                    0 <= j < k ==> (#[trigger] ids@[j]) == before.node(wanted[j]).ty && ids@[j].index
                        < before.types.len(),
            decreases parts.len() - k,
        {
            let node = parts[k].node;
            match ctx.type_of(node) {
                None => {
                    assert(!before.holds(wanted[k as int]));
                    return Err(Error::UnknownNode);
                },
                Some(ty) => {
                    operands.push(node);
                    ids.push(ty);
                    assert(wanted.take(k + 1) =~= wanted.take(k as int).push(wanted[k as int]));
                },
            }
            k += 1;
        }
        assert(operands@ =~= wanted);
        assert(before.holds_all(wanted));
        let shape = {
            let registry = ctx.types();
            let whole = match registry.get(target) {
                None => {
                    return Err(Error::InvalidType);
                },
                Some(whole) => whole,
            };
            proof {
                lemma_interned_well_formed(before.types, target.index as int);
            }
            match whole {
                Type::Scalar(_) => {
                    return Err(Error::TypeMismatch);
                },
                _ => {},
            }
            let mut i: usize = 0;
            while i < ids.len()
                invariant
                    i <= ids.len(),
                    ids@.len() == wanted.len(),
                    grows(before, before),
                    ctx@ == before,
                    registry@ == before.types,
                    registry.wf(),
                    ctx.wf(),
                    wanted == nodes_of(parts@),
                    before.holds_all(wanted),
                    target.index < before.types.len(),
                    whole@ == before.types[target.index as int],
                    !(whole@ is Scalar),
                    well_formed(whole@, before.types.len()),
                    forall|j: int|
                        0 <= j < ids@.len() ==> (#[trigger] ids@[j]) == before.node(wanted[j]).ty
                            && ids@[j].index < before.types.len(),
                    forall|j: int| 0 <= j < i ==> #[trigger] part_fits(before, whole@, wanted, j),
                decreases ids.len() - i,
            {
                let part = component_type(registry, whole, i as u64);
                match part {
                    None => {
                        assert(!part_fits(before, whole@, wanted, i as int));
                        return Err(Error::TypeMismatch);
                    },
                    Some(part) => {
                        if !registry.get(ids[i]).unwrap().same(&part) {
                            assert(!part_fits(before, whole@, wanted, i as int));
                            return Err(Error::TypeMismatch);
                        }
                    },
                }
                i += 1;
            }
            if component_type(registry, whole, ids.len() as u64).is_some() {
                return Err(Error::TypeMismatch);
            }
            proof {
                if wanted.len() > 0 {
                    assert(part_fits(before, whole@, wanted, wanted.len() - 1));
                }
                lemma_arity_reached(before.types, whole@, wanted.len());
            }
            whole.duplicate()
        };
        proof {
            crate::types::lemma_well_formed_grows(
                before.types[target.index as int],
                before.types.len(),
                before.types.len(),
            );
        }
        let node = record(ctx, Op::Compose, operands, shape);
        Ok(Expr { node })
    }
}

impl Expr {
    /// A value of the type `shape` made of `parts`, one per component and
    /// in their order. Interns the type, then records one `Compose` node.
    pub fn build(ctx: &mut Context, shape: Type, parts: &Vec<Expr>) -> (result: Result<Expr, Error>)
        requires
            old(ctx).wf(),
            old(ctx)@.active(),
        ensures
            final(ctx).wf(),
            grows(old(ctx)@, final(ctx)@),
            build_spec(old(ctx)@, final(ctx)@, shape@, nodes_of(parts@), result),
    {
        let ghost before = ctx@;
        proof {
            lemma_grows_refl(before);
        }
        match ctx.register_type(shape) {
            Err(e) => Err(e),
            Ok(target) => {
                let ghost mid = ctx@;
                proof {
                    assert(grows(before, mid)) by {
                        assert(mid.current().nodes.take(before.current().nodes.len() as int)
                            =~= before.current().nodes);
                    }
                }
                let result = Expr::compose(ctx, target, parts);
                proof {
                    lemma_grows_trans(before, mid, ctx@);
                }
                result
            },
        }
    }
}

impl Expr {
    /// A vector or a matrix of the type `whole` made of `parts`, one per
    /// component.
    pub(crate) fn uniform(ctx: &mut Context, whole: Type, parts: &Vec<Expr>) -> (result: Result<
        Expr,
        Error,
    >)
        requires
            old(ctx).wf(),
            old(ctx)@.active(),
            whole@ is Vector || whole@ is Matrix,
            well_formed(whole@, 0),
            arity(whole@) == parts@.len(),
        ensures
            final(ctx).wf(),
            grows(old(ctx)@, final(ctx)@),
            uniform_spec(old(ctx)@, final(ctx)@, whole@, nodes_of(parts@), result),
    {
        let ghost before = ctx@;
        let ghost shape = whole@;
        let ghost wanted = nodes_of(parts@);
        proof {
            crate::types::lemma_well_formed_grows(shape, 0, before.types.len());
        }
        let result = Expr::build(ctx, whole, parts);
        proof {
            let mid = before.with_types(intern(before.types, shape).0);
            let target = TypeId { index: intern(before.types, shape).1 as usize };
            assert(mid.types[target.index as int] == shape) by {
                if before.types.contains(shape) {
                    let at = before.types.index_of(shape);
                    assert(0 <= at < before.types.len() && before.types[at] == shape);
                }
            }
            assert(mid.types.contains(shape));
            assert(intern(mid.types, shape).0 == mid.types);
            assert(intern(mid.types, shape).1 == target.index) by {
                let at = mid.types.index_of(shape);
                assert(0 <= at < mid.types.len() && mid.types[at] == shape);
                crate::types::lemma_intern_idempotent(before.types, shape, shape);
            }
            assert forall|k: int| 0 <= k < wanted.len() implies (before.holds(wanted[k])
                == mid.holds(wanted[k])) by {}
            if mid.holds_all(wanted) {
                assert forall|k: int| 0 <= k < wanted.len() implies part_fits(
                    mid,
                    shape,
                    wanted,
                    k,
                ) == before.has(#[trigger] wanted[k], part_of(shape)) by {
                    assert(mid.holds(wanted[k]));
                    assert(crate::context::typed(
                        before.stack[before.stack.len() - 1].nodes,
                        before.types.len(),
                    ));
                    let t = before.node(wanted[k]).ty.index as int;
                    assert(mid.types.take(before.types.len() as int)[t] == mid.types[t]);
                }
                if all_of(before, wanted, part_of(shape)) {
                    assert forall|k: int| 0 <= k < wanted.len() implies #[trigger] part_fits(
                        mid,
                        shape,
                        wanted,
                        k,
                    ) by {
                        assert(before.has(wanted[k], part_of(shape)));
                    }
                } else {
                    let k = choose|k: int|
                        0 <= k < wanted.len() && !before.has(#[trigger] wanted[k], part_of(shape));
                    assert(!part_fits(mid, shape, wanted, k));
                }
            } else {
                let k = choose|k: int| 0 <= k < wanted.len() && !mid.holds(#[trigger] wanted[k]);
                assert(!before.has(wanted[k], part_of(shape)));
                assert(!before.holds_all(wanted));
            }
            if before.holds_all(wanted) {
                assert forall|k: int| 0 <= k < wanted.len() implies mid.holds(
                    #[trigger] wanted[k],
                ) by {
                    assert(before.holds(wanted[k]));
                }
            }
            if result is Ok {
                let made = result->Ok_0;
                assert(ctx@ == recorded(before, Op::Compose, wanted, shape));
                assert(ctx@.has(made.node, shape));
            }
        }
        result
    }
}

/// A type that has a component just below index `n`, where `n` is not
/// zero, and none at `n` has arity `n`.
pub proof fn lemma_arity_reached(types: Seq<Shape>, s: Shape, n: nat)
    requires
        !(s is Scalar),
        n > 0 ==> component(types, s, (n - 1) as nat).is_some(),
        component(types, s, n).is_none(),
    ensures
        arity(s) == n,
{
}

} // verus!
