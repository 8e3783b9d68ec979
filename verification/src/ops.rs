//! The named operations of the proxy layer. Each checks its operands, then
//! records the node or nodes that compute it.
use vstd::prelude::*;
use crate::context::{grows, lemma_grows_refl, lemma_grows_trans, Context, ContextView};
use crate::error::Error;
use crate::expr::{
    binary_spec, call_check, extract_check, insert_check, literal_shape, nodes_of, operand_shapes,
    outcome, recorded, Expr,
};
use crate::graph::{Func, Literal, NodeRef, Op};
use crate::policy::{arity_ok, call_shape, float_vector};
use crate::types::{Primitive, Shape, Type, MAX_ARITY, MIN_ARITY};

verus! {

/// The check of a call on one operand.
pub open spec fn unary_check(v: ContextView, f: Func, a: NodeRef) -> Result<Shape, Error> {
    if !v.holds(a) {
        Err(Error::UnknownNode)
    } else {
        match call_shape(f, seq![v.shape(a)]) {
            Some(shape) => Ok(shape),
            None => Err(Error::TypeMismatch),
        }
    }
}

/// The check of a call on two operands, taken as they are.
pub open spec fn pair_check(v: ContextView, f: Func, a: NodeRef, b: NodeRef) -> Result<Shape, Error> {
    if !v.holds(a) || !v.holds(b) {
        Err(Error::UnknownNode)
    } else {
        match call_shape(f, seq![v.shape(a), v.shape(b)]) {
            Some(shape) => Ok(shape),
            None => Err(Error::TypeMismatch),
        }
    }
}

/// The check of a call on three operands.
pub open spec fn triple_check(v: ContextView, f: Func, a: NodeRef, b: NodeRef, c: NodeRef) -> Result<
    Shape,
    Error,
> {
    if !v.holds(a) || !v.holds(b) || !v.holds(c) {
        Err(Error::UnknownNode)
    } else {
        match call_shape(f, seq![v.shape(a), v.shape(b), v.shape(c)]) {
            Some(shape) => Ok(shape),
            None => Err(Error::TypeMismatch),
        }
    }
}

/// How the call of a built-in function on one operand ends.
pub open spec fn unary_spec(
    before: ContextView,
    after: ContextView,
    f: Func,
    a: NodeRef,
    result: Result<Expr, Error>,
) -> bool {
    outcome(before, after, Op::Call(f), seq![a], unary_check(before, f, a), result)
}

/// How the call of a built-in function on two operands, taken as they are,
/// ends.
pub open spec fn pair_spec(
    before: ContextView,
    after: ContextView,
    f: Func,
    a: NodeRef,
    b: NodeRef,
    result: Result<Expr, Error>,
) -> bool {
    outcome(before, after, Op::Call(f), seq![a, b], pair_check(before, f, a, b), result)
}

/// How the call of a built-in function on three operands ends.
pub open spec fn triple_spec(
    before: ContextView,
    after: ContextView,
    f: Func,
    a: NodeRef,
    b: NodeRef,
    c: NodeRef,
    result: Result<Expr, Error>,
) -> bool {
    outcome(before, after, Op::Call(f), seq![a, b, c], triple_check(before, f, a, b, c), result)
}

/// The checks of calls on one, two and three operands are the general
/// check on the sequence of those operands.
pub proof fn lemma_checks_agree(v: ContextView, f: Func, a: NodeRef, b: NodeRef, c: NodeRef)
    ensures
        unary_check(v, f, a) == call_check(v, f, seq![a]),
        pair_check(v, f, a, b) == call_check(v, f, seq![a, b]),
        triple_check(v, f, a, b, c) == call_check(v, f, seq![a, b, c]),
{
    let one = seq![a];
    let two = seq![a, b];
    let three = seq![a, b, c];
    assert(operand_shapes(v, one) =~= seq![v.shape(a)]);
    assert(operand_shapes(v, two) =~= seq![v.shape(a), v.shape(b)]);
    assert(operand_shapes(v, three) =~= seq![v.shape(a), v.shape(b), v.shape(c)]);
    assert(v.holds_all(one) == v.holds(a)) by {
        if v.holds_all(one) {
            assert(v.holds(one[0]));
        }
    }
    assert(v.holds_all(two) == (v.holds(a) && v.holds(b))) by {
        if v.holds_all(two) {
            assert(v.holds(two[0]) && v.holds(two[1]));
        }
    }
    assert(v.holds_all(three) == (v.holds(a) && v.holds(b) && v.holds(c))) by {
        if v.holds_all(three) {
            assert(v.holds(three[0]) && v.holds(three[1]) && v.holds(three[2]));
        }
    }
}

/// How a component read ends.
pub open spec fn extract_spec(
    before: ContextView,
    after: ContextView,
    receiver: NodeRef,
    index: u32,
    result: Result<Expr, Error>,
) -> bool {
    outcome(
        before,
        after,
        Op::Extract(index),
        seq![receiver],
        extract_check(before, receiver, index),
        result,
    )
}

/// How a component replacement ends.
pub open spec fn insert_spec(
    before: ContextView,
    after: ContextView,
    receiver: NodeRef,
    index: u32,
    value: NodeRef,
    result: Result<Expr, Error>,
) -> bool {
    outcome(
        before,
        after,
        Op::Insert(index),
        seq![receiver, value],
        insert_check(before, receiver, index, value),
        result,
    )
}

/// The bit pattern of the 32-bit float one.
pub const FLOAT_ONE: u32 = 0x3f80_0000;

/// The constant zero of a kind; for booleans, false.
pub open spec fn zero_of(element: Primitive) -> Literal {
    match element {
        Primitive::Bool => Literal::Bool(false),
        Primitive::Int32 => Literal::Int32(0),
        Primitive::Uint32 => Literal::Uint32(0),
        Primitive::Float32 => Literal::Float32(0),
    }
}

/// The constant one of a kind; for booleans, true.
pub open spec fn one_of(element: Primitive) -> Literal {
    match element {
        Primitive::Bool => Literal::Bool(true),
        Primitive::Int32 => Literal::Int32(1),
        Primitive::Uint32 => Literal::Uint32(1),
        Primitive::Float32 => Literal::Float32(FLOAT_ONE),
    }
}

/// How filling a vector with a constant ends. A lane count outside 2..=4
/// is refused and nothing changes. Otherwise the constant is recorded,
/// then the `Splat` node that widens it, whose handle is the result.
pub open spec fn filled_spec(
    before: ContextView,
    after: ContextView,
    value: Literal,
    lanes: u32,
    result: Result<Expr, Error>,
) -> bool {
    if !arity_ok(lanes as nat) {
        result == Err::<Expr, Error>(Error::TypeMismatch) && after == before
    } else {
        let scalar = recorded(
            before,
            Op::Literal(value),
            Seq::<NodeRef>::empty(),
            literal_shape(value),
        );
        let widened = recorded(
            scalar,
            Op::Call(Func::Splat(lanes)),
            seq![before.next()],
            call_shape(Func::Splat(lanes), seq![literal_shape(value)])->Some_0,
        );
        result == Ok::<Expr, Error>(Expr { node: scalar.next() }) && after == widened
    }
}

/// How measuring the difference of two vectors by `f` ends. Both must be
/// nodes of the current builder, and float vectors of one type; otherwise
/// nothing changes. The difference is recorded, then the call of `f` on
/// it, whose handle is the result.
pub open spec fn measure_spec(
    before: ContextView,
    after: ContextView,
    f: Func,
    lhs: NodeRef,
    rhs: NodeRef,
    result: Result<Expr, Error>,
) -> bool {
    if !before.holds(lhs) || !before.holds(rhs) {
        result == Err::<Expr, Error>(Error::UnknownNode) && after == before
    } else if before.shape(lhs) != before.shape(rhs) || !float_vector(before.shape(lhs)) {
        result == Err::<Expr, Error>(Error::TypeMismatch) && after == before
    } else {
        let difference = recorded(before, Op::Call(Func::Sub), seq![lhs, rhs], before.shape(lhs));
        let measured = recorded(
            difference,
            Op::Call(f),
            seq![before.next()],
            Shape::Scalar(Primitive::Float32),
        );
        result == Ok::<Expr, Error>(Expr { node: difference.next() }) && after == measured
    }
}

impl Expr {
    /// Applies `f` to one operand.
    pub fn unary(ctx: &mut Context, f: Func, a: Expr) -> (result: Result<Expr, Error>)
        requires
            old(ctx).wf(),
            old(ctx)@.active(),
        ensures
            final(ctx).wf(),
            grows(old(ctx)@, final(ctx)@),
            unary_spec(old(ctx)@, final(ctx)@, f, a.node, result),
    {
        let args = vec![a];
        proof {
            assert(nodes_of(args@) =~= seq![a.node]);
            lemma_checks_agree(ctx@, f, a.node, a.node, a.node);
        }
        Expr::call(ctx, f, &args)
    }

    /// Applies `f` to two operands, taken as they are.
    pub fn pair(ctx: &mut Context, f: Func, a: Expr, b: Expr) -> (result: Result<Expr, Error>)
        requires
            old(ctx).wf(),
            old(ctx)@.active(),
        ensures
            final(ctx).wf(),
            grows(old(ctx)@, final(ctx)@),
            pair_spec(old(ctx)@, final(ctx)@, f, a.node, b.node, result),
    {
        let args = vec![a, b];
        proof {
            assert(nodes_of(args@) =~= seq![a.node, b.node]);
            lemma_checks_agree(ctx@, f, a.node, b.node, b.node);
        }
        Expr::call(ctx, f, &args)
    }

    /// Applies `f` to three operands.
    pub fn triple(ctx: &mut Context, f: Func, a: Expr, b: Expr, c: Expr) -> (result: Result<
        Expr,
        Error,
    >)
        requires
            old(ctx).wf(),
            old(ctx)@.active(),
        ensures
            final(ctx).wf(),
            grows(old(ctx)@, final(ctx)@),
            triple_spec(old(ctx)@, final(ctx)@, f, a.node, b.node, c.node, result),
    {
        let args = vec![a, b, c];
        proof {
            assert(nodes_of(args@) =~= seq![a.node, b.node, c.node]);
            lemma_checks_agree(ctx@, f, a.node, b.node, c.node);
        }
        Expr::call(ctx, f, &args)
    }

    /// The sum `self + rhs`.
    /// A scalar operand is widened to the vector type of the other.
    pub fn add(&self, ctx: &mut Context, rhs: Expr) -> (result: Result<Expr, Error>)
        requires
            old(ctx).wf(),
            old(ctx)@.active(),
        ensures
            final(ctx).wf(),
            grows(old(ctx)@, final(ctx)@),
            binary_spec(old(ctx)@, final(ctx)@, Func::Add, self.node, rhs.node, result),
    {
        Expr::binary(ctx, Func::Add, *self, rhs)
    }

    /// The difference `self - rhs`.
    /// A scalar operand is widened to the vector type of the other.
    pub fn sub(&self, ctx: &mut Context, rhs: Expr) -> (result: Result<Expr, Error>)
        requires
            old(ctx).wf(),
            old(ctx)@.active(),
        ensures
            final(ctx).wf(),
            grows(old(ctx)@, final(ctx)@),
            binary_spec(old(ctx)@, final(ctx)@, Func::Sub, self.node, rhs.node, result),
    {
        Expr::binary(ctx, Func::Sub, *self, rhs)
    }

    /// The product `self * rhs`: the matrix product where the left operand is a
    /// matrix, else element by element.
    /// A scalar operand is widened to the vector type of the other.
    pub fn mul(&self, ctx: &mut Context, rhs: Expr) -> (result: Result<Expr, Error>)
        requires
            old(ctx).wf(),
            old(ctx)@.active(),
        ensures
            final(ctx).wf(),
            grows(old(ctx)@, final(ctx)@),
            binary_spec(old(ctx)@, final(ctx)@, Func::Mul, self.node, rhs.node, result),
    {
        Expr::binary(ctx, Func::Mul, *self, rhs)
    }

    /// The quotient `self / rhs`.
    /// A scalar operand is widened to the vector type of the other.
    pub fn div(&self, ctx: &mut Context, rhs: Expr) -> (result: Result<Expr, Error>)
        requires
            old(ctx).wf(),
            old(ctx)@.active(),
        ensures
            final(ctx).wf(),
            grows(old(ctx)@, final(ctx)@),
            binary_spec(old(ctx)@, final(ctx)@, Func::Div, self.node, rhs.node, result),
    {
        Expr::binary(ctx, Func::Div, *self, rhs)
    }

    /// The remainder `self % rhs`.
    /// A scalar operand is widened to the vector type of the other.
    pub fn rem(&self, ctx: &mut Context, rhs: Expr) -> (result: Result<Expr, Error>)
        requires
            old(ctx).wf(),
            old(ctx)@.active(),
        ensures
            final(ctx).wf(),
            grows(old(ctx)@, final(ctx)@),
            binary_spec(old(ctx)@, final(ctx)@, Func::Rem, self.node, rhs.node, result),
    {
        Expr::binary(ctx, Func::Rem, *self, rhs)
    }

    /// The bitwise or logical `self & rhs`.
    /// A scalar operand is widened to the vector type of the other.
    pub fn bitand(&self, ctx: &mut Context, rhs: Expr) -> (result: Result<Expr, Error>)
        requires
            old(ctx).wf(),
            old(ctx)@.active(),
        ensures
            final(ctx).wf(),
            grows(old(ctx)@, final(ctx)@),
            binary_spec(old(ctx)@, final(ctx)@, Func::BitAnd, self.node, rhs.node, result),
    {
        Expr::binary(ctx, Func::BitAnd, *self, rhs)
    }

    /// The bitwise or logical `self | rhs`.
    /// A scalar operand is widened to the vector type of the other.
    pub fn bitor(&self, ctx: &mut Context, rhs: Expr) -> (result: Result<Expr, Error>)
        requires
            old(ctx).wf(),
            old(ctx)@.active(),
        ensures
            final(ctx).wf(),
            grows(old(ctx)@, final(ctx)@),
            binary_spec(old(ctx)@, final(ctx)@, Func::BitOr, self.node, rhs.node, result),
    {
        Expr::binary(ctx, Func::BitOr, *self, rhs)
    }

    /// The bitwise or logical `self ^ rhs`.
    /// A scalar operand is widened to the vector type of the other.
    pub fn bitxor(&self, ctx: &mut Context, rhs: Expr) -> (result: Result<Expr, Error>)
        requires
            old(ctx).wf(),
            old(ctx)@.active(),
        ensures
            final(ctx).wf(),
            grows(old(ctx)@, final(ctx)@),
            binary_spec(old(ctx)@, final(ctx)@, Func::BitXor, self.node, rhs.node, result),
    {
        Expr::binary(ctx, Func::BitXor, *self, rhs)
    }

    /// The shift `self << rhs`.
    /// A scalar operand is widened to the vector type of the other.
    pub fn shl(&self, ctx: &mut Context, rhs: Expr) -> (result: Result<Expr, Error>)
        requires
            old(ctx).wf(),
            old(ctx)@.active(),
        ensures
            final(ctx).wf(),
            grows(old(ctx)@, final(ctx)@),
            binary_spec(old(ctx)@, final(ctx)@, Func::Shl, self.node, rhs.node, result),
    {
        Expr::binary(ctx, Func::Shl, *self, rhs)
    }

    /// The shift `self >> rhs`.
    /// A scalar operand is widened to the vector type of the other.
    pub fn shr(&self, ctx: &mut Context, rhs: Expr) -> (result: Result<Expr, Error>)
        requires
            old(ctx).wf(),
            old(ctx)@.active(),
        ensures
            final(ctx).wf(),
            grows(old(ctx)@, final(ctx)@),
            binary_spec(old(ctx)@, final(ctx)@, Func::Shr, self.node, rhs.node, result),
    {
        Expr::binary(ctx, Func::Shr, *self, rhs)
    }

    /// The lane-wise test `self < rhs`.
    /// A scalar operand is widened to the vector type of the other.
    pub fn less_than(&self, ctx: &mut Context, rhs: Expr) -> (result: Result<Expr, Error>)
        requires
            old(ctx).wf(),
            old(ctx)@.active(),
        ensures
            final(ctx).wf(),
            grows(old(ctx)@, final(ctx)@),
            binary_spec(old(ctx)@, final(ctx)@, Func::Lt, self.node, rhs.node, result),
    {
        Expr::binary(ctx, Func::Lt, *self, rhs)
    }

    /// The lane-wise test `self <= rhs`.
    /// A scalar operand is widened to the vector type of the other.
    pub fn less_equal(&self, ctx: &mut Context, rhs: Expr) -> (result: Result<Expr, Error>)
        requires
            old(ctx).wf(),
            old(ctx)@.active(),
        ensures
            final(ctx).wf(),
            grows(old(ctx)@, final(ctx)@),
            binary_spec(old(ctx)@, final(ctx)@, Func::Le, self.node, rhs.node, result),
    {
        Expr::binary(ctx, Func::Le, *self, rhs)
    }

    /// The lane-wise test `self > rhs`.
    /// A scalar operand is widened to the vector type of the other.
    pub fn greater_than(&self, ctx: &mut Context, rhs: Expr) -> (result: Result<Expr, Error>)
        requires
            old(ctx).wf(),
            old(ctx)@.active(),
        ensures
            final(ctx).wf(),
            grows(old(ctx)@, final(ctx)@),
            binary_spec(old(ctx)@, final(ctx)@, Func::Gt, self.node, rhs.node, result),
    {
        Expr::binary(ctx, Func::Gt, *self, rhs)
    }

    /// The lane-wise test `self >= rhs`.
    /// A scalar operand is widened to the vector type of the other.
    pub fn greater_equal(&self, ctx: &mut Context, rhs: Expr) -> (result: Result<Expr, Error>)
        requires
            old(ctx).wf(),
            old(ctx)@.active(),
        ensures
            final(ctx).wf(),
            grows(old(ctx)@, final(ctx)@),
            binary_spec(old(ctx)@, final(ctx)@, Func::Ge, self.node, rhs.node, result),
    {
        Expr::binary(ctx, Func::Ge, *self, rhs)
    }

    /// The lane-wise test `self == rhs`.
    /// A scalar operand is widened to the vector type of the other.
    pub fn equal_to(&self, ctx: &mut Context, rhs: Expr) -> (result: Result<Expr, Error>)
        requires
            old(ctx).wf(),
            old(ctx)@.active(),
        ensures
            final(ctx).wf(),
            grows(old(ctx)@, final(ctx)@),
            binary_spec(old(ctx)@, final(ctx)@, Func::Eq, self.node, rhs.node, result),
    {
        Expr::binary(ctx, Func::Eq, *self, rhs)
    }

    /// The lane-wise test `self != rhs`.
    /// A scalar operand is widened to the vector type of the other.
    pub fn not_equal(&self, ctx: &mut Context, rhs: Expr) -> (result: Result<Expr, Error>)
        requires
            old(ctx).wf(),
            old(ctx)@.active(),
        ensures
            final(ctx).wf(),
            grows(old(ctx)@, final(ctx)@),
            binary_spec(old(ctx)@, final(ctx)@, Func::Ne, self.node, rhs.node, result),
    {
        Expr::binary(ctx, Func::Ne, *self, rhs)
    }

    /// Whether every lane of a boolean vector is true.
    pub fn all(&self, ctx: &mut Context) -> (result: Result<Expr, Error>)
        requires
            old(ctx).wf(),
            old(ctx)@.active(),
        ensures
            final(ctx).wf(),
            grows(old(ctx)@, final(ctx)@),
            unary_spec(old(ctx)@, final(ctx)@, Func::All, self.node, result),
    {
        Expr::unary(ctx, Func::All, *self)
    }

    /// Whether some lane of a boolean vector is true.
    pub fn any(&self, ctx: &mut Context) -> (result: Result<Expr, Error>)
        requires
            old(ctx).wf(),
            old(ctx)@.active(),
        ensures
            final(ctx).wf(),
            grows(old(ctx)@, final(ctx)@),
            unary_spec(old(ctx)@, final(ctx)@, Func::Any, self.node, result),
    {
        Expr::unary(ctx, Func::Any, *self)
    }

    /// The sum of the lanes of a vector.
    pub fn reduce_sum(&self, ctx: &mut Context) -> (result: Result<Expr, Error>)
        requires
            old(ctx).wf(),
            old(ctx)@.active(),
        ensures
            final(ctx).wf(),
            grows(old(ctx)@, final(ctx)@),
            unary_spec(old(ctx)@, final(ctx)@, Func::ReduceSum, self.node, result),
    {
        Expr::unary(ctx, Func::ReduceSum, *self)
    }

    /// The product of the lanes of a vector.
    pub fn reduce_prod(&self, ctx: &mut Context) -> (result: Result<Expr, Error>)
        requires
            old(ctx).wf(),
            old(ctx)@.active(),
        ensures
            final(ctx).wf(),
            grows(old(ctx)@, final(ctx)@),
            unary_spec(old(ctx)@, final(ctx)@, Func::ReduceProd, self.node, result),
    {
        Expr::unary(ctx, Func::ReduceProd, *self)
    }

    /// The least lane of a vector.
    pub fn reduce_min(&self, ctx: &mut Context) -> (result: Result<Expr, Error>)
        requires
            old(ctx).wf(),
            old(ctx)@.active(),
        ensures
            final(ctx).wf(),
            grows(old(ctx)@, final(ctx)@),
            unary_spec(old(ctx)@, final(ctx)@, Func::ReduceMin, self.node, result),
    {
        Expr::unary(ctx, Func::ReduceMin, *self)
    }

    /// The greatest lane of a vector.
    pub fn reduce_max(&self, ctx: &mut Context) -> (result: Result<Expr, Error>)
        requires
            old(ctx).wf(),
            old(ctx)@.active(),
        ensures
            final(ctx).wf(),
            grows(old(ctx)@, final(ctx)@),
            unary_spec(old(ctx)@, final(ctx)@, Func::ReduceMax, self.node, result),
    {
        Expr::unary(ctx, Func::ReduceMax, *self)
    }

    /// The Euclidean length of a float vector.
    pub fn length(&self, ctx: &mut Context) -> (result: Result<Expr, Error>)
        requires
            old(ctx).wf(),
            old(ctx)@.active(),
        ensures
            final(ctx).wf(),
            grows(old(ctx)@, final(ctx)@),
            unary_spec(old(ctx)@, final(ctx)@, Func::Length, self.node, result),
    {
        Expr::unary(ctx, Func::Length, *self)
    }

    /// The squared Euclidean length of a float vector.
    pub fn length_squared(&self, ctx: &mut Context) -> (result: Result<Expr, Error>)
        requires
            old(ctx).wf(),
            old(ctx)@.active(),
        ensures
            final(ctx).wf(),
            grows(old(ctx)@, final(ctx)@),
            unary_spec(old(ctx)@, final(ctx)@, Func::LengthSquared, self.node, result),
    {
        Expr::unary(ctx, Func::LengthSquared, *self)
    }

    /// The float vector scaled to length one.
    pub fn normalize(&self, ctx: &mut Context) -> (result: Result<Expr, Error>)
        requires
            old(ctx).wf(),
            old(ctx)@.active(),
        ensures
            final(ctx).wf(),
            grows(old(ctx)@, final(ctx)@),
            unary_spec(old(ctx)@, final(ctx)@, Func::Normalize, self.node, result),
    {
        Expr::unary(ctx, Func::Normalize, *self)
    }

    /// The inverse of a float matrix.
    pub fn inverse(&self, ctx: &mut Context) -> (result: Result<Expr, Error>)
        requires
            old(ctx).wf(),
            old(ctx)@.active(),
        ensures
            final(ctx).wf(),
            grows(old(ctx)@, final(ctx)@),
            unary_spec(old(ctx)@, final(ctx)@, Func::Inverse, self.node, result),
    {
        Expr::unary(ctx, Func::Inverse, *self)
    }

    /// The transpose of a float matrix.
    pub fn transpose(&self, ctx: &mut Context) -> (result: Result<Expr, Error>)
        requires
            old(ctx).wf(),
            old(ctx)@.active(),
        ensures
            final(ctx).wf(),
            grows(old(ctx)@, final(ctx)@),
            unary_spec(old(ctx)@, final(ctx)@, Func::Transpose, self.node, result),
    {
        Expr::unary(ctx, Func::Transpose, *self)
    }

    /// The vector of `lanes` lanes that each hold this scalar.
    pub fn splat(&self, ctx: &mut Context, lanes: u32) -> (result: Result<Expr, Error>)
        requires
            old(ctx).wf(),
            old(ctx)@.active(),
        ensures
            final(ctx).wf(),
            grows(old(ctx)@, final(ctx)@),
            unary_spec(old(ctx)@, final(ctx)@, Func::Splat(lanes), self.node, result),
    {
        Expr::unary(ctx, Func::Splat(lanes), *self)
    }

    /// The dot product of two vectors of one type.
    pub fn dot(&self, ctx: &mut Context, rhs: Expr) -> (result: Result<Expr, Error>)
        requires
            old(ctx).wf(),
            old(ctx)@.active(),
        ensures
            final(ctx).wf(),
            grows(old(ctx)@, final(ctx)@),
            pair_spec(old(ctx)@, final(ctx)@, Func::Dot, self.node, rhs.node, result),
    {
        Expr::pair(ctx, Func::Dot, *self, rhs)
    }

    /// The cross product of two float vectors of length 3.
    pub fn cross(&self, ctx: &mut Context, rhs: Expr) -> (result: Result<Expr, Error>)
        requires
            old(ctx).wf(),
            old(ctx)@.active(),
        ensures
            final(ctx).wf(),
            grows(old(ctx)@, final(ctx)@),
            pair_spec(old(ctx)@, final(ctx)@, Func::Cross, self.node, rhs.node, result),
    {
        Expr::pair(ctx, Func::Cross, *self, rhs)
    }

    /// The outer product of two float vectors of one type.
    pub fn outer_product(&self, ctx: &mut Context, rhs: Expr) -> (result: Result<Expr, Error>)
        requires
            old(ctx).wf(),
            old(ctx)@.active(),
        ensures
            final(ctx).wf(),
            grows(old(ctx)@, final(ctx)@),
            pair_spec(old(ctx)@, final(ctx)@, Func::OuterProduct, self.node, rhs.node, result),
    {
        Expr::pair(ctx, Func::OuterProduct, *self, rhs)
    }

    /// The fused multiply-add `self * a + b` of three float vectors of one
    /// type.
    pub fn fma(&self, ctx: &mut Context, a: Expr, b: Expr) -> (result: Result<Expr, Error>)
        requires
            old(ctx).wf(),
            old(ctx)@.active(),
        ensures
            final(ctx).wf(),
            grows(old(ctx)@, final(ctx)@),
            triple_spec(old(ctx)@, final(ctx)@, Func::Fma, self.node, a.node, b.node, result),
    {
        Expr::triple(ctx, Func::Fma, *self, a, b)
    }

    /// Lane by lane, `a` where `mask` is true and `b` where it is false.
    pub fn select(ctx: &mut Context, mask: Expr, a: Expr, b: Expr) -> (result: Result<Expr, Error>)
        requires
            old(ctx).wf(),
            old(ctx)@.active(),
        ensures
            final(ctx).wf(),
            grows(old(ctx)@, final(ctx)@),
            triple_spec(old(ctx)@, final(ctx)@, Func::Select, mask.node, a.node, b.node, result),
    {
        Expr::triple(ctx, Func::Select, mask, a, b)
    }

    /// Component `x`, the one at index 0.
    pub fn x(&self, ctx: &mut Context) -> (result: Result<Expr, Error>)
        requires
            old(ctx).wf(),
            old(ctx)@.active(),
        ensures
            final(ctx).wf(),
            grows(old(ctx)@, final(ctx)@),
            extract_spec(old(ctx)@, final(ctx)@, self.node, 0, result),
    {
        self.extract(ctx, 0)
    }

    /// The value with component `x`, the one at index 0, replaced. The
    /// receiver still denotes what it did.
    pub fn replace_x(&self, ctx: &mut Context, value: Expr) -> (result: Result<Expr, Error>)
        requires
            old(ctx).wf(),
            old(ctx)@.active(),
        ensures
            final(ctx).wf(),
            grows(old(ctx)@, final(ctx)@),
            insert_spec(old(ctx)@, final(ctx)@, self.node, 0, value.node, result),
    {
        self.insert(ctx, 0, value)
    }

    /// Component `y`, the one at index 1.
    pub fn y(&self, ctx: &mut Context) -> (result: Result<Expr, Error>)
        requires
            old(ctx).wf(),
            old(ctx)@.active(),
        ensures
            final(ctx).wf(),
            grows(old(ctx)@, final(ctx)@),
            extract_spec(old(ctx)@, final(ctx)@, self.node, 1, result),
    {
        self.extract(ctx, 1)
    }

    /// The value with component `y`, the one at index 1, replaced. The
    /// receiver still denotes what it did.
    pub fn replace_y(&self, ctx: &mut Context, value: Expr) -> (result: Result<Expr, Error>)
        requires
            old(ctx).wf(),
            old(ctx)@.active(),
        ensures
            final(ctx).wf(),
            grows(old(ctx)@, final(ctx)@),
            insert_spec(old(ctx)@, final(ctx)@, self.node, 1, value.node, result),
    {
        self.insert(ctx, 1, value)
    }

    /// Component `z`, the one at index 2.
    pub fn z(&self, ctx: &mut Context) -> (result: Result<Expr, Error>)
        requires
            old(ctx).wf(),
            old(ctx)@.active(),
        ensures
            final(ctx).wf(),
            grows(old(ctx)@, final(ctx)@),
            extract_spec(old(ctx)@, final(ctx)@, self.node, 2, result),
    {
        self.extract(ctx, 2)
    }

    /// The value with component `z`, the one at index 2, replaced. The
    /// receiver still denotes what it did.
    pub fn replace_z(&self, ctx: &mut Context, value: Expr) -> (result: Result<Expr, Error>)
        requires
            old(ctx).wf(),
            old(ctx)@.active(),
        ensures
            final(ctx).wf(),
            grows(old(ctx)@, final(ctx)@),
            insert_spec(old(ctx)@, final(ctx)@, self.node, 2, value.node, result),
    {
        self.insert(ctx, 2, value)
    }

    /// Component `w`, the one at index 3.
    pub fn w(&self, ctx: &mut Context) -> (result: Result<Expr, Error>)
        requires
            old(ctx).wf(),
            old(ctx)@.active(),
        ensures
            final(ctx).wf(),
            grows(old(ctx)@, final(ctx)@),
            extract_spec(old(ctx)@, final(ctx)@, self.node, 3, result),
    {
        self.extract(ctx, 3)
    }

    /// The value with component `w`, the one at index 3, replaced. The
    /// receiver still denotes what it did.
    pub fn replace_w(&self, ctx: &mut Context, value: Expr) -> (result: Result<Expr, Error>)
        requires
            old(ctx).wf(),
            old(ctx)@.active(),
        ensures
            final(ctx).wf(),
            grows(old(ctx)@, final(ctx)@),
            insert_spec(old(ctx)@, final(ctx)@, self.node, 3, value.node, result),
    {
        self.insert(ctx, 3, value)
    }

    /// The distance between two float vectors of one type: the length of
    /// their difference. Records the difference, then its length.
    pub fn distance(&self, ctx: &mut Context, rhs: Expr) -> (result: Result<Expr, Error>)
        requires
            old(ctx).wf(),
            old(ctx)@.active(),
        ensures
            final(ctx).wf(),
            grows(old(ctx)@, final(ctx)@),
            measure_spec(old(ctx)@, final(ctx)@, Func::Length, self.node, rhs.node, result),
    {
        Expr::measure(ctx, Func::Length, false, *self, rhs)
    }

    /// The squared distance between two float vectors of one type.
    /// Records the difference, then its squared length.
    pub fn distance_squared(&self, ctx: &mut Context, rhs: Expr) -> (result: Result<Expr, Error>)
        requires
            old(ctx).wf(),
            old(ctx)@.active(),
        ensures
            final(ctx).wf(),
            grows(old(ctx)@, final(ctx)@),
            measure_spec(old(ctx)@, final(ctx)@, Func::LengthSquared, self.node, rhs.node, result),
    {
        Expr::measure(ctx, Func::LengthSquared, true, *self, rhs)
    }

    /// The difference of two float vectors of one type, measured by `f`,
    /// which is `LengthSquared` where `squared` and `Length` where not.
    fn measure(ctx: &mut Context, f: Func, squared: bool, lhs: Expr, rhs: Expr) -> (result: Result<
        Expr,
        Error,
    >)
        requires
            old(ctx).wf(),
            old(ctx)@.active(),
            f == (if squared {
                Func::LengthSquared
            } else {
                Func::Length
            }),
        ensures
            final(ctx).wf(),
            grows(old(ctx)@, final(ctx)@),
            measure_spec(old(ctx)@, final(ctx)@, f, lhs.node, rhs.node, result),
    {
        let ghost before = ctx@;
        proof {
            lemma_grows_refl(before);
        }
        let lt = match ctx.type_of(lhs.node) {
            None => {
                return Err(Error::UnknownNode);
            },
            Some(t) => t,
        };
        let rt = match ctx.type_of(rhs.node) {
            None => {
                return Err(Error::UnknownNode);
            },
            Some(t) => t,
        };
        let fits = {
            let a = ctx.type_shape(lt).unwrap();
            let b = ctx.type_shape(rt).unwrap();
            a.same(b) && match a {
                Type::Vector(p, _) => match p {
                    Primitive::Float32 => true,
                    _ => false,
                },
                _ => false,
            }
        };
        if !fits {
            return Err(Error::TypeMismatch);
        }
        proof {
            assert(operand_shapes(before, seq![lhs.node, rhs.node]) =~= seq![
                before.shape(lhs.node),
                before.shape(rhs.node),
            ]);
        }
        let difference = Expr::pair(ctx, Func::Sub, lhs, rhs).unwrap();
        let ghost mid = ctx@;
        proof {
            assert(operand_shapes(mid, seq![difference.node]) =~= seq![mid.shape(difference.node)]);
            assert(mid.holds_all(seq![difference.node]));
        }
        let result = Expr::unary(ctx, f, difference);
        proof {
            lemma_grows_trans(before, mid, ctx@);
        }
        result
    }

    /// The vector of `lanes` lanes of kind `element` that all hold zero;
    /// for booleans, false. Records the constant, then its widening.
    pub fn zero(ctx: &mut Context, element: Primitive, lanes: u32) -> (result: Result<Expr, Error>)
        requires
            old(ctx).wf(),
            old(ctx)@.active(),
        ensures
            final(ctx).wf(),
            grows(old(ctx)@, final(ctx)@),
            filled_spec(old(ctx)@, final(ctx)@, zero_of(element), lanes, result),
    {
        let value = match element {
            Primitive::Bool => Literal::Bool(false),
            Primitive::Int32 => Literal::Int32(0),
            Primitive::Uint32 => Literal::Uint32(0),
            Primitive::Float32 => Literal::Float32(0),
        };
        Expr::filled(ctx, value, lanes)
    }

    /// The vector of `lanes` lanes of kind `element` that all hold one;
    /// for booleans, true. Records the constant, then its widening.
    pub fn one(ctx: &mut Context, element: Primitive, lanes: u32) -> (result: Result<Expr, Error>)
        requires
            old(ctx).wf(),
            old(ctx)@.active(),
        ensures
            final(ctx).wf(),
            grows(old(ctx)@, final(ctx)@),
            filled_spec(old(ctx)@, final(ctx)@, one_of(element), lanes, result),
    {
        let value = match element {
            Primitive::Bool => Literal::Bool(true),
            Primitive::Int32 => Literal::Int32(1),
            Primitive::Uint32 => Literal::Uint32(1),
            Primitive::Float32 => Literal::Float32(FLOAT_ONE),
        };
        Expr::filled(ctx, value, lanes)
    }

    /// The vector of `lanes` lanes that all hold the constant `value`.
    pub fn filled(ctx: &mut Context, value: Literal, lanes: u32) -> (result: Result<Expr, Error>)
        requires
            old(ctx).wf(),
            old(ctx)@.active(),
        ensures
            final(ctx).wf(),
            grows(old(ctx)@, final(ctx)@),
            filled_spec(old(ctx)@, final(ctx)@, value, lanes, result),
    {
        let ghost before = ctx@;
        proof {
            lemma_grows_refl(before);
        }
        if lanes < MIN_ARITY || lanes > MAX_ARITY {
            return Err(Error::TypeMismatch);
        }
        let scalar = Expr::constant(ctx, value);
        let ghost mid = ctx@;
        proof {
            assert(mid.holds(scalar.node));
            assert(mid.shape(scalar.node) == literal_shape(value));
            assert(operand_shapes(mid, seq![scalar.node]) =~= seq![literal_shape(value)]);
            assert(mid.holds_all(seq![scalar.node]));
        }
        let result = Expr::unary(ctx, Func::Splat(lanes), scalar);
        proof {
            lemma_grows_trans(before, mid, ctx@);
        }
        result
    }

    /// The handle itself, where the current builder holds its node and
    /// the node has the type `to`: the typed view of a type-erased value.
    pub fn downcast(&self, ctx: &Context, to: &Type) -> (found: Option<Expr>)
        requires
            ctx.wf(),
        ensures
            found.is_some() == (ctx@.holds(self.node) && ctx@.shape(self.node) == to@),
            found matches Some(e) ==> e == *self,
    {
        match ctx.type_of(self.node) {
            None => None,
            Some(ty) => if ctx.type_shape(ty).unwrap().same(to) {
                Some(*self)
            } else {
                None
            },
        }
    }

    /// Column `index` of a matrix.
    pub fn col(&self, ctx: &mut Context, index: u32) -> (result: Result<Expr, Error>)
        requires
            old(ctx).wf(),
            old(ctx)@.active(),
        ensures
            final(ctx).wf(),
            grows(old(ctx)@, final(ctx)@),
            extract_spec(old(ctx)@, final(ctx)@, self.node, index, result),
    {
        self.extract(ctx, index)
    }
}

} // verus!
