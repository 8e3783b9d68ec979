//! Typed handles for the fixed-size vectors and matrices, and their
//! constructors.
use vstd::prelude::*;
use crate::context::{grows, Context};
use crate::error::Error;
use crate::expr::{nodes_of, uniform_spec, Expr};
use crate::graph::{Func, NodeRef};
use crate::ops::{pair_spec, unary_spec};
use crate::types::{Primitive, Shape, Type};

verus! {

/// Whether the current builder holds the node `node` with a type equal to
/// `shape`, and the error to report where it does not.
fn check_shape(ctx: &Context, node: NodeRef, shape: &Type) -> (result: Result<(), Error>)
    requires
        ctx.wf(),
    ensures
        match result {
            Ok(_) => ctx@.holds(node) && ctx@.shape(node) == shape@,
            Err(e) => if !ctx@.holds(node) {
                e == Error::UnknownNode
            } else {
                e == Error::TypeMismatch && ctx@.shape(node) != shape@
            },
        },
{
    match ctx.type_of(node) {
        None => Err(Error::UnknownNode),
        Some(ty) => if ctx.type_shape(ty).unwrap().same(shape) {
            Ok(())
        } else {
            Err(Error::TypeMismatch)
        },
    }
}

/// A handle over a node whose value is a vector of 2 32-bit floats.
#[derive(Clone, Copy, PartialEq, Eq, Structural, Debug)]
pub struct Vec2Expr {
    pub node: NodeRef,
}

impl Vec2Expr {
    /// The type of the values these handles denote.
    pub open spec fn shape() -> Shape {
        Shape::Vector(Primitive::Float32, 2)
    }

    /// The result with the handle stripped of its static type.
    pub open spec fn erased(result: Result<Vec2Expr, Error>) -> Result<Expr, Error> {
        match result {
            Ok(v) => Ok(Expr { node: v.node }),
            Err(e) => Err(e),
        }
    }

    /// The same handle without its static type.
    pub fn expr(&self) -> (e: Expr)
        ensures
            e.node == self.node,
    {
        Expr { node: self.node }
    }

    /// The typed handle over the node of `e`, where the current builder
    /// holds that node and it has this type.
    pub fn from_expr(ctx: &Context, e: Expr) -> (result: Result<Vec2Expr, Error>)
        requires
            ctx.wf(),
        ensures
            match result {
                Ok(v) => v.node == e.node && ctx@.holds(e.node) && ctx@.shape(e.node)
                    == Self::shape(),
                Err(err) => if !ctx@.holds(e.node) {
                    err == Error::UnknownNode
                } else {
                    err == Error::TypeMismatch && ctx@.shape(e.node) != Self::shape()
                },
            },
    {
        match check_shape(ctx, e.node, &Type::Vector(Primitive::Float32, 2)) {
            Ok(_) => Ok(Vec2Expr { node: e.node }),
            Err(err) => Err(err),
        }
    }

    /// The value made of the given scalars, in order. It is made exactly
    /// where each of them is a node of the current builder of the
    /// component type.
    pub fn new(ctx: &mut Context, x: Expr, y: Expr) -> (result: Result<
        Vec2Expr,
        Error,
    >)
        requires
            old(ctx).wf(),
            old(ctx)@.active(),
        ensures
            final(ctx).wf(),
            grows(old(ctx)@, final(ctx)@),
            uniform_spec(
                old(ctx)@,
                final(ctx)@,
                Self::shape(),
                seq![x.node, y.node],
                Self::erased(result),
            ),
    {
        let parts = vec![x, y];
        assert(nodes_of(parts@) =~= seq![x.node, y.node]);
        match Expr::uniform(ctx, Type::Vector(Primitive::Float32, 2), &parts) {
            Ok(e) => Ok(Vec2Expr { node: e.node }),
            Err(err) => Err(err),
        }
    }
}

/// A handle over a node whose value is a vector of 3 32-bit floats.
#[derive(Clone, Copy, PartialEq, Eq, Structural, Debug)]
pub struct Vec3Expr {
    pub node: NodeRef,
}

impl Vec3Expr {
    /// The type of the values these handles denote.
    pub open spec fn shape() -> Shape {
        Shape::Vector(Primitive::Float32, 3)
    }

    /// The result with the handle stripped of its static type.
    pub open spec fn erased(result: Result<Vec3Expr, Error>) -> Result<Expr, Error> {
        match result {
            Ok(v) => Ok(Expr { node: v.node }),
            Err(e) => Err(e),
        }
    }

    /// The same handle without its static type.
    pub fn expr(&self) -> (e: Expr)
        ensures
            e.node == self.node,
    {
        Expr { node: self.node }
    }

    /// The typed handle over the node of `e`, where the current builder
    /// holds that node and it has this type.
    pub fn from_expr(ctx: &Context, e: Expr) -> (result: Result<Vec3Expr, Error>)
        requires
            ctx.wf(),
        ensures
            match result {
                Ok(v) => v.node == e.node && ctx@.holds(e.node) && ctx@.shape(e.node)
                    == Self::shape(),
                Err(err) => if !ctx@.holds(e.node) {
                    err == Error::UnknownNode
                } else {
                    err == Error::TypeMismatch && ctx@.shape(e.node) != Self::shape()
                },
            },
    {
        match check_shape(ctx, e.node, &Type::Vector(Primitive::Float32, 3)) {
            Ok(_) => Ok(Vec3Expr { node: e.node }),
            Err(err) => Err(err),
        }
    }

    /// The value made of the given scalars, in order. It is made exactly
    /// where each of them is a node of the current builder of the
    /// component type.
    pub fn new(ctx: &mut Context, x: Expr, y: Expr, z: Expr) -> (result: Result<
        Vec3Expr,
        Error,
    >)
        requires
            old(ctx).wf(),
            old(ctx)@.active(),
        ensures
            final(ctx).wf(),
            grows(old(ctx)@, final(ctx)@),
            uniform_spec(
                old(ctx)@,
                final(ctx)@,
                Self::shape(),
                seq![x.node, y.node, z.node],
                Self::erased(result),
            ),
    {
        let parts = vec![x, y, z];
        assert(nodes_of(parts@) =~= seq![x.node, y.node, z.node]);
        match Expr::uniform(ctx, Type::Vector(Primitive::Float32, 3), &parts) {
            Ok(e) => Ok(Vec3Expr { node: e.node }),
            Err(err) => Err(err),
        }
    }

    /// The cross product of `self` and `rhs`.
    pub fn cross(&self, ctx: &mut Context, rhs: Vec3Expr) -> (result: Result<Vec3Expr, Error>)
        requires
            old(ctx).wf(),
            old(ctx)@.active(),
        ensures
            final(ctx).wf(),
            grows(old(ctx)@, final(ctx)@),
            pair_spec(
                old(ctx)@,
                final(ctx)@,
                Func::Cross,
                self.node,
                rhs.node,
                Vec3Expr::erased(result),
            ),
    {
        match Expr::pair(ctx, Func::Cross, self.expr(), rhs.expr()) {
            Ok(e) => Ok(Vec3Expr { node: e.node }),
            Err(err) => Err(err),
        }
    }
}

/// A handle over a node whose value is a vector of 4 32-bit floats.
#[derive(Clone, Copy, PartialEq, Eq, Structural, Debug)]
pub struct Vec4Expr {
    pub node: NodeRef,
}

impl Vec4Expr {
    /// The type of the values these handles denote.
    pub open spec fn shape() -> Shape {
        Shape::Vector(Primitive::Float32, 4)
    }

    /// The result with the handle stripped of its static type.
    pub open spec fn erased(result: Result<Vec4Expr, Error>) -> Result<Expr, Error> {
        match result {
            Ok(v) => Ok(Expr { node: v.node }),
            Err(e) => Err(e),
        }
    }

    /// The same handle without its static type.
    pub fn expr(&self) -> (e: Expr)
        ensures
            e.node == self.node,
    {
        Expr { node: self.node }
    }

    /// The typed handle over the node of `e`, where the current builder
    /// holds that node and it has this type.
    pub fn from_expr(ctx: &Context, e: Expr) -> (result: Result<Vec4Expr, Error>)
        requires
            ctx.wf(),
        ensures
            match result {
                Ok(v) => v.node == e.node && ctx@.holds(e.node) && ctx@.shape(e.node)
                    == Self::shape(),
                Err(err) => if !ctx@.holds(e.node) {
                    err == Error::UnknownNode
                } else {
                    err == Error::TypeMismatch && ctx@.shape(e.node) != Self::shape()
                },
            },
    {
        match check_shape(ctx, e.node, &Type::Vector(Primitive::Float32, 4)) {
            Ok(_) => Ok(Vec4Expr { node: e.node }),
            Err(err) => Err(err),
        }
    }

    /// The value made of the given scalars, in order. It is made exactly
    /// where each of them is a node of the current builder of the
    /// component type.
    pub fn new(ctx: &mut Context, x: Expr, y: Expr, z: Expr, w: Expr) -> (result: Result<
        Vec4Expr,
        Error,
    >)
        requires
            old(ctx).wf(),
            old(ctx)@.active(),
        ensures
            final(ctx).wf(),
            grows(old(ctx)@, final(ctx)@),
            uniform_spec(
                old(ctx)@,
                final(ctx)@,
                Self::shape(),
                seq![x.node, y.node, z.node, w.node],
                Self::erased(result),
            ),
    {
        let parts = vec![x, y, z, w];
        assert(nodes_of(parts@) =~= seq![x.node, y.node, z.node, w.node]);
        match Expr::uniform(ctx, Type::Vector(Primitive::Float32, 4), &parts) {
            Ok(e) => Ok(Vec4Expr { node: e.node }),
            Err(err) => Err(err),
        }
    }
}

/// A handle over a node whose value is a vector of 2 32-bit signed integers.
#[derive(Clone, Copy, PartialEq, Eq, Structural, Debug)]
pub struct IVec2Expr {
    pub node: NodeRef,
}

impl IVec2Expr {
    /// The type of the values these handles denote.
    pub open spec fn shape() -> Shape {
        Shape::Vector(Primitive::Int32, 2)
    }

    /// The result with the handle stripped of its static type.
    pub open spec fn erased(result: Result<IVec2Expr, Error>) -> Result<Expr, Error> {
        match result {
            Ok(v) => Ok(Expr { node: v.node }),
            Err(e) => Err(e),
        }
    }

    /// The same handle without its static type.
    pub fn expr(&self) -> (e: Expr)
        ensures
            e.node == self.node,
    {
        Expr { node: self.node }
    }

    /// The typed handle over the node of `e`, where the current builder
    /// holds that node and it has this type.
    pub fn from_expr(ctx: &Context, e: Expr) -> (result: Result<IVec2Expr, Error>)
        requires
            ctx.wf(),
        ensures
            match result {
                Ok(v) => v.node == e.node && ctx@.holds(e.node) && ctx@.shape(e.node)
                    == Self::shape(),
                Err(err) => if !ctx@.holds(e.node) {
                    err == Error::UnknownNode
                } else {
                    err == Error::TypeMismatch && ctx@.shape(e.node) != Self::shape()
                },
            },
    {
        match check_shape(ctx, e.node, &Type::Vector(Primitive::Int32, 2)) {
            Ok(_) => Ok(IVec2Expr { node: e.node }),
            Err(err) => Err(err),
        }
    }

    /// The value made of the given scalars, in order. It is made exactly
    /// where each of them is a node of the current builder of the
    /// component type.
    pub fn new(ctx: &mut Context, x: Expr, y: Expr) -> (result: Result<
        IVec2Expr,
        Error,
    >)
        requires
            old(ctx).wf(),
            old(ctx)@.active(),
        ensures
            final(ctx).wf(),
            grows(old(ctx)@, final(ctx)@),
            uniform_spec(
                old(ctx)@,
                final(ctx)@,
                Self::shape(),
                seq![x.node, y.node],
                Self::erased(result),
            ),
    {
        let parts = vec![x, y];
        assert(nodes_of(parts@) =~= seq![x.node, y.node]);
        match Expr::uniform(ctx, Type::Vector(Primitive::Int32, 2), &parts) {
            Ok(e) => Ok(IVec2Expr { node: e.node }),
            Err(err) => Err(err),
        }
    }
}

/// A handle over a node whose value is a vector of 3 32-bit signed integers.
#[derive(Clone, Copy, PartialEq, Eq, Structural, Debug)]
pub struct IVec3Expr {
    pub node: NodeRef,
}

impl IVec3Expr {
    /// The type of the values these handles denote.
    pub open spec fn shape() -> Shape {
        Shape::Vector(Primitive::Int32, 3)
    }

    /// The result with the handle stripped of its static type.
    pub open spec fn erased(result: Result<IVec3Expr, Error>) -> Result<Expr, Error> {
        match result {
            Ok(v) => Ok(Expr { node: v.node }),
            Err(e) => Err(e),
        }
    }

    /// The same handle without its static type.
    pub fn expr(&self) -> (e: Expr)
        ensures
            e.node == self.node,
    {
        Expr { node: self.node }
    }

    /// The typed handle over the node of `e`, where the current builder
    /// holds that node and it has this type.
    pub fn from_expr(ctx: &Context, e: Expr) -> (result: Result<IVec3Expr, Error>)
        requires
            ctx.wf(),
        ensures
            match result {
                Ok(v) => v.node == e.node && ctx@.holds(e.node) && ctx@.shape(e.node)
                    == Self::shape(),
                Err(err) => if !ctx@.holds(e.node) {
                    err == Error::UnknownNode
                } else {
                    err == Error::TypeMismatch && ctx@.shape(e.node) != Self::shape()
                },
            },
    {
        match check_shape(ctx, e.node, &Type::Vector(Primitive::Int32, 3)) {
            Ok(_) => Ok(IVec3Expr { node: e.node }),
            Err(err) => Err(err),
        }
    }

    /// The value made of the given scalars, in order. It is made exactly
    /// where each of them is a node of the current builder of the
    /// component type.
    pub fn new(ctx: &mut Context, x: Expr, y: Expr, z: Expr) -> (result: Result<
        IVec3Expr,
        Error,
    >)
        requires
            old(ctx).wf(),
            old(ctx)@.active(),
        ensures
            final(ctx).wf(),
            grows(old(ctx)@, final(ctx)@),
            uniform_spec(
                old(ctx)@,
                final(ctx)@,
                Self::shape(),
                seq![x.node, y.node, z.node],
                Self::erased(result),
            ),
    {
        let parts = vec![x, y, z];
        assert(nodes_of(parts@) =~= seq![x.node, y.node, z.node]);
        match Expr::uniform(ctx, Type::Vector(Primitive::Int32, 3), &parts) {
            Ok(e) => Ok(IVec3Expr { node: e.node }),
            Err(err) => Err(err),
        }
    }
}

/// A handle over a node whose value is a vector of 4 32-bit signed integers.
#[derive(Clone, Copy, PartialEq, Eq, Structural, Debug)]
pub struct IVec4Expr {
    pub node: NodeRef,
}

impl IVec4Expr {
    /// The type of the values these handles denote.
    pub open spec fn shape() -> Shape {
        Shape::Vector(Primitive::Int32, 4)
    }

    /// The result with the handle stripped of its static type.
    pub open spec fn erased(result: Result<IVec4Expr, Error>) -> Result<Expr, Error> {
        match result {
            Ok(v) => Ok(Expr { node: v.node }),
            Err(e) => Err(e),
        }
    }

    /// The same handle without its static type.
    pub fn expr(&self) -> (e: Expr)
        ensures
            e.node == self.node,
    {
        Expr { node: self.node }
    }

    /// The typed handle over the node of `e`, where the current builder
    /// holds that node and it has this type.
    pub fn from_expr(ctx: &Context, e: Expr) -> (result: Result<IVec4Expr, Error>)
        requires
            ctx.wf(),
        ensures
            match result {
                Ok(v) => v.node == e.node && ctx@.holds(e.node) && ctx@.shape(e.node)
                    == Self::shape(),
                Err(err) => if !ctx@.holds(e.node) {
                    err == Error::UnknownNode
                } else {
                    err == Error::TypeMismatch && ctx@.shape(e.node) != Self::shape()
                },
            },
    {
        match check_shape(ctx, e.node, &Type::Vector(Primitive::Int32, 4)) {
            Ok(_) => Ok(IVec4Expr { node: e.node }),
            Err(err) => Err(err),
        }
    }

    /// The value made of the given scalars, in order. It is made exactly
    /// where each of them is a node of the current builder of the
    /// component type.
    pub fn new(ctx: &mut Context, x: Expr, y: Expr, z: Expr, w: Expr) -> (result: Result<
        IVec4Expr,
        Error,
    >)
        requires
            old(ctx).wf(),
            old(ctx)@.active(),
        ensures
            final(ctx).wf(),
            grows(old(ctx)@, final(ctx)@),
            uniform_spec(
                old(ctx)@,
                final(ctx)@,
                Self::shape(),
                seq![x.node, y.node, z.node, w.node],
                Self::erased(result),
            ),
    {
        let parts = vec![x, y, z, w];
        assert(nodes_of(parts@) =~= seq![x.node, y.node, z.node, w.node]);
        match Expr::uniform(ctx, Type::Vector(Primitive::Int32, 4), &parts) {
            Ok(e) => Ok(IVec4Expr { node: e.node }),
            Err(err) => Err(err),
        }
    }
}

/// A handle over a node whose value is a vector of 2 32-bit unsigned integers.
#[derive(Clone, Copy, PartialEq, Eq, Structural, Debug)]
pub struct UVec2Expr {
    pub node: NodeRef,
}

impl UVec2Expr {
    /// The type of the values these handles denote.
    pub open spec fn shape() -> Shape {
        Shape::Vector(Primitive::Uint32, 2)
    }

    /// The result with the handle stripped of its static type.
    pub open spec fn erased(result: Result<UVec2Expr, Error>) -> Result<Expr, Error> {
        match result {
            Ok(v) => Ok(Expr { node: v.node }),
            Err(e) => Err(e),
        }
    }

    /// The same handle without its static type.
    pub fn expr(&self) -> (e: Expr)
        ensures
            e.node == self.node,
    {
        Expr { node: self.node }
    }

    /// The typed handle over the node of `e`, where the current builder
    /// holds that node and it has this type.
    pub fn from_expr(ctx: &Context, e: Expr) -> (result: Result<UVec2Expr, Error>)
        requires
            ctx.wf(),
        ensures
            match result {
                Ok(v) => v.node == e.node && ctx@.holds(e.node) && ctx@.shape(e.node)
                    == Self::shape(),
                Err(err) => if !ctx@.holds(e.node) {
                    err == Error::UnknownNode
                } else {
                    err == Error::TypeMismatch && ctx@.shape(e.node) != Self::shape()
                },
            },
    {
        match check_shape(ctx, e.node, &Type::Vector(Primitive::Uint32, 2)) {
            Ok(_) => Ok(UVec2Expr { node: e.node }),
            Err(err) => Err(err),
        }
    }

    /// The value made of the given scalars, in order. It is made exactly
    /// where each of them is a node of the current builder of the
    /// component type.
    pub fn new(ctx: &mut Context, x: Expr, y: Expr) -> (result: Result<
        UVec2Expr,
        Error,
    >)
        requires
            old(ctx).wf(),
            old(ctx)@.active(),
        ensures
            final(ctx).wf(),
            grows(old(ctx)@, final(ctx)@),
            uniform_spec(
                old(ctx)@,
                final(ctx)@,
                Self::shape(),
                seq![x.node, y.node],
                Self::erased(result),
            ),
    {
        let parts = vec![x, y];
        assert(nodes_of(parts@) =~= seq![x.node, y.node]);
        match Expr::uniform(ctx, Type::Vector(Primitive::Uint32, 2), &parts) {
            Ok(e) => Ok(UVec2Expr { node: e.node }),
            Err(err) => Err(err),
        }
    }
}

/// A handle over a node whose value is a vector of 3 32-bit unsigned integers.
#[derive(Clone, Copy, PartialEq, Eq, Structural, Debug)]
pub struct UVec3Expr {
    pub node: NodeRef,
}

impl UVec3Expr {
    /// The type of the values these handles denote.
    pub open spec fn shape() -> Shape {
        Shape::Vector(Primitive::Uint32, 3)
    }

    /// The result with the handle stripped of its static type.
    pub open spec fn erased(result: Result<UVec3Expr, Error>) -> Result<Expr, Error> {
        match result {
            Ok(v) => Ok(Expr { node: v.node }),
            Err(e) => Err(e),
        }
    }

    /// The same handle without its static type.
    pub fn expr(&self) -> (e: Expr)
        ensures
            e.node == self.node,
    {
        Expr { node: self.node }
    }

    /// The typed handle over the node of `e`, where the current builder
    /// holds that node and it has this type.
    pub fn from_expr(ctx: &Context, e: Expr) -> (result: Result<UVec3Expr, Error>)
        requires
            ctx.wf(),
        ensures
            match result {
                Ok(v) => v.node == e.node && ctx@.holds(e.node) && ctx@.shape(e.node)
                    == Self::shape(),
                Err(err) => if !ctx@.holds(e.node) {
                    err == Error::UnknownNode
                } else {
                    err == Error::TypeMismatch && ctx@.shape(e.node) != Self::shape()
                },
            },
    {
        match check_shape(ctx, e.node, &Type::Vector(Primitive::Uint32, 3)) {
            Ok(_) => Ok(UVec3Expr { node: e.node }),
            Err(err) => Err(err),
        }
    }

    /// The value made of the given scalars, in order. It is made exactly
    /// where each of them is a node of the current builder of the
    /// component type.
    pub fn new(ctx: &mut Context, x: Expr, y: Expr, z: Expr) -> (result: Result<
        UVec3Expr,
        Error,
    >)
        requires
            old(ctx).wf(),
            old(ctx)@.active(),
        ensures
            final(ctx).wf(),
            grows(old(ctx)@, final(ctx)@),
            uniform_spec(
                old(ctx)@,
                final(ctx)@,
                Self::shape(),
                seq![x.node, y.node, z.node],
                Self::erased(result),
            ),
    {
        let parts = vec![x, y, z];
        assert(nodes_of(parts@) =~= seq![x.node, y.node, z.node]);
        match Expr::uniform(ctx, Type::Vector(Primitive::Uint32, 3), &parts) {
            Ok(e) => Ok(UVec3Expr { node: e.node }),
            Err(err) => Err(err),
        }
    }
}

/// A handle over a node whose value is a vector of 4 32-bit unsigned integers.
#[derive(Clone, Copy, PartialEq, Eq, Structural, Debug)]
pub struct UVec4Expr {
    pub node: NodeRef,
}

impl UVec4Expr {
    /// The type of the values these handles denote.
    pub open spec fn shape() -> Shape {
        Shape::Vector(Primitive::Uint32, 4)
    }

    /// The result with the handle stripped of its static type.
    pub open spec fn erased(result: Result<UVec4Expr, Error>) -> Result<Expr, Error> {
        match result {
            Ok(v) => Ok(Expr { node: v.node }),
            Err(e) => Err(e),
        }
    }

    /// The same handle without its static type.
    pub fn expr(&self) -> (e: Expr)
        ensures
            e.node == self.node,
    {
        Expr { node: self.node }
    }

    /// The typed handle over the node of `e`, where the current builder
    /// holds that node and it has this type.
    pub fn from_expr(ctx: &Context, e: Expr) -> (result: Result<UVec4Expr, Error>)
        requires
            ctx.wf(),
        ensures
            match result {
                Ok(v) => v.node == e.node && ctx@.holds(e.node) && ctx@.shape(e.node)
                    == Self::shape(),
                Err(err) => if !ctx@.holds(e.node) {
                    err == Error::UnknownNode
                } else {
                    err == Error::TypeMismatch && ctx@.shape(e.node) != Self::shape()
                },
            },
    {
        match check_shape(ctx, e.node, &Type::Vector(Primitive::Uint32, 4)) {
            Ok(_) => Ok(UVec4Expr { node: e.node }),
            Err(err) => Err(err),
        }
    }

    /// The value made of the given scalars, in order. It is made exactly
    /// where each of them is a node of the current builder of the
    /// component type.
    pub fn new(ctx: &mut Context, x: Expr, y: Expr, z: Expr, w: Expr) -> (result: Result<
        UVec4Expr,
        Error,
    >)
        requires
            old(ctx).wf(),
            old(ctx)@.active(),
        ensures
            final(ctx).wf(),
            grows(old(ctx)@, final(ctx)@),
            uniform_spec(
                old(ctx)@,
                final(ctx)@,
                Self::shape(),
                seq![x.node, y.node, z.node, w.node],
                Self::erased(result),
            ),
    {
        let parts = vec![x, y, z, w];
        assert(nodes_of(parts@) =~= seq![x.node, y.node, z.node, w.node]);
        match Expr::uniform(ctx, Type::Vector(Primitive::Uint32, 4), &parts) {
            Ok(e) => Ok(UVec4Expr { node: e.node }),
            Err(err) => Err(err),
        }
    }
}

/// A handle over a node whose value is a 2 by 2 matrix of 32-bit floats.
#[derive(Clone, Copy, PartialEq, Eq, Structural, Debug)]
pub struct Mat2Expr {
    pub node: NodeRef,
}

impl Mat2Expr {
    /// The type of the values these handles denote.
    pub open spec fn shape() -> Shape {
        Shape::Matrix(Primitive::Float32, 2)
    }

    /// The result with the handle stripped of its static type.
    pub open spec fn erased(result: Result<Mat2Expr, Error>) -> Result<Expr, Error> {
        match result {
            Ok(v) => Ok(Expr { node: v.node }),
            Err(e) => Err(e),
        }
    }

    /// The same handle without its static type.
    pub fn expr(&self) -> (e: Expr)
        ensures
            e.node == self.node,
    {
        Expr { node: self.node }
    }

    /// The typed handle over the node of `e`, where the current builder
    /// holds that node and it has this type.
    pub fn from_expr(ctx: &Context, e: Expr) -> (result: Result<Mat2Expr, Error>)
        requires
            ctx.wf(),
        ensures
            match result {
                Ok(v) => v.node == e.node && ctx@.holds(e.node) && ctx@.shape(e.node)
                    == Self::shape(),
                Err(err) => if !ctx@.holds(e.node) {
                    err == Error::UnknownNode
                } else {
                    err == Error::TypeMismatch && ctx@.shape(e.node) != Self::shape()
                },
            },
    {
        match check_shape(ctx, e.node, &Type::Matrix(Primitive::Float32, 2)) {
            Ok(_) => Ok(Mat2Expr { node: e.node }),
            Err(err) => Err(err),
        }
    }

    /// The value made of the given columns, in order. It is made exactly
    /// where each of them is a node of the current builder of the
    /// component type.
    pub fn new(ctx: &mut Context, x: Expr, y: Expr) -> (result: Result<
        Mat2Expr,
        Error,
    >)
        requires
            old(ctx).wf(),
            old(ctx)@.active(),
        ensures
            final(ctx).wf(),
            grows(old(ctx)@, final(ctx)@),
            uniform_spec(
                old(ctx)@,
                final(ctx)@,
                Self::shape(),
                seq![x.node, y.node],
                Self::erased(result),
            ),
    {
        let parts = vec![x, y];
        assert(nodes_of(parts@) =~= seq![x.node, y.node]);
        match Expr::uniform(ctx, Type::Matrix(Primitive::Float32, 2), &parts) {
            Ok(e) => Ok(Mat2Expr { node: e.node }),
            Err(err) => Err(err),
        }
    }

    /// The inverse of the matrix.
    pub fn inverse(&self, ctx: &mut Context) -> (result: Result<Mat2Expr, Error>)
        requires
            old(ctx).wf(),
            old(ctx)@.active(),
        ensures
            final(ctx).wf(),
            grows(old(ctx)@, final(ctx)@),
            unary_spec(old(ctx)@, final(ctx)@, Func::Inverse, self.node, Self::erased(result)),
    {
        match Expr::unary(ctx, Func::Inverse, self.expr()) {
            Ok(e) => Ok(Mat2Expr { node: e.node }),
            Err(err) => Err(err),
        }
    }

    /// The transpose of the matrix.
    pub fn transpose(&self, ctx: &mut Context) -> (result: Result<Mat2Expr, Error>)
        requires
            old(ctx).wf(),
            old(ctx)@.active(),
        ensures
            final(ctx).wf(),
            grows(old(ctx)@, final(ctx)@),
            unary_spec(old(ctx)@, final(ctx)@, Func::Transpose, self.node, Self::erased(result)),
    {
        match Expr::unary(ctx, Func::Transpose, self.expr()) {
            Ok(e) => Ok(Mat2Expr { node: e.node }),
            Err(err) => Err(err),
        }
    }

    /// The product of the matrix and a column vector.
    pub fn mul(&self, ctx: &mut Context, rhs: Vec2Expr) -> (result: Result<Vec2Expr, Error>)
        requires
            old(ctx).wf(),
            old(ctx)@.active(),
        ensures
            final(ctx).wf(),
            grows(old(ctx)@, final(ctx)@),
            pair_spec(
                old(ctx)@,
                final(ctx)@,
                Func::Mul,
                self.node,
                rhs.node,
                Vec2Expr::erased(result),
            ),
    {
        match Expr::pair(ctx, Func::Mul, self.expr(), rhs.expr()) {
            Ok(e) => Ok(Vec2Expr { node: e.node }),
            Err(err) => Err(err),
        }
    }

    /// The product of two matrices.
    pub fn mul_mat(&self, ctx: &mut Context, rhs: Mat2Expr) -> (result: Result<Mat2Expr, Error>)
        requires
            old(ctx).wf(),
            old(ctx)@.active(),
        ensures
            final(ctx).wf(),
            grows(old(ctx)@, final(ctx)@),
            pair_spec(
                old(ctx)@,
                final(ctx)@,
                Func::Mul,
                self.node,
                rhs.node,
                Mat2Expr::erased(result),
            ),
    {
        match Expr::pair(ctx, Func::Mul, self.expr(), rhs.expr()) {
            Ok(e) => Ok(Mat2Expr { node: e.node }),
            Err(err) => Err(err),
        }
    }
}

/// A handle over a node whose value is a 3 by 3 matrix of 32-bit floats.
#[derive(Clone, Copy, PartialEq, Eq, Structural, Debug)]
pub struct Mat3Expr {
    pub node: NodeRef,
}

impl Mat3Expr {
    /// The type of the values these handles denote.
    pub open spec fn shape() -> Shape {
        Shape::Matrix(Primitive::Float32, 3)
    }

    /// The result with the handle stripped of its static type.
    pub open spec fn erased(result: Result<Mat3Expr, Error>) -> Result<Expr, Error> {
        match result {
            Ok(v) => Ok(Expr { node: v.node }),
            Err(e) => Err(e),
        }
    }

    /// The same handle without its static type.
    pub fn expr(&self) -> (e: Expr)
        ensures
            e.node == self.node,
    {
        Expr { node: self.node }
    }

    /// The typed handle over the node of `e`, where the current builder
    /// holds that node and it has this type.
    pub fn from_expr(ctx: &Context, e: Expr) -> (result: Result<Mat3Expr, Error>)
        requires
            ctx.wf(),
        ensures
            match result {
                Ok(v) => v.node == e.node && ctx@.holds(e.node) && ctx@.shape(e.node)
                    == Self::shape(),
                Err(err) => if !ctx@.holds(e.node) {
                    err == Error::UnknownNode
                } else {
                    err == Error::TypeMismatch && ctx@.shape(e.node) != Self::shape()
                },
            },
    {
        match check_shape(ctx, e.node, &Type::Matrix(Primitive::Float32, 3)) {
            Ok(_) => Ok(Mat3Expr { node: e.node }),
            Err(err) => Err(err),
        }
    }

    /// The value made of the given columns, in order. It is made exactly
    /// where each of them is a node of the current builder of the
    /// component type.
    pub fn new(ctx: &mut Context, x: Expr, y: Expr, z: Expr) -> (result: Result<
        Mat3Expr,
        Error,
    >)
        requires
            old(ctx).wf(),
            old(ctx)@.active(),
        ensures
            final(ctx).wf(),
            grows(old(ctx)@, final(ctx)@),
            uniform_spec(
                old(ctx)@,
                final(ctx)@,
                Self::shape(),
                seq![x.node, y.node, z.node],
                Self::erased(result),
            ),
    {
        let parts = vec![x, y, z];
        assert(nodes_of(parts@) =~= seq![x.node, y.node, z.node]);
        match Expr::uniform(ctx, Type::Matrix(Primitive::Float32, 3), &parts) {
            Ok(e) => Ok(Mat3Expr { node: e.node }),
            Err(err) => Err(err),
        }
    }

    /// The inverse of the matrix.
    pub fn inverse(&self, ctx: &mut Context) -> (result: Result<Mat3Expr, Error>)
        requires
            old(ctx).wf(),
            old(ctx)@.active(),
        ensures
            final(ctx).wf(),
            grows(old(ctx)@, final(ctx)@),
            unary_spec(old(ctx)@, final(ctx)@, Func::Inverse, self.node, Self::erased(result)),
    {
        match Expr::unary(ctx, Func::Inverse, self.expr()) {
            Ok(e) => Ok(Mat3Expr { node: e.node }),
            Err(err) => Err(err),
        }
    }

    /// The transpose of the matrix.
    pub fn transpose(&self, ctx: &mut Context) -> (result: Result<Mat3Expr, Error>)
        requires
            old(ctx).wf(),
            old(ctx)@.active(),
        ensures
            final(ctx).wf(),
            grows(old(ctx)@, final(ctx)@),
            unary_spec(old(ctx)@, final(ctx)@, Func::Transpose, self.node, Self::erased(result)),
    {
        match Expr::unary(ctx, Func::Transpose, self.expr()) {
            Ok(e) => Ok(Mat3Expr { node: e.node }),
            Err(err) => Err(err),
        }
    }

    /// The product of the matrix and a column vector.
    pub fn mul(&self, ctx: &mut Context, rhs: Vec3Expr) -> (result: Result<Vec3Expr, Error>)
        requires
            old(ctx).wf(),
            old(ctx)@.active(),
        ensures
            final(ctx).wf(),
            grows(old(ctx)@, final(ctx)@),
            pair_spec(
                old(ctx)@,
                final(ctx)@,
                Func::Mul,
                self.node,
                rhs.node,
                Vec3Expr::erased(result),
            ),
    {
        match Expr::pair(ctx, Func::Mul, self.expr(), rhs.expr()) {
            Ok(e) => Ok(Vec3Expr { node: e.node }),
            Err(err) => Err(err),
        }
    }

    /// The product of two matrices.
    pub fn mul_mat(&self, ctx: &mut Context, rhs: Mat3Expr) -> (result: Result<Mat3Expr, Error>)
        requires
            old(ctx).wf(),
            old(ctx)@.active(),
        ensures
            final(ctx).wf(),
            grows(old(ctx)@, final(ctx)@),
            pair_spec(
                old(ctx)@,
                final(ctx)@,
                Func::Mul,
                self.node,
                rhs.node,
                Mat3Expr::erased(result),
            ),
    {
        match Expr::pair(ctx, Func::Mul, self.expr(), rhs.expr()) {
            Ok(e) => Ok(Mat3Expr { node: e.node }),
            Err(err) => Err(err),
        }
    }
}

/// A handle over a node whose value is a 4 by 4 matrix of 32-bit floats.
#[derive(Clone, Copy, PartialEq, Eq, Structural, Debug)]
pub struct Mat4Expr {
    pub node: NodeRef,
}

impl Mat4Expr {
    /// The type of the values these handles denote.
    pub open spec fn shape() -> Shape {
        Shape::Matrix(Primitive::Float32, 4)
    }

    /// The result with the handle stripped of its static type.
    pub open spec fn erased(result: Result<Mat4Expr, Error>) -> Result<Expr, Error> {
        match result {
            Ok(v) => Ok(Expr { node: v.node }),
            Err(e) => Err(e),
        }
    }

    /// The same handle without its static type.
    pub fn expr(&self) -> (e: Expr)
        ensures
            e.node == self.node,
    {
        Expr { node: self.node }
    }

    /// The typed handle over the node of `e`, where the current builder
    /// holds that node and it has this type.
    pub fn from_expr(ctx: &Context, e: Expr) -> (result: Result<Mat4Expr, Error>)
        requires
            ctx.wf(),
        ensures
            match result {
                Ok(v) => v.node == e.node && ctx@.holds(e.node) && ctx@.shape(e.node)
                    == Self::shape(),
                Err(err) => if !ctx@.holds(e.node) {
                    err == Error::UnknownNode
                } else {
                    err == Error::TypeMismatch && ctx@.shape(e.node) != Self::shape()
                },
            },
    {
        match check_shape(ctx, e.node, &Type::Matrix(Primitive::Float32, 4)) {
            Ok(_) => Ok(Mat4Expr { node: e.node }),
            Err(err) => Err(err),
        }
    }

    /// The value made of the given columns, in order. It is made exactly
    /// where each of them is a node of the current builder of the
    /// component type.
    pub fn new(ctx: &mut Context, x: Expr, y: Expr, z: Expr, w: Expr) -> (result: Result<
        Mat4Expr,
        Error,
    >)
        requires
            old(ctx).wf(),
            old(ctx)@.active(),
        ensures
            final(ctx).wf(),
            grows(old(ctx)@, final(ctx)@),
            uniform_spec(
                old(ctx)@,
                final(ctx)@,
                Self::shape(),
                seq![x.node, y.node, z.node, w.node],
                Self::erased(result),
            ),
    {
        let parts = vec![x, y, z, w];
        assert(nodes_of(parts@) =~= seq![x.node, y.node, z.node, w.node]);
        match Expr::uniform(ctx, Type::Matrix(Primitive::Float32, 4), &parts) {
            Ok(e) => Ok(Mat4Expr { node: e.node }),
            Err(err) => Err(err),
        }
    }

    /// The inverse of the matrix.
    pub fn inverse(&self, ctx: &mut Context) -> (result: Result<Mat4Expr, Error>)
        requires
            old(ctx).wf(),
            old(ctx)@.active(),
        ensures
            final(ctx).wf(),
            grows(old(ctx)@, final(ctx)@),
            unary_spec(old(ctx)@, final(ctx)@, Func::Inverse, self.node, Self::erased(result)),
    {
        match Expr::unary(ctx, Func::Inverse, self.expr()) {
            Ok(e) => Ok(Mat4Expr { node: e.node }),
            Err(err) => Err(err),
        }
    }

    /// The transpose of the matrix.
    pub fn transpose(&self, ctx: &mut Context) -> (result: Result<Mat4Expr, Error>)
        requires
            old(ctx).wf(),
            old(ctx)@.active(),
        ensures
            final(ctx).wf(),
            grows(old(ctx)@, final(ctx)@),
            unary_spec(old(ctx)@, final(ctx)@, Func::Transpose, self.node, Self::erased(result)),
    {
        match Expr::unary(ctx, Func::Transpose, self.expr()) {
            Ok(e) => Ok(Mat4Expr { node: e.node }),
            Err(err) => Err(err),
        }
    }

    /// The product of the matrix and a column vector.
    pub fn mul(&self, ctx: &mut Context, rhs: Vec4Expr) -> (result: Result<Vec4Expr, Error>)
        requires
            old(ctx).wf(),
            old(ctx)@.active(),
        ensures
            final(ctx).wf(),
            grows(old(ctx)@, final(ctx)@),
            pair_spec(
                old(ctx)@,
                final(ctx)@,
                Func::Mul,
                self.node,
                rhs.node,
                Vec4Expr::erased(result),
            ),
    {
        match Expr::pair(ctx, Func::Mul, self.expr(), rhs.expr()) {
            Ok(e) => Ok(Vec4Expr { node: e.node }),
            Err(err) => Err(err),
        }
    }

    /// The product of two matrices.
    pub fn mul_mat(&self, ctx: &mut Context, rhs: Mat4Expr) -> (result: Result<Mat4Expr, Error>)
        requires
            old(ctx).wf(),
            old(ctx)@.active(),
        ensures
            final(ctx).wf(),
            grows(old(ctx)@, final(ctx)@),
            pair_spec(
                old(ctx)@,
                final(ctx)@,
                Func::Mul,
                self.node,
                rhs.node,
                Mat4Expr::erased(result),
            ),
    {
        match Expr::pair(ctx, Func::Mul, self.expr(), rhs.expr()) {
            Ok(e) => Ok(Mat4Expr { node: e.node }),
            Err(err) => Err(err),
        }
    }
}

/// The vector of the 2 given scalars. It is made exactly where each of
/// them is a node of the current builder and a 32-bit float scalar.
pub fn make_float2(ctx: &mut Context, x: Expr, y: Expr) -> (result: Result<
    Vec2Expr,
    Error,
>)
    requires
        old(ctx).wf(),
        old(ctx)@.active(),
    ensures
        final(ctx).wf(),
        grows(old(ctx)@, final(ctx)@),
        uniform_spec(
            old(ctx)@,
            final(ctx)@,
            Vec2Expr::shape(),
            seq![x.node, y.node],
            Vec2Expr::erased(result),
        ),
{
    Vec2Expr::new(ctx, x, y)
}

/// The vector of the 3 given scalars. It is made exactly where each of
/// them is a node of the current builder and a 32-bit float scalar.
pub fn make_float3(ctx: &mut Context, x: Expr, y: Expr, z: Expr) -> (result: Result<
    Vec3Expr,
    Error,
>)
    requires
        old(ctx).wf(),
        old(ctx)@.active(),
    ensures
        final(ctx).wf(),
        grows(old(ctx)@, final(ctx)@),
        uniform_spec(
            old(ctx)@,
            final(ctx)@,
            Vec3Expr::shape(),
            seq![x.node, y.node, z.node],
            Vec3Expr::erased(result),
        ),
{
    Vec3Expr::new(ctx, x, y, z)
}

/// The vector of the 4 given scalars. It is made exactly where each of
/// them is a node of the current builder and a 32-bit float scalar.
pub fn make_float4(ctx: &mut Context, x: Expr, y: Expr, z: Expr, w: Expr) -> (result: Result<
    Vec4Expr,
    Error,
>)
    requires
        old(ctx).wf(),
        old(ctx)@.active(),
    ensures
        final(ctx).wf(),
        grows(old(ctx)@, final(ctx)@),
        uniform_spec(
            old(ctx)@,
            final(ctx)@,
            Vec4Expr::shape(),
            seq![x.node, y.node, z.node, w.node],
            Vec4Expr::erased(result),
        ),
{
    Vec4Expr::new(ctx, x, y, z, w)
}

/// The vector of the 2 given scalars. It is made exactly where each of
/// them is a node of the current builder and a 32-bit signed integer scalar.
pub fn make_int2(ctx: &mut Context, x: Expr, y: Expr) -> (result: Result<
    IVec2Expr,
    Error,
>)
    requires
        old(ctx).wf(),
        old(ctx)@.active(),
    ensures
        final(ctx).wf(),
        grows(old(ctx)@, final(ctx)@),
        uniform_spec(
            old(ctx)@,
            final(ctx)@,
            IVec2Expr::shape(),
            seq![x.node, y.node],
            IVec2Expr::erased(result),
        ),
{
    IVec2Expr::new(ctx, x, y)
}

/// The vector of the 3 given scalars. It is made exactly where each of
/// them is a node of the current builder and a 32-bit signed integer scalar.
pub fn make_int3(ctx: &mut Context, x: Expr, y: Expr, z: Expr) -> (result: Result<
    IVec3Expr,
    Error,
>)
    requires
        old(ctx).wf(),
        old(ctx)@.active(),
    ensures
        final(ctx).wf(),
        grows(old(ctx)@, final(ctx)@),
        uniform_spec(
            old(ctx)@,
            final(ctx)@,
            IVec3Expr::shape(),
            seq![x.node, y.node, z.node],
            IVec3Expr::erased(result),
        ),
{
    IVec3Expr::new(ctx, x, y, z)
}

/// The vector of the 4 given scalars. It is made exactly where each of
/// them is a node of the current builder and a 32-bit signed integer scalar.
pub fn make_int4(ctx: &mut Context, x: Expr, y: Expr, z: Expr, w: Expr) -> (result: Result<
    IVec4Expr,
    Error,
>)
    requires
        old(ctx).wf(),
        old(ctx)@.active(),
    ensures
        final(ctx).wf(),
        grows(old(ctx)@, final(ctx)@),
        uniform_spec(
            old(ctx)@,
            final(ctx)@,
            IVec4Expr::shape(),
            seq![x.node, y.node, z.node, w.node],
            IVec4Expr::erased(result),
        ),
{
    IVec4Expr::new(ctx, x, y, z, w)
}

/// The vector of the 2 given scalars. It is made exactly where each of
/// them is a node of the current builder and a 32-bit unsigned integer scalar.
pub fn make_uint2(ctx: &mut Context, x: Expr, y: Expr) -> (result: Result<
    UVec2Expr,
    Error,
>)
    requires
        old(ctx).wf(),
        old(ctx)@.active(),
    ensures
        final(ctx).wf(),
        grows(old(ctx)@, final(ctx)@),
        uniform_spec(
            old(ctx)@,
            final(ctx)@,
            UVec2Expr::shape(),
            seq![x.node, y.node],
            UVec2Expr::erased(result),
        ),
{
    UVec2Expr::new(ctx, x, y)
}

/// The vector of the 3 given scalars. It is made exactly where each of
/// them is a node of the current builder and a 32-bit unsigned integer scalar.
pub fn make_uint3(ctx: &mut Context, x: Expr, y: Expr, z: Expr) -> (result: Result<
    UVec3Expr,
    Error,
>)
    requires
        old(ctx).wf(),
        old(ctx)@.active(),
    ensures
        final(ctx).wf(),
        grows(old(ctx)@, final(ctx)@),
        uniform_spec(
            old(ctx)@,
            final(ctx)@,
            UVec3Expr::shape(),
            seq![x.node, y.node, z.node],
            UVec3Expr::erased(result),
        ),
{
    UVec3Expr::new(ctx, x, y, z)
}

/// The vector of the 4 given scalars. It is made exactly where each of
/// them is a node of the current builder and a 32-bit unsigned integer scalar.
pub fn make_uint4(ctx: &mut Context, x: Expr, y: Expr, z: Expr, w: Expr) -> (result: Result<
    UVec4Expr,
    Error,
>)
    requires
        old(ctx).wf(),
        old(ctx)@.active(),
    ensures
        final(ctx).wf(),
        grows(old(ctx)@, final(ctx)@),
        uniform_spec(
            old(ctx)@,
            final(ctx)@,
            UVec4Expr::shape(),
            seq![x.node, y.node, z.node, w.node],
            UVec4Expr::erased(result),
        ),
{
    UVec4Expr::new(ctx, x, y, z, w)
}

} // verus!
