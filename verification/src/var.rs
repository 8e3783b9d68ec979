//! Assignable storage locations.
use vstd::prelude::*;
use crate::context::{grows, lemma_grows_refl, Context, ContextView};
use crate::error::Error;
use crate::expr::{lemma_interned_well_formed, outcome, record, recorded, Expr};
use crate::graph::{NodeRef, Op};
use crate::types::Shape;

verus! {

/// A handle over a storage location: a node that can be read again and
/// written again, where an [`Expr`] only names a value.
#[derive(Clone, Copy, PartialEq, Eq, Structural, Debug)]
pub struct Var {
    pub node: NodeRef,
}

/// The check of a new location: its first value must be a node of the
/// current builder. It gives that value's type.
pub open spec fn local_check(v: ContextView, init: NodeRef) -> Result<Shape, Error> {
    if !v.holds(init) {
        Err(Error::UnknownNode)
    } else {
        Ok(v.shape(init))
    }
}

/// The check of a read: the location must be a `Local` node of the current
/// builder. It gives the type of the location.
pub open spec fn load_check(v: ContextView, var: NodeRef) -> Result<Shape, Error> {
    if !v.holds(var) {
        Err(Error::UnknownNode)
    } else if v.node(var).op != Op::Local {
        Err(Error::TypeMismatch)
    } else {
        Ok(v.shape(var))
    }
}

/// The check of a write: as for a read, and the value must be a node of
/// the current builder of the location's type.
pub open spec fn store_check(v: ContextView, var: NodeRef, value: NodeRef) -> Result<Shape, Error> {
    if !v.holds(var) || !v.holds(value) {
        Err(Error::UnknownNode)
    } else if v.node(var).op != Op::Local || v.shape(value) != v.shape(var) {
        Err(Error::TypeMismatch)
    } else {
        Ok(v.shape(var))
    }
}

impl Var {
    /// The location as a value: the node that produces the reference.
    pub fn expr(&self) -> (e: Expr)
        ensures
            e.node == self.node,
    {
        Expr { node: self.node }
    }

    /// A new storage location that first holds `init`. Records one `Local`
    /// node of the type of `init`.
    pub fn local(ctx: &mut Context, init: Expr) -> (result: Result<Var, Error>)
        requires
            old(ctx).wf(),
            old(ctx)@.active(),
        ensures
            final(ctx).wf(),
            grows(old(ctx)@, final(ctx)@),
            outcome(
                old(ctx)@,
                final(ctx)@,
                Op::Local,
                seq![init.node],
                local_check(old(ctx)@, init.node),
                match result {
                    Ok(var) => Ok(Expr { node: var.node }),
                    Err(e) => Err(e),
                },
            ),
    {
        proof {
            lemma_grows_refl(ctx@);
        }
        let ty = match ctx.type_of(init.node) {
            None => {
                return Err(Error::UnknownNode);
            },
            Some(ty) => ty,
        };
        proof {
            lemma_interned_well_formed(ctx@.types, ty.index as int);
        }
        let shape = ctx.type_shape(ty).unwrap().duplicate();
        let operands = vec![init.node];
        assert(operands@ =~= seq![init.node]);
        let node = record(ctx, Op::Local, operands, shape);
        Ok(Var { node })
    }

    /// Whether the current builder holds `node` and it is a `Local` node.
    fn is_local(ctx: &Context, node: NodeRef) -> (result: Result<(), Error>)
        requires
            ctx.wf(),
        ensures
            match result {
                Ok(_) => ctx@.holds(node) && ctx@.node(node).op == Op::Local,
                Err(e) => if !ctx@.holds(node) {
                    e == Error::UnknownNode
                } else {
                    e == Error::TypeMismatch && ctx@.node(node).op != Op::Local
                },
            },
    {
        if !ctx.holds(node) {
            return Err(Error::UnknownNode);
        }
        match ctx.current().node(node.index).unwrap().op {
            Op::Local => Ok(()),
            _ => Err(Error::TypeMismatch),
        }
    }

    /// The value the location holds now. Records one `Load` node of the
    /// location's type.
    pub fn load(&self, ctx: &mut Context) -> (result: Result<Expr, Error>)
        requires
            old(ctx).wf(),
            old(ctx)@.active(),
        ensures
            final(ctx).wf(),
            grows(old(ctx)@, final(ctx)@),
            outcome(
                old(ctx)@,
                final(ctx)@,
                Op::Load,
                seq![self.node],
                load_check(old(ctx)@, self.node),
                result,
            ),
    {
        proof {
            lemma_grows_refl(ctx@);
        }
        match Self::is_local(ctx, self.node) {
            Err(e) => {
                return Err(e);
            },
            Ok(_) => {},
        }
        let ty = ctx.type_of(self.node).unwrap();
        proof {
            lemma_interned_well_formed(ctx@.types, ty.index as int);
        }
        let shape = ctx.type_shape(ty).unwrap().duplicate();
        let operands = vec![self.node];
        assert(operands@ =~= seq![self.node]);
        let node = record(ctx, Op::Load, operands, shape);
        Ok(Expr { node })
    }

    /// Writes `value` to the location. Records one `Store` node of the
    /// location's type; nodes recorded so far are not touched, so a handle
    /// obtained by an earlier `load` still denotes the value read then.
    pub fn store(&self, ctx: &mut Context, value: Expr) -> (result: Result<(), Error>)
        requires
            old(ctx).wf(),
            old(ctx)@.active(),
        ensures
            final(ctx).wf(),
            grows(old(ctx)@, final(ctx)@),
            match store_check(old(ctx)@, self.node, value.node) {
                Ok(shape) => result == Ok::<(), Error>(()) && final(ctx)@ == recorded(
                    old(ctx)@,
                    Op::Store,
                    seq![self.node, value.node],
                    shape,
                ),
                Err(e) => result == Err::<(), Error>(e) && final(ctx)@ == old(ctx)@,
            },
    {
        proof {
            lemma_grows_refl(ctx@);
        }
        if !ctx.holds(self.node) || !ctx.holds(value.node) {
            return Err(Error::UnknownNode);
        }
        match Self::is_local(ctx, self.node) {
            Err(e) => {
                return Err(e);
            },
            Ok(_) => {},
        }
        let ty = ctx.type_of(self.node).unwrap();
        let given = ctx.type_of(value.node).unwrap();
        if !ctx.type_shape(given).unwrap().same(ctx.type_shape(ty).unwrap()) {
            return Err(Error::TypeMismatch);
        }
        proof {
            lemma_interned_well_formed(ctx@.types, ty.index as int);
        }
        let shape = ctx.type_shape(ty).unwrap().duplicate();
        let operands = vec![self.node, value.node];
        assert(operands@ =~= seq![self.node, value.node]);
        record(ctx, Op::Store, operands, shape);
        Ok(())
    }
}

} // verus!
