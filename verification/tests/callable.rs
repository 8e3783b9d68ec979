use luisa_compute::callable::DynCallable;
use luisa_compute::context::Context;
use luisa_compute::error::Error;
use luisa_compute::expr::Expr;
use luisa_compute::graph::{Func, Literal, NodeRef, Op};
use luisa_compute::types::{Primitive, Type};

fn float(ctx: &mut Context, value: f32) -> Expr {
    Expr::constant(ctx, Literal::Float32(value.to_bits()))
}

fn signed(ctx: &mut Context, value: i32) -> Expr {
    Expr::constant(ctx, Literal::Int32(value))
}

/// Adds two floats or two ints; any other argument type is not handled.
fn add(ctx: &mut Context, args: &Vec<Expr>) -> Result<Expr, Error> {
    let a = args[0];
    let b = args[1];
    if a.downcast(ctx, &Type::Scalar(Primitive::Float32)).is_some() {
        a.add(ctx, b)
    } else if a.downcast(ctx, &Type::Scalar(Primitive::Int32)).is_some() {
        a.add(ctx, b)
    } else {
        Err(Error::UnhandledArgument)
    }
}

#[test]
fn a_new_callable_has_no_specialization() {
    let callable = DynCallable::new(add);
    assert_eq!(callable.len(), 0);
    assert!(callable.get(0).is_none());
    assert_eq!(callable.find(&Vec::new()), None);
}

#[test]
fn the_first_call_with_a_signature_traces_the_body() {
    let mut ctx = Context::new();
    let mut callable = DynCallable::new(add);
    let (call, graph) = ctx.with_new_builder(|ctx| {
        let a = float(ctx, 1.5);
        let b = float(ctx, 2.25);
        let call = callable.call(ctx, &vec![a, b]).unwrap();
        (call, a, b)
    });
    let (call, a, b) = call;
    assert_eq!(callable.len(), 1);
    let cached = callable.get(0).unwrap();
    let float_ty = ctx.types().find(&Type::Scalar(Primitive::Float32)).unwrap();
    assert_eq!(cached.signature(), &vec![float_ty, float_ty]);
    assert_eq!(cached.ret(), float_ty);

    let body = cached.graph();
    assert_eq!(body.len(), 3);
    assert_eq!(body.node(0).unwrap().op, Op::Argument(0));
    assert_eq!(body.node(1).unwrap().op, Op::Argument(1));
    let sum = body.node(2).unwrap();
    assert_eq!(sum.op, Op::Call(Func::Add));
    assert_eq!(
        sum.operands,
        vec![NodeRef { builder: body.id(), index: 0 }, NodeRef { builder: body.id(), index: 1 }]
    );
    assert_eq!(cached.result(), NodeRef { builder: body.id(), index: 2 });

    let node = graph.node(call.node.index).unwrap();
    assert_eq!(node.op, Op::Invoke(body.id()));
    assert_eq!(node.operands, vec![a.node, b.node]);
    assert_eq!(node.ty, float_ty);
    assert_eq!(graph.len(), 3);
    assert_ne!(graph.id(), body.id());
}

#[test]
fn a_second_call_with_the_same_signature_reuses_the_specialization() {
    let mut ctx = Context::new();
    let mut callable = DynCallable::new(add);
    let (calls, graph) = ctx.with_new_builder(|ctx| {
        let a = float(ctx, 1.0);
        let b = float(ctx, 2.0);
        let first = callable.call(ctx, &vec![a, b]).unwrap();
        let after_first = callable.len();
        let opened = ctx.depth();
        let second = callable.call(ctx, &vec![b, a]).unwrap();
        (first, second, after_first, callable.len(), opened)
    });
    let (first, second, after_first, after_second, _) = calls;
    assert_eq!(after_first, 1);
    assert_eq!(after_second, 1);
    let id = callable.get(0).unwrap().graph().id();
    assert_eq!(graph.node(first.node.index).unwrap().op, Op::Invoke(id));
    assert_eq!(graph.node(second.node.index).unwrap().op, Op::Invoke(id));
    assert_ne!(first.node, second.node);
}

#[test]
fn a_hit_does_not_run_the_body() {
    let runs = std::cell::Cell::new(0);
    let mut ctx = Context::new();
    let mut callable = DynCallable::new(|ctx: &mut Context, args: &Vec<Expr>| {
        runs.set(runs.get() + 1);
        args[0].add(ctx, args[1])
    });
    ctx.with_new_builder(|ctx| {
        let a = float(ctx, 1.0);
        let i = signed(ctx, 1);
        callable.call(ctx, &vec![a, a]).unwrap();
        callable.call(ctx, &vec![a, a]).unwrap();
        callable.call(ctx, &vec![a, a]).unwrap();
        callable.call(ctx, &vec![i, i]).unwrap();
        callable.call(ctx, &vec![i, i]).unwrap();
    });
    assert_eq!(runs.get(), 2);
    assert_eq!(callable.len(), 2);
}

#[test]
fn each_signature_gets_its_own_specialization() {
    let mut ctx = Context::new();
    let mut callable = DynCallable::new(add);
    ctx.with_new_builder(|ctx| {
        let a = float(ctx, 1.0);
        let i = signed(ctx, 1);
        callable.call(ctx, &vec![a, a]).unwrap();
        callable.call(ctx, &vec![i, i]).unwrap();
    });
    assert_eq!(callable.len(), 2);
    let float_ty = ctx.types().find(&Type::Scalar(Primitive::Float32)).unwrap();
    let int_ty = ctx.types().find(&Type::Scalar(Primitive::Int32)).unwrap();
    assert_eq!(callable.find(&vec![float_ty, float_ty]), Some(0));
    assert_eq!(callable.find(&vec![int_ty, int_ty]), Some(1));
    assert_eq!(callable.find(&vec![int_ty, float_ty]), None);
    assert_eq!(callable.get(0).unwrap().ret(), float_ty);
    assert_eq!(callable.get(1).unwrap().ret(), int_ty);
    assert_ne!(
        callable.get(0).unwrap().graph().id(),
        callable.get(1).unwrap().graph().id()
    );
}

#[test]
fn an_unhandled_argument_type_is_an_error_and_caches_nothing() {
    let mut ctx = Context::new();
    let mut callable = DynCallable::new(add);
    ctx.with_new_builder(|ctx| {
        let b = Expr::constant(ctx, Literal::Bool(true));
        let before = ctx.current().len();
        let depth = ctx.depth();
        assert_eq!(callable.call(ctx, &vec![b, b]), Err(Error::UnhandledArgument));
        assert_eq!(ctx.current().len(), before);
        assert_eq!(ctx.depth(), depth);
    });
    assert_eq!(callable.len(), 0);
}

#[test]
fn a_body_that_fails_on_types_caches_nothing() {
    let mut ctx = Context::new();
    let mut callable = DynCallable::new(add);
    ctx.with_new_builder(|ctx| {
        let a = float(ctx, 1.0);
        let i = signed(ctx, 1);
        assert_eq!(callable.call(ctx, &vec![a, i]), Err(Error::TypeMismatch));
        assert_eq!(ctx.current().len(), 2);
    });
    assert_eq!(callable.len(), 0);
}

#[test]
fn arguments_must_be_nodes_of_the_current_builder() {
    let mut ctx = Context::new();
    let mut callable = DynCallable::new(add);
    ctx.with_new_builder(|ctx| {
        let a = float(ctx, 1.0);
        let missing = Expr { node: NodeRef { builder: 12, index: 3 } };
        assert_eq!(callable.call(ctx, &vec![a, missing]), Err(Error::UnknownNode));
        assert_eq!(ctx.current().len(), 1);
    });
    assert_eq!(callable.len(), 0);
}

#[test]
fn a_body_must_return_a_node_it_recorded() {
    let mut ctx = Context::new();
    let mut callable = DynCallable::new(|_: &mut Context, _: &Vec<Expr>| {
        Ok(Expr { node: NodeRef { builder: 0, index: 0 } })
    });
    ctx.with_new_builder(|ctx| {
        let a = float(ctx, 1.0);
        assert_eq!(callable.call(ctx, &vec![a]), Err(Error::UnknownNode));
        assert_eq!(ctx.current().len(), 1);
    });
    assert_eq!(callable.len(), 0);
}

#[test]
fn a_body_may_return_an_argument() {
    let mut ctx = Context::new();
    let mut callable = DynCallable::new(|_: &mut Context, args: &Vec<Expr>| Ok(args[1]));
    ctx.with_new_builder(|ctx| {
        let a = float(ctx, 1.0);
        let i = signed(ctx, 1);
        callable.call(ctx, &vec![a, i]).unwrap();
    });
    let cached = callable.get(0).unwrap();
    assert_eq!(cached.result().index, 1);
    assert_eq!(ctx.type_shape(cached.ret()), Some(&Type::Scalar(Primitive::Int32)));
}

#[test]
fn a_callable_traced_inside_a_kernel_is_a_graph_of_its_own() {
    let mut ctx = Context::new();
    let mut callable = DynCallable::new(add);
    let (_, kernel) = ctx.with_new_builder(|ctx| {
        let a = float(ctx, 1.0);
        callable.call(ctx, &vec![a, a]).unwrap();
        assert_eq!(ctx.depth(), 1);
    });
    let body = callable.get(0).unwrap().graph();
    assert_eq!(kernel.id(), 0);
    assert_eq!(body.id(), 1);
    assert_eq!(kernel.len(), 2);
    for i in 0..body.len() {
        for operand in body.node(i).unwrap().operands.iter() {
            assert_eq!(operand.builder, body.id());
        }
    }
}
