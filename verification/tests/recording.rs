use luisa_compute::context::Context;
use luisa_compute::error::Error;
use luisa_compute::expr::Expr;
use luisa_compute::graph::{Graph, Literal, NodeRef, Op};
use luisa_compute::types::{Primitive, Type, TypeId};

fn float(ctx: &mut Context, value: f32) -> Expr {
    Expr::constant(ctx, Literal::Float32(value.to_bits()))
}

fn operands_point_backwards(graph: &Graph) -> bool {
    for i in 0..graph.len() {
        let node = graph.node(i).unwrap();
        for operand in node.operands.iter() {
            if operand.builder != graph.id() || operand.index >= i {
                return false;
            }
        }
    }
    true
}

#[test]
fn a_new_context_has_no_builder() {
    let ctx = Context::new();
    assert!(!ctx.active());
    assert_eq!(ctx.depth(), 0);
    assert_eq!(ctx.types().len(), 0);
}

#[test]
fn with_new_builder_restores_the_previous_builder() {
    let mut ctx = Context::new();
    let (depths, outer) = ctx.with_new_builder(|ctx| {
        let before = ctx.depth();
        let outer_id = ctx.current().id();
        let (inner_id, inner) = ctx.with_new_builder(|ctx| {
            float(ctx, 1.0);
            (ctx.current().id(), ctx.depth())
        });
        let after = ctx.depth();
        assert_eq!(ctx.current().id(), outer_id);
        assert_eq!(inner.len(), 1);
        assert_eq!(inner.id(), inner_id.0);
        (before, inner_id.1, after)
    });
    assert_eq!(depths, (1, 2, 1));
    assert_eq!(outer.len(), 0);
    assert!(!ctx.active());
}

#[test]
fn builders_get_distinct_identities() {
    let mut ctx = Context::new();
    let (_, first) = ctx.with_new_builder(|_| ());
    let (_, second) = ctx.with_new_builder(|_| ());
    assert_eq!(first.id(), 0);
    assert_eq!(second.id(), 1);
}

#[test]
fn emit_appends_and_does_not_share_equal_instructions() {
    let mut ctx = Context::new();
    let (made, graph) = ctx.with_new_builder(|ctx| {
        let ty = ctx.register_type(Type::Scalar(Primitive::Int32)).unwrap();
        let a = ctx.emit(Op::Literal(Literal::Int32(7)), Vec::new(), ty).unwrap();
        let b = ctx.emit(Op::Literal(Literal::Int32(7)), Vec::new(), ty).unwrap();
        (a, b)
    });
    assert_eq!(made.0.index, 0);
    assert_eq!(made.1.index, 1);
    assert_eq!(graph.len(), 2);
    assert_eq!(graph.node(0), graph.node(1));
}

#[test]
fn emit_refuses_an_operand_that_does_not_exist_yet() {
    let mut ctx = Context::new();
    let (result, graph) = ctx.with_new_builder(|ctx| {
        let ty = ctx.register_type(Type::Scalar(Primitive::Int32)).unwrap();
        let ahead = NodeRef { builder: ctx.current().id(), index: 0 };
        ctx.emit(Op::Load, vec![ahead], ty)
    });
    assert_eq!(result, Err(Error::UnknownNode));
    assert_eq!(graph.len(), 0);
}

#[test]
fn emit_refuses_a_node_of_another_builder() {
    let mut ctx = Context::new();
    let (result, _) = ctx.with_new_builder(|ctx| {
        let outer = float(ctx, 1.0);
        let (inner, graph) = ctx.with_new_builder(|ctx| {
            float(ctx, 2.0);
            outer.length(ctx)
        });
        assert_eq!(graph.len(), 1);
        inner
    });
    assert_eq!(result, Err(Error::UnknownNode));
}

#[test]
fn emit_refuses_a_type_that_is_not_interned() {
    let mut ctx = Context::new();
    let (result, graph) = ctx.with_new_builder(|ctx| {
        ctx.emit(Op::Literal(Literal::Bool(true)), Vec::new(), TypeId { index: 3 })
    });
    assert_eq!(result, Err(Error::InvalidType));
    assert_eq!(graph.len(), 0);
}

#[test]
fn emit_refuses_a_block_that_starts_beyond_the_arena() {
    let mut ctx = Context::new();
    let (result, _) = ctx.with_new_builder(|ctx| {
        let ty = ctx.register_type(Type::Struct(Vec::new())).unwrap();
        ctx.emit(Op::Block(1), Vec::new(), ty)
    });
    assert_eq!(result, Err(Error::IndexOutOfRange));
}

#[test]
fn pop_scope_seals_the_nodes_recorded_inside() {
    let mut ctx = Context::new();
    let (block, graph) = ctx.with_new_builder(|ctx| {
        float(ctx, 0.0);
        ctx.push_scope();
        assert_eq!(ctx.current().depth(), 1);
        float(ctx, 1.0);
        float(ctx, 2.0);
        let block = ctx.pop_scope();
        assert_eq!(ctx.current().depth(), 0);
        block
    });
    assert_eq!(block.index, 3);
    let node = graph.node(3).unwrap();
    assert_eq!(node.op, Op::Block(1));
    assert!(node.operands.is_empty());
    assert_eq!(ctx.type_shape(node.ty), Some(&Type::Struct(Vec::new())));
}

#[test]
fn scopes_nest() {
    let mut ctx = Context::new();
    let (blocks, graph) = ctx.with_new_builder(|ctx| {
        ctx.push_scope();
        float(ctx, 1.0);
        ctx.push_scope();
        float(ctx, 2.0);
        let inner = ctx.pop_scope();
        let outer = ctx.pop_scope();
        (inner, outer)
    });
    assert_eq!(graph.node(blocks.0.index).unwrap().op, Op::Block(1));
    assert_eq!(graph.node(blocks.1.index).unwrap().op, Op::Block(0));
    assert_eq!(graph.len(), 4);
}

#[test]
fn an_operation_never_changes_what_a_handle_denotes() {
    let mut ctx = Context::new();
    let (seen, graph) = ctx.with_new_builder(|ctx| {
        let a = float(ctx, 3.0);
        let b = float(ctx, 4.0);
        let v = Expr::build(ctx, Type::Vector(Primitive::Float32, 2), &vec![a, b]).unwrap();
        let before = ctx.current().node(v.node.index).unwrap().clone();
        v.length(ctx).unwrap();
        v.replace_x(ctx, b).unwrap();
        v.add(ctx, v).unwrap();
        let after = ctx.current().node(v.node.index).unwrap().clone();
        (v, before, after)
    });
    assert_eq!(seen.1, seen.2);
    assert_eq!(graph.node(seen.0.node.index), Some(&seen.1));
}

#[test]
fn a_sealed_graph_has_no_cycle() {
    let mut ctx = Context::new();
    let (_, graph) = ctx.with_new_builder(|ctx| {
        let a = float(ctx, 1.0);
        let b = float(ctx, 2.0);
        let v = Expr::build(ctx, Type::Vector(Primitive::Float32, 2), &vec![a, b]).unwrap();
        let w = v.mul(ctx, a).unwrap();
        let d = v.dot(ctx, w).unwrap();
        ctx.push_scope();
        d.add(ctx, b).unwrap();
        ctx.pop_scope();
    });
    assert!(graph.len() > 5);
    assert!(operands_point_backwards(&graph));
}

#[test]
fn a_failed_operation_records_nothing() {
    let mut ctx = Context::new();
    let (result, graph) = ctx.with_new_builder(|ctx| {
        let a = float(ctx, 1.0);
        let b = Expr::constant(ctx, Literal::Int32(2));
        a.add(ctx, b)
    });
    assert_eq!(result, Err(Error::TypeMismatch));
    assert_eq!(graph.len(), 2);
}
