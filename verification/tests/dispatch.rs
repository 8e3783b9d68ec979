use luisa_compute::context::Context;
use luisa_compute::dispatch::{close_arm, open_arm, BufferHandle, Polymorphic, PolymorphicRef};
use luisa_compute::error::Error;
use luisa_compute::expr::Expr;
use luisa_compute::graph::{Graph, Literal, NodeRef, Op};
use luisa_compute::types::{Primitive, Type, TypeId};

fn unsigned(ctx: &mut Context, value: u32) -> Expr {
    Expr::constant(ctx, Literal::Uint32(value))
}

fn float(ctx: &mut Context, value: f32) -> Expr {
    Expr::constant(ctx, Literal::Float32(value.to_bits()))
}

/// A buffer of two objects of a host type of its own.
fn buffer(id: u64, element: TypeId) -> BufferHandle {
    BufferHandle { id, class: id, element, len: 2 }
}

/// Interns a struct of one float and a struct of two floats.
fn two_types(ctx: &mut Context) -> (TypeId, TypeId) {
    let f = ctx.register_type(Type::Scalar(Primitive::Float32)).unwrap();
    let one = ctx.register_type(Type::Struct(vec![f])).unwrap();
    let two = ctx.register_type(Type::Struct(vec![f, f])).unwrap();
    (one, two)
}

fn arms_of(graph: &Graph, switch: NodeRef) -> Vec<(u32, usize, NodeRef)> {
    let node = graph.node(switch.index).unwrap();
    assert_eq!(node.op, Op::Switch);
    node.operands[1..]
        .iter()
        .map(|arm| match graph.node(arm.index).unwrap().op {
            Op::Arm(tag, start) => (tag, start, *arm),
            other => panic!("not an arm: {:?}", other),
        })
        .collect()
}

#[test]
fn tags_are_dense_within_a_key() {
    let mut table = Polymorphic::new();
    let a = TypeId { index: 0 };
    let b = TypeId { index: 1 };
    let c = TypeId { index: 2 };
    assert_eq!(table.register(7, buffer(10, a)), Ok(0));
    assert_eq!(table.register(9, buffer(11, a)), Ok(0));
    assert_eq!(table.register(7, buffer(12, b)), Ok(1));
    assert_eq!(table.register(7, buffer(13, c)), Ok(2));
    assert_eq!(table.register(9, buffer(14, c)), Ok(1));
    assert_eq!(table.len(), 5);
    assert_eq!(table.arms(7), vec![buffer(10, a), buffer(12, b), buffer(13, c)]);
    assert_eq!(table.arms(9), vec![buffer(11, a), buffer(14, c)]);
    assert_eq!(table.arms(1), Vec::new());
}

#[test]
fn a_type_is_registered_once_per_key() {
    let mut table = Polymorphic::new();
    let a = TypeId { index: 0 };
    let first = BufferHandle { id: 1, class: 77, element: a, len: 2 };
    let second = BufferHandle { id: 2, class: 77, element: a, len: 8 };
    assert_eq!(table.register(0, first), Ok(0));
    assert_eq!(table.register(0, second), Err(Error::DuplicateRegistration));
    assert_eq!(table.len(), 1);
    assert_eq!(table.register(1, second), Ok(0));
    assert_eq!(table.len(), 2);
}

#[test]
fn two_host_types_of_one_structure_get_two_tags() {
    let mut table = Polymorphic::new();
    let shared = TypeId { index: 0 };
    let circles = BufferHandle { id: 1, class: 1, element: shared, len: 2 };
    let squares = BufferHandle { id: 2, class: 2, element: shared, len: 2 };
    assert_eq!(table.register(0, circles), Ok(0));
    assert_eq!(table.register(0, squares), Ok(1));
    assert_eq!(table.arms(0), vec![circles, squares]);
}

#[test]
fn get_keeps_the_key_and_the_traced_pair() {
    let table = Polymorphic::new();
    let tag = Expr { node: NodeRef { builder: 0, index: 1 } };
    let index = Expr { node: NodeRef { builder: 0, index: 2 } };
    assert_eq!(table.get(5, tag, index), PolymorphicRef { key: 5, tag, index });
}

#[test]
fn dispatch_records_one_arm_per_tag_in_registration_order() {
    let mut ctx = Context::new();
    let mut table = Polymorphic::new();
    let (merged, graph) = ctx.with_new_builder(|ctx| {
        let (one, two) = two_types(ctx);
        let f = ctx.register_type(Type::Scalar(Primitive::Float32)).unwrap();
        let v = ctx.register_type(Type::Vector(Primitive::Float32, 2)).unwrap();
        table.register(0, buffer(100, one)).unwrap();
        table.register(0, buffer(200, two)).unwrap();
        table.register(0, buffer(300, v)).unwrap();
        table.register(0, buffer(400, f)).unwrap();
        table.register(1, buffer(500, f)).unwrap();
        let tag = unsigned(ctx, 0);
        let index = unsigned(ctx, 1);
        let target = table.get(0, tag, index);
        let merged = table
            .dispatch(ctx, &target, |ctx, tag, key, _object| {
                assert_eq!(key, 0);
                Ok(float(ctx, tag as f32))
            })
            .unwrap();
        (merged, tag, index)
    });
    let (merged, tag, index) = merged;
    let switch = graph.node(merged.node.index).unwrap();
    assert_eq!(merged.node.index, graph.len() - 1);
    assert_eq!(switch.operands.len(), 5);
    assert_eq!(switch.operands[0], tag.node);
    assert_eq!(ctx.type_shape(switch.ty), Some(&Type::Scalar(Primitive::Float32)));
    let arms = arms_of(&graph, merged.node);
    assert_eq!(arms.len(), 4);
    let buffers = [100u64, 200, 300, 400];
    let mut last = 0;
    for (position, (tag, start, arm)) in arms.iter().enumerate() {
        assert_eq!(*tag, position as u32);
        assert!(*start < arm.index);
        assert!(arm.index > last);
        last = arm.index;
        let read = graph.node(*start).unwrap();
        assert_eq!(read.op, Op::BufferRead(buffers[position]));
        assert_eq!(read.operands, vec![index.node]);
        let sealed = graph.node(arm.index).unwrap();
        assert_eq!(sealed.ty, switch.ty);
        assert_eq!(sealed.operands.len(), 1);
        let value = graph.node(sealed.operands[0].index).unwrap();
        assert_eq!(value.op, Op::Literal(Literal::Float32((position as f32).to_bits())));
    }
}

#[test]
fn dispatch_hands_each_arm_the_object_of_its_type() {
    let mut ctx = Context::new();
    let mut table = Polymorphic::new();
    let (seen, _) = ctx.with_new_builder(|ctx| {
        let (one, two) = two_types(ctx);
        table.register(3, buffer(1, one)).unwrap();
        table.register(3, buffer(2, two)).unwrap();
        let tag = unsigned(ctx, 0);
        let index = unsigned(ctx, 0);
        let target = table.get(3, tag, index);
        let seen = std::cell::RefCell::new(Vec::new());
        table
            .dispatch(ctx, &target, |ctx, tag, key, object| {
                let ty = ctx.type_of(object.node).unwrap();
                seen.borrow_mut().push((tag, key, ty));
                object.extract(ctx, 0)
            })
            .unwrap();
        (seen.into_inner(), one, two)
    });
    let (calls, one, two) = seen;
    assert_eq!(calls, vec![(0, 3, one), (1, 3, two)]);
}

#[test]
fn dispatch_over_an_empty_namespace_is_refused() {
    let mut ctx = Context::new();
    let mut table = Polymorphic::new();
    let (result, graph) = ctx.with_new_builder(|ctx| {
        let (one, _) = two_types(ctx);
        table.register(0, buffer(1, one)).unwrap();
        let tag = unsigned(ctx, 0);
        let index = unsigned(ctx, 0);
        let target = table.get(1, tag, index);
        table.dispatch(ctx, &target, |_, _, _, object| Ok(object))
    });
    assert_eq!(result, Err(Error::EmptyDispatch));
    assert_eq!(graph.len(), 2);
}

#[test]
fn dispatch_checks_the_tag_and_the_index() {
    let mut ctx = Context::new();
    let mut table = Polymorphic::new();
    ctx.with_new_builder(|ctx| {
        let (one, _) = two_types(ctx);
        table.register(0, buffer(1, one)).unwrap();
        let good = unsigned(ctx, 0);
        let float_tag = float(ctx, 0.0);
        let missing = Expr { node: NodeRef { builder: 42, index: 0 } };
        let before = ctx.current().len();
        let body = |_: &mut Context, _: u32, _: u64, object: Expr| Ok(object);
        let target = table.get(0, float_tag, good);
        assert_eq!(table.dispatch(ctx, &target, body), Err(Error::TypeMismatch));
        let target = table.get(0, good, float_tag);
        assert_eq!(table.dispatch(ctx, &target, body), Err(Error::TypeMismatch));
        let target = table.get(0, missing, good);
        assert_eq!(table.dispatch(ctx, &target, body), Err(Error::UnknownNode));
        let target = table.get(0, good, missing);
        assert_eq!(table.dispatch(ctx, &target, body), Err(Error::UnknownNode));
        assert_eq!(ctx.current().len(), before);
        assert_eq!(ctx.current().depth(), 0);
    });
}

#[test]
fn dispatch_refuses_a_buffer_whose_type_is_not_interned() {
    let mut ctx = Context::new();
    let mut table = Polymorphic::new();
    ctx.with_new_builder(|ctx| {
        table.register(0, buffer(1, TypeId { index: 50 })).unwrap();
        let tag = unsigned(ctx, 0);
        let index = unsigned(ctx, 0);
        let target = table.get(0, tag, index);
        let result = table.dispatch(ctx, &target, |_, _, _, object| Ok(object));
        assert_eq!(result, Err(Error::InvalidType));
        assert_eq!(ctx.current().len(), 2);
    });
}

#[test]
fn a_failing_arm_leaves_the_builder_as_it_was() {
    let mut ctx = Context::new();
    let mut table = Polymorphic::new();
    ctx.with_new_builder(|ctx| {
        let (one, two) = two_types(ctx);
        table.register(0, buffer(1, one)).unwrap();
        table.register(0, buffer(2, two)).unwrap();
        let tag = unsigned(ctx, 0);
        let index = unsigned(ctx, 0);
        let target = table.get(0, tag, index);
        let before = ctx.current().len();
        let result = table.dispatch(ctx, &target, |ctx, tag, _, object| {
            float(ctx, 1.0);
            if tag == 1 {
                Err(Error::UnhandledArgument)
            } else {
                object.extract(ctx, 0)
            }
        });
        assert_eq!(result, Err(Error::UnhandledArgument));
        assert_eq!(ctx.current().len(), before);
        assert_eq!(ctx.current().depth(), 0);
    });
}

#[test]
fn arms_must_agree_on_the_result_type() {
    let mut ctx = Context::new();
    let mut table = Polymorphic::new();
    ctx.with_new_builder(|ctx| {
        let (one, two) = two_types(ctx);
        table.register(0, buffer(1, one)).unwrap();
        table.register(0, buffer(2, two)).unwrap();
        let tag = unsigned(ctx, 0);
        let index = unsigned(ctx, 0);
        let target = table.get(0, tag, index);
        let before = ctx.current().len();
        let result = table.dispatch(ctx, &target, |ctx, tag, _, _| {
            if tag == 0 {
                Ok(float(ctx, 1.0))
            } else {
                Ok(unsigned(ctx, 1))
            }
        });
        assert_eq!(result, Err(Error::TypeMismatch));
        assert_eq!(ctx.current().len(), before);
    });
}

#[test]
fn an_arm_must_yield_a_node_of_the_current_builder() {
    let mut ctx = Context::new();
    let mut table = Polymorphic::new();
    ctx.with_new_builder(|ctx| {
        let (one, _) = two_types(ctx);
        table.register(0, buffer(1, one)).unwrap();
        let tag = unsigned(ctx, 0);
        let index = unsigned(ctx, 0);
        let target = table.get(0, tag, index);
        let result = table.dispatch(ctx, &target, |_, _, _, _| {
            Ok(Expr { node: NodeRef { builder: 31, index: 0 } })
        });
        assert_eq!(result, Err(Error::UnknownNode));
        assert_eq!(ctx.current().len(), 2);
        assert_eq!(ctx.current().depth(), 0);
    });
}

#[test]
fn an_arm_is_opened_and_sealed_by_hand() {
    let mut ctx = Context::new();
    let (_, graph) = ctx.with_new_builder(|ctx| {
        let (one, _) = two_types(ctx);
        let index = unsigned(ctx, 1);
        let object = open_arm(ctx, buffer(9, one), index).unwrap();
        assert_eq!(ctx.current().depth(), 1);
        let radius = object.extract(ctx, 0).unwrap();
        let wrong = ctx.register_type(Type::Scalar(Primitive::Bool)).unwrap();
        assert_eq!(close_arm(ctx, 4, radius, Some(wrong)), Err(Error::TypeMismatch));
        assert_eq!(ctx.current().depth(), 1);
        let arm = close_arm(ctx, 4, radius, None).unwrap();
        assert_eq!(ctx.current().depth(), 0);
        let node = ctx.current().node(arm.node.index).unwrap().clone();
        assert_eq!(node.op, Op::Arm(4, 1));
        assert_eq!(node.operands, vec![radius.node]);
        let float_index = float(ctx, 0.0);
        let before = ctx.current().len();
        assert_eq!(open_arm(ctx, buffer(9, one), float_index), Err(Error::TypeMismatch));
        assert_eq!(
            open_arm(ctx, buffer(9, TypeId { index: 99 }), index),
            Err(Error::InvalidType)
        );
        assert_eq!(ctx.current().len(), before);
        assert_eq!(ctx.current().depth(), 0);
    });
    assert_eq!(graph.node(1).unwrap().op, Op::BufferRead(9));
}
