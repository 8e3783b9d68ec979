use luisa_compute::context::Context;
use luisa_compute::error::Error;
use luisa_compute::expr::Expr;
use luisa_compute::graph::{Func, Literal, Op};
use luisa_compute::ops::FLOAT_ONE;
use luisa_compute::types::{Primitive, Type};
use luisa_compute::var::Var;

fn float(ctx: &mut Context, value: f32) -> Expr {
    Expr::constant(ctx, Literal::Float32(value.to_bits()))
}

fn signed(ctx: &mut Context, value: i32) -> Expr {
    Expr::constant(ctx, Literal::Int32(value))
}

fn unsigned(ctx: &mut Context, value: u32) -> Expr {
    Expr::constant(ctx, Literal::Uint32(value))
}

fn boolean(ctx: &mut Context, value: bool) -> Expr {
    Expr::constant(ctx, Literal::Bool(value))
}

fn vector(ctx: &mut Context, element: Primitive, parts: &[Expr]) -> Expr {
    Expr::build(ctx, Type::Vector(element, parts.len() as u32), &parts.to_vec()).unwrap()
}

fn float3(ctx: &mut Context) -> Expr {
    let parts = [float(ctx, 1.0), float(ctx, 2.0), float(ctx, 3.0)];
    vector(ctx, Primitive::Float32, &parts)
}

fn int2(ctx: &mut Context) -> Expr {
    let parts = [signed(ctx, 1), signed(ctx, 2)];
    vector(ctx, Primitive::Int32, &parts)
}

fn bool2(ctx: &mut Context) -> Expr {
    let parts = [boolean(ctx, true), boolean(ctx, false)];
    vector(ctx, Primitive::Bool, &parts)
}

fn matrix(ctx: &mut Context, n: u32) -> Expr {
    let mut columns = Vec::new();
    for _ in 0..n {
        let mut parts = Vec::new();
        for k in 0..n {
            parts.push(float(ctx, k as f32));
        }
        columns.push(vector(ctx, Primitive::Float32, &parts));
    }
    Expr::build(ctx, Type::Matrix(Primitive::Float32, n), &columns).unwrap()
}

fn shape_of(ctx: &Context, e: Expr) -> Type {
    let ty = ctx.type_of(e.node).unwrap();
    ctx.type_shape(ty).unwrap().clone()
}

fn traced<R>(f: impl FnOnce(&mut Context) -> R) -> R {
    let mut ctx = Context::new();
    let (r, _) = ctx.with_new_builder(f);
    r
}

#[test]
fn a_constant_has_the_scalar_type_of_its_kind() {
    traced(|ctx| {
        let f = float(ctx, 1.5);
        let i = signed(ctx, -3);
        let u = unsigned(ctx, 3);
        let b = boolean(ctx, true);
        assert_eq!(shape_of(ctx, f), Type::Scalar(Primitive::Float32));
        assert_eq!(shape_of(ctx, i), Type::Scalar(Primitive::Int32));
        assert_eq!(shape_of(ctx, u), Type::Scalar(Primitive::Uint32));
        assert_eq!(shape_of(ctx, b), Type::Scalar(Primitive::Bool));
        let node = ctx.current().node(f.node.index).unwrap();
        assert_eq!(node.op, Op::Literal(Literal::Float32(0x3fc0_0000)));
    });
}

#[test]
fn arithmetic_on_equal_types_yields_that_type() {
    traced(|ctx| {
        let v = float3(ctx);
        let w = float3(ctx);
        let before = ctx.current().len();
        for (result, func) in [
            (v.add(ctx, w), Func::Add),
            (v.sub(ctx, w), Func::Sub),
            (v.mul(ctx, w), Func::Mul),
            (v.div(ctx, w), Func::Div),
            (v.rem(ctx, w), Func::Rem),
        ] {
            let e = result.unwrap();
            assert_eq!(shape_of(ctx, e), Type::Vector(Primitive::Float32, 3));
            let node = ctx.current().node(e.node.index).unwrap();
            assert_eq!(node.op, Op::Call(func));
            assert_eq!(node.operands, vec![v.node, w.node]);
        }
        assert_eq!(ctx.current().len(), before + 5);
    });
}

#[test]
fn arithmetic_widens_a_scalar_operand() {
    traced(|ctx| {
        let v = float3(ctx);
        let s = float(ctx, 2.0);
        let before = ctx.current().len();
        let right = v.mul(ctx, s).unwrap();
        assert_eq!(ctx.current().len(), before + 2);
        let splat = ctx.current().node(before).unwrap().clone();
        assert_eq!(splat.op, Op::Call(Func::Splat(3)));
        assert_eq!(splat.operands, vec![s.node]);
        let node = ctx.current().node(right.node.index).unwrap().clone();
        assert_eq!(node.op, Op::Call(Func::Mul));
        assert_eq!(node.operands[0], v.node);
        assert_eq!(node.operands[1].index, before);
        assert_eq!(shape_of(ctx, right), Type::Vector(Primitive::Float32, 3));

        let left = s.sub(ctx, v).unwrap();
        let node = ctx.current().node(left.node.index).unwrap().clone();
        assert_eq!(node.operands[0].index, before + 2);
        assert_eq!(node.operands[1], v.node);
        assert_eq!(shape_of(ctx, left), Type::Vector(Primitive::Float32, 3));
    });
}

#[test]
fn arithmetic_refuses_mismatched_operands() {
    traced(|ctx| {
        let v = float3(ctx);
        let w = int2(ctx);
        let i = signed(ctx, 1);
        let b = bool2(ctx);
        let before = ctx.current().len();
        assert_eq!(v.add(ctx, w), Err(Error::TypeMismatch));
        assert_eq!(v.add(ctx, i), Err(Error::TypeMismatch));
        assert_eq!(b.add(ctx, b), Err(Error::TypeMismatch));
        assert_eq!(ctx.current().len(), before);
    });
}

#[test]
fn vectors_of_different_length_do_not_mix() {
    traced(|ctx| {
        let a = [float(ctx, 1.0), float(ctx, 2.0)];
        let two = vector(ctx, Primitive::Float32, &a);
        let three = float3(ctx);
        assert_eq!(two.add(ctx, three), Err(Error::TypeMismatch));
        assert_eq!(two.dot(ctx, three), Err(Error::TypeMismatch));
    });
}

#[test]
fn bitwise_operations_take_integers_and_booleans() {
    traced(|ctx| {
        let v = int2(ctx);
        let b = bool2(ctx);
        let f = float3(ctx);
        let e = v.bitand(ctx, v).unwrap();
        assert_eq!(shape_of(ctx, e), Type::Vector(Primitive::Int32, 2));
        let e = b.bitor(ctx, b).unwrap();
        assert_eq!(shape_of(ctx, e), Type::Vector(Primitive::Bool, 2));
        let e = b.bitxor(ctx, b).unwrap();
        assert_eq!(shape_of(ctx, e), Type::Vector(Primitive::Bool, 2));
        assert_eq!(f.bitand(ctx, f), Err(Error::TypeMismatch));
        assert_eq!(f.bitxor(ctx, f), Err(Error::TypeMismatch));
    });
}

#[test]
fn shifts_take_integers_only() {
    traced(|ctx| {
        let v = int2(ctx);
        let b = bool2(ctx);
        let f = float3(ctx);
        let one = signed(ctx, 1);
        let e = v.shl(ctx, one).unwrap();
        assert_eq!(shape_of(ctx, e), Type::Vector(Primitive::Int32, 2));
        let e = v.shr(ctx, v).unwrap();
        assert_eq!(shape_of(ctx, e), Type::Vector(Primitive::Int32, 2));
        assert_eq!(b.shl(ctx, b), Err(Error::TypeMismatch));
        assert_eq!(f.shr(ctx, f), Err(Error::TypeMismatch));
    });
}

#[test]
fn comparisons_yield_a_boolean_vector_of_matching_length() {
    traced(|ctx| {
        let v = float3(ctx);
        let s = float(ctx, 2.0);
        for result in [
            v.less_than(ctx, v),
            v.less_equal(ctx, v),
            v.greater_than(ctx, v),
            v.greater_equal(ctx, v),
            v.equal_to(ctx, v),
            v.not_equal(ctx, s),
        ] {
            let e = result.unwrap();
            assert_eq!(shape_of(ctx, e), Type::Vector(Primitive::Bool, 3));
        }
        let e = s.less_than(ctx, s).unwrap();
        assert_eq!(shape_of(ctx, e), Type::Scalar(Primitive::Bool));
        let b = bool2(ctx);
        assert_eq!(b.less_than(ctx, b), Err(Error::TypeMismatch));
    });
}

#[test]
fn field_access_yields_the_element_type() {
    traced(|ctx| {
        let v = float3(ctx);
        for (result, index) in [(v.x(ctx), 0), (v.y(ctx), 1), (v.z(ctx), 2)] {
            let e = result.unwrap();
            assert_eq!(shape_of(ctx, e), Type::Scalar(Primitive::Float32));
            let node = ctx.current().node(e.node.index).unwrap();
            assert_eq!(node.op, Op::Extract(index));
            assert_eq!(node.operands, vec![v.node]);
        }
    });
}

#[test]
fn field_access_beyond_the_arity_is_refused() {
    traced(|ctx| {
        let v = float3(ctx);
        let s = float(ctx, 1.0);
        assert_eq!(v.w(ctx), Err(Error::IndexOutOfRange));
        assert_eq!(v.extract(ctx, 3), Err(Error::IndexOutOfRange));
        assert_eq!(s.x(ctx), Err(Error::TypeMismatch));
        assert_eq!(v.replace_w(ctx, s), Err(Error::IndexOutOfRange));
    });
}

#[test]
fn a_matrix_column_is_a_vector() {
    traced(|ctx| {
        let m = matrix(ctx, 3);
        let c = m.col(ctx, 2).unwrap();
        assert_eq!(shape_of(ctx, c), Type::Vector(Primitive::Float32, 3));
        assert_eq!(m.col(ctx, 3), Err(Error::IndexOutOfRange));
    });
}

#[test]
fn struct_fields_and_array_elements_can_be_read() {
    traced(|ctx| {
        let f = ctx.register_type(Type::Scalar(Primitive::Float32)).unwrap();
        let i = ctx.register_type(Type::Scalar(Primitive::Int32)).unwrap();
        let record = ctx.register_type(Type::Struct(vec![f, i])).unwrap();
        let a = float(ctx, 1.0);
        let b = signed(ctx, 2);
        let s = Expr::compose(ctx, record, &vec![a, b]).unwrap();
        let first = s.extract(ctx, 0).unwrap();
        let second = s.extract(ctx, 1).unwrap();
        assert_eq!(shape_of(ctx, first), Type::Scalar(Primitive::Float32));
        assert_eq!(shape_of(ctx, second), Type::Scalar(Primitive::Int32));
        assert_eq!(s.extract(ctx, 2), Err(Error::IndexOutOfRange));
        assert_eq!(Expr::compose(ctx, record, &vec![b, a]), Err(Error::TypeMismatch));
        assert_eq!(Expr::compose(ctx, record, &vec![a]), Err(Error::TypeMismatch));

        let array = ctx.register_type(Type::Array(i, 3)).unwrap();
        let arr = Expr::compose(ctx, array, &vec![b, b, b]).unwrap();
        let element = arr.extract(ctx, 2).unwrap();
        assert_eq!(shape_of(ctx, element), Type::Scalar(Primitive::Int32));
        assert_eq!(arr.extract(ctx, 3), Err(Error::IndexOutOfRange));
        assert_eq!(Expr::compose(ctx, array, &vec![b, b]), Err(Error::TypeMismatch));
    });
}

#[test]
fn compose_refuses_a_scalar_target_and_an_unknown_type() {
    traced(|ctx| {
        let f = ctx.register_type(Type::Scalar(Primitive::Float32)).unwrap();
        let a = float(ctx, 1.0);
        assert_eq!(Expr::compose(ctx, f, &vec![a]), Err(Error::TypeMismatch));
        let missing = luisa_compute::types::TypeId { index: 99 };
        assert_eq!(Expr::compose(ctx, missing, &vec![a]), Err(Error::InvalidType));
        assert_eq!(
            Expr::build(ctx, Type::Vector(Primitive::Float32, 9), &vec![a]),
            Err(Error::InvalidType)
        );
    });
}

#[test]
fn field_replace_records_an_independent_node() {
    traced(|ctx| {
        let v = float3(ctx);
        let s = float(ctx, 9.0);
        let untouched = ctx.current().node(v.node.index).unwrap().clone();
        let replaced = v.replace_y(ctx, s).unwrap();
        assert_ne!(replaced.node, v.node);
        assert_eq!(shape_of(ctx, replaced), Type::Vector(Primitive::Float32, 3));
        let node = ctx.current().node(replaced.node.index).unwrap().clone();
        assert_eq!(node.op, Op::Insert(1));
        assert_eq!(node.operands, vec![v.node, s.node]);
        assert_eq!(ctx.current().node(v.node.index), Some(&untouched));
        let wrong = signed(ctx, 1);
        assert_eq!(v.replace_y(ctx, wrong), Err(Error::TypeMismatch));
    });
}

#[test]
fn reading_a_replaced_field_reads_the_insert_node() {
    traced(|ctx| {
        let v = float3(ctx);
        let s = float(ctx, 9.0);
        let read = v.replace_x(ctx, s).unwrap().x(ctx).unwrap();
        let extract = ctx.current().node(read.node.index).unwrap().clone();
        assert_eq!(extract.op, Op::Extract(0));
        let insert = ctx.current().node(extract.operands[0].index).unwrap().clone();
        assert_eq!(insert.op, Op::Insert(0));
        assert_eq!(insert.operands[1], s.node);
        assert_eq!(shape_of(ctx, read), shape_of(ctx, s));
    });
}

#[test]
fn select_takes_a_mask_of_matching_length() {
    traced(|ctx| {
        let v = float3(ctx);
        let w = float3(ctx);
        let mask = v.less_than(ctx, w).unwrap();
        let e = Expr::select(ctx, mask, v, w).unwrap();
        assert_eq!(shape_of(ctx, e), Type::Vector(Primitive::Float32, 3));
        let node = ctx.current().node(e.node.index).unwrap().clone();
        assert_eq!(node.op, Op::Call(Func::Select));
        assert_eq!(node.operands, vec![mask.node, v.node, w.node]);
        let short = bool2(ctx);
        assert_eq!(Expr::select(ctx, short, v, w), Err(Error::TypeMismatch));
        let i = int2(ctx);
        assert_eq!(Expr::select(ctx, mask, v, i), Err(Error::TypeMismatch));
    });
}

#[test]
fn matrix_products_need_matching_dimensions() {
    traced(|ctx| {
        let m = matrix(ctx, 3);
        let v = float3(ctx);
        let mv = m.mul(ctx, v).unwrap();
        assert_eq!(shape_of(ctx, mv), Type::Vector(Primitive::Float32, 3));
        let mm = m.mul(ctx, m).unwrap();
        assert_eq!(shape_of(ctx, mm), Type::Matrix(Primitive::Float32, 3));
        let small = matrix(ctx, 2);
        assert_eq!(small.mul(ctx, v), Err(Error::TypeMismatch));
        assert_eq!(small.mul(ctx, m), Err(Error::TypeMismatch));
        assert_eq!(v.mul(ctx, m), Err(Error::TypeMismatch));
    });
}

#[test]
fn reductions_yield_the_element_scalar() {
    traced(|ctx| {
        let v = int2(ctx);
        for (result, func) in [
            (v.reduce_sum(ctx), Func::ReduceSum),
            (v.reduce_prod(ctx), Func::ReduceProd),
            (v.reduce_min(ctx), Func::ReduceMin),
            (v.reduce_max(ctx), Func::ReduceMax),
        ] {
            let e = result.unwrap();
            assert_eq!(shape_of(ctx, e), Type::Scalar(Primitive::Int32));
            assert_eq!(ctx.current().node(e.node.index).unwrap().op, Op::Call(func));
        }
        let d = v.dot(ctx, v).unwrap();
        assert_eq!(shape_of(ctx, d), Type::Scalar(Primitive::Int32));
        let s = signed(ctx, 1);
        assert_eq!(s.reduce_sum(ctx), Err(Error::TypeMismatch));
        let b = bool2(ctx);
        assert_eq!(b.reduce_max(ctx), Err(Error::TypeMismatch));
    });
}

#[test]
fn all_and_any_reduce_a_boolean_vector() {
    traced(|ctx| {
        let b = bool2(ctx);
        let all = b.all(ctx).unwrap();
        let any = b.any(ctx).unwrap();
        assert_eq!(shape_of(ctx, all), Type::Scalar(Primitive::Bool));
        assert_eq!(shape_of(ctx, any), Type::Scalar(Primitive::Bool));
        let v = int2(ctx);
        assert_eq!(v.all(ctx), Err(Error::TypeMismatch));
    });
}

#[test]
fn geometric_operations_take_float_vectors() {
    traced(|ctx| {
        let v = float3(ctx);
        let w = float3(ctx);
        let e = v.cross(ctx, w).unwrap();
        assert_eq!(shape_of(ctx, e), Type::Vector(Primitive::Float32, 3));
        let e = v.length(ctx).unwrap();
        assert_eq!(shape_of(ctx, e), Type::Scalar(Primitive::Float32));
        let e = v.length_squared(ctx).unwrap();
        assert_eq!(shape_of(ctx, e), Type::Scalar(Primitive::Float32));
        let e = v.normalize(ctx).unwrap();
        assert_eq!(shape_of(ctx, e), Type::Vector(Primitive::Float32, 3));
        let e = v.fma(ctx, w, v).unwrap();
        assert_eq!(shape_of(ctx, e), Type::Vector(Primitive::Float32, 3));
        let e = v.outer_product(ctx, w).unwrap();
        assert_eq!(shape_of(ctx, e), Type::Matrix(Primitive::Float32, 3));
        let i = int2(ctx);
        assert_eq!(i.length(ctx), Err(Error::TypeMismatch));
        assert_eq!(i.normalize(ctx), Err(Error::TypeMismatch));
        let a = [float(ctx, 1.0), float(ctx, 2.0)];
        let two = vector(ctx, Primitive::Float32, &a);
        assert_eq!(two.cross(ctx, two), Err(Error::TypeMismatch));
    });
}

#[test]
fn distance_records_the_difference_and_its_length() {
    traced(|ctx| {
        let v = float3(ctx);
        let w = float3(ctx);
        let before = ctx.current().len();
        let d = v.distance(ctx, w).unwrap();
        assert_eq!(ctx.current().len(), before + 2);
        let sub = ctx.current().node(before).unwrap().clone();
        assert_eq!(sub.op, Op::Call(Func::Sub));
        assert_eq!(sub.operands, vec![v.node, w.node]);
        let len = ctx.current().node(d.node.index).unwrap().clone();
        assert_eq!(len.op, Op::Call(Func::Length));
        assert_eq!(len.operands[0].index, before);
        assert_eq!(shape_of(ctx, d), Type::Scalar(Primitive::Float32));
        let d2 = v.distance_squared(ctx, w).unwrap();
        let node = ctx.current().node(d2.node.index).unwrap().clone();
        assert_eq!(node.op, Op::Call(Func::LengthSquared));
        let i = int2(ctx);
        let count = ctx.current().len();
        assert_eq!(i.distance(ctx, i), Err(Error::TypeMismatch));
        assert_eq!(v.distance_squared(ctx, i), Err(Error::TypeMismatch));
        assert_eq!(ctx.current().len(), count);
    });
}

#[test]
fn inverse_and_transpose_take_matrices() {
    traced(|ctx| {
        let m = matrix(ctx, 4);
        let e = m.inverse(ctx).unwrap();
        assert_eq!(shape_of(ctx, e), Type::Matrix(Primitive::Float32, 4));
        let e = m.transpose(ctx).unwrap();
        assert_eq!(shape_of(ctx, e), Type::Matrix(Primitive::Float32, 4));
        let v = float3(ctx);
        assert_eq!(v.inverse(ctx), Err(Error::TypeMismatch));
        assert_eq!(v.transpose(ctx), Err(Error::TypeMismatch));
    });
}

#[test]
fn splat_widens_a_scalar() {
    traced(|ctx| {
        let s = unsigned(ctx, 7);
        let v = s.splat(ctx, 4).unwrap();
        assert_eq!(shape_of(ctx, v), Type::Vector(Primitive::Uint32, 4));
        assert_eq!(s.splat(ctx, 5), Err(Error::TypeMismatch));
        assert_eq!(s.splat(ctx, 1), Err(Error::TypeMismatch));
        assert_eq!(v.splat(ctx, 2), Err(Error::TypeMismatch));
    });
}

#[test]
fn zero_and_one_hold_the_constants_of_their_kind() {
    traced(|ctx| {
        assert_eq!(FLOAT_ONE, 1.0f32.to_bits());
        let before = ctx.current().len();
        let one = Expr::one(ctx, Primitive::Float32, 3).unwrap();
        assert_eq!(ctx.current().len(), before + 2);
        assert_eq!(
            ctx.current().node(before).unwrap().op,
            Op::Literal(Literal::Float32(1.0f32.to_bits()))
        );
        assert_eq!(shape_of(ctx, one), Type::Vector(Primitive::Float32, 3));
        let zero = Expr::zero(ctx, Primitive::Int32, 2).unwrap();
        let node = ctx.current().node(zero.node.index).unwrap().clone();
        assert_eq!(node.op, Op::Call(Func::Splat(2)));
        assert_eq!(
            ctx.current().node(node.operands[0].index).unwrap().op,
            Op::Literal(Literal::Int32(0))
        );
        let t = Expr::one(ctx, Primitive::Bool, 4).unwrap();
        let node = ctx.current().node(t.node.index).unwrap().clone();
        assert_eq!(
            ctx.current().node(node.operands[0].index).unwrap().op,
            Op::Literal(Literal::Bool(true))
        );
        let f = Expr::zero(ctx, Primitive::Float32, 2).unwrap();
        let node = ctx.current().node(f.node.index).unwrap().clone();
        assert_eq!(
            ctx.current().node(node.operands[0].index).unwrap().op,
            Op::Literal(Literal::Float32(0.0f32.to_bits()))
        );
        let count = ctx.current().len();
        assert_eq!(Expr::zero(ctx, Primitive::Uint32, 5), Err(Error::TypeMismatch));
        assert_eq!(ctx.current().len(), count);
    });
}

#[test]
fn downcast_tells_the_type_of_an_erased_value() {
    traced(|ctx| {
        let f = float(ctx, 1.0);
        assert_eq!(f.downcast(ctx, &Type::Scalar(Primitive::Float32)), Some(f));
        assert_eq!(f.downcast(ctx, &Type::Scalar(Primitive::Int32)), None);
        let missing = Expr::from_node(luisa_compute::graph::NodeRef { builder: 77, index: 0 });
        assert_eq!(missing.downcast(ctx, &Type::Scalar(Primitive::Float32)), None);
        assert_eq!(missing.node(), luisa_compute::graph::NodeRef { builder: 77, index: 0 });
    });
}

#[test]
fn a_variable_is_read_and_written_through_its_node() {
    traced(|ctx| {
        let init = float(ctx, 1.0);
        let var = Var::local(ctx, init).unwrap();
        let local = ctx.current().node(var.node.index).unwrap().clone();
        assert_eq!(local.op, Op::Local);
        assert_eq!(local.operands, vec![init.node]);
        let first = var.load(ctx).unwrap();
        assert_eq!(shape_of(ctx, first), Type::Scalar(Primitive::Float32));
        let next = float(ctx, 2.0);
        let before = ctx.current().len();
        var.store(ctx, next).unwrap();
        assert_eq!(ctx.current().len(), before + 1);
        let store = ctx.current().node(before).unwrap().clone();
        assert_eq!(store.op, Op::Store);
        assert_eq!(store.operands, vec![var.node, next.node]);
        let second = var.load(ctx).unwrap();
        assert_ne!(first.node, second.node);
        let load = ctx.current().node(first.node.index).unwrap().clone();
        assert_eq!(load.op, Op::Load);
        assert_eq!(load.operands, vec![var.node]);
        assert_eq!(var.expr().node, var.node);
    });
}

#[test]
fn a_variable_refuses_a_value_of_another_type() {
    traced(|ctx| {
        let init = float(ctx, 1.0);
        let var = Var::local(ctx, init).unwrap();
        let wrong = signed(ctx, 2);
        assert_eq!(var.store(ctx, wrong), Err(Error::TypeMismatch));
        let not_a_variable = Var { node: init.node };
        assert_eq!(not_a_variable.load(ctx), Err(Error::TypeMismatch));
        assert_eq!(not_a_variable.store(ctx, init), Err(Error::TypeMismatch));
        let missing = Var { node: luisa_compute::graph::NodeRef { builder: 9, index: 0 } };
        assert_eq!(missing.load(ctx), Err(Error::UnknownNode));
        assert_eq!(missing.store(ctx, init), Err(Error::UnknownNode));
        assert_eq!(
            Var::local(ctx, Expr { node: missing.node }).err(),
            Some(Error::UnknownNode)
        );
    });
}

#[test]
fn call_checks_the_number_of_operands() {
    traced(|ctx| {
        let v = float3(ctx);
        assert_eq!(Expr::call(ctx, Func::Add, &vec![v]), Err(Error::TypeMismatch));
        assert_eq!(Expr::call(ctx, Func::Length, &vec![v, v]), Err(Error::TypeMismatch));
        assert_eq!(Expr::call(ctx, Func::Fma, &vec![v, v]), Err(Error::TypeMismatch));
        assert_eq!(Expr::call(ctx, Func::Add, &Vec::new()), Err(Error::TypeMismatch));
        assert!(Expr::call(ctx, Func::Add, &vec![v, v]).is_ok());
    });
}
