//! The typing rules of the operations: which operand types an operation
//! accepts, and the type of what it yields.
use vstd::prelude::*;
use crate::graph::Func;
use crate::types::{well_formed, Primitive, Shape, Type, TypeId, MAX_ARITY, MIN_ARITY};

verus! {

/// Int32, Uint32 and Float32 are numeric.
pub open spec fn numeric(p: Primitive) -> bool {
    p != Primitive::Bool
}

/// Int32 and Uint32 are integral.
pub open spec fn integral(p: Primitive) -> bool {
    p == Primitive::Int32 || p == Primitive::Uint32
}

/// A length that a vector or a matrix can have.
pub open spec fn arity_ok(n: nat) -> bool {
    MIN_ARITY <= n <= MAX_ARITY
}

/// Scalars, vectors and matrices of numbers take `+ - * / %`.
pub open spec fn arithmetic(s: Shape) -> bool {
    match s {
        Shape::Scalar(p) => numeric(p),
        Shape::Vector(p, _) => numeric(p),
        Shape::Matrix(p, _) => numeric(p),
        _ => false,
    }
}

/// Scalars and vectors of booleans or integers take `& | ^`.
pub open spec fn bitwise(s: Shape) -> bool {
    match s {
        Shape::Scalar(p) => p != Primitive::Float32,
        Shape::Vector(p, _) => p != Primitive::Float32,
        _ => false,
    }
}

/// Scalars and vectors of integers take `<< >>`.
pub open spec fn shiftable(s: Shape) -> bool {
    match s {
        Shape::Scalar(p) => integral(p),
        Shape::Vector(p, _) => integral(p),
        _ => false,
    }
}

/// Scalars and vectors of numbers can be compared.
pub open spec fn ordered(s: Shape) -> bool {
    match s {
        Shape::Scalar(p) => numeric(p),
        Shape::Vector(p, _) => numeric(p),
        _ => false,
    }
}

/// The boolean type with as many lanes as `s`.
pub open spec fn mask_of(s: Shape) -> Shape {
    match s {
        Shape::Vector(_, n) => Shape::Vector(Primitive::Bool, n),
        _ => Shape::Scalar(Primitive::Bool),
    }
}

/// A scalar, or a vector of any element kind.
pub open spec fn lanes(s: Shape) -> bool {
    s is Scalar || s is Vector
}

/// The type of what the built-in function `f` yields on operands of the
/// types `args`, or `None` where it does not accept them.
///
/// | function | operands | result |
/// |---|---|---|
/// | `Add Sub Div Rem` | two of one arithmetic type | that type |
/// | `Mul` | two of one arithmetic type, or a matrix and a vector of its element kind and dimension | that type, or the vector's |
/// | `BitAnd BitOr BitXor` | two of one boolean or integer type | that type |
/// | `Shl Shr` | two of one integer type | that type |
/// | `Lt Le Gt Ge Eq Ne` | two of one numeric scalar or vector type | the boolean type of as many lanes |
/// | `Splat(n)` | a scalar, with `n` in 2..=4 | the vector of `n` such elements |
/// | `All Any` | a boolean vector | the boolean scalar |
/// | `ReduceSum ReduceProd ReduceMin ReduceMax` | a numeric vector | its element scalar |
/// | `Dot` | two of one numeric vector type | its element scalar |
/// | `Cross` | two float vectors of length 3 | that type |
/// | `Length LengthSquared` | a float vector | the float scalar |
/// | `Normalize` | a float vector | that type |
/// | `Fma` | three of one float vector type | that type |
/// | `OuterProduct` | two of one float vector type | the float matrix of that dimension |
/// | `Select` | a boolean mask and two of one type with as many lanes | that type |
/// | `Inverse Transpose` | a float matrix | that type |
pub open spec fn call_shape(f: Func, args: Seq<Shape>) -> Option<Shape> {
    match f {
        Func::Add | Func::Sub | Func::Div | Func::Rem => if args.len() == 2 && args[0] == args[1]
            && arithmetic(args[0]) {
            Some(args[0])
        } else {
            None
        },
        Func::Mul => if args.len() == 2 && args[0] == args[1] && arithmetic(args[0]) {
            Some(args[0])
        } else if args.len() == 2 && matrix_times_vector(args[0], args[1]) {
            Some(args[1])
        } else {
            None
        },
        Func::BitAnd | Func::BitOr | Func::BitXor => if args.len() == 2 && args[0] == args[1]
            && bitwise(args[0]) {
            Some(args[0])
        } else {
            None
        },
        Func::Shl | Func::Shr => if args.len() == 2 && args[0] == args[1] && shiftable(args[0]) {
            Some(args[0])
        } else {
            None
        },
        Func::Lt | Func::Le | Func::Gt | Func::Ge | Func::Eq | Func::Ne => if args.len() == 2
            && args[0] == args[1] && ordered(args[0]) {
            Some(mask_of(args[0]))
        } else {
            None
        },
        Func::Splat(n) => if args.len() == 1 && arity_ok(n as nat) {
            match args[0] {
                Shape::Scalar(p) => Some(Shape::Vector(p, n as nat)),
                _ => None,
            }
        } else {
            None
        },
        Func::All | Func::Any => if args.len() == 1 {
            match args[0] {
                Shape::Vector(Primitive::Bool, _) => Some(Shape::Scalar(Primitive::Bool)),
                _ => None,
            }
        } else {
            None
        },
        Func::ReduceSum | Func::ReduceProd | Func::ReduceMin | Func::ReduceMax => if args.len()
            == 1 {
            match args[0] {
                Shape::Vector(p, _) => if numeric(p) {
                    Some(Shape::Scalar(p))
                } else {
                    None
                },
                _ => None,
            }
        } else {
            None
        },
        Func::Dot => if args.len() == 2 && args[0] == args[1] {
            match args[0] {
                Shape::Vector(p, _) => if numeric(p) {
                    Some(Shape::Scalar(p))
                } else {
                    None
                },
                _ => None,
            }
        } else {
            None
        },
        Func::Cross => if args.len() == 2 && args[0] == args[1] && args[0] == Shape::Vector(
            Primitive::Float32,
            3,
        ) {
            Some(args[0])
        } else {
            None
        },
        Func::Length | Func::LengthSquared => if args.len() == 1 && float_vector(args[0]) {
            Some(Shape::Scalar(Primitive::Float32))
        } else {
            None
        },
        Func::Normalize => if args.len() == 1 && float_vector(args[0]) {
            Some(args[0])
        } else {
            None
        },
        Func::Fma => if args.len() == 3 && args[0] == args[1] && args[1] == args[2]
            && float_vector(args[0]) {
            Some(args[0])
        } else {
            None
        },
        Func::OuterProduct => if args.len() == 2 && args[0] == args[1] {
            match args[0] {
                Shape::Vector(Primitive::Float32, n) => Some(
                    Shape::Matrix(Primitive::Float32, n),
                ),
                _ => None,
            }
        } else {
            None
        },
        Func::Select => if args.len() == 3 && args[1] == args[2] && lanes(args[1]) && args[0]
            == mask_of(args[1]) {
            Some(args[1])
        } else {
            None
        },
        Func::Inverse | Func::Transpose => if args.len() == 1 {
            match args[0] {
                Shape::Matrix(Primitive::Float32, _) => Some(args[0]),
                _ => None,
            }
        } else {
            None
        },
    }
}

/// A vector of 32-bit floats.
pub open spec fn float_vector(s: Shape) -> bool {
    match s {
        Shape::Vector(Primitive::Float32, _) => true,
        _ => false,
    }
}

/// A numeric matrix and a vector of its element kind and dimension.
pub open spec fn matrix_times_vector(m: Shape, v: Shape) -> bool {
    match m {
        Shape::Matrix(p, n) => numeric(p) && v == Shape::Vector(p, n),
        _ => false,
    }
}

/// The lane count to which the scalar operand of a binary operation is
/// widened, and which operand that is: `Some((true, n))` for the left one,
/// `Some((false, n))` for the right one, `None` where neither is widened.
/// A scalar is widened when the other operand is a vector of the same
/// element kind.
pub open spec fn broadcast(lhs: Shape, rhs: Shape) -> Option<(bool, nat)> {
    match (lhs, rhs) {
        (Shape::Scalar(p), Shape::Vector(q, n)) => if p == q {
            Some((true, n))
        } else {
            None
        },
        (Shape::Vector(p, n), Shape::Scalar(q)) => if p == q {
            Some((false, n))
        } else {
            None
        },
        _ => None,
    }
}

/// The type of component `index` of a value of type `s`: an element of a
/// vector, a column of a matrix, a field of a struct, an element of an
/// array. `None` where `s` has no components or `index` is not below its
/// arity.
pub open spec fn component(types: Seq<Shape>, s: Shape, index: nat) -> Option<Shape> {
    if index < arity(s) {
        match s {
            Shape::Vector(p, _) => Some(Shape::Scalar(p)),
            Shape::Matrix(p, n) => Some(Shape::Vector(p, n)),
            Shape::Struct(fields) => Some(types[fields[index as int].index as int]),
            Shape::Array(t, _) => Some(types[t.index as int]),
            Shape::Scalar(_) => None,
        }
    } else {
        None
    }
}

/// The number of components of a value of type `s`; a scalar has none.
pub open spec fn arity(s: Shape) -> nat {
    match s {
        Shape::Scalar(_) => 0,
        Shape::Vector(_, n) => n,
        Shape::Matrix(_, n) => n,
        Shape::Struct(fields) => fields.len(),
        Shape::Array(_, n) => n,
    }
}

/// What a built-in function yields on well-formed operand types is well
/// formed, against any table.
pub proof fn lemma_call_shape_well_formed(f: Func, args: Seq<Shape>, bound: nat)
    requires
        call_shape(f, args).is_some(),
        forall|i: int| 0 <= i < args.len() ==> well_formed(#[trigger] args[i], bound),
    ensures
        well_formed(call_shape(f, args).unwrap(), bound),
{
    if args.len() > 0 {
        assert(well_formed(args[0], bound));
    }
    if args.len() > 1 {
        assert(well_formed(args[1], bound));
    }
}

/// The views of the descriptors, in order.
pub open spec fn shapes(args: Seq<&Type>) -> Seq<Shape> {
    Seq::new(args.len(), |i: int| args[i]@)
}

fn is_numeric(p: Primitive) -> (yes: bool)
    ensures
        yes == numeric(p),
{
    match p {
        Primitive::Bool => false,
        _ => true,
    }
}

fn is_integral(p: Primitive) -> (yes: bool)
    ensures
        yes == integral(p),
{
    match p {
        Primitive::Int32 => true,
        Primitive::Uint32 => true,
        _ => false,
    }
}

fn is_float(p: Primitive) -> (yes: bool)
    ensures
        yes == (p == Primitive::Float32),
{
    match p {
        Primitive::Float32 => true,
        _ => false,
    }
}

fn is_bool(p: Primitive) -> (yes: bool)
    ensures
        yes == (p == Primitive::Bool),
{
    match p {
        Primitive::Bool => true,
        _ => false,
    }
}

fn is_arithmetic(t: &Type) -> (yes: bool)
    ensures
        yes == arithmetic(t@),
{
    match t {
        Type::Scalar(p) => is_numeric(*p),
        Type::Vector(p, _) => is_numeric(*p),
        Type::Matrix(p, _) => is_numeric(*p),
        _ => false,
    }
}

fn is_bitwise(t: &Type) -> (yes: bool)
    ensures
        yes == bitwise(t@),
{
    match t {
        Type::Scalar(p) => !is_float(*p),
        Type::Vector(p, _) => !is_float(*p),
        _ => false,
    }
}

fn is_shiftable(t: &Type) -> (yes: bool)
    ensures
        yes == shiftable(t@),
{
    match t {
        Type::Scalar(p) => is_integral(*p),
        Type::Vector(p, _) => is_integral(*p),
        _ => false,
    }
}

fn is_ordered(t: &Type) -> (yes: bool)
    ensures
        yes == ordered(t@),
{
    match t {
        Type::Scalar(p) => is_numeric(*p),
        Type::Vector(p, _) => is_numeric(*p),
        _ => false,
    }
}

fn mask(t: &Type) -> (m: Type)
    ensures
        m@ == mask_of(t@),
{
    match t {
        Type::Vector(_, n) => Type::Vector(Primitive::Bool, *n),
        _ => Type::Scalar(Primitive::Bool),
    }
}

fn has_lanes(t: &Type) -> (yes: bool)
    ensures
        yes == lanes(t@),
{
    match t {
        Type::Scalar(_) => true,
        Type::Vector(_, _) => true,
        _ => false,
    }
}

fn is_float_vector(t: &Type) -> (yes: bool)
    ensures
        yes == float_vector(t@),
{
    match t {
        Type::Vector(p, _) => is_float(*p),
        _ => false,
    }
}

fn is_matrix_times_vector(m: &Type, v: &Type) -> (yes: bool)
    ensures
        yes == matrix_times_vector(m@, v@),
{
    match m {
        Type::Matrix(p, n) => match v {
            Type::Vector(q, k) => is_numeric(*p) && *p == *q && *n == *k,
            _ => false,
        },
        _ => false,
    }
}

/// The type that `f` yields on operands of the given types, if it accepts
/// them.
pub fn infer_call(f: Func, args: &Vec<&Type>) -> (result: Option<Type>)
    ensures
        result.is_some() == call_shape(f, shapes(args@)).is_some(),
        result matches Some(t) ==> t@ == call_shape(f, shapes(args@)).unwrap(),
{
    let ghost s = shapes(args@);
    assert(forall|i: int| 0 <= i < args.len() ==> s[i] == args@[i]@);
    let n = args.len();
    match f {
        Func::Add | Func::Sub | Func::Div | Func::Rem => {
            if n == 2 && args[0].same(args[1]) && is_arithmetic(args[0]) {
                Some(args[0].duplicate())
            } else {
                None
            }
        },
        Func::Mul => {
            if n == 2 && args[0].same(args[1]) && is_arithmetic(args[0]) {
                Some(args[0].duplicate())
            } else if n == 2 && is_matrix_times_vector(args[0], args[1]) {
                Some(args[1].duplicate())
            } else {
                None
            }
        },
        Func::BitAnd | Func::BitOr | Func::BitXor => {
            if n == 2 && args[0].same(args[1]) && is_bitwise(args[0]) {
                Some(args[0].duplicate())
            } else {
                None
            }
        },
        Func::Shl | Func::Shr => {
            if n == 2 && args[0].same(args[1]) && is_shiftable(args[0]) {
                Some(args[0].duplicate())
            } else {
                None
            }
        },
        Func::Lt | Func::Le | Func::Gt | Func::Ge | Func::Eq | Func::Ne => {
            if n == 2 && args[0].same(args[1]) && is_ordered(args[0]) {
                Some(mask(args[0]))
            } else {
                None
            }
        },
        Func::Splat(k) => {
            if n == 1 && MIN_ARITY <= k && k <= MAX_ARITY {
                match args[0] {
                    Type::Scalar(p) => Some(Type::Vector(*p, k)),
                    _ => None,
                }
            } else {
                None
            }
        },
        Func::All | Func::Any => {
            if n == 1 {
                match args[0] {
                    Type::Vector(p, _) => if is_bool(*p) {
                        Some(Type::Scalar(Primitive::Bool))
                    } else {
                        None
                    },
                    _ => None,
                }
            } else {
                None
            }
        },
        Func::ReduceSum | Func::ReduceProd | Func::ReduceMin | Func::ReduceMax => {
            if n == 1 {
                match args[0] {
                    Type::Vector(p, _) => if is_numeric(*p) {
                        Some(Type::Scalar(*p))
                    } else {
                        None
                    },
                    _ => None,
                }
            } else {
                None
            }
        },
        Func::Dot => {
            if n == 2 && args[0].same(args[1]) {
                match args[0] {
                    Type::Vector(p, _) => if is_numeric(*p) {
                        Some(Type::Scalar(*p))
                    } else {
                        None
                    },
                    _ => None,
                }
            } else {
                None
            }
        },
        Func::Cross => {
            if n == 2 && args[0].same(args[1]) {
                match args[0] {
                    Type::Vector(p, k) => if is_float(*p) && *k == 3 {
                        Some(Type::Vector(Primitive::Float32, 3))
                    } else {
                        None
                    },
                    _ => None,
                }
            } else {
                None
            }
        },
        Func::Length | Func::LengthSquared => {
            if n == 1 && is_float_vector(args[0]) {
                Some(Type::Scalar(Primitive::Float32))
            } else {
                None
            }
        },
        Func::Normalize => {
            if n == 1 && is_float_vector(args[0]) {
                Some(args[0].duplicate())
            } else {
                None
            }
        },
        Func::Fma => {
            if n == 3 && args[0].same(args[1]) && args[1].same(args[2]) && is_float_vector(
                args[0],
            ) {
                Some(args[0].duplicate())
            } else {
                None
            }
        },
        Func::OuterProduct => {
            if n == 2 && args[0].same(args[1]) {
                match args[0] {
                    Type::Vector(p, k) => if is_float(*p) {
                        Some(Type::Matrix(Primitive::Float32, *k))
                    } else {
                        None
                    },
                    _ => None,
                }
            } else {
                None
            }
        },
        Func::Select => {
            if n == 3 && args[1].same(args[2]) && has_lanes(args[1]) {
                let m = mask(args[1]);
                if args[0].same(&m) {
                    Some(args[1].duplicate())
                } else {
                    None
                }
            } else {
                None
            }
        },
        Func::Inverse | Func::Transpose => {
            if n == 1 {
                match args[0] {
                    Type::Matrix(p, _) => if is_float(*p) {
                        Some(args[0].duplicate())
                    } else {
                        None
                    },
                    _ => None,
                }
            } else {
                None
            }
        },
    }
}

/// The component of an interned type is well formed against the table.
pub proof fn lemma_component_well_formed(types: Seq<Shape>, s: Shape, index: nat)
    requires
        crate::types::grounded(types),
        types.contains(s),
        component(types, s, index).is_some(),
    ensures
        well_formed(component(types, s, index).unwrap(), types.len()),
{
    let at = types.index_of(s);
    assert(well_formed(types[at], at as nat));
    match s {
        Shape::Struct(fields) => {
            let field = fields[index as int].index as int;
            assert(well_formed(types[field], field as nat));
            crate::types::lemma_well_formed_grows(types[field], field as nat, types.len());
        },
        Shape::Array(t, _) => {
            let element = t.index as int;
            assert(well_formed(types[element], element as nat));
            crate::types::lemma_well_formed_grows(types[element], element as nat, types.len());
        },
        _ => {},
    }
}

/// The type of component `index` of a value of the interned type `t`, if
/// it has one.
pub fn component_type(registry: &crate::types::TypeRegistry, t: &Type, index: u64) -> (result:
    Option<Type>)
    requires
        registry.wf(),
        well_formed(t@, registry@.len()),
    ensures
        result.is_some() == component(registry@, t@, index as nat).is_some(),
        result matches Some(c) ==> c@ == component(registry@, t@, index as nat).unwrap(),
{
    match t {
        Type::Scalar(_) => None,
        Type::Vector(p, n) => if index < *n as u64 {
            Some(Type::Scalar(*p))
        } else {
            None
        },
        Type::Matrix(p, n) => if index < *n as u64 {
            Some(Type::Vector(*p, *n))
        } else {
            None
        },
        Type::Struct(fields) => if index < fields.len() as u64 {
            let field = fields[index as usize];
            assert(fields@[index as int].index < registry@.len());
            Some(registry.get(field).unwrap().duplicate())
        } else {
            None
        },
        Type::Array(element, n) => if index < *n {
            Some(registry.get(*element).unwrap().duplicate())
        } else {
            None
        },
    }
}

} // verus!
