//! Tag-and-index dispatch over heterogeneous buffers: a call on an object
//! whose concrete type is only known when the kernel runs becomes a
//! multi-way conditional with one arm per registered type.
use vstd::prelude::*;
use crate::context::{
    advances, grows, lemma_advances_keeps, lemma_advances_trans, lemma_grows_refl, unwound,
    Context, ContextView,
};
use crate::error::Error;
use crate::expr::Expr;
use crate::graph::{NodeRef, NodeView, Op};
use crate::types::{Primitive, Shape, Type, TypeId};

verus! {

/// An opaque reference to device memory: which buffer, the concrete host
/// type of the objects it stores, the interned type of its elements, and
/// how many it holds. Two host types may share one element type, since
/// interned types are compared by structure; `class` tells them apart.
#[derive(Clone, Copy, PartialEq, Eq, Structural, Debug)]
pub struct BufferHandle {
    pub id: u64,
    pub class: u64,
    pub element: TypeId,
    pub len: u64,
}

/// One registration: a buffer under a devirtualization key.
#[derive(Clone, Copy, PartialEq, Eq, Structural, Debug)]
pub struct Registration {
    pub key: u64,
    pub buffer: BufferHandle,
}

/// The buffers registered under `key`, in registration order. The position
/// of a buffer in this sequence is its tag.
pub open spec fn namespace(entries: Seq<Registration>, key: u64) -> Seq<BufferHandle>
    decreases entries.len(),
{
    if entries.len() == 0 {
        Seq::empty()
    } else if entries.last().key == key {
        namespace(entries.drop_last(), key).push(entries.last().buffer)
    } else {
        namespace(entries.drop_last(), key)
    }
}

/// A buffer of the concrete type `class` is registered under `key`.
pub open spec fn registered(entries: Seq<Registration>, key: u64, class: u64) -> bool {
    exists|i: int|
        0 <= i < entries.len() && (#[trigger] entries[i]).key == key && entries[i].buffer.class
            == class
}

/// No concrete type is registered twice under one key.
pub open spec fn distinct(entries: Seq<Registration>) -> bool {
    forall|i: int, j: int|
        0 <= i < j < entries.len() ==> !((#[trigger] entries[i]).key == (#[trigger] entries[j]).key
            && entries[i].buffer.class == entries[j].buffer.class)
}

/// A namespace is never longer than the table it is taken from.
pub proof fn lemma_namespace_len(entries: Seq<Registration>, key: u64)
    ensures
        namespace(entries, key).len() <= entries.len(),
    decreases entries.len(),
{
    if entries.len() > 0 {
        lemma_namespace_len(entries.drop_last(), key);
    }
}

/// The dispatch table: which buffers stand behind which tags, per key.
#[derive(Debug)]
pub struct Polymorphic {
    entries: Vec<Registration>,
}

impl View for Polymorphic {
    type V = Seq<Registration>;

    closed spec fn view(&self) -> Seq<Registration> {
        self.entries@
    }
}

/// A deferred reference to one stored object: the key of its namespace and
/// the traced tag and index that locate it when the kernel runs.
#[derive(Clone, Copy, PartialEq, Eq, Structural, Debug)]
pub struct PolymorphicRef {
    pub key: u64,
    pub tag: Expr,
    pub index: Expr,
}

impl Polymorphic {
    /// The table's invariant: tags fit 32 bits, and no concrete type is
    /// registered twice under one key.
    pub open spec fn wf(&self) -> bool {
        self@.len() <= u32::MAX && distinct(self@)
    }

    /// An empty table.
    pub fn new() -> (table: Polymorphic)
        ensures
            table.wf(),
            table@ == Seq::<Registration>::empty(),
    {
        Polymorphic { entries: Vec::new() }
    }

    /// The number of registrations, over all keys.
    pub fn len(&self) -> (n: usize)
        ensures
            n == self@.len(),
    {
        self.entries.len()
    }

    /// The buffers registered under `key`, by tag.
    pub fn arms(&self, key: u64) -> (arms: Vec<BufferHandle>)
        ensures
            arms@ == namespace(self@, key),
    {
        let mut arms: Vec<BufferHandle> = Vec::new();
        let mut i: usize = 0;
        while i < self.entries.len()
            invariant
                i <= self.entries.len(),
                arms@ == namespace(self@.take(i as int), key),
            decreases self.entries.len() - i,
        {
            let entry = self.entries[i];
            assert(self@.take(i + 1).drop_last() =~= self@.take(i as int));
            if entry.key == key {
                arms.push(entry.buffer);
            }
            i += 1;
        }
        assert(self@.take(self@.len() as int) =~= self@);
        arms
    }

    /// Registers a buffer under `key` and gives the tag of its concrete
    /// type: the number of types registered under that key before. A
    /// concrete type that is already registered under the key is refused.
    pub fn register(&mut self, key: u64, buffer: BufferHandle) -> (result: Result<u32, Error>)
        requires
            old(self).wf(),
            old(self)@.len() < u32::MAX,
        ensures
            final(self).wf(),
            match result {
                Ok(tag) => !registered(old(self)@, key, buffer.class) && final(self)@ == old(
                    self,
                )@.push(Registration { key, buffer }) && tag == namespace(old(self)@, key).len()
                    && namespace(final(self)@, key) == namespace(old(self)@, key).push(buffer),
                Err(e) => e == Error::DuplicateRegistration && registered(
                    old(self)@,
                    key,
                    buffer.class,
                ) && final(self)@ == old(self)@,
            },
    {
        let mut tag: u32 = 0;
        let mut i: usize = 0;
        while i < self.entries.len()
            invariant
                i <= self.entries.len(),
                self.entries.len() < u32::MAX,
                self@ == old(self)@,
                distinct(self@),
                tag == namespace(self@.take(i as int), key).len(),
                tag <= i,
                forall|j: int|
                    0 <= j < i ==> !((#[trigger] self@[j]).key == key && self@[j].buffer.class
                        == buffer.class),
            decreases self.entries.len() - i,
        {
            let entry = self.entries[i];
            assert(self@.take(i + 1).drop_last() =~= self@.take(i as int));
            if entry.key == key {
                if entry.buffer.class == buffer.class {
                    assert(self@[i as int].key == key);
                    return Err(Error::DuplicateRegistration);
                }
                tag = tag + 1;
            }
            i += 1;
        }
        assert(self@.take(self@.len() as int) =~= self@);
        let ghost entry = Registration { key, buffer };
        self.entries.push(Registration { key, buffer });
        proof {
            assert(final(self)@ =~= old(self)@.push(entry));
            assert(final(self)@.drop_last() =~= old(self)@);
        }
        Ok(tag)
    }

    /// A deferred reference to the object that the traced `tag` and
    /// `index` locate among the buffers registered under `key`.
    pub fn get(&self, key: u64, tag: Expr, index: Expr) -> (target: PolymorphicRef)
        ensures
            target == (PolymorphicRef { key, tag, index }),
    {
        PolymorphicRef { key, tag, index }
    }
}

/// The node that reads the object at `index` from `buffer`.
pub open spec fn read_node(buffer: BufferHandle, index: NodeRef) -> NodeView {
    NodeView { op: Op::BufferRead(buffer.id), operands: seq![index], ty: buffer.element }
}

/// The node that seals an arm for `tag` that began at `start` and yields
/// `value`, of type `ty`.
pub open spec fn arm_node(tag: u32, start: usize, value: NodeRef, ty: TypeId) -> NodeView {
    NodeView { op: Op::Arm(tag, start), operands: seq![value], ty }
}

/// The 32-bit unsigned scalar, the type of tags and indices.
pub open spec fn uint_shape() -> Shape {
    Shape::Scalar(Primitive::Uint32)
}

/// Why an arm cannot be opened, if it cannot: the index is not a node of
/// the current builder, or is not a 32-bit unsigned scalar, or the
/// buffer's element type is not interned.
pub open spec fn open_check(v: ContextView, buffer: BufferHandle, index: NodeRef) -> Option<Error> {
    if !v.holds(index) {
        Some(Error::UnknownNode)
    } else if v.shape(index) != uint_shape() {
        Some(Error::TypeMismatch)
    } else if buffer.element.index >= v.types.len() {
        Some(Error::InvalidType)
    } else {
        None
    }
}

/// Why an arm cannot be sealed with `value`, if it cannot: the value is
/// not a node of the current builder, or its type is not the expected one.
pub open spec fn close_check(v: ContextView, value: NodeRef, expected: Option<TypeId>) -> Option<
    Error,
> {
    if !v.holds(value) {
        Some(Error::UnknownNode)
    } else if expected is Some && v.node(value).ty != expected->Some_0 {
        Some(Error::TypeMismatch)
    } else {
        None
    }
}

/// The error of an arm that cannot be sealed with `value`: `UnknownNode`
/// where the value is not a node of the current builder, else
/// `TypeMismatch`, for a value whose type differs from that of the arms
/// before.
pub open spec fn close_failure(v: ContextView, value: NodeRef) -> Error {
    if !v.holds(value) {
        Error::UnknownNode
    } else {
        Error::TypeMismatch
    }
}

/// Why a dispatch is refused before any arm is traced, if it is: nothing
/// is registered under the key; the tag or the index is not a node of the
/// current builder, or not a 32-bit unsigned scalar; the element type of a
/// registered buffer is not interned.
pub open spec fn dispatch_check(v: ContextView, arms: Seq<BufferHandle>, target: PolymorphicRef) -> Option<
    Error,
> {
    if arms.len() == 0 {
        Some(Error::EmptyDispatch)
    } else if !v.holds(target.tag.node) || !v.holds(target.index.node) {
        Some(Error::UnknownNode)
    } else if v.shape(target.tag.node) != uint_shape() || v.shape(target.index.node)
        != uint_shape() {
        Some(Error::TypeMismatch)
    } else if !interned(v, arms) {
        Some(Error::InvalidType)
    } else {
        None
    }
}

/// The element type of every buffer is interned.
pub open spec fn interned(v: ContextView, arms: Seq<BufferHandle>) -> bool {
    forall|i: int| 0 <= i < arms.len() ==> (#[trigger] arms[i]).element.index < v.types.len()
}

/// `arm` is a sealed arm of the current builder for tag `tag`: a node
/// `Arm(tag, start)` of type `ty` with one operand, its value, whose block
/// begins at `start` with the read of the object at `index` from `buffer`.
pub open spec fn is_arm(
    v: ContextView,
    arm: NodeRef,
    tag: int,
    buffer: BufferHandle,
    index: NodeRef,
    ty: TypeId,
) -> bool {
    &&& v.holds(arm)
    &&& v.node(arm).op is Arm
    &&& v.node(arm).op->Arm_0 == tag
    &&& v.node(arm).op->Arm_1 < arm.index
    &&& v.node(arm).ty == ty
    &&& v.node(arm).operands.len() == 1
    &&& v.holds(v.node(arm).operands[0])
    &&& v.current().nodes[v.node(arm).op->Arm_1 as int] == read_node(buffer, index)
}

/// Operand `i + 1` of the node `merged`: the arm for tag `i` of a switch.
pub open spec fn arm_at(v: ContextView, merged: NodeRef, i: int) -> NodeRef {
    v.node(merged).operands[i + 1]
}

/// `merged` is the switch that a dispatch over `arms` records: the last
/// node of the current builder, with the traced tag as its selector and
/// after it exactly one arm per registered buffer, the arm for tag `i` at
/// position `i`, all of the switch's type, recorded in registration order.
pub open spec fn switched(
    v: ContextView,
    arms: Seq<BufferHandle>,
    target: PolymorphicRef,
    merged: NodeRef,
) -> bool {
    &&& v.holds(merged)
    &&& merged.index == v.current().nodes.len() - 1
    &&& v.node(merged).op == Op::Switch
    &&& v.node(merged).operands.len() == arms.len() + 1
    &&& v.node(merged).operands[0] == target.tag.node
    &&& forall|i: int|
        0 <= i < arms.len() ==> is_arm(
            v,
            #[trigger] arm_at(v, merged, i),
            i,
            arms[i],
            target.index.node,
            v.node(merged).ty,
        )
    &&& forall|i: int, j: int|
        0 <= i < j < arms.len() ==> (#[trigger] arm_at(v, merged, i)).index < (#[trigger] arm_at(
            v,
            merged,
            j,
        )).index
}

/// The value of the sealed arm `arm` is what `f` returned for it: `f` was
/// called with the tag, the key and the object read at the start of the
/// arm, in a context whose current builder held the nodes up to that read
/// and no more, and it returned the arm's value.
pub open spec fn arm_traced<F: Fn(&mut Context, u32, u64, Expr) -> Result<Expr, Error>>(
    f: F,
    v: ContextView,
    arm: NodeRef,
    tag: int,
    key: u64,
) -> bool {
    exists|c: &mut Context|
        {
            &&& #[trigger] call_ensures(
                f,
                (
                    c,
                    tag as u32,
                    key,
                    Expr { node: NodeRef { builder: arm.builder, index: v.node(arm).op->Arm_1 } },
                ),
                Ok::<Expr, Error>(Expr { node: v.node(arm).operands[0] }),
            )
            &&& c@.active()
            &&& c@.current().nodes == v.current().nodes.take(v.node(arm).op->Arm_1 + 1)
        }
}

/// What `f` returned for a sealed arm stays so as the context advances.
pub proof fn lemma_trace_kept<F: Fn(&mut Context, u32, u64, Expr) -> Result<Expr, Error>>(
    f: F,
    before: ContextView,
    after: ContextView,
    arm: NodeRef,
    tag: int,
    key: u64,
)
    requires
        before.wf(),
        advances(before, after),
        before.holds(arm),
        before.node(arm).op is Arm,
        before.node(arm).op->Arm_1 < arm.index,
        arm_traced(f, before, arm, tag, key),
    ensures
        arm_traced(f, after, arm, tag, key),
{
    lemma_advances_keeps(before, after, arm);
    let start = before.node(arm).op->Arm_1 as int;
    let shorter = before.current().nodes;
    let longer = after.current().nodes;
    assert(longer.take(start + 1) =~= shorter.take(start + 1)) by {
        assert(longer.take(shorter.len() as int).take(start + 1) =~= longer.take(start + 1));
    }
    let c = choose|c: &mut Context|
        {
            &&& #[trigger] call_ensures(
                f,
                (c, tag as u32, key, Expr { node: NodeRef { builder: arm.builder, index: start as usize } }),
                Ok::<Expr, Error>(Expr { node: before.node(arm).operands[0] }),
            )
            &&& c@.active()
            &&& c@.current().nodes == shorter.take(start + 1)
        };
    assert(call_ensures(
        f,
        (c, tag as u32, key, Expr { node: NodeRef { builder: arm.builder, index: after.node(arm).op->Arm_1 } }),
        Ok::<Expr, Error>(Expr { node: after.node(arm).operands[0] }),
    ));
}

/// A sealed arm stays what it is as the context advances.
pub proof fn lemma_arm_kept(
    before: ContextView,
    after: ContextView,
    arm: NodeRef,
    tag: int,
    buffer: BufferHandle,
    index: NodeRef,
    ty: TypeId,
)
    requires
        before.wf(),
        advances(before, after),
        is_arm(before, arm, tag, buffer, index, ty),
    ensures
        is_arm(after, arm, tag, buffer, index, ty),
{
    lemma_advances_keeps(before, after, arm);
    lemma_advances_keeps(before, after, before.node(arm).operands[0]);
    let start = before.node(arm).op->Arm_1 as int;
    let shorter = before.current().nodes;
    let longer = after.current().nodes;
    assert(longer.take(shorter.len() as int)[start] == longer[start]);
}

/// Recording a node advances the context.
pub proof fn lemma_appended_advances(v: ContextView, node: NodeView)
    requires
        v.active(),
    ensures
        advances(v, v.appended(node)),
        v.appended(node).current().scopes == v.current().scopes,
{
    let after = v.appended(node);
    assert(after.stack.drop_last() =~= v.stack.drop_last());
    assert(after.current().nodes.take(v.current().nodes.len() as int) =~= v.current().nodes);
    assert(after.types.take(v.types.len() as int) =~= v.types);
}

/// Opening or closing a scope advances the context.
pub proof fn lemma_scope_advances(v: ContextView)
    requires
        v.active(),
    ensures
        advances(v, v.scoped()),
        advances(v, v.unscoped()),
{
    assert(v.scoped().stack.drop_last() =~= v.stack.drop_last());
    assert(v.unscoped().stack.drop_last() =~= v.stack.drop_last());
    assert(v.current().nodes.take(v.current().nodes.len() as int) =~= v.current().nodes);
    assert(v.types.take(v.types.len() as int) =~= v.types);
}

/// Whether `node` is a 32-bit unsigned scalar of the current builder.
fn check_uint(ctx: &Context, node: NodeRef) -> (result: Result<(), Error>)
    requires
        ctx.wf(),
    ensures
        match result {
            Ok(_) => ctx@.holds(node) && ctx@.shape(node) == uint_shape(),
            Err(e) => if !ctx@.holds(node) {
                e == Error::UnknownNode
            } else {
                e == Error::TypeMismatch && ctx@.shape(node) != uint_shape()
            },
        },
{
    match ctx.type_of(node) {
        None => Err(Error::UnknownNode),
        Some(ty) => if ctx.type_shape(ty).unwrap().same(&Type::Scalar(Primitive::Uint32)) {
            Ok(())
        } else {
            Err(Error::TypeMismatch)
        },
    }
}

/// Opens the arm for one registered buffer: opens a scope and records, as
/// its first node, the read of the object at `index` from `buffer`. The
/// handle of that object is returned. Where the arm cannot be opened
/// nothing changes.
pub fn open_arm(ctx: &mut Context, buffer: BufferHandle, index: Expr) -> (result: Result<Expr, Error>)
    requires
        old(ctx).wf(),
        old(ctx)@.active(),
    ensures
        final(ctx).wf(),
        match open_check(old(ctx)@, buffer, index.node) {
            None => result == Ok::<Expr, Error>(Expr { node: old(ctx)@.next() }) && final(ctx)@
                == old(ctx)@.scoped().appended(read_node(buffer, index.node)),
            Some(e) => result == Err::<Expr, Error>(e) && final(ctx)@ == old(ctx)@,
        },
{
    match check_uint(ctx, index.node) {
        Err(e) => {
            return Err(e);
        },
        Ok(_) => {},
    }
    if buffer.element.index >= ctx.types().len() {
        return Err(Error::InvalidType);
    }
    ctx.push_scope();
    let operands = vec![index.node];
    proof {
        assert(operands@ =~= seq![index.node]);
        assert(ctx@.holds(index.node));
    }
    let node = ctx.emit(Op::BufferRead(buffer.id), operands, buffer.element);
    Ok(Expr { node: node.unwrap() })
}

/// Seals the innermost open scope as the arm for `tag` that yields
/// `value`. The arm has the type of `value`, which must be `expected`
/// where one is given. Where the arm cannot be sealed nothing changes,
/// and the scope stays open.
pub fn close_arm(ctx: &mut Context, tag: u32, value: Expr, expected: Option<TypeId>) -> (result:
    Result<Expr, Error>)
    requires
        old(ctx).wf(),
        old(ctx)@.active(),
        old(ctx)@.current().scopes.len() > 0,
    ensures
        final(ctx).wf(),
        match close_check(old(ctx)@, value.node, expected) {
            None => result == Ok::<Expr, Error>(Expr { node: old(ctx)@.next() }) && final(ctx)@
                == old(ctx)@.unscoped().appended(
                arm_node(
                    tag,
                    old(ctx)@.current().scopes.last(),
                    value.node,
                    old(ctx)@.node(value.node).ty,
                ),
            ),
            Some(e) => result == Err::<Expr, Error>(e) && final(ctx)@ == old(ctx)@,
        },
{
    let ty = match ctx.type_of(value.node) {
        None => {
            return Err(Error::UnknownNode);
        },
        Some(ty) => ty,
    };
    match expected {
        Some(wanted) => {
            if wanted != ty {
                return Err(Error::TypeMismatch);
            }
        },
        None => {},
    }
    let start = ctx.leave_scope();
    let operands = vec![value.node];
    proof {
        assert(operands@ =~= seq![value.node]);
        assert(ctx@.holds(value.node));
    }
    let node = ctx.emit(Op::Arm(tag, start), operands, ty);
    Ok(Expr { node: node.unwrap() })
}

impl Polymorphic {
    /// Whether every buffer's element type is interned.
    fn all_interned(ctx: &Context, arms: &Vec<BufferHandle>) -> (yes: bool)
        ensures
            yes == interned(ctx@, arms@),
    {
        let bound = ctx.types().len();
        let mut i: usize = 0;
        while i < arms.len()
            invariant
                i <= arms.len(),
                bound == ctx@.types.len(),
                forall|j: int| 0 <= j < i ==> (#[trigger] arms@[j]).element.index < bound,
            decreases arms.len() - i,
        {
            if arms[i].element.index >= bound {
                assert(!((#[trigger] arms@[i as int]).element.index < ctx@.types.len()));
                return false;
            }
            i += 1;
        }
        true
    }

    /// Invokes one operation on the object that `target` locates, whatever
    /// its concrete type turns out to be when the kernel runs.
    ///
    /// For every buffer registered under the target's key, in registration
    /// order, an arm is traced: a scope is opened, the object at the traced
    /// index is read from that buffer, `f` is called with the tag, the key
    /// and the typed object, and the scope is sealed with the value `f`
    /// returned. All arms must yield one type. At the end one switch node
    /// on the traced tag merges the arms; its handle is the result.
    ///
    /// A tag for which nothing is registered is not guarded against: what
    /// the switch yields for it is undefined.
    ///
    /// Where the dispatch fails, whether before the first arm or inside
    /// one, the builders are as they were before the call.
    #[verifier::loop_isolation(false)]
    #[verifier::rlimit(40)]
    pub fn dispatch<F: Fn(&mut Context, u32, u64, Expr) -> Result<Expr, Error>>(
        &self,
        ctx: &mut Context,
        target: &PolymorphicRef,
        f: F,
    ) -> (result: Result<Expr, Error>)
        requires
            self.wf(),
            old(ctx).wf(),
            old(ctx)@.active(),
            forall|c: &mut Context, tag: u32, object: Expr|
                c.wf() && c@.active() && c@.holds(object.node) && tag < namespace(
                    self@,
                    target.key,
                ).len() && c@.node(object.node).ty == namespace(
                    self@,
                    target.key,
                )[tag as int].element ==> #[trigger] call_requires(
                    f,
                    (c, tag, target.key, object),
                ),
            forall|c: &mut Context, tag: u32, object: Expr, r: Result<Expr, Error>|
                c.wf() && #[trigger] call_ensures(f, (c, tag, target.key, object), r)
                    ==> final(c).wf() && grows(c@, final(c)@),
        ensures
            final(ctx).wf(),
            match result {
                Ok(merged) => {
                    &&& dispatch_check(old(ctx)@, namespace(self@, target.key), *target) is None
                    &&& grows(old(ctx)@, final(ctx)@)
                    &&& switched(
                        final(ctx)@,
                        namespace(self@, target.key),
                        *target,
                        merged.node,
                    )
                    &&& forall|i: int|
                        0 <= i < namespace(self@, target.key).len() ==> arm_traced(
                            f,
                            final(ctx)@,
                            #[trigger] arm_at(final(ctx)@, merged.node, i),
                            i,
                            target.key,
                        )
                },
                Err(e) => {
                    &&& unwound(old(ctx)@, final(ctx)@)
                    &&& match dispatch_check(old(ctx)@, namespace(self@, target.key), *target) {
                        Some(refused) => e == refused,
                        None => exists|c: &mut Context, tag: u32, object: Expr, r: Result<Expr, Error>|
                            {
                                &&& #[trigger] call_ensures(f, (c, tag, target.key, object), r)
                                &&& tag < namespace(self@, target.key).len()
                                &&& match r {
                                    Err(failed) => e == failed,
                                    Ok(value) => e == close_failure(final(c)@, value.node),
                                }
                            },
                    }
                },
            },
    {
        let ghost start = ctx@;
        proof {
            lemma_grows_refl(start);
            assert(start.types.take(start.types.len() as int) =~= start.types);
        }
        let arms = self.arms(target.key);
        let count = arms.len();
        proof {
            lemma_namespace_len(self@, target.key);
        }
        if count == 0 {
            return Err(Error::EmptyDispatch);
        }
        if !ctx.holds(target.tag.node) || !ctx.holds(target.index.node) {
            return Err(Error::UnknownNode);
        }
        match check_uint(ctx, target.tag.node) {
            Err(e) => {
                return Err(e);
            },
            Ok(_) => {},
        }
        match check_uint(ctx, target.index.node) {
            Err(e) => {
                return Err(e);
            },
            Ok(_) => {},
        }
        if !Self::all_interned(ctx, &arms) {
            return Err(Error::InvalidType);
        }
        let nodes_then = ctx.current().len();
        let scopes_then = ctx.current().depth();
        assert(crate::context::builder_wf(start.stack[start.stack.len() - 1]));
        let mut operands: Vec<NodeRef> = vec![target.tag.node];
        let ghost mut made: Seq<NodeRef> = Seq::empty();
        let mut ty: Option<TypeId> = None;
        let mut i: usize = 0;
        assert(operands@ =~= seq![target.tag.node] + made);
        while i < count
            invariant
                i <= count,
                count == arms.len(),
                count <= u32::MAX,
                arms@ == namespace(self@, target.key),
                ctx.wf(),
                advances(start, ctx@),
                ctx@.current().scopes == start.current().scopes,
                operands@ == seq![target.tag.node] + made,
                made.len() == i,
                i > 0 ==> ty is Some,
                ty is Some ==> ty->Some_0.index < ctx@.types.len(),
                forall|j: int|
                    0 <= j < i ==> is_arm(
                        ctx@,
                        #[trigger] made[j],
                        j,
                        arms@[j],
                        target.index.node,
                        ty->Some_0,
                    ),
                forall|j: int, l: int| 0 <= j < l < i ==> (#[trigger] made[j]).index < (
                #[trigger] made[l]).index,
                forall|j: int| 0 <= j < i ==> (#[trigger] made[j]).index < ctx@.current().nodes.len(),
                forall|j: int| 0 <= j < i ==> arm_traced(f, ctx@, #[trigger] made[j], j, target.key),
            decreases count - i,
        {
            let ghost head = ctx@;
            proof {
                lemma_advances_keeps(start, head, target.index.node);
                assert(arms@[i as int].element.index < start.types.len());
            }
            let object = open_arm(ctx, arms[i], target.index).unwrap();
            let ghost opened = ctx@;
            proof {
                lemma_scope_advances(head);
                lemma_appended_advances(head.scoped(), read_node(arms@[i as int], target.index.node));
                lemma_advances_trans(head, head.scoped(), opened);
                assert(opened.node(object.node) == read_node(arms@[i as int], target.index.node));
            }
            let outcome = f(ctx, i as u32, target.key, object);
            let ghost traced = ctx@;
            let ghost witness = choose|c: &mut Context|
                c@ == opened && #[trigger] call_ensures(
                    f,
                    (c, i as u32, target.key, object),
                    outcome,
                ) && final(c)@ == traced;
            proof {
                lemma_advances_trans(head, opened, traced);
                lemma_advances_trans(start, head, traced);
                assert(traced.current().scopes == start.current().scopes.push(nodes_at(head)));
            }
            let sealed = match outcome {
                Err(e) => Err(e),
                Ok(value) => close_arm(ctx, i as u32, value, ty),
            };
            let arm = match sealed {
                Err(e) => {
                    assert(ctx@ == traced);
                    assert(call_ensures(f, (witness, i as u32, target.key, object), outcome));
                    assert(final(witness)@ == traced);
                    ctx.rewind(nodes_then, scopes_then);
                    proof {
                        let cut = traced.rewound(nodes_then as int, scopes_then as int);
                        assert(cut.current().nodes =~= start.current().nodes);
                        assert(cut.current().scopes =~= start.current().scopes);
                        assert forall|at: int| 0 <= at < cut.stack.len() implies cut.stack[at]
                            == start.stack[at] by {
                            if at < cut.stack.len() - 1 {
                                assert(traced.stack.drop_last()[at] == traced.stack[at]);
                                assert(start.stack.drop_last()[at] == start.stack[at]);
                            }
                        }
                        assert(cut.stack =~= start.stack);
                    }
                    return Err(e);
                },
                Ok(arm) => arm,
            };
            let ghost value = outcome->Ok_0;
            let ghost closed = ctx@;
            proof {
                let node = arm_node(
                    i as u32,
                    traced.current().scopes.last(),
                    value.node,
                    traced.node(value.node).ty,
                );
                lemma_scope_advances(traced);
                lemma_appended_advances(traced.unscoped(), node);
                lemma_advances_trans(traced, traced.unscoped(), closed);
                lemma_advances_trans(head, traced, closed);
                lemma_advances_trans(start, head, closed);
                assert(closed.current().scopes =~= start.current().scopes);
                assert(crate::context::typed(
                    traced.stack[traced.stack.len() - 1].nodes,
                    traced.types.len(),
                ));
                lemma_advances_trans(opened, traced, closed);
                lemma_advances_keeps(opened, closed, object.node);
                lemma_advances_keeps(traced, closed, value.node);
                assert(closed.node(arm.node) == node);
                assert forall|j: int| 0 <= j < i implies is_arm(
                    closed,
                    #[trigger] made[j],
                    j,
                    arms@[j],
                    target.index.node,
                    traced.node(value.node).ty,
                ) by {
                    lemma_arm_kept(head, closed, made[j], j, arms@[j], target.index.node, ty->Some_0);
                }
                assert(is_arm(
                    closed,
                    arm.node,
                    i as int,
                    arms@[i as int],
                    target.index.node,
                    traced.node(value.node).ty,
                ));
                assert forall|j: int| 0 <= j < i implies arm_traced(
                    f,
                    closed,
                    #[trigger] made[j],
                    j,
                    target.key,
                ) by {
                    lemma_trace_kept(f, head, closed, made[j], j, target.key);
                }
                assert(arm_traced(f, closed, arm.node, i as int, target.key)) by {
                    let begun = closed.node(arm.node).op->Arm_1 as int;
                    assert(begun == head.current().nodes.len());
                    assert(closed.current().nodes.take(begun + 1) =~= opened.current().nodes) by {
                        assert(closed.current().nodes.take(
                            opened.current().nodes.len() as int,
                        ) == opened.current().nodes);
                    }
                    assert(call_ensures(
                        f,
                        (
                            witness,
                            i as u32,
                            target.key,
                            Expr {
                                node: NodeRef {
                                    builder: arm.node.builder,
                                    index: closed.node(arm.node).op->Arm_1,
                                },
                            },
                        ),
                        Ok::<Expr, Error>(Expr { node: closed.node(arm.node).operands[0] }),
                    ));
                }
                made = made.push(arm.node);
            }
            if ty.is_none() {
                ty = ctx.type_of(arm.node);
            }
            operands.push(arm.node);
            assert(operands@ =~= seq![target.tag.node] + made);
            i += 1;
        }
        let ghost last = ctx@;
        let ghost sent = operands@;
        proof {
            lemma_advances_keeps(start, last, target.tag.node);
            assert forall|k: int| 0 <= k < sent.len() implies last.holds(#[trigger] sent[k]) by {
                if k > 0 {
                    assert(sent[k] == made[k - 1]);
                    assert(is_arm(
                        last,
                        made[k - 1],
                        k - 1,
                        arms@[k - 1],
                        target.index.node,
                        ty->Some_0,
                    ));
                }
            }
        }
        let merged = ctx.emit(Op::Switch, operands, ty.unwrap()).unwrap();
        proof {
            let done = ctx@;
            let node = NodeView { op: Op::Switch, operands: sent, ty: ty->Some_0 };
            lemma_appended_advances(last, node);
            lemma_advances_trans(start, last, done);
            assert(done.node(merged) == node);
            assert forall|j: int| 0 <= j < arms@.len() implies is_arm(
                done,
                #[trigger] arm_at(done, merged, j),
                j,
                arms@[j],
                target.index.node,
                done.node(merged).ty,
            ) by {
                assert(arm_at(done, merged, j) == made[j]);
                lemma_arm_kept(last, done, made[j], j, arms@[j], target.index.node, ty->Some_0);
            }
            assert forall|j: int| 0 <= j < arms@.len() implies arm_traced(
                f,
                done,
                #[trigger] arm_at(done, merged, j),
                j,
                target.key,
            ) by {
                assert(arm_at(done, merged, j) == made[j]);
                assert(is_arm(last, made[j], j, arms@[j], target.index.node, ty->Some_0));
                lemma_trace_kept(f, last, done, made[j], j, target.key);
            }
            assert forall|j: int, l: int| 0 <= j < l < arms@.len() implies (#[trigger] arm_at(
                done,
                merged,
                j,
            )).index < (#[trigger] arm_at(done, merged, l)).index by {
                assert(arm_at(done, merged, j) == made[j]);
                assert(arm_at(done, merged, l) == made[l]);
            }
        }
        Ok(Expr { node: merged })
    }
}

/// The number of nodes in the current builder, as a position.
pub open spec fn nodes_at(v: ContextView) -> usize {
    v.current().nodes.len() as usize
}

} // verus!
