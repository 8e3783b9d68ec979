//! Dynamic callables: defined once over type-erased arguments, traced
//! separately for each combination of argument types the first time that
//! combination is called.
use vstd::prelude::*;
use crate::context::{
    advances, grows, lemma_advances_keeps, lemma_advances_trans, lemma_grows_refl, refusal, typed,
    unwound, Context, ContextView,
};
use crate::error::Error;
use crate::expr::{nodes_of, Expr};
use crate::graph::{Graph, GraphView, NodeRef, NodeView, Op};
use crate::types::{extends, TypeId};

verus! {

/// One specialization of a callable: the body traced for one signature.
#[derive(Debug)]
pub struct Specialization {
    signature: Vec<TypeId>,
    graph: Graph,
    result: NodeRef,
    ret: TypeId,
}

/// The mathematical value of a specialization.
pub struct SpecializationView {
    /// The interned types of the arguments, in order.
    pub signature: Seq<TypeId>,
    /// The sealed graph of the body traced for those types.
    pub graph: GraphView,
    /// The node of the graph whose value the call returns.
    pub result: NodeRef,
    /// The type of the returned value.
    pub ret: TypeId,
}

impl View for Specialization {
    type V = SpecializationView;

    closed spec fn view(&self) -> SpecializationView {
        SpecializationView {
            signature: self.signature@,
            graph: self.graph@,
            result: self.result,
            ret: self.ret,
        }
    }
}

/// A specialization's invariant: its graph is forward built and begins
/// with one argument node per entry of the signature, of that entry's
/// type; the result is a node of the graph, and of the return type.
pub open spec fn specialization_wf(s: SpecializationView) -> bool {
    &&& crate::graph::forward(s.graph.id, s.graph.nodes)
    &&& s.signature.len() <= s.graph.nodes.len()
    &&& forall|i: int|
        0 <= i < s.signature.len() ==> (#[trigger] s.graph.nodes[i]) == argument_node(
            i,
            s.signature[i],
        )
    &&& s.result.builder == s.graph.id
    &&& s.result.index < s.graph.nodes.len()
    &&& s.graph.nodes[s.result.index as int].ty == s.ret
}

/// The node that stands for argument `i`, of type `ty`, in a traced body.
pub open spec fn argument_node(i: int, ty: TypeId) -> NodeView {
    NodeView { op: Op::Argument(i as usize), operands: Seq::<NodeRef>::empty(), ty }
}

/// The node that calls a specialization on `args`.
pub open spec fn invoke_node(s: SpecializationView, args: Seq<NodeRef>) -> NodeView {
    NodeView { op: Op::Invoke(s.graph.id), operands: args, ty: s.ret }
}

/// The cache holds a specialization for `signature`.
pub open spec fn cached(cache: Seq<SpecializationView>, signature: Seq<TypeId>) -> bool {
    exists|i: int| 0 <= i < cache.len() && (#[trigger] cache[i]).signature == signature
}

/// The position of the specialization for `signature`.
pub open spec fn slot(cache: Seq<SpecializationView>, signature: Seq<TypeId>) -> int
    recommends
        cached(cache, signature),
{
    choose|i: int| 0 <= i < cache.len() && (#[trigger] cache[i]).signature == signature
}

/// No signature has two specializations.
pub open spec fn unique(cache: Seq<SpecializationView>) -> bool {
    forall|i: int, j: int|
        0 <= i < j < cache.len() ==> (#[trigger] cache[i]).signature != (
        #[trigger] cache[j]).signature
}

/// The cache after a successful call with `signature`: as it was where it
/// held a specialization for the signature, else with `fresh` added.
pub open spec fn recalled(
    cache: Seq<SpecializationView>,
    signature: Seq<TypeId>,
    fresh: SpecializationView,
) -> Seq<SpecializationView> {
    if cached(cache, signature) {
        cache
    } else {
        cache.push(fresh)
    }
}

/// The interned types of the nodes, in order: the signature of a call.
pub open spec fn signature_of(v: ContextView, args: Seq<NodeRef>) -> Seq<TypeId> {
    Seq::new(args.len(), |i: int| v.node(args[i]).ty)
}

/// One specialization per signature. After a successful call with a
/// signature the cache holds a specialization for it, so a second call
/// with the same signature adds nothing: the cache gains at most one entry
/// over the two calls.
pub proof fn lemma_one_specialization(
    cache: Seq<SpecializationView>,
    signature: Seq<TypeId>,
    first: SpecializationView,
    second: SpecializationView,
)
    requires
        first.signature == signature,
    ensures
        cached(recalled(cache, signature, first), signature),
        recalled(recalled(cache, signature, first), signature, second) == recalled(
            cache,
            signature,
            first,
        ),
        recalled(cache, signature, first).len() <= cache.len() + 1,
{
    let once = recalled(cache, signature, first);
    if !cached(cache, signature) {
        assert(once[cache.len() as int].signature == signature);
    }
}

/// Calls with different signatures get different specializations: a new
/// signature always adds an entry, and the entries already cached stay.
pub proof fn lemma_new_signature_adds(
    cache: Seq<SpecializationView>,
    signature: Seq<TypeId>,
    fresh: SpecializationView,
)
    requires
        !cached(cache, signature),
    ensures
        recalled(cache, signature, fresh).len() == cache.len() + 1,
        extends(cache, recalled(cache, signature, fresh)),
{
    assert(cache.push(fresh).take(cache.len() as int) =~= cache);
}

impl Specialization {
    /// The interned types of the arguments.
    pub fn signature(&self) -> (signature: &Vec<TypeId>)
        ensures
            signature@ == self@.signature,
    {
        &self.signature
    }

    /// The sealed graph of the traced body.
    pub fn graph(&self) -> (graph: &Graph)
        ensures
            graph@ == self@.graph,
    {
        &self.graph
    }

    /// The node whose value the call returns.
    pub fn result(&self) -> (result: NodeRef)
        ensures
            result == self@.result,
    {
        self.result
    }

    /// The type of the returned value.
    pub fn ret(&self) -> (ret: TypeId)
        ensures
            ret == self@.ret,
    {
        self.ret
    }
}

/// Whether two signatures are equal.
fn same_signature(a: &Vec<TypeId>, b: &Vec<TypeId>) -> (equal: bool)
    ensures
        equal == (a@ == b@),
{
    if a.len() != b.len() {
        return false;
    }
    let mut i: usize = 0;
    while i < a.len()
        invariant
            i <= a.len(),
            a.len() == b.len(),
            forall|k: int| 0 <= k < i ==> a@[k] == b@[k],
        decreases a.len() - i,
    {
        if a[i] != b[i] {
            return false;
        }
        i += 1;
    }
    assert(a@ =~= b@);
    true
}

/// A callable with a generic body and the specializations traced so far.
/// Specializations are only ever added.
pub struct DynCallable<F> {
    body: F,
    cache: Vec<Specialization>,
}

impl<F> View for DynCallable<F> {
    type V = Seq<SpecializationView>;

    closed spec fn view(&self) -> Seq<SpecializationView> {
        Seq::new(self.cache@.len(), |i: int| self.cache@[i]@)
    }
}

impl<F: Fn(&mut Context, &Vec<Expr>) -> Result<Expr, Error>> DynCallable<F> {
    /// The generic body.
    pub closed spec fn body(&self) -> F {
        self.body
    }

    /// The callable's invariant: no signature has two specializations, and
    /// each specialization's invariant holds.
    pub open spec fn wf(&self) -> bool {
        &&& unique(self@)
        &&& forall|i: int| 0 <= i < self@.len() ==> specialization_wf(#[trigger] self@[i])
    }

    /// A callable with the given body and no specialization yet.
    pub fn new(body: F) -> (callable: Self)
        ensures
            callable.wf(),
            callable.body() == body,
            callable@ == Seq::<SpecializationView>::empty(),
    {
        let callable = DynCallable { body, cache: Vec::new() };
        assert(callable@ =~= Seq::<SpecializationView>::empty());
        callable
    }

    /// The number of specializations: how often a body was traced and
    /// cached.
    pub fn len(&self) -> (n: usize)
        ensures
            n == self@.len(),
    {
        self.cache.len()
    }

    /// The specialization at `index`, if there is one.
    pub fn get(&self, index: usize) -> (found: Option<&Specialization>)
        ensures
            found.is_some() == (index < self@.len()),
            found matches Some(s) ==> s@ == self@[index as int],
    {
        if index < self.cache.len() {
            Some(&self.cache[index])
        } else {
            None
        }
    }

    /// The position of the specialization for `signature`, if one is
    /// cached.
    pub fn find(&self, signature: &Vec<TypeId>) -> (found: Option<usize>)
        requires
            self.wf(),
        ensures
            found.is_some() == cached(self@, signature@),
            found matches Some(i) ==> i == slot(self@, signature@) && i < self@.len()
                && self@[i as int].signature == signature@,
    {
        let mut i: usize = 0;
        while i < self.cache.len()
            invariant
                i <= self.cache.len(),
                self.wf(),
                forall|k: int| 0 <= k < i ==> (#[trigger] self@[k]).signature != signature@,
            decreases self.cache.len() - i,
        {
            if same_signature(&self.cache[i].signature, signature) {
                assert(self@[i as int].signature == signature@);
                let ghost at = slot(self@, signature@);
                assert(at == i) by {
                    if at < i {
                        assert(self@[at].signature != self@[i as int].signature);
                    } else if at > i {
                        assert(self@[i as int].signature != self@[at].signature);
                    }
                }
                return Some(i);
            }
            i += 1;
        }
        None
    }
}

/// What tracing a body gave: the error of the body, or the node to return,
/// which must be a node of the traced graph.
pub open spec fn traced_result(graph: GraphView, traced: Result<Expr, Error>) -> Result<
    NodeRef,
    Error,
> {
    match traced {
        Err(e) => Err(e),
        Ok(value) => if value.node.builder == graph.id && value.node.index < graph.nodes.len() {
            Ok(value.node)
        } else {
            Err(Error::UnknownNode)
        },
    }
}

/// The specialization that a traced graph and its result node make.
pub open spec fn specialized(signature: Seq<TypeId>, graph: GraphView, result: NodeRef) -> SpecializationView {
    SpecializationView {
        signature,
        graph,
        result,
        ret: graph.nodes[result.index as int].ty,
    }
}

/// The graph begins with one argument node per entry of the signature.
pub open spec fn takes(graph: GraphView, signature: Seq<TypeId>) -> bool {
    &&& signature.len() <= graph.nodes.len()
    &&& forall|i: int|
        0 <= i < signature.len() ==> (#[trigger] graph.nodes[i]) == argument_node(i, signature[i])
}

impl<F: Fn(&mut Context, &Vec<Expr>) -> Result<Expr, Error>> DynCallable<F> {
    /// Records a call of the cached specialization at `index` on
    /// `operands`: one `Invoke` node of the specialization's return type.
    pub fn invoke(&self, ctx: &mut Context, index: usize, operands: Vec<NodeRef>) -> (result: Result<
        Expr,
        Error,
    >)
        requires
            old(ctx).wf(),
            old(ctx)@.active(),
            index < self@.len(),
        ensures
            final(ctx).wf(),
            grows(old(ctx)@, final(ctx)@),
            match refusal(old(ctx)@, invoke_node(self@[index as int], operands@)) {
                None => result == Ok::<Expr, Error>(Expr { node: old(ctx)@.next() }) && final(ctx)@
                    == old(ctx)@.appended(invoke_node(self@[index as int], operands@)),
                Some(e) => result == Err::<Expr, Error>(e) && final(ctx)@ == old(ctx)@,
            },
    {
        let entry = &self.cache[index];
        match ctx.emit(Op::Invoke(entry.graph.id()), operands, entry.ret) {
            Ok(node) => Ok(Expr { node }),
            Err(e) => Err(e),
        }
    }

    /// Takes what tracing the body for a new signature gave. Where the
    /// body failed, or returned something that is not a node of the traced
    /// graph, the error is passed on and nothing changes. Otherwise the
    /// graph is cached as the specialization for the signature, and a call
    /// of it on `operands` is recorded.
    pub fn adopt(
        &mut self,
        ctx: &mut Context,
        signature: Vec<TypeId>,
        graph: Graph,
        traced: Result<Expr, Error>,
        operands: Vec<NodeRef>,
    ) -> (result: Result<Expr, Error>)
        requires
            old(self).wf(),
            old(ctx).wf(),
            old(ctx)@.active(),
            !cached(old(self)@, signature@),
            graph.wf(),
            takes(graph@, signature@),
            typed(graph@.nodes, old(ctx)@.types.len()),
            old(ctx)@.holds_all(operands@),
        ensures
            final(self).wf(),
            final(self).body() == old(self).body(),
            final(ctx).wf(),
            grows(old(ctx)@, final(ctx)@),
            match traced_result(graph@, traced) {
                Ok(node) => {
                    &&& result == Ok::<Expr, Error>(Expr { node: old(ctx)@.next() })
                    &&& final(self)@ == old(self)@.push(specialized(signature@, graph@, node))
                    &&& final(ctx)@ == old(ctx)@.appended(
                        invoke_node(specialized(signature@, graph@, node), operands@),
                    )
                },
                Err(e) => {
                    &&& result == Err::<Expr, Error>(e)
                    &&& final(self)@ == old(self)@
                    &&& final(ctx)@ == old(ctx)@
                },
            },
    {
        proof {
            lemma_grows_refl(ctx@);
        }
        let value = match traced {
            Err(e) => {
                return Err(e);
            },
            Ok(value) => value,
        };
        if value.node.builder != graph.id() || value.node.index >= graph.len() {
            return Err(Error::UnknownNode);
        }
        let ret = graph.node(value.node.index).unwrap().ty;
        let id = graph.id();
        let ghost fresh = specialized(signature@, graph@, value.node);
        let ghost before = self@;
        self.cache.push(Specialization { signature, graph, result: value.node, ret });
        proof {
            assert(self@ =~= before.push(fresh));
            assert(specialization_wf(fresh));
            assert forall|i: int, j: int| 0 <= i < j < self@.len() implies (
            #[trigger] self@[i]).signature != (#[trigger] self@[j]).signature by {
                if j < before.len() {
                    assert(before[i].signature != before[j].signature);
                } else {
                    assert(before[i].signature != fresh.signature);
                }
            }
            assert forall|i: int| 0 <= i < self@.len() implies specialization_wf(
                #[trigger] self@[i],
            ) by {
                if i < before.len() {
                    assert(specialization_wf(before[i]));
                }
            }
        }
        let node = ctx.emit(Op::Invoke(id), operands, ret);
        Ok(Expr { node: node.unwrap() })
    }
}

/// The handles of the first `n` nodes of builder `id`.
pub open spec fn parameters(id: u64, n: nat) -> Seq<Expr> {
    Seq::new(n, |i: int| Expr { node: NodeRef { builder: id, index: i as usize } })
}

/// The argument nodes for a signature, in order.
pub open spec fn argument_nodes(signature: Seq<TypeId>) -> Seq<NodeView> {
    Seq::new(signature.len(), |i: int| argument_node(i, signature[i]))
}

/// How a call with a signature that has no specialization yet ends. On
/// success the cache gained exactly one specialization, for this
/// signature, whose graph was recorded by the builder opened for it, and
/// the current builder gained one node that calls it on the arguments. On
/// failure the cache and the builders are as they were.
pub open spec fn miss_spec(
    cache: Seq<SpecializationView>,
    after_cache: Seq<SpecializationView>,
    before: ContextView,
    after: ContextView,
    signature: Seq<TypeId>,
    args: Seq<NodeRef>,
    result: Result<Expr, Error>,
) -> bool {
    match result {
        Ok(e) => {
            &&& e.node == before.next()
            &&& after_cache.len() == cache.len() + 1
            &&& after_cache == cache.push(after_cache.last())
            &&& after_cache.last().signature == signature
            &&& after_cache.last().graph.id == before.opened
            &&& takes(after_cache.last().graph, signature)
            &&& after.stack == before.appended(invoke_node(after_cache.last(), args)).stack
            &&& extends(before.types, after.types)
            &&& before.opened < after.opened
        },
        Err(_) => after_cache == cache && unwound(before, after),
    }
}

/// How a call with a signature that has a specialization ends: the cache
/// is as it was, and one node that calls the cached specialization on the
/// arguments is recorded.
pub open spec fn hit_spec(
    cache: Seq<SpecializationView>,
    after_cache: Seq<SpecializationView>,
    before: ContextView,
    after: ContextView,
    signature: Seq<TypeId>,
    args: Seq<NodeRef>,
    result: Result<Expr, Error>,
) -> bool {
    &&& after_cache == cache
    &&& match refusal(before, invoke_node(cache[slot(cache, signature)], args)) {
        None => result == Ok::<Expr, Error>(Expr { node: before.next() }) && after
            == before.appended(invoke_node(cache[slot(cache, signature)], args)),
        Some(e) => result == Err::<Expr, Error>(e) && after == before,
    }
}

impl<F: Fn(&mut Context, &Vec<Expr>) -> Result<Expr, Error>> DynCallable<F> {
    /// The nodes and the signature of the arguments, where the current
    /// builder holds them all.
    fn inspect(ctx: &Context, args: &Vec<Expr>) -> (found: Option<(Vec<NodeRef>, Vec<TypeId>)>)
        requires
            ctx.wf(),
        ensures
            found.is_some() == ctx@.holds_all(nodes_of(args@)),
            found matches Some(pair) ==> pair.0@ == nodes_of(args@) && pair.1@ == signature_of(
                ctx@,
                nodes_of(args@),
            ) && forall|i: int| 0 <= i < pair.1@.len() ==> (#[trigger] pair.1@[i]).index
                < ctx@.types.len(),
    {
        let ghost wanted = nodes_of(args@);
        let mut operands: Vec<NodeRef> = Vec::new();
        let mut signature: Vec<TypeId> = Vec::new();
        let mut k: usize = 0;
        while k < args.len()
            invariant
                k <= args.len(),
                ctx.wf(),
                wanted == nodes_of(args@),
                operands@ == wanted.take(k as int),
                signature@.len() == k,
                forall|j: int| 0 <= j < k ==> ctx@.holds(#[trigger] wanted[j]),
                forall|j: int|
                    0 <= j < k ==> (#[trigger] signature@[j]) == ctx@.node(wanted[j]).ty
                        && signature@[j].index < ctx@.types.len(),
            decreases args.len() - k,
        {
            let node = args[k].node;
            match ctx.type_of(node) {
                None => {
                    assert(!ctx@.holds(wanted[k as int]));
                    return None;
                },
                Some(ty) => {
                    operands.push(node);
                    signature.push(ty);
                    assert(wanted.take(k + 1) =~= wanted.take(k as int).push(wanted[k as int]));
                },
            }
            k += 1;
        }
        assert(operands@ =~= wanted);
        assert(signature@ =~= signature_of(ctx@, wanted));
        Some((operands, signature))
    }

    /// Calls the callable on type-erased arguments.
    ///
    /// The signature of the call is the tuple of the arguments' types.
    /// Where a specialization for it is cached, a call of that
    /// specialization is recorded. Otherwise a nested builder is opened,
    /// one argument node per argument is recorded in it, the body is run
    /// on their handles, and what the builder recorded is sealed and
    /// cached as the specialization for the signature before the call of
    /// it is recorded. A body that fails leaves no specialization behind.
    #[verifier::loop_isolation(false)]
    #[verifier::rlimit(40)]
    pub fn call(&mut self, ctx: &mut Context, args: &Vec<Expr>) -> (result: Result<Expr, Error>)
        requires
            old(self).wf(),
            old(ctx).wf(),
            old(ctx)@.active(),
            old(ctx)@.opened < u64::MAX,
            forall|c: &mut Context, params: &Vec<Expr>|
                c.wf() && c@.active() && c@.holds_all(nodes_of(params@)) && params@.len()
                    == args@.len() ==> #[trigger] call_requires(old(self).body(), (c, params)),
            forall|c: &mut Context, params: &Vec<Expr>, r: Result<Expr, Error>|
                c.wf() && #[trigger] call_ensures(old(self).body(), (c, params), r)
                    ==> final(c).wf() && grows(c@, final(c)@),
        ensures
            final(self).wf(),
            final(self).body() == old(self).body(),
            final(ctx).wf(),
            extends(old(self)@, final(self)@),
            if !old(ctx)@.holds_all(nodes_of(args@)) {
                &&& result == Err::<Expr, Error>(Error::UnknownNode)
                &&& final(self)@ == old(self)@
                &&& final(ctx)@ == old(ctx)@
            } else if cached(old(self)@, signature_of(old(ctx)@, nodes_of(args@))) {
                hit_spec(
                    old(self)@,
                    final(self)@,
                    old(ctx)@,
                    final(ctx)@,
                    signature_of(old(ctx)@, nodes_of(args@)),
                    nodes_of(args@),
                    result,
                )
            } else {
                miss_spec(
                    old(self)@,
                    final(self)@,
                    old(ctx)@,
                    final(ctx)@,
                    signature_of(old(ctx)@, nodes_of(args@)),
                    nodes_of(args@),
                    result,
                )
            },
            result is Ok ==> cached(final(self)@, signature_of(old(ctx)@, nodes_of(args@))),
            result is Ok && !cached(old(self)@, signature_of(old(ctx)@, nodes_of(args@)))
                ==> exists|c: &mut Context, params: &Vec<Expr>|
                {
                    &&& #[trigger] call_ensures(
                        old(self).body(),
                        (c, params),
                        Ok::<Expr, Error>(Expr { node: final(self)@.last().result }),
                    )
                    &&& params@ == parameters(final(self)@.last().graph.id, args@.len() as nat)
                    &&& c@.active()
                    &&& c@.current().id == final(self)@.last().graph.id
                    &&& c@.current().nodes == argument_nodes(final(self)@.last().signature)
                    &&& final(c)@.active()
                    &&& final(c)@.current().nodes == final(self)@.last().graph.nodes
                },
            result is Err && old(ctx)@.holds_all(nodes_of(args@)) && !cached(
                old(self)@,
                signature_of(old(ctx)@, nodes_of(args@)),
            ) ==> exists|c: &mut Context, params: &Vec<Expr>, r: Result<Expr, Error>|
                {
                    &&& #[trigger] call_ensures(old(self).body(), (c, params), r)
                    &&& params@ == parameters(old(ctx)@.opened as u64, args@.len() as nat)
                    &&& c@.active()
                    &&& c@.current().nodes == argument_nodes(
                        signature_of(old(ctx)@, nodes_of(args@)),
                    )
                    &&& match r {
                        Err(failed) => result == Err::<Expr, Error>(failed),
                        Ok(_) => result == Err::<Expr, Error>(Error::UnknownNode),
                    }
                },
    {
        let ghost before = ctx@;
        let ghost cache = self@;
        proof {
            assert(cache.take(cache.len() as int) =~= cache);
        }
        let (operands, signature) = match Self::inspect(ctx, args) {
            None => {
                return Err(Error::UnknownNode);
            },
            Some(pair) => pair,
        };
        match self.find(&signature) {
            Some(index) => {
                return self.invoke(ctx, index, operands);
            },
            None => {},
        }
        ctx.enter();
        let ghost id = before.opened as u64;
        let mut params: Vec<Expr> = Vec::new();
        let mut i: usize = 0;
        proof {
            assert(ctx@.current().nodes =~= argument_nodes(signature@.take(0)));
            assert(params@ =~= parameters(id, 0));
        }
        while i < signature.len()
            invariant
                i <= signature.len(),
                ctx.wf(),
                ctx@.active(),
                ctx@.types == before.types,
                ctx@.opened == before.opened + 1,
                ctx@.stack.drop_last() == before.stack,
                ctx@.stack.len() == before.stack.len() + 1,
                ctx@.current().id == id,
                ctx@.current().scopes == Seq::<usize>::empty(),
                ctx@.current().nodes == argument_nodes(signature@.take(i as int)),
                params@ == parameters(id, i as nat),
                forall|j: int| 0 <= j < signature@.len() ==> (#[trigger] signature@[j]).index
                    < before.types.len(),
            decreases signature.len() - i,
        {
            let ghost head = ctx@;
            let node = ctx.emit(Op::Argument(i), Vec::new(), signature[i]).unwrap();
            params.push(Expr { node });
            proof {
                let done = ctx@;
                assert(done.stack.drop_last() =~= head.stack.drop_last());
                assert(done.current().nodes =~= argument_nodes(signature@.take(i + 1))) by {
                    assert(signature@.take(i + 1) =~= signature@.take(i as int).push(
                        signature@[i as int],
                    ));
                }
                assert(params@ =~= parameters(id, (i + 1) as nat));
            }
            i += 1;
        }
        let ghost opened = ctx@;
        proof {
            assert(signature@.take(signature@.len() as int) =~= signature@);
            assert forall|k: int| 0 <= k < params@.len() implies opened.holds(
                #[trigger] nodes_of(params@)[k],
            ) by {}
        }
        assert(call_requires(old(self).body(), (ctx, &params)));
        let traced = (self.body)(ctx, &params);
        let ghost inside = ctx@;
        let ghost witness = choose|c: &mut Context|
            c@ == opened && #[trigger] call_ensures(old(self).body(), (c, &params), traced)
                && final(c)@ == inside;
        let ghost handed = params;
        let graph = ctx.leave();
        proof {
            let after = ctx@;
            assert(after.stack =~= before.stack);
            assert(takes(graph@, signature@)) by {
                let shorter = opened.current().nodes;
                let longer = inside.current().nodes;
                assert forall|k: int| 0 <= k < signature@.len() implies (#[trigger] longer[k])
                    == argument_node(k, signature@[k]) by {
                    assert(longer.take(shorter.len() as int)[k] == longer[k]);
                }
            }
            assert(after.holds_all(operands@)) by {
                assert forall|k: int| 0 <= k < operands@.len() implies after.holds(
                    #[trigger] operands@[k],
                ) by {
                    assert(before.holds(operands@[k]));
                }
            }
            assert(extends(before.types, after.types));
        }
        let result = self.adopt(ctx, signature, graph, traced, operands);
        proof {
            if result is Err {
                assert(call_ensures(old(self).body(), (witness, &handed), traced));
            }
            if result is Ok {
                let fresh = self@.last();
                assert(self@.take(cache.len() as int) =~= cache);
                assert(fresh.signature == signature_of(before, nodes_of(args@)));
                assert(self@[cache.len() as int].signature == fresh.signature);
                assert(call_ensures(
                    old(self).body(),
                    (witness, &handed),
                    Ok::<Expr, Error>(Expr { node: fresh.result }),
                ));
            }
        }
        result
    }
}

} // verus!
