//! What a node denotes: reading a component that was just written gives
//! the written value.
use vstd::prelude::*;
use crate::context::ContextView;
use crate::expr::{extract_check, insert_check, recorded};
use crate::graph::{NodeRef, NodeView, Op};

verus! {

/// The position of the node that supplies component `index` of the value
/// of node `n`, where the graph shows it: the written value of an `Insert`
/// at that index, what the receiver of an `Insert` at another index
/// supplies, or the part of a `Compose` at that position.
pub open spec fn source(nodes: Seq<NodeView>, n: int, index: u32) -> Option<int>
    decreases n,
{
    if 0 <= n < nodes.len() {
        let node = nodes[n];
        match node.op {
            Op::Insert(written) => if node.operands.len() == 2 {
                if written == index {
                    Some(node.operands[1].index as int)
                } else if node.operands[0].index < n {
                    source(nodes, node.operands[0].index as int, index)
                } else {
                    None
                }
            } else {
                None
            },
            Op::Compose => if index < node.operands.len() {
                Some(node.operands[index as int].index as int)
            } else {
                None
            },
            _ => None,
        }
    } else {
        None
    }
}

/// The position of the node whose value node `n` denotes: for a read of a
/// component whose supplier the graph shows, what the supplier denotes;
/// for any other node, the node itself.
pub open spec fn value_of(nodes: Seq<NodeView>, n: int) -> int
    decreases n,
{
    if 0 <= n < nodes.len() {
        let node = nodes[n];
        match node.op {
            Op::Extract(index) => if node.operands.len() == 1 && node.operands[0].index < n {
                match source(nodes, node.operands[0].index as int, index) {
                    Some(supplier) => if 0 <= supplier < n {
                        value_of(nodes, supplier)
                    } else {
                        n
                    },
                    None => n,
                }
            } else {
                n
            },
            _ => n,
        }
    } else {
        n
    }
}

/// What a node supplies depends only on the nodes up to it: recording more
/// nodes never changes it.
pub proof fn lemma_source_prefix(shorter: Seq<NodeView>, longer: Seq<NodeView>, n: int, index: u32)
    requires
        crate::types::extends(shorter, longer),
        0 <= n < shorter.len(),
    ensures
        source(longer, n, index) == source(shorter, n, index),
    decreases n,
{
    assert(longer.take(shorter.len() as int)[n] == longer[n]);
    let node = shorter[n];
    match node.op {
        Op::Insert(written) => {
            if node.operands.len() == 2 && written != index && node.operands[0].index < n {
                lemma_source_prefix(shorter, longer, node.operands[0].index as int, index);
            }
        },
        _ => {},
    }
}

/// Value immutability: what a node denotes depends only on the nodes up to
/// it, so no operation recorded later changes what a handle denotes.
pub proof fn lemma_value_prefix(shorter: Seq<NodeView>, longer: Seq<NodeView>, n: int)
    requires
        crate::types::extends(shorter, longer),
        0 <= n < shorter.len(),
    ensures
        value_of(longer, n) == value_of(shorter, n),
    decreases n,
{
    assert(longer.take(shorter.len() as int)[n] == longer[n]);
    let node = shorter[n];
    match node.op {
        Op::Extract(index) => {
            if node.operands.len() == 1 && node.operands[0].index < n {
                let base = node.operands[0].index as int;
                lemma_source_prefix(shorter, longer, base, index);
                match source(shorter, base, index) {
                    Some(supplier) => {
                        if 0 <= supplier < n {
                            lemma_value_prefix(shorter, longer, supplier);
                        }
                    },
                    None => {},
                }
            }
        },
        _ => {},
    }
}

/// Field round trip. Replace component `index` of `receiver` by `value`,
/// then read component `index` of the result: the read is accepted, and as
/// a graph value it is `value`, since it denotes what `value` denotes.
/// The receiver may be a vector, a matrix, a struct or an array, and
/// `index` any index below its arity.
pub proof fn lemma_field_round_trip(
    start: ContextView,
    receiver: NodeRef,
    index: u32,
    value: NodeRef,
)
    requires
        start.wf(),
        start.active(),
        start.current().nodes.len() + 2 <= usize::MAX,
        insert_check(start, receiver, index, value) is Ok,
    ensures
        ({
            let replaced = start.next();
            let written = recorded(
                start,
                Op::Insert(index),
                seq![receiver, value],
                insert_check(start, receiver, index, value)->Ok_0,
            );
            let read = written.next();
            let done = recorded(
                written,
                Op::Extract(index),
                seq![replaced],
                extract_check(written, replaced, index)->Ok_0,
            );
            &&& extract_check(written, replaced, index) is Ok
            &&& extract_check(written, replaced, index) == extract_check(start, receiver, index)
            &&& done.holds(read)
            &&& value_of(done.current().nodes, read.index as int) == value_of(
                done.current().nodes,
                value.index as int,
            )
        }),
{
    let whole = insert_check(start, receiver, index, value)->Ok_0;
    let replaced = start.next();
    let written = recorded(start, Op::Insert(index), seq![receiver, value], whole);
    let part = extract_check(written, replaced, index);
    let read = written.next();
    let types = crate::types::intern(start.types, whole).0;
    let at = start.node(receiver).ty.index as int;
    assert(crate::context::typed(start.stack[start.stack.len() - 1].nodes, start.types.len()));
    assert(start.types[at] == whole);
    assert(start.types.contains(whole));
    assert(types == start.types);
    let found = start.types.index_of(whole);
    assert(0 <= found < start.types.len() && start.types[found] == whole);
    assert(written.shape(replaced) == whole);
    let done = recorded(written, Op::Extract(index), seq![replaced], part->Ok_0);
    let nodes = done.current().nodes;
    let n = start.current().nodes.len() as int;
    assert(nodes[n] == written.current().nodes[n]);
    assert(nodes[n].op == Op::Insert(index));
    assert(nodes[n].operands =~= seq![receiver, value]);
    assert(nodes[n + 1].op == Op::Extract(index));
    assert(nodes[n + 1].operands =~= seq![replaced]);
    assert(source(nodes, n, index) == Some(value.index as int));
    assert(value_of(nodes, n + 1) == value_of(nodes, value.index as int));
}

} // verus!
