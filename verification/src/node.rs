//! References to the elements of the page that stand for windows and terminals.

use vstd::prelude::*;

verus! {

/// `yew::NodeRef`: a handle on a cell that the renderer points at the page element that it is
/// attached to. Nothing inside the cell is visible to the proofs: two references are equal there
/// just if they are handles on one cell.
#[verifier::external_type_specification]
#[verifier::external_body]
pub struct ExNodeRef(yew::NodeRef);

/// `<yew::NodeRef as Default>::default`: a handle on a cell made for it, which is none of the cells
/// that the given handles keep alive. That the cell is attached to no element yet is left unsaid:
/// the renderer changes that later.
#[allow(unused_variables)]
#[verifier::external_body]
pub(crate) fn fresh_node(held: &Vec<yew::NodeRef>) -> (node: yew::NodeRef)
    ensures
        !held@.contains(node),
{
    yew::NodeRef::default()
}

/// `<yew::NodeRef as Clone>::clone`: another handle on the same cell, so that both always refer
/// to the same element.
#[verifier::external_body]
pub(crate) fn share_node(node: &yew::NodeRef) -> (shared: yew::NodeRef)
    ensures
        shared == *node,
{
    node.clone()
}

/// The given number of references, no two alike and none of them held already; they are then held
/// too.
pub(crate) fn fresh_nodes(count: usize, held: &mut Vec<yew::NodeRef>) -> (nodes: Vec<yew::NodeRef>)
    ensures
        nodes@.len() == count,
        nodes@.no_duplicates(),
        forall|i: int| 0 <= i < nodes@.len() ==> !old(held)@.contains(#[trigger] nodes@[i]),
        final(held)@ == old(held)@ + nodes@,
{
    let ghost before = held@;
    let mut nodes: Vec<yew::NodeRef> = Vec::new();
    let mut i: usize = 0;
    while i < count
        invariant
            i <= count,
            nodes@.len() == i,
            nodes@.no_duplicates(),
            forall|j: int| 0 <= j < i ==> !before.contains(#[trigger] nodes@[j]),
            held@ == before + nodes@,
        decreases count - i,
    {
        let node = fresh_node(held);
        proof {
            assert(!before.contains(node)) by {
                if before.contains(node) {
                    let j = choose|j: int| 0 <= j < before.len() && before[j] == node;
                    assert(held@[j] == node);
                }
            }
            assert forall|j: int| 0 <= j < i implies #[trigger] nodes@[j] != node by {
                assert(held@[before.len() + j] == nodes@[j]);
            }
        }
        held.push(share_node(&node));
        nodes.push(node);
        i += 1;
    }
    nodes
}

/// Handles on the same cells, in the same order.
pub(crate) fn share_nodes(nodes: &Vec<yew::NodeRef>) -> (shared: Vec<yew::NodeRef>)
    ensures
        shared@ == nodes@,
{
    let mut shared: Vec<yew::NodeRef> = Vec::new();
    for i in 0..nodes.len()
        invariant
            shared@ == nodes@.take(i as int),
    {
        shared.push(share_node(&nodes[i]));
        assert(nodes@.take(i + 1) =~= nodes@.take(i as int).push(nodes@[i as int]));
    }
    assert(nodes@.take(nodes@.len() as int) =~= nodes@);
    shared
}

} // verus!
