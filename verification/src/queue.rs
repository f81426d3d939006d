//! The intrusive queue primitive: a circular doubly-linked list whose nodes
//! live at the head of the shared buffers themselves. The sole primitive
//! usable from both cores; a link holds the arena index that stands for a
//! buffer's cross-core address, and the list head is itself a sentinel node.

use vstd::prelude::*;

verus! {

/// One intrusive queue node: the `next`/`prev` links of a circular doubly
/// linked list. A node is a member of at most one queue at any time; an
/// empty queue's sentinel points to itself.
#[derive(Clone, Copy)]
pub struct LinkedListNode {
    pub next: usize,
    pub prev: usize,
}

/// The circular list rooted at the sentinel `head` holds exactly the nodes
/// listed in `q`, in removal order: `head.next` is the first element, the
/// sentinel's `prev` the last, and every adjacent pair is doubly linked.
pub open spec fn wf_queue(nodes: Seq<LinkedListNode>, head: int, q: Seq<usize>) -> bool {
    &&& 0 <= head < nodes.len()
    &&& forall|i: int| 0 <= i < q.len() ==> #[trigger] q[i] < nodes.len()
    &&& forall|i: int| 0 <= i < q.len() ==> #[trigger] q[i] != head
    &&& forall|i: int, j: int| 0 <= i < j < q.len() ==> q[i] != q[j]
    &&& nodes[head].next == (if q.len() == 0 { head as usize } else { q[0] })
    &&& nodes[head].prev == (if q.len() == 0 { head as usize } else { q[q.len() - 1] })
    &&& forall|i: int| 0 <= i < q.len() - 1 ==> nodes[#[trigger] q[i] as int].next == q[i + 1]
    &&& forall|i: int| 1 <= i < q.len() ==> nodes[#[trigger] q[i] as int].prev == q[i - 1]
    &&& q.len() > 0 ==> nodes[q[q.len() - 1] as int].next == head
    &&& q.len() > 0 ==> nodes[q[0] as int].prev == head
}

/// Makes the node at `head` a self-referential empty sentinel.
pub fn init_head(nodes: &mut Vec<LinkedListNode>, head: usize)
    requires
        head < old(nodes).len(),
    ensures
        final(nodes).len() == old(nodes).len(),
        wf_queue(final(nodes)@, head as int, Seq::empty()),
        forall|i: int|
            0 <= i < old(nodes).len() && i != head ==> final(nodes)@[i] == old(nodes)@[i],
{
    nodes.set(head, LinkedListNode { next: head, prev: head });
}

/// Links `node` immediately before the sentinel, so that it will be removed
/// after every node already queued (FIFO order of future removal). Patches
/// only the links of `node`, the sentinel, and the former last node.
pub fn insert_tail(nodes: &mut Vec<LinkedListNode>, head: usize, node: usize, q: Ghost<Seq<usize>>)
    requires
        wf_queue(old(nodes)@, head as int, q@),
        node < old(nodes).len(),
        node != head,
        !q@.contains(node),
    ensures
        final(nodes).len() == old(nodes).len(),
        wf_queue(final(nodes)@, head as int, q@.push(node)),
        forall|i: int|
            0 <= i < old(nodes).len() && i != head && i != node
                && i != old(nodes)@[head as int].prev ==> final(nodes)@[i] == old(nodes)@[i],
{
    proof {
        assert(forall|i: int| 0 <= i < q@.len() ==> #[trigger] q@[i] != node);
    }
    let tail = nodes[head].prev;
    nodes.set(node, LinkedListNode { next: head, prev: tail });
    let tail_links = nodes[tail];
    nodes.set(tail, LinkedListNode { next: node, prev: tail_links.prev });
    let head_links = nodes[head];
    nodes.set(head, LinkedListNode { next: head_links.next, prev: node });
    proof {
        let q2 = q@.push(node);
        assert forall|i: int| 0 <= i < q2.len() - 1 implies nodes@[#[trigger] q2[i] as int].next
            == q2[i + 1] by {
            if i < q@.len() - 1 {
                assert(q2[i] == q@[i] && q2[i + 1] == q@[i + 1]);
            }
        }
        assert forall|i: int| 1 <= i < q2.len() implies nodes@[#[trigger] q2[i] as int].prev
            == q2[i - 1] by {
            if i < q@.len() {
                assert(q2[i] == q@[i] && q2[i - 1] == q@[i - 1]);
            }
        }
        assert(wf_queue(nodes@, head as int, q2));
    }
}

/// Unlinks and returns the first real node, or signals that the queue is
/// empty; removing from an empty queue never yields an undefined link.
pub fn remove_head(nodes: &mut Vec<LinkedListNode>, head: usize, q: Ghost<Seq<usize>>) -> (r:
    Option<usize>)
    requires
        wf_queue(old(nodes)@, head as int, q@),
    ensures
        final(nodes).len() == old(nodes).len(),
        q@.len() == 0 ==> r is None && final(nodes)@ == old(nodes)@,
        q@.len() > 0 ==> {
            &&& r == Some(q@[0])
            &&& wf_queue(final(nodes)@, head as int, q@.drop_first())
            &&& forall|i: int|
                0 <= i < old(nodes).len() && i != head
                    && i != old(nodes)@[q@[0] as int].next as int ==> final(nodes)@[i] == old(
                    nodes,
                )@[i]
        },
{
    let first = nodes[head].next;
    if first == head {
        None
    } else {
        let second = nodes[first].next;
        let head_links = nodes[head];
        nodes.set(head, LinkedListNode { next: second, prev: head_links.prev });
        let second_links = nodes[second];
        nodes.set(second, LinkedListNode { next: second_links.next, prev: head });
        proof {
            let q2 = q@.drop_first();
            assert forall|i: int| 0 <= i < q2.len() - 1 implies nodes@[#[trigger] q2[i] as int].next
                == q2[i + 1] by {
                assert(q2[i] == q@[i + 1] && q2[i + 1] == q@[i + 2]);
            }
            assert forall|i: int| 1 <= i < q2.len() implies nodes@[#[trigger] q2[i] as int].prev
                == q2[i - 1] by {
                assert(q2[i] == q@[i + 1] && q2[i - 1] == q@[i]);
            }
            assert(wf_queue(nodes@, head as int, q2));
        }
        Some(first)
    }
}

/// True iff the queue holds no nodes: the sentinel points to itself exactly
/// when the model sequence is empty.
pub fn is_empty(nodes: &Vec<LinkedListNode>, head: usize, q: Ghost<Seq<usize>>) -> (r: bool)
    requires
        wf_queue(nodes@, head as int, q@),
    ensures
        r <==> q@.len() == 0,
{
    nodes[head].next == head
}

/// A queue whose sentinel and members are untouched by an update of the node
/// arena is still well formed over the same model: the list conditions read
/// only the sentinel's and the members' links.
pub proof fn lemma_wf_queue_frame(
    old_nodes: Seq<LinkedListNode>,
    new_nodes: Seq<LinkedListNode>,
    head: int,
    q: Seq<usize>,
)
    requires
        wf_queue(old_nodes, head, q),
        new_nodes.len() == old_nodes.len(),
        new_nodes[head] == old_nodes[head],
        forall|i: int| 0 <= i < q.len() ==> new_nodes[#[trigger] q[i] as int] == old_nodes[
            q[i] as int],
    ensures
        wf_queue(new_nodes, head, q),
{
}

/// Removal order equals insertion order. `insert_tail` appends the new node
/// to the queue model and `remove_head` removes and returns the model's first
/// element, so after any sequence of insertions producing the model `q`, the
/// node returned by the removal that follows `i` earlier removals is exactly
/// the `i`-th node inserted, and `is_empty` answers false until all inserted
/// nodes have been removed.
pub proof fn lemma_fifo_order(q: Seq<usize>, i: int)
    requires
        0 <= i < q.len(),
    ensures
        q.skip(0) == q,
        q.skip(i).drop_first() == q.skip(i + 1),
        q.skip(i)[0] == q[i],
        q.skip(i).len() > 0,
{
    assert(q.skip(0) =~= q);
    assert(q.skip(i).drop_first() =~= q.skip(i + 1));
}

} // verus!
