//! The buffer pool manager: owns a statically-sized arena of equal-size
//! buffers, the free queue the coprocessor draws from, and the pending queue
//! of delivered events. Every buffer is, at all times, in exactly one of
//! three states: linked in the free queue, linked in the pending queue, or
//! claimed out of the pool (held by its producer or by a live [`EvtBox`]); a
//! buffer is never readable through a handle and linked in a queue at once.

use vstd::prelude::*;
use vstd::pervasive::VecAdditionalExecFns;

use crate::evt::EvtBox;
use crate::queue;
use crate::queue::LinkedListNode;
use crate::TL_EVT_BUF_MIN_SIZE;

verus! {

/// Copies the bytes of a buffer; the pool uses it to move payload bytes in
/// and out of the arena without aliasing them.
fn copy_bytes(src: &Vec<u8>) -> (r: Vec<u8>)
    ensures
        r@ == src@,
{
    let mut out: Vec<u8> = Vec::new();
    let mut i: usize = 0;
    while i < src.len()
        invariant
            i <= src.len(),
            out@ == src@.subrange(0, i as int),
        decreases src.len() - i,
    {
        out.push(src[i]);
        proof {
            assert(out@ =~= src@.subrange(0, i + 1));
        }
        i = i + 1;
    }
    proof {
        assert(src@.subrange(0, src@.len() as int) =~= src@);
    }
    out
}

/// The buffer pool manager. Buffer `b` of the arena is node `b` of the node
/// arena; the two sentinels follow the buffers.
pub struct MemoryManager {
    nodes: Vec<LinkedListNode>,
    bufs: Vec<Option<Vec<u8>>>,
    buf_size: usize,
    free: Ghost<Seq<usize>>,
    pend: Ghost<Seq<usize>>,
}

impl MemoryManager {
    /// Number of buffers in the arena.
    pub closed spec fn n_bufs(self) -> usize {
        self.bufs.len() as usize
    }

    /// Size in bytes of every buffer of the arena.
    pub closed spec fn buf_size(self) -> usize {
        self.buf_size
    }

    /// The free queue: buffers the producing core may claim, oldest first.
    pub closed spec fn free_q(self) -> Seq<usize> {
        self.free@
    }

    /// The pending queue: delivered buffers not yet ingested, oldest first.
    pub closed spec fn pend_q(self) -> Seq<usize> {
        self.pend@
    }

    /// Buffer `b` is claimed out of the pool: a producer or a live event
    /// handle owns it, and it is linked in no queue.
    pub closed spec fn claimed(self, b: usize) -> bool {
        b < self.bufs.len() && self.bufs[b as int] is None
    }

    /// The bytes a queued buffer currently holds.
    pub closed spec fn buf_at(self, b: usize) -> Seq<u8>
        recommends
            b < self.n_bufs(),
            !self.claimed(b),
    {
        self.bufs[b as int]->Some_0@
    }

    /// Index of the free queue's sentinel node.
    pub closed spec fn free_head(self) -> usize {
        self.bufs.len() as usize
    }

    /// Index of the pending queue's sentinel node.
    pub closed spec fn pend_head(self) -> usize {
        (self.bufs.len() + 1) as usize
    }

    /// The pool's invariant: both queues are well-formed circular lists over
    /// the node arena, they are disjoint, no sentinel is a buffer, and a
    /// buffer holds bytes exactly when some queue links it.
    pub closed spec fn wf(self) -> bool {
        &&& self.bufs.len() + 2 <= usize::MAX
        &&& self.nodes.len() == self.bufs.len() + 2
        &&& self.buf_size >= TL_EVT_BUF_MIN_SIZE
        &&& queue::wf_queue(self.nodes@, self.free_head() as int, self.free@)
        &&& queue::wf_queue(self.nodes@, self.pend_head() as int, self.pend@)
        &&& forall|i: int| 0 <= i < self.free@.len() ==> #[trigger] self.free@[i] < self.bufs.len()
        &&& forall|i: int| 0 <= i < self.pend@.len() ==> #[trigger] self.pend@[i] < self.bufs.len()
        &&& forall|i: int, j: int|
            0 <= i < self.free@.len() && 0 <= j < self.pend@.len() ==> self.free@[i]
                != self.pend@[j]
        &&& forall|b: int|
            0 <= b < self.bufs.len() ==> ((#[trigger] self.bufs[b]) is Some <==> (
            self.free@.contains(b as usize) || self.pend@.contains(b as usize)))
        &&& forall|b: int|
            0 <= b < self.bufs.len() && self.bufs[b] is Some ==> (#[trigger] self.bufs[b])->Some_0@.len()
                == self.buf_size
    }

    /// Builds a pool of `n_bufs` zeroed buffers of `buf_size` bytes each and
    /// seeds the free queue with every buffer in address order; the pending
    /// queue starts empty.
    pub fn new(n_bufs: usize, buf_size: usize) -> (r: MemoryManager)
        requires
            n_bufs + 2 <= usize::MAX,
            buf_size >= TL_EVT_BUF_MIN_SIZE,
        ensures
            r.wf(),
            r.n_bufs() == n_bufs,
            r.buf_size() == buf_size,
            r.free_q().len() == n_bufs,
            forall|i: int| 0 <= i < n_bufs ==> #[trigger] r.free_q()[i] == i,
            r.pend_q().len() == 0,
    {
        let mut nodes: Vec<LinkedListNode> = Vec::new();
        let mut bufs: Vec<Option<Vec<u8>>> = Vec::new();
        let mut i: usize = 0;
        while i < n_bufs
            invariant
                i <= n_bufs,
                n_bufs + 2 <= usize::MAX,
                buf_size >= TL_EVT_BUF_MIN_SIZE,
                nodes@.len() == i,
                bufs@.len() == i,
                forall|b: int|
                    0 <= b < i ==> (#[trigger] bufs@[b]) is Some && bufs@[b]->Some_0@.len()
                        == buf_size,
            decreases n_bufs - i,
        {
            nodes.push(LinkedListNode { next: 0, prev: 0 });
            bufs.push(Some(zeroed_buf(buf_size)));
            i = i + 1;
        }
        nodes.push(LinkedListNode { next: 0, prev: 0 });
        nodes.push(LinkedListNode { next: 0, prev: 0 });
        queue::init_head(&mut nodes, n_bufs);
        queue::init_head(&mut nodes, n_bufs + 1);
        let mut mm = MemoryManager {
            nodes,
            bufs,
            buf_size,
            free: Ghost(Seq::empty()),
            pend: Ghost(Seq::empty()),
        };
        let mut b: usize = 0;
        while b < n_bufs
            invariant
                b <= n_bufs,
                mm.bufs@.len() == n_bufs,
                mm.buf_size == buf_size,
                n_bufs + 2 <= usize::MAX,
                buf_size >= TL_EVT_BUF_MIN_SIZE,
                mm.nodes@.len() == n_bufs + 2,
                mm.free@.len() == b,
                forall|i: int| 0 <= i < b ==> #[trigger] mm.free@[i] == i,
                mm.pend@.len() == 0,
                queue::wf_queue(mm.nodes@, n_bufs as int, mm.free@),
                queue::wf_queue(mm.nodes@, n_bufs + 1 as int, mm.pend@),
                forall|i: int|
                    0 <= i < mm.bufs@.len() ==> (#[trigger] mm.bufs@[i]) is Some
                        && mm.bufs@[i]->Some_0@.len() == buf_size,
            decreases n_bufs - b,
        {
            let ghost old_nodes = mm.nodes@;
            let ghost pend_model = mm.pend@;
            proof {
                if mm.free@.contains(b) {
                    let i = choose|i: int| 0 <= i < mm.free@.len() && mm.free@[i] == b;
                    assert(mm.free@[i] == i);
                }
            }
            queue::insert_tail(&mut mm.nodes, n_bufs, b, Ghost(mm.free@));
            proof {
                mm.free@ = mm.free@.push(b);
                queue::lemma_wf_queue_frame(old_nodes, mm.nodes@, n_bufs + 1 as int, pend_model);
            }
            b = b + 1;
        }
        proof {
            assert forall|bb: int| 0 <= bb < mm.bufs@.len() implies ((#[trigger] mm.bufs@[bb]) is Some
                <==> (mm.free@.contains(bb as usize) || mm.pend@.contains(bb as usize))) by {
                assert(mm.free@[bb] == bb as usize);
            }
        }
        mm
    }

    /// Claims the oldest free buffer for a producer, unlinking it from the
    /// free queue: the pool is exhausted exactly when the free queue is
    /// empty, a fatal capacity-sizing condition for the caller. The returned
    /// bytes have the pool's buffer size, but a reclaimed buffer's previous
    /// payload is not assumed valid: nothing more is promised of them.
    pub fn claim_free_buffer(&mut self) -> (r: Option<(usize, Vec<u8>)>)
        requires
            old(self).wf(),
        ensures
            final(self).wf(),
            final(self).n_bufs() == old(self).n_bufs(),
            final(self).buf_size() == old(self).buf_size(),
            final(self).pend_q() == old(self).pend_q(),
            old(self).free_q().len() == 0 ==> r is None && final(self).free_q() == old(
                self,
            ).free_q(),
            old(self).free_q().len() > 0 ==> {
                &&& r is Some
                &&& r->Some_0.0 == old(self).free_q()[0]
                &&& r->Some_0.1@.len() == old(self).buf_size()
                &&& final(self).free_q() == old(self).free_q().drop_first()
                &&& final(self).claimed(old(self).free_q()[0])
            },
            forall|b: usize| old(self).claimed(b) ==> final(self).claimed(b),
            forall|b: usize|
                b < old(self).n_bufs() && !final(self).claimed(b) ==> !old(self).claimed(b)
                    && final(self).buf_at(b) == old(self).buf_at(b),
    {
        let ghost old_nodes = self.nodes@;
        let ghost pend_model = self.pend@;
        let n = self.bufs.len();
        let got = queue::remove_head(&mut self.nodes, n, Ghost(self.free@));
        match got {
            None => None,
            Some(a) => {
                proof {
                    self.free@ = self.free@.drop_first();
                    queue::lemma_wf_queue_frame(old_nodes, self.nodes@, n + 1 as int, pend_model);
                    assert(old(self).free@.contains(old(self).free@[0]));
                }
                let bytes = match &self.bufs[a] {
                    Some(v) => copy_bytes(v),
                    None => {
                        // a free-queue member always holds bytes
                        proof {
                            assert(false);
                        }
                        Vec::new()
                    },
                };
                self.bufs.set(a, None);
                proof {
                    assert forall|b: int|
                        0 <= b < self.bufs@.len() implies ((#[trigger] self.bufs@[b]) is Some <==> (
                    self.free@.contains(b as usize) || self.pend@.contains(b as usize))) by {
                        if b != a {
                            if self.free@.contains(b as usize) {
                                let i = choose|i: int|
                                    0 <= i < self.free@.len() && self.free@[i] == b as usize;
                                assert(old(self).free@[i + 1] == b as usize);
                                assert(old(self).free@.contains(b as usize));
                            }
                            if old(self).free@.contains(b as usize) {
                                let i = choose|i: int|
                                    0 <= i < old(self).free@.len() && old(self).free@[i]
                                        == b as usize;
                                assert(i != 0);
                                assert(self.free@[i - 1] == b as usize);
                            }
                        } else {
                            assert(!self.free@.contains(a));
                            assert(!self.pend@.contains(a));
                        }
                    }
                }
                Some((a, bytes))
            },
        }
    }

    /// Returns a buffer to the free queue, linking it at the tail; called
    /// exactly once per buffer per cycle, by the consuming side, after it has
    /// fully finished reading the buffer's contents.
    pub fn provide_free_buffer(&mut self, addr: usize, bytes: Vec<u8>)
        requires
            old(self).wf(),
            old(self).claimed(addr),
            bytes@.len() == old(self).buf_size(),
        ensures
            final(self).wf(),
            final(self).n_bufs() == old(self).n_bufs(),
            final(self).buf_size() == old(self).buf_size(),
            final(self).pend_q() == old(self).pend_q(),
            final(self).free_q() == old(self).free_q().push(addr),
            !final(self).claimed(addr),
            forall|b: usize| b != addr && old(self).claimed(b) ==> final(self).claimed(b),
            forall|b: usize|
                b != addr && b < old(self).n_bufs() && !old(self).claimed(b) ==> !final(self).claimed(b) && final(self).buf_at(b) == old(self).buf_at(b),
    {
        self.enqueue(addr, bytes, true);
    }

    /// Delivers a claimed buffer, now holding a completed record, to the tail
    /// of the pending queue for the consuming side to ingest.
    pub fn post_event(&mut self, addr: usize, bytes: Vec<u8>)
        requires
            old(self).wf(),
            old(self).claimed(addr),
            bytes@.len() == old(self).buf_size(),
        ensures
            final(self).wf(),
            final(self).n_bufs() == old(self).n_bufs(),
            final(self).buf_size() == old(self).buf_size(),
            final(self).free_q() == old(self).free_q(),
            final(self).pend_q() == old(self).pend_q().push(addr),
            !final(self).claimed(addr),
            final(self).buf_at(addr) == bytes@,
            forall|b: usize| b != addr && old(self).claimed(b) ==> final(self).claimed(b),
            forall|b: usize|
                b != addr && b < old(self).n_bufs() && !old(self).claimed(b) ==> !final(self).claimed(b) && final(self).buf_at(b) == old(self).buf_at(b),
    {
        self.enqueue(addr, bytes, false);
    }

    /// Links a claimed buffer into one of the two queues and deposits its
    /// bytes back into the arena.
    fn enqueue(&mut self, addr: usize, bytes: Vec<u8>, to_free: bool)
        requires
            old(self).wf(),
            old(self).claimed(addr),
            bytes@.len() == old(self).buf_size(),
        ensures
            final(self).wf(),
            final(self).n_bufs() == old(self).n_bufs(),
            final(self).buf_size() == old(self).buf_size(),
            to_free ==> final(self).pend_q() == old(self).pend_q() && final(self).free_q() == old(self).free_q().push(addr),
            !to_free ==> final(self).free_q() == old(self).free_q() && final(self).pend_q() == old(self).pend_q().push(addr),
            !final(self).claimed(addr),
            final(self).buf_at(addr) == bytes@,
            forall|b: usize| b != addr && old(self).claimed(b) ==> final(self).claimed(b),
            forall|b: usize|
                b != addr && b < old(self).n_bufs() && !old(self).claimed(b) ==> !final(self).claimed(b) && final(self).buf_at(b) == old(self).buf_at(b),
    {
        let ghost old_nodes = self.nodes@;
        let ghost other_model = if to_free {
            self.pend@
        } else {
            self.free@
        };
        let n = self.bufs.len();
        proof {
            assert(!self.free@.contains(addr) && !self.pend@.contains(addr));
        }
        self.bufs.set(addr, Some(bytes));
        if to_free {
            queue::insert_tail(&mut self.nodes, n, addr, Ghost(self.free@));
            proof {
                self.free@ = self.free@.push(addr);
                queue::lemma_wf_queue_frame(old_nodes, self.nodes@, n + 1 as int, other_model);
            }
        } else {
            queue::insert_tail(&mut self.nodes, n + 1, addr, Ghost(self.pend@));
            proof {
                self.pend@ = self.pend@.push(addr);
                queue::lemma_wf_queue_frame(old_nodes, self.nodes@, n as int, other_model);
            }
        }
        proof {
            let fq = self.free@;
            let pq = self.pend@;
            assert forall|b: int|
                0 <= b < self.bufs@.len() implies ((#[trigger] self.bufs@[b]) is Some <==> (
            fq.contains(b as usize) || pq.contains(b as usize))) by {
                let oldf = old(self).free@;
                let oldp = old(self).pend@;
                if b == addr {
                    if to_free {
                        assert(fq[fq.len() - 1] == addr);
                        assert(fq.contains(addr));
                    } else {
                        assert(pq[pq.len() - 1] == addr);
                        assert(pq.contains(addr));
                    }
                } else {
                    if oldf.contains(b as usize) {
                        let i = choose|i: int| 0 <= i < oldf.len() && oldf[i] == b as usize;
                        if to_free {
                            assert(fq[i] == b as usize);
                        }
                        assert(fq.contains(b as usize));
                    }
                    if oldp.contains(b as usize) {
                        let i = choose|i: int| 0 <= i < oldp.len() && oldp[i] == b as usize;
                        if !to_free {
                            assert(pq[i] == b as usize);
                        }
                        assert(pq.contains(b as usize));
                    }
                    if fq.contains(b as usize) {
                        let i = choose|i: int| 0 <= i < fq.len() && fq[i] == b as usize;
                        if to_free && i < fq.len() - 1 {
                            assert(oldf[i] == b as usize);
                        }
                        if !to_free {
                            assert(oldf[i] == b as usize);
                        }
                    }
                    if pq.contains(b as usize) {
                        let i = choose|i: int| 0 <= i < pq.len() && pq[i] == b as usize;
                        if !to_free && i < pq.len() - 1 {
                            assert(oldp[i] == b as usize);
                        }
                        if to_free {
                            assert(oldp[i] == b as usize);
                        }
                    }
                }
            }
        }
    }

    /// Unlinks and returns the oldest pending event as an owning handle, or
    /// nothing when the pending queue is empty. The buffer becomes claimed:
    /// it is readable only through the handle until the handle is reclaimed.
    pub fn pop_event(&mut self) -> (r: Option<EvtBox>)
        requires
            old(self).wf(),
        ensures
            final(self).wf(),
            final(self).n_bufs() == old(self).n_bufs(),
            final(self).buf_size() == old(self).buf_size(),
            final(self).free_q() == old(self).free_q(),
            old(self).pend_q().len() == 0 ==> r is None && final(self).pend_q() == old(
                self,
            ).pend_q(),
            old(self).pend_q().len() > 0 ==> {
                &&& r is Some
                &&& r->Some_0.buffer_addr() == old(self).pend_q()[0]
                &&& r->Some_0.contents() == old(self).buf_at(old(self).pend_q()[0])
                &&& r->Some_0.contents().len() == old(self).buf_size()
                &&& r->Some_0.wf()
                &&& final(self).pend_q() == old(self).pend_q().drop_first()
                &&& final(self).claimed(r->Some_0.buffer_addr())
            },
            forall|b: usize| old(self).claimed(b) ==> final(self).claimed(b),
            forall|b: usize|
                b < old(self).n_bufs() && !final(self).claimed(b) ==> !old(self).claimed(b)
                    && final(self).buf_at(b) == old(self).buf_at(b),
    {
        let ghost old_nodes = self.nodes@;
        let ghost free_model = self.free@;
        let n = self.bufs.len();
        let got = queue::remove_head(&mut self.nodes, n + 1, Ghost(self.pend@));
        match got {
            None => None,
            Some(a) => {
                proof {
                    self.pend@ = self.pend@.drop_first();
                    queue::lemma_wf_queue_frame(old_nodes, self.nodes@, n as int, free_model);
                    assert(old(self).pend@.contains(old(self).pend@[0]));
                }
                let bytes = match &self.bufs[a] {
                    Some(v) => copy_bytes(v),
                    None => {
                        // a pending-queue member always holds bytes
                        proof {
                            assert(false);
                        }
                        Vec::new()
                    },
                };
                self.bufs.set(a, None);
                proof {
                    assert forall|b: int|
                        0 <= b < self.bufs@.len() implies ((#[trigger] self.bufs@[b]) is Some <==> (
                    self.free@.contains(b as usize) || self.pend@.contains(b as usize))) by {
                        if b != a {
                            if self.pend@.contains(b as usize) {
                                let i = choose|i: int|
                                    0 <= i < self.pend@.len() && self.pend@[i] == b as usize;
                                assert(old(self).pend@[i + 1] == b as usize);
                            }
                            if old(self).pend@.contains(b as usize) {
                                let i = choose|i: int|
                                    0 <= i < old(self).pend@.len() && old(self).pend@[i]
                                        == b as usize;
                                assert(i != 0);
                                assert(self.pend@[i - 1] == b as usize);
                            }
                        } else {
                            assert(!self.free@.contains(a));
                            assert(!self.pend@.contains(a));
                        }
                    }
                }
                Some(EvtBox::new(a, bytes))
            },
        }
    }

    /// The handle-destruction hook: consumes an event handle and reinserts
    /// its buffer into the free queue. Taking the handle by value makes the
    /// reclaim callable exactly once per handle lifetime; afterwards the
    /// buffer is no longer claimed, so no handle for it can satisfy this
    /// operation's precondition again until the buffer is claimed anew.
    /// Whether a reclaim must additionally ring the coprocessor's doorbell,
    /// or the coprocessor polls the free queue, is decided per pool by the
    /// firmware protocol; that signal belongs to the platform layer.
    pub fn evt_handled(&mut self, evt: EvtBox)
        requires
            old(self).wf(),
            old(self).claimed(evt.buffer_addr()),
            evt.contents().len() == old(self).buf_size(),
        ensures
            final(self).wf(),
            final(self).n_bufs() == old(self).n_bufs(),
            final(self).buf_size() == old(self).buf_size(),
            final(self).pend_q() == old(self).pend_q(),
            final(self).free_q() == old(self).free_q().push(evt.buffer_addr()),
            !final(self).claimed(evt.buffer_addr()),
            forall|b: usize|
                b != evt.buffer_addr() && old(self).claimed(b) ==> final(self).claimed(b),
    {
        let (addr, bytes) = evt.into_parts();
        self.provide_free_buffer(addr, bytes);
    }

    /// Exclusivity of buffer ownership: while a buffer is claimed, and so
    /// readable through the payload view of the live handle that owns it, it
    /// is linked in neither the free queue nor the pending queue.
    pub proof fn lemma_claimed_excludes_queues(self, b: usize)
        requires
            self.wf(),
            self.claimed(b),
        ensures
            !self.free_q().contains(b),
            !self.pend_q().contains(b),
    {
    }

    /// The converse exclusivity: a buffer linked in either queue holds its
    /// bytes in the pool and is not claimed, so no live handle owns it.
    pub proof fn lemma_queued_not_claimed(self, b: usize)
        requires
            self.wf(),
            self.free_q().contains(b) || self.pend_q().contains(b),
        ensures
            !self.claimed(b),
    {
        if self.free@.contains(b) {
            let i = choose|i: int| 0 <= i < self.free@.len() && self.free@[i] == b;
            assert(self.free@[i] < self.bufs.len());
        } else {
            let i = choose|i: int| 0 <= i < self.pend@.len() && self.pend@[i] == b;
            assert(self.pend@[i] < self.bufs.len());
        }
    }

    /// A reclaim pairs with exactly one handle lifetime: `evt_handled`
    /// consumes its handle, so a second reclaim through the same handle
    /// cannot even be written; and once the buffer sits in the free queue
    /// again it is no longer claimed, so no handle for it can satisfy the
    /// reclaim precondition until the buffer is claimed anew.
    pub proof fn lemma_reclaim_exactly_once(self, b: usize)
        requires
            self.wf(),
            self.free_q().contains(b),
        ensures
            !self.claimed(b),
    {
        self.lemma_queued_not_claimed(b);
    }
}

/// A fresh zeroed buffer of the given size.
pub(crate) fn zeroed_buf(len: usize) -> (r: Vec<u8>)
    ensures
        r@.len() == len,
        forall|i: int| 0 <= i < len ==> r@[i] == 0u8,
{
    let mut out: Vec<u8> = Vec::new();
    let mut i: usize = 0;
    while i < len
        invariant
            i <= len,
            out@.len() == i,
            forall|j: int| 0 <= j < i ==> out@[j] == 0u8,
        decreases len - i,
    {
        out.push(0u8);
        i = i + 1;
    }
    out
}

} // verus!
