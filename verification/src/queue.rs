//! Copy requests and the pending queue they wait in.
//!
//! The watcher is the sole producer: it appends one request per newly
//! detected volume with a resolvable destination. The consumer removes
//! entries by index, either to start the copy or to discard it.

use vstd::prelude::*;

verus! {

/// A detected volume awaiting confirmation: its mount point, the resolved
/// destination root, and the volume's recursive file count (precomputed so
/// the consumer can show it before confirming). Immutable once built.
pub struct CopyRequest {
    pub src: String,
    pub dest: String,
    pub file_count: usize,
}

/// The mathematical content of a `CopyRequest`.
pub ghost struct RequestModel {
    pub src: Seq<char>,
    pub dest: Seq<char>,
    pub file_count: nat,
}

impl View for CopyRequest {
    type V = RequestModel;

    open spec fn view(&self) -> RequestModel {
        RequestModel { src: self.src@, dest: self.dest@, file_count: self.file_count as nat }
    }
}

impl CopyRequest {
    /// Builds a request for a volume at `src` bound for `dest`.
    pub fn new(src: String, dest: String, file_count: usize) -> (r: CopyRequest)
        ensures
            r@ == (RequestModel { src: src@, dest: dest@, file_count: file_count as nat }),
    {
        CopyRequest { src, dest, file_count }
    }
}

/// The ordered sequence of requests still awaiting a decision.
pub struct PendingQueue {
    requests: Vec<CopyRequest>,
}

impl View for PendingQueue {
    type V = Seq<RequestModel>;

    closed spec fn view(&self) -> Seq<RequestModel> {
        self.requests@.map_values(|r: CopyRequest| r@)
    }
}

impl PendingQueue {
    /// An empty queue.
    pub fn new() -> (q: PendingQueue)
        ensures
            q@ == Seq::<RequestModel>::empty(),
    {
        let q = PendingQueue { requests: Vec::new() };
        proof {
            assert(q@ =~= Seq::<RequestModel>::empty());
        }
        q
    }

    pub fn len(&self) -> (n: usize)
        ensures
            n == self@.len(),
    {
        self.requests.len()
    }

    pub fn is_empty(&self) -> (b: bool)
        ensures
            b == (self@.len() == 0),
    {
        self.requests.len() == 0
    }

    /// Appends a request at the back.
    pub fn push(&mut self, r: CopyRequest)
        ensures
            final(self)@ == old(self)@.push(r@),
    {
        let ghost pre = self@;
        self.requests.push(r);
        proof {
            assert(self@ =~= pre.push(r@));
        }
    }

    /// Reads the request at position `i`.
    pub fn get(&self, i: usize) -> (r: &CopyRequest)
        requires
            i < self@.len(),
        ensures
            r@ == self@[i as int],
    {
        &self.requests[i]
    }

    /// Removes and returns the request at position `i`; the rest keep
    /// their order.
    pub fn remove(&mut self, i: usize) -> (r: CopyRequest)
        requires
            i < old(self)@.len(),
        ensures
            r@ == old(self)@[i as int],
            final(self)@ == old(self)@.remove(i as int),
    {
        let ghost pre = self@;
        let r = self.requests.remove(i);
        proof {
            assert(self@ =~= pre.remove(i as int));
        }
        r
    }

    /// The consumer's selection, brought back in range: an index that ran
    /// past the end falls back to the first entry.
    pub fn normalized_selection(&self, sel: usize) -> (r: usize)
        ensures
            sel < self@.len() ==> r == sel,
            sel >= self@.len() ==> r == 0,
    {
        if sel >= self.requests.len() {
            0
        } else {
            sel
        }
    }
}

} // verus!
