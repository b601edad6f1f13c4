//! The threads of a process, as selected from a thread snapshot.

use vstd::prelude::*;

verus! {

/// One entry of a system thread snapshot.
#[derive(Debug, Clone, Copy)]
pub struct ThreadEntry {
    pub owner_process_id: u32,
    pub thread_id: u32,
}

/// The ids of the threads in `snapshot` that belong to process `pid`, in
/// snapshot order.
pub open spec fn owned_threads(snapshot: Seq<ThreadEntry>, pid: u32) -> Seq<u32>
    decreases snapshot.len(),
{
    if snapshot.len() == 0 {
        Seq::empty()
    } else {
        let rest = owned_threads(snapshot.drop_last(), pid);
        if snapshot.last().owner_process_id == pid {
            rest.push(snapshot.last().thread_id)
        } else {
            rest
        }
    }
}

/// The threads of one process, identified by the process id.
#[derive(Debug, Clone)]
pub struct ProcessThreads {
    process_id: u32,
}

impl ProcessThreads {
    pub closed spec fn pid(&self) -> u32 {
        self.process_id
    }

    /// The threads of process `process_id`.
    pub fn new(process_id: u32) -> (r: Self)
        ensures
            r.pid() == process_id,
    {
        ProcessThreads { process_id }
    }

    /// The process id.
    pub fn process_id(&self) -> (r: u32)
        ensures
            r == self.pid(),
    {
        self.process_id
    }

    /// The threads to suspend or resume: those of `snapshot` owned by this
    /// process, in snapshot order.
    pub fn threads_in(&self, snapshot: &Vec<ThreadEntry>) -> (r: Vec<u32>)
        ensures
            r@ == owned_threads(snapshot@, self.pid()),
    {
        let mut r: Vec<u32> = Vec::new();
        let mut i: usize = 0;
        while i < snapshot.len()
            invariant
                i <= snapshot@.len(),
                r@ == owned_threads(snapshot@.take(i as int), self.pid()),
            decreases snapshot.len() - i,
        {
            assert(snapshot@.take(i + 1).drop_last() =~= snapshot@.take(i as int));
            if snapshot[i].owner_process_id == self.process_id {
                r.push(snapshot[i].thread_id);
            }
            i = i + 1;
        }
        assert(snapshot@.take(snapshot@.len() as int) =~= snapshot@);
        r
    }
}

} // verus!
