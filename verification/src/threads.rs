//! Which threads to freeze while code is patched, and the promise that
//! each of them is thawed again.
//!
//! Patching a function while another thread runs through it lets that
//! thread see half an instruction. So every other thread of the process is
//! suspended before the first patch and resumed after the last. The
//! suspender picks the threads from a snapshot and holds them until it is
//! released; suspending and resuming themselves are the caller's calls to
//! the operating system.

use vstd::prelude::*;

verus! {

/// One thread as a snapshot of the system lists it.
#[derive(Clone, Copy, Debug, PartialEq, Eq, Structural)]
pub struct ThreadEntry {
    /// The process the thread belongs to.
    pub owner_process_id: u32,
    /// The thread's id.
    pub thread_id: u32,
}

/// Whether a thread is to be frozen: it belongs to the process and is not
/// the thread that does the patching.
pub open spec fn is_other_thread(entry: ThreadEntry, process_id: u32, thread_id: u32) -> bool {
    entry.owner_process_id == process_id && entry.thread_id != thread_id
}

/// The ids of the threads to freeze among the first `n` of a snapshot, in
/// the snapshot's order.
pub open spec fn other_threads_among(
    entries: Seq<ThreadEntry>,
    n: int,
    process_id: u32,
    thread_id: u32,
) -> Seq<u32>
    decreases n,
{
    if n <= 0 {
        Seq::empty()
    } else if is_other_thread(entries[n - 1], process_id, thread_id) {
        other_threads_among(entries, n - 1, process_id, thread_id).push(entries[n - 1].thread_id)
    } else {
        other_threads_among(entries, n - 1, process_id, thread_id)
    }
}

/// The ids of the threads to freeze in a snapshot.
pub open spec fn other_threads(entries: Seq<ThreadEntry>, process_id: u32, thread_id: u32) -> Seq<u32> {
    other_threads_among(entries, entries.len() as int, process_id, thread_id)
}

/// Picks the threads to freeze from a snapshot: those of process
/// `process_id`, but for thread `thread_id`.
pub fn select_threads(entries: &[ThreadEntry], process_id: u32, thread_id: u32) -> (ids: Vec<u32>)
    ensures
        ids@ == other_threads(entries@, process_id, thread_id),
{
    let mut ids: Vec<u32> = Vec::new();
    let mut i: usize = 0;
    while i < entries.len()
        invariant
            i <= entries.len(),
            ids@ == other_threads_among(entries@, i as int, process_id, thread_id),
        decreases entries.len() - i,
    {
        let entry = entries[i];
        if entry.owner_process_id == process_id && entry.thread_id != thread_id {
            ids.push(entry.thread_id);
        }
        i = i + 1;
    }
    ids
}

/// The calling thread is never picked, and no thread of another process.
pub proof fn lemma_only_other_threads(entries: Seq<ThreadEntry>, n: int, process_id: u32, thread_id: u32)
    requires
        n <= entries.len(),
    ensures
        !other_threads_among(entries, n, process_id, thread_id).contains(thread_id),
        forall|id: u32| #[trigger]
            other_threads_among(entries, n, process_id, thread_id).contains(id) ==> exists|i: int|
                0 <= i < n && entries[i].thread_id == id && entries[i].owner_process_id
                    == process_id,
    decreases n,
{
    if n > 0 {
        lemma_only_other_threads(entries, n - 1, process_id, thread_id);
        let before = other_threads_among(entries, n - 1, process_id, thread_id);
        let now = other_threads_among(entries, n, process_id, thread_id);
        assert forall|id: u32| #[trigger] now.contains(id) implies exists|i: int|
            0 <= i < n && entries[i].thread_id == id && entries[i].owner_process_id
                == process_id by {
            let at = choose|at: int| 0 <= at < now.len() && now[at] == id;
            if at < before.len() {
                assert(before[at] == id);
                assert(before.contains(id));
            } else {
                assert(entries[n - 1].thread_id == id);
            }
        }
        if now.contains(thread_id) {
            let at = choose|at: int| 0 <= at < now.len() && now[at] == thread_id;
            if at < before.len() {
                assert(before[at] == thread_id);
                assert(before.contains(thread_id));
            }
        }
    }
}

/// Every thread of the process but the calling one is picked.
pub proof fn lemma_every_other_thread(
    entries: Seq<ThreadEntry>,
    n: int,
    process_id: u32,
    thread_id: u32,
    i: int,
)
    requires
        0 <= i < n <= entries.len(),
        is_other_thread(entries[i], process_id, thread_id),
    ensures
        other_threads_among(entries, n, process_id, thread_id).contains(entries[i].thread_id),
    decreases n,
{
    let now = other_threads_among(entries, n, process_id, thread_id);
    if i == n - 1 {
        assert(now[now.len() - 1] == entries[i].thread_id);
    } else {
        lemma_every_other_thread(entries, n - 1, process_id, thread_id, i);
        let before = other_threads_among(entries, n - 1, process_id, thread_id);
        let at = choose|at: int| 0 <= at < before.len() && before[at] == entries[i].thread_id;
        assert(now[at] == entries[i].thread_id);
    }
}

/// The threads frozen for the time of a patch.
///
/// Made from a snapshot, it holds the threads that are to be suspended at
/// once. `release` hands every one of them back to be resumed, once.
#[derive(Debug)]
pub struct ThreadSuspender {
    threads: Vec<u32>,
}

impl ThreadSuspender {
    /// The threads that are suspended and have not been handed back.
    pub closed spec fn held(&self) -> Seq<u32> {
        self.threads@
    }

    /// Picks every thread of the process but the calling one, to be
    /// suspended.
    pub fn new(entries: &[ThreadEntry], process_id: u32, thread_id: u32) -> (suspender: ThreadSuspender)
        ensures
            suspender.held() == other_threads(entries@, process_id, thread_id),
    {
        ThreadSuspender { threads: select_threads(entries, process_id, thread_id) }
    }

    /// The threads held, in the order in which they are suspended.
    pub fn threads(&self) -> (ids: &Vec<u32>)
        ensures
            ids@ == self.held(),
    {
        &self.threads
    }

    /// Hands back every thread held, to be resumed, and holds none
    /// afterwards: a second release hands back nothing.
    pub fn release(&mut self) -> (ids: Vec<u32>)
        ensures
            ids@ == old(self).held(),
            final(self).held() == Seq::<u32>::empty(),
    {
        let mut ids: Vec<u32> = Vec::new();
        std::mem::swap(&mut ids, &mut self.threads);
        ids
    }
}

/// As many threads are resumed as were suspended, the same ones in the
/// same order, whatever happened in between, and none is resumed twice:
/// what a release hands back, and what a second release adds to it, is
/// what the suspender held.
pub proof fn lemma_suspend_resume_symmetry(
    suspender: &ThreadSuspender,
    released: &ThreadSuspender,
    resumed: Seq<u32>,
    again: Seq<u32>,
)
    requires
        resumed == suspender.held(),
        released.held() == Seq::<u32>::empty(),
        again == released.held(),
    ensures
        resumed.len() == suspender.held().len(),
        resumed + again == suspender.held(),
{
}

/// The threads of the process, for suspending and resuming by hand.
#[derive(Debug)]
pub struct ThreadGroup {
    threads: Vec<u32>,
}

impl ThreadGroup {
    /// The threads of the group.
    pub closed spec fn members(&self) -> Seq<u32> {
        self.threads@
    }

    /// Every thread of the process but the calling one.
    pub fn new(entries: &[ThreadEntry], process_id: u32, thread_id: u32) -> (group: ThreadGroup)
        ensures
            group.members() == other_threads(entries@, process_id, thread_id),
    {
        ThreadGroup { threads: select_threads(entries, process_id, thread_id) }
    }

    /// The threads to suspend: all of the group.
    pub fn suspend(&self) -> (ids: &Vec<u32>)
        ensures
            ids@ == self.members(),
    {
        &self.threads
    }

    /// The threads to resume: all of the group.
    pub fn resume(&self) -> (ids: &Vec<u32>)
        ensures
            ids@ == self.members(),
    {
        &self.threads
    }

    /// Empties the group and gives the threads whose handles are to be
    /// closed.
    pub fn release(&mut self) -> (ids: Vec<u32>)
        ensures
            ids@ == old(self).members(),
            final(self).members() == Seq::<u32>::empty(),
    {
        let mut ids: Vec<u32> = Vec::new();
        std::mem::swap(&mut ids, &mut self.threads);
        ids
    }
}

} // verus!
