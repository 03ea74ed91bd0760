//! The job queue that feeds a fixed set of workers.
//!
//! Jobs and termination requests travel through one FIFO queue. Shutdown
//! appends one termination request per worker, so every job submitted before
//! it is dequeued before any worker stops, and no job is accepted after it.
//! A [`Dispatcher`] adds the state of each worker, so that how many jobs run
//! at once, and how many have finished, is known and proved.

use vstd::prelude::*;
use std::collections::VecDeque;

verus! {

/// An entry of the queue.
pub enum Message<J> {
    /// A job for the next free worker.
    NewJob(J),
    /// Tells the worker that takes it to stop.
    Terminate,
}

/// Whether every entry is a job.
pub open spec fn all_jobs<J>(s: Seq<Message<J>>) -> bool {
    forall|i: int| 0 <= i < s.len() ==> #[trigger] s[i] is NewJob
}

/// `n` termination requests.
pub open spec fn terminations<J>(n: nat) -> Seq<Message<J>> {
    Seq::new(n, |i: int| Message::Terminate)
}

/// The number of termination requests among the entries.
pub open spec fn count_terminations<J>(s: Seq<Message<J>>) -> nat
    decreases s.len(),
{
    if s.len() == 0 {
        0
    } else {
        count_terminations(s.drop_last()) + if s.last() is Terminate {
            1nat
        } else {
            0nat
        }
    }
}

/// The entries that a sequence of jobs becomes once submitted.
pub open spec fn as_messages<J>(jobs: Seq<J>) -> Seq<Message<J>> {
    jobs.map_values(|j: J| Message::NewJob(j))
}

/// The entries after submitting `jobs` one by one to an open queue holding `s`.
pub open spec fn after_submits<J>(s: Seq<Message<J>>, jobs: Seq<J>) -> Seq<Message<J>>
    decreases jobs.len(),
{
    if jobs.len() == 0 {
        s
    } else {
        after_submits(s, jobs.drop_last()).push(Message::NewJob(jobs.last()))
    }
}

/// Jobs submitted one by one to an open queue stand behind what was waiting,
/// each exactly once and in the order of submission, so that the workers,
/// taking entries from the front, dequeue every one of them exactly once.
pub proof fn law_each_job_queued_once<J>(s: Seq<Message<J>>, jobs: Seq<J>)
    ensures
        after_submits(s, jobs) == s + as_messages(jobs),
        after_submits(s, jobs).len() == s.len() + jobs.len(),
        forall|k: int|
            0 <= k < jobs.len() ==> #[trigger] after_submits(s, jobs)[s.len() + k] == Message::NewJob(
                jobs[k],
            ),
    decreases jobs.len(),
{
    if jobs.len() > 0 {
        law_each_job_queued_once(s, jobs.drop_last());
        assert(s + as_messages(jobs) =~= (s + as_messages(jobs.drop_last())).push(
            Message::NewJob(jobs.last()),
        ));
    } else {
        assert(s + as_messages(jobs) =~= s);
    }
}

/// Among the first `k` entries of `s` followed by `n` termination requests,
/// where `s` holds jobs only, the termination requests are those past `s`.
proof fn lemma_count_prefix<J>(s: Seq<Message<J>>, n: nat, k: int)
    requires
        all_jobs(s),
        0 <= k <= s.len() + n,
    ensures
        count_terminations((s + terminations::<J>(n)).take(k)) == if k <= s.len() {
            0
        } else {
            k - s.len()
        },
    decreases k,
{
    let e = s + terminations::<J>(n);
    if k > 0 {
        lemma_count_prefix(s, n, k - 1);
        assert(e.take(k).drop_last() =~= e.take(k - 1));
        assert(e.take(k).last() == e[k - 1]);
        if k - 1 < s.len() {
            assert(e[k - 1] == s[k - 1]);
        }
    }
}

/// Shutdown drains the queue: once the termination requests of all `n`
/// workers have been dequeued (each worker stops at the first one it takes),
/// every entry has been dequeued, so every job submitted before shutdown
/// began has been taken by a worker and run to completion.
pub proof fn law_shutdown_drains<J>(s: Seq<Message<J>>, n: nat, k: int)
    requires
        all_jobs(s),
        n >= 1,
        0 <= k <= s.len() + n,
        count_terminations((s + terminations::<J>(n)).take(k)) == n,
    ensures
        k == s.len() + n,
        (s + terminations::<J>(n)).take(k) == s + terminations::<J>(n),
{
    lemma_count_prefix(s, n, k);
    assert((s + terminations::<J>(n)).take(k) =~= s + terminations::<J>(n));
}

/// A FIFO queue of jobs for a fixed number of workers.
pub struct JobQueue<J> {
    entries: VecDeque<Message<J>>,
    workers: usize,
    closed: bool,
}

impl<J> JobQueue<J> {
    /// The entries, oldest first.
    pub closed spec fn pending(&self) -> Seq<Message<J>> {
        self.entries@
    }

    /// The number of workers the queue feeds.
    pub closed spec fn worker_count(&self) -> nat {
        self.workers as nat
    }

    /// Whether shutdown has begun.
    pub closed spec fn is_shut(&self) -> bool {
        self.closed
    }

    /// The queue's invariant: it feeds at least one worker, and until
    /// shutdown it holds jobs only.
    pub closed spec fn wf(&self) -> bool {
        &&& self.workers >= 1
        &&& !self.closed ==> all_jobs(self.entries@)
    }

    /// An empty, open queue for `workers` workers.
    pub fn new(workers: usize) -> (r: Self)
        requires
            workers >= 1,
        ensures
            r.wf(),
            r.pending() == Seq::<Message<J>>::empty(),
            r.worker_count() == workers,
            !r.is_shut(),
    {
        JobQueue { entries: VecDeque::new(), workers, closed: false }
    }

    /// The number of workers the queue feeds.
    pub fn workers(&self) -> (r: usize)
        ensures
            r == self.worker_count(),
    {
        self.workers
    }

    /// Whether shutdown has begun.
    pub fn shut_down(&self) -> (r: bool)
        ensures
            r == self.is_shut(),
    {
        self.closed
    }

    /// The number of entries waiting.
    pub fn len(&self) -> (r: usize)
        ensures
            r == self.pending().len(),
    {
        self.entries.len()
    }

    /// Enqueues a job; once shutdown has begun the job is refused and handed back.
    pub fn submit(&mut self, job: J) -> (r: Result<(), J>)
        requires
            old(self).wf(),
        ensures
            final(self).wf(),
            final(self).worker_count() == old(self).worker_count(),
            final(self).is_shut() == old(self).is_shut(),
            old(self).is_shut() ==> r == Err::<(), J>(job) && final(self).pending() == old(self).pending(),
            !old(self).is_shut() ==> r is Ok && final(self).pending() == old(self).pending().push(
                Message::NewJob(job),
            ),
    {
        if self.closed {
            return Err(job);
        }
        self.entries.push_back(Message::NewJob(job));
        assert(forall|i: int| 0 <= i < old(self).pending().len() ==> self.entries@[i] == old(self).pending()[i]);
        Ok(())
    }

    /// Begins shutdown: appends one termination request per worker behind the
    /// jobs already waiting, and refuses jobs from then on.
    pub fn shutdown(&mut self)
        requires
            old(self).wf(),
            !old(self).is_shut(),
        ensures
            final(self).wf(),
            final(self).is_shut(),
            final(self).worker_count() == old(self).worker_count(),
            final(self).pending() == old(self).pending() + terminations::<J>(old(self).worker_count()),
    {
        let mut k: usize = 0;
        while k < self.workers
            invariant
                k <= self.workers,
                self.workers == old(self).workers,
                self.entries@ == old(self).entries@ + terminations::<J>(k as nat),
            decreases self.workers - k,
        {
            self.entries.push_back(Message::Terminate);
            assert(terminations::<J>(k as nat).push(Message::Terminate) =~= terminations::<J>((k + 1) as nat));
            assert(old(self).entries@ + terminations::<J>((k + 1) as nat) =~= (old(self).entries@
                + terminations::<J>(k as nat)).push(Message::Terminate));
            k = k + 1;
        }
        self.closed = true;
    }

    /// Dequeues the oldest entry, if any.
    pub fn take(&mut self) -> (r: Option<Message<J>>)
        requires
            old(self).wf(),
        ensures
            final(self).wf(),
            final(self).is_shut() == old(self).is_shut(),
            final(self).worker_count() == old(self).worker_count(),
            old(self).pending().len() == 0 ==> r is None && final(self).pending() == old(self).pending(),
            old(self).pending().len() > 0 ==> r == Some(old(self).pending()[0])
                && final(self).pending() == old(self).pending().drop_first(),
    {
        let r = self.entries.pop_front();
        proof {
            if old(self).pending().len() > 0 {
                assert(self.entries@ =~= old(self).pending().drop_first());
                assert(forall|i: int| 0 <= i < self.entries@.len() ==> self.entries@[i] == old(self).pending()[i + 1]);
            }
        }
        r
    }
}

/// The number of set flags.
pub open spec fn count_set(s: Seq<bool>) -> nat
    decreases s.len(),
{
    if s.len() == 0 {
        0
    } else {
        count_set(s.drop_last()) + if s.last() {
            1nat
        } else {
            0nat
        }
    }
}

/// Setting one flag changes the count by what that flag was and becomes.
proof fn lemma_count_update(s: Seq<bool>, i: int, v: bool)
    requires
        0 <= i < s.len(),
    ensures
        count_set(s.update(i, v)) + (if s[i] { 1nat } else { 0nat }) == count_set(s) + (if v {
            1nat
        } else {
            0nat
        }),
    decreases s.len(),
{
    if i < s.len() - 1 {
        lemma_count_update(s.drop_last(), i, v);
        assert(s.update(i, v).drop_last() =~= s.drop_last().update(i, v));
    } else {
        assert(s.update(i, v).drop_last() =~= s.drop_last());
    }
}

/// Flags that are never both set count no more than the entries.
proof fn lemma_count_disjoint(a: Seq<bool>, b: Seq<bool>)
    requires
        a.len() == b.len(),
        forall|i: int| 0 <= i < a.len() ==> !(#[trigger] a[i] && b[i]),
    ensures
        count_set(a) + count_set(b) <= a.len(),
    decreases a.len(),
{
    if a.len() > 0 {
        assert forall|i: int| 0 <= i < a.drop_last().len() implies !(#[trigger] a.drop_last()[i]
            && b.drop_last()[i]) by {
            assert(a.drop_last()[i] == a[i] && b.drop_last()[i] == b[i]);
        }
        lemma_count_disjoint(a.drop_last(), b.drop_last());
        assert(!(a[a.len() - 1] && b[a.len() - 1]));
    }
}

/// No flag set.
pub open spec fn none_set(s: Seq<bool>) -> bool {
    forall|i: int| 0 <= i < s.len() ==> !#[trigger] s[i]
}

proof fn lemma_count_none(s: Seq<bool>)
    requires
        none_set(s),
    ensures
        count_set(s) == 0,
    decreases s.len(),
{
    if s.len() > 0 {
        assert forall|i: int| 0 <= i < s.drop_last().len() implies !#[trigger] s.drop_last()[i] by {
            assert(s.drop_last()[i] == s[i]);
        }
        lemma_count_none(s.drop_last());
    }
}

/// A job queue together with the state of each worker it feeds: whether the
/// worker is running a job, and whether it has stopped. Workers take entries
/// through it and report each job's end, so it knows how many jobs were
/// submitted, are running and have finished.
pub struct Dispatcher<J> {
    queue: JobQueue<J>,
    busy: Vec<bool>,
    stopped: Vec<bool>,
    submitted: Ghost<nat>,
    finished: Ghost<nat>,
}

impl<J> Dispatcher<J> {
    /// The queue's entries, oldest first.
    pub closed spec fn pending(&self) -> Seq<Message<J>> {
        self.queue.pending()
    }

    /// The number of workers.
    pub closed spec fn worker_count(&self) -> nat {
        self.queue.worker_count()
    }

    /// Whether shutdown has begun.
    pub closed spec fn is_shut(&self) -> bool {
        self.queue.is_shut()
    }

    /// Whether worker `w` is running a job.
    pub closed spec fn is_busy(&self, w: int) -> bool {
        self.busy@[w]
    }

    /// Whether worker `w` has stopped.
    pub closed spec fn is_stopped(&self, w: int) -> bool {
        self.stopped@[w]
    }

    /// The number of workers running a job.
    pub closed spec fn running(&self) -> nat {
        count_set(self.busy@)
    }

    /// The number of workers that have stopped.
    pub closed spec fn stopped_count(&self) -> nat {
        count_set(self.stopped@)
    }

    /// The number of jobs accepted so far.
    pub closed spec fn submitted(&self) -> nat {
        self.submitted@
    }

    /// The number of jobs run to completion so far.
    pub closed spec fn finished(&self) -> nat {
        self.finished@
    }

    /// The number of jobs in the queue: the entries in front of the
    /// termination requests not yet taken.
    pub closed spec fn waiting(&self) -> nat {
        if self.queue.is_shut() {
            (self.queue.pending().len() - (self.queue.worker_count() - count_set(self.stopped@))) as nat
        } else {
            self.queue.pending().len()
        }
    }

    /// The invariant: jobs wait in front of one termination request per
    /// worker still going, a worker never runs a job once stopped, and every
    /// accepted job is waiting, running or finished.
    pub closed spec fn wf(&self) -> bool {
        let n = self.queue.worker_count();
        let k = count_set(self.stopped@);
        let p = self.queue.pending();
        &&& self.queue.wf()
        &&& self.busy@.len() == n
        &&& self.stopped@.len() == n
        &&& forall|i: int| 0 <= i < n ==> !(#[trigger] self.busy@[i] && self.stopped@[i])
        &&& !self.queue.is_shut() ==> k == 0
        &&& self.queue.is_shut() ==> {
            &&& k <= n
            &&& p.len() >= n - k
            &&& forall|i: int| 0 <= i < p.len() ==> (#[trigger] p[i] is Terminate <==> i >= p.len() - (n - k))
            &&& k > 0 ==> p.len() == n - k
        }
        &&& self.submitted@ == self.finished@ + count_set(self.busy@) + self.waiting()
    }

    /// A dispatcher for `workers` idle workers, with an empty, open queue.
    pub fn new(workers: usize) -> (r: Self)
        requires
            workers >= 1,
        ensures
            r.wf(),
            r.worker_count() == workers,
            r.pending() == Seq::<Message<J>>::empty(),
            !r.is_shut(),
            r.running() == 0,
            r.stopped_count() == 0,
            r.submitted() == 0,
            r.finished() == 0,
            forall|w: int| 0 <= w < workers ==> !r.is_busy(w) && !r.is_stopped(w),
    {
        let mut busy: Vec<bool> = Vec::new();
        let mut i: usize = 0;
        while i < workers
            invariant
                i <= workers,
                busy@.len() == i,
                none_set(busy@),
            decreases workers - i,
        {
            busy.push(false);
            i = i + 1;
        }
        let stopped = busy.clone();
        proof {
            lemma_count_none(busy@);
            assert(stopped@ =~= busy@);
        }
        Dispatcher {
            queue: JobQueue::new(workers),
            busy,
            stopped,
            submitted: Ghost(0),
            finished: Ghost(0),
        }
    }

    /// The number of workers.
    pub fn workers(&self) -> (r: usize)
        ensures
            r == self.worker_count(),
    {
        self.queue.workers()
    }

    /// Whether shutdown has begun.
    pub fn shut_down(&self) -> (r: bool)
        ensures
            r == self.is_shut(),
    {
        self.queue.shut_down()
    }

    /// Whether worker `w` may take an entry: it runs no job and has not stopped.
    pub fn is_idle(&self, w: usize) -> (r: bool)
        requires
            self.wf(),
            w < self.worker_count(),
        ensures
            r == (!self.is_busy(w as int) && !self.is_stopped(w as int)),
    {
        !self.busy[w] && !self.stopped[w]
    }

    /// Whether worker `w` is running a job.
    pub fn is_running(&self, w: usize) -> (r: bool)
        requires
            self.wf(),
            w < self.worker_count(),
        ensures
            r == self.is_busy(w as int),
    {
        self.busy[w]
    }

    /// Enqueues a job; once shutdown has begun the job is refused and handed back.
    pub fn submit(&mut self, job: J) -> (r: Result<(), J>)
        requires
            old(self).wf(),
        ensures
            final(self).wf(),
            final(self).worker_count() == old(self).worker_count(),
            final(self).is_shut() == old(self).is_shut(),
            final(self).running() == old(self).running(),
            final(self).finished() == old(self).finished(),
            old(self).is_shut() ==> r == Err::<(), J>(job) && final(self).pending() == old(self).pending()
                && final(self).submitted() == old(self).submitted(),
            !old(self).is_shut() ==> r is Ok && final(self).pending() == old(self).pending().push(
                Message::NewJob(job),
            ) && final(self).submitted() == old(self).submitted() + 1,
    {
        let r = self.queue.submit(job);
        if r.is_ok() {
            self.submitted = Ghost(self.submitted@ + 1);
        }
        r
    }

    /// Begins shutdown: one termination request per worker goes behind the
    /// jobs already waiting, and jobs are refused from then on.
    pub fn shutdown(&mut self)
        requires
            old(self).wf(),
            !old(self).is_shut(),
        ensures
            final(self).wf(),
            final(self).is_shut(),
            final(self).worker_count() == old(self).worker_count(),
            final(self).pending() == old(self).pending() + terminations::<J>(old(self).worker_count()),
            final(self).submitted() == old(self).submitted(),
            final(self).finished() == old(self).finished(),
    {
        self.queue.shutdown();
        proof {
            let p = self.queue.pending();
            let n = self.queue.worker_count();
            assert forall|i: int| 0 <= i < p.len() implies (#[trigger] p[i] is Terminate <==> i >= p.len()
                - n) by {
                if i < old(self).pending().len() {
                    assert(p[i] == old(self).pending()[i]);
                }
            }
        }
    }

    /// Worker `w`, idle, takes the oldest entry: a job, which it is then
    /// running, or a termination request, after which it has stopped.
    pub fn take(&mut self, w: usize) -> (r: Option<Message<J>>)
        requires
            old(self).wf(),
            w < old(self).worker_count(),
            !old(self).is_busy(w as int),
            !old(self).is_stopped(w as int),
        ensures
            final(self).wf(),
            final(self).worker_count() == old(self).worker_count(),
            final(self).is_shut() == old(self).is_shut(),
            final(self).submitted() == old(self).submitted(),
            final(self).finished() == old(self).finished(),
            old(self).pending().len() == 0 ==> r is None && final(self).pending() == old(self).pending(),
            old(self).pending().len() > 0 ==> r == Some(old(self).pending()[0])
                && final(self).pending() == old(self).pending().drop_first(),
            r matches Some(Message::NewJob(_)) ==> final(self).is_busy(w as int),
            r matches Some(Message::Terminate) ==> final(self).is_stopped(w as int),
            forall|v: int| 0 <= v < old(self).worker_count() && v != w ==> final(self).is_busy(v)
                == old(self).is_busy(v) && final(self).is_stopped(v) == old(self).is_stopped(v),
    {
        let r = self.queue.take();
        let ghost n = self.queue.worker_count();
        let ghost p0 = old(self).queue.pending();
        match &r {
            Some(Message::NewJob(_)) => {
                proof {
                    lemma_count_update(self.busy@, w as int, true);
                    if old(self).queue.is_shut() {
                        assert(p0[0] is NewJob);
                    }
                }
                self.busy[w] = true;
                proof {
                    let p = self.queue.pending();
                    if self.queue.is_shut() {
                        assert forall|i: int| 0 <= i < p.len() implies (#[trigger] p[i] is Terminate <==> i
                            >= p.len() - (n - count_set(self.stopped@))) by {
                            assert(p[i] == p0[i + 1]);
                        }
                    }
                }
            },
            Some(Message::Terminate) => {
                proof {
                    lemma_count_update(self.stopped@, w as int, true);
                    lemma_count_disjoint(old(self).busy@, old(self).stopped@);
                }
                self.stopped[w] = true;
                proof {
                    let p = self.queue.pending();
                    assert forall|i: int| 0 <= i < p.len() implies (#[trigger] p[i] is Terminate <==> i
                        >= p.len() - (n - count_set(self.stopped@))) by {
                        assert(p[i] == p0[i + 1]);
                    }
                }
            },
            None => {},
        }
        r
    }

    /// Worker `w` reports that the job it was running has ended.
    pub fn finish(&mut self, w: usize)
        requires
            old(self).wf(),
            w < old(self).worker_count(),
            old(self).is_busy(w as int),
        ensures
            final(self).wf(),
            final(self).worker_count() == old(self).worker_count(),
            final(self).is_shut() == old(self).is_shut(),
            final(self).pending() == old(self).pending(),
            final(self).submitted() == old(self).submitted(),
            final(self).finished() == old(self).finished() + 1,
            final(self).running() + 1 == old(self).running(),
            !final(self).is_busy(w as int),
            final(self).is_stopped(w as int) == old(self).is_stopped(w as int),
            forall|v: int| 0 <= v < old(self).worker_count() && v != w ==> final(self).is_busy(v)
                == old(self).is_busy(v) && final(self).is_stopped(v) == old(self).is_stopped(v),
    {
        proof {
            lemma_count_update(self.busy@, w as int, false);
        }
        self.busy[w] = false;
        self.finished = Ghost(self.finished@ + 1);
    }

    /// No more jobs run at once than there are workers.
    pub proof fn law_at_most_workers_running(&self)
        requires
            self.wf(),
        ensures
            self.running() <= self.worker_count(),
    {
        lemma_count_disjoint(self.busy@, self.stopped@);
    }

    /// Once every worker has stopped, the queue is empty and every job
    /// accepted before shutdown has run to completion: as many jobs finished
    /// as were submitted.
    pub proof fn law_all_stopped_all_finished(&self)
        requires
            self.wf(),
            self.stopped_count() == self.worker_count(),
        ensures
            self.pending().len() == 0,
            self.running() == 0,
            self.finished() == self.submitted(),
    {
        lemma_count_disjoint(self.busy@, self.stopped@);
    }
}

} // verus!
