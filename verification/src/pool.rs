use vstd::prelude::*;

verus! {

#[verifier::external_type_specification]
#[verifier::external_body]
pub struct ExThreadPool(threadpool::ThreadPool);

/// Calls `threadpool::ThreadPool::queued_count`. Nothing is claimed of the count: the
/// workers take jobs off the queue while the caller looks.
#[verifier::external_body]
fn queued_count(pool: &threadpool::ThreadPool) -> (r: usize) {
    pool.queued_count()
}

/// Calls `threadpool::ThreadPool::max_count`. Nothing is claimed of the count: the pool
/// can be shared, and another holder can change it.
#[verifier::external_body]
fn max_count(pool: &threadpool::ThreadPool) -> (r: usize) {
    pool.max_count()
}

/// Calls `threadpool::ThreadPool::set_num_threads`, which asserts that the count is at
/// least one; the contract asks for that and claims nothing else.
#[verifier::external_body]
fn set_num_threads(pool: &mut threadpool::ThreadPool, num_threads: usize)
    requires
        num_threads >= 1,
{
    pool.set_num_threads(num_threads)
}

/// Calls `threadpool::ThreadPool::execute`, which queues the job for a worker.
#[verifier::external_body]
fn execute<F: FnOnce() + Send + 'static>(pool: &threadpool::ThreadPool, job: F) {
    pool.execute(job)
}

/// The worker count that a pool should grow to before it takes a job, given how many
/// jobs are waiting and how many workers it may run: one more worker as soon as any job
/// waits, so that long-running jobs never starve the new one. A pool at the largest
/// count that `usize` holds cannot grow.
pub open spec fn grown_count_spec(queued: usize, max: usize) -> Option<usize> {
    if queued > 0 && max < usize::MAX {
        Some((max + 1) as usize)
    } else {
        None
    }
}

/// The worker count to grow to, if the pool should grow.
pub fn grown_count(queued: usize, max: usize) -> (r: Option<usize>)
    ensures
        r == grown_count_spec(queued, max),
        r matches Some(n) ==> n == max + 1 && queued > 0,
        r is None ==> queued == 0 || max == usize::MAX,
{
    if queued > 0 && max < usize::MAX {
        Some(max + 1)
    } else {
        None
    }
}

/// The worker count of a pool that starts with `start` workers and is grown only by
/// `grown_count`, after submissions that each found `queued[i]` jobs waiting.
pub open spec fn count_after(start: usize, queued: Seq<usize>) -> usize
    decreases queued.len(),
{
    if queued.len() == 0 {
        start
    } else {
        let before = count_after(start, queued.drop_last());
        match grown_count_spec(queued.last(), before) {
            Some(n) => n,
            None => before,
        }
    }
}

/// Growing by `grown_count` never lowers the worker count: after any run of submissions,
/// and after each prefix of it, the count is at least the one the pool started with, and
/// it never falls from one submission to the next.
pub proof fn lemma_count_never_shrinks(start: usize, queued: Seq<usize>)
    ensures
        count_after(start, queued) >= start,
        forall|i: int, j: int|
            0 <= i <= j <= queued.len() ==> #[trigger] count_after(start, queued.take(i))
                <= #[trigger] count_after(start, queued.take(j)),
    decreases queued.len(),
{
    if queued.len() > 0 {
        let rest = queued.drop_last();
        lemma_count_never_shrinks(start, rest);
        assert forall|i: int, j: int| 0 <= i <= j <= queued.len() implies #[trigger] count_after(
            start,
            queued.take(i),
        ) <= #[trigger] count_after(start, queued.take(j)) by {
            if j == queued.len() {
                assert(queued.take(j) =~= queued);
                if i < queued.len() {
                    assert(queued.take(i) =~= rest.take(i));
                    assert(rest.take(rest.len() as int) =~= rest);
                }
            } else {
                assert(queued.take(i) =~= rest.take(i));
                assert(queued.take(j) =~= rest.take(j));
            }
        }
    }
}

/// Queues `job` on a pool that grows: when jobs are already waiting, the pool first gets
/// one more worker. Nothing is stated of the pool afterwards: its counts live behind a
/// handle that every clone of the pool shares, and its workers change them as they run.
pub fn submit<F: FnOnce() + Send + 'static>(pool: &mut threadpool::ThreadPool, job: F) {
    let queued = queued_count(pool);
    let max = max_count(pool);
    match grown_count(queued, max) {
        Some(n) => set_num_threads(pool, n),
        None => {},
    }
    execute(pool, job);
}

} // verus!
