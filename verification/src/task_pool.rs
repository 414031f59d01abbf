use vstd::prelude::*;

verus! {

/// A task that can be executed on a task pool.
pub trait Task {
    /// The result type of the task.
    type Output;

    /// Executes the task and returns its output.
    fn execute(self) -> Self::Output;
}

/// The largest number of tasks that [`NoThreads::fetch_outputs`] executes per call.
pub const BUDGET: usize = 5;

/// The number of worker threads that the task pool uses, given the parallelism available on the
/// machine (`None` when it is unknown).
///
/// No threads are used when there is no or little parallelism; otherwise half of the available
/// threads, and at least two.
pub fn num_threads(available: Option<usize>) -> (r: usize)
    ensures
        match available {
            Some(num) => if num <= 2 { r == 0 } else if num / 2 >= 2 { r == num / 2 } else { r == 2 },
            None => r == 0,
        },
{
    match available {
        Some(num) => {
            if num <= 2 {
                0
            } else {
                let half = num / 2;
                if half >= 2 { half } else { 2 }
            }
        },
        None => 0,
    }
}

/// How workers are woken up after a batch of tasks is submitted.
#[derive(Debug, Clone, Copy, PartialEq, Eq, Structural)]
pub enum Wakeup {
    /// Every worker is woken up.
    All,
    /// This many workers are woken up, one at a time.
    One(usize),
}

/// Decides how to wake up `workers` workers after `count` tasks were submitted: all of them when
/// there are more tasks than workers, one per task otherwise.
pub fn wakeup_for_batch(count: usize, workers: usize) -> (r: Wakeup)
    ensures
        count > workers ==> r == Wakeup::All,
        count <= workers ==> r == Wakeup::One(count),
{
    if count > workers {
        Wakeup::All
    } else {
        Wakeup::One(count)
    }
}

/// Moves the last `min(count, tasks.len())` tasks of `tasks`, in order, to the end of `output`.
pub fn take_last_tasks<T>(tasks: &mut Vec<T>, output: &mut Vec<T>, count: usize)
    ensures
        ({
            let n = old(tasks)@.len();
            let to_take = if count < n { count as int } else { n as int };
            &&& final(tasks)@ == old(tasks)@.subrange(0, n - to_take)
            &&& final(output)@ == old(output)@ + old(tasks)@.subrange(n - to_take, n as int)
        }),
{
    let to_take = if count < tasks.len() { count } else { tasks.len() };
    let at = tasks.len() - to_take;
    let mut moved = split_tasks(tasks, at);
    output.append(&mut moved);
}

/// Splits `tasks` at `at`, returning the tail.
fn split_tasks<T>(tasks: &mut Vec<T>, at: usize) -> (r: Vec<T>)
    requires
        at <= old(tasks)@.len(),
    ensures
        final(tasks)@ == old(tasks)@.subrange(0, at as int),
        r@ == old(tasks)@.subrange(at as int, old(tasks)@.len() as int),
{
    let mut tail: Vec<T> = Vec::new();
    while tasks.len() > at
        invariant
            at <= tasks@.len() <= old(tasks)@.len(),
            tasks@ == old(tasks)@.subrange(0, tasks@.len() as int),
            tail@ == old(tasks)@.subrange(tasks@.len() as int, old(tasks)@.len() as int),
        decreases tasks@.len(),
    {
        let t = tasks.pop().unwrap();
        tail.insert(0, t);
        assert(tail@ =~= old(tasks)@.subrange(tasks@.len() as int, old(tasks)@.len() as int));
    }
    tail
}

/// The tasks of `s` for which `keep` holds `true`, in order.
pub open spec fn kept<T>(s: Seq<T>, keep: Seq<bool>) -> Seq<T>
    decreases s.len(),
{
    if s.len() == 0 {
        seq![]
    } else if keep[s.len() - 1] {
        kept(s.drop_last(), keep.take(s.len() - 1)).push(s.last())
    } else {
        kept(s.drop_last(), keep.take(s.len() - 1))
    }
}

/// An implementation of the task pool that does not use threads at all: tasks wait in a list
/// and a budget of them is executed on each request.
pub struct NoThreads<T> {
    /// The list of pending tasks.
    pending: Vec<T>,
}

impl<T> NoThreads<T> {
    /// The tasks waiting to be executed.
    pub closed spec fn pending_view(&self) -> Seq<T> {
        self.pending@
    }

    /// Creates a new [`NoThreads`] instance with no pending task.
    pub fn new() -> (r: NoThreads<T>)
        ensures
            r.pending_view() == Seq::<T>::empty(),
    {
        NoThreads { pending: Vec::new() }
    }

    /// Submits the provided tasks to the task pool, leaving `tasks` empty.
    pub fn submit_batch(&mut self, tasks: &mut Vec<T>)
        ensures
            final(self).pending_view() == old(self).pending_view() + old(tasks)@,
            final(tasks)@ == Seq::<T>::empty(),
    {
        self.pending.append(tasks);
    }

    /// Returns the number of pending tasks.
    pub fn pending_tasks(&self) -> (r: usize)
        ensures
            r == self.pending_view().len(),
    {
        self.pending.len()
    }

    /// Executes at most [`BUDGET`] tasks, the last submitted first, and returns their outputs.
    pub fn fetch_outputs(&mut self) -> (r: Vec<T::Output>)
        where
            T: Task,
        ensures
            ({
                let n = old(self).pending_view().len();
                let done = if n < BUDGET { n as int } else { BUDGET as int };
                &&& r@.len() == done
                &&& final(self).pending_view() == old(self).pending_view().subrange(0, n - done)
                &&& forall|i: int| 0 <= i < done ==> call_ensures(
                    T::execute,
                    (old(self).pending_view()[n - 1 - i],),
                    #[trigger] r@[i],
                )
            }),
    {
        let mut result: Vec<T::Output> = Vec::new();
        let count = if BUDGET < self.pending.len() { BUDGET } else { self.pending.len() };
        let mut i: usize = 0;
        while i < count
            invariant
                0 <= i <= count,
                count <= old(self).pending_view().len(),
                count <= BUDGET,
                result@.len() == i,
                self.pending@ == old(self).pending_view().subrange(0, old(self).pending_view().len() - i),
                forall|j: int| 0 <= j < i ==> call_ensures(
                    T::execute,
                    (old(self).pending_view()[old(self).pending_view().len() - 1 - j],),
                    #[trigger] result@[j],
                ),
            decreases count - i,
        {
            let task = self.pending.pop().unwrap();
            let output = task.execute();
            result.push(output);
            i = i + 1;
        }
        result
    }

    /// Retains only the tasks for which `f` returns `true`, in order.
    pub fn retain_tasks<F: Fn(&T) -> bool>(&mut self, f: F)
        requires
            forall|t: &T| #[trigger] f.requires((t,)),
        ensures
            exists|keep: Seq<bool>| {
                &&& keep.len() == old(self).pending_view().len()
                &&& forall|i: int| 0 <= i < keep.len() ==> #[trigger] f.ensures((&old(self).pending_view()[i],), keep[i])
                &&& final(self).pending_view() == kept(old(self).pending_view(), keep)
            },
    {
        let mut all: Vec<T> = Vec::new();
        std::mem::swap(&mut all, &mut self.pending);
        let ghost orig = all@;
        let ghost n = orig.len() as int;
        // Reverse the tasks, so that popping yields them in order.
        let mut rev: Vec<T> = Vec::new();
        while all.len() > 0
            invariant
                n == orig.len(),
                all@ == orig.subrange(0, all@.len() as int),
                rev@.len() + all@.len() == n,
                forall|j: int| 0 <= j < rev@.len() ==> #[trigger] rev@[j] == orig[n - 1 - j],
            decreases all@.len(),
        {
            let t = all.pop().unwrap();
            rev.push(t);
            assert(all@ =~= orig.subrange(0, all@.len() as int));
        }
        let mut out: Vec<T> = Vec::new();
        let ghost mut keep: Seq<bool> = seq![];
        assert(orig.take(0) =~= Seq::<T>::empty());
        while rev.len() > 0
            invariant
                n == orig.len(),
                0 <= rev@.len() <= n,
                forall|j: int| 0 <= j < rev@.len() ==> #[trigger] rev@[j] == orig[n - 1 - j],
                keep.len() == n - rev@.len(),
                forall|k: int| 0 <= k < keep.len() ==> #[trigger] f.ensures((&orig[k],), keep[k]),
                out@ == kept(orig.take(keep.len() as int), keep),
                forall|t: &T| #[trigger] f.requires((t,)),
            decreases rev@.len(),
        {
            let ghost i = keep.len() as int;
            let t = rev.pop().unwrap();
            assert(t == orig[i]);
            let b = f(&t);
            proof {
                let old_keep = keep;
                keep = keep.push(b);
                assert(orig.take(i + 1).drop_last() =~= orig.take(i));
                assert(keep.take(i) =~= old_keep);
            }
            if b {
                out.push(t);
            }
        }
        assert(orig.take(n) =~= orig);
        self.pending = out;
    }
}

} // verus!
