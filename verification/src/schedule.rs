//! The run-queue discipline: strict round robin, with an optional policy
//! that cancels a task at every fixed number of resumes.

use vstd::prelude::*;
use crate::state::State;

verus! {

/// Whether the resume with the number `resumes`, counted from one, is one at
/// which a task that yields is cancelled: with a period of zero none is,
/// else every one that the period divides.
pub open spec fn spec_due(resumes: nat, period: nat) -> bool {
    period > 0 && resumes % period == 0
}

/// What the scheduler does with the task that it has just resumed.
#[derive(Clone, Copy, Debug, PartialEq, Eq, Structural)]
pub enum Verdict {
    /// The task yielded: it goes to the back of the queue.
    Requeue,
    /// The task yielded at a resume that is due: it is cancelled.
    Cancel,
    /// The task is finished: it is dropped.
    Drop,
}

/// The verdict on a task that gave control back with `status` at the resume
/// with the number `resumes`.
pub open spec fn spec_verdict(status: State, resumes: nat, period: nat) -> Verdict {
    match status {
        State::Ready => Verdict::Drop,
        State::Pending => if spec_due(resumes, period) {
            Verdict::Cancel
        } else {
            Verdict::Requeue
        },
    }
}

/// The queue after the verdict on `head`, which was taken from its front
/// before: only a task that is requeued comes back, at the back.
pub open spec fn spec_settled<T>(rest: Seq<T>, head: T, verdict: Verdict) -> Seq<T> {
    match verdict {
        Verdict::Requeue => rest.push(head),
        Verdict::Cancel => rest,
        Verdict::Drop => rest,
    }
}

/// A task as the scheduler sees it: its ordinal and the number of times it
/// will still yield before it is finished.
pub struct Job {
    pub id: usize,
    pub yields: nat,
}

/// The status with which a job gives control back when it is resumed.
pub open spec fn spec_status(job: Job) -> State {
    if job.yields > 0 {
        State::Pending
    } else {
        State::Ready
    }
}

/// A job after it has yielded once more.
pub open spec fn spec_yielded(job: Job) -> Job {
    Job { id: job.id, yields: (job.yields - 1) as nat }
}

/// The queue after its front job was resumed, as resume number `resumes`,
/// and the scheduler has settled it.
pub open spec fn spec_step(queue: Seq<Job>, resumes: nat, period: nat) -> Seq<Job> {
    spec_settled(
        queue.skip(1),
        spec_yielded(queue[0]),
        spec_verdict(spec_status(queue[0]), resumes, period),
    )
}

/// The queue after at most `steps` resumes, the first of which has the
/// number `resumes + 1`: the run stops before that where the queue is empty.
pub open spec fn spec_remaining(queue: Seq<Job>, resumes: nat, period: nat, steps: nat) -> Seq<Job>
    decreases steps,
{
    if steps == 0 || queue.len() == 0 {
        queue
    } else {
        spec_remaining(
            spec_step(queue, resumes + 1, period),
            resumes + 1,
            period,
            (steps - 1) as nat,
        )
    }
}

/// The ordinals of the jobs that are resumed in at most `steps` resumes, in
/// the order in which they are resumed.
pub open spec fn spec_trace(queue: Seq<Job>, resumes: nat, period: nat, steps: nat) -> Seq<usize>
    decreases steps,
{
    if steps == 0 || queue.len() == 0 {
        Seq::empty()
    } else {
        seq![queue[0].id] + spec_trace(
            spec_step(queue, resumes + 1, period),
            resumes + 1,
            period,
            (steps - 1) as nat,
        )
    }
}

/// The number of resumes that a queue asks for where no job is cancelled:
/// one for each yield and one more for each job.
pub open spec fn spec_work(queue: Seq<Job>) -> nat
    decreases queue.len(),
{
    if queue.len() == 0 {
        0
    } else {
        queue[0].yields + 1 + spec_work(queue.skip(1))
    }
}

/// `n` times the ordinal `id`.
pub open spec fn spec_repeat(id: usize, n: nat) -> Seq<usize> {
    Seq::new(n, |i: int| id)
}

/// `n` times the two ordinals `a` and `b`, in turn.
pub open spec fn spec_alternate(a: usize, b: usize, n: nat) -> Seq<usize> {
    Seq::new(
        2 * n,
        |i: int|
            if i % 2 == 0 {
                a
            } else {
                b
            },
    )
}

/// A job that joins the back of a queue adds its own resumes to the work.
pub proof fn lemma_work_push(queue: Seq<Job>, job: Job)
    ensures
        spec_work(queue.push(job)) == spec_work(queue) + job.yields + 1,
    decreases queue.len(),
{
    if queue.len() == 0 {
        assert(queue.push(job).skip(1) =~= Seq::<Job>::empty());
        assert(spec_work(queue.push(job).skip(1)) == 0);
    } else {
        assert(queue.push(job).skip(1) =~= queue.skip(1).push(job));
        lemma_work_push(queue.skip(1), job);
    }
}

/// Every resume takes at least one resume off the work that is left.
pub proof fn lemma_step_decreases(queue: Seq<Job>, resumes: nat, period: nat)
    requires
        queue.len() > 0,
    ensures
        spec_work(spec_step(queue, resumes, period)) < spec_work(queue),
{
    lemma_work_push(queue.skip(1), spec_yielded(queue[0]));
}

/// A run ends: whatever the jobs and the cancellation period are, the queue
/// is empty after as many resumes as the work of the queue, and it stays
/// empty.
pub proof fn lemma_run_terminates(queue: Seq<Job>, resumes: nat, period: nat, steps: nat)
    requires
        steps >= spec_work(queue),
    ensures
        spec_remaining(queue, resumes, period, steps).len() == 0,
    decreases steps,
{
    if queue.len() > 0 {
        lemma_step_decreases(queue, resumes + 1, period);
        lemma_run_terminates(
            spec_step(queue, resumes + 1, period),
            resumes + 1,
            period,
            (steps - 1) as nat,
        );
    }
}

/// Where no job is cancelled a run takes exactly as many resumes as the
/// work of the queue: one for each yield and one more for each job.
pub proof fn lemma_run_length(queue: Seq<Job>, resumes: nat, steps: nat)
    requires
        steps >= spec_work(queue),
    ensures
        spec_trace(queue, resumes, 0, steps).len() == spec_work(queue),
    decreases steps,
{
    if queue.len() > 0 {
        lemma_work_push(queue.skip(1), spec_yielded(queue[0]));
        lemma_run_length(spec_step(queue, resumes + 1, 0), resumes + 1, (steps - 1) as nat);
    }
}

/// A job that is alone in the queue is resumed once for each of its yields
/// and once more, with nothing in between.
pub proof fn lemma_solo(job: Job, resumes: nat, steps: nat)
    requires
        steps >= job.yields + 1,
    ensures
        spec_trace(seq![job], resumes, 0, steps) =~= spec_repeat(job.id, job.yields + 1),
    decreases job.yields,
{
    let queue = seq![job];
    let next = spec_step(queue, resumes + 1, 0);
    assert(queue.skip(1) =~= Seq::<Job>::empty());
    if job.yields == 0 {
        assert(next =~= Seq::<Job>::empty());
        assert(spec_trace(next, resumes + 1, 0, (steps - 1) as nat) =~= Seq::<usize>::empty());
    } else {
        assert(next =~= seq![spec_yielded(job)]);
        lemma_solo(spec_yielded(job), resumes + 1, (steps - 1) as nat);
    }
}

/// Round robin is fair. Of two jobs of which the first yields `a` times and
/// the second `b` times, with `a` no more than `b`, and where none is
/// cancelled: the two are resumed in turn, the first one first, `a + 1`
/// times each, and then the second one runs its other `b - a` turns alone.
pub proof fn lemma_round_robin(first: Job, second: Job, resumes: nat, steps: nat)
    requires
        first.yields <= second.yields,
        steps >= first.yields + second.yields + 2,
    ensures
        spec_trace(seq![first, second], resumes, 0, steps) =~= spec_alternate(
            first.id,
            second.id,
            first.yields + 1,
        ) + spec_repeat(second.id, (second.yields - first.yields) as nat),
    decreases first.yields,
{
    let queue = seq![first, second];
    assert(queue.skip(1) =~= seq![second]);
    let next = spec_step(queue, resumes + 1, 0);
    if first.yields == 0 {
        assert(next =~= seq![second]);
        lemma_solo(second, resumes + 1, (steps - 1) as nat);
    } else {
        assert(next =~= seq![second, spec_yielded(first)]);
        assert(next.skip(1) =~= seq![spec_yielded(first)]);
        let after = spec_step(next, resumes + 2, 0);
        assert(after =~= seq![spec_yielded(first), spec_yielded(second)]);
        lemma_round_robin(
            spec_yielded(first),
            spec_yielded(second),
            resumes + 2,
            (steps - 2) as nat,
        );
        assert(spec_trace(next, resumes + 1, 0, (steps - 1) as nat) =~= seq![second.id]
            + spec_trace(after, resumes + 2, 0, (steps - 2) as nat));
    }
}

/// Whether some job of the queue has the ordinal `id`.
pub open spec fn spec_queued_id(queue: Seq<Job>, id: usize) -> bool {
    exists|i: int| 0 <= i < queue.len() && #[trigger] queue[i].id == id
}

/// Only queued tasks are resumed: an ordinal that no job of the queue has
/// does not occur among the resumes of a run.
pub proof fn lemma_trace_within_queue(
    queue: Seq<Job>,
    resumes: nat,
    period: nat,
    steps: nat,
    id: usize,
)
    requires
        !spec_queued_id(queue, id),
    ensures
        !spec_trace(queue, resumes, period, steps).contains(id),
    decreases steps,
{
    if steps > 0 && queue.len() > 0 {
        let next = spec_step(queue, resumes + 1, period);
        assert(queue[0].id != id);
        assert forall|i: int| 0 <= i < next.len() implies #[trigger] next[i].id != id by {
            if i < queue.len() - 1 {
                assert(next[i] == queue[i + 1]);
            } else {
                assert(next[i].id == queue[0].id);
            }
        }
        lemma_trace_within_queue(next, resumes + 1, period, (steps - 1) as nat, id);
        let tail = spec_trace(next, resumes + 1, period, (steps - 1) as nat);
        let all = seq![queue[0].id] + tail;
        assert forall|i: int| 0 <= i < all.len() implies all[i] != id by {
            if i > 0 {
                assert(all[i] == tail[i - 1]);
            }
        }
    }
}

/// Whether no two jobs of the queue have the same ordinal.
pub open spec fn spec_distinct(queue: Seq<Job>) -> bool {
    forall|i: int, j: int|
        0 <= i < j < queue.len() ==> (#[trigger] queue[i]).id != (#[trigger] queue[j]).id
}

/// A task stands in the queue at most once: a resume takes the front job
/// out and puts at most that one back, so that ordinals which were distinct
/// stay distinct.
pub proof fn lemma_step_distinct(queue: Seq<Job>, resumes: nat, period: nat)
    requires
        queue.len() > 0,
        spec_distinct(queue),
    ensures
        spec_distinct(spec_step(queue, resumes, period)),
{
    let next = spec_step(queue, resumes, period);
    assert forall|i: int, j: int| 0 <= i < j < next.len() implies (#[trigger] next[i]).id != (
    #[trigger] next[j]).id by {
        assert(next[i] == queue[i + 1]);
        if j < queue.len() - 1 {
            assert(next[j] == queue[j + 1]);
        } else {
            assert(next[j].id == queue[0].id);
        }
    }
}

/// A task that is finished or cancelled is never resumed again: where the
/// ordinals of a queue are distinct and the front job is not requeued, its
/// ordinal does not occur among the resumes that follow.
pub proof fn lemma_dropped_never_resumed(queue: Seq<Job>, resumes: nat, period: nat, steps: nat)
    requires
        queue.len() > 0,
        spec_distinct(queue),
        spec_verdict(spec_status(queue[0]), resumes + 1, period) != Verdict::Requeue,
    ensures
        spec_step(queue, resumes + 1, period) == queue.skip(1),
        !spec_trace(queue.skip(1), resumes + 1, period, steps).contains(queue[0].id),
{
    let rest = queue.skip(1);
    assert forall|i: int| 0 <= i < rest.len() implies #[trigger] rest[i].id != queue[0].id by {
        assert(rest[i] == queue[i + 1]);
    }
    lemma_trace_within_queue(rest, resumes + 1, period, steps, queue[0].id);
}

/// The ordinals of the jobs of a queue, front first.
pub open spec fn spec_ids(queue: Seq<Job>) -> Seq<usize> {
    Seq::new(queue.len(), |i: int| queue[i].id)
}

/// The ordinals `ids`, `n` times over.
pub open spec fn spec_rounds(ids: Seq<usize>, n: nat) -> Seq<usize>
    decreases n,
{
    if n == 0 {
        Seq::empty()
    } else {
        ids + spec_rounds(ids, (n - 1) as nat)
    }
}

/// A queue of jobs with equal numbers of yields, in the middle of a round:
/// the first `done` jobs were resumed and stand at the back with one yield
/// less, or are gone where they had none left; the others still wait with
/// `left` yields each.
pub open spec fn spec_mid_round(queue: Seq<Job>, left: nat, done: int) -> Seq<Job> {
    Seq::new(
        if left > 0 {
            queue.len()
        } else {
            (queue.len() - done) as nat
        },
        |i: int|
            if i < queue.len() - done {
                Job { id: queue[i + done].id, yields: left }
            } else {
                Job { id: queue[i - (queue.len() - done)].id, yields: (left - 1) as nat }
            },
    )
}

/// From the middle of a round the run goes through the jobs that still
/// wait, in their order, and then through `left` whole rounds.
pub proof fn lemma_mid_round(queue: Seq<Job>, left: nat, done: int, resumes: nat, steps: nat)
    requires
        0 <= done <= queue.len(),
        steps >= spec_work(spec_mid_round(queue, left, done)),
    ensures
        spec_trace(spec_mid_round(queue, left, done), resumes, 0, steps) =~= spec_ids(queue).skip(
            done,
        ) + spec_rounds(spec_ids(queue), left),
    decreases left, queue.len() - done,
{
    let now = spec_mid_round(queue, left, done);
    let ids = spec_ids(queue);
    if done == queue.len() {
        assert(ids.skip(done) =~= Seq::<usize>::empty());
        if left > 0 {
            assert(now =~= spec_mid_round(queue, (left - 1) as nat, 0));
            lemma_mid_round(queue, (left - 1) as nat, 0, resumes, steps);
            assert(ids.skip(0) =~= ids);
        }
    } else {
        let next = spec_step(now, resumes + 1, 0);
        assert(now[0] == Job { id: queue[done].id, yields: left });
        assert(next =~= spec_mid_round(queue, left, done + 1));
        lemma_step_decreases(now, resumes + 1, 0);
        lemma_mid_round(queue, left, done + 1, resumes + 1, (steps - 1) as nat);
        assert(seq![queue[done].id] + ids.skip(done + 1) =~= ids.skip(done));
    }
}

/// Tasks that yield equally often run in rounds: where every job of the
/// queue yields `yields` times and none is cancelled, the jobs are resumed
/// in the order of the queue, `yields + 1` times over.
pub proof fn lemma_rounds(queue: Seq<Job>, yields: nat, resumes: nat, steps: nat)
    requires
        forall|i: int| 0 <= i < queue.len() ==> (#[trigger] queue[i]).yields == yields,
        steps >= spec_work(queue),
    ensures
        spec_trace(queue, resumes, 0, steps) =~= spec_rounds(spec_ids(queue), yields + 1),
{
    assert(queue =~= spec_mid_round(queue, yields, 0));
    lemma_mid_round(queue, yields, 0, resumes, steps);
    assert(spec_ids(queue).skip(0) =~= spec_ids(queue));
}

} // verus!
