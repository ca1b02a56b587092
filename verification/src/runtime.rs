//! The scheduler: a queue of suspended tasks, the one task that runs, and the
//! context of the scheduler itself.

use std::collections::VecDeque;
use vstd::prelude::*;
use vstd::arithmetic::power2::is_pow2;
use crate::generator::{Generator, Phase};
use crate::registers::{Registers, Transfer};
use crate::schedule::{
    lemma_step_decreases, spec_settled, spec_step, spec_trace, spec_verdict, spec_work, Job,
    Verdict,
};
use crate::stack::{
    lemma_rounded_unique, spec_frame, spec_rounded, spec_written_frame, Payload,
    DEFAULT_STACK_SIZE,
};
use crate::state::State;

verus! {

/// What `settle` did with the current task.
#[derive(Clone, Copy, Debug, PartialEq, Eq, Structural)]
pub enum Outcome {
    /// No task was current.
    Idle,
    /// The current task has not given control back yet.
    Running(usize),
    /// The task yielded and went to the back of the queue.
    Requeued(usize),
    /// The task yielded at a resume that was due: it was cancelled and is
    /// resumed once more, to unwind.
    Cancelling(usize),
    /// The task was done and has been dropped.
    Finished(usize),
}

/// A single-threaded round-robin scheduler.
pub struct Runtime<C> {
    tasks: VecDeque<Generator<C>>,
    current: Option<Generator<C>>,
    ctx: C,
    cpu: Registers,
    period: usize,
    tick: usize,
    resumes: Ghost<nat>,
    entries: Ghost<Seq<Payload>>,
}

impl<C: Transfer> Runtime<C> {
    /// The queue, front first.
    pub closed spec fn spec_tasks(&self) -> Seq<Generator<C>> {
        self.tasks@
    }

    /// The task that was taken from the queue to run.
    pub closed spec fn spec_current(&self) -> Option<Generator<C>> {
        self.current
    }

    /// The context of the scheduler: where it was when it last resumed a
    /// task.
    pub closed spec fn spec_root(&self) -> C {
        self.ctx
    }

    /// The register file.
    pub closed spec fn spec_registers(&self) -> Registers {
        self.cpu
    }

    /// The cancellation period: zero where no task is ever cancelled.
    pub closed spec fn spec_period(&self) -> usize {
        self.period
    }

    /// The number of resumes since the queue was last found empty.
    pub closed spec fn spec_resumes(&self) -> nat {
        self.resumes@
    }

    /// The payloads that tasks were handed on their entry, since the
    /// scheduler was made, in the order of the entries.
    pub closed spec fn spec_entries(&self) -> Seq<Payload> {
        self.entries@
    }

    /// The payloads of the tasks of a queue that were not entered yet, front
    /// first: what is still to be handed out.
    pub open spec fn spec_fresh(tasks: Seq<Generator<C>>) -> Seq<Payload>
        decreases tasks.len(),
    {
        if tasks.len() == 0 {
            Seq::empty()
        } else if tasks[0].spec_entered() {
            Self::spec_fresh(tasks.skip(1))
        } else {
            seq![tasks[0].spec_payload()] + Self::spec_fresh(tasks.skip(1))
        }
    }

    /// Where no task of a queue was entered, what is still to be handed out
    /// is the payload of each task, once, in the order of the queue.
    pub proof fn lemma_fresh_all(tasks: Seq<Generator<C>>)
        requires
            forall|i: int| 0 <= i < tasks.len() ==> !(#[trigger] tasks[i]).spec_entered(),
        ensures
            Self::spec_fresh(tasks) == Seq::new(tasks.len(), |i: int| tasks[i].spec_payload()),
        decreases tasks.len(),
    {
        if tasks.len() > 0 {
            let rest = tasks.skip(1);
            assert forall|i: int| 0 <= i < rest.len() implies !(#[trigger] rest[i]).spec_entered() by {
                assert(rest[i] == tasks[i + 1]);
            }
            Self::lemma_fresh_all(rest);
            assert(Self::spec_fresh(tasks) =~= Seq::new(
                tasks.len(),
                |i: int| tasks[i].spec_payload(),
            ));
        } else {
            assert(Self::spec_fresh(tasks) =~= Seq::new(
                tasks.len(),
                |i: int| tasks[i].spec_payload(),
            ));
        }
    }

    /// A task that was entered adds nothing to what is still to be handed
    /// out.
    pub proof fn lemma_fresh_push(tasks: Seq<Generator<C>>, task: Generator<C>)
        requires
            task.spec_entered(),
        ensures
            Self::spec_fresh(tasks.push(task)) == Self::spec_fresh(tasks),
        decreases tasks.len(),
    {
        if tasks.len() == 0 {
            assert(tasks.push(task).skip(1) =~= Seq::<Generator<C>>::empty());
            assert(Self::spec_fresh(tasks.push(task).skip(1)) == Seq::<Payload>::empty());
        } else {
            assert(tasks.push(task).skip(1) =~= tasks.skip(1).push(task));
            Self::lemma_fresh_push(tasks.skip(1), task);
        }
    }

    /// Whether a task can stand in the queue: it is suspended and alive.
    pub open spec fn spec_queued(t: Generator<C>) -> bool {
        &&& t.wf()
        &&& t.spec_phase() == Phase::Suspended
        &&& t.spec_alive()
    }

    /// What holds of every scheduler between two calls: the queue holds
    /// suspended tasks that are alive; the current task has left the queue
    /// and was resumed; and the counter follows the resumes.
    pub closed spec fn wf(&self) -> bool {
        &&& forall|i: int|
            0 <= i < self.tasks@.len() ==> Self::spec_queued(#[trigger] self.tasks@[i])
        &&& self.current matches Some(t) ==> {
            &&& t.wf()
            &&& t.spec_phase() != Phase::Unprepared
            &&& t.spec_phase() == Phase::Suspended ==> t.spec_entered() && t.spec_alive()
            &&& self.resumes@ > 0
        }
        &&& self.period == 0 ==> self.tick == 0
        &&& self.period > 0 ==> self.tick == self.resumes@ % (self.period as nat)
    }

    /// What `wf` says of the queue and of the current task.
    pub proof fn lemma_wf(&self)
        requires
            self.wf(),
        ensures
            forall|i: int|
                0 <= i < self.spec_tasks().len() ==> Self::spec_queued(
                    #[trigger] self.spec_tasks()[i],
                ),
            self.spec_current() matches Some(t) ==> t.wf() && t.spec_phase() != Phase::Unprepared,
    {
    }

    /// A scheduler with an empty queue that never cancels a task.
    pub fn new() -> (rt: Self)
        ensures
            rt.wf(),
            rt.spec_tasks() == Seq::<Generator<C>>::empty(),
            rt.spec_current().is_none(),
            rt.spec_root() == C::saved(Registers::spec_zeroed()),
            rt.spec_registers() == Registers::spec_zeroed(),
            rt.spec_period() == 0,
            rt.spec_resumes() == 0,
            rt.spec_entries() == Seq::<Payload>::empty(),
    {
        Self::with_cancel_period(0)
    }

    /// A scheduler with an empty queue that cancels the task which yields at
    /// every `period`-th resume; with a period of zero it never cancels.
    pub fn with_cancel_period(period: usize) -> (rt: Self)
        ensures
            rt.wf(),
            rt.spec_tasks() == Seq::<Generator<C>>::empty(),
            rt.spec_current().is_none(),
            rt.spec_root() == C::saved(Registers::spec_zeroed()),
            rt.spec_registers() == Registers::spec_zeroed(),
            rt.spec_period() == period,
            rt.spec_resumes() == 0,
            rt.spec_entries() == Seq::<Payload>::empty(),
    {
        Runtime {
            tasks: VecDeque::new(),
            current: None,
            ctx: C::cleared(),
            cpu: Registers::zeroed(),
            period,
            tick: 0,
            resumes: Ghost(0),
            entries: Ghost(Seq::empty()),
        }
    }

    /// The number of queued tasks.
    pub fn len(&self) -> (n: usize)
        ensures
            n == self.spec_tasks().len(),
    {
        self.tasks.len()
    }

    /// Whether the queue is empty.
    pub fn is_empty(&self) -> (b: bool)
        ensures
            b == (self.spec_tasks().len() == 0),
    {
        self.tasks.len() == 0
    }

    /// The ordinal of the current task, if there is one.
    pub fn current_id(&self) -> (id: Option<usize>)
        ensures
            id.is_some() == self.spec_current().is_some(),
            id.is_some() ==> id.unwrap() == self.spec_current().unwrap().spec_id(),
    {
        match &self.current {
            Some(t) => Some(t.id()),
            None => None,
        }
    }

    /// Whether the current task may yield: it runs, was entered and is not
    /// cancelled. A yield of any other task does nothing.
    #[verifier::when_used_as_spec(spec_can_yield)]
    pub fn can_yield(&self) -> (b: bool)
        ensures
            b == self.spec_can_yield(),
    {
        match &self.current {
            Some(t) => t.phase() == Phase::Running && t.has_entered() && !t.is_cancelled(),
            None => false,
        }
    }

    /// Whether the current task may end: it runs and was entered.
    #[verifier::when_used_as_spec(spec_can_finish)]
    pub fn can_finish(&self) -> (b: bool)
        ensures
            b == self.spec_can_finish(),
    {
        match &self.current {
            Some(t) => t.phase() == Phase::Running && t.has_entered(),
            None => false,
        }
    }

    /// What the current task asks when it goes on after a yield: whether it
    /// was cancelled meanwhile and has to unwind. `false` where no task is
    /// current.
    pub fn is_cancelled(&self) -> (b: bool)
        ensures
            b == (self.spec_current() matches Some(t) && !t.spec_alive()),
    {
        match &self.current {
            Some(t) => t.is_cancelled(),
            None => false,
        }
    }

    /// The cancellation period: zero where no task is ever cancelled.
    #[verifier::when_used_as_spec(spec_period)]
    pub fn period(&self) -> (p: usize)
        ensures
            p == self.spec_period(),
    {
        self.period
    }

    /// The register file.
    pub fn registers(&self) -> (cpu: &Registers)
        ensures
            *cpu == self.spec_registers(),
    {
        &self.cpu
    }

    /// The context of the scheduler.
    pub fn root(&self) -> (ctx: &C)
        ensures
            *ctx == self.spec_root(),
    {
        &self.ctx
    }
    /// Whether two schedulers agree in everything but the queue and the
    /// current task.
    pub open spec fn same_machine(&self, other: &Self) -> bool {
        &&& self.spec_root() == other.spec_root()
        &&& self.spec_registers() == other.spec_registers()
        &&& self.spec_period() == other.spec_period()
        &&& self.spec_resumes() == other.spec_resumes()
        &&& self.spec_entries() == other.spec_entries()
    }

    /// Whether the current task may yield: it runs, was entered and is not
    /// cancelled.
    pub open spec fn spec_can_yield(&self) -> bool {
        self.spec_current() matches Some(t) && t.spec_phase() == Phase::Running
            && t.spec_entered() && t.spec_alive()
    }

    /// Whether the current task may end: it runs and was entered.
    pub open spec fn spec_can_finish(&self) -> bool {
        self.spec_current() matches Some(t) && t.spec_phase() == Phase::Running
            && t.spec_entered()
    }

    /// Appends a task to the queue, where it can stand there: where it is
    /// suspended and alive. Gives the ordinal of the task, or `None` where
    /// the queue is left as it was.
    pub fn enqueue(&mut self, task: Generator<C>) -> (id: Option<usize>)
        requires
            old(self).wf(),
            task.wf(),
        ensures
            final(self).wf(),
            final(self).same_machine(old(self)),
            final(self).spec_current() == old(self).spec_current(),
            id.is_some() == (task.spec_phase() == Phase::Suspended && task.spec_alive()),
            id.is_some() ==> id.unwrap() == task.spec_id(),
            final(self).spec_tasks() == if id.is_some() {
                old(self).spec_tasks().push(task)
            } else {
                old(self).spec_tasks()
            },
    {
        if task.phase() == Phase::Suspended && !task.is_cancelled() {
            let id: usize = task.id();
            self.tasks.push_back(task);
            Some(id)
        } else {
            None
        }
    }

    /// Creates a task with the default stack size, whose ordinal is the
    /// length of the queue, and appends it to the queue: the task is
    /// suspended at its initial frame, alive and not yet entered. Gives the
    /// ordinal of the task.
    pub fn spawn(&mut self, payload: Payload, entry: u64) -> (id: usize)
        requires
            old(self).wf(),
        ensures
            final(self).wf(),
            final(self).same_machine(old(self)),
            final(self).spec_current() == old(self).spec_current(),
            id == old(self).spec_tasks().len(),
            final(self).spec_tasks() == old(self).spec_tasks().push(
                final(self).spec_tasks().last(),
            ),
            ({
                let t = final(self).spec_tasks().last();
                &&& t.spec_id() == id
                &&& t.spec_phase() == Phase::Suspended
                &&& t.spec_alive()
                &&& !t.spec_entered()
                &&& t.spec_stack().len() == DEFAULT_STACK_SIZE
                &&& t.spec_stack() == spec_written_frame(
                    Seq::new(DEFAULT_STACK_SIZE as nat, |i: int| 0u8),
                    t.spec_base(),
                    payload,
                    entry,
                )
                &&& t.spec_payload() == payload
                &&& t.spec_entry() == entry
                &&& t.spec_context() == C::spec_initial(
                    spec_frame(t.spec_base(), DEFAULT_STACK_SIZE as nat),
                    t.spec_base(),
                )
            }),
    {
        let id: usize = self.tasks.len();
        let task: Generator<C> = Generator::new(id, DEFAULT_STACK_SIZE, payload, entry);
        proof {
            lemma_default_is_rounded();
            lemma_rounded_unique(
                DEFAULT_STACK_SIZE as nat,
                task.spec_stack().len(),
                DEFAULT_STACK_SIZE as nat,
            );
        }
        self.tasks.push_back(task);
        id
    }

    /// Takes the task at the front of the queue, makes it the current one
    /// and resumes it: the scheduler is saved into its root context and the
    /// register file holds the task. Gives `None` where the queue is empty:
    /// the run is over and the count of resumes starts again.
    pub fn dispatch(&mut self) -> (id: Option<usize>)
        requires
            old(self).wf(),
            old(self).spec_current().is_none(),
        ensures
            final(self).wf(),
            final(self).spec_period() == old(self).spec_period(),
            final(self).spec_entries() == old(self).spec_entries(),
            match id {
                Some(id) => {
                    &&& old(self).spec_tasks().len() > 0
                    &&& id == old(self).spec_tasks()[0].spec_id()
                    &&& final(self).spec_tasks() == old(self).spec_tasks().skip(1)
                    &&& final(self).spec_current() matches Some(t) && t.moved_from(
                        &old(self).spec_tasks()[0],
                        Phase::Running,
                    )
                    &&& final(self).spec_root() == C::saved(old(self).spec_registers())
                    &&& final(self).spec_registers() == old(self).spec_tasks()[0].spec_context().loaded(
                        old(self).spec_registers(),
                        State::Pending,
                    )
                    &&& final(self).spec_resumes() == old(self).spec_resumes() + 1
                },
                None => {
                    &&& old(self).spec_tasks().len() == 0
                    &&& final(self).spec_tasks() == old(self).spec_tasks()
                    &&& final(self).spec_current().is_none()
                    &&& final(self).spec_root() == old(self).spec_root()
                    &&& final(self).spec_registers() == old(self).spec_registers()
                    &&& final(self).spec_resumes() == 0
                },
            },
    {
        match self.tasks.pop_front() {
            Some(mut task) => {
                assert(Self::spec_queued(old(self).tasks@[0]));
                let id: usize = task.id();
                task.resume(&mut self.cpu, &mut self.ctx);
                self.current = Some(task);
                proof {
                    lemma_mod_successor(self.resumes@, self.period as nat);
                }
                if self.period > 0 {
                    self.tick = if self.tick + 1 == self.period {
                        0
                    } else {
                        self.tick + 1
                    };
                }
                self.resumes = Ghost((self.resumes@ + 1) as nat);
                assert(self.tasks@ =~= old(self).tasks@.skip(1));
                Some(id)
            },
            None => {
                self.tick = 0;
                self.resumes = Ghost(0);
                None
            },
        }
    }

    /// The yield of the current task: saves it at the point it has reached
    /// and goes on in the scheduler, which finds the `Pending` tag. Does
    /// nothing where no task can yield.
    pub fn switch(&mut self)
        requires
            old(self).wf(),
        ensures
            final(self).wf(),
            final(self).spec_tasks() == old(self).spec_tasks(),
            final(self).spec_root() == old(self).spec_root(),
            final(self).spec_period() == old(self).spec_period(),
            final(self).spec_resumes() == old(self).spec_resumes(),
            final(self).spec_entries() == old(self).spec_entries(),
            old(self).spec_can_yield() ==> {
                &&& final(self).spec_current() matches Some(t) && {
                    &&& t.same_task(&old(self).spec_current().unwrap())
                    &&& t.spec_phase() == Phase::Suspended
                    &&& t.spec_context() == C::saved(old(self).spec_registers())
                    &&& t.spec_alive()
                    &&& t.spec_entered()
                }
                &&& final(self).spec_registers() == old(self).spec_root().loaded(
                    old(self).spec_registers(),
                    State::Pending,
                )
                &&& C::saved(final(self).spec_registers()) == old(self).spec_root()
                &&& final(self).spec_registers().spec_status() == Some(State::Pending)
            },
            !old(self).spec_can_yield() ==> {
                &&& final(self).spec_current() == old(self).spec_current()
                &&& final(self).spec_registers() == old(self).spec_registers()
            },
    {
        match self.current.take() {
            Some(mut task) => {
                if task.phase() == Phase::Running && task.has_entered() && !task.is_cancelled() {
                    proof {
                        C::lemma_load_then_save(self.ctx, self.cpu, State::Pending);
                    }
                    task.suspend(&mut self.cpu, &self.ctx);
                }
                self.current = Some(task);
            },
            None => {},
        }
    }

    /// The end of the current task: gives control back to the scheduler for
    /// good, which finds the `Ready` tag. Does nothing where no task can
    /// end.
    pub fn finish(&mut self)
        requires
            old(self).wf(),
        ensures
            final(self).wf(),
            final(self).spec_tasks() == old(self).spec_tasks(),
            final(self).spec_root() == old(self).spec_root(),
            final(self).spec_period() == old(self).spec_period(),
            final(self).spec_resumes() == old(self).spec_resumes(),
            final(self).spec_entries() == old(self).spec_entries(),
            old(self).spec_can_finish() ==> {
                &&& final(self).spec_current() matches Some(t) && t.moved_from(
                    &old(self).spec_current().unwrap(),
                    Phase::Done,
                )
                &&& final(self).spec_registers() == old(self).spec_root().loaded(
                    old(self).spec_registers(),
                    State::Ready,
                )
                &&& C::saved(final(self).spec_registers()) == old(self).spec_root()
                &&& final(self).spec_registers().spec_status() == Some(State::Ready)
            },
            !old(self).spec_can_finish() ==> {
                &&& final(self).spec_current() == old(self).spec_current()
                &&& final(self).spec_registers() == old(self).spec_registers()
            },
    {
        match self.current.take() {
            Some(mut task) => {
                if task.phase() == Phase::Running && task.has_entered() {
                    proof {
                        C::lemma_load_then_save(self.ctx, self.cpu, State::Ready);
                    }
                    task.complete(&mut self.cpu, &self.ctx);
                }
                self.current = Some(task);
            },
            None => {},
        }
    }

    /// The entry of the current task: hands out its payload, once, when it
    /// runs for the first time. Gives `None` in every other case and then
    /// changes nothing.
    pub fn enter(&mut self) -> (p: Option<Payload>)
        requires
            old(self).wf(),
        ensures
            final(self).wf(),
            final(self).spec_root() == old(self).spec_root(),
            final(self).spec_registers() == old(self).spec_registers(),
            final(self).spec_period() == old(self).spec_period(),
            final(self).spec_resumes() == old(self).spec_resumes(),
            final(self).spec_tasks() == old(self).spec_tasks(),
            final(self).spec_entries() == if p.is_some() {
                old(self).spec_entries().push(p.unwrap())
            } else {
                old(self).spec_entries()
            },
            p.is_some() == (old(self).spec_current() matches Some(t) && t.spec_phase()
                == Phase::Running && !t.spec_entered()),
            p.is_some() ==> {
                &&& p.unwrap() == old(self).spec_current().unwrap().spec_payload()
                &&& final(self).spec_current() matches Some(t) && {
                    &&& t.same_task(&old(self).spec_current().unwrap())
                    &&& t.spec_phase() == Phase::Running
                    &&& t.spec_context() == old(self).spec_current().unwrap().spec_context()
                    &&& t.spec_alive()
                    &&& t.spec_entered()
                }
            },
            p.is_none() ==> final(self).spec_current() == old(self).spec_current(),
    {
        match self.current.take() {
            Some(mut task) => {
                let p = if task.phase() == Phase::Running && !task.has_entered() {
                    task.enter()
                } else {
                    None
                };
                self.current = Some(task);
                proof {
                    if p.is_some() {
                        self.entries@ = self.entries@.push(p.unwrap());
                    }
                }
                p
            },
            None => None,
        }
    }

    /// Stands for the work of the current task between two transfers: the
    /// register file becomes `regs`. Does nothing where no task runs.
    pub fn execute(&mut self, regs: Registers)
        requires
            old(self).wf(),
        ensures
            final(self).wf(),
            final(self).spec_tasks() == old(self).spec_tasks(),
            final(self).spec_current() == old(self).spec_current(),
            final(self).spec_root() == old(self).spec_root(),
            final(self).spec_period() == old(self).spec_period(),
            final(self).spec_resumes() == old(self).spec_resumes(),
            final(self).spec_entries() == old(self).spec_entries(),
            final(self).spec_registers() == if old(self).spec_current() matches Some(t)
                && t.spec_phase() == Phase::Running {
                regs
            } else {
                old(self).spec_registers()
            },
    {
        let runs: bool = match &self.current {
            Some(t) => t.phase() == Phase::Running,
            None => false,
        };
        if runs {
            self.cpu = regs;
        }
    }
    /// What the scheduler does once the current task has given control
    /// back. A task that yielded goes to the back of the queue, unless the
    /// resume was due: then it is cancelled and resumed once more, and stays
    /// the current task until it is done. A task that is done is dropped. A
    /// task that still runs is left alone.
    pub fn settle(&mut self) -> (o: Outcome)
        requires
            old(self).wf(),
        ensures
            final(self).wf(),
            final(self).spec_period() == old(self).spec_period(),
            final(self).spec_resumes() == old(self).spec_resumes(),
            final(self).spec_entries() == old(self).spec_entries(),
            match old(self).spec_current() {
                None => o == Outcome::Idle && final(self).spec_current().is_none(),
                Some(t) => match t.spec_phase() {
                    Phase::Suspended => {
                        let verdict = spec_verdict(
                            State::Pending,
                            old(self).spec_resumes(),
                            old(self).spec_period() as nat,
                        );
                        &&& final(self).spec_tasks() == spec_settled(
                            old(self).spec_tasks(),
                            t,
                            verdict,
                        )
                        &&& verdict == Verdict::Requeue ==> {
                            &&& o == Outcome::Requeued(t.spec_id())
                            &&& final(self).spec_current().is_none()
                        }
                        &&& verdict == Verdict::Cancel ==> {
                            &&& o == Outcome::Cancelling(t.spec_id())
                            &&& final(self).spec_current() matches Some(c)
                            &&& c.same_task(&t)
                            &&& c.spec_phase() == Phase::Running
                            &&& c.spec_context() == t.spec_context()
                            &&& !c.spec_alive()
                            &&& c.spec_entered()
                        }
                    },
                    Phase::Done => {
                        &&& o == Outcome::Finished(t.spec_id())
                        &&& final(self).spec_current().is_none()
                    },
                    _ => {
                        &&& o == Outcome::Running(t.spec_id())
                        &&& final(self).spec_current() == old(self).spec_current()
                    },
                },
            },
            o is Cancelling ==> {
                &&& final(self).spec_root() == C::saved(old(self).spec_registers())
                &&& final(self).spec_registers() == old(
                    self,
                ).spec_current().unwrap().spec_context().loaded(
                    old(self).spec_registers(),
                    State::Pending,
                )
            },
            !(o is Cancelling) ==> {
                &&& final(self).spec_root() == old(self).spec_root()
                &&& final(self).spec_registers() == old(self).spec_registers()
            },
            !(o is Requeued) ==> final(self).spec_tasks() == old(self).spec_tasks(),
    {
        match self.current.take() {
            None => Outcome::Idle,
            Some(mut task) => {
                let id: usize = task.id();
                match task.phase() {
                    Phase::Suspended => {
                        if self.period > 0 && self.tick == 0 {
                            task.cancel(&mut self.cpu, &mut self.ctx);
                            self.current = Some(task);
                            Outcome::Cancelling(id)
                        } else {
                            self.tasks.push_back(task);
                            Outcome::Requeued(id)
                        }
                    },
                    Phase::Done => Outcome::Finished(id),
                    _ => {
                        self.current = Some(task);
                        Outcome::Running(id)
                    },
                }
            },
        }
    }
    /// The queue as jobs, for tasks of which the one at place `i` will
    /// yield `yields[i]` times before it ends.
    pub open spec fn spec_jobs(tasks: Seq<Generator<C>>, yields: Seq<usize>) -> Seq<Job> {
        Seq::new(tasks.len(), |i: int| Job { id: tasks[i].spec_id(), yields: yields[i] as nat })
    }

    /// Runs the queue to its end for tasks that behave as `yields` says: the
    /// task at place `i` of the queue yields `yields[i]` times and then ends.
    /// Each task is taken from the front, entered if it is new, and settled
    /// once it has yielded or ended; one that is cancelled unwinds at once.
    /// Gives the ordinals of the tasks in the order of their resumes. The
    /// queue is empty afterwards, and the scheduler finds the registers of
    /// its context as they were. Every task that had not been entered is
    /// entered once, in the order of the queue, and none that had been is
    /// entered again, whether it ends or is cancelled.
    pub fn run(&mut self, yields: &Vec<usize>) -> (trace: Vec<usize>)
        requires
            old(self).wf(),
            old(self).spec_current().is_none(),
            yields@.len() == old(self).spec_tasks().len(),
        ensures
            final(self).wf(),
            final(self).spec_tasks().len() == 0,
            final(self).spec_current().is_none(),
            final(self).spec_period() == old(self).spec_period(),
            final(self).spec_resumes() == 0,
            C::saved(final(self).spec_registers()) == C::saved(old(self).spec_registers()),
            final(self).spec_entries() == old(self).spec_entries() + Self::spec_fresh(
                old(self).spec_tasks(),
            ),
            trace@ == spec_trace(
                Self::spec_jobs(old(self).spec_tasks(), yields@),
                old(self).spec_resumes(),
                old(self).spec_period() as nat,
                spec_work(Self::spec_jobs(old(self).spec_tasks(), yields@)),
            ),
    {
        let mut left: VecDeque<usize> = VecDeque::new();
        let mut i: usize = 0;
        while i < yields.len()
            invariant
                i <= yields@.len(),
                left@ == yields@.take(i as int),
            decreases yields@.len() - i,
        {
            left.push_back(yields[i]);
            i = i + 1;
            assert(left@ =~= yields@.take(i as int));
        }
        assert(left@ =~= yields@);
        let mut trace: Vec<usize> = Vec::new();
        let ghost jobs0 = Self::spec_jobs(old(self).spec_tasks(), yields@);
        let ghost period = old(self).spec_period() as nat;
        let ghost full = spec_trace(jobs0, old(self).spec_resumes(), period, spec_work(jobs0));
        let ghost fuel: nat = spec_work(jobs0);
        assert(trace@ + full =~= full);
        while self.tasks.len() > 0
            invariant
                self.wf(),
                self.spec_current().is_none(),
                self.spec_period() == period,
                C::saved(self.spec_registers()) == C::saved(old(self).spec_registers()),
                self.spec_entries() + Self::spec_fresh(self.spec_tasks()) == old(
                    self,
                ).spec_entries() + Self::spec_fresh(old(self).spec_tasks()),
                left@.len() == self.spec_tasks().len(),
                fuel >= spec_work(Self::spec_jobs(self.spec_tasks(), left@)),
                full == trace@ + spec_trace(
                    Self::spec_jobs(self.spec_tasks(), left@),
                    self.spec_resumes(),
                    period,
                    fuel,
                ),
            decreases spec_work(Self::spec_jobs(self.spec_tasks(), left@)),
        {
            let ghost jobs = Self::spec_jobs(self.spec_tasks(), left@);
            let ghost resumes = self.spec_resumes();
            let ghost before = self.spec_tasks();
            let ghost left_before = left@;
            let ghost entries = self.spec_entries();
            proof {
                self.lemma_wf();
                lemma_step_decreases(jobs, resumes + 1, period);
            }
            let r: usize = left.pop_front().unwrap();
            let id: usize = self.dispatch().unwrap();
            let _ = self.enter();
            if r > 0 {
                self.switch();
            } else {
                self.finish();
            }
            let ghost yielded = self.spec_current().unwrap();
            let o = self.settle();
            match o {
                Outcome::Requeued(_) => {
                    left.push_back(r - 1);
                    proof {
                        Self::lemma_fresh_push(before.skip(1), yielded);
                    }
                },
                Outcome::Cancelling(_) => {
                    self.finish();
                    let _ = self.settle();
                },
                _ => {},
            }
            trace.push(id);
            proof {
                let next = Self::spec_jobs(self.spec_tasks(), left@);
                assert(jobs.skip(1) =~= Self::spec_jobs(before.skip(1), left_before.skip(1)));
                assert(next =~= spec_step(jobs, resumes + 1, period));
                fuel = (fuel - 1) as nat;
                assert(Self::spec_fresh(self.spec_tasks()) == Self::spec_fresh(before.skip(1)));
                assert(self.spec_entries() + Self::spec_fresh(self.spec_tasks()) =~= entries
                    + Self::spec_fresh(before));
            }
        }
        let _ = self.dispatch();
        assert(Self::spec_jobs(self.spec_tasks(), left@) =~= Seq::<Job>::empty());
        assert(self.spec_entries() + Self::spec_fresh(self.spec_tasks()) =~= self.spec_entries());
        trace
    }
}

/// The default stack size is a power of two: it is not rounded.
pub proof fn lemma_default_is_rounded()
    ensures
        spec_rounded(DEFAULT_STACK_SIZE as nat, DEFAULT_STACK_SIZE as nat),
{
    reveal_with_fuel(is_pow2, 25);
}

/// How the remainder of a count moves when the count goes up by one.
pub proof fn lemma_mod_successor(r: nat, p: nat)
    ensures
        p > 0 ==> (r + 1) % p == if r % p + 1 == p {
            0
        } else {
            r % p + 1
        },
{
    if p > 0 {
        let q = (r / p) as int;
        let m = (r % p) as int;
        let pi = p as int;
        vstd::arithmetic::div_mod::lemma_fundamental_div_mod(r as int, pi);
        vstd::arithmetic::div_mod::lemma_mod_bound(r as int, pi);
        if m + 1 == pi {
            assert(r + 1 == (q + 1) * pi + 0) by (nonlinear_arith)
                requires
                    r == pi * q + m,
                    m + 1 == pi,
            ;
            vstd::arithmetic::div_mod::lemma_fundamental_div_mod_converse(
                (r + 1) as int,
                pi,
                q + 1,
                0,
            );
        } else {
            assert(r + 1 == q * pi + (m + 1)) by (nonlinear_arith)
                requires
                    r == pi * q + m,
            ;
            vstd::arithmetic::div_mod::lemma_fundamental_div_mod_converse(
                (r + 1) as int,
                pi,
                q,
                m + 1,
            );
        }
    }
}

} // verus!
