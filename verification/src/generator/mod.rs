//! Tasks: a stack, a saved context and a liveness flag.

pub mod linux;
pub mod windows;

use vstd::prelude::*;
use crate::registers::{Registers, Transfer};
use crate::stack::{
    frame, round_up, spec_entry_at, spec_frame, spec_frame_fits, spec_payload_at, spec_rounded,
    spec_written_frame, lemma_frame_layout, lemma_frame_round_trip, lemma_rounded_fits, Payload,
    FRAME_SIZE, MAX_STACK_SIZE,
};
use crate::state::State;

verus! {

/// Where a task stands in its life.
#[derive(Clone, Copy, Debug, PartialEq, Eq, Structural)]
pub enum Phase {
    /// The stack is allocated but holds no frame: the task cannot be resumed.
    Unprepared,
    /// The saved context holds a point to go on from.
    Suspended,
    /// The task is the one that executes.
    Running,
    /// The task gave control back for good and is never resumed again.
    Done,
}

/// A task: a unit of cooperative work with a stack of its own.
pub struct Generator<C> {
    id: usize,
    stack: Vec<u8>,
    base: u64,
    run: bool,
    ctx: C,
    phase: Phase,
    entered: bool,
}

/// The address of the first byte of a stack buffer: `Vec::as_ptr` of std,
/// as an integer. Nothing is claimed of it.
#[verifier::external_body]
fn stack_address(stack: &Vec<u8>) -> (base: u64) {
    stack.as_ptr() as u64
}

impl<C: Transfer> Generator<C> {
    /// The ordinal that the task was created with.
    pub closed spec fn spec_id(&self) -> usize {
        self.id
    }

    /// The bytes of the stack as the task was created with them.
    pub closed spec fn spec_stack(&self) -> Seq<u8> {
        self.stack@
    }

    /// The address of the first byte of the stack.
    pub closed spec fn spec_base(&self) -> u64 {
        self.base
    }

    /// The liveness flag: cleared once the task is cancelled.
    pub closed spec fn spec_alive(&self) -> bool {
        self.run
    }

    /// The point at which the task was suspended.
    pub closed spec fn spec_context(&self) -> C {
        self.ctx
    }

    /// Where the task stands in its life.
    pub closed spec fn spec_phase(&self) -> Phase {
        self.phase
    }

    /// Whether the entry routine has taken the payload.
    pub closed spec fn spec_entered(&self) -> bool {
        self.entered
    }

    /// The payload that lies in the initial frame.
    pub open spec fn spec_payload(&self) -> Payload {
        spec_payload_at(
            self.spec_stack(),
            self.spec_base(),
            spec_frame(self.spec_base(), self.spec_stack().len()).rsp,
        )
    }

    /// The entry address that lies in the initial frame.
    pub open spec fn spec_entry(&self) -> u64 {
        spec_entry_at(
            self.spec_stack(),
            self.spec_base(),
            spec_frame(self.spec_base(), self.spec_stack().len()).rsp,
        )
    }

    /// Whether two values are the same task on the same stack.
    pub open spec fn same_task(&self, other: &Self) -> bool {
        &&& self.spec_id() == other.spec_id()
        &&& self.spec_stack() == other.spec_stack()
        &&& self.spec_base() == other.spec_base()
    }

    /// Whether this is the task `before` in another phase, with nothing else
    /// changed.
    pub open spec fn moved_from(&self, before: &Self, phase: Phase) -> bool {
        &&& self.same_task(before)
        &&& self.spec_phase() == phase
        &&& self.spec_context() == before.spec_context()
        &&& self.spec_alive() == before.spec_alive()
        &&& self.spec_entered() == before.spec_entered()
    }

    /// What holds of every task: one that can be resumed has its frame
    /// inside its stack, one that was never entered still has its initial
    /// context, and only a task that was entered can be cancelled or done.
    pub closed spec fn wf(&self) -> bool {
        &&& self.phase != Phase::Unprepared ==> spec_frame_fits(self.base, self.stack@.len())
        &&& self.phase != Phase::Unprepared && !self.entered ==> self.ctx == C::spec_initial(
            spec_frame(self.base, self.stack@.len()),
            self.base,
        )
        &&& !self.entered ==> self.run && self.phase != Phase::Done
        &&& self.phase == Phase::Unprepared ==> !self.entered
    }

    /// Whether the task can be resumed: it waits at a point to go on from.
    pub open spec fn spec_resumable(&self) -> bool {
        self.wf() && self.spec_phase() == Phase::Suspended
    }

    /// A task that is done is never resumed again: it does not meet what
    /// `resume` and `cancel` ask of a task, so that a call of either on it is
    /// an error of the caller and no status can come of it.
    pub proof fn lemma_done_is_terminal(&self)
        requires
            self.spec_phase() == Phase::Done,
        ensures
            !self.spec_resumable(),
    {
    }

    /// Makes a task on a stack buffer that lies at the address `base`, and
    /// writes the initial frame into it. Where the buffer has no room for the
    /// frame below its aligned top, nothing is written and the task stays
    /// `Unprepared`: it cannot be resumed.
    pub fn on_stack(id: usize, stack: Vec<u8>, base: u64, payload: Payload, entry: u64) -> (g:
        Self)
        ensures
            g.wf(),
            g.spec_id() == id,
            g.spec_base() == base,
            g.spec_alive(),
            !g.spec_entered(),
            spec_frame_fits(base, stack@.len()) ==> {
                &&& g.spec_phase() == Phase::Suspended
                &&& g.spec_stack() == spec_written_frame(stack@, base, payload, entry)
                &&& g.spec_context() == C::spec_initial(spec_frame(base, stack@.len()), base)
                &&& g.spec_payload() == payload
                &&& g.spec_entry() == entry
            },
            !spec_frame_fits(base, stack@.len()) ==> {
                &&& g.spec_phase() == Phase::Unprepared
                &&& g.spec_stack() == stack@
                &&& g.spec_context() == C::saved(Registers::spec_zeroed())
            },
    {
        let mut stack = stack;
        let size: usize = stack.len();
        match frame(base, size) {
            Some(_) => {
                proof {
                    lemma_frame_round_trip(stack@, base, payload, entry);
                }
                let ctx = C::bootstrap(&mut stack, base, payload, entry);
                Generator { id, stack, base, run: true, ctx, phase: Phase::Suspended, entered: false }
            },
            None => Generator {
                id,
                stack,
                base,
                run: true,
                ctx: C::cleared(),
                phase: Phase::Unprepared,
                entered: false,
            },
        }
    }

    /// Allocates a zeroed stack of `stack_size` bytes, rounded up to a power
    /// of two, and makes a task on it, at the address that the allocation
    /// has. Any size will do whose rounding a buffer can have. The closure
    /// is not started: its payload lies in the frame until the task is
    /// entered. A request for more than 32 bytes gives a task that is
    /// `Suspended`. A smaller stack can hold the initial frame only where it
    /// is aligned well enough: the task is `Unprepared` where it cannot.
    pub fn new(id: usize, stack_size: usize, payload: Payload, entry: u64) -> (g: Self)
        requires
            stack_size <= MAX_STACK_SIZE,
        ensures
            g.wf(),
            g.spec_id() == id,
            g.spec_alive(),
            !g.spec_entered(),
            spec_rounded(stack_size as nat, g.spec_stack().len()),
            stack_size > FRAME_SIZE ==> spec_frame_fits(g.spec_base(), g.spec_stack().len()),
            spec_frame_fits(g.spec_base(), g.spec_stack().len()) ==> {
                &&& g.spec_phase() == Phase::Suspended
                &&& g.spec_stack() == spec_written_frame(
                    Seq::new(g.spec_stack().len(), |i: int| 0u8),
                    g.spec_base(),
                    payload,
                    entry,
                )
                &&& g.spec_context() == C::spec_initial(
                    spec_frame(g.spec_base(), g.spec_stack().len()),
                    g.spec_base(),
                )
                &&& g.spec_payload() == payload
                &&& g.spec_entry() == entry
            },
            !spec_frame_fits(g.spec_base(), g.spec_stack().len()) ==> {
                &&& g.spec_phase() == Phase::Unprepared
                &&& g.spec_stack() == Seq::new(g.spec_stack().len(), |i: int| 0u8)
                &&& g.spec_context() == C::saved(Registers::spec_zeroed())
            },
    {
        let size: usize = round_up(stack_size);
        let stack: Vec<u8> = vec![0u8; size];
        let ghost zeros = Seq::new(size as nat, |i: int| 0u8);
        assert(stack@ =~= zeros);
        let base: u64 = stack_address(&stack);
        proof {
            if stack_size > FRAME_SIZE {
                lemma_rounded_fits(stack_size as nat, size as nat, base);
            }
            if spec_frame_fits(base, size as nat) {
                lemma_frame_round_trip(zeros, base, payload, entry);
            }
        }
        Self::on_stack(id, stack, base, payload, entry)
    }

    /// The ordinal that the task was created with.
    #[verifier::when_used_as_spec(spec_id)]
    pub fn id(&self) -> (id: usize)
        ensures
            id == self.spec_id(),
    {
        self.id
    }

    /// Where the task stands in its life.
    #[verifier::when_used_as_spec(spec_phase)]
    pub fn phase(&self) -> (p: Phase)
        ensures
            p == self.spec_phase(),
    {
        self.phase
    }

    /// Whether the task has given control back for good.
    pub fn is_done(&self) -> (b: bool)
        ensures
            b == (self.spec_phase() == Phase::Done),
    {
        self.phase == Phase::Done
    }

    /// Whether the entry routine has taken the payload.
    #[verifier::when_used_as_spec(spec_entered)]
    pub fn has_entered(&self) -> (b: bool)
        ensures
            b == self.spec_entered(),
    {
        self.entered
    }

    /// What a task asks when it goes on after a suspension: whether it was
    /// cancelled meanwhile and has to unwind in place of going on.
    pub fn is_cancelled(&self) -> (b: bool)
        ensures
            b == !self.spec_alive(),
    {
        !self.run
    }

    /// The address of the first byte of the stack.
    #[verifier::when_used_as_spec(spec_base)]
    pub fn base(&self) -> (b: u64)
        ensures
            b == self.spec_base(),
    {
        self.base
    }

    /// The stack buffer.
    pub fn stack(&self) -> (s: &Vec<u8>)
        ensures
            s@ == self.spec_stack(),
    {
        &self.stack
    }

    /// The point at which the task was suspended.
    pub fn context(&self) -> (c: &C)
        ensures
            *c == self.spec_context(),
    {
        &self.ctx
    }

    /// Saves the caller into `caller_ctx` and goes on in the task, from the
    /// point where it was suspended. The task must be suspended: one that is
    /// done is never resumed again.
    pub fn resume(&mut self, cpu: &mut Registers, caller_ctx: &mut C)
        requires
            old(self).spec_resumable(),
        ensures
            final(self).wf(),
            final(self).same_task(old(self)),
            final(self).spec_phase() == Phase::Running,
            final(self).spec_context() == old(self).spec_context(),
            final(self).spec_alive() == old(self).spec_alive(),
            final(self).spec_entered() == old(self).spec_entered(),
            *final(caller_ctx) == C::saved(*old(cpu)),
            *final(cpu) == old(self).spec_context().loaded(*old(cpu), State::Pending),
    {
        let _ = C::switch(cpu, caller_ctx, &self.ctx);
        self.phase = Phase::Running;
    }

    /// Saves the task at the point it has reached and goes on in the caller,
    /// which finds the `Pending` tag. Called from the task itself, once it
    /// was entered and as long as it is not cancelled.
    pub fn suspend(&mut self, cpu: &mut Registers, caller_ctx: &C)
        requires
            old(self).wf(),
            old(self).spec_phase() == Phase::Running,
            old(self).spec_entered(),
            old(self).spec_alive(),
        ensures
            final(self).wf(),
            final(self).same_task(old(self)),
            final(self).spec_phase() == Phase::Suspended,
            final(self).spec_context() == C::saved(*old(cpu)),
            final(self).spec_alive(),
            final(self).spec_entered(),
            *final(cpu) == caller_ctx.loaded(*old(cpu), State::Pending),
    {
        let _ = C::switch(cpu, &mut self.ctx, caller_ctx);
        self.phase = Phase::Suspended;
    }

    /// Gives control back to the caller for good: the caller finds the
    /// `Ready` tag and the task is done. This is how a task ends, whether
    /// its closure returned, panicked or was unwound by a cancellation.
    pub fn complete(&mut self, cpu: &mut Registers, caller_ctx: &C)
        requires
            old(self).wf(),
            old(self).spec_phase() == Phase::Running,
            old(self).spec_entered(),
        ensures
            final(self).wf(),
            final(self).same_task(old(self)),
            final(self).spec_phase() == Phase::Done,
            final(self).spec_context() == old(self).spec_context(),
            final(self).spec_alive() == old(self).spec_alive(),
            final(self).spec_entered(),
            *final(cpu) == caller_ctx.loaded(*old(cpu), State::Ready),
    {
        C::restore(cpu, caller_ctx);
        self.phase = Phase::Done;
    }

    /// Clears the liveness flag and resumes the task once more, so that it
    /// finds the flag cleared at its suspension point and unwinds. Only a
    /// task that waits at a suspension point can be cancelled.
    pub fn cancel(&mut self, cpu: &mut Registers, caller_ctx: &mut C)
        requires
            old(self).spec_resumable(),
            old(self).spec_entered(),
        ensures
            final(self).wf(),
            final(self).same_task(old(self)),
            final(self).spec_phase() == Phase::Running,
            final(self).spec_context() == old(self).spec_context(),
            !final(self).spec_alive(),
            final(self).spec_entered(),
            *final(caller_ctx) == C::saved(*old(cpu)),
            *final(cpu) == old(self).spec_context().loaded(*old(cpu), State::Pending),
    {
        self.run = false;
        self.resume(cpu, caller_ctx);
    }

    /// What the entry routine does when the task runs for the first time:
    /// it takes the payload out of the initial frame. The payload is handed
    /// out once, to the running task, and never again.
    pub fn enter(&mut self) -> (p: Option<Payload>)
        requires
            old(self).wf(),
        ensures
            final(self).wf(),
            final(self).same_task(old(self)),
            final(self).spec_phase() == old(self).spec_phase(),
            final(self).spec_context() == old(self).spec_context(),
            final(self).spec_alive() == old(self).spec_alive(),
            p.is_some() == (old(self).spec_phase() == Phase::Running && !old(self).spec_entered()),
            p.is_some() ==> p.unwrap() == old(self).spec_payload() && final(self).spec_alive(),
            final(self).spec_entered() == (old(self).spec_entered() || p.is_some()),
    {
        if self.phase == Phase::Running && !self.entered {
            let len: usize = self.stack.len();
            proof {
                C::lemma_initial_rsp(spec_frame(self.base, self.stack@.len()), self.base);
                lemma_frame_layout(self.base, self.stack@.len());
            }
            let p = self.ctx.entry_payload(&self.stack, self.base);
            self.entered = true;
            Some(p)
        } else {
            None
        }
    }
}

} // verus!
