//! The register file that a context transfer reads and writes.

use vstd::prelude::*;
use crate::stack::{
    spec_frame, spec_frame_fits, spec_offset, spec_payload_at, spec_written_frame, Frame, Payload,
    FRAME_SIZE,
};
use crate::state::State;

verus! {

/// The registers of the one core that runs the scheduler and its tasks, as
/// they stand at the boundary of a transfer routine: `rsp` points at the
/// return address of the caller.
#[derive(Clone, Copy, Debug)]
pub struct Registers {
    /// Accumulator: a transfer leaves the status tag here.
    pub rax: u64,
    pub rsp: u64,
    pub rbp: u64,
    pub rbx: u64,
    pub r12: u64,
    pub r13: u64,
    pub r14: u64,
    pub r15: u64,
    pub rdi: u64,
    pub rsi: u64,
    pub xmm6: [u64; 2],
    pub xmm7: [u64; 2],
    pub xmm8: [u64; 2],
    pub xmm9: [u64; 2],
    pub xmm10: [u64; 2],
    pub xmm11: [u64; 2],
    pub xmm12: [u64; 2],
    pub xmm13: [u64; 2],
    pub xmm14: [u64; 2],
    pub xmm15: [u64; 2],
    /// Highest address of the executing stack, as the thread block records it.
    pub stack_start: u64,
    /// Lowest address of the executing stack, as the thread block records it.
    pub stack_end: u64,
}

impl Registers {
    /// A register file with every register cleared.
    pub open spec fn spec_zeroed() -> Registers {
        Registers {
            rax: 0,
            rsp: 0,
            rbp: 0,
            rbx: 0,
            r12: 0,
            r13: 0,
            r14: 0,
            r15: 0,
            rdi: 0,
            rsi: 0,
            xmm6: [0, 0],
            xmm7: [0, 0],
            xmm8: [0, 0],
            xmm9: [0, 0],
            xmm10: [0, 0],
            xmm11: [0, 0],
            xmm12: [0, 0],
            xmm13: [0, 0],
            xmm14: [0, 0],
            xmm15: [0, 0],
            stack_start: 0,
            stack_end: 0,
        }
    }

    /// A register file with every register cleared.
    pub fn zeroed() -> (cpu: Registers)
        ensures
            cpu == Registers::spec_zeroed(),
    {
        Registers {
            rax: 0,
            rsp: 0,
            rbp: 0,
            rbx: 0,
            r12: 0,
            r13: 0,
            r14: 0,
            r15: 0,
            rdi: 0,
            rsi: 0,
            xmm6: [0, 0],
            xmm7: [0, 0],
            xmm8: [0, 0],
            xmm9: [0, 0],
            xmm10: [0, 0],
            xmm11: [0, 0],
            xmm12: [0, 0],
            xmm13: [0, 0],
            xmm14: [0, 0],
            xmm15: [0, 0],
            stack_start: 0,
            stack_end: 0,
        }
    }

    /// The status that the last transfer left for the side that now runs.
    pub open spec fn spec_status(self) -> Option<State> {
        State::spec_from_code(self.rax)
    }

    /// The status that the last transfer left for the side that now runs.
    pub fn status(&self) -> (s: Option<State>)
        ensures
            s == self.spec_status(),
    {
        State::from_code(self.rax)
    }
}

/// A register context: what has to be saved of the register file so that
/// execution can later go on from the same point.
pub trait Transfer: Sized {
    /// The context that a transfer away from `cpu` stores.
    spec fn saved(cpu: Registers) -> Self;

    /// The register file after this context was loaded over `cpu` and `status`
    /// was left in the accumulator.
    spec fn loaded(self, cpu: Registers, status: State) -> Registers;

    /// The saved stack pointer.
    spec fn saved_rsp(self) -> u64;

    /// The context of a task that has not been prepared yet: every field
    /// cleared.
    fn cleared() -> (ctx: Self)
        ensures
            ctx == Self::saved(Registers::spec_zeroed()),
    ;

    /// Saves the running side into `from` and goes on from `to`.
    fn switch(cpu: &mut Registers, from: &mut Self, to: &Self) -> (status: State)
        ensures
            *final(from) == Self::saved(*old(cpu)),
            *final(cpu) == to.loaded(*old(cpu), State::Pending),
            status == State::Pending,
    ;

    /// Goes on from `ctx` and gives up the running side for good.
    fn restore(cpu: &mut Registers, ctx: &Self)
        ensures
            *final(cpu) == ctx.loaded(*old(cpu), State::Ready),
    ;

    /// What a load puts into the register file is what a save takes out, and
    /// the status is in the accumulator.
    proof fn lemma_load_then_save(ctx: Self, cpu: Registers, status: State)
        ensures
            Self::saved(ctx.loaded(cpu, status)) == ctx,
            ctx.loaded(cpu, status).spec_status() == Some(status),
    ;

    /// The saved stack pointer is the one of the register file.
    proof fn lemma_saved_rsp(cpu: Registers)
        ensures
            Self::saved(cpu).saved_rsp() == cpu.rsp,
    ;

    /// The context from which a task is resumed for the first time, for a
    /// stack that lies at `base` and holds the initial frame `frame`.
    spec fn spec_initial(frame: Frame, base: u64) -> Self;

    /// Writes the initial frame into a fresh stack and gives the context
    /// from which the first transfer into the task goes on.
    fn bootstrap(stack: &mut Vec<u8>, base: u64, payload: Payload, entry: u64) -> (ctx: Self)
        requires
            spec_frame_fits(base, old(stack)@.len()),
        ensures
            final(stack)@ == spec_written_frame(old(stack)@, base, payload, entry),
            ctx == Self::spec_initial(spec_frame(base, old(stack)@.len()), base),
    ;

    /// What the entry routine does first: it recovers the payload from the
    /// stack, 16 bytes above the stack pointer of the incoming context.
    fn entry_payload(&self, stack: &Vec<u8>, base: u64) -> (p: Payload)
        requires
            spec_offset(base, self.saved_rsp()) + FRAME_SIZE <= stack@.len(),
        ensures
            p == spec_payload_at(stack@, base, self.saved_rsp()),
    ;

    /// The initial context points at the entry slot of the frame.
    proof fn lemma_initial_rsp(frame: Frame, base: u64)
        ensures
            Self::spec_initial(frame, base).saved_rsp() == frame.rsp,
    ;
}

/// A transfer into a task and the transfer back leave the scheduler where it
/// was: whatever the task did to the register file meanwhile, the registers
/// that the scheduler's context holds are those from before, and the status
/// of the way back is in the accumulator.
pub proof fn lemma_round_trip<C: Transfer>(scheduler: Registers, work: Registers, status: State)
    ensures
        C::saved(C::saved(scheduler).loaded(work, status)) == C::saved(scheduler),
        C::saved(scheduler).loaded(work, status).spec_status() == Some(status),
{
    C::lemma_load_then_save(C::saved(scheduler), work, status);
}

} // verus!
