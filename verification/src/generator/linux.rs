//! The context of the System V calling convention: the stack pointer and the
//! six callee-saved general-purpose registers.

use vstd::prelude::*;
use crate::registers::{Registers, Transfer};
use crate::stack::{
    read_payload, spec_frame, spec_frame_fits, spec_offset, spec_payload_at, spec_written_frame,
    write_frame,
    Frame, Payload, FRAME_SIZE,
};
use crate::state::State;

verus! {

/// The registers that the System V convention makes a callee preserve.
#[derive(Clone, Copy, Debug)]
pub struct Context {
    pub rsp: u64,
    pub r15: u64,
    pub r14: u64,
    pub r13: u64,
    pub r12: u64,
    pub rbx: u64,
    pub rbp: u64,
}

/// Loads `ctx` and leaves the `Ready` tag in the accumulator: the one-way
/// transfer of a task that is finished. No other register changes.
pub fn context_restore(cpu: &mut Registers, ctx: &Context)
    ensures
        *final(cpu) == ctx.loaded(*old(cpu), State::Ready),
{
    cpu.rsp = ctx.rsp;
    cpu.r15 = ctx.r15;
    cpu.r14 = ctx.r14;
    cpu.r13 = ctx.r13;
    cpu.r12 = ctx.r12;
    cpu.rbx = ctx.rbx;
    cpu.rbp = ctx.rbp;
    cpu.rax = State::Ready.code();
}

/// Saves the seven registers of the running side into `old_ctx`, loads them
/// from `new_ctx` and leaves the `Pending` tag in the accumulator.
pub fn context_switch(cpu: &mut Registers, old_ctx: &mut Context, new_ctx: &Context) -> (status:
    State)
    ensures
        *final(old_ctx) == Context::saved(*old(cpu)),
        *final(cpu) == new_ctx.loaded(*old(cpu), State::Pending),
        status == State::Pending,
{
    old_ctx.rsp = cpu.rsp;
    old_ctx.r15 = cpu.r15;
    old_ctx.r14 = cpu.r14;
    old_ctx.r13 = cpu.r13;
    old_ctx.r12 = cpu.r12;
    old_ctx.rbx = cpu.rbx;
    old_ctx.rbp = cpu.rbp;
    cpu.rsp = new_ctx.rsp;
    cpu.r15 = new_ctx.r15;
    cpu.r14 = new_ctx.r14;
    cpu.r13 = new_ctx.r13;
    cpu.r12 = new_ctx.r12;
    cpu.rbx = new_ctx.rbx;
    cpu.rbp = new_ctx.rbp;
    cpu.rax = State::Pending.code();
    State::Pending
}

/// Writes the initial frame into a fresh stack that lies at `base`. The
/// context that is returned has the stack pointer at the entry slot and
/// every other register cleared.
pub fn initialize_stack(stack: &mut Vec<u8>, base: u64, payload: Payload, entry: u64) -> (ctx:
    Context)
    requires
        spec_frame_fits(base, old(stack)@.len()),
    ensures
        final(stack)@ == spec_written_frame(old(stack)@, base, payload, entry),
        ctx == Context::spec_initial(spec_frame(base, old(stack)@.len()), base),
{
    let f = write_frame(stack, base, payload, entry);
    Context { rsp: f.rsp, r15: 0, r14: 0, r13: 0, r12: 0, rbx: 0, rbp: 0 }
}

/// The first thing that runs on a fresh stack: recovers the payload that
/// lies 16 bytes above the stack pointer of the incoming context.
pub fn initialize_code(new_ctx: &Context, stack: &Vec<u8>, base: u64) -> (p: Payload)
    requires
        spec_offset(base, new_ctx.rsp) + FRAME_SIZE <= stack@.len(),
    ensures
        p == spec_payload_at(stack@, base, new_ctx.rsp),
{
    read_payload(stack, base, new_ctx.rsp)
}

impl Transfer for Context {
    open spec fn saved(cpu: Registers) -> Context {
        Context {
            rsp: cpu.rsp,
            r15: cpu.r15,
            r14: cpu.r14,
            r13: cpu.r13,
            r12: cpu.r12,
            rbx: cpu.rbx,
            rbp: cpu.rbp,
        }
    }

    open spec fn loaded(self, cpu: Registers, status: State) -> Registers {
        Registers {
            rax: status.spec_code(),
            rsp: self.rsp,
            r15: self.r15,
            r14: self.r14,
            r13: self.r13,
            r12: self.r12,
            rbx: self.rbx,
            rbp: self.rbp,
            ..cpu
        }
    }

    open spec fn saved_rsp(self) -> u64 {
        self.rsp
    }

    fn cleared() -> (ctx: Context) {
        Context { rsp: 0, r15: 0, r14: 0, r13: 0, r12: 0, rbx: 0, rbp: 0 }
    }

    fn switch(cpu: &mut Registers, from: &mut Context, to: &Context) -> (status: State) {
        context_switch(cpu, from, to)
    }

    fn restore(cpu: &mut Registers, ctx: &Context) {
        context_restore(cpu, ctx)
    }

    proof fn lemma_load_then_save(ctx: Context, cpu: Registers, status: State) {
    }

    proof fn lemma_saved_rsp(cpu: Registers) {
    }

    open spec fn spec_initial(frame: Frame, base: u64) -> Context {
        Context { rsp: frame.rsp, r15: 0, r14: 0, r13: 0, r12: 0, rbx: 0, rbp: 0 }
    }

    fn bootstrap(stack: &mut Vec<u8>, base: u64, payload: Payload, entry: u64) -> (ctx: Context) {
        initialize_stack(stack, base, payload, entry)
    }

    fn entry_payload(&self, stack: &Vec<u8>, base: u64) -> (p: Payload) {
        initialize_code(self, stack, base)
    }

    proof fn lemma_initial_rsp(frame: Frame, base: u64) {
    }
}

} // verus!
