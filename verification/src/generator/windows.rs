//! The context of the Windows x64 calling convention: the stack pointer, the
//! eight callee-saved general-purpose registers, the ten callee-saved vector
//! registers and the bounds of the executing stack.

use vstd::prelude::*;
use crate::registers::{Registers, Transfer};
use crate::stack::{
    read_payload, spec_frame, spec_frame_fits, spec_offset, spec_payload_at, spec_written_frame,
    write_frame,
    Frame, Payload, FRAME_SIZE,
};
use crate::state::State;

verus! {

/// The registers that the Windows x64 convention makes a callee preserve,
/// and the stack bounds that have to follow execution from stack to stack.
#[derive(Clone, Copy, Debug)]
pub struct Context {
    pub xmm6: [u64; 2],
    pub xmm7: [u64; 2],
    pub xmm8: [u64; 2],
    pub xmm9: [u64; 2],
    pub xmm10: [u64; 2],
    pub xmm11: [u64; 2],
    pub xmm12: [u64; 2],
    pub xmm13: [u64; 2],
    pub xmm14: [u64; 2],
    pub xmm15: [u64; 2],
    pub rsp: u64,
    pub r15: u64,
    pub r14: u64,
    pub r13: u64,
    pub r12: u64,
    pub rbx: u64,
    pub rbp: u64,
    pub rdi: u64,
    pub rsi: u64,
    /// Highest address of the stack that this context runs on.
    pub stack_start: u64,
    /// Lowest address of the stack that this context runs on.
    pub stack_end: u64,
}

/// Loads `ctx`, the stack bounds included, and leaves the `Ready` tag in the
/// accumulator: the one-way transfer of a task that is finished. No other
/// register changes.
pub fn context_restore(cpu: &mut Registers, ctx: &Context)
    ensures
        *final(cpu) == ctx.loaded(*old(cpu), State::Ready),
{
    cpu.xmm6 = ctx.xmm6;
    cpu.xmm7 = ctx.xmm7;
    cpu.xmm8 = ctx.xmm8;
    cpu.xmm9 = ctx.xmm9;
    cpu.xmm10 = ctx.xmm10;
    cpu.xmm11 = ctx.xmm11;
    cpu.xmm12 = ctx.xmm12;
    cpu.xmm13 = ctx.xmm13;
    cpu.xmm14 = ctx.xmm14;
    cpu.xmm15 = ctx.xmm15;
    cpu.rsp = ctx.rsp;
    cpu.r15 = ctx.r15;
    cpu.r14 = ctx.r14;
    cpu.r13 = ctx.r13;
    cpu.r12 = ctx.r12;
    cpu.rbx = ctx.rbx;
    cpu.rbp = ctx.rbp;
    cpu.rdi = ctx.rdi;
    cpu.rsi = ctx.rsi;
    cpu.stack_start = ctx.stack_start;
    cpu.stack_end = ctx.stack_end;
    cpu.rax = State::Ready.code();
}

/// Saves the vector registers, the general-purpose registers and the stack
/// bounds of the running side into `old_ctx`, loads them from `new_ctx` and
/// leaves the `Pending` tag in the accumulator.
pub fn context_switch(cpu: &mut Registers, old_ctx: &mut Context, new_ctx: &Context) -> (status:
    State)
    ensures
        *final(old_ctx) == Context::saved(*old(cpu)),
        *final(cpu) == new_ctx.loaded(*old(cpu), State::Pending),
        status == State::Pending,
{
    old_ctx.xmm6 = cpu.xmm6;
    old_ctx.xmm7 = cpu.xmm7;
    old_ctx.xmm8 = cpu.xmm8;
    old_ctx.xmm9 = cpu.xmm9;
    old_ctx.xmm10 = cpu.xmm10;
    old_ctx.xmm11 = cpu.xmm11;
    old_ctx.xmm12 = cpu.xmm12;
    old_ctx.xmm13 = cpu.xmm13;
    old_ctx.xmm14 = cpu.xmm14;
    old_ctx.xmm15 = cpu.xmm15;
    old_ctx.rsp = cpu.rsp;
    old_ctx.r15 = cpu.r15;
    old_ctx.r14 = cpu.r14;
    old_ctx.r13 = cpu.r13;
    old_ctx.r12 = cpu.r12;
    old_ctx.rbx = cpu.rbx;
    old_ctx.rbp = cpu.rbp;
    old_ctx.rdi = cpu.rdi;
    old_ctx.rsi = cpu.rsi;
    old_ctx.stack_start = cpu.stack_start;
    old_ctx.stack_end = cpu.stack_end;
    cpu.xmm6 = new_ctx.xmm6;
    cpu.xmm7 = new_ctx.xmm7;
    cpu.xmm8 = new_ctx.xmm8;
    cpu.xmm9 = new_ctx.xmm9;
    cpu.xmm10 = new_ctx.xmm10;
    cpu.xmm11 = new_ctx.xmm11;
    cpu.xmm12 = new_ctx.xmm12;
    cpu.xmm13 = new_ctx.xmm13;
    cpu.xmm14 = new_ctx.xmm14;
    cpu.xmm15 = new_ctx.xmm15;
    cpu.rsp = new_ctx.rsp;
    cpu.r15 = new_ctx.r15;
    cpu.r14 = new_ctx.r14;
    cpu.r13 = new_ctx.r13;
    cpu.r12 = new_ctx.r12;
    cpu.rbx = new_ctx.rbx;
    cpu.rbp = new_ctx.rbp;
    cpu.rdi = new_ctx.rdi;
    cpu.rsi = new_ctx.rsi;
    cpu.stack_start = new_ctx.stack_start;
    cpu.stack_end = new_ctx.stack_end;
    cpu.rax = State::Pending.code();
    State::Pending
}

/// Writes the initial frame into a fresh stack that lies at `base`. The
/// context that is returned has the stack pointer at the entry slot, the
/// stack bounds at the aligned top and at `base`, and every other register
/// cleared.
pub fn initialize_stack(stack: &mut Vec<u8>, base: u64, payload: Payload, entry: u64) -> (ctx:
    Context)
    requires
        spec_frame_fits(base, old(stack)@.len()),
    ensures
        final(stack)@ == spec_written_frame(old(stack)@, base, payload, entry),
        ctx == Context::spec_initial(spec_frame(base, old(stack)@.len()), base),
{
    let f = write_frame(stack, base, payload, entry);
    Context {
        xmm6: [0, 0],
        xmm7: [0, 0],
        xmm8: [0, 0],
        xmm9: [0, 0],
        xmm10: [0, 0],
        xmm11: [0, 0],
        xmm12: [0, 0],
        xmm13: [0, 0],
        xmm14: [0, 0],
        xmm15: [0, 0],
        rsp: f.rsp,
        r15: 0,
        r14: 0,
        r13: 0,
        r12: 0,
        rbx: 0,
        rbp: 0,
        rdi: 0,
        rsi: 0,
        stack_start: f.top,
        stack_end: base,
    }
}

/// The first thing that runs on a fresh stack: recovers the payload that
/// lies 16 bytes above the stack pointer of the incoming context.
pub fn initialize_code(new_ctx: &Context, stack: &Vec<u8>, base: u64) -> (p: Payload)
    requires
        spec_offset(base, new_ctx.rsp) + FRAME_SIZE <= stack@.len(),
    ensures
        p == spec_payload_at(stack@, base, new_ctx.rsp),
{
    read_payload(stack, base, new_ctx.rsp)
}

impl Transfer for Context {
    open spec fn saved(cpu: Registers) -> Context {
        Context {
            xmm6: cpu.xmm6,
            xmm7: cpu.xmm7,
            xmm8: cpu.xmm8,
            xmm9: cpu.xmm9,
            xmm10: cpu.xmm10,
            xmm11: cpu.xmm11,
            xmm12: cpu.xmm12,
            xmm13: cpu.xmm13,
            xmm14: cpu.xmm14,
            xmm15: cpu.xmm15,
            rsp: cpu.rsp,
            r15: cpu.r15,
            r14: cpu.r14,
            r13: cpu.r13,
            r12: cpu.r12,
            rbx: cpu.rbx,
            rbp: cpu.rbp,
            rdi: cpu.rdi,
            rsi: cpu.rsi,
            stack_start: cpu.stack_start,
            stack_end: cpu.stack_end,
        }
    }

    open spec fn loaded(self, cpu: Registers, status: State) -> Registers {
        Registers {
            rax: status.spec_code(),
            xmm6: self.xmm6,
            xmm7: self.xmm7,
            xmm8: self.xmm8,
            xmm9: self.xmm9,
            xmm10: self.xmm10,
            xmm11: self.xmm11,
            xmm12: self.xmm12,
            xmm13: self.xmm13,
            xmm14: self.xmm14,
            xmm15: self.xmm15,
            rsp: self.rsp,
            r15: self.r15,
            r14: self.r14,
            r13: self.r13,
            r12: self.r12,
            rbx: self.rbx,
            rbp: self.rbp,
            rdi: self.rdi,
            rsi: self.rsi,
            stack_start: self.stack_start,
            stack_end: self.stack_end,
        }
    }

    open spec fn saved_rsp(self) -> u64 {
        self.rsp
    }

    fn cleared() -> (ctx: Context) {
        Context {
            xmm6: [0, 0],
            xmm7: [0, 0],
            xmm8: [0, 0],
            xmm9: [0, 0],
            xmm10: [0, 0],
            xmm11: [0, 0],
            xmm12: [0, 0],
            xmm13: [0, 0],
            xmm14: [0, 0],
            xmm15: [0, 0],
            rsp: 0,
            r15: 0,
            r14: 0,
            r13: 0,
            r12: 0,
            rbx: 0,
            rbp: 0,
            rdi: 0,
            rsi: 0,
            stack_start: 0,
            stack_end: 0,
        }
    }

    fn switch(cpu: &mut Registers, from: &mut Context, to: &Context) -> (status: State) {
        context_switch(cpu, from, to)
    }

    fn restore(cpu: &mut Registers, ctx: &Context) {
        context_restore(cpu, ctx)
    }

    proof fn lemma_load_then_save(ctx: Context, cpu: Registers, status: State) {
    }

    proof fn lemma_saved_rsp(cpu: Registers) {
    }

    open spec fn spec_initial(frame: Frame, base: u64) -> Context {
        Context {
            xmm6: [0, 0],
            xmm7: [0, 0],
            xmm8: [0, 0],
            xmm9: [0, 0],
            xmm10: [0, 0],
            xmm11: [0, 0],
            xmm12: [0, 0],
            xmm13: [0, 0],
            xmm14: [0, 0],
            xmm15: [0, 0],
            rsp: frame.rsp,
            r15: 0,
            r14: 0,
            r13: 0,
            r12: 0,
            rbx: 0,
            rbp: 0,
            rdi: 0,
            rsi: 0,
            stack_start: frame.top,
            stack_end: base,
        }
    }

    fn bootstrap(stack: &mut Vec<u8>, base: u64, payload: Payload, entry: u64) -> (ctx: Context) {
        initialize_stack(stack, base, payload, entry)
    }

    fn entry_payload(&self, stack: &Vec<u8>, base: u64) -> (p: Payload) {
        initialize_code(self, stack, base)
    }

    proof fn lemma_initial_rsp(frame: Frame, base: u64) {
    }
}

} // verus!
