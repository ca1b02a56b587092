use coroutine_runtime::generator::linux;
use coroutine_runtime::generator::windows;
use coroutine_runtime::registers::{Registers, Transfer};
use coroutine_runtime::state::State;

fn sample_registers(seed: u64) -> Registers {
    let mut cpu = Registers::zeroed();
    cpu.rax = seed + 100;
    cpu.rsp = seed + 1;
    cpu.rbp = seed + 2;
    cpu.rbx = seed + 3;
    cpu.r12 = seed + 4;
    cpu.r13 = seed + 5;
    cpu.r14 = seed + 6;
    cpu.r15 = seed + 7;
    cpu.rdi = seed + 8;
    cpu.rsi = seed + 9;
    cpu.xmm6 = [seed + 10, seed + 11];
    cpu.xmm7 = [seed + 12, seed + 13];
    cpu.xmm8 = [seed + 14, seed + 15];
    cpu.xmm9 = [seed + 16, seed + 17];
    cpu.xmm10 = [seed + 18, seed + 19];
    cpu.xmm11 = [seed + 20, seed + 21];
    cpu.xmm12 = [seed + 22, seed + 23];
    cpu.xmm13 = [seed + 24, seed + 25];
    cpu.xmm14 = [seed + 26, seed + 27];
    cpu.xmm15 = [seed + 28, seed + 29];
    cpu.stack_start = seed + 30;
    cpu.stack_end = seed + 31;
    cpu
}

fn linux_fields(c: &linux::Context) -> [u64; 7] {
    [c.rsp, c.r15, c.r14, c.r13, c.r12, c.rbx, c.rbp]
}

fn windows_fields(c: &windows::Context) -> Vec<u64> {
    let mut v = Vec::new();
    for x in [c.xmm6, c.xmm7, c.xmm8, c.xmm9, c.xmm10, c.xmm11, c.xmm12, c.xmm13, c.xmm14, c.xmm15]
    {
        v.push(x[0]);
        v.push(x[1]);
    }
    v.extend([c.rsp, c.r15, c.r14, c.r13, c.r12, c.rbx, c.rbp, c.rdi, c.rsi]);
    v.extend([c.stack_start, c.stack_end]);
    v
}

#[test]
fn zeroed_registers_hold_the_pending_tag() {
    let cpu = Registers::zeroed();
    assert_eq!(cpu.rax, 0);
    assert_eq!(cpu.rsp, 0);
    assert_eq!(cpu.xmm15, [0, 0]);
    assert_eq!(cpu.status(), Some(State::Pending));
}

#[test]
fn status_is_read_from_the_accumulator() {
    let mut cpu = Registers::zeroed();
    cpu.rax = 1;
    assert_eq!(cpu.status(), Some(State::Ready));
    cpu.rax = 7;
    assert_eq!(cpu.status(), None);
}

#[test]
fn linux_switch_saves_seven_registers_and_loads_seven() {
    let mut cpu = sample_registers(1000);
    let mut old_ctx = <linux::Context as Transfer>::cleared();
    let new_ctx =
        linux::Context { rsp: 1, r15: 2, r14: 3, r13: 4, r12: 5, rbx: 6, rbp: 7 };
    let status = linux::context_switch(&mut cpu, &mut old_ctx, &new_ctx);
    assert_eq!(status, State::Pending);
    assert_eq!(linux_fields(&old_ctx), [1001, 1007, 1006, 1005, 1004, 1003, 1002]);
    assert_eq!(
        [cpu.rsp, cpu.r15, cpu.r14, cpu.r13, cpu.r12, cpu.rbx, cpu.rbp],
        [1, 2, 3, 4, 5, 6, 7]
    );
    assert_eq!(cpu.rax, 0);
    // What the convention does not make a callee preserve is left alone.
    assert_eq!(cpu.rdi, 1008);
    assert_eq!(cpu.rsi, 1009);
    assert_eq!(cpu.xmm6, [1010, 1011]);
    assert_eq!(cpu.xmm15, [1028, 1029]);
    assert_eq!(cpu.stack_start, 1030);
    assert_eq!(cpu.stack_end, 1031);
}

#[test]
fn linux_restore_loads_and_leaves_the_ready_tag() {
    let mut cpu = sample_registers(50);
    let ctx = linux::Context { rsp: 11, r15: 12, r14: 13, r13: 14, r12: 15, rbx: 16, rbp: 17 };
    linux::context_restore(&mut cpu, &ctx);
    assert_eq!(
        [cpu.rsp, cpu.r15, cpu.r14, cpu.r13, cpu.r12, cpu.rbx, cpu.rbp],
        [11, 12, 13, 14, 15, 16, 17]
    );
    assert_eq!(cpu.rax, 1);
    assert_eq!(cpu.status(), Some(State::Ready));
    assert_eq!(cpu.rdi, 58);
}

#[test]
fn windows_switch_saves_and_loads_vector_registers_and_stack_bounds() {
    let mut cpu = sample_registers(2000);
    let mut old_ctx = <windows::Context as Transfer>::cleared();
    let mut other = sample_registers(3000);
    let mut new_ctx = <windows::Context as Transfer>::cleared();
    let mut scratch = <windows::Context as Transfer>::cleared();
    // Capture a context from another register file to load it afterwards.
    windows::context_switch(&mut other, &mut new_ctx, &scratch);
    scratch = new_ctx;
    let status = windows::context_switch(&mut cpu, &mut old_ctx, &new_ctx);
    assert_eq!(status, State::Pending);
    let saved = windows_fields(&old_ctx);
    let expected: Vec<u64> = (2010..2030)
        .chain([2001, 2007, 2006, 2005, 2004, 2003, 2002, 2008, 2009])
        .chain([2030, 2031])
        .collect();
    assert_eq!(saved, expected);
    assert_eq!(windows_fields(&new_ctx), windows_fields(&scratch));
    assert_eq!(cpu.rsp, 3001);
    assert_eq!(cpu.rdi, 3008);
    assert_eq!(cpu.rsi, 3009);
    assert_eq!(cpu.xmm6, [3010, 3011]);
    assert_eq!(cpu.xmm15, [3028, 3029]);
    assert_eq!(cpu.stack_start, 3030);
    assert_eq!(cpu.stack_end, 3031);
    assert_eq!(cpu.rax, 0);
}

#[test]
fn windows_restore_loads_and_leaves_the_ready_tag() {
    let mut source = sample_registers(400);
    let mut ctx = <windows::Context as Transfer>::cleared();
    let cleared = <windows::Context as Transfer>::cleared();
    windows::context_switch(&mut source, &mut ctx, &cleared);
    let mut cpu = sample_registers(900);
    windows::context_restore(&mut cpu, &ctx);
    assert_eq!(cpu.rax, 1);
    assert_eq!(cpu.rsp, 401);
    assert_eq!(cpu.rbp, 402);
    assert_eq!(cpu.xmm10, [418, 419]);
    assert_eq!(cpu.stack_start, 430);
    assert_eq!(cpu.stack_end, 431);
}

#[test]
fn round_trip_brings_the_scheduler_back_on_linux() {
    let scheduler = sample_registers(10);
    let mut cpu = scheduler;
    let mut root = <linux::Context as Transfer>::cleared();
    let mut task = linux::Context { rsp: 0x9000, r15: 0, r14: 0, r13: 0, r12: 0, rbx: 0, rbp: 0 };
    <linux::Context as Transfer>::switch(&mut cpu, &mut root, &task);
    assert_eq!(cpu.rsp, 0x9000);
    // The task works and clobbers what it likes.
    cpu = sample_registers(7000);
    let before_yield = cpu;
    <linux::Context as Transfer>::switch(&mut cpu, &mut task, &root);
    assert_eq!(
        [cpu.rsp, cpu.r15, cpu.r14, cpu.r13, cpu.r12, cpu.rbx, cpu.rbp],
        [scheduler.rsp, scheduler.r15, scheduler.r14, scheduler.r13, scheduler.r12, scheduler.rbx,
            scheduler.rbp]
    );
    assert_eq!(cpu.status(), Some(State::Pending));
    assert_eq!(task.rsp, before_yield.rsp);
    assert_eq!(task.rbx, before_yield.rbx);
}

#[test]
fn cleared_contexts_are_all_zero() {
    let l = <linux::Context as Transfer>::cleared();
    assert_eq!(linux_fields(&l), [0; 7]);
    let w = <windows::Context as Transfer>::cleared();
    assert!(windows_fields(&w).iter().all(|x| *x == 0));
    assert_eq!(windows_fields(&w).len(), 31);
}

#[test]
fn initialize_stack_sets_the_stack_pointer_on_linux() {
    let mut stack = vec![0u8; 256];
    let payload = coroutine_runtime::stack::Payload { data: 5, vtable: 6 };
    let ctx = linux::initialize_stack(&mut stack, 0x10_0000, payload, 0x4242);
    assert_eq!(linux_fields(&ctx), [0x10_00e0, 0, 0, 0, 0, 0, 0]);
    assert_eq!(linux::initialize_code(&ctx, &stack, 0x10_0000), payload);
    assert_eq!(stack[0xe0..0xe8], 0x4242u64.to_le_bytes());
}

#[test]
fn initialize_stack_sets_the_stack_bounds_on_windows() {
    let mut stack = vec![0u8; 256];
    let payload = coroutine_runtime::stack::Payload { data: 9, vtable: 10 };
    let ctx = windows::initialize_stack(&mut stack, 0x20_0008, payload, 0x1234);
    // The region ends at 0x200108: the aligned top is 0x200100.
    assert_eq!(ctx.rsp, 0x20_00e0);
    assert_eq!(ctx.stack_start, 0x20_0100);
    assert_eq!(ctx.stack_end, 0x20_0008);
    assert_eq!(ctx.rbp, 0);
    assert_eq!(ctx.xmm6, [0, 0]);
    assert_eq!(windows::initialize_code(&ctx, &stack, 0x20_0008), payload);
}
