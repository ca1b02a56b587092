use coroutine_runtime::generator::linux;
use coroutine_runtime::generator::windows;
use coroutine_runtime::generator::{Generator, Phase};
use coroutine_runtime::registers::{Registers, Transfer};
use coroutine_runtime::stack::{frame, Payload};
use coroutine_runtime::state::State;

const PAYLOAD: Payload = Payload { data: 0x1000_2000_3000_4000, vtable: 0x5000_6000_7000_8000 };
const ENTRY: u64 = 0x40_1000;

fn scheduler_registers() -> Registers {
    let mut cpu = Registers::zeroed();
    cpu.rsp = 0x7ffd_0000_1000;
    cpu.rbp = 0x7ffd_0000_1040;
    cpu.rbx = 3;
    cpu.r12 = 12;
    cpu.r13 = 13;
    cpu.r14 = 14;
    cpu.r15 = 15;
    cpu
}

#[test]
fn new_task_is_suspended_alive_and_keeps_its_id() {
    let g: Generator<linux::Context> = Generator::new(7, 4096, PAYLOAD, ENTRY);
    assert_eq!(g.id(), 7);
    assert_eq!(g.phase(), Phase::Suspended);
    assert!(!g.is_done());
    assert!(!g.is_cancelled());
    assert!(!g.has_entered());
}

#[test]
fn stack_size_is_rounded_up_to_a_power_of_two() {
    let g: Generator<linux::Context> = Generator::new(0, 5000, PAYLOAD, ENTRY);
    assert_eq!(g.stack().len(), 8192);
    let g: Generator<linux::Context> = Generator::new(0, 4096, PAYLOAD, ENTRY);
    assert_eq!(g.stack().len(), 4096);
    let g: Generator<linux::Context> = Generator::new(0, 65, PAYLOAD, ENTRY);
    assert_eq!(g.stack().len(), 128);
}

#[test]
fn base_is_the_address_of_the_stack_buffer() {
    let g: Generator<linux::Context> = Generator::new(0, 1024, PAYLOAD, ENTRY);
    assert_eq!(g.base(), g.stack().as_ptr() as u64);
    assert_ne!(g.base(), 0);
}

#[test]
fn new_task_holds_the_initial_frame() {
    let g: Generator<linux::Context> = Generator::new(1, 1024, PAYLOAD, ENTRY);
    let f = frame(g.base(), 1024).unwrap();
    assert_eq!(g.context().rsp, f.rsp);
    assert_eq!(g.context().rsp % 16, 0);
    assert_eq!(g.context().rbp, 0);
    let at = (f.rsp - g.base()) as usize;
    assert_eq!(g.stack()[at..at + 8], ENTRY.to_le_bytes());
    assert_eq!(g.stack()[at + 16..at + 24], PAYLOAD.data.to_le_bytes());
    assert_eq!(g.stack()[at + 24..at + 32], PAYLOAD.vtable.to_le_bytes());
    assert!(g.stack()[..at].iter().all(|b| *b == 0));
}

#[test]
fn new_task_on_windows_records_its_stack_bounds() {
    let g: Generator<windows::Context> = Generator::new(1, 2048, PAYLOAD, ENTRY);
    let f = frame(g.base(), 2048).unwrap();
    assert_eq!(g.phase(), Phase::Suspended);
    assert_eq!(g.context().rsp, f.rsp);
    assert_eq!(g.context().stack_start, f.top);
    assert_eq!(g.context().stack_end, g.base());
}

#[test]
fn stack_without_room_for_the_frame_leaves_the_task_unprepared() {
    let g: Generator<linux::Context> = Generator::new(3, 16, PAYLOAD, ENTRY);
    assert_eq!(g.stack().len(), 16);
    assert_eq!(g.phase(), Phase::Unprepared);
    assert!(g.stack().iter().all(|b| *b == 0));
    assert_eq!(g.context().rsp, 0);
    let g: Generator<linux::Context> = Generator::new(3, 0, PAYLOAD, ENTRY);
    assert_eq!(g.stack().len(), 1);
    assert_eq!(g.phase(), Phase::Unprepared);
}

#[test]
fn resume_saves_the_caller_and_loads_the_task() {
    let mut g: Generator<linux::Context> = Generator::new(0, 1024, PAYLOAD, ENTRY);
    let initial = *g.context();
    let mut cpu = scheduler_registers();
    let mut root = <linux::Context as Transfer>::cleared();
    g.resume(&mut cpu, &mut root);
    assert_eq!(g.phase(), Phase::Running);
    assert_eq!(root.rsp, 0x7ffd_0000_1000);
    assert_eq!(root.rbp, 0x7ffd_0000_1040);
    assert_eq!(root.r15, 15);
    assert_eq!(cpu.rsp, initial.rsp);
    assert_eq!(cpu.rbx, 0);
    assert_eq!(cpu.status(), Some(State::Pending));
}

#[test]
fn payload_is_handed_out_exactly_once() {
    let mut g: Generator<linux::Context> = Generator::new(0, 1024, PAYLOAD, ENTRY);
    // Not before the task runs.
    assert_eq!(g.enter(), None);
    assert!(!g.has_entered());
    let mut cpu = scheduler_registers();
    let mut root = <linux::Context as Transfer>::cleared();
    g.resume(&mut cpu, &mut root);
    assert_eq!(g.enter(), Some(PAYLOAD));
    assert!(g.has_entered());
    assert_eq!(g.enter(), None);
    g.suspend(&mut cpu, &root);
    assert_eq!(g.enter(), None);
    g.resume(&mut cpu, &mut root);
    assert_eq!(g.enter(), None);
    g.complete(&mut cpu, &root);
    assert_eq!(g.enter(), None);
}

#[test]
fn suspend_and_resume_go_on_where_the_task_stopped() {
    let mut g: Generator<linux::Context> = Generator::new(0, 1024, PAYLOAD, ENTRY);
    let scheduler = scheduler_registers();
    let mut cpu = scheduler;
    let mut root = <linux::Context as Transfer>::cleared();
    g.resume(&mut cpu, &mut root);
    assert_eq!(g.enter(), Some(PAYLOAD));
    // The task works: it moves its stack pointer and uses callee-saved registers.
    cpu.rsp -= 0x80;
    cpu.rbx = 0xb;
    cpu.r12 = 0xc;
    let at_yield = cpu;
    g.suspend(&mut cpu, &root);
    assert_eq!(g.phase(), Phase::Suspended);
    assert_eq!(cpu.status(), Some(State::Pending));
    assert_eq!(cpu.rsp, scheduler.rsp);
    assert_eq!(cpu.rbx, scheduler.rbx);
    assert_eq!(cpu.r12, scheduler.r12);
    assert_eq!(g.context().rsp, at_yield.rsp);
    assert_eq!(g.context().rbx, 0xb);
    // The scheduler goes on and resumes the task later.
    cpu.rbx = 99;
    g.resume(&mut cpu, &mut root);
    assert_eq!(root.rbx, 99);
    assert_eq!(cpu.rsp, at_yield.rsp);
    assert_eq!(cpu.rbx, 0xb);
    assert_eq!(cpu.r12, 0xc);
    assert!(!g.is_cancelled());
}

#[test]
fn complete_gives_the_ready_tag_and_ends_the_task() {
    let mut g: Generator<linux::Context> = Generator::new(0, 1024, PAYLOAD, ENTRY);
    let scheduler = scheduler_registers();
    let mut cpu = scheduler;
    let mut root = <linux::Context as Transfer>::cleared();
    g.resume(&mut cpu, &mut root);
    g.enter();
    cpu.rsp -= 0x20;
    g.complete(&mut cpu, &root);
    assert!(g.is_done());
    assert_eq!(g.phase(), Phase::Done);
    assert_eq!(cpu.status(), Some(State::Ready));
    assert_eq!(cpu.rsp, scheduler.rsp);
    assert_eq!(cpu.rbp, scheduler.rbp);
}

#[test]
fn cancel_clears_the_flag_and_resumes_once_more() {
    let mut g: Generator<linux::Context> = Generator::new(0, 1024, PAYLOAD, ENTRY);
    let scheduler = scheduler_registers();
    let mut cpu = scheduler;
    let mut root = <linux::Context as Transfer>::cleared();
    g.resume(&mut cpu, &mut root);
    g.enter();
    cpu.rsp -= 0x40;
    let at_yield = cpu;
    g.suspend(&mut cpu, &root);
    assert!(!g.is_cancelled());
    g.cancel(&mut cpu, &mut root);
    // The task runs again, at its suspension point, and finds the flag cleared.
    assert_eq!(g.phase(), Phase::Running);
    assert!(g.is_cancelled());
    assert_eq!(cpu.rsp, at_yield.rsp);
    assert_eq!(root.rsp, scheduler.rsp);
    // It unwinds and gives control back for good.
    g.complete(&mut cpu, &root);
    assert!(g.is_done());
    assert!(g.is_cancelled());
    assert_eq!(cpu.status(), Some(State::Ready));
    assert_eq!(cpu.rsp, scheduler.rsp);
}

#[test]
fn windows_task_carries_its_stack_bounds_across_transfers() {
    let mut g: Generator<windows::Context> = Generator::new(0, 4096, PAYLOAD, ENTRY);
    let f = frame(g.base(), 4096).unwrap();
    let mut cpu = scheduler_registers();
    cpu.stack_start = 0x7ffd_0001_0000;
    cpu.stack_end = 0x7ffd_0000_0000;
    cpu.xmm6 = [1, 2];
    let mut root = <windows::Context as Transfer>::cleared();
    g.resume(&mut cpu, &mut root);
    assert_eq!(cpu.stack_start, f.top);
    assert_eq!(cpu.stack_end, g.base());
    assert_eq!(cpu.xmm6, [0, 0]);
    assert_eq!(root.stack_start, 0x7ffd_0001_0000);
    assert_eq!(root.xmm6, [1, 2]);
    assert_eq!(g.enter(), Some(PAYLOAD));
    cpu.xmm6 = [7, 8];
    g.suspend(&mut cpu, &root);
    assert_eq!(cpu.stack_start, 0x7ffd_0001_0000);
    assert_eq!(cpu.stack_end, 0x7ffd_0000_0000);
    assert_eq!(cpu.xmm6, [1, 2]);
    assert_eq!(g.context().xmm6, [7, 8]);
    assert_eq!(g.context().stack_start, f.top);
}

#[test]
fn task_on_a_given_stack_has_its_frame_below_the_aligned_top() {
    let g: Generator<linux::Context> =
        Generator::on_stack(4, vec![0x11u8; 100], 0x5_0003, PAYLOAD, ENTRY);
    // The buffer ends at 0x50067: the aligned top is 0x50060.
    assert_eq!(g.id(), 4);
    assert_eq!(g.base(), 0x5_0003);
    assert_eq!(g.phase(), Phase::Suspended);
    assert_eq!(g.context().rsp, 0x5_0040);
    let at = 0x40 - 3;
    assert!(g.stack()[..at].iter().all(|b| *b == 0x11));
    assert_eq!(g.stack()[at..at + 8], ENTRY.to_le_bytes());
    assert!(g.stack()[at + 8..at + 16].iter().all(|b| *b == 0x11));
    assert_eq!(g.stack()[at + 16..at + 24], PAYLOAD.data.to_le_bytes());
    assert_eq!(g.stack()[at + 24..at + 32], PAYLOAD.vtable.to_le_bytes());
    assert!(g.stack()[at + 32..].iter().all(|b| *b == 0x11));
}

#[test]
fn task_on_a_stack_that_cannot_hold_the_frame_stays_unprepared() {
    // Too small.
    let g: Generator<linux::Context> = Generator::on_stack(0, vec![7u8; 31], 0x1000, PAYLOAD, ENTRY);
    assert_eq!(g.phase(), Phase::Unprepared);
    assert_eq!(g.stack(), &vec![7u8; 31]);
    assert_eq!(g.context().rsp, 0);
    // Large enough, but the aligned top leaves less than a frame.
    let g: Generator<linux::Context> = Generator::on_stack(0, vec![7u8; 46], 0x1001, PAYLOAD, ENTRY);
    assert_eq!(g.phase(), Phase::Unprepared);
    // Empty.
    let g: Generator<windows::Context> = Generator::on_stack(0, Vec::new(), 0x1000, PAYLOAD, ENTRY);
    assert_eq!(g.phase(), Phase::Unprepared);
    assert_eq!(g.context().stack_start, 0);
}

#[test]
fn task_on_the_smallest_stack_that_holds_the_frame() {
    let mut g: Generator<linux::Context> =
        Generator::on_stack(0, vec![0u8; 32], 0x1000, PAYLOAD, ENTRY);
    assert_eq!(g.phase(), Phase::Suspended);
    assert_eq!(g.context().rsp, 0x1000);
    let mut cpu = Registers::zeroed();
    let mut root = <linux::Context as Transfer>::cleared();
    g.resume(&mut cpu, &mut root);
    assert_eq!(g.enter(), Some(PAYLOAD));
}

#[test]
fn task_on_a_stack_at_the_end_of_the_address_space() {
    // The addresses of the frame are taken modulo the address space: the
    // aligned top lies 49 bytes above the base.
    let mut g: Generator<linux::Context> =
        Generator::on_stack(0, vec![7u8; 64], u64::MAX - 32, PAYLOAD, ENTRY);
    assert_eq!(g.phase(), Phase::Suspended);
    assert_eq!(g.context().rsp, 0xffff_ffff_ffff_fff0);
    assert_eq!(g.stack()[17..25], ENTRY.to_le_bytes());
    assert_eq!(g.stack()[33..41], PAYLOAD.data.to_le_bytes());
    assert_eq!(g.stack()[41..49], PAYLOAD.vtable.to_le_bytes());
    let mut cpu = Registers::zeroed();
    let mut root = <linux::Context as Transfer>::cleared();
    g.resume(&mut cpu, &mut root);
    assert_eq!(g.enter(), Some(PAYLOAD));
}

#[test]
fn a_request_for_more_than_a_frame_always_gives_a_task_that_can_run() {
    for size in [33usize, 40, 64, 100, 4096] {
        let g: Generator<windows::Context> = Generator::new(0, size, PAYLOAD, ENTRY);
        assert_eq!(g.phase(), Phase::Suspended);
        assert!(g.stack().len() >= 64);
    }
}

#[test]
fn a_task_that_is_done_stays_done() {
    let mut g: Generator<linux::Context> = Generator::new(0, 1024, PAYLOAD, ENTRY);
    let len = g.stack().len();
    let base = g.base();
    let mut cpu = scheduler_registers();
    let mut root = <linux::Context as Transfer>::cleared();
    g.resume(&mut cpu, &mut root);
    g.enter();
    g.complete(&mut cpu, &root);
    assert!(g.is_done());
    // What may still be asked of it changes nothing.
    assert_eq!(g.enter(), None);
    assert!(g.is_done());
    assert_eq!(g.phase(), Phase::Done);
    // The stack is the one that the task was made with.
    assert_eq!(g.stack().len(), len);
    assert_eq!(g.base(), base);
}
