use rvkernel::process::{ExecutionContext, Process};
use rvkernel::sbi::{handle_system_reset, Machine, FINISHER_PASS};
use rvkernel::sched::{
    Scheduler, Trap, CLOCK_MONOTONIC, STDOUT, SYSCALL_CLOCK_GETTIME, SYSCALL_EXIT,
    SYSCALL_SCHED_YIELD, SYSCALL_WRITE,
};
use rvkernel::vm::{AddressSpace, VmFlags, VmMode, PAGE_SIZE};

fn context(satp: u64) -> ExecutionContext {
    ExecutionContext {
        pc: 0x10000,
        sp: 0,
        a0: 0,
        a1: 0,
        a2: 0,
        a3: 0,
        a4: 0,
        a5: 0,
        a6: 0,
        a7: 0,
        satp,
    }
}

/// A process owning one user page at `va` holding `data`, read+write.
fn process_with_page(root: u64, va: u64, data: &[u8]) -> Process {
    let mut space = AddressSpace::new(VmMode::Sv39, root, 0);
    let mut page = data.to_vec();
    page.resize(PAGE_SIZE as usize, 0);
    space.map(va / PAGE_SIZE, 1, page, VmFlags::build(true, true, false, true, false));
    Process { context: context(VmMode::Sv39.encode_satp(root)), address_space: space }
}

#[test]
fn write_then_exit_scenario() {
    // one embedded app: WRITE(stdout, "hi\n", 3), then EXIT
    let buf = 2 * PAGE_SIZE;
    let mut p = process_with_page(1, buf, b"hi\n");
    p.context.a7 = SYSCALL_WRITE;
    p.context.a0 = STDOUT;
    p.context.a1 = buf;
    p.context.a2 = 3;
    let pc0 = p.context.pc;

    let mut sched = Scheduler::new();
    sched.processes.push(p);
    sched.handle_trap(Trap::UserEnvCall, 0);

    // the console shows exactly one timestamped line
    assert_eq!(sched.console.out, b"[    0 ms] hi\n".to_vec());
    assert!(sched.console.line_start);
    // the call returned its count and the pc moved past the call
    assert_eq!(sched.processes[0].context.a0, 3);
    assert_eq!(sched.processes[0].context.pc, pc0 + 4);

    // now the app exits: the run queue empties and the reset follows
    sched.processes[0].context.a7 = SYSCALL_EXIT;
    sched.handle_trap(Trap::UserEnvCall, 0);
    assert!(sched.processes.is_empty());
    let mut m = Machine {
        uart_tx: Vec::new(),
        uart_rx: None,
        mtimecmp: 0,
        timer_pending: false,
        finisher: None,
    };
    handle_system_reset(&mut m, 0, 0);
    assert_eq!(m.finisher, Some(FINISHER_PASS));
}

#[test]
fn clock_gettime_writes_the_sampled_time() {
    // the app hands CLOCK_GETTIME a writable buffer in its own space
    let tp = 3 * PAGE_SIZE;
    let mut p = process_with_page(1, tp, b"");
    p.context.a7 = SYSCALL_CLOCK_GETTIME;
    p.context.a0 = CLOCK_MONOTONIC;
    p.context.a1 = tp;

    let now_ns: u64 = 1_234_567_890_123;
    let mut sched = Scheduler::new();
    sched.processes.push(p);
    sched.handle_trap(Trap::UserEnvCall, now_ns);

    assert_eq!(sched.processes[0].context.a0, 0);
    let readable = VmFlags::build(true, false, false, false, false);
    let bytes = sched.processes[0].address_space.read_bytes(tp, 16, readable).unwrap();
    let sec = u64::from_le_bytes(bytes[0..8].try_into().unwrap());
    let nsec = u64::from_le_bytes(bytes[8..16].try_into().unwrap());
    // the pair combines to the monotonic time sampled at dispatch
    assert_eq!(sec * 1_000_000_000 + nsec, now_ns);
    assert_eq!(sec, 1234);
    assert_eq!(nsec, 567_890_123);
}

#[test]
fn clock_gettime_rejects_other_clocks_and_bad_pointers() {
    let tp = 3 * PAGE_SIZE;
    let mut p = process_with_page(1, tp, b"");
    p.context.a7 = SYSCALL_CLOCK_GETTIME;
    p.context.a0 = 7; // not the monotonic clock
    p.context.a1 = tp;
    let mut sched = Scheduler::new();
    sched.processes.push(p);
    sched.handle_trap(Trap::UserEnvCall, 5);
    assert_eq!(sched.processes[0].context.a0, u64::MAX);

    // an unmapped pointer fails translation
    sched.processes[0].context.a7 = SYSCALL_CLOCK_GETTIME;
    sched.processes[0].context.a0 = CLOCK_MONOTONIC;
    sched.processes[0].context.a1 = 100 * PAGE_SIZE;
    sched.handle_trap(Trap::UserEnvCall, 5);
    assert_eq!(sched.processes[0].context.a0, u64::MAX);
}

#[test]
fn write_rejects_bad_fd_and_unreadable_buffer() {
    let buf = 2 * PAGE_SIZE;
    let mut p = process_with_page(1, buf, b"hi\n");
    p.context.a7 = SYSCALL_WRITE;
    p.context.a0 = 9; // unsupported stream
    p.context.a1 = buf;
    p.context.a2 = 3;
    let mut sched = Scheduler::new();
    sched.processes.push(p);
    sched.handle_trap(Trap::UserEnvCall, 0);
    assert_eq!(sched.processes[0].context.a0, u64::MAX);
    assert!(sched.console.out.is_empty());

    // a pointer outside the mapped pages fails translation
    sched.processes[0].context.a7 = SYSCALL_WRITE;
    sched.processes[0].context.a0 = STDOUT;
    sched.processes[0].context.a1 = 50 * PAGE_SIZE;
    sched.handle_trap(Trap::UserEnvCall, 0);
    assert_eq!(sched.processes[0].context.a0, u64::MAX);
    assert!(sched.console.out.is_empty());
}

#[test]
fn yield_is_a_no_op_returning_zero() {
    let mut p = process_with_page(1, 2 * PAGE_SIZE, b"");
    p.context.a7 = SYSCALL_SCHED_YIELD;
    p.context.a0 = 55;
    let pc0 = p.context.pc;
    let mut sched = Scheduler::new();
    sched.processes.push(p);
    sched.handle_trap(Trap::UserEnvCall, 0);
    assert_eq!(sched.processes.len(), 1);
    assert_eq!(sched.processes[0].context.a0, 0);
    assert_eq!(sched.processes[0].context.pc, pc0 + 4);
}

#[test]
fn exit_removes_only_the_head_in_order() {
    let mut p1 = process_with_page(1, 2 * PAGE_SIZE, b"");
    p1.context.a7 = SYSCALL_EXIT;
    let mut p2 = process_with_page(2, 4 * PAGE_SIZE, b"");
    p2.context.pc = 0x4444;
    let mut p3 = process_with_page(3, 6 * PAGE_SIZE, b"");
    p3.context.pc = 0x6666;
    let mut sched = Scheduler::new();
    sched.processes.push(p1);
    sched.processes.push(p2);
    sched.processes.push(p3);
    sched.handle_trap(Trap::UserEnvCall, 0);
    // the queue lost exactly its head; the remaining order is unchanged
    assert_eq!(sched.processes.len(), 2);
    assert_eq!(sched.processes[0].context.pc, 0x4444);
    assert_eq!(sched.processes[1].context.pc, 0x6666);
}

#[test]
fn unsupported_syscall_removes_only_the_head() {
    let mut p1 = process_with_page(1, 2 * PAGE_SIZE, b"");
    p1.context.a7 = 777; // no such syscall
    let mut p2 = process_with_page(2, 4 * PAGE_SIZE, b"X");
    p2.context.pc = 0x4444;
    p2.context.a0 = 11;
    let mut sched = Scheduler::new();
    sched.processes.push(p1);
    sched.processes.push(p2);
    sched.handle_trap(Trap::UserEnvCall, 0);
    assert_eq!(sched.processes.len(), 1);
    // the surviving process is untouched
    assert_eq!(sched.processes[0].context.pc, 0x4444);
    assert_eq!(sched.processes[0].context.a0, 11);
    assert!(sched.console.out.is_empty());
}

#[test]
fn non_ecall_trap_retires_the_head() {
    let p = process_with_page(1, 2 * PAGE_SIZE, b"");
    let mut sched = Scheduler::new();
    sched.processes.push(p);
    // a store page fault, for example
    sched.handle_trap(Trap::Other { cause: 15, stval: 0xdead }, 0);
    assert!(sched.processes.is_empty());
}

#[test]
fn second_app_runs_in_its_own_space_after_first_exits() {
    // two apps loaded; app 1 maps a page app 2 does not have
    let private_va = 5 * PAGE_SIZE;
    let mut p1 = process_with_page(1, private_va, b"secret");
    p1.context.a7 = SYSCALL_EXIT;
    let p2 = process_with_page(2, 8 * PAGE_SIZE, b"");
    let p2_entry = p2.context.pc;
    let p2_satp = p2.context.satp;

    let readable = VmFlags::build(true, false, false, false, false);
    assert!(p1.address_space.translate(private_va, readable).is_some());

    let mut sched = Scheduler::new();
    sched.processes.push(p1);
    sched.processes.push(p2);
    sched.handle_trap(Trap::UserEnvCall, 0);

    // app 2 is now the head, with its own entry and its own root token
    assert_eq!(sched.processes.len(), 1);
    assert_eq!(sched.processes[0].context.pc, p2_entry);
    assert_eq!(sched.processes[0].context.satp, p2_satp);
    assert_eq!(sched.processes[0].context.satp, (8u64 << 60) | 2);
    // the address mapped only in app 1's space fails translation in app 2's
    assert!(sched.processes[0].address_space.translate(private_va, readable).is_none());
}

#[test]
fn clock_gettime_uses_the_word_width_of_the_mode() {
    // under the 32-bit mode the pair is two 4-byte words
    let tp = 3 * PAGE_SIZE;
    let mut space = AddressSpace::new(VmMode::Sv32, 4, 0);
    space.map(
        tp / PAGE_SIZE,
        1,
        vec![0u8; PAGE_SIZE as usize],
        VmFlags::build(true, true, false, true, false),
    );
    let mut ctx = context(VmMode::Sv32.encode_satp(4));
    ctx.a7 = SYSCALL_CLOCK_GETTIME;
    ctx.a0 = CLOCK_MONOTONIC;
    ctx.a1 = tp;
    let now_ns: u64 = 3_456_789_012;
    let mut sched = Scheduler::new();
    sched.processes.push(Process { context: ctx, address_space: space });
    sched.handle_trap(Trap::UserEnvCall, now_ns);
    assert_eq!(sched.processes[0].context.a0, 0);
    let readable = VmFlags::build(true, false, false, false, false);
    let bytes = sched.processes[0].address_space.read_bytes(tp, 8, readable).unwrap();
    let sec = u32::from_le_bytes(bytes[0..4].try_into().unwrap());
    let nsec = u32::from_le_bytes(bytes[4..8].try_into().unwrap());
    assert_eq!(sec, 3);
    assert_eq!(nsec, 456_789_012);
}
