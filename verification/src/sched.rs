//! Cooperative scheduler and syscall dispatcher.
//!
//! A FIFO run queue of processes: the head runs through the portal until it
//! traps, then the trap cause decides. An environment call from user mode is
//! dispatched by syscall id; any other cause retires the head. The queue is
//! never permuted, only shortened from the head. The portal crossing itself
//! is outside work: callers run the head, write its trapped context back,
//! and hand the cause here.

use vstd::prelude::*;
use crate::console::{line_state, monotonic_time_ms, print_with_timestamp, stamped, Console};
use crate::process::{ExecutionContext, Process};
use crate::vm::{read_seq, AddressSpace, VmFlags, VmMode};

verus! {

/// Syscall id of WRITE.
pub const SYSCALL_WRITE: u64 = 64;
/// Syscall id of EXIT.
pub const SYSCALL_EXIT: u64 = 93;
/// Syscall id of SCHED_YIELD.
pub const SYSCALL_SCHED_YIELD: u64 = 124;
/// Syscall id of CLOCK_GETTIME.
pub const SYSCALL_CLOCK_GETTIME: u64 = 113;
/// File descriptor of standard output.
pub const STDOUT: u64 = 1;
/// File descriptor of the debug output stream.
pub const STDDEBUG: u64 = 2;
/// The monotonic clock id, the only one supported.
pub const CLOCK_MONOTONIC: u64 = 1;

/// The `w`-byte little-endian encoding of `v`.
pub open spec fn le_bytes(v: int, w: int) -> Seq<u8>
    decreases w,
{
    if w <= 0 {
        Seq::empty()
    } else {
        seq![(v % 256) as u8] + le_bytes(v / 256, w - 1)
    }
}

/// The bytes CLOCK_GETTIME stores: a {seconds, nanoseconds} pair of the
/// mode's word width, little-endian.
pub open spec fn timespec_bytes(mode: VmMode, ns: int) -> Seq<u8> {
    le_bytes(ns / 1_000_000_000, mode.word_bytes()) + le_bytes(
        ns % 1_000_000_000,
        mode.word_bytes(),
    )
}

/// The little-endian encoding has one byte per width unit.
pub proof fn lemma_le_bytes_len(v: int, w: int)
    ensures
        le_bytes(v, w).len() == if w >= 0 {
            w
        } else {
            0
        },
    decreases w,
{
    if w > 0 {
        lemma_le_bytes_len(v / 256, w - 1);
    }
}

/// The `w`-byte little-endian encoding of `v`, as a vector.
pub fn le_vec(v: u64, w: usize) -> (r: Vec<u8>)
    ensures
        r@ == le_bytes(v as int, w as int),
    decreases w,
{
    if w == 0 {
        let r: Vec<u8> = Vec::new();
        proof {
            assert(r@ =~= le_bytes(v as int, 0));
        }
        r
    } else {
        let mut r: Vec<u8> = Vec::new();
        r.push((v % 256) as u8);
        let mut rest = le_vec(v / 256, w - 1);
        r.append(&mut rest);
        proof {
            assert(r@ =~= le_bytes(v as int, w as int));
        }
        r
    }
}

/// The syscall implementations, registered once at startup: one function
/// per syscall family, selected by the enumerated id.
pub struct SyscallContext;

impl SyscallContext {
    /// WRITE: emit `count` bytes from the caller's buffer on a supported
    /// output stream, timestamping line starts, and return `count`; return
    /// −1 for an unsupported stream or an unreadable buffer.
    pub fn write(
        &self,
        space: &AddressSpace,
        con: &mut Console,
        fd: u64,
        buf: u64,
        count: u64,
        now_ms: u64,
    ) -> (r: i64)
        requires
            space.wf(),
        ensures
            ({
                let ok = (fd == STDOUT || fd == STDDEBUG) && count <= usize::MAX
                    && space.can_access(buf as int, count as int, VmFlags::readable_req());
                &&& ok ==> r == count as i64 && final(con).out@ == old(con).out@ + stamped(
                    read_seq(*space, buf as int, count as int),
                    now_ms as int,
                    old(con).line_start,
                ) && final(con).line_start == line_state(
                    read_seq(*space, buf as int, count as int),
                    old(con).line_start,
                )
                &&& !ok ==> r == -1 && final(con).out@ == old(con).out@ && final(con).line_start
                    == old(con).line_start
            }),
    {
        if !(fd == STDOUT || fd == STDDEBUG) {
            return -1;
        }
        if count > usize::MAX as u64 {
            return -1;
        }
        match space.read_bytes(buf, count as usize, VmFlags::build(true, false, false, false, false)) {
            Some(data) => {
                proof {
                    assert(data@ =~= read_seq(*space, buf as int, count as int));
                }
                print_with_timestamp(con, &data, now_ms);
                count as i64
            },
            None => -1,
        }
    }

    /// EXIT: no return value is delivered; the scheduler retires the caller.
    pub fn exit(&self, _status: u64) -> (r: i64)
        ensures
            r == 0,
    {
        0
    }

    /// SCHED_YIELD: a no-op — a single-process queue has nothing else ready.
    pub fn sched_yield(&self) -> (r: i64)
        ensures
            r == 0,
    {
        0
    }

    /// CLOCK_GETTIME: write the monotonic {seconds, nanoseconds} pair into
    /// the caller's buffer and return 0; return −1 for any other clock id or
    /// an unwritable buffer.
    pub fn clock_gettime(
        &self,
        space: &mut AddressSpace,
        clock_id: u64,
        tp: u64,
        now_ns: u64,
    ) -> (r: i64)
        requires
            old(space).wf(),
        ensures
            final(space).wf(),
            final(space).mode == old(space).mode,
            final(space).root_ppn == old(space).root_ppn,
            final(space).next_ppn == old(space).next_ppn,
            forall|p: int| final(space).mapped_at(p) == old(space).mapped_at(p),
            forall|p: int|
                old(space).mapped_at(p) ==> final(space).flags_at(p) == old(space).flags_at(p)
                    && final(space).ppn_at(p) == old(space).ppn_at(p),
            ({
                let w = old(space).mode.word_bytes();
                let ok = clock_id == CLOCK_MONOTONIC && old(space).can_access(
                    tp as int,
                    2 * w,
                    VmFlags::writable_req(),
                );
                &&& ok ==> r == 0 && (forall|k: int|
                    0 <= k < 2 * w ==> final(space).byte_at(tp + k) == Some(
                        timespec_bytes(old(space).mode, now_ns as int)[k],
                    )) && (forall|x: int|
                    !(tp <= x < tp + 2 * w) ==> final(space).byte_at(x) == old(space).byte_at(x))
                &&& !ok ==> r == -1 && (forall|x: int|
                    final(space).byte_at(x) == old(space).byte_at(x))
            }),
    {
        if clock_id != CLOCK_MONOTONIC {
            return -1;
        }
        let w = space.mode.word_size();
        let sec = now_ns / 1_000_000_000;
        let nsec = now_ns % 1_000_000_000;
        let mut data = le_vec(sec, w);
        let mut tail = le_vec(nsec, w);
        data.append(&mut tail);
        proof {
            assert(data@ =~= timespec_bytes(space.mode, now_ns as int));
            lemma_le_bytes_len(now_ns as int / 1_000_000_000, w as int);
            lemma_le_bytes_len(now_ns as int % 1_000_000_000, w as int);
        }
        if space.write_bytes(tp, &data, VmFlags::build(false, true, false, false, false)) {
            0
        } else {
            -1
        }
    }
}

/// The trap cause the scheduler inspects after a portal crossing.
#[derive(Clone, Copy, PartialEq, Eq, Structural, Debug)]
pub enum Trap {
    /// An environment call from user mode: a syscall.
    UserEnvCall,
    /// Any other cause, with the cause code and the faulting address.
    Other { cause: u64, stval: u64 },
}

/// The scheduler: a FIFO run queue, the console, and the syscall
/// implementations registered at startup.
pub struct Scheduler {
    /// The run queue; the head is the currently scheduled process.
    pub processes: Vec<Process>,
    /// The console every WRITE goes to.
    pub console: Console,
    /// The syscall capability table.
    pub syscall: SyscallContext,
}

impl Scheduler {
    /// Every queued process is well-formed.
    pub open spec fn wf(self) -> bool {
        forall|i: int| 0 <= i < self.processes.len() ==> (#[trigger] self.processes[i]).wf()
    }

    /// Whether `post` retired the head of `pre`: the queue lost exactly its
    /// head, the remaining order is unchanged, and the console is untouched.
    pub open spec fn retired_head(self, pre: Scheduler) -> bool {
        &&& self.processes@ == pre.processes@.subrange(1, pre.processes@.len() as int)
        &&& self.console.out@ == pre.console.out@
        &&& self.console.line_start == pre.console.line_start
    }

    /// An empty scheduler with a fresh console.
    pub fn new() -> (r: Scheduler)
        ensures
            r.wf(),
            r.processes@.len() == 0,
            r.console.out@ =~= Seq::<u8>::empty(),
            r.console.line_start,
    {
        Scheduler { processes: Vec::new(), console: Console::new(), syscall: SyscallContext }
    }

    /// Handle the head process's trap.
    ///
    /// An environment call from user mode dispatches by syscall id: EXIT and
    /// any unsupported id retire the head; WRITE, SCHED_YIELD and
    /// CLOCK_GETTIME write their return value into a0 and advance the saved
    /// program counter past the call. Any other trap cause retires the head
    /// unconditionally. `now_ns` is the monotonic time sampled at dispatch.
    pub fn handle_trap(&mut self, trap: Trap, now_ns: u64)
        requires
            old(self).wf(),
            old(self).processes@.len() > 0,
            old(self).processes@[0].context.pc + 4 <= u64::MAX,
        ensures
            final(self).wf(),
            ({
                let pre = *old(self);
                let head = pre.processes@[0];
                let id = head.context.a7;
                &&& (!(trap is UserEnvCall) ==> final(self).retired_head(pre))
                &&& (trap is UserEnvCall && id == SYSCALL_EXIT ==> final(self).retired_head(pre))
                &&& (trap is UserEnvCall && !(id == SYSCALL_EXIT || id == SYSCALL_WRITE || id
                    == SYSCALL_SCHED_YIELD || id == SYSCALL_CLOCK_GETTIME) ==> final(self).retired_head(pre))
                &&& (trap is UserEnvCall && (id == SYSCALL_WRITE || id == SYSCALL_SCHED_YIELD || id
                    == SYSCALL_CLOCK_GETTIME) ==> final(self).processes@.len()
                    == pre.processes@.len() && (forall|t: int|
                    1 <= t < pre.processes@.len() ==> final(self).processes@[t]
                        == pre.processes@[t]) && final(self).processes@[0].context.pc
                    == head.context.pc + 4 && final(self).processes@[0].context.satp
                    == head.context.satp && final(self).processes@[0].context.a7
                    == head.context.a7 && final(self).processes@[0].context.a1
                    == head.context.a1 && final(self).processes@[0].context.a2
                    == head.context.a2 && final(self).processes@[0].context.sp == head.context.sp)
                &&& (trap is UserEnvCall && id == SYSCALL_SCHED_YIELD ==> final(self).processes@[0] == (Process {
                    context: (ExecutionContext {
                        pc: (head.context.pc + 4) as u64,
                        a0: 0,
                        ..head.context
                    }),
                    address_space: head.address_space,
                }) && final(self).console.out@ == pre.console.out@ && final(self).console.line_start == pre.console.line_start)
                &&& (trap is UserEnvCall && id == SYSCALL_WRITE ==> {
                    let fd = head.context.a0;
                    let buf = head.context.a1;
                    let count = head.context.a2;
                    let ok = (fd == STDOUT || fd == STDDEBUG) && count <= usize::MAX
                        && head.address_space.can_access(
                        buf as int,
                        count as int,
                        VmFlags::readable_req(),
                    );
                    let emitted = read_seq(head.address_space, buf as int, count as int);
                    &&& final(self).processes@[0].address_space == head.address_space
                    &&& ok ==> final(self).processes@[0].context.a0 == count && final(self).console.out@ == pre.console.out@ + stamped(
                        emitted,
                        (now_ns / 1_000_000) as int,
                        pre.console.line_start,
                    ) && final(self).console.line_start == line_state(
                        emitted,
                        pre.console.line_start,
                    )
                    &&& !ok ==> final(self).processes@[0].context.a0 == u64::MAX && final(self).console.out@ == pre.console.out@ && final(self).console.line_start
                        == pre.console.line_start
                })
                &&& (trap is UserEnvCall && id == SYSCALL_CLOCK_GETTIME ==> {
                    let clock_id = head.context.a0;
                    let tp = head.context.a1;
                    let w = head.address_space.mode.word_bytes();
                    let ok = clock_id == CLOCK_MONOTONIC && head.address_space.can_access(
                        tp as int,
                        2 * w,
                        VmFlags::writable_req(),
                    );
                    &&& final(self).console.out@ == pre.console.out@
                    &&& final(self).console.line_start == pre.console.line_start
                    &&& final(self).processes@[0].address_space.mode == head.address_space.mode
                    &&& ok ==> final(self).processes@[0].context.a0 == 0 && (forall|k: int|
                        0 <= k < 2 * w ==> final(self).processes@[0].address_space.byte_at(tp + k)
                            == Some(timespec_bytes(head.address_space.mode, now_ns as int)[k]))
                        && (forall|x: int|
                        !(tp <= x < tp + 2 * w) ==> final(self).processes@[0].address_space.byte_at(x) == head.address_space.byte_at(x))
                    &&& !ok ==> final(self).processes@[0].context.a0 == u64::MAX && (forall|x: int|
                        final(self).processes@[0].address_space.byte_at(x)
                            == head.address_space.byte_at(x))
                })
            }),
    {
        let is_ecall = match trap {
            Trap::UserEnvCall => true,
            Trap::Other { .. } => false,
        };
        if !is_ecall {
            self.processes.remove(0);
            return ;
        }
        let id = self.processes[0].context.a7;
        if id == SYSCALL_EXIT {
            self.processes.remove(0);
        } else if id == SYSCALL_WRITE {
            let mut p = self.processes.remove(0);
            let fd = p.context.a0;
            let buf = p.context.a1;
            let count = p.context.a2;
            let now_ms = monotonic_time_ms(now_ns);
            let ret = self.syscall.write(&p.address_space, &mut self.console, fd, buf, count, now_ms);
            p.context.a0 = ret as u64;
            p.context.move_next();
            self.processes.insert(0, p);
            proof {
                assert(count as i64 as u64 == count) by (bit_vector);
                assert((-1i64) as u64 == u64::MAX) by (bit_vector);
            }
        } else if id == SYSCALL_SCHED_YIELD {
            let mut p = self.processes.remove(0);
            let ret = self.syscall.sched_yield();
            p.context.a0 = ret as u64;
            p.context.move_next();
            self.processes.insert(0, p);
        } else if id == SYSCALL_CLOCK_GETTIME {
            let mut p = self.processes.remove(0);
            let clock_id = p.context.a0;
            let tp = p.context.a1;
            let ret = self.syscall.clock_gettime(&mut p.address_space, clock_id, tp, now_ns);
            p.context.a0 = ret as u64;
            p.context.move_next();
            self.processes.insert(0, p);
            proof {
                assert((-1i64) as u64 == u64::MAX) by (bit_vector);
            }
        } else {
            self.processes.remove(0);
        }
    }
}

} // verus!
