//! Machine-mode SBI monitor.
//!
//! When the kernel boots without external firmware, a small machine-mode
//! monitor intercepts every environment call raised from supervisor mode.
//! The monitor's devices (UART, timer compare register, platform finisher)
//! are modelled here as plain values in [`Machine`], so every handler states
//! exactly what it returns and how the device state changes.

use vstd::prelude::*;

verus! {

/// Error code of a successful SBI call.
pub const SBI_SUCCESS: isize = 0;
/// Error code of an unsupported extension or function.
pub const SBI_ERR_NOT_SUPPORTED: isize = -2;

/// Legacy console putchar extension id.
pub const EID_LEGACY_CONSOLE_PUTCHAR: usize = 0x1;
/// Legacy console getchar extension id.
pub const EID_LEGACY_CONSOLE_GETCHAR: usize = 0x2;
/// Legacy shutdown extension id.
pub const EID_LEGACY_SHUTDOWN: usize = 0x8;
/// Base extension id.
pub const EID_BASE: usize = 0x10;
/// Timer extension id ("TIME").
pub const EID_TIMER: usize = 0x54494D45;
/// System reset extension id ("SRST").
pub const EID_SRST: usize = 0x53525354;

/// Trap cause of an environment call from supervisor mode, the only cause
/// the monitor services.
pub const CAUSE_SUPERVISOR_ECALL: usize = 9;

/// Code written to the platform finisher register for an orderly shutdown.
pub const FINISHER_PASS: u32 = 0x5555;
/// Code written to the platform finisher register for a failure shutdown.
pub const FINISHER_FAIL: u32 = 0x3333;

/// Sentinel returned by legacy console getchar when no byte is pending.
pub const NO_DATA: usize = usize::MAX;

/// SBI return value, delivered to the caller in a0 (error) and a1 (value).
pub struct SbiRet {
    pub error: isize,
    pub value: usize,
}

impl SbiRet {
    /// A successful result carrying `value`.
    pub fn success(value: usize) -> (r: SbiRet)
        ensures
            r.error == SBI_SUCCESS,
            r.value == value,
    {
        SbiRet { error: SBI_SUCCESS, value }
    }

    /// The unsupported-operation result: the fixed negative sentinel, value 0.
    pub fn not_supported() -> (r: SbiRet)
        ensures
            r.error == SBI_ERR_NOT_SUPPORTED,
            r.value == 0,
    {
        SbiRet { error: SBI_ERR_NOT_SUPPORTED, value: 0 }
    }

    /// Whether this result is `success(value)`.
    pub open spec fn is_success(self, value: usize) -> bool {
        self.error == SBI_SUCCESS && self.value == value
    }

    /// Whether this result is the unsupported sentinel.
    pub open spec fn is_not_supported(self) -> bool {
        self.error == SBI_ERR_NOT_SUPPORTED && self.value == 0
    }
}

/// The monitor's view of the fixed platform devices.
///
/// The UART transmit stream, the pending receive byte, the timer-compare
/// register, the pending supervisor-timer bit and the finisher register are
/// held as plain values; the handlers state exactly how each call changes
/// them, and outside glue performs the matching device accesses.
pub struct Machine {
    /// Bytes written to the UART transmit register, oldest first. The write
    /// is a bounded spin on the transmit-ready bit followed by one store, so
    /// each call appends exactly one byte.
    pub uart_tx: Vec<u8>,
    /// The byte pending in the UART receive register, if the data-ready bit
    /// is set.
    pub uart_rx: Option<u8>,
    /// The timer-compare register.
    pub mtimecmp: u64,
    /// The pending supervisor-timer-interrupt bit.
    pub timer_pending: bool,
    /// Code written to the platform finisher register; once set the device
    /// halts the machine, so nothing after the write is observable.
    pub finisher: Option<u32>,
}

impl Machine {
    /// Whether two device states agree on every register the monitor touches.
    pub open spec fn same_state(self, other: Machine) -> bool {
        &&& self.uart_tx@ == other.uart_tx@
        &&& self.uart_rx == other.uart_rx
        &&& self.mtimecmp == other.mtimecmp
        &&& self.timer_pending == other.timer_pending
        &&& self.finisher == other.finisher
    }

    /// Same state, except that the transmit stream grew by byte `b`.
    pub open spec fn tx_appended(self, pre: Machine, b: u8) -> bool {
        &&& self.uart_tx@ == pre.uart_tx@.push(b)
        &&& self.uart_rx == pre.uart_rx
        &&& self.mtimecmp == pre.mtimecmp
        &&& self.timer_pending == pre.timer_pending
        &&& self.finisher == pre.finisher
    }

    /// Same state, except that the pending receive byte was consumed.
    pub open spec fn rx_consumed(self, pre: Machine) -> bool {
        &&& self.uart_rx is None
        &&& self.uart_tx@ == pre.uart_tx@
        &&& self.mtimecmp == pre.mtimecmp
        &&& self.timer_pending == pre.timer_pending
        &&& self.finisher == pre.finisher
    }

    /// Same state, except that the timer-compare register holds `t` and the
    /// pending timer bit is clear.
    pub open spec fn timer_set(self, pre: Machine, t: u64) -> bool {
        &&& self.mtimecmp == t
        &&& !self.timer_pending
        &&& self.uart_tx@ == pre.uart_tx@
        &&& self.uart_rx == pre.uart_rx
        &&& self.finisher == pre.finisher
    }

    /// Same state, except that the finisher register holds `code`: the
    /// platform is halting.
    pub open spec fn halted(self, pre: Machine, code: u32) -> bool {
        &&& self.finisher == Some(code)
        &&& self.uart_tx@ == pre.uart_tx@
        &&& self.uart_rx == pre.uart_rx
        &&& self.mtimecmp == pre.mtimecmp
        &&& self.timer_pending == pre.timer_pending
    }
}

/// Handle legacy console putchar: emit one byte on the UART.
pub fn handle_console_putchar(m: &mut Machine, c: usize) -> (r: SbiRet)
    ensures
        r.is_success(0),
        final(m).uart_tx@ == old(m).uart_tx@.push(c as u8),
        final(m).uart_rx == old(m).uart_rx,
        final(m).mtimecmp == old(m).mtimecmp,
        final(m).timer_pending == old(m).timer_pending,
        final(m).finisher == old(m).finisher,
{
    putchar(m, c as u8);
    SbiRet::success(0)
}

/// Blocking one-byte write to the UART transmit register: spin on the
/// transmit-ready bit, then store the byte.
pub fn putchar(m: &mut Machine, c: u8)
    ensures
        final(m).uart_tx@ == old(m).uart_tx@.push(c),
        final(m).uart_rx == old(m).uart_rx,
        final(m).mtimecmp == old(m).mtimecmp,
        final(m).timer_pending == old(m).timer_pending,
        final(m).finisher == old(m).finisher,
{
    m.uart_tx.push(c);
}

/// Non-blocking read of the UART receive register: the pending byte if the
/// data-ready bit is set, `None` otherwise. Never blocks.
pub fn getchar(m: &mut Machine) -> (r: Option<u8>)
    ensures
        r == old(m).uart_rx,
        final(m).uart_rx is None,
        final(m).uart_tx@ == old(m).uart_tx@,
        final(m).mtimecmp == old(m).mtimecmp,
        final(m).timer_pending == old(m).timer_pending,
        final(m).finisher == old(m).finisher,
{
    m.uart_rx.take()
}

/// Handle legacy console getchar: `success(byte)` when a byte is pending,
/// `success(NO_DATA)` otherwise.
pub fn handle_console_getchar(m: &mut Machine) -> (r: SbiRet)
    ensures
        old(m).uart_rx matches Some(b) ==> r.is_success(b as usize),
        old(m).uart_rx is None ==> r.is_success(NO_DATA),
        final(m).uart_rx is None,
        final(m).uart_tx@ == old(m).uart_tx@,
        final(m).mtimecmp == old(m).mtimecmp,
        final(m).timer_pending == old(m).timer_pending,
        final(m).finisher == old(m).finisher,
{
    match getchar(m) {
        Some(c) => SbiRet::success(c as usize),
        None => SbiRet::success(NO_DATA),
    }
}

/// Handle system reset: write the pass code for reset reason 0 and the fail
/// code for any other reason to the platform finisher register.
///
/// The finisher device halts the machine, so the returned value is never
/// delivered; it exists only to give every handler the same shape.
pub fn handle_system_reset(m: &mut Machine, _reset_type: usize, reset_reason: usize) -> (r: SbiRet)
    ensures
        reset_reason == 0 ==> final(m).finisher == Some(FINISHER_PASS),
        reset_reason != 0 ==> final(m).finisher == Some(FINISHER_FAIL),
        final(m).uart_tx@ == old(m).uart_tx@,
        final(m).uart_rx == old(m).uart_rx,
        final(m).mtimecmp == old(m).mtimecmp,
        final(m).timer_pending == old(m).timer_pending,
        r.is_success(0),
{
    let code = if reset_reason == 0 {
        FINISHER_PASS
    } else {
        FINISHER_FAIL
    };
    m.finisher = Some(code);
    SbiRet::success(0)
}

/// Handle legacy shutdown: an orderly system reset, "shutdown / no reason".
pub fn handle_legacy_shutdown(m: &mut Machine) -> (r: SbiRet)
    ensures
        final(m).finisher == Some(FINISHER_PASS),
        final(m).uart_tx@ == old(m).uart_tx@,
        final(m).uart_rx == old(m).uart_rx,
        final(m).mtimecmp == old(m).mtimecmp,
        final(m).timer_pending == old(m).timer_pending,
        r.is_success(0),
{
    handle_system_reset(m, 0, 0)
}

/// Handle the timer extension: program the timer-compare register with a
/// 64-bit absolute time and clear the pending supervisor-timer bit.
pub fn handle_timer(m: &mut Machine, time: u64) -> (r: SbiRet)
    ensures
        r.is_success(0),
        final(m).mtimecmp == time,
        !final(m).timer_pending,
        final(m).uart_tx@ == old(m).uart_tx@,
        final(m).uart_rx == old(m).uart_rx,
        final(m).finisher == old(m).finisher,
{
    m.mtimecmp = time;
    m.timer_pending = false;
    SbiRet::success(0)
}

/// What the base extension reports for each function id: fixed spec version
/// 2, impl id 0, impl version 1, every probed extension supported, vendor,
/// arch and impl registers 0; unknown function ids are unsupported.
pub open spec fn base_result(fid: int) -> (isize, usize) {
    if fid == 0 {
        (SBI_SUCCESS, 2)
    } else if fid == 1 {
        (SBI_SUCCESS, 0)
    } else if fid == 2 {
        (SBI_SUCCESS, 1)
    } else if fid == 3 {
        (SBI_SUCCESS, 1)
    } else if fid == 4 || fid == 5 || fid == 6 {
        (SBI_SUCCESS, 0)
    } else {
        (SBI_ERR_NOT_SUPPORTED, 0)
    }
}

/// Handle the SBI base extension. Pure: reports fixed version and id values.
pub fn handle_base(fid: usize) -> (r: SbiRet)
    ensures
        (r.error, r.value) == base_result(fid as int),
{
    match fid {
        0 => SbiRet::success(2),
        1 => SbiRet::success(0),
        2 => SbiRet::success(1),
        3 => SbiRet::success(1),
        4 => SbiRet::success(0),
        5 => SbiRet::success(0),
        6 => SbiRet::success(0),
        _ => SbiRet::not_supported(),
    }
}

/// The machine-mode trap handler: the monitor's single entry point.
///
/// Takes the trap cause and the environment-call registers as read at entry
/// (a0 to a5 arguments, a6 the function id, a7 the extension id), services
/// the call against the device state, and returns the pair to deliver in
/// a0 (error) and a1 (value). Only an environment call from the next-lower
/// privilege level is handled; any other cause yields the unsupported
/// sentinel and touches no device.
pub fn m_trap_handler(
    m: &mut Machine,
    mcause: usize,
    a0: usize,
    a1: usize,
    _a2: usize,
    _a3: usize,
    _a4: usize,
    _a5: usize,
    fid: usize,
    eid: usize,
) -> (r: SbiRet)
    ensures
        mcause != CAUSE_SUPERVISOR_ECALL ==> r.is_not_supported() && final(m).same_state(
            *old(m),
        ),
        mcause == CAUSE_SUPERVISOR_ECALL && eid == EID_LEGACY_CONSOLE_PUTCHAR ==> r.is_success(0)
            && final(m).tx_appended(*old(m), a0 as u8),
        mcause == CAUSE_SUPERVISOR_ECALL && eid == EID_LEGACY_CONSOLE_GETCHAR ==> final(m).rx_consumed(*old(m)) && (old(m).uart_rx matches Some(b) ==> r.is_success(b as usize)) && (
        old(m).uart_rx is None ==> r.is_success(NO_DATA)),
        mcause == CAUSE_SUPERVISOR_ECALL && eid == EID_LEGACY_SHUTDOWN ==> final(m).halted(
            *old(m),
            FINISHER_PASS,
        ),
        mcause == CAUSE_SUPERVISOR_ECALL && eid == EID_BASE ==> final(m).same_state(*old(m)) && (
        r.error, r.value) == base_result(fid as int),
        mcause == CAUSE_SUPERVISOR_ECALL && eid == EID_TIMER ==> r.is_success(0) && final(m).timer_set(*old(m), (a0 as u64 | ((a1 as u64) << 32))),
        mcause == CAUSE_SUPERVISOR_ECALL && eid == EID_SRST && fid == 0 ==> final(m).halted(
            *old(m),
            if a1 == 0 {
                FINISHER_PASS
            } else {
                FINISHER_FAIL
            },
        ),
        mcause == CAUSE_SUPERVISOR_ECALL && eid == EID_SRST && fid != 0 ==> r.is_not_supported()
            && final(m).same_state(*old(m)),
        mcause == CAUSE_SUPERVISOR_ECALL && eid != EID_LEGACY_CONSOLE_PUTCHAR && eid
            != EID_LEGACY_CONSOLE_GETCHAR && eid != EID_LEGACY_SHUTDOWN && eid != EID_BASE && eid
            != EID_TIMER && eid != EID_SRST ==> r.is_not_supported() && final(m).same_state(
            *old(m),
        ),
{
    if mcause != CAUSE_SUPERVISOR_ECALL {
        return SbiRet::not_supported();
    }
    if eid == EID_LEGACY_CONSOLE_PUTCHAR {
        handle_console_putchar(m, a0)
    } else if eid == EID_LEGACY_CONSOLE_GETCHAR {
        handle_console_getchar(m)
    } else if eid == EID_LEGACY_SHUTDOWN {
        handle_legacy_shutdown(m)
    } else if eid == EID_BASE {
        handle_base(fid)
    } else if eid == EID_TIMER {
        handle_timer(m, a0 as u64 | ((a1 as u64) << 32))
    } else if eid == EID_SRST {
        if fid == 0 {
            handle_system_reset(m, a0, a1)
        } else {
            SbiRet::not_supported()
        }
    } else {
        SbiRet::not_supported()
    }
}

} // verus!
