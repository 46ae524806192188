use rvkernel::sbi::{
    handle_base, handle_console_getchar, handle_console_putchar, handle_legacy_shutdown,
    handle_system_reset, handle_timer, m_trap_handler, Machine, SbiRet, CAUSE_SUPERVISOR_ECALL,
    EID_BASE, EID_LEGACY_CONSOLE_GETCHAR, EID_LEGACY_CONSOLE_PUTCHAR, EID_LEGACY_SHUTDOWN,
    EID_SRST, EID_TIMER, FINISHER_FAIL, FINISHER_PASS, NO_DATA, SBI_ERR_NOT_SUPPORTED,
    SBI_SUCCESS,
};

fn fresh_machine() -> Machine {
    Machine {
        uart_tx: Vec::new(),
        uart_rx: None,
        mtimecmp: 0,
        timer_pending: false,
        finisher: None,
    }
}

#[test]
fn success_and_not_supported_encoding() {
    let ok = SbiRet::success(42);
    assert_eq!(ok.error, SBI_SUCCESS);
    assert_eq!(ok.value, 42);
    let no = SbiRet::not_supported();
    assert_eq!(no.error, SBI_ERR_NOT_SUPPORTED);
    assert_eq!(no.error, -2);
    assert_eq!(no.value, 0);
}

#[test]
fn base_extension_fixed_values() {
    assert_eq!(handle_base(0).value, 2); // spec version
    assert_eq!(handle_base(1).value, 0); // impl id
    assert_eq!(handle_base(2).value, 1); // impl version
    assert_eq!(handle_base(3).value, 1); // probe: supported
    assert_eq!(handle_base(4).value, 0); // vendor id
    assert_eq!(handle_base(5).value, 0); // arch id
    assert_eq!(handle_base(6).value, 0); // impl id register
    let unknown = handle_base(7);
    assert_eq!(unknown.error, SBI_ERR_NOT_SUPPORTED);
    assert_eq!(unknown.value, 0);
}

#[test]
fn putchar_appends_to_uart() {
    let mut m = fresh_machine();
    let r = handle_console_putchar(&mut m, b'A' as usize);
    assert_eq!(r.error, SBI_SUCCESS);
    assert_eq!(m.uart_tx, vec![b'A']);
}

#[test]
fn getchar_no_data_sentinel_and_exact_byte() {
    let mut m = fresh_machine();
    let none = handle_console_getchar(&mut m);
    assert_eq!(none.error, SBI_SUCCESS);
    assert_eq!(none.value, NO_DATA);

    m.uart_rx = Some(0x61);
    let some = handle_console_getchar(&mut m);
    assert_eq!(some.error, SBI_SUCCESS);
    assert_eq!(some.value, 0x61);
    assert!(m.uart_rx.is_none());
}

#[test]
fn timer_sets_compare_and_clears_pending() {
    let mut m = fresh_machine();
    m.timer_pending = true;
    let r = handle_timer(&mut m, 0xDEAD_BEEF_0042_1111);
    assert_eq!(r.error, SBI_SUCCESS);
    assert_eq!(m.mtimecmp, 0xDEAD_BEEF_0042_1111);
    assert!(!m.timer_pending);
}

#[test]
fn system_reset_codes() {
    let mut m = fresh_machine();
    handle_system_reset(&mut m, 0, 0);
    assert_eq!(m.finisher, Some(FINISHER_PASS));
    let mut m2 = fresh_machine();
    handle_system_reset(&mut m2, 0, 1);
    assert_eq!(m2.finisher, Some(FINISHER_FAIL));
    let mut m3 = fresh_machine();
    handle_legacy_shutdown(&mut m3);
    assert_eq!(m3.finisher, Some(FINISHER_PASS));
}

#[test]
fn non_ecall_cause_is_unsupported_without_side_effects() {
    let mut m = fresh_machine();
    m.uart_rx = Some(7);
    m.mtimecmp = 99;
    // cause 7 is a machine timer interrupt, not an environment call
    let r = m_trap_handler(&mut m, 7, 1, 2, 0, 0, 0, 0, 0, EID_TIMER);
    assert_eq!(r.error, SBI_ERR_NOT_SUPPORTED);
    assert_eq!(r.value, 0);
    assert_eq!(m.uart_rx, Some(7));
    assert_eq!(m.mtimecmp, 99);
    assert!(m.uart_tx.is_empty());
    assert!(m.finisher.is_none());
}

#[test]
fn trap_handler_dispatches_by_extension() {
    let mut m = fresh_machine();
    let r = m_trap_handler(
        &mut m,
        CAUSE_SUPERVISOR_ECALL,
        b'x' as usize,
        0,
        0,
        0,
        0,
        0,
        0,
        EID_LEGACY_CONSOLE_PUTCHAR,
    );
    assert_eq!(r.error, SBI_SUCCESS);
    assert_eq!(m.uart_tx, vec![b'x']);

    m.uart_rx = Some(3);
    let g = m_trap_handler(&mut m, CAUSE_SUPERVISOR_ECALL, 0, 0, 0, 0, 0, 0, 0, EID_LEGACY_CONSOLE_GETCHAR);
    assert_eq!(g.value, 3);

    // the timer value arrives as two halves
    let t = m_trap_handler(
        &mut m,
        CAUSE_SUPERVISOR_ECALL,
        0x1111_2222,
        0x3333_4444,
        0,
        0,
        0,
        0,
        0,
        EID_TIMER,
    );
    assert_eq!(t.error, SBI_SUCCESS);
    assert_eq!(m.mtimecmp, (0x3333_4444u64 << 32) | 0x1111_2222);

    let b = m_trap_handler(&mut m, CAUSE_SUPERVISOR_ECALL, 0, 0, 0, 0, 0, 0, 0, EID_BASE);
    assert_eq!(b.value, 2);

    // reset through SRST, non-zero function id is unsupported
    let s = m_trap_handler(&mut m, CAUSE_SUPERVISOR_ECALL, 0, 0, 0, 0, 0, 0, 1, EID_SRST);
    assert_eq!(s.error, SBI_ERR_NOT_SUPPORTED);
    assert!(m.finisher.is_none());
    let s0 = m_trap_handler(&mut m, CAUSE_SUPERVISOR_ECALL, 0, 5, 0, 0, 0, 0, 0, EID_SRST);
    assert_eq!(s0.error, SBI_SUCCESS);
    assert_eq!(m.finisher, Some(FINISHER_FAIL));

    let mut m2 = fresh_machine();
    let sh = m_trap_handler(&mut m2, CAUSE_SUPERVISOR_ECALL, 0, 0, 0, 0, 0, 0, 0, EID_LEGACY_SHUTDOWN);
    assert_eq!(sh.error, SBI_SUCCESS);
    assert_eq!(m2.finisher, Some(FINISHER_PASS));

    let mut m3 = fresh_machine();
    let u = m_trap_handler(&mut m3, CAUSE_SUPERVISOR_ECALL, 0, 0, 0, 0, 0, 0, 0, 0x9999);
    assert_eq!(u.error, SBI_ERR_NOT_SUPPORTED);
    assert!(m3.uart_tx.is_empty());
}
