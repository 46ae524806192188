use rvkernel::apps::AppMeta;
use rvkernel::cases::Cases;
use rvkernel::console::{print_with_timestamp, u64_dec, Console};

#[test]
fn decimal_digits() {
    assert_eq!(u64_dec(0), b"0".to_vec());
    assert_eq!(u64_dec(7), b"7".to_vec());
    assert_eq!(u64_dec(12345), b"12345".to_vec());
    assert_eq!(u64_dec(1000000), b"1000000".to_vec());
}

#[test]
fn timestamp_at_line_starts_only() {
    let mut con = Console::new();
    print_with_timestamp(&mut con, &b"hi\nyo".to_vec(), 7);
    assert_eq!(con.out, b"[    7 ms] hi\n[    7 ms] yo".to_vec());
    assert!(!con.line_start);
    // a mid-line continuation gets no timestamp
    print_with_timestamp(&mut con, &b"!".to_vec(), 8);
    assert_eq!(con.out, b"[    7 ms] hi\n[    7 ms] yo!".to_vec());
    // a wide timestamp is not padded
    let mut con2 = Console::new();
    print_with_timestamp(&mut con2, &b"x".to_vec(), 123456);
    assert_eq!(con2.out, b"[123456 ms] x".to_vec());
}

#[test]
fn app_table_iterates_positions_and_slots() {
    // two binaries, relocated to stride-spaced slots
    let meta = AppMeta { base: 0x8040_0000, step: 0x20_0000, offsets: vec![100, 250, 400] };
    let mut it = meta.iter();
    let a = it.next().unwrap();
    assert_eq!((a.src, a.size, a.dest), (100, 150, 0x8040_0000));
    let b = it.next().unwrap();
    assert_eq!((b.src, b.size, b.dest), (250, 150, 0x8060_0000));
    assert!(it.next().is_none());
}

#[test]
fn app_table_without_base_runs_in_place() {
    let meta = AppMeta { base: 0, step: 0, offsets: vec![64, 96] };
    let mut it = meta.iter();
    let a = it.next().unwrap();
    assert_eq!((a.src, a.size, a.dest), (64, 32, 64));
    assert!(it.next().is_none());
}

#[test]
fn case_planning_assigns_strided_addresses() {
    let cases = Cases {
        base: Some(0x8040_0000),
        step: Some(0x2_0000),
        cases: Some(vec!["a".to_string(), "b".to_string(), "c".to_string()]),
    };
    let info = cases.build();
    assert_eq!(info.base, 0x8040_0000);
    assert_eq!(info.step, 0x2_0000);
    assert_eq!(info.bins, vec![0x8040_0000, 0x8042_0000, 0x8044_0000]);
}

#[test]
fn case_planning_defaults() {
    // a stride counts only when a base is configured
    let no_base = Cases { base: None, step: Some(16), cases: Some(vec!["a".to_string()]) };
    let info = no_base.build();
    assert_eq!((info.base, info.step), (0, 0));
    assert_eq!(info.bins, vec![0]);

    let none = Cases { base: Some(4), step: None, cases: None };
    let empty = none.build();
    assert_eq!((empty.base, empty.step), (0, 0));
    assert!(empty.bins.is_empty());
}

#[test]
fn monotonic_scaling() {
    // 10 MHz cycle counter scaled to nanoseconds: 125 cycles are 10000 ns
    assert_eq!(rvkernel::console::monotonic_time_ns(125), 10_000);
    assert_eq!(rvkernel::console::monotonic_time_ns(0), 0);
    assert_eq!(rvkernel::console::monotonic_time_ns(1), 80);
    assert_eq!(rvkernel::console::monotonic_time_ms(1_234_567_890), 1234);
}
