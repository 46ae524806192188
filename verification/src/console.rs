//! Console output with line timestamps.
//!
//! Every kernel-originated output line is prefixed with a monotonic
//! millisecond timestamp, applied only at line starts: right after a
//! newline, and at the very first byte of output. The console is modelled
//! as the sequence of bytes handed to the output sink plus the line-start
//! flag; [`stamped`] states exactly what one write emits.

use vstd::prelude::*;

verus! {

/// Newline, the byte that ends a line.
pub const NEWLINE: u8 = 10;

/// The decimal digits of `n`, most significant first.
pub open spec fn dec_digits(n: int) -> Seq<u8>
    recommends
        n >= 0,
    decreases n,
{
    if n < 10 {
        seq![(48 + if n >= 0 { n } else { 0 }) as u8]
    } else {
        dec_digits(n / 10).push((48 + n % 10) as u8)
    }
}

/// `k` spaces (none for `k <= 0`).
pub open spec fn spaces(k: int) -> Seq<u8> {
    Seq::new(if k >= 0 { k } else { 0 } as nat, |i: int| 32u8)
}

/// The timestamp prefix of one line: the milliseconds right-aligned to five
/// columns between a bracket pair, then "ms" and a space.
pub open spec fn ts_prefix(ms: int) -> Seq<u8> {
    seq![91u8] + spaces(5 - dec_digits(ms).len()) + dec_digits(ms) + seq![
        32u8,
        109u8,
        115u8,
        93u8,
        32u8,
    ]
}

/// What the line-start flag is after writing `s`, starting from `ls`.
pub open spec fn line_state(s: Seq<u8>, ls: bool) -> bool {
    if s.len() == 0 {
        ls
    } else {
        s.last() == NEWLINE
    }
}

/// The bytes the console emits for a write of `s` at `ms` milliseconds: the
/// bytes of `s` themselves, with the timestamp prefix inserted before every
/// byte that starts a line — the first byte if the console was at a line
/// start, and every byte right after a newline.
pub open spec fn stamped(s: Seq<u8>, ms: int, ls: bool) -> Seq<u8>
    decreases s.len(),
{
    if s.len() == 0 {
        Seq::empty()
    } else {
        (if ls {
            ts_prefix(ms)
        } else {
            Seq::empty()
        }) + seq![s[0]] + stamped(s.subrange(1, s.len() as int), ms, s[0] == NEWLINE)
    }
}

/// Writing one more byte appends its (possibly prefixed) emission.
pub proof fn lemma_stamped_push(s: Seq<u8>, c: u8, ms: int, ls: bool)
    ensures
        stamped(s.push(c), ms, ls) == stamped(s, ms, ls) + (if line_state(s, ls) {
            ts_prefix(ms)
        } else {
            Seq::<u8>::empty()
        }) + seq![c],
    decreases s.len(),
{
    if s.len() == 0 {
        assert(s.push(c) =~= seq![c]);
        let e = s.push(c).subrange(1, 1);
        assert(e =~= Seq::<u8>::empty());
        assert(stamped(e, ms, c == NEWLINE) =~= Seq::<u8>::empty());
        assert(stamped(s, ms, ls) =~= Seq::<u8>::empty());
        assert(stamped(s.push(c), ms, ls) =~= stamped(s, ms, ls) + (if line_state(s, ls) {
            ts_prefix(ms)
        } else {
            Seq::<u8>::empty()
        }) + seq![c]);
    } else {
        let t = s.subrange(1, s.len() as int);
        assert(s.push(c).subrange(1, s.push(c).len() as int) =~= t.push(c));
        lemma_stamped_push(t, c, ms, s[0] == NEWLINE);
        assert(line_state(t, s[0] == NEWLINE) == line_state(s, ls));
        assert(s.push(c)[0] == s[0]);
        assert(stamped(s.push(c), ms, ls) =~= stamped(s, ms, ls) + (if line_state(s, ls) {
            ts_prefix(ms)
        } else {
            Seq::<u8>::empty()
        }) + seq![c]);
    }
}

/// A write that starts mid-line and holds no newline before its last byte
/// passes through with no timestamp inserted.
pub proof fn lemma_stamped_mid_line(s: Seq<u8>, ms: int)
    requires
        forall|i: int| 0 <= i < s.len() - 1 ==> s[i] != NEWLINE,
    ensures
        stamped(s, ms, false) == s,
    decreases s.len(),
{
    if s.len() == 0 {
        assert(stamped(s, ms, false) =~= s);
    } else {
        let t = s.subrange(1, s.len() as int);
        if s.len() == 1 {
            assert(t =~= Seq::<u8>::empty());
            assert(stamped(t, ms, s[0] == NEWLINE) =~= Seq::<u8>::empty());
            assert(stamped(s, ms, false) =~= s);
        } else {
            assert(s[0] != NEWLINE);
            lemma_stamped_mid_line(t, ms);
            assert(stamped(s, ms, false) =~= s);
        }
    }
}

/// The console: the bytes handed to the output sink, oldest first, and
/// whether the next byte starts a line.
pub struct Console {
    /// Bytes emitted so far.
    pub out: Vec<u8>,
    /// Whether the next byte written starts a new line.
    pub line_start: bool,
}

impl Console {
    /// A console that has printed nothing: the first byte starts a line.
    pub fn new() -> (r: Console)
        ensures
            r.out@ =~= Seq::<u8>::empty(),
            r.line_start,
    {
        Console { out: Vec::new(), line_start: true }
    }

    /// Hand one byte to the output sink.
    pub fn put_char(&mut self, c: u8)
        ensures
            final(self).out@ == old(self).out@.push(c),
            final(self).line_start == old(self).line_start,
    {
        self.out.push(c);
    }
}

/// The decimal digits of `n`, as bytes.
pub fn u64_dec(n: u64) -> (r: Vec<u8>)
    ensures
        r@ == dec_digits(n as int),
    decreases n,
{
    if n < 10 {
        let mut r: Vec<u8> = Vec::new();
        r.push(48 + n as u8);
        proof {
            assert(r@ =~= dec_digits(n as int));
        }
        r
    } else {
        let mut r = u64_dec(n / 10);
        r.push(48 + (n % 10) as u8);
        r
    }
}

/// Emit the timestamp prefix of one line.
fn emit_prefix(con: &mut Console, ms: u64)
    ensures
        final(con).out@ == old(con).out@ + ts_prefix(ms as int),
        final(con).line_start == old(con).line_start,
{
    let ghost start = con.out@;
    con.put_char(91);
    let digits = u64_dec(ms);
    let mut pad: usize = 0;
    let width = digits.len();
    while pad + width < 5
        invariant
            con.out@ == start + seq![91u8] + spaces(pad as int),
            con.line_start == old(con).line_start,
            width == digits@.len(),
            0 <= pad,
            pad + width <= 5 || pad == 0,
        decreases 5 - pad - width,
    {
        con.put_char(32);
        proof {
            assert(spaces(pad as int).push(32u8) =~= spaces(pad as int + 1));
            assert((start + seq![91u8] + spaces(pad as int)).push(32u8) =~= start + seq![91u8]
                + spaces(pad as int + 1));
        }
        pad = pad + 1;
    }
    proof {
        assert(spaces(pad as int) =~= spaces(5 - digits@.len()));
    }
    let mut k: usize = 0;
    let n = digits.len();
    while k < n
        invariant
            0 <= k <= n,
            n == digits@.len(),
            con.out@ == start + seq![91u8] + spaces(5 - digits@.len()) + digits@.subrange(
                0,
                k as int,
            ),
            con.line_start == old(con).line_start,
        decreases n - k,
    {
        con.put_char(digits[k]);
        proof {
            assert(digits@.subrange(0, k as int).push(digits@[k as int]) =~= digits@.subrange(
                0,
                k as int + 1,
            ));
            assert((start + seq![91u8] + spaces(5 - digits@.len()) + digits@.subrange(
                0,
                k as int,
            )).push(digits@[k as int]) =~= start + seq![91u8] + spaces(5 - digits@.len())
                + digits@.subrange(0, k as int + 1));
        }
        k = k + 1;
    }
    con.put_char(32);
    con.put_char(109);
    con.put_char(115);
    con.put_char(93);
    con.put_char(32);
    proof {
        assert(digits@.subrange(0, digits@.len() as int) =~= digits@);
        assert(con.out@ =~= start + ts_prefix(ms as int));
    }
}

/// Emit `s` on the console, prefixing each line start with the timestamp.
pub fn print_with_timestamp(con: &mut Console, s: &Vec<u8>, ms: u64)
    ensures
        final(con).out@ == old(con).out@ + stamped(s@, ms as int, old(con).line_start),
        final(con).line_start == line_state(s@, old(con).line_start),
{
    let ghost start = con.out@;
    let ghost ls0 = con.line_start;
    let n = s.len();
    let mut k: usize = 0;
    proof {
        assert(s@.subrange(0, 0) =~= Seq::<u8>::empty());
        assert(start + stamped(s@.subrange(0, 0), ms as int, ls0) =~= start);
    }
    while k < n
        invariant
            0 <= k <= n,
            n == s@.len(),
            con.out@ == start + stamped(s@.subrange(0, k as int), ms as int, ls0),
            con.line_start == line_state(s@.subrange(0, k as int), ls0),
        decreases n - k,
    {
        let c = s[k];
        if con.line_start {
            emit_prefix(con, ms);
        }
        con.put_char(c);
        if c == NEWLINE {
            con.line_start = true;
        } else {
            con.line_start = false;
        }
        proof {
            let pre = s@.subrange(0, k as int);
            lemma_stamped_push(pre, c, ms as int, ls0);
            assert(pre.push(c) =~= s@.subrange(0, k as int + 1));
            assert(con.out@ =~= start + stamped(s@.subrange(0, k as int + 1), ms as int, ls0));
        }
        k = k + 1;
    }
    proof {
        assert(s@.subrange(0, n as int) =~= s@);
    }
}

/// Nanoseconds of the monotonic clock, from the hardware cycle counter:
/// cycles scaled by 10000 over 125.
pub fn monotonic_time_ns(cycles: u64) -> (r: u64)
    requires
        cycles * 10000 <= u64::MAX,
    ensures
        r == cycles * 10000 / 125,
{
    cycles * 10000 / 125
}

/// Milliseconds of the monotonic clock, from its nanoseconds.
pub fn monotonic_time_ms(ns: u64) -> (r: u64)
    ensures
        r == ns / 1_000_000,
{
    ns / 1_000_000
}

} // verus!
