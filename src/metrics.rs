//! One reading of the host's figures, the rates between two readings, and
//! the seven-line text that publishes them.
use crate::format::{
    f32_text, format_speed, mem_percent, pct_tenths, pct_whole, push_f32_fixed1, speed_text,
    swap_tenths,
};
use crate::format::f32_magnitude_text;
use crate::text::{decimal, digit_char, fixed1, push_decimal, push_fixed1};
use vstd::prelude::*;

verus! {

/// One reading of the host: instantaneous CPU and memory figures, and
/// cumulative byte counters summed over all interfaces and devices.
#[derive(Clone, Copy, Debug, PartialEq, Eq)]
pub struct Sample {
    /// Bit pattern of the single-precision CPU load in percent.
    pub cpu_bits: u32,
    pub mem_used: u64,
    pub mem_total: u64,
    pub swap_used: u64,
    pub swap_total: u64,
    pub net_rx: u64,
    pub net_tx: u64,
    pub disk_read: u64,
    pub disk_write: u64,
}

/// Bytes moved per counter over `elapsed_nanos` nanoseconds.
#[derive(Clone, Copy, Debug, PartialEq, Eq)]
pub struct Rates {
    pub elapsed_nanos: u64,
    pub io_read: u64,
    pub io_write: u64,
    pub net_rx: u64,
    pub net_tx: u64,
}

/// How far a cumulative counter moved from `before` to `after`; a counter
/// that went back (a device was reset) moved by nothing.
pub open spec fn delta(before: u64, after: u64) -> u64 {
    if after >= before {
        (after - before) as u64
    } else {
        0
    }
}

/// The rates between two readings `elapsed_nanos` apart.
pub open spec fn rates_spec(before: Sample, after: Sample, elapsed_nanos: u64) -> Rates {
    Rates {
        elapsed_nanos,
        io_read: delta(before.disk_read, after.disk_read),
        io_write: delta(before.disk_write, after.disk_write),
        net_rx: delta(before.net_rx, after.net_rx),
        net_tx: delta(before.net_tx, after.net_tx),
    }
}

/// No movement on any counter.
pub open spec fn zero_rates() -> Rates {
    Rates { elapsed_nanos: 0, io_read: 0, io_write: 0, net_rx: 0, net_tx: 0 }
}

/// One `key=[value]` line, without its line break.
pub open spec fn line(key: Seq<char>, value: Seq<char>) -> Seq<char> {
    key + seq!['=', '['] + value + seq![']']
}

/// The seven lines of the payload, in their fixed order.
pub open spec fn lines(s: Sample, r: Rates) -> Seq<Seq<char>> {
    seq![
        line(seq!['c', 'p', 'u'], f32_text(s.cpu_bits)),
        line(seq!['m', 'e', 'm'], decimal(pct_whole(s.mem_used as nat, s.mem_total as nat))),
        line(seq!['s', 'w', 'a', 'p'], fixed1(pct_tenths(s.swap_used as nat, s.swap_total as nat))),
        line(seq!['i', 'o', '_', 'r', 'e', 'a', 'd'], speed_text(r.io_read as nat, r.elapsed_nanos as nat)),
        line(seq!['i', 'o', '_', 'w', 'r', 'i', 't', 'e'], speed_text(r.io_write as nat, r.elapsed_nanos as nat)),
        line(seq!['n', 'e', 't', '_', 'r', 'x'], speed_text(r.net_rx as nat, r.elapsed_nanos as nat)),
        line(seq!['n', 'e', 't', '_', 't', 'x'], speed_text(r.net_tx as nat, r.elapsed_nanos as nat)),
    ]
}

/// The payload: the seven lines joined by line breaks, with none after the last.
pub open spec fn render(s: Sample, r: Rates) -> Seq<char> {
    let l = lines(s, r);
    l[0] + seq!['\n'] + l[1] + seq!['\n'] + l[2] + seq!['\n'] + l[3] + seq!['\n'] + l[4]
        + seq!['\n'] + l[5] + seq!['\n'] + l[6]
}

/// `s` holds no line break.
pub open spec fn no_break(s: Seq<char>) -> bool {
    forall|i: int| 0 <= i < s.len() ==> s[i] != '\n'
}

proof fn lemma_decimal_no_break(n: nat)
    ensures
        no_break(decimal(n)),
    decreases n,
{
    if n >= 10 {
        lemma_decimal_no_break(n / 10);
        assert(digit_char(n % 10) != '\n');
    } else {
        assert(digit_char(n) != '\n');
    }
}

proof fn lemma_fixed1_no_break(t: nat)
    ensures
        no_break(fixed1(t)),
{
    lemma_decimal_no_break(t / 10);
    assert(digit_char(t % 10) != '\n');
}

proof fn lemma_speed_no_break(b: nat, n: nat)
    ensures
        no_break(speed_text(b, n)),
{
    if n == 0 {
        lemma_fixed1_no_break(0);
    } else if b * 1000 >= n {
        lemma_fixed1_no_break(crate::format::round_even(b * 10_000, n));
    } else {
        lemma_fixed1_no_break(crate::format::round_even(b * 10_000_000, n));
    }
}

proof fn lemma_f32_no_break(bits: u32)
    ensures
        no_break(f32_text(bits)),
{
    let m = crate::format::f32_significand(bits);
    let e = crate::format::f32_scale(bits);
    if e >= 150 {
        lemma_decimal_no_break(m * vstd::arithmetic::power2::pow2((e - 150) as nat));
    } else {
        lemma_fixed1_no_break(crate::format::round_even(m * 10, vstd::arithmetic::power2::pow2((150 - e) as nat)));
    }
    assert(no_break(f32_magnitude_text(bits)));
}

/// The payload is exactly seven lines: the seven `key=[value]` lines joined
/// by line breaks, none of which holds a line break itself, so that the six
/// joining breaks are the only ones.
pub proof fn lemma_seven_lines(s: Sample, r: Rates)
    ensures
        lines(s, r).len() == 7,
        forall|k: int| 0 <= k < 7 ==> no_break(#[trigger] lines(s, r)[k]),
        render(s, r) == lines(s, r)[0] + seq!['\n'] + lines(s, r)[1] + seq!['\n'] + lines(s, r)[2]
            + seq!['\n'] + lines(s, r)[3] + seq!['\n'] + lines(s, r)[4] + seq!['\n'] + lines(s, r)[5]
            + seq!['\n'] + lines(s, r)[6],
{
    lemma_f32_no_break(s.cpu_bits);
    lemma_decimal_no_break(crate::format::pct_whole(s.mem_used as nat, s.mem_total as nat));
    lemma_fixed1_no_break(crate::format::pct_tenths(s.swap_used as nat, s.swap_total as nat));
    lemma_speed_no_break(r.io_read as nat, r.elapsed_nanos as nat);
    lemma_speed_no_break(r.io_write as nat, r.elapsed_nanos as nat);
    lemma_speed_no_break(r.net_rx as nat, r.elapsed_nanos as nat);
    lemma_speed_no_break(r.net_tx as nat, r.elapsed_nanos as nat);
    let l = lines(s, r);
    assert forall|k: int| 0 <= k < 7 implies no_break(#[trigger] lines(s, r)[k]) by {
        let t = l[k];
        assert forall|i: int| 0 <= i < t.len() implies t[i] != '\n' by {}
    }
}

impl Rates {
    /// The rates between `before` and `after`, read `elapsed_nanos` apart.
    pub fn between(before: &Sample, after: &Sample, elapsed_nanos: u64) -> (r: Rates)
        ensures
            r == rates_spec(*before, *after, elapsed_nanos),
    {
        Rates {
            elapsed_nanos,
            io_read: after.disk_read.saturating_sub(before.disk_read),
            io_write: after.disk_write.saturating_sub(before.disk_write),
            net_rx: after.net_rx.saturating_sub(before.net_rx),
            net_tx: after.net_tx.saturating_sub(before.net_tx),
        }
    }

    /// No movement on any counter, as after the first reading.
    pub fn zero() -> (r: Rates)
        ensures
            r == zero_rates(),
    {
        Rates { elapsed_nanos: 0, io_read: 0, io_write: 0, net_rx: 0, net_tx: 0 }
    }
}

/// Appends `key=[value]` to `t`.
fn push_line(t: &mut String, key: &str, value: &String)
    ensures
        final(t)@ == old(t)@ + line(key@, value@),
{
    proof {
        reveal_strlit("=[");
        reveal_strlit("]");
    }
    t.append(key);
    t.append("=[");
    t.append(value.as_str());
    t.append("]");
    assert(final(t)@ =~= old(t)@ + line(key@, value@));
}

/// Appends a line break to `t`.
fn push_break(t: &mut String)
    ensures
        final(t)@ == old(t)@ + seq!['\n'],
{
    proof {
        reveal_strlit("\n");
    }
    t.append("\n");
}

/// The text of each of the seven values.
fn values(s: &Sample, r: &Rates) -> (v: Vec<String>)
    ensures
        v@.len() == 7,
        v@[0]@ == f32_text(s.cpu_bits),
        v@[1]@ == decimal(pct_whole(s.mem_used as nat, s.mem_total as nat)),
        v@[2]@ == fixed1(pct_tenths(s.swap_used as nat, s.swap_total as nat)),
        v@[3]@ == speed_text(r.io_read as nat, r.elapsed_nanos as nat),
        v@[4]@ == speed_text(r.io_write as nat, r.elapsed_nanos as nat),
        v@[5]@ == speed_text(r.net_rx as nat, r.elapsed_nanos as nat),
        v@[6]@ == speed_text(r.net_tx as nat, r.elapsed_nanos as nat),
{
    let mut cpu = String::new();
    push_f32_fixed1(&mut cpu, s.cpu_bits);
    let mut mem = String::new();
    push_decimal(&mut mem, mem_percent(s.mem_used, s.mem_total));
    let mut swap = String::new();
    push_fixed1(&mut swap, swap_tenths(s.swap_used, s.swap_total));
    let mut v: Vec<String> = Vec::new();
    v.push(cpu);
    v.push(mem);
    v.push(swap);
    v.push(format_speed(r.io_read, r.elapsed_nanos));
    v.push(format_speed(r.io_write, r.elapsed_nanos));
    v.push(format_speed(r.net_rx, r.elapsed_nanos));
    v.push(format_speed(r.net_tx, r.elapsed_nanos));
    v
}

/// Renders the payload for reading `s` and rates `r`.
pub fn format_data(s: &Sample, r: &Rates) -> (t: String)
    ensures
        t@ == render(*s, *r),
{
    proof {
        reveal_strlit("cpu");
        reveal_strlit("mem");
        reveal_strlit("swap");
        reveal_strlit("io_read");
        reveal_strlit("io_write");
        reveal_strlit("net_rx");
        reveal_strlit("net_tx");
    }
    let v = values(s, r);
    let ghost l = lines(*s, *r);
    let mut t = String::new();
    push_line(&mut t, "cpu", &v[0]);
    assert(t@ =~= l[0]);
    push_break(&mut t);
    push_line(&mut t, "mem", &v[1]);
    push_break(&mut t);
    push_line(&mut t, "swap", &v[2]);
    push_break(&mut t);
    push_line(&mut t, "io_read", &v[3]);
    push_break(&mut t);
    push_line(&mut t, "io_write", &v[4]);
    push_break(&mut t);
    push_line(&mut t, "net_rx", &v[5]);
    push_break(&mut t);
    push_line(&mut t, "net_tx", &v[6]);
    assert(t@ =~= render(*s, *r));
    t
}

} // verus!
