//! Statistics and per-workload network counters: how they go up, and how user space reads them.
use crate::map_types::PodNetCounters;
use vstd::prelude::*;

verus! {

/// The counters of one workload, summed over all CPUs.
#[derive(Copy, Clone, Debug, PartialEq, Eq, Structural)]
pub struct Agg {
    pub tx_bytes: u64,
    pub tx_packets: u64,
    pub rx_bytes: u64,
    pub rx_packets: u64,
}

/// What a workload moves per second.
#[derive(Copy, Clone, Debug, PartialEq, Eq, Structural)]
pub struct Rate {
    pub tx_bytes_per_sec: u64,
    pub tx_packets_per_sec: u64,
    pub rx_bytes_per_sec: u64,
    pub rx_packets_per_sec: u64,
}

/// The counter that `x` counts up to: counters wrap around.
pub open spec fn wrapped(x: int) -> u64 {
    (x % 0x1_0000_0000_0000_0000) as u64
}

/// The sum that `x` adds up to: sums stop at the largest value.
pub open spec fn capped(x: int) -> u64 {
    if x > u64::MAX {
        u64::MAX
    } else {
        x as u64
    }
}

/// A workload's counters after one more packet, sent if `tx`.
pub open spec fn accounted(c: PodNetCounters, tx: bool, bytes: u32) -> PodNetCounters {
    if tx {
        PodNetCounters {
            tx_bytes: wrapped(c.tx_bytes + bytes),
            tx_packets: wrapped(c.tx_packets + 1),
            ..c
        }
    } else {
        PodNetCounters {
            rx_bytes: wrapped(c.rx_bytes + bytes),
            rx_packets: wrapped(c.rx_packets + 1),
            ..c
        }
    }
}

/// Sums over several CPUs.
pub struct Totals {
    pub tx_bytes: int,
    pub tx_packets: int,
    pub rx_bytes: int,
    pub rx_packets: int,
}

/// The sums of all four counters.
pub open spec fn totals(per_cpu: Seq<PodNetCounters>) -> Totals
    decreases per_cpu.len(),
{
    if per_cpu.len() == 0 {
        Totals { tx_bytes: 0, tx_packets: 0, rx_bytes: 0, rx_packets: 0 }
    } else {
        let rest = totals(per_cpu.drop_last());
        let last = per_cpu.last();
        Totals {
            tx_bytes: rest.tx_bytes + last.tx_bytes,
            tx_packets: rest.tx_packets + last.tx_packets,
            rx_bytes: rest.rx_bytes + last.rx_bytes,
            rx_packets: rest.rx_packets + last.rx_packets,
        }
    }
}

/// The counters of one workload, summed over all CPUs.
pub open spec fn aggregated(per_cpu: Seq<PodNetCounters>) -> Agg {
    let sums = totals(per_cpu);
    Agg {
        tx_bytes: capped(sums.tx_bytes),
        tx_packets: capped(sums.tx_packets),
        rx_bytes: capped(sums.rx_bytes),
        rx_packets: capped(sums.rx_packets),
    }
}

/// What a counter gained per second: its distance around the wrap, divided and rounded down.
pub open spec fn per_sec(prev: u64, curr: u64, interval_secs: u64) -> u64 {
    wrapped(curr - prev) / interval_secs
}

/// The rates between two samples. Without time between them there are none.
pub open spec fn rated(prev: Agg, curr: Agg, interval_secs: u64) -> Option<Rate> {
    if interval_secs == 0 {
        None
    } else {
        Some(
            Rate {
                tx_bytes_per_sec: per_sec(prev.tx_bytes, curr.tx_bytes, interval_secs),
                tx_packets_per_sec: per_sec(prev.tx_packets, curr.tx_packets, interval_secs),
                rx_bytes_per_sec: per_sec(prev.rx_bytes, curr.rx_bytes, interval_secs),
                rx_packets_per_sec: per_sec(prev.rx_packets, curr.rx_packets, interval_secs),
            },
        )
    }
}

/// Counts an event under a statistic, if there is one.
pub fn bump_stat(slot: Option<&mut u64>)
    ensures
        slot matches Some(s) ==> *final(s) == wrapped(*s + 1),
{
    if let Some(value) = slot {
        *value = value.wrapping_add(1);
    }
}

/// Counts a packet of `bytes` bytes under a workload, if the workload has counters.
pub fn bump_net_counters(counters: Option<&mut PodNetCounters>, tx: bool, bytes: u32)
    ensures
        counters matches Some(c) ==> *final(c) == accounted(*c, tx, bytes),
{
    if let Some(c) = counters {
        if tx {
            c.tx_bytes = c.tx_bytes.wrapping_add(bytes as u64);
            c.tx_packets = c.tx_packets.wrapping_add(1);
        } else {
            c.rx_bytes = c.rx_bytes.wrapping_add(bytes as u64);
            c.rx_packets = c.rx_packets.wrapping_add(1);
        }
    }
}

/// Sums the samples of all CPUs for one workload.
pub fn aggregate(per_cpu: &[PodNetCounters]) -> (agg: Agg)
    ensures
        agg == aggregated(per_cpu@),
{
    let mut agg = Agg { tx_bytes: 0, tx_packets: 0, rx_bytes: 0, rx_packets: 0 };
    let mut i: usize = 0;
    assert(per_cpu@.take(0) =~= Seq::empty());
    while i < per_cpu.len()
        invariant
            i <= per_cpu@.len(),
            agg == aggregated(per_cpu@.take(i as int)),
        decreases per_cpu@.len() - i,
    {
        let c = per_cpu[i];
        proof {
            let next = per_cpu@.take(i + 1);
            assert(next.drop_last() =~= per_cpu@.take(i as int));
            lemma_totals_nonnegative(per_cpu@.take(i as int));
        }
        agg = Agg {
            tx_bytes: agg.tx_bytes.saturating_add(c.tx_bytes),
            tx_packets: agg.tx_packets.saturating_add(c.tx_packets),
            rx_bytes: agg.rx_bytes.saturating_add(c.rx_bytes),
            rx_packets: agg.rx_packets.saturating_add(c.rx_packets),
        };
        i = i + 1;
    }
    assert(per_cpu@.take(i as int) =~= per_cpu@);
    agg
}

/// The rates between two samples that are `interval_secs` apart.
pub fn rate(prev: &Agg, curr: &Agg, interval_secs: u64) -> (r: Option<Rate>)
    ensures
        r == rated(*prev, *curr, interval_secs),
{
    if interval_secs == 0 {
        return None;
    }
    Some(
        Rate {
            tx_bytes_per_sec: curr.tx_bytes.wrapping_sub(prev.tx_bytes) / interval_secs,
            tx_packets_per_sec: curr.tx_packets.wrapping_sub(prev.tx_packets) / interval_secs,
            rx_bytes_per_sec: curr.rx_bytes.wrapping_sub(prev.rx_bytes) / interval_secs,
            rx_packets_per_sec: curr.rx_packets.wrapping_sub(prev.rx_packets) / interval_secs,
        },
    )
}

/// Sums of counters are not negative.
proof fn lemma_totals_nonnegative(per_cpu: Seq<PodNetCounters>)
    ensures
        totals(per_cpu).tx_bytes >= 0,
        totals(per_cpu).tx_packets >= 0,
        totals(per_cpu).rx_bytes >= 0,
        totals(per_cpu).rx_packets >= 0,
    decreases per_cpu.len(),
{
    if per_cpu.len() > 0 {
        lemma_totals_nonnegative(per_cpu.drop_last());
    }
}

/// Each sample is at most the sum, and changing it changes the sum by as much.
proof fn lemma_totals_update(per_cpu: Seq<PodNetCounters>, cpu: int, c: PodNetCounters)
    requires
        0 <= cpu < per_cpu.len(),
    ensures
        ({
            let before = totals(per_cpu);
            let after = totals(per_cpu.update(cpu, c));
            let old_c = per_cpu[cpu];
            &&& old_c.tx_bytes <= before.tx_bytes
            &&& old_c.tx_packets <= before.tx_packets
            &&& old_c.rx_bytes <= before.rx_bytes
            &&& old_c.rx_packets <= before.rx_packets
            &&& after.tx_bytes == before.tx_bytes - old_c.tx_bytes + c.tx_bytes
            &&& after.tx_packets == before.tx_packets - old_c.tx_packets + c.tx_packets
            &&& after.rx_bytes == before.rx_bytes - old_c.rx_bytes + c.rx_bytes
            &&& after.rx_packets == before.rx_packets - old_c.rx_packets + c.rx_packets
        }),
    decreases per_cpu.len(),
{
    let rest = per_cpu.drop_last();
    let updated = per_cpu.update(cpu, c);
    lemma_totals_nonnegative(rest);
    if cpu == per_cpu.len() - 1 {
        assert(updated.drop_last() =~= rest);
    } else {
        assert(updated.drop_last() =~= rest.update(cpu, c));
        lemma_totals_update(rest, cpu, c);
    }
}

/// Rates are missing exactly where no time lies between the samples.
pub proof fn law_rate_needs_an_interval(prev: Agg, curr: Agg, interval_secs: u64)
    ensures
        rated(prev, curr, interval_secs) is None <==> interval_secs == 0,
{
}

/// Counters that did not move have rate zero.
pub proof fn law_unchanged_counters_have_rate_zero(agg: Agg, interval_secs: u64)
    requires
        interval_secs > 0,
    ensures
        rated(agg, agg, interval_secs) == Some(
            Rate {
                tx_bytes_per_sec: 0,
                tx_packets_per_sec: 0,
                rx_bytes_per_sec: 0,
                rx_packets_per_sec: 0,
            },
        ),
{
    assert(0u64 / interval_secs == 0) by (nonlinear_arith)
        requires
            interval_secs > 0,
    ;
}

/// A counter that gained `gain` has the rate of `gain`, even where it wrapped around.
pub proof fn law_rate_survives_wraparound(prev: u64, gain: u64, interval_secs: u64)
    requires
        interval_secs > 0,
    ensures
        per_sec(prev, wrapped(prev + gain), interval_secs) == gain / interval_secs,
{
}

/// A counter that moved by `moved`, wrapping around or not, moves the sum over all CPUs by as much.
proof fn lemma_gain_of_sum(before: int, after: int, counter: u64, moved: u64)
    requires
        0 <= before <= u64::MAX,
        0 <= after <= u64::MAX,
        after == before - counter + wrapped(counter + moved),
    ensures
        wrapped(capped(after) - capped(before)) == moved,
{
}

/// Whether neither of two sums is cut off at the largest counter value.
pub open spec fn in_full(before: int, after: int) -> bool {
    before <= u64::MAX && after <= u64::MAX
}

/// A packet that one CPU counts between two readings shows in the rates as that packet, sent
/// or received, and nothing else, even where the CPU's counter wraps around. The sums that move
/// must not be cut off at the largest counter value, before or after.
pub proof fn law_counted_packet_is_rated(
    per_cpu: Seq<PodNetCounters>,
    cpu: int,
    tx: bool,
    bytes: u32,
    interval_secs: u64,
)
    requires
        0 <= cpu < per_cpu.len(),
        interval_secs > 0,
        ({
            let sums = totals(per_cpu);
            let later = totals(per_cpu.update(cpu, accounted(per_cpu[cpu], tx, bytes)));
            if tx {
                &&& in_full(sums.tx_bytes, later.tx_bytes)
                &&& in_full(sums.tx_packets, later.tx_packets)
            } else {
                &&& in_full(sums.rx_bytes, later.rx_bytes)
                &&& in_full(sums.rx_packets, later.rx_packets)
            }
        }),
    ensures
        ({
            let before = aggregated(per_cpu);
            let after = aggregated(per_cpu.update(cpu, accounted(per_cpu[cpu], tx, bytes)));
            let gained = rated(before, after, interval_secs)->0;
            let (moved_bytes, moved_packets) = (bytes as u64 / interval_secs, 1u64 / interval_secs);
            &&& rated(before, after, interval_secs) is Some
            &&& tx ==> gained == (Rate {
                tx_bytes_per_sec: moved_bytes,
                tx_packets_per_sec: moved_packets,
                rx_bytes_per_sec: 0,
                rx_packets_per_sec: 0,
            })
            &&& !tx ==> gained == (Rate {
                tx_bytes_per_sec: 0,
                tx_packets_per_sec: 0,
                rx_bytes_per_sec: moved_bytes,
                rx_packets_per_sec: moved_packets,
            })
        }),
{
    let c = per_cpu[cpu];
    let updated = per_cpu.update(cpu, accounted(c, tx, bytes));
    let (sums, later) = (totals(per_cpu), totals(updated));
    lemma_totals_nonnegative(per_cpu);
    lemma_totals_nonnegative(updated);
    lemma_totals_update(per_cpu, cpu, accounted(c, tx, bytes));
    if tx {
        lemma_gain_of_sum(sums.tx_bytes, later.tx_bytes, c.tx_bytes, bytes as u64);
        lemma_gain_of_sum(sums.tx_packets, later.tx_packets, c.tx_packets, 1);
    } else {
        lemma_gain_of_sum(sums.rx_bytes, later.rx_bytes, c.rx_bytes, bytes as u64);
        lemma_gain_of_sum(sums.rx_packets, later.rx_packets, c.rx_packets, 1);
    }
    assert(0u64 / interval_secs == 0) by (nonlinear_arith)
        requires
            interval_secs > 0,
    ;
}

} // verus!
