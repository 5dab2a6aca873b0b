//! Layout and semantics of the per-workload network counters.

use fleetos_ebpf::counters::{aggregate, bump_net_counters, bump_stat, rate, Agg, Rate};
use fleetos_ebpf::{HostOrderIpv4, PodNetCounters};

/// The number in a printed address.
fn address(printed: &str) -> usize {
    usize::from_str_radix(printed.trim_start_matches("0x"), 16).unwrap()
}

#[test]
fn pod_net_counters_layout_is_frozen() {
    assert_eq!(core::mem::size_of::<PodNetCounters>(), 32);
    assert_eq!(core::mem::align_of::<PodNetCounters>(), 8);

    let c = PodNetCounters {
        tx_bytes: 0,
        tx_packets: 0,
        rx_bytes: 0,
        rx_packets: 0,
    };
    let base = address(&format!("{:p}", &c));
    assert_eq!(address(&format!("{:p}", &c.tx_bytes)) - base, 0);
    assert_eq!(address(&format!("{:p}", &c.tx_packets)) - base, 8);
    assert_eq!(address(&format!("{:p}", &c.rx_bytes)) - base, 16);
    assert_eq!(address(&format!("{:p}", &c.rx_packets)) - base, 24);
}

#[test]
fn map_key_matches_src_identity_keyspace() {
    // The counters are keyed by HostOrderIpv4 (4 bytes), the same key space as the source
    // identities, so that an address can be correlated with its workload.
    assert_eq!(core::mem::size_of::<HostOrderIpv4>(), 4);
}

fn counters(tx_b: u64, tx_p: u64, rx_b: u64, rx_p: u64) -> PodNetCounters {
    PodNetCounters {
        tx_bytes: tx_b,
        tx_packets: tx_p,
        rx_bytes: rx_b,
        rx_packets: rx_p,
    }
}

#[test]
fn aggregate_sums_across_cpus() {
    let per_cpu = [
        counters(100, 1, 0, 0),
        counters(50, 2, 10, 1),
        counters(0, 0, 5, 1),
    ];
    let agg = aggregate(&per_cpu);
    assert_eq!(
        agg,
        Agg {
            tx_bytes: 150,
            tx_packets: 3,
            rx_bytes: 15,
            rx_packets: 2
        }
    );
}

#[test]
fn rate_computes_per_second() {
    let prev = aggregate(&[counters(0, 0, 0, 0)]);
    let curr = aggregate(&[counters(1000, 10, 500, 5)]);
    let r = rate(&prev, &curr, 10).unwrap();
    assert_eq!(r.tx_bytes_per_sec, 100);
    assert_eq!(r.tx_packets_per_sec, 1);
    assert_eq!(r.rx_bytes_per_sec, 50);
    assert_eq!(r.rx_packets_per_sec, 0); // 5/10 truncates to 0
}

#[test]
fn rate_zero_interval_is_none() {
    let a = aggregate(&[counters(1, 1, 1, 1)]);
    assert!(rate(&a, &a, 0).is_none());
}

#[test]
fn rate_no_change_is_zero() {
    let a = aggregate(&[counters(42, 7, 9, 3)]);
    let r = rate(&a, &a, 5).unwrap();
    assert_eq!(r.tx_bytes_per_sec, 0);
    assert_eq!(r.rx_packets_per_sec, 0);
}

#[test]
fn rate_handles_wraparound() {
    let prev = aggregate(&[counters(u64::MAX - 10, 0, 0, 0)]);
    let curr = aggregate(&[counters(5, 0, 0, 0)]); // wrapped past u64::MAX
    let r = rate(&prev, &curr, 1).unwrap();
    // (5 - (MAX-10)) mod 2^64 == 16
    assert_eq!(r.tx_bytes_per_sec, 16);
}

#[test]
fn aggregate_of_no_cpu_is_zero() {
    assert_eq!(
        aggregate(&[]),
        Agg {
            tx_bytes: 0,
            tx_packets: 0,
            rx_bytes: 0,
            rx_packets: 0
        }
    );
}

#[test]
fn aggregate_saturates() {
    let agg = aggregate(&[counters(u64::MAX, 1, 2, 3), counters(1, 1, u64::MAX - 2, 4)]);
    assert_eq!(agg.tx_bytes, u64::MAX);
    assert_eq!(agg.tx_packets, 2);
    assert_eq!(agg.rx_bytes, u64::MAX);
    assert_eq!(agg.rx_packets, 7);
}

#[test]
fn sent_packet_raises_tx_only() {
    let mut c = counters(10, 1, 20, 2);
    bump_net_counters(Some(&mut c), true, 1500);
    assert_eq!(c, counters(1510, 2, 20, 2));
}

#[test]
fn received_packet_raises_rx_only() {
    let mut c = counters(10, 1, 20, 2);
    bump_net_counters(Some(&mut c), false, 64);
    assert_eq!(c, counters(10, 1, 84, 3));
}

#[test]
fn counters_wrap_around() {
    let mut c = counters(u64::MAX, u64::MAX, 0, 0);
    bump_net_counters(Some(&mut c), true, 3);
    assert_eq!(c, counters(2, 0, 0, 0));
}

#[test]
fn missing_counters_are_skipped() {
    bump_net_counters(None, true, 3);
    bump_stat(None);
}

#[test]
fn statistic_goes_up_by_one_and_wraps() {
    let mut slot = 41;
    bump_stat(Some(&mut slot));
    assert_eq!(slot, 42);
    let mut full = u64::MAX;
    bump_stat(Some(&mut full));
    assert_eq!(full, 0);
}

#[test]
fn counted_packet_shows_in_the_rates() {
    let mut per_cpu = [counters(100, 1, 5, 5), counters(50, 2, 10, 1)];
    let before = aggregate(&per_cpu);
    bump_net_counters(Some(&mut per_cpu[1]), true, 3000);
    let after = aggregate(&per_cpu);
    assert_eq!(
        rate(&before, &after, 2),
        Some(Rate {
            tx_bytes_per_sec: 1500,
            tx_packets_per_sec: 0,
            rx_bytes_per_sec: 0,
            rx_packets_per_sec: 0
        })
    );
}

#[test]
fn counted_packet_shows_in_the_rates_across_a_wrap() {
    let mut cpu = counters(u64::MAX - 99, u64::MAX, 7, 8);
    let prev = aggregate(&[cpu]);
    bump_net_counters(Some(&mut cpu), true, 1500);
    assert_eq!(cpu, counters(1400, 0, 7, 8));
    let r = rate(&prev, &aggregate(&[cpu]), 1).unwrap();
    assert_eq!(r.tx_bytes_per_sec, 1500);
    assert_eq!(r.tx_packets_per_sec, 1);
    assert_eq!(r.rx_bytes_per_sec, 0);
    assert_eq!(r.rx_packets_per_sec, 0);
}
