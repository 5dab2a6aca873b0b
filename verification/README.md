# fleetos-ebpf

The kernel-level enforcement and routing plane of FleetOS, as a verified library.

In the overlay, identity is the address. The hooks here intercept connections and packets, map
their addresses to 128-bit identity fingerprints, and enforce a default-deny policy: exact rule,
then wildcard rule, then deny. In an exact rule, port 0 and protocol 0 mean "any"; a rule for the
flow's own port and protocol comes first, then its protocol with any port, any protocol with its
port, and any of both. A source without an identity is denied whatever the rules say.

## Layout

- `src/` is the library: every decision that the hooks take, with contracts and proofs in
  [Verus](https://github.com/verus-lang/verus).
  - `byte_order`, `map_types`: addresses, ports, and the entries that user space shares.
  - `packet`, `overlay`: headers, ports and the overlay's address range.
  - `policy`: two-tier authorization.
  - `connect4`, `tc`, `sockops`, `sk_msg`: the hooks. `ingress_filter`: a stand-alone filter.
  - `counters`: statistics, per-workload counters, and how user space turns them into rates.
  - `kernel`, `laws`: the vocabulary of a run, and what holds of every run.
- `app/` is the eBPF object around it: maps, contexts, and the loops that perform what a run
  waits for. On the host it is the build runner.
- `tests/` drives the library against maps in memory.

## How a hook runs

A hook is a state machine without allocation or panics. Each state names one kernel operation, such
as a map lookup or a counter. The caller performs it and hands the answer to the state, which gives
the next one, until `Exit` carries the return code. The contract of each hook's start says what the
whole run does, in order, for every way in which the kernel may answer.

## What is trusted

The standard library's byte-order conversions (`from_be`, `to_be`), whose contracts are in
`byte_order`, and that `app/` performs the operation that it is asked for.
