//! Packet counters, sequence-gap loss detection and reconnect backoff.

use vstd::prelude::*;

verus! {

/// Adds `d` to `x` modulo 2^64 (how the lifetime counters advance).
pub open spec fn wrap_add(x: u64, d: u64) -> u64 {
    if x + d > u64::MAX {
        (x + d - 0x1_0000_0000_0000_0000) as u64
    } else {
        (x + d) as u64
    }
}

/// Adds `d` to `x`, stopping at `u64::MAX`.
pub open spec fn sat_add(x: u64, d: u64) -> u64 {
    if x + d > u64::MAX {
        u64::MAX
    } else {
        (x + d) as u64
    }
}

fn counter_add(x: u64, d: u64) -> (r: u64)
    ensures
        r == wrap_add(x, d),
{
    if x > u64::MAX - d {
        d - (u64::MAX - x) - 1
    } else {
        x + d
    }
}

fn saturating_inc(x: u64, d: u64) -> (r: u64)
    ensures
        r == sat_add(x, d),
{
    if x > u64::MAX - d {
        u64::MAX
    } else {
        x + d
    }
}

/// How many sequence numbers were skipped when `seq` arrives after `prev`
/// (0 when nothing was seen before, or when `seq` does not jump ahead).
pub open spec fn seq_gap(prev: Option<u64>, seq: u64) -> nat {
    match prev {
        Some(p) => if seq > p + 1 {
            (seq - p - 1) as nat
        } else {
            0
        },
        None => 0,
    }
}

/// Packet and connection counters with loss estimation from sequence gaps.
///
/// The lifetime counters wrap around like atomic counters; the rate window
/// and the expected-loss estimate saturate.
#[derive(Debug, Clone, Copy, PartialEq, Eq, Structural)]
pub struct PacketStats {
    /// Lifetime TX packets.
    pub tx_packets: u64,
    /// Lifetime RX packets.
    pub rx_packets: u64,
    /// Lifetime TX bytes.
    pub tx_bytes: u64,
    /// Lifetime RX bytes.
    pub rx_bytes: u64,
    /// Dropped packets.
    pub dropped: u64,
    /// Reconnect count.
    pub reconnects: u64,
    /// Error count.
    pub errors: u64,
    /// Sequence numbers skipped over (each missing number counts once).
    pub seq_gaps: u64,
    /// TX packets in the current rate window.
    pub window_tx: u64,
    /// RX packets in the current rate window.
    pub window_rx: u64,
    /// Last data-plane sequence number received, if any since the last reset.
    pub last_rx_seq: Option<u64>,
    /// Packets believed lost (sum of gaps, saturating).
    pub expected_loss: u64,
}

impl PacketStats {
    /// A collector with every counter at zero and no sequence seen.
    pub open spec fn zeroed() -> PacketStats {
        PacketStats {
            tx_packets: 0,
            rx_packets: 0,
            tx_bytes: 0,
            rx_bytes: 0,
            dropped: 0,
            reconnects: 0,
            errors: 0,
            seq_gaps: 0,
            window_tx: 0,
            window_rx: 0,
            last_rx_seq: None,
            expected_loss: 0,
        }
    }

    /// Create a new stats collector.
    pub fn new() -> (s: Self)
        ensures
            s == PacketStats::zeroed(),
    {
        PacketStats {
            tx_packets: 0,
            rx_packets: 0,
            tx_bytes: 0,
            rx_bytes: 0,
            dropped: 0,
            reconnects: 0,
            errors: 0,
            seq_gaps: 0,
            window_tx: 0,
            window_rx: 0,
            last_rx_seq: None,
            expected_loss: 0,
        }
    }

    /// Record an outgoing packet of `bytes` bytes.
    pub fn record_tx(&mut self, bytes: usize)
        ensures
            *final(self) == (PacketStats {
                tx_packets: wrap_add(old(self).tx_packets, 1),
                tx_bytes: wrap_add(old(self).tx_bytes, bytes as u64),
                window_tx: sat_add(old(self).window_tx, 1),
                ..*old(self)
            }),
    {
        self.tx_packets = counter_add(self.tx_packets, 1);
        self.tx_bytes = counter_add(self.tx_bytes, bytes as u64);
        self.window_tx = saturating_inc(self.window_tx, 1);
    }

    /// Record an incoming packet and, for data-plane frames, its sequence
    /// number for loss detection: a jump past `last + 1` counts the skipped
    /// numbers as gaps and expected loss; any sequence becomes the new last.
    pub fn record_rx(&mut self, bytes: usize, sequence: Option<u64>)
        ensures
            final(self).rx_packets == wrap_add(old(self).rx_packets, 1),
            final(self).rx_bytes == wrap_add(old(self).rx_bytes, bytes as u64),
            final(self).window_rx == sat_add(old(self).window_rx, 1),
            final(self).tx_packets == old(self).tx_packets,
            final(self).tx_bytes == old(self).tx_bytes,
            final(self).window_tx == old(self).window_tx,
            final(self).dropped == old(self).dropped,
            final(self).reconnects == old(self).reconnects,
            final(self).errors == old(self).errors,
            match sequence {
                None => {
                    &&& final(self).last_rx_seq == old(self).last_rx_seq
                    &&& final(self).seq_gaps == old(self).seq_gaps
                    &&& final(self).expected_loss == old(self).expected_loss
                },
                Some(seq) => {
                    &&& final(self).last_rx_seq == Some(seq)
                    &&& final(self).seq_gaps == wrap_add(
                        old(self).seq_gaps,
                        seq_gap(old(self).last_rx_seq, seq) as u64,
                    )
                    &&& final(self).expected_loss == sat_add(
                        old(self).expected_loss,
                        seq_gap(old(self).last_rx_seq, seq) as u64,
                    )
                },
            },
    {
        self.rx_packets = counter_add(self.rx_packets, 1);
        self.rx_bytes = counter_add(self.rx_bytes, bytes as u64);
        self.window_rx = saturating_inc(self.window_rx, 1);
        if let Some(seq) = sequence {
            if let Some(prev) = self.last_rx_seq {
                if prev < u64::MAX && seq > prev + 1 {
                    let gap = seq - prev - 1;
                    self.seq_gaps = counter_add(self.seq_gaps, gap);
                    self.expected_loss = saturating_inc(self.expected_loss, gap);
                }
            }
            self.last_rx_seq = Some(seq);
        }
    }

    /// Forget the last sequence number (new peer / endpoint): the next
    /// sequence starts a fresh run and counts no gap.
    pub fn reset_rx_sequence(&mut self)
        ensures
            *final(self) == (PacketStats { last_rx_seq: None, ..*old(self) }),
    {
        self.last_rx_seq = None;
    }

    /// Increment the dropped counter.
    pub fn record_drop(&mut self)
        ensures
            *final(self) == (PacketStats { dropped: wrap_add(old(self).dropped, 1), ..*old(self) }),
    {
        self.dropped = counter_add(self.dropped, 1);
    }

    /// Increment the reconnect counter.
    pub fn record_reconnect(&mut self)
        ensures
            *final(self) == (PacketStats {
                reconnects: wrap_add(old(self).reconnects, 1),
                ..*old(self)
            }),
    {
        self.reconnects = counter_add(self.reconnects, 1);
    }

    /// Increment the error counter.
    pub fn record_error(&mut self)
        ensures
            *final(self) == (PacketStats { errors: wrap_add(old(self).errors, 1), ..*old(self) }),
    {
        self.errors = counter_add(self.errors, 1);
    }

    /// Return the rate-window counts `(tx, rx)` and start a new window.
    pub fn take_window(&mut self) -> (w: (u64, u64))
        ensures
            w == (old(self).window_tx, old(self).window_rx),
            *final(self) == (PacketStats { window_tx: 0, window_rx: 0, ..*old(self) }),
    {
        let w = (self.window_tx, self.window_rx);
        self.window_tx = 0;
        self.window_rx = 0;
        w
    }
}

/// Over a run of strictly increasing sequence numbers with no reset in
/// between, the gaps counted add up to the numbers skipped between the first
/// and the last: `last - first - (n - 1)`.
pub open spec fn gaps_in_run(seqs: Seq<u64>) -> nat
    decreases seqs.len(),
{
    if seqs.len() <= 1 {
        0
    } else {
        gaps_in_run(seqs.drop_last()) + seq_gap(Some(seqs[seqs.len() - 2]), seqs.last())
    }
}

/// For strictly increasing sequence numbers the total gap is the distance from
/// the first to the last less the number of steps.
pub proof fn lemma_gaps_in_increasing_run(seqs: Seq<u64>)
    requires
        seqs.len() >= 1,
        forall|i: int| 0 <= i < seqs.len() - 1 ==> #[trigger] seqs[i] < seqs[i + 1],
    ensures
        gaps_in_run(seqs) == seqs.last() - seqs[0] - (seqs.len() - 1),
    decreases seqs.len(),
{
    if seqs.len() > 1 {
        let init = seqs.drop_last();
        assert forall|i: int| 0 <= i < init.len() - 1 implies #[trigger] init[i] < init[i + 1] by {
            assert(init[i] == seqs[i] && init[i + 1] == seqs[i + 1]);
        }
        lemma_gaps_in_increasing_run(init);
        assert(seqs[seqs.len() - 2] < seqs[seqs.len() - 1]);
    }
}

/// The multiplier `2^min(attempt, 10)` used by the reconnect backoff.
pub open spec fn backoff_factor(attempt: u32) -> u64 {
    1u64 << (if attempt < 10 {
        attempt
    } else {
        10u32
    }) as u64
}

/// Reconnect delay in milliseconds: `base_ms * 2^min(attempt, 10)` (saturating),
/// capped at `max_ms`.
pub open spec fn backoff_ms(base_ms: u64, max_ms: u64, attempt: u32) -> u64 {
    let product = base_ms * backoff_factor(attempt);
    let scaled = if product > u64::MAX {
        u64::MAX
    } else {
        product as u64
    };
    if scaled < max_ms {
        scaled
    } else {
        max_ms
    }
}

/// Reconnect backoff in milliseconds.
pub fn backoff_delay_ms(base_ms: u64, max_ms: u64, attempt: u32) -> (ms: u64)
    ensures
        ms == backoff_ms(base_ms, max_ms, attempt),
{
    let e: u32 = if attempt < 10 {
        attempt
    } else {
        10
    };
    let mult: u64 = 1u64 << e as u64;
    let scaled: u64 = match base_ms.checked_mul(mult) {
        Some(v) => v,
        None => u64::MAX,
    };
    if scaled < max_ms {
        scaled
    } else {
        max_ms
    }
}

/// The `Duration` that `Duration::from_millis` makes of `ms` milliseconds.
pub uninterp spec fn millis_duration(ms: u64) -> std::time::Duration;

/// Calls `std::time::Duration::from_millis`; the result is the named duration.
#[verifier::external_body]
fn duration_from_millis(ms: u64) -> (d: std::time::Duration)
    ensures
        d == millis_duration(ms),
{
    std::time::Duration::from_millis(ms)
}

/// Duration helper for reconnect backoff: the `Duration` of
/// [`backoff_delay_ms`] milliseconds.
pub fn backoff_delay(base_ms: u64, max_ms: u64, attempt: u32) -> (d: std::time::Duration)
    ensures
        d == millis_duration(backoff_ms(base_ms, max_ms, attempt)),
{
    duration_from_millis(backoff_delay_ms(base_ms, max_ms, attempt))
}

/// The backoff never exceeds its cap and never shrinks as attempts grow.
pub proof fn lemma_backoff_monotone(base_ms: u64, max_ms: u64, a1: u32, a2: u32)
    requires
        a1 <= a2,
    ensures
        backoff_ms(base_ms, max_ms, a1) <= backoff_ms(base_ms, max_ms, a2),
        backoff_ms(base_ms, max_ms, a2) <= max_ms,
{
    let e1: u32 = if a1 < 10 {
        a1
    } else {
        10u32
    };
    let e2: u32 = if a2 < 10 {
        a2
    } else {
        10u32
    };
    assert(e1 <= e2 <= 10);
    let e1u = e1 as u64;
    let e2u = e2 as u64;
    assert((1u64 << e1u) <= (1u64 << e2u)) by (bit_vector)
        requires
            e1u <= e2u <= 10u64,
    ;
    let f1 = backoff_factor(a1);
    let f2 = backoff_factor(a2);
    assert(f1 <= f2);
    assert(base_ms * f1 <= base_ms * f2) by (nonlinear_arith)
        requires
            f1 <= f2,
    ;
}

} // verus!
