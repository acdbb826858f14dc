use loudnorm::blocks::BlockClock;
use loudnorm::stats::Stats;

#[test]
fn block_alignment_at_48k() {
    // 48 kHz, 400 ms window, 4 partitions: overlap of 4800 frames.
    let mut clock = BlockClock::new(4800, 4);
    let mut finished_at = Vec::new();
    for n in 1..=48000u64 {
        if let Some((_slot, finished)) = clock.tick() {
            if finished {
                finished_at.push(n);
            }
        }
    }
    // The first completed block emerges after 4 * 4800 frames, then one per
    // overlap stride.
    assert_eq!(finished_at, vec![19200, 24000, 28800, 33600, 38400, 43200, 48000]);
}

#[test]
fn clock_rotates_slots() {
    let mut clock = BlockClock::new(2, 3);
    assert_eq!(clock.active_slots(), 1);
    assert_eq!(clock.tick(), None);
    assert_eq!(clock.tick(), Some((1, false)));
    assert_eq!(clock.active_slots(), 2);
    assert_eq!(clock.tick(), None);
    assert_eq!(clock.tick(), Some((2, false)));
    assert_eq!(clock.active_slots(), 3);
    assert_eq!(clock.tick(), None);
    assert_eq!(clock.tick(), Some((0, true)));
    assert_eq!(clock.active_slots(), 3);
    assert_eq!(clock.tick(), None);
    assert_eq!(clock.tick(), Some((1, true)));
}

#[test]
fn silence_yields_no_gated_blocks() {
    // One second of 48 kHz silence driven through the block schedule the way
    // the analysis loop drives it: every completed block has zero power,
    // which the absolute gate drops, so the histogram stays empty.
    let gate = 1.1724653045822964e-7f64;
    let scale = 1.0 / (4.0 * 4800.0);
    let mut clock = BlockClock::new(4800, 4);
    let mut ring = [0.0f64; 4];
    let mut stats = Stats::new();
    let mut peak = 0.0f64;
    for _ in 0..48000 {
        let sample = 0.0f64;
        peak = peak.max(sample.abs());
        let wssqs = sample * sample;
        for slot in ring.iter_mut().take(clock.active_slots()) {
            *slot += wssqs * scale;
        }
        if let Some((slot, finished)) = clock.tick() {
            if finished && ring[slot] > gate {
                stats.add_block(0);
            }
            ring[slot] = 0.0;
        }
    }
    assert_eq!(stats.total_count(), 0);
    assert_eq!(stats.gated_count(0), 0);
    // An empty histogram selects no cell, and the caller keeps its sentinel
    // minimum loudness.
    assert_eq!(stats.quantile_bin(0, 1), None);
    assert_eq!(peak, 0.0);
}
