use dsp_pipeline::audio_app::{ParamStore, ParamValue};
use dsp_pipeline::dsp::{available_block_sizes, BlockProcessor, SourceInfo, DEFAULT_BLOCK_SIZE};
use dsp_pipeline::gain_control::{GainControlProcessor, GAIN_UNIT};

fn info() -> SourceInfo {
    SourceInfo {
        sample_rate: 44100,
        channels: 2,
        current_frame_len: Some(7),
        total_duration_us: Some(123456),
    }
}

fn gain_store(gain: i32) -> ParamStore {
    let mut store = ParamStore::new();
    store.add("Gain".to_string(), ParamValue::Number(gain), 0, 2 * GAIN_UNIT);
    store
}

fn ramp(len: usize) -> Vec<i16> {
    let mut v = Vec::new();
    for i in 0..len {
        v.push((i % 20000) as i16 - 10000);
    }
    v
}

#[test]
fn yields_all_samples_for_every_block_size() {
    for &bs in available_block_sizes().iter() {
        let source = ramp(10000);
        let mut bp = BlockProcessor::new(
            source.clone(),
            info(),
            true,
            false,
            gain_store(GAIN_UNIT),
            GainControlProcessor::new(),
            bs,
        );
        let out = bp.collect_remaining();
        assert_eq!(out, source, "block size {}", bs);
        assert_eq!(bp.samples_processed, 10000);
    }
}

#[test]
fn bypass_is_identity_end_to_end() {
    let source = ramp(5000);
    let mut bp = BlockProcessor::new(
        source.clone(),
        info(),
        true,
        true,
        gain_store(2 * GAIN_UNIT),
        GainControlProcessor::new(),
        1024,
    );
    let out = bp.collect_remaining();
    assert_eq!(out, source);
    assert_eq!(bp.samples_processed, 0);
}

#[test]
fn bypass_toggle_acts_on_later_blocks_only() {
    let source = vec![100i16; 3072];
    let mut bp = BlockProcessor::new(
        source,
        info(),
        true,
        false,
        gain_store(2 * GAIN_UNIT),
        GainControlProcessor::new(),
        1024,
    );
    // First block is transformed: samples come out doubled.
    for _ in 0..500 {
        assert_eq!(bp.next(), Some(200));
    }
    // Toggling mid-block never changes the block already filled.
    bp.set_bypass(true);
    for _ in 500..1024 {
        assert_eq!(bp.next(), Some(200));
    }
    // The next block is filled under bypass: raw samples.
    for _ in 0..700 {
        assert_eq!(bp.next(), Some(100));
    }
    bp.set_bypass(false);
    for _ in 700..1024 {
        assert_eq!(bp.next(), Some(100));
    }
    // Third block is transformed again.
    for _ in 0..1024 {
        assert_eq!(bp.next(), Some(200));
    }
    assert_eq!(bp.next(), None);
}

#[test]
fn clearing_the_transport_flag_stops_the_stream() {
    let source = ramp(4000);
    let mut bp = BlockProcessor::new(
        source,
        info(),
        true,
        true,
        ParamStore::new(),
        GainControlProcessor::new(),
        1024,
    );
    for _ in 0..100 {
        assert!(bp.next().is_some());
    }
    bp.set_playing(false);
    assert_eq!(bp.next(), None);
    assert_eq!(bp.next(), None);
    // The stop is terminal: writing the flag back to true resumes nothing,
    // even though samples were still buffered when it was observed.
    bp.set_playing(true);
    assert_eq!(bp.next(), None);
    assert_eq!(bp.collect_remaining(), Vec::<i16>::new());
    // A streamer that was never started yields nothing either.
    let mut idle = BlockProcessor::new(
        ramp(100),
        info(),
        false,
        false,
        ParamStore::new(),
        GainControlProcessor::new(),
        1024,
    );
    assert_eq!(idle.next(), None);
    assert_eq!(idle.collect_remaining(), Vec::<i16>::new());
}

#[test]
fn end_to_end_ten_thousand_samples() {
    // 10000 samples at block size 4096: three invocations covering
    // 4096 + 4096 + 1808 samples.
    let source = ramp(10000);
    let mut bp = BlockProcessor::new(
        source.clone(),
        info(),
        true,
        false,
        gain_store(GAIN_UNIT),
        GainControlProcessor::new(),
        DEFAULT_BLOCK_SIZE,
    );
    // Identity multiplier reproduces the source exactly, block by block:
    // the invocations cover 4096, then 4096, then 1808 samples.
    for i in 0..4096 {
        assert_eq!(bp.next(), Some(source[i]));
    }
    assert_eq!(bp.samples_processed, 4096);
    assert_eq!(bp.next(), Some(source[4096]));
    assert_eq!(bp.samples_processed, 8192);
    for i in 4097..8192 {
        assert_eq!(bp.next(), Some(source[i]));
    }
    assert_eq!(bp.next(), Some(source[8192]));
    assert_eq!(bp.samples_processed, 10000);
    for i in 8193..10000 {
        assert_eq!(bp.next(), Some(source[i]));
    }
    assert_eq!(bp.next(), None);

    // Stopping after the first invocation yields exactly that block.
    let mut bp2 = BlockProcessor::new(
        source,
        info(),
        true,
        false,
        gain_store(GAIN_UNIT),
        GainControlProcessor::new(),
        DEFAULT_BLOCK_SIZE,
    );
    let mut got = Vec::new();
    for _ in 0..4096 {
        got.push(bp2.next().unwrap());
    }
    assert_eq!(bp2.samples_processed, 4096);
    bp2.set_playing(false);
    assert_eq!(bp2.next(), None);
    assert_eq!(got.len(), 4096);
}

#[test]
fn snapshot_is_taken_at_invocation_start() {
    let source = vec![100i16; 2048];
    let mut bp = BlockProcessor::new(
        source,
        info(),
        true,
        false,
        gain_store(GAIN_UNIT),
        GainControlProcessor::new(),
        1024,
    );
    // Block one is filled with the multiplier as of its start.
    assert_eq!(bp.next(), Some(100));
    // A write during the block's lifetime affects later fills only.
    bp.set_param(0, ParamValue::Number(2 * GAIN_UNIT));
    for _ in 1..1024 {
        assert_eq!(bp.next(), Some(100));
    }
    // Block two snapshots the new value at its own start.
    for _ in 0..1024 {
        assert_eq!(bp.next(), Some(200));
    }
    assert_eq!(bp.next(), None);
}

#[test]
fn final_partial_block_is_processed_in_full() {
    let source = vec![10i16; 1500];
    let mut bp = BlockProcessor::new(
        source,
        info(),
        true,
        false,
        gain_store(2 * GAIN_UNIT),
        GainControlProcessor::new(),
        1024,
    );
    let out = bp.collect_remaining();
    assert_eq!(out.len(), 1500);
    assert!(out.iter().all(|&s| s == 20));
    assert_eq!(bp.samples_processed, 1500);
}

#[test]
fn metadata_passes_through_unchanged() {
    let bp = BlockProcessor::new(
        ramp(10),
        info(),
        true,
        false,
        ParamStore::new(),
        GainControlProcessor::new(),
        2048,
    );
    assert_eq!(bp.sample_rate(), 44100);
    assert_eq!(bp.channels(), 2);
    assert_eq!(bp.current_frame_len(), Some(7));
    assert_eq!(bp.total_duration_us(), Some(123456));
}

#[test]
fn empty_source_yields_nothing() {
    let mut bp = BlockProcessor::new(
        Vec::new(),
        info(),
        true,
        false,
        ParamStore::new(),
        GainControlProcessor::new(),
        1024,
    );
    assert_eq!(bp.next(), None);
    assert_eq!(bp.collect_remaining(), Vec::<i16>::new());
    assert_eq!(bp.samples_processed, 0);
}
