use dsp_pipeline::audio_app::{AudioAppBuilder, ParamStore, ParamValue};
use dsp_pipeline::audio_app_manager::AudioAppManager;
use dsp_pipeline::dsp::{
    available_block_sizes, CpuUsagePublisher, DspProcessor, SessionSlot, DEFAULT_BLOCK_SIZE,
};
use dsp_pipeline::dsp_module::{DSPModule, Transformation};
use dsp_pipeline::gain_control::{GainControlModule, GainControlProcessor, GAIN_UNIT};

#[test]
fn param_store_snapshot_keeps_registration_order() {
    let mut store = ParamStore::new();
    assert_eq!(store.len(), 0);
    store.add("Gain".to_string(), ParamValue::Number(GAIN_UNIT), 0, 2000);
    store.add("Mute".to_string(), ParamValue::Boolean(false), 0, 1);
    assert_eq!(store.len(), 2);
    assert_eq!(store.name_at(0), "Gain");
    assert_eq!(store.name_at(1), "Mute");
    assert_eq!(store.range_at(0), (0, 2000));
    let snap = store.get_snapshot();
    assert_eq!(
        snap,
        vec![ParamValue::Number(GAIN_UNIT), ParamValue::Boolean(false)]
    );
}

#[test]
fn param_store_set_overwrites_value_only() {
    let mut store = ParamStore::new();
    store.add("Gain".to_string(), ParamValue::Number(GAIN_UNIT), 0, 2000);
    store.add("Mute".to_string(), ParamValue::Boolean(false), 0, 1);
    let before = store.get_snapshot();
    store.set(0, ParamValue::Number(1500));
    assert_eq!(store.name_at(0), "Gain");
    assert_eq!(store.range_at(0), (0, 2000));
    let snap = store.get_snapshot();
    assert_eq!(snap[0], ParamValue::Number(1500));
    assert_eq!(snap[1], before[1]);
    // The earlier snapshot is a copy: the write does not reach it.
    assert_eq!(before[0], ParamValue::Number(GAIN_UNIT));
}

#[test]
fn builder_collects_params_and_title() {
    let b = AudioAppBuilder::new();
    assert_eq!(b.window_title(), "Audio Controller");
    let b = b
        .add_param("Gain", ParamValue::Number(GAIN_UNIT), 0, 2 * GAIN_UNIT)
        .set_window_title("Gain Control");
    assert_eq!(b.window_title(), "Gain Control");
    let store = b.into_params();
    assert_eq!(store.len(), 1);
    assert_eq!(store.name_at(0), "Gain");
    assert_eq!(store.range_at(0), (0, 2 * GAIN_UNIT));
    assert_eq!(store.get_snapshot(), vec![ParamValue::Number(GAIN_UNIT)]);
}

#[test]
fn gain_scales_and_clamps() {
    let p = GainControlProcessor::new();
    let mut buf = vec![100i16, 30000, -30000, -7, 0];
    p.process(&mut buf, 2 * GAIN_UNIT);
    assert_eq!(buf, vec![200, 32767, -32768, -14, 0]);

    let mut buf = vec![100i16, 30000, -30000, -7];
    p.process(&mut buf, 500);
    // Scaling rounds toward zero.
    assert_eq!(buf, vec![50, 15000, -15000, -3]);
}

#[test]
fn gain_of_one_is_identity() {
    let p = GainControlProcessor::new();
    let original: Vec<i16> = (-50..50).map(|i| (i * 300) as i16).collect();
    let mut buf = original.clone();
    p.process(&mut buf, GAIN_UNIT);
    assert_eq!(buf, original);
}

#[test]
fn transformation_defaults_to_unit_gain() {
    let p = GainControlProcessor::new();
    // No parameters at all: the multiplier falls back to one.
    let mut buf = vec![123i16, -456];
    p.transform(&mut buf, &Vec::new());
    assert_eq!(buf, vec![123, -456]);
    // A non-numeric first parameter falls back to one as well.
    let mut buf = vec![123i16, -456];
    p.transform(&mut buf, &vec![ParamValue::Boolean(true)]);
    assert_eq!(buf, vec![123, -456]);
    // A numeric first parameter is the multiplier.
    let mut buf = vec![123i16, -456];
    p.transform(&mut buf, &vec![ParamValue::Number(2 * GAIN_UNIT)]);
    assert_eq!(buf, vec![246, -912]);
}

#[test]
fn cpu_usage_is_zero_under_bypass() {
    let mut d = DspProcessor::new(true, true, DEFAULT_BLOCK_SIZE);
    for _ in 0..5 {
        d.record_iteration(12345);
    }
    assert_eq!(d.processing_time_us, 0);
    assert!(d.total_elapsed_us > 0);
    assert_eq!(d.get_cpu_usage(), 0);
}

#[test]
fn cpu_usage_tracks_processing_share() {
    // At 48000 Hz a 4096-sample block lasts 85333 microseconds.
    let mut d = DspProcessor::new(true, false, 4096);
    d.record_iteration(85333);
    assert_eq!(d.processing_time_us, 85333);
    assert_eq!(d.total_elapsed_us, 85333);
    // Exactly the whole budget: 100.00 percent, in hundredths.
    assert_eq!(d.get_cpu_usage(), 10000);
    d.record_iteration(0);
    assert_eq!(d.total_elapsed_us, 170666);
    // Half the budget used so far: 50.00 percent.
    assert_eq!(d.get_cpu_usage(), 5000);
}

#[test]
fn driver_decisions_follow_flags_and_budget() {
    let mut d = DspProcessor::new(true, false, 4096);
    assert!(d.should_continue(false));
    assert!(!d.should_continue(true));
    d.stop();
    assert!(!d.is_playing);
    assert!(!d.should_continue(false));
    d.set_playing(true);
    assert!(d.should_continue(false));

    // The block lasts 85 whole milliseconds; an early iteration sleeps the
    // remainder, a late one does not sleep at all.
    assert_eq!(d.block_duration_micros(), 85333);
    assert_eq!(d.sleep_budget_ms(30), 55);
    assert_eq!(d.sleep_budget_ms(85), 0);
    assert_eq!(d.sleep_budget_ms(200), 0);
}

#[test]
fn publisher_is_last_write_wins() {
    let mut p = CpuUsagePublisher::new();
    assert_eq!(p.read(), 0);
    p.publish(1234);
    assert_eq!(p.read(), 1234);
    p.publish(7);
    assert_eq!(p.read(), 7);
}

#[test]
fn manager_switches_between_modules() {
    let modules = vec![GainControlModule::new(), GainControlModule::new()];
    let mut mgr = AudioAppManager::new(modules);
    assert_eq!(mgr.module_count(), 2);
    assert_eq!(mgr.current_module_index(), 0);
    mgr.switch_module(1);
    assert_eq!(mgr.current_module_index(), 1);
    // An index past the end changes nothing.
    mgr.switch_module(5);
    assert_eq!(mgr.current_module_index(), 1);
    assert!(mgr.current_module().is_some());
    assert_eq!(mgr.read_cpu_usage(), 0);
    mgr.publish_cpu_usage(4200);
    assert_eq!(mgr.read_cpu_usage(), 4200);

    let empty: Vec<GainControlModule> = Vec::new();
    let mgr = AudioAppManager::new(empty);
    assert!(mgr.current_module().is_none());
}

#[test]
fn installing_a_session_stops_the_prior_one() {
    let mut slot = SessionSlot::new();
    assert!(slot.current().is_none());
    let first = DspProcessor::new(true, false, DEFAULT_BLOCK_SIZE);
    assert!(slot.install(first).is_none());
    assert!(slot.current().as_ref().unwrap().is_playing);

    // The replaced session comes back with its transport flag cleared.
    let second = DspProcessor::new(true, true, 1024);
    let prior = slot.install(second).unwrap();
    assert!(!prior.is_playing);
    let current = slot.current().as_ref().unwrap();
    assert!(current.is_playing);
    assert!(current.bypass);
    assert_eq!(current.block_size, 1024);

    slot.stop_current();
    assert!(!slot.current().as_ref().unwrap().is_playing);
}

#[test]
fn gain_module_declares_its_parameter() {
    let m = GainControlModule::new();
    assert_eq!(m.name(), "Gain Control");
    let mut buf = vec![5i16];
    m.processor().process(&mut buf, 3 * GAIN_UNIT);
    assert_eq!(buf, vec![15]);
    let b = m.initialize();
    assert_eq!(b.window_title(), "Gain Control");
    let store = b.into_params();
    assert_eq!(store.len(), 1);
    assert_eq!(store.name_at(0), "Gain");
    assert_eq!(store.range_at(0), (0, 2 * GAIN_UNIT));
    assert_eq!(store.get_snapshot(), vec![ParamValue::Number(GAIN_UNIT)]);
}

#[test]
fn block_size_menu_matches_the_configuration_surface() {
    assert_eq!(available_block_sizes(), vec![1024, 2048, 4096, 8192, 16384]);
    assert_eq!(DEFAULT_BLOCK_SIZE, 4096);
}
