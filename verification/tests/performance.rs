use bridgescope::device::DeviceTarget;
use bridgescope::performance::{
    format_memory, present_runs, PerformanceEvent, PerformancePanelState, PerformanceReading, MAX_SAMPLES,
};

fn reading(cpu: u32) -> PerformanceReading {
    PerformanceReading { cpu_centi_percent: Some(cpu), memory_total_kib: Some(4096), memory_available_kib: Some(1024) }
}

#[test]
fn the_window_keeps_the_last_minute() {
    let mut state = PerformancePanelState::default();
    let target = DeviceTarget::new("s", 1);
    assert!(state.reset_for(Some(target.clone())));
    for cpu in 0..70 {
        state.handle_event(&PerformanceEvent::PerformanceLoaded { target: target.clone(), reading: reading(cpu) });
    }
    assert_eq!(state.samples.len(), MAX_SAMPLES);
    assert_eq!(state.samples[0].cpu_centi_percent, Some(10));
    assert_eq!(state.samples[59].cpu_centi_percent, Some(69));
    assert_eq!(state.samples[59].memory_used_kib, Some(3072));
    assert_eq!(state.latest, Some(reading(69)));
    assert!(!state.reset_for(Some(target)));
    assert!(state.reset_for(None));
    assert!(state.samples.is_empty());
}

#[test]
fn readings_for_other_devices_are_ignored() {
    let mut state = PerformancePanelState::default();
    state.reset_for(Some(DeviceTarget::new("s", 1)));
    state.handle_event(&PerformanceEvent::PerformanceLoaded { target: DeviceTarget::new("s", 2), reading: reading(1) });
    assert!(state.samples.is_empty());
    assert!(state.refresh().is_some());
    assert!(state.loading);
    assert!(state.refresh().is_none());
}

#[test]
fn memory_line_reads_used_over_total() {
    assert_eq!(format_memory(&reading(0)), "3 / 4 MiB");
    let unknown = PerformanceReading { cpu_centi_percent: None, memory_total_kib: Some(10), memory_available_kib: None };
    assert_eq!(format_memory(&unknown), "-");
    let odd = PerformanceReading { cpu_centi_percent: None, memory_total_kib: Some(1024), memory_available_kib: Some(4096) };
    assert_eq!(format_memory(&odd), "0 / 1 MiB");
}

#[test]
fn charts_draw_runs_of_present_values() {
    assert_eq!(present_runs(&vec![true, true, false, true, false, false, true]), vec![(0, 2), (3, 4), (6, 7)]);
    assert_eq!(present_runs(&vec![false, false]), vec![]);
    assert_eq!(present_runs(&vec![]), vec![]);
    assert_eq!(present_runs(&vec![true; 3]), vec![(0, 3)]);
}
