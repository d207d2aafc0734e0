use bridgescope::device::DeviceTarget;
use bridgescope::processes::{
    click_sort_header, matches_search, ProcessInfo, ProcessSort, ProcessesEvent, ProcessesPanelState,
};

fn process(pid: u32, name: &str, cpu: Option<u32>, resident: Option<u64>) -> ProcessInfo {
    ProcessInfo {
        pid,
        name: name.to_owned(),
        user: None,
        state: None,
        cpu_centi_percent: cpu,
        memory_centi_percent: None,
        resident_memory_kib: resident,
    }
}

#[test]
fn search_matches_name_pid_and_user_case_insensitively() {
    let process = ProcessInfo {
        pid: 4321,
        name: "system_server".to_owned(),
        user: Some("system".to_owned()),
        state: None,
        cpu_centi_percent: None,
        memory_centi_percent: None,
        resident_memory_kib: None,
    };
    assert!(matches_search(&process, ""));
    assert!(matches_search(&process, "SYSTEM_SERVER"));
    assert!(matches_search(&process, "432"));
    assert!(matches_search(&process, "Syst"));
    assert!(!matches_search(&process, "webview"));
}

#[test]
fn resident_sort_orders_descending_with_missing_last() {
    let state = ProcessesPanelState {
        processes: vec![
            process(1, "small", Some(100), Some(1024)),
            process(2, "big", Some(900), Some(8192)),
            process(3, "unknown", Some(50), None),
        ],
        sort: ProcessSort::Resident,
        ..ProcessesPanelState::default()
    };
    let pids: Vec<u32> = state.visible_rows().iter().map(|&row| state.processes[row].pid).collect();
    assert_eq!(pids, [2, 1, 3]);
}

#[test]
fn unsorted_rows_keep_the_backend_order_and_filter() {
    let mut state = ProcessesPanelState {
        processes: vec![
            process(10, "b", Some(1), None),
            process(11, "a", Some(9), None),
            process(12, "ab", None, None),
        ],
        ..ProcessesPanelState::default()
    };
    assert_eq!(state.visible_rows(), vec![0, 1, 2]);
    state.search = " A ".to_owned();
    assert_eq!(state.visible_rows(), vec![1, 2]);
    click_sort_header(&mut state.sort, ProcessSort::Cpu);
    assert_eq!(state.sort, ProcessSort::Cpu);
    state.search.clear();
    assert_eq!(state.visible_rows(), vec![1, 0, 2]);
    click_sort_header(&mut state.sort, ProcessSort::Cpu);
    assert_eq!(state.sort, ProcessSort::Unsorted);
}

#[test]
fn snapshots_follow_the_selected_device() {
    let mut state = ProcessesPanelState::default();
    let target = DeviceTarget::new("s", 1);
    state.reset_for(Some(target.clone()));
    assert!(state.refresh().is_some());
    assert!(state.refresh().is_none());
    state.handle_event(&ProcessesEvent::ProcessesLoaded {
        target: DeviceTarget::new("other", 1),
        processes: vec![process(1, "x", None, None)],
    });
    assert!(state.processes.is_empty());
    state.handle_event(&ProcessesEvent::ProcessesLoaded { target, processes: vec![process(1, "x", None, None)] });
    assert_eq!(state.processes.len(), 1);
    assert!(!state.loading);
    state.reset_for(None);
    assert!(state.processes.is_empty());
}
