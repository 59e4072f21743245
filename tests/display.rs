use history_graph::display::{DisplaySysInfo, FULL_SHARE, HISTORY_LEN};

fn panel() -> DisplaySysInfo {
    DisplaySysInfo::new(3, &vec!["CPU".to_string(), "GPU".to_string()])
}

#[test]
fn panel_series_layout() {
    let mut p = panel();
    assert_eq!(p.cpu_usage_history.series_count(), 2);
    assert_eq!(p.ram_usage_history.series_count(), 2);
    assert_eq!(p.temperature_usage_history.series_count(), 2);
    assert_eq!(p.network_history.series_count(), 2);
    assert_eq!(p.cpu_usage_history.window(), HISTORY_LEN);
    let r = p.cpu_usage_history.render(10, 10);
    assert_eq!(r.series[0].label, "process 1");
    assert_eq!(r.series[1].label, "process 2");
    let r = p.temperature_usage_history.render(10, 10);
    assert_eq!(r.series[1].label, "GPU");
    let r = p.network_history.render(10, 10);
    assert_eq!(r.series[0].label, "Input data");
    assert_eq!(r.series[1].label, "Output data");
}

#[test]
fn no_processor_no_core_series() {
    let p = DisplaySysInfo::new(0, &vec![]);
    assert_eq!(p.cpu_usage_history.series_count(), 0);
    assert_eq!(p.temperature_usage_history.series_count(), 0);
}

#[test]
fn ram_tick_records_shares() {
    let mut p = panel();
    p.update_ram_display(1000, 250, 400, 100, &vec![45, 60, 70], 1234, 99);
    assert_eq!(p.ram_usage_history.read(0, 0), 2500);
    // swap is measured against the larger of swap and RAM totals
    assert_eq!(p.ram_usage_history.read(1, 0), 1000);
    assert_eq!(p.temperature_usage_history.read(0, 0), 45);
    assert_eq!(p.temperature_usage_history.read(1, 0), 60);
    assert_eq!(p.network_history.read(0, 0), 1234);
    assert_eq!(p.network_history.read(1, 0), 99);
    assert_eq!(p.ram_usage_history.read(0, 1), 0);
}

#[test]
fn ram_tick_with_zero_totals() {
    let mut p = panel();
    p.update_ram_display(0, 0, 0, 0, &vec![], 0, 0);
    assert_eq!(p.ram_usage_history.read(0, 0), 0);
    assert_eq!(p.ram_usage_history.read(1, 0), 0);
    p.update_ram_display(10, 20, 0, 0, &vec![], 0, 0);
    assert_eq!(p.ram_usage_history.read(0, 0), FULL_SHARE);
}

#[test]
fn process_tick_skips_total_and_invalidates() {
    let mut p = panel();
    p.network_history.render(1, 1);
    assert!(!p.network_history.is_dirty());
    p.update_process_display(&vec![5000, 1000, 9000, 7000]);
    assert_eq!(p.cpu_usage_history.read(0, 0), 1000);
    assert_eq!(p.cpu_usage_history.read(1, 0), 9000);
    assert!(p.cpu_usage_history.is_dirty());
    assert!(p.network_history.is_dirty());
    assert!(p.ram_usage_history.is_dirty());
    assert!(p.temperature_usage_history.is_dirty());
}
