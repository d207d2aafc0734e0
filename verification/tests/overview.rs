use bridgescope::device::{DeviceRecord, DeviceState};
use bridgescope::i18n::Language;
use bridgescope::overview::{
    android_summary, format_kib_parts, hardware_fields, overview_fields, processor_summary,
    DeviceOverview, FieldIcon,
};

#[test]
fn splits_kib_into_value_and_unit() {
    assert_eq!(format_kib_parts(8 * 1024 * 1024), ("8.0".to_owned(), "GiB"));
}

#[test]
fn sizes_round_down_to_a_tenth() {
    assert_eq!(format_kib_parts(0).0, "0.0");
    assert_eq!(format_kib_parts(1_572_864).0, "1.5");
    assert_eq!(format_kib_parts(1_048_575).0, "0.9");
    assert_eq!(format_kib_parts(u64::MAX).0, "17592186044415.9");
}

fn overview() -> DeviceOverview {
    DeviceOverview {
        serial: "emulator-5554".to_owned(),
        model: Some("Pixel 9a".to_owned()),
        brand: None,
        manufacturer: Some("Google".to_owned()),
        android_version: Some("15".to_owned()),
        api_level: Some(35),
        kernel_version: Some("6.1".to_owned()),
        soc: Some("Tensor G4".to_owned()),
        cpu_cores: None,
        abi: Some("arm64-v8a".to_owned()),
        memory_total_kib: Some(8 * 1024 * 1024),
        storage_total_kib: Some(128 * 1024 * 1024),
        storage_used_kib: None,
        battery_percent: Some(87),
        screen_physical: Some("1080x2424".to_owned()),
        screen_override: None,
        screen_density: Some(420),
        font_scale: Some("1.0".to_owned()),
        wifi_ssid: None,
        ip_address: Some("10.0.2.16".to_owned()),
        mac_address: None,
    }
}

#[test]
fn android_and_processor_lines_degrade_gracefully() {
    let mut o = overview();
    assert_eq!(android_summary(&o), (Some("Android 15".to_owned()), Some("API 35".to_owned())));
    o.android_version = None;
    assert_eq!(android_summary(&o), (Some("API 35".to_owned()), None));
    o.api_level = None;
    assert_eq!(android_summary(&o), (None, None));
    assert_eq!(
        processor_summary(Language::English, &o),
        (Some("Tensor G4".to_owned()), Some("(arm64-v8a)".to_owned()))
    );
    o.soc = None;
    o.abi = None;
    assert_eq!(processor_summary(Language::English, &o), (None, None));
}

#[test]
fn hardware_fields_word_sizes_and_units() {
    let fields = hardware_fields(Language::English, &overview(), Some("1".to_owned()));
    assert_eq!(fields.len(), 10);
    assert_eq!(fields[1].value.as_deref(), Some("8.0"));
    assert_eq!(fields[1].unit.as_deref(), Some("GiB"));
    assert_eq!(fields[2].value.as_deref(), Some("0.0 / 128.0"));
    assert_eq!(fields[3].icon, FieldIcon::Battery(Some(87)));
    assert_eq!(fields[3].value.as_deref(), Some("87"));
    assert_eq!(fields[3].unit.as_deref(), Some("%"));
    assert_eq!(fields[4].unit.as_deref(), Some("(420dpi)"));
    assert_eq!(fields[5].value.as_deref(), Some("1080x2424"));
    assert_eq!(fields[6].unit.as_deref(), Some("×"));
    assert!(fields[7].value.is_none());
}

#[test]
fn identity_fields_come_first() {
    let device = DeviceRecord {
        serial: "emulator-5554".to_owned(),
        state: DeviceState::Online,
        model: Some("sdk_gphone64".to_owned()),
        generation: 1,
    };
    let fields = overview_fields(Language::English, &device, &overview(), None);
    assert_eq!(fields.len(), 16);
    assert_eq!(fields[0].label, "overview_field_name");
    assert_eq!(fields[1].value.as_deref(), Some("Google"));
    assert_eq!(fields[2].value.as_deref(), Some("sdk_gphone64"));
    assert_eq!(fields[3].value.as_deref(), Some("emulator-5554"));
    assert_eq!(fields[4].unit.as_deref(), Some("API 35"));
}
