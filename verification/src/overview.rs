//! The overview card of the selected device: which facts are shown, and how
//! sizes, versions and the processor are worded.

use vstd::prelude::*;

use crate::device::DeviceRecord;
use crate::i18n::{text, translation, Language};
use crate::text::{chars_of, decimal, decimal_chars, push_char, push_chars, string_of};

verus! {

/// Kibibytes per gibibyte.
pub const KIB_PER_GIB: u64 = 1_048_576;

/// What adb reported about a device.
#[derive(Clone, Debug, PartialEq, Eq)]
pub struct DeviceOverview {
    pub serial: String,
    pub model: Option<String>,
    pub brand: Option<String>,
    pub manufacturer: Option<String>,
    pub android_version: Option<String>,
    pub api_level: Option<u32>,
    pub kernel_version: Option<String>,
    pub soc: Option<String>,
    pub cpu_cores: Option<u32>,
    pub abi: Option<String>,
    pub memory_total_kib: Option<u64>,
    pub storage_total_kib: Option<u64>,
    pub storage_used_kib: Option<u64>,
    pub battery_percent: Option<u8>,
    pub screen_physical: Option<String>,
    pub screen_override: Option<String>,
    pub screen_density: Option<u32>,
    pub font_scale: Option<String>,
    pub wifi_ssid: Option<String>,
    pub ip_address: Option<String>,
    pub mac_address: Option<String>,
}

/// The glyph drawn next to a field.
#[derive(Clone, Copy, Debug, PartialEq, Eq, Structural)]
pub enum FieldIcon {
    Name,
    Brand,
    ModelCode,
    Serial,
    Android,
    Kernel,
    Cpu,
    Memory,
    Storage,
    Battery(Option<u8>),
    Physical,
    Resolution,
    Font,
    Wifi,
    Ip,
    Mac,
}

/// One cell of the overview grid.
pub struct Field {
    pub icon: FieldIcon,
    /// Text-table key of the label.
    pub label: &'static str,
    /// Main value; absent values show as "not available".
    pub value: Option<String>,
    /// Unit or qualifier shown small after the value.
    pub unit: Option<String>,
}

/// A field as plain values: icon, label key, value, unit.
pub struct FieldView {
    pub icon: FieldIcon,
    pub label: Seq<char>,
    pub value: Option<Seq<char>>,
    pub unit: Option<Seq<char>>,
}

/// An optional string as an optional character sequence.
pub open spec fn text_of(value: Option<String>) -> Option<Seq<char>> {
    match value {
        Some(s) => Some(s@),
        None => None,
    }
}

/// The fields of a list, as plain values.
pub open spec fn field_views(fields: Seq<Field>) -> Seq<FieldView> {
    fields.map_values(
        |f: Field| FieldView { icon: f.icon, label: f.label@, value: text_of(f.value), unit: text_of(f.unit) },
    )
}

/// A field without a unit.
pub fn field(icon: FieldIcon, label: &'static str, value: Option<String>) -> (f: Field)
    ensures
        f.icon == icon,
        f.label == label,
        f.value == value,
        f.unit is None,
{
    Field { icon, label, value, unit: None }
}

/// A field with a unit.
pub fn field_with_unit(icon: FieldIcon, label: &'static str, value: Option<String>, unit: Option<String>) -> (f: Field)
    ensures
        f.icon == icon,
        f.label == label,
        f.value == value,
        f.unit == unit,
{
    Field { icon, label, value, unit }
}

/// Tenths of a gibibyte in `kib` kibibytes, rounded down.
pub open spec fn gib_tenths(kib: u64) -> nat {
    (kib as nat * 10 / KIB_PER_GIB as nat) as nat
}

/// A size in gibibytes with one decimal, rounded down: `8.0`.
pub open spec fn gib_text(kib: u64) -> Seq<char> {
    decimal(gib_tenths(kib) / 10) + seq!['.'] + decimal(gib_tenths(kib) % 10)
}

/// A size as number and unit, so the unit can be drawn smaller:
/// `("8.0", "GiB")`.
pub fn format_kib_parts(value: u64) -> (parts: (String, &'static str))
    ensures
        parts.0@ == gib_text(value),
        parts.1@ == "GiB"@,
{
    let tenths: u128 = (value as u128) * 10 / (KIB_PER_GIB as u128);
    assert(tenths == gib_tenths(value));
    let whole = (tenths / 10) as u64;
    let fraction = (tenths % 10) as u64;
    let mut number = string_of(decimal_chars(whole).as_slice());
    push_char(&mut number, '.');
    push_chars(&mut number, decimal_chars(fraction).as_slice());
    proof {
        reveal_strlit("GiB");
    }
    (number, "GiB")
}

/// `prefix` followed by `rest`.
fn joined(prefix: &str, rest: &str) -> (s: String)
    ensures
        s@ == prefix@ + rest@,
{
    let mut s = string_of(chars_of(prefix).as_slice());
    push_chars(&mut s, chars_of(rest).as_slice());
    s
}

/// `Android 14` with `API 34` as the unit; either part alone when the other
/// is missing.
pub open spec fn android_parts(version: Option<String>, api: Option<u32>) -> (Option<Seq<char>>, Option<Seq<char>>) {
    match (version, api) {
        (Some(v), Some(a)) => (Some("Android "@ + v@), Some("API "@ + decimal(a as nat))),
        (Some(v), None) => (Some("Android "@ + v@), None),
        (None, Some(a)) => (Some("API "@ + decimal(a as nat)), None),
        (None, None) => (None, None),
    }
}

/// The Android version line of the overview.
pub fn android_summary(overview: &DeviceOverview) -> (parts: (Option<String>, Option<String>))
    ensures
        (text_of(parts.0), text_of(parts.1)) == android_parts(overview.android_version, overview.api_level),
{
    let api_text = match overview.api_level {
        Some(api) => Some(joined("API ", string_of(decimal_chars(api as u64).as_slice()).as_str())),
        None => None,
    };
    proof {
        reveal_strlit("API ");
        reveal_strlit("Android ");
    }
    match &overview.android_version {
        Some(version) => (Some(joined("Android ", version.as_str())), api_text),
        None => (api_text, None),
    }
}

/// SoC and core count joined by ` · ` as the value, the ABI in brackets as
/// the unit: `SM8475 · 8 cores` + `(arm64-v8a)`.
pub open spec fn processor_parts(language: Language, soc: Option<String>, cores: Option<u32>, abi: Option<String>) -> (
    Option<Seq<char>>,
    Option<Seq<char>>,
) {
    let cores_text = match cores {
        Some(c) => Some(decimal(c as nat) + seq![' '] + translation(language, "overview_cpu_cores"@)),
        None => None,
    };
    let value = match (soc, cores_text) {
        (Some(s), Some(c)) => Some(s@ + seq![' ', '·', ' '] + c),
        (Some(s), None) => Some(s@),
        (None, Some(c)) => Some(c),
        (None, None) => None,
    };
    let unit = match abi {
        Some(a) => Some(seq!['('] + a@ + seq![')']),
        None => None,
    };
    (value, unit)
}

/// The processor line of the overview.
pub fn processor_summary(language: Language, overview: &DeviceOverview) -> (parts: (Option<String>, Option<String>))
    ensures
        (text_of(parts.0), text_of(parts.1)) == processor_parts(
            language,
            overview.soc,
            overview.cpu_cores,
            overview.abi,
        ),
{
    let cores_text = match overview.cpu_cores {
        Some(cores) => {
            let mut t = string_of(decimal_chars(cores as u64).as_slice());
            push_char(&mut t, ' ');
            push_chars(&mut t, chars_of(text(language, "overview_cpu_cores")).as_slice());
            Some(t)
        },
        None => None,
    };
    let value = match (&overview.soc, cores_text) {
        (Some(soc), Some(cores)) => {
            let mut v = soc.clone();
            push_char(&mut v, ' ');
            push_char(&mut v, '·');
            push_char(&mut v, ' ');
            push_chars(&mut v, chars_of(cores.as_str()).as_slice());
            Some(v)
        },
        (Some(soc), None) => Some(soc.clone()),
        (None, Some(cores)) => Some(cores),
        (None, None) => None,
    };
    let unit = match &overview.abi {
        Some(abi) => {
            let mut u = String::new();
            push_char(&mut u, '(');
            push_chars(&mut u, chars_of(abi.as_str()).as_slice());
            push_char(&mut u, ')');
            Some(u)
        },
        None => None,
    };
    (value, unit)
}

/// The storage line: `used / total` in gibibytes, an unknown used amount
/// counting as zero; absent without a total.
pub open spec fn storage_text(used: Option<u64>, total: Option<u64>) -> Option<Seq<char>> {
    match total {
        Some(t) => Some(
            gib_text(
                match used {
                    Some(u) => u,
                    None => 0,
                },
            ) + seq![' ', '/', ' '] + gib_text(t),
        ),
        None => None,
    }
}

/// The physical screen size with the density in brackets as its unit; the
/// density alone is not shown.
pub open spec fn physical_parts(size: Option<String>, density: Option<u32>) -> (Option<Seq<char>>, Option<Seq<char>>) {
    match (size, density) {
        (Some(s), Some(d)) => (Some(s@), Some(seq!['('] + decimal(d as nat) + "dpi)"@)),
        (Some(s), None) => (Some(s@), None),
        _ => (None, None),
    }
}

/// `unit` when `present`.
pub open spec fn unit_if(present: bool, unit: Seq<char>) -> Option<Seq<char>> {
    if present {
        Some(unit)
    } else {
        None
    }
}

/// The hardware, display and network fields, in grid order. The font scale
/// is given already worded (it is a decimal number read and printed by the
/// application shell).
pub open spec fn hardware_views(language: Language, o: DeviceOverview, font_scale: Option<Seq<char>>) -> Seq<FieldView> {
    let processor = processor_parts(language, o.soc, o.cpu_cores, o.abi);
    let physical = physical_parts(o.screen_physical, o.screen_density);
    seq![
        FieldView { icon: FieldIcon::Cpu, label: "overview_field_cpu"@, value: processor.0, unit: processor.1 },
        FieldView {
            icon: FieldIcon::Memory,
            label: "overview_field_memory"@,
            value: match o.memory_total_kib {
                Some(m) => Some(gib_text(m)),
                None => None,
            },
            unit: unit_if(o.memory_total_kib is Some, "GiB"@),
        },
        FieldView {
            icon: FieldIcon::Storage,
            label: "overview_field_storage"@,
            value: storage_text(o.storage_used_kib, o.storage_total_kib),
            unit: unit_if(o.storage_total_kib is Some, "GiB"@),
        },
        FieldView {
            icon: FieldIcon::Battery(o.battery_percent),
            label: "overview_field_battery"@,
            value: match o.battery_percent {
                Some(b) => Some(decimal(b as nat)),
                None => None,
            },
            unit: unit_if(o.battery_percent is Some, "%"@),
        },
        FieldView { icon: FieldIcon::Physical, label: "overview_field_physical"@, value: physical.0, unit: physical.1 },
        FieldView {
            icon: FieldIcon::Resolution,
            label: "overview_field_resolution"@,
            value: match o.screen_override {
                Some(s) => Some(s@),
                None => text_of(o.screen_physical),
            },
            unit: None,
        },
        FieldView { icon: FieldIcon::Font, label: "overview_field_font"@, value: font_scale, unit: Some("×"@) },
        FieldView { icon: FieldIcon::Wifi, label: "overview_field_wifi"@, value: text_of(o.wifi_ssid), unit: None },
        FieldView { icon: FieldIcon::Ip, label: "overview_field_ip"@, value: text_of(o.ip_address), unit: None },
        FieldView { icon: FieldIcon::Mac, label: "overview_field_mac"@, value: text_of(o.mac_address), unit: None },
    ]
}

fn copy_text(value: &Option<String>) -> (copy: Option<String>)
    ensures
        copy == *value,
{
    match value {
        Some(v) => Some(v.clone()),
        None => None,
    }
}

fn unit_when(present: bool, unit: &str) -> (u: Option<String>)
    ensures
        text_of(u) == unit_if(present, unit@),
{
    if present {
        Some(string_of(chars_of(unit).as_slice()))
    } else {
        None
    }
}

/// The hardware, display and network fields of the overview.
pub fn hardware_fields(language: Language, overview: &DeviceOverview, font_scale: Option<String>) -> (fields: Vec<Field>)
    ensures
        field_views(fields@) == hardware_views(language, *overview, text_of(font_scale)),
{
    let (processor, processor_unit) = processor_summary(language, overview);
    let storage = match overview.storage_total_kib {
        Some(total) => {
            let used = match overview.storage_used_kib {
                Some(u) => u,
                None => 0,
            };
            let mut s = format_kib_parts(used).0;
            push_char(&mut s, ' ');
            push_char(&mut s, '/');
            push_char(&mut s, ' ');
            push_chars(&mut s, chars_of(format_kib_parts(total).0.as_str()).as_slice());
            assert(s@ =~= gib_text(used) + seq![' ', '/', ' '] + gib_text(total));
            Some(s)
        },
        None => None,
    };
    let (physical, density_unit) = match (&overview.screen_physical, overview.screen_density) {
        (Some(size), Some(density)) => {
            let mut unit = String::new();
            push_char(&mut unit, '(');
            push_chars(&mut unit, decimal_chars(density as u64).as_slice());
            push_chars(&mut unit, chars_of("dpi)").as_slice());
            (Some(size.clone()), Some(unit))
        },
        (Some(size), None) => (Some(size.clone()), None),
        _ => (None, None),
    };
    let memory = match overview.memory_total_kib {
        Some(kib) => Some(format_kib_parts(kib).0),
        None => None,
    };
    let battery_value = match overview.battery_percent {
        Some(percent) => Some(string_of(decimal_chars(percent as u64).as_slice())),
        None => None,
    };
    let resolution = match &overview.screen_override {
        Some(s) => Some(s.clone()),
        None => copy_text(&overview.screen_physical),
    };
    let mut fields: Vec<Field> = Vec::new();
    fields.push(field_with_unit(FieldIcon::Cpu, "overview_field_cpu", processor, processor_unit));
    fields.push(
        field_with_unit(
            FieldIcon::Memory,
            "overview_field_memory",
            memory,
            unit_when(overview.memory_total_kib.is_some(), "GiB"),
        ),
    );
    fields.push(
        field_with_unit(
            FieldIcon::Storage,
            "overview_field_storage",
            storage,
            unit_when(overview.storage_total_kib.is_some(), "GiB"),
        ),
    );
    fields.push(
        field_with_unit(
            FieldIcon::Battery(overview.battery_percent),
            "overview_field_battery",
            battery_value,
            unit_when(overview.battery_percent.is_some(), "%"),
        ),
    );
    fields.push(field_with_unit(FieldIcon::Physical, "overview_field_physical", physical, density_unit));
    fields.push(field(FieldIcon::Resolution, "overview_field_resolution", resolution));
    fields.push(field_with_unit(FieldIcon::Font, "overview_field_font", font_scale, unit_when(true, "×")));
    fields.push(field(FieldIcon::Wifi, "overview_field_wifi", copy_text(&overview.wifi_ssid)));
    fields.push(field(FieldIcon::Ip, "overview_field_ip", copy_text(&overview.ip_address)));
    fields.push(field(FieldIcon::Mac, "overview_field_mac", copy_text(&overview.mac_address)));
    proof {
        reveal_strlit("overview_field_cpu");
        reveal_strlit("overview_field_memory");
        reveal_strlit("overview_field_storage");
        reveal_strlit("overview_field_battery");
        reveal_strlit("overview_field_physical");
        reveal_strlit("overview_field_resolution");
        reveal_strlit("overview_field_font");
        reveal_strlit("overview_field_wifi");
        reveal_strlit("overview_field_ip");
        reveal_strlit("overview_field_mac");
        reveal_strlit("GiB");
        reveal_strlit("%");
        reveal_strlit("×");
        reveal_strlit("dpi)");
    }
    assert(field_views(fields@) =~= hardware_views(language, *overview, text_of(font_scale)));
    fields
}

/// The identity fields followed by the hardware fields.
pub open spec fn overview_views(
    language: Language,
    device: DeviceRecord,
    o: DeviceOverview,
    font_scale: Option<Seq<char>>,
) -> Seq<FieldView> {
    let android = android_parts(o.android_version, o.api_level);
    seq![
        FieldView { icon: FieldIcon::Name, label: "overview_field_name"@, value: text_of(o.model), unit: None },
        FieldView {
            icon: FieldIcon::Brand,
            label: "overview_field_brand"@,
            value: match o.brand {
                Some(b) => Some(b@),
                None => text_of(o.manufacturer),
            },
            unit: None,
        },
        FieldView { icon: FieldIcon::ModelCode, label: "overview_field_model"@, value: text_of(device.model), unit: None },
        FieldView { icon: FieldIcon::Serial, label: "overview_field_serial"@, value: Some(device.serial@), unit: None },
        FieldView { icon: FieldIcon::Android, label: "overview_field_android"@, value: android.0, unit: android.1 },
        FieldView { icon: FieldIcon::Kernel, label: "overview_field_kernel"@, value: text_of(o.kernel_version), unit: None },
    ] + hardware_views(language, o, font_scale)
}

/// Every field of the overview card, in grid order.
pub fn overview_fields(
    language: Language,
    device: &DeviceRecord,
    overview: &DeviceOverview,
    font_scale: Option<String>,
) -> (fields: Vec<Field>)
    ensures
        field_views(fields@) == overview_views(language, *device, *overview, text_of(font_scale)),
{
    let (android, api_unit) = android_summary(overview);
    let brand = match &overview.brand {
        Some(b) => Some(b.clone()),
        None => copy_text(&overview.manufacturer),
    };
    let mut fields: Vec<Field> = Vec::new();
    fields.push(field(FieldIcon::Name, "overview_field_name", copy_text(&overview.model)));
    fields.push(field(FieldIcon::Brand, "overview_field_brand", brand));
    fields.push(field(FieldIcon::ModelCode, "overview_field_model", copy_text(&device.model)));
    fields.push(field(FieldIcon::Serial, "overview_field_serial", Some(device.serial.clone())));
    fields.push(field_with_unit(FieldIcon::Android, "overview_field_android", android, api_unit));
    fields.push(field(FieldIcon::Kernel, "overview_field_kernel", copy_text(&overview.kernel_version)));
    let ghost head = field_views(fields@);
    let mut hardware = hardware_fields(language, overview, font_scale);
    fields.append(&mut hardware);
    proof {
        reveal_strlit("overview_field_name");
        reveal_strlit("overview_field_brand");
        reveal_strlit("overview_field_model");
        reveal_strlit("overview_field_serial");
        reveal_strlit("overview_field_android");
        reveal_strlit("overview_field_kernel");
    }
    assert(field_views(fields@) =~= overview_views(language, *device, *overview, text_of(font_scale)));
    fields
}

} // verus!
