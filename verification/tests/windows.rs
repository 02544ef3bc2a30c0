use winfetch::facts::CollectError;
use winfetch::enums::StatType;
use winfetch::windows::{
    choose_shell, collect, collect_at, fetch, fetch_latest_ps_version, fetch_legacy_ps_version, latest_installed,
    username_of, version_from_module_path, KeyRead, RegistryError, ShellProbe,
    Win32_LogicalDisk, Win32_OperatingSystem, Win32_Processor, Win32_VideoController,
};

/// 2024-01-15 08:30:45, the boot time of the records below, in seconds since 1970.
const BOOT: i64 = 1705307445;

/// Twenty-seven hours, four minutes and thirty seconds after the boot.
const NOW: i64 = BOOT + 27 * 3600 + 4 * 60 + 30;

fn os(caption: &str) -> Win32_OperatingSystem {
    Win32_OperatingSystem {
        last_boot_up_time: "20240115083045.500000+060".to_string(),
        free_physical_memory: 8388608,
        version: "10.0.22631".to_string(),
        caption: caption.to_string(),
        total_visible_memory_size: 16777216,
    }
}

fn cpu(name: &str) -> Win32_Processor {
    Win32_Processor { name: name.to_string() }
}

fn video(name: &str) -> Win32_VideoController {
    Win32_VideoController {
        name: name.to_string(),
        current_horizontal_resolution: 1920,
        current_vertical_resolution: 1080,
        current_refresh_rate: 144,
    }
}

fn disk(id: &str, size: u64) -> Win32_LogicalDisk {
    Win32_LogicalDisk { device_id: id.to_string(), size }
}

fn value(text: &str) -> KeyRead {
    KeyRead::Value(text.to_string())
}

fn strings(items: &[&str]) -> Vec<String> {
    items.iter().map(|item| item.to_string()).collect()
}

fn probe(installed: &[&str], path: Option<&str>, engine_3: KeyRead, engine_1: KeyRead) -> ShellProbe {
    ShellProbe {
        installed: strings(installed),
        search_path: path.map(|text| text.to_string()),
        engine_3,
        engine_1,
    }
}

#[test]
fn fetch_takes_the_first_records() {
    let info = fetch(
        vec![os("first"), os("second")],
        vec![cpu("cpu 0"), cpu("cpu 1")],
        vec![video("gpu 0"), video("gpu 1")],
        vec![disk("C:", 1), disk("D:", 2)],
    )
    .unwrap();
    assert_eq!(info.0.caption, "first");
    assert_eq!(info.0.version, "10.0.22631");
    assert_eq!(info.0.free_physical_memory, 8388608);
    assert_eq!(info.1.name, "cpu 0");
    assert_eq!(info.2.name, "gpu 0");
    assert_eq!(info.2.current_refresh_rate, 144);
    assert_eq!(info.3.len(), 2);
    assert_eq!(info.3[0].device_id, "C:");
    assert_eq!(info.3[1].device_id, "D:");
    assert_eq!(info.3[1].size, 2);
}

#[test]
fn fetch_fails_without_a_video_controller() {
    let result = fetch(vec![os("os")], vec![cpu("cpu")], vec![], vec![disk("C:", 1)]);
    assert_eq!(result.err(), Some(CollectError::IncompleteData));
}

#[test]
fn fetch_fails_without_any_one_query() {
    let result = fetch(vec![], vec![cpu("cpu")], vec![video("gpu")], vec![disk("C:", 1)]);
    assert_eq!(result.err(), Some(CollectError::IncompleteData));
    let result = fetch(vec![os("os")], vec![], vec![video("gpu")], vec![disk("C:", 1)]);
    assert_eq!(result.err(), Some(CollectError::IncompleteData));
    let result = fetch(vec![os("os")], vec![cpu("cpu")], vec![video("gpu")], vec![]);
    assert_eq!(result.err(), Some(CollectError::IncompleteData));
    let result = fetch(vec![], vec![], vec![], vec![]);
    assert_eq!(result.err(), Some(CollectError::IncompleteData));
}

#[test]
fn latest_installed_is_the_greatest() {
    assert_eq!(
        latest_installed(&strings(&["7.3.9", "7.4.1", "7.4.0"])),
        Some("7.4.1".to_string())
    );
    assert_eq!(latest_installed(&strings(&["7.4.1"])), Some("7.4.1".to_string()));
}

#[test]
fn latest_installed_orders_as_text() {
    assert_eq!(
        latest_installed(&strings(&["7.10.0", "7.9.0"])),
        Some("7.9.0".to_string())
    );
    assert_eq!(
        latest_installed(&strings(&["7.4", "7.4-rc.1", "7.4.0"])),
        Some("7.4.0".to_string())
    );
}

#[test]
fn latest_installed_of_nothing_is_nothing() {
    assert_eq!(latest_installed(&strings(&[])), None);
    assert_eq!(latest_installed(&strings(&["", ""])), None);
    assert_eq!(latest_installed(&strings(&["", "6.2", ""])), Some("6.2".to_string()));
}

#[test]
fn version_in_a_module_path() {
    assert_eq!(
        version_from_module_path(
            "c:\\users\\me\\documents\\powershell\\modules;c:\\program files\\windowsapps\\microsoft.powershell_7.4.1.0_x64__8wekyb3d8bbwe\\modules"
        ),
        Some("7.4.1.0".to_string())
    );
}

#[test]
fn version_runs_to_the_end_without_a_second_underscore() {
    assert_eq!(
        version_from_module_path("c:\\tools\\powershell_7.2\\modules"),
        Some("7.2\\modules".to_string())
    );
    assert_eq!(version_from_module_path("powershell_7"), Some("7".to_string()));
}

#[test]
fn version_follows_the_tag_not_an_earlier_underscore() {
    assert_eq!(
        version_from_module_path("c:\\my_files\\powershell_7"),
        Some("7".to_string())
    );
    assert_eq!(
        version_from_module_path("c:\\my_files\\powershell_7.4_x64"),
        Some("7.4".to_string())
    );
}

#[test]
fn version_follows_the_first_tag_of_the_segment() {
    assert_eq!(
        version_from_module_path("powershell_1\\powershell_2"),
        Some("1\\powershell".to_string())
    );
}

#[test]
fn tag_without_a_version_names_none() {
    assert_eq!(version_from_module_path("powershell_"), None);
    assert_eq!(version_from_module_path("c:\\powershell_;d:\\tools"), None);
    assert_eq!(version_from_module_path("powershell__7"), None);
    assert_eq!(version_from_module_path("powershell__7\\powershell_8"), None);
}

#[test]
fn segment_without_a_version_is_passed_over() {
    assert_eq!(
        version_from_module_path("c:\\powershell_;d:\\powershell_3"),
        Some("3".to_string())
    );
}

#[test]
fn first_tagged_segment_wins() {
    assert_eq!(
        version_from_module_path("a;x\\powershell_1_;y\\powershell_2_"),
        Some("1".to_string())
    );
}

#[test]
fn module_path_without_the_tag_names_no_version() {
    assert_eq!(version_from_module_path(""), None);
    assert_eq!(
        version_from_module_path("c:\\windows\\system32\\windowspowershell\\v1.0\\modules"),
        None
    );
    assert_eq!(version_from_module_path("c:\\power_shell_7;d:\\powershell"), None);
    assert_eq!(version_from_module_path("c:\\PowerShell_7"), None);
    assert_eq!(version_from_module_path("powershell;_7"), None);
}

#[test]
fn legacy_version_of_the_version_3_key_alone() {
    assert_eq!(
        fetch_legacy_ps_version(value("5.1.19041.1"), KeyRead::NoKey),
        Ok("5.1.19041.1".to_string())
    );
}

#[test]
fn legacy_version_prefers_the_version_3_key() {
    assert_eq!(
        fetch_legacy_ps_version(value("5.1.22621"), value("2.0")),
        Ok("5.1.22621".to_string())
    );
    assert_eq!(
        fetch_legacy_ps_version(value("5.1.22621"), KeyRead::NoValue),
        Ok("5.1.22621".to_string())
    );
}

#[test]
fn legacy_version_falls_back_to_the_version_1_key() {
    assert_eq!(
        fetch_legacy_ps_version(KeyRead::NoKey, value("2.0")),
        Ok("2.0".to_string())
    );
    assert_eq!(
        fetch_legacy_ps_version(KeyRead::NoKey, KeyRead::NoValue),
        Err(RegistryError::ValueNotFound)
    );
}

#[test]
fn legacy_version_without_any_key_is_not_found() {
    assert_eq!(
        fetch_legacy_ps_version(KeyRead::NoKey, KeyRead::NoKey),
        Err(RegistryError::KeyNotFound)
    );
}

#[test]
fn legacy_version_of_an_open_key_without_value_fails() {
    for engine_1 in [KeyRead::NoKey, KeyRead::NoValue, value("2.0")] {
        assert_eq!(
            fetch_legacy_ps_version(KeyRead::NoValue, engine_1),
            Err(RegistryError::ValueNotFound)
        );
    }
}

#[test]
fn shell_is_the_first_version_found() {
    let some = |text: &str| Some(text.to_string());
    assert_eq!(
        choose_shell(some("7.4.1"), some("7.2"), Ok("5.1".to_string())),
        "PowerShell 7.4.1"
    );
    assert_eq!(choose_shell(None, some("7.2"), Ok("5.1".to_string())), "PowerShell 7.2");
    assert_eq!(choose_shell(None, None, Ok("5.1".to_string())), "PowerShell 5.1");
    assert_eq!(
        choose_shell(None, None, Err(RegistryError::KeyNotFound)),
        "Console Host"
    );
    assert_eq!(
        choose_shell(None, None, Err(RegistryError::ValueNotFound)),
        "Console Host"
    );
    assert_eq!(
        choose_shell(some("7.4.1"), None, Err(RegistryError::KeyNotFound)),
        "PowerShell 7.4.1"
    );
}

#[test]
fn latest_shell_from_the_installed_versions() {
    let shell = fetch_latest_ps_version(probe(
        &["7.3.0", "7.4.1"],
        Some("C:\\PowerShell_6\\Modules"),
        value("5.1"),
        value("2.0"),
    ));
    assert_eq!(shell, "PowerShell 7.4.1");
}

#[test]
fn latest_shell_from_the_module_path_in_any_case() {
    let shell = fetch_latest_ps_version(probe(
        &[],
        Some("C:\\Program Files\\WindowsApps\\Microsoft.PowerShell_7.4.1.0_x64__8wekyb3d8bbwe\\Modules"),
        value("5.1"),
        value("2.0"),
    ));
    assert_eq!(shell, "PowerShell 7.4.1.0");
}

#[test]
fn latest_shell_version_is_lowercased_with_the_path() {
    let shell = fetch_latest_ps_version(probe(
        &[""],
        Some("C:\\Tools;D:\\POWERSHELL_7.5-RC\\Modules"),
        KeyRead::NoKey,
        KeyRead::NoKey,
    ));
    assert_eq!(shell, "PowerShell 7.5-rc\\modules");
}

#[test]
fn latest_shell_from_the_legacy_engine() {
    let shell = fetch_latest_ps_version(probe(
        &[],
        Some("C:\\Windows\\system32\\WindowsPowerShell\\v1.0\\Modules"),
        value("5.1.22621.2506"),
        value("2.0.50727"),
    ));
    assert_eq!(shell, "PowerShell 5.1.22621.2506");
    let shell = fetch_latest_ps_version(probe(&[], None, KeyRead::NoKey, value("2.0.50727")));
    assert_eq!(shell, "PowerShell 2.0.50727");
}

#[test]
fn latest_shell_without_any_version_is_the_console_host() {
    let shell = fetch_latest_ps_version(probe(&[], None, KeyRead::NoKey, KeyRead::NoKey));
    assert_eq!(shell, "Console Host");
    let shell = fetch_latest_ps_version(probe(&[], None, KeyRead::NoValue, value("2.0")));
    assert_eq!(shell, "Console Host");
    let shell = fetch_latest_ps_version(probe(&[""], Some(""), KeyRead::NoKey, KeyRead::NoValue));
    assert_eq!(shell, "Console Host");
}

#[test]
fn latest_shell_from_the_version_3_key_alone() {
    let shell = fetch_latest_ps_version(probe(&[], None, value("5.1.19041.1"), KeyRead::NoKey));
    assert_eq!(shell, "PowerShell 5.1.19041.1");
}

#[test]
fn latest_shell_passes_over_a_tag_without_a_version() {
    let shell = fetch_latest_ps_version(probe(&[], Some("powershell_"), value("5.1"), value("5.1")));
    assert_eq!(shell, "PowerShell 5.1");
    let shell = fetch_latest_ps_version(probe(&[], Some("C:\\PowerShell_"), KeyRead::NoKey, KeyRead::NoKey));
    assert_eq!(shell, "Console Host");
}

#[test]
fn username_is_lowercased() {
    assert_eq!(username_of(Some("DESKTOP-4BC1")), "desktop-4bc1");
    assert_eq!(username_of(Some("\u{c9}COLE")), "\u{e9}cole");
    assert_eq!(username_of(Some("")), "");
}

#[test]
fn username_of_no_machine_is_null() {
    assert_eq!(username_of(None), "null");
}

#[test]
fn query_collection_gives_the_facts_and_the_size_class() {
    let (facts, full) = collect_at(
        vec![os("Microsoft Windows 11 Pro")],
        vec![cpu("cpu 0"), cpu("cpu 1")],
        vec![video("gpu 0")],
        vec![disk("C:", 1073741824), disk("D:", 5368709120)],
        "aarch64",
        -125,
        38,
    )
    .unwrap();
    assert!(full);
    assert!(facts.is_complete());
    let fact = |category: StatType| facts.get(category).unwrap().clone();
    assert_eq!(fact(StatType::Os), "Microsoft Windows 11 Pro aarch64");
    assert_eq!(fact(StatType::Kernel), "10.0.22631");
    assert_eq!(fact(StatType::Cpu), "cpu 0");
    assert_eq!(fact(StatType::Gpu), "gpu 0");
    assert_eq!(fact(StatType::Resolution), "1920x1080 @ 144Hz");
    assert_eq!(fact(StatType::Ram), "8192 MiB / 16384 MiB");
    assert_eq!(fact(StatType::Uptime), "-2 hours, -5 minutes");
    assert_eq!(fact(StatType::Disks), "(C:) 1 GiB | (D:) 5 GiB");
}

#[test]
fn query_collection_in_a_small_terminal() {
    let (_, full) = collect_at(
        vec![os("os")],
        vec![cpu("cpu")],
        vec![video("gpu")],
        vec![disk("C:", 1)],
        "x86_64",
        0,
        37,
    )
    .unwrap();
    assert!(!full);
}

#[test]
fn query_collection_fails_without_a_video_controller() {
    let result =
        collect(vec![os("os")], vec![cpu("cpu")], vec![], vec![disk("C:", 1)], "x86_64", NOW, 50);
    assert_eq!(result.err(), Some(CollectError::IncompleteData));
    let result =
        collect_at(vec![os("os")], vec![cpu("cpu")], vec![], vec![disk("C:", 1)], "x86_64", 0, 50);
    assert_eq!(result.err(), Some(CollectError::IncompleteData));
    let result = collect(vec![], vec![], vec![], vec![], "x86_64", NOW, 50);
    assert_eq!(result.err(), Some(CollectError::IncompleteData));
}

#[test]
fn query_collection_with_a_malformed_record_fails() {
    let mut record = os("os");
    record.last_boot_up_time = "last tuesday".to_string();
    let result = collect(
        vec![record],
        vec![cpu("cpu")],
        vec![video("gpu")],
        vec![disk("C:", 1)],
        "x86_64",
        NOW,
        50,
    );
    assert_eq!(result.err(), Some(CollectError::MalformedValue));
    let mut record = os("os");
    record.free_physical_memory = record.total_visible_memory_size + 1;
    let result = collect(
        vec![record],
        vec![cpu("cpu")],
        vec![video("gpu")],
        vec![disk("C:", 1)],
        "x86_64",
        NOW,
        50,
    );
    assert_eq!(result.err(), Some(CollectError::MalformedValue));
}

#[test]
fn query_collection_counts_the_uptime_to_the_clock_reading() {
    let records = || (vec![os("os")], vec![cpu("cpu")], vec![video("gpu")], vec![disk("C:", 1)]);
    let (a, b, c, d) = records();
    let (now, full) = collect(a, b, c, d, "x86_64", NOW, 50).unwrap();
    assert!(full);
    assert_eq!(now.get(StatType::Uptime), Some(&"27 hours, 4 minutes".to_string()));
    let (a, b, c, d) = records();
    let (then, _) = collect_at(a, b, c, d, "x86_64", 1624, 50).unwrap();
    for category in [
        StatType::Os,
        StatType::Kernel,
        StatType::Cpu,
        StatType::Gpu,
        StatType::Resolution,
        StatType::Ram,
        StatType::Uptime,
        StatType::Disks,
    ] {
        assert_eq!(now.get(category), then.get(category));
    }
    let (a, b, c, d) = records();
    let (before, _) = collect(a, b, c, d, "x86_64", BOOT - 61, 50).unwrap();
    assert_eq!(before.get(StatType::Uptime), Some(&"0 hours, -1 minutes".to_string()));
}
