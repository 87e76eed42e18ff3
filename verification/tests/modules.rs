use realm_session::modules::{
    battery_reading, format_rate, is_battery_type, is_power_supply_uevent, parse_cpu,
    parse_memory, rate_per_second, BatteryReading, BatterySampler, BatteryScanError, ClockModule,
    Module, ModuleSnapshot, NetworkRate, ProcSampler, SamplerPaths, Source,
};

const SECOND: u128 = 1_000_000_000;

#[test]
fn counter_resets_and_interface_changes_never_publish_false_rates() {
    let mem = "MemTotal: 1048576 kB\nMemAvailable: 524288 kB\n";
    let mut sampler = ProcSampler::new();
    let initial = sampler.observe(
        "cpu 10 0 10 80 0 0 0 0\n",
        mem,
        "eth0: 1000 0 0 0 0 0 0 0 1000 0 0 0 0 0 0 0\n",
        0,
    );
    assert_eq!(initial.snapshot.network, None);

    let valid = sampler.observe(
        "cpu 20 0 20 160 0 0 0 0\n",
        mem,
        "eth0: 3000 0 0 0 0 0 0 0 5000 0 0 0 0 0 0 0\n",
        SECOND,
    );
    assert_eq!(valid.snapshot.cpu_percent, Some(20));
    assert_eq!(valid.snapshot.network.unwrap().receive_bps, 2000);
    assert_eq!(valid.snapshot.network.unwrap().transmit_bps, 4000);

    let reset = sampler.observe(
        "cpu 1 0 1 8 0 0 0 0\n",
        mem,
        "eth0: 10 0 0 0 0 0 0 0 20 0 0 0 0 0 0 0\n wlan0: 7000 0 0 0 0 0 0 0 9000 0 0 0 0 0 0 0\n",
        SECOND,
    );
    assert_eq!(reset.snapshot.cpu_percent, Some(20));
    assert_eq!(reset.snapshot.network, valid.snapshot.network);

    let after_hotplug = sampler.observe(
        "cpu 11 0 11 88 0 0 0 0\n",
        mem,
        "wlan0: 10000 0 0 0 0 0 0 0 14000 0 0 0 0 0 0 0\n",
        2 * SECOND,
    );
    assert_eq!(after_hotplug.snapshot.network.unwrap().receive_bps, 1500);
    assert_eq!(after_hotplug.snapshot.network.unwrap().transmit_bps, 2500);
}

#[test]
fn source_failures_retain_last_value_and_log_once_per_episode() {
    let mut sampler = ProcSampler::new();
    sampler.observe(
        "cpu 1 0 1 8 0 0 0 0\n",
        "MemTotal: 1048576 kB\nMemAvailable: 524288 kB\n",
        "eth0: 1 0 0 0 0 0 0 0 1 0 0 0 0 0 0 0\n",
        0,
    );
    let good = sampler.observe(
        "cpu 11 0 11 88 0 0 0 0\n",
        "MemTotal: 1048576 kB\nMemAvailable: 524288 kB\n",
        "eth0: 101 0 0 0 0 0 0 0 201 0 0 0 0 0 0 0\n",
        SECOND,
    );
    assert_eq!(good.new_failures, Vec::<Source>::new());
    let first_bad = sampler.observe("broken", "broken", "broken", SECOND);
    assert_eq!(
        first_bad.new_failures,
        vec![Source::Cpu, Source::Memory, Source::Network]
    );
    let repeated = sampler.observe("broken", "broken", "broken", SECOND);
    assert!(repeated.new_failures.is_empty());
    assert_eq!(repeated.snapshot.memory_tenths_gib, Some(5));
    let recovered = sampler.observe(
        "cpu 1000 0 800 2000 0 0 0 0\n",
        "MemTotal: 1048576 kB\nMemAvailable: 524288 kB\n",
        "eth0: 900000 0 0 0 0 0 0 0 700000 0 0 0 0 0 0 0\n",
        SECOND,
    );
    assert!(recovered.new_failures.is_empty());
    assert_eq!(recovered.snapshot.cpu_percent, good.snapshot.cpu_percent);
    assert_eq!(recovered.snapshot.network, good.snapshot.network);
    let bad_again = sampler.observe("broken", "broken", "broken", SECOND);
    assert_eq!(
        bad_again.new_failures,
        vec![Source::Cpu, Source::Memory, Source::Network]
    );
}

fn module(id: &str, text: &str, accent: Option<&str>, urgent: bool) -> Module {
    Module {
        id: id.to_owned(),
        text: text.to_owned(),
        accent: accent.map(str::to_owned),
        urgent,
    }
}

#[test]
fn clock_is_fixed_width_and_uses_the_captured_timezone() {
    let clock = ClockModule::utc();
    let midnight = clock.render(1_735_689_600 * 1_000_000_000).unwrap();
    let afternoon = clock
        .render((1_735_689_600 + 13 * 60 * 60 + 7 * 60) * 1_000_000_000)
        .unwrap();

    assert_eq!(midnight.id, "clock");
    assert_eq!(midnight.text, "00:00");
    assert_eq!(afternoon.text, "13:07");
    assert_eq!(midnight.text.len(), afternoon.text.len());
    assert_eq!(midnight.accent, None);
    assert!(!midnight.urgent);
}

#[test]
fn clock_renders_exactly_within_the_supported_range() {
    let clock = ClockModule::utc();
    let earliest: i128 = -377_705_023_201_000_000_000;
    let latest: i128 = 253_402_207_200_999_999_999;

    assert!(clock.render(earliest - 1).is_err());
    assert!(clock.render(latest + 1).is_err());
    assert_eq!(clock.render(earliest).unwrap().text, "01:59");
    assert_eq!(clock.render(latest).unwrap().text, "22:00");
}

#[test]
fn first_and_second_proc_samples_format_the_exact_mvp_modules() {
    let mut sampler = ProcSampler::new();
    let stat_1 = "cpu 100 20 30 850 10 5 5 10 99 88\n";
    let stat_2 = "cpu 120 20 40 910 20 5 5 10 100 90\n";
    let meminfo = "MemTotal:       16777216 kB\nMemAvailable:    6291456 kB\n";
    let net_1 = "Inter-| Receive | Transmit\n lo: 9000 0 0 0 0 0 0 0 9000 0 0 0 0 0 0 0\n eth0: 1000 0 0 0 0 0 0 0 2000 0 0 0 0 0 0 0\n";
    let net_2 = "Inter-| Receive | Transmit\n lo: 999999 0 0 0 0 0 0 0 999999 0 0 0 0 0 0 0\n eth0: 1501000 0 0 0 0 0 0 0 752000 0 0 0 0 0 0 0\n";

    let first = sampler.observe(stat_1, meminfo, net_1, 0);
    assert_eq!(first.snapshot.cpu_percent, None);
    assert_eq!(first.snapshot.network, None);
    assert_eq!(first.snapshot.memory_tenths_gib, Some(100));

    let second = sampler.observe(stat_2, meminfo, net_2, 2 * SECOND);
    let clock = ClockModule::utc()
        .render(1_735_689_600 * 1_000_000_000)
        .unwrap();
    assert_eq!(
        second.snapshot.modules(clock),
        vec![
            module("net", "↑ 375k ↓ 750k", None, false),
            module("cpu", "cpu 30%", Some("starlight"), false),
            module("mem", "mem 10.0G", None, false),
            module("clock", "00:00", None, false),
        ]
    );
}

#[test]
fn battery_uevents_select_remove_and_mark_low_capacity_exactly() {
    assert!(is_battery_type("Battery\n"));
    assert!(!is_battery_type("Mains\n"));
    let selected = battery_reading("15\n", "Discharging\n").unwrap();
    assert_eq!(selected, BatteryReading::new(15, true));
    assert!(selected.module().urgent);
    assert_eq!(
        battery_reading("80\n", "Charging\n").unwrap(),
        BatteryReading::new(80, false)
    );

    assert!(is_power_supply_uevent(
        b"change@/devices/x\0ACTION=change\0SUBSYSTEM=power_supply\0"
    ));
    assert!(!is_power_supply_uevent(b"change@/devices/x\0SUBSYSTEM=net\0"));

    let mut sampler = BatterySampler::new();
    assert!(!sampler.observe(Ok(Some(BatteryReading::new(80, false)))));
    assert!(sampler.observe(Err(std::io::Error::other("transient"))));
    assert!(!sampler.observe(Err(std::io::Error::other("still transient"))));
    assert_eq!(sampler.reading(), Some(BatteryReading::new(80, false)));
    assert!(!sampler.observe(Ok(None)));
    assert_eq!(sampler.reading(), None);
    assert!(sampler.observe(Err(std::io::Error::other("new episode"))));
}

#[test]
fn battery_capacity_must_be_a_byte_sized_percentage() {
    assert_eq!(
        battery_reading("101\n", "Full\n"),
        Err(BatteryScanError::CapacityAbove100)
    );
    assert_eq!(
        battery_reading("256", "Full"),
        Err(BatteryScanError::InvalidCapacity)
    );
    assert_eq!(
        battery_reading("", "Full"),
        Err(BatteryScanError::InvalidCapacity)
    );
    assert_eq!(
        battery_reading(" +100 \n", " Discharging "),
        Ok(BatteryReading::new(100, true))
    );
    assert_eq!(
        BatteryScanError::CapacityAbove100.message(),
        "battery capacity exceeds 100"
    );
    let module = BatteryReading::new(16, true).module();
    assert_eq!(module.text, "⚡ 16%");
    assert_eq!(module.accent.as_deref(), Some("gold"));
    assert!(!module.urgent);
}

#[test]
fn rates_scale_to_tenths_with_unit_suffixes() {
    assert_eq!(format_rate(0), "0");
    assert_eq!(format_rate(999), "999");
    assert_eq!(format_rate(375_000), "375k");
    assert_eq!(format_rate(1_250_000), "1.3M");
    assert_eq!(format_rate(1_240_000), "1.2M");
    assert_eq!(format_rate(3_000_000_000), "3G");
    assert_eq!(rate_per_second(1000, 2 * SECOND), Some(500));
    assert_eq!(rate_per_second(1000, 0), None);
}

#[test]
fn proc_parsers_read_exact_counters() {
    let cpu = parse_cpu("intr 1 2\ncpu 1 2 3 4 5 6 7 8\n").unwrap();
    assert_eq!(cpu.total, 36);
    assert_eq!(cpu.idle, 9);
    assert!(parse_cpu("cpu0 1 2 3 4\n").is_err());
    assert_eq!(
        parse_memory("MemTotal: 1048576 kB\nMemAvailable: 524288 kB\n"),
        Ok(5)
    );
    assert!(parse_memory("MemTotal: 10 kB\n").is_err());
}

#[test]
fn default_snapshot_publishes_only_the_clock() {
    let clock = module("clock", "12:34", None, false);
    assert_eq!(
        ModuleSnapshot::default().modules(clock.clone()),
        vec![clock]
    );
    let rate = NetworkRate {
        receive_bps: 1,
        transmit_bps: 2,
    };
    assert_eq!(rate.receive_bps + rate.transmit_bps, 3);
}

#[test]
fn sampler_reads_the_system_interfaces() {
    let paths = SamplerPaths::system();
    assert_eq!(paths.stat, "/proc/stat");
    assert_eq!(paths.meminfo, "/proc/meminfo");
    assert_eq!(paths.netdev, "/proc/net/dev");
    assert_eq!(paths.power_supply, "/sys/class/power_supply");
}

#[test]
fn clock_tick_is_deferred_during_a_transaction_and_rendered_once_after() {
    let mut clock = realm_session::modules::ClockRuntime::utc();
    assert!(clock.tick(true, 0).unwrap().is_none());
    assert!(clock.dirty);
    assert!(clock.fold_if_clean(true, 0).unwrap().is_none());
    assert!(clock.dirty);
    let minute: i128 = 60 * 1_000_000_000;
    let folded = clock.fold_if_clean(false, 90 * minute).unwrap().unwrap();
    assert_eq!(folded.text, "01:30");
    assert!(!clock.dirty);
    assert!(clock.fold_if_clean(false, 90 * minute).unwrap().is_none());
    let ticked = clock.tick(false, 23 * 60 * minute + 59 * minute).unwrap().unwrap();
    assert_eq!(ticked.text, "23:59");
    assert!(!clock.dirty);
}

#[test]
fn cpu_percent_is_the_busy_share_rounded_half_up() {
    let mem = "MemTotal: 1048576 kB\nMemAvailable: 524288 kB\n";
    let net = "Inter-| Receive | Transmit\n eth0: 0 0 0 0 0 0 0 0 0 0 0 0 0 0 0 0\n";
    let mut sampler = ProcSampler::new();
    sampler.observe("cpu 0 0 0 0 0 0 0 0 0 0\n", mem, net, 0);
    let half_up = sampler.observe("cpu 1 0 0 199 0 0 0 0 0 0\n", mem, net, SECOND);
    assert_eq!(half_up.snapshot.cpu_percent, Some(1));
    let all_busy = sampler.observe("cpu 201 0 0 199 0 0 0 0 0 0\n", mem, net, SECOND);
    assert_eq!(all_busy.snapshot.cpu_percent, Some(100));
    let rounded_down = sampler.observe("cpu 202 0 0 201 0 0 0 0 0 0\n", mem, net, SECOND);
    assert_eq!(rounded_down.snapshot.cpu_percent, Some(33));
}
