//! Tests of the individual samplers: the percentage formulas, the failure
//! policies, the rolling window and the TTL guard.

use rustystatus::bat::Battery;
use rustystatus::cpu::Cpu;
use rustystatus::cpu::CpuError;
use rustystatus::datetime::Time;
use rustystatus::mem::Mem;
use rustystatus::mem::MemError;
use rustystatus::net::Net;
use rustystatus::net::NetError;
use rustystatus::net::read_net_proc;
use rustystatus::weather::Weather;
use rustystatus::weather::WeatherError;

const CPU_T1: &str = "cpu 100 0 0 700 0 0 0 0 0 0";
const CPU_T2: &str = "cpu 200 0 0 1300 0 0 0 0 0 0";

#[test]
fn cpu_first_update_only_seeds_baseline() {
    let mut c = Cpu::init();
    assert_eq!(c.output(), None);
    assert!(c.update(Some(CPU_T1)).is_ok());
    assert_eq!(c.output(), None);
}

#[test]
fn cpu_two_snapshots_give_percentage() {
    let mut c = Cpu::init();
    assert!(c.update(Some(CPU_T1)).is_ok());
    assert!(c.update(Some(CPU_T2)).is_ok());
    assert_eq!(c.output(), Some(String::from("14")));
}

#[test]
fn cpu_half_idle_interval() {
    let mut c = Cpu::init();
    assert!(c.update(Some("cpu 100 0 0 700 0 0 0 0 0 0")).is_ok());
    assert!(c.update(Some("cpu 200 0 0 800 0 0 0 0 0 0")).is_ok());
    assert_eq!(c.output(), Some(String::from("50")));
}

#[test]
fn cpu_same_tick_keeps_previous_value() {
    let mut c = Cpu::init();
    assert!(c.update(Some(CPU_T1)).is_ok());
    assert!(c.update(Some(CPU_T1)).is_ok());
    assert_eq!(c.output(), None);
    assert!(c.update(Some(CPU_T2)).is_ok());
    assert!(c.update(Some(CPU_T2)).is_ok());
    assert_eq!(c.output(), Some(String::from("14")));
}

#[test]
fn cpu_failure_keeps_last_good_value() {
    let mut c = Cpu::init();
    assert!(c.update(Some(CPU_T1)).is_ok());
    assert!(c.update(Some(CPU_T2)).is_ok());
    assert!(matches!(c.update(None), Err(CpuError::Generic)));
    assert_eq!(c.output(), Some(String::from("14")));
    assert!(matches!(c.update(Some("garbage 1 2")), Err(CpuError::ReadProc)));
    assert_eq!(c.output(), Some(String::from("14")));
}

#[test]
fn cpu_error_messages() {
    assert_eq!(CpuError::ReadProc.message(), "failed parsing `/proc/stat`");
    assert_eq!(CpuError::Generic.message(), "generic error");
}

const MEMINFO: &str = "MemTotal: 1000 kB\nMemAvailable: 250 kB";

#[test]
fn mem_renders_used_percentage() {
    let mut m = Mem::init();
    assert_eq!(m.output(), None);
    assert!(m.update(Some(MEMINFO)).is_ok());
    assert_eq!(m.output(), Some(String::from("75")));
}

#[test]
fn mem_rounds_to_nearest() {
    let mut m = Mem::init();
    assert!(m.update(Some("MemTotal: 3000 kB\nMemAvailable: 1000 kB")).is_ok());
    // 100 - 100 * 1000 / 3000 = 66.66...; nearest is 67
    assert_eq!(m.output(), Some(String::from("67")));
}

#[test]
fn mem_failure_keeps_previous_value() {
    let mut m = Mem::init();
    assert!(m.update(Some(MEMINFO)).is_ok());
    assert!(matches!(m.update(None), Err(MemError::Read)));
    assert_eq!(m.output(), Some(String::from("75")));
    assert!(matches!(m.update(Some("MemTotal: 1000 kB")), Err(MemError::Missing)));
    assert_eq!(m.output(), Some(String::from("75")));
}

#[test]
fn mem_never_successful_renders_nothing() {
    let mut m = Mem::init();
    assert!(matches!(m.update(None), Err(MemError::Read)));
    assert_eq!(m.output(), None);
    assert!(matches!(m.update(Some("MemFree: 10 kB")), Err(MemError::Missing)));
    assert_eq!(m.output(), None);
}

#[test]
fn mem_zero_total_is_malformed() {
    let mut m = Mem::init();
    assert!(matches!(
        m.update(Some("MemTotal: 0 kB\nMemAvailable: 0 kB")),
        Err(MemError::Missing)
    ));
    assert_eq!(m.output(), None);
}

fn net_line(recv: u64, tran: u64) -> String {
    format!("Inter-|   Receive\n  eth0: {} 0 0 0 0 0 0 0 {} 0 0 0\n  lo: 9 9 9 9 9 9 9 9 9", recv, tran)
}

#[test]
fn net_constant_rate_fills_window() {
    let mut n = Net::init(String::from("eth0"), 0);
    assert_eq!(n.output(), None);
    assert!(n.update(1, Some(&net_line(1000000, 500000))).is_ok());
    assert!(n.update(2, Some(&net_line(2000000, 1000000))).is_ok());
    assert!(n.update(3, Some(&net_line(3000000, 1500000))).is_ok());
    // Three identical deltas: the mean is exactly the constant rate.
    assert_eq!(n.dl_output(), Some(String::from("\u{e061}1.00 MB/s")));
    assert_eq!(n.up_output(), Some(String::from("\u{e060}0.50 MB/s")));
    assert_eq!(
        n.output(),
        Some(String::from("\u{e061}1.00 MB/s \u{e060}0.50 MB/s"))
    );
}

#[test]
fn net_failure_blanks_output() {
    let mut n = Net::init(String::from("eth0"), 0);
    assert!(n.update(1, Some(&net_line(1000000, 500000))).is_ok());
    assert!(n.dl_output().is_some());
    assert!(matches!(n.update(2, None), Err(NetError::EmptyVec)));
    assert_eq!(n.dl_output(), None);
    assert_eq!(n.up_output(), None);
    assert_eq!(n.output(), None);
}

#[test]
fn net_missing_interface_fails() {
    let mut n = Net::init(String::from("wlan0"), 0);
    assert!(matches!(
        n.update(1, Some(&net_line(1000, 1000))),
        Err(NetError::EmptyVec)
    ));
    assert_eq!(n.output(), None);
}

#[test]
fn net_counter_going_backwards_counts_as_idle() {
    let mut n = Net::init(String::from("eth0"), 0);
    assert!(n.update(1, Some(&net_line(5000000, 5000000))).is_ok());
    assert!(n.update(2, Some(&net_line(1000, 1000))).is_ok());
    assert!(n.update(3, Some(&net_line(1000, 1000))).is_ok());
    assert!(n.update(4, Some(&net_line(1000, 1000))).is_ok());
    assert_eq!(n.dl_output(), Some(String::from("\u{e061}0.00 MB/s")));
}

#[test]
fn net_error_message() {
    assert_eq!(NetError::EmptyVec.message(), "vector is empty");
}

#[test]
fn read_net_proc_extracts_interface_counters() {
    let content = net_line(11, 99);
    let v = read_net_proc(&content, "eth0").expect("interface line expected");
    assert_eq!(v[0], 11);
    assert_eq!(v[8], 99);
    assert!(matches!(
        read_net_proc(&content, "wlan0"),
        Err(NetError::EmptyVec)
    ));
}

#[test]
fn battery_passes_trimmed_text_through() {
    let mut b = Battery::init();
    assert_eq!(b.output(), None);
    b.update(Some("87\n"));
    assert_eq!(b.output(), Some(String::from("87%")));
    b.update(None);
    assert_eq!(b.output(), None);
}

#[test]
fn time_renders_the_fixed_pattern() {
    let mut t = Time::init();
    assert_eq!(t.output(), String::new());
    t.update();
    let out = t.output();
    // Whatever the clock said: the pattern always holds a time separator
    // and two date separators.
    assert!(out.contains(':'));
    assert!(out.matches('-').count() >= 2);
}

const WEATHER_BODY: &str =
    "{\"main\":{\"temp\":2.5},\"weather\":[{\"description\":\"light rain\"}]}";

#[test]
fn weather_caches_parsed_body() {
    let mut w = Weather::init(String::from("url"));
    assert_eq!(w.output(), None);
    assert!(w.needs_refresh(0));
    assert!(w.update(0, Some(WEATHER_BODY)).is_ok());
    assert_eq!(w.output(), Some(String::from("\u{e01d}Light Rain 3\u{b0}C")));
}

#[test]
fn weather_ttl_limits_fetches() {
    let mut w = Weather::init(String::from("url"));
    assert!(w.update(10, Some(WEATHER_BODY)).is_ok());
    // Polling every second within the TTL asks for no fetch and keeps the
    // cache, even when no body is supplied.
    for now in 11..300 {
        assert!(!w.needs_refresh(now));
        assert!(w.update(now, None).is_ok());
    }
    assert_eq!(w.output(), Some(String::from("\u{e01d}Light Rain 3\u{b0}C")));
    assert!(w.needs_refresh(310));
}

#[test]
fn weather_failed_fetch_clears_cache_until_next_ttl() {
    let mut w = Weather::init(String::from("url"));
    assert!(w.update(0, Some(WEATHER_BODY)).is_ok());
    assert!(matches!(w.update(300, None), Err(WeatherError::Fetch)));
    assert_eq!(w.output(), None);
    // The failure is recorded: no retry is due before another TTL.
    assert!(!w.needs_refresh(400));
    assert!(w.needs_refresh(600));
}

#[test]
fn weather_parse_failures() {
    let mut w = Weather::init(String::from("url"));
    assert!(matches!(w.update(0, Some("not json")), Err(WeatherError::Json)));
    assert_eq!(w.output(), None);

    let mut w = Weather::init(String::from("url"));
    assert!(matches!(
        w.update(0, Some("{\"weather\":[{\"description\":\"x\"}]}")),
        Err(WeatherError::NoTempVal)
    ));

    let mut w = Weather::init(String::from("url"));
    assert!(matches!(
        w.update(
            0,
            Some("{\"main\":{\"temp\":\"hot\"},\"weather\":[{\"description\":\"x\"}]}")
        ),
        Err(WeatherError::F64Error)
    ));

    let mut w = Weather::init(String::from("url"));
    assert!(matches!(
        w.update(0, Some("{\"main\":{\"temp\":1}}")),
        Err(WeatherError::NoDescriptionVal)
    ));

    let mut w = Weather::init(String::from("url"));
    assert!(matches!(
        w.update(0, Some("{\"main\":{\"temp\":1},\"weather\":[{\"description\":5}]}")),
        Err(WeatherError::StrError)
    ));
}

#[test]
fn weather_integer_temperature() {
    let mut w = Weather::init(String::from("url"));
    assert!(w
        .update(
            0,
            Some("{\"main\":{\"temp\":-7},\"weather\":[{\"description\":\"mist\"}]}")
        )
        .is_ok());
    assert_eq!(w.output(), Some(String::from("\u{e01d}Mist -7\u{b0}C")));
}
