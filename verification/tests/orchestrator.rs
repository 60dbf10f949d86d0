//! Tests of the configuration and the template orchestration.

use rustystatus::update;
use rustystatus::Config;
use rustystatus::ConfigError;
use rustystatus::Modules;
use rustystatus::TickData;

fn bare_config() -> Config {
    Config {
        format: None,
        weather_apikey: None,
        weather_city: None,
        net_interface: None,
        update_interval: None,
    }
}

fn tick(now: u64) -> TickData {
    TickData {
        now,
        cpu_content: None,
        mem_content: None,
        net_content: None,
        bat_content: None,
        weather_body: None,
    }
}

#[test]
fn default_config_shows_the_time() {
    let c = Config::default();
    assert_eq!(c.format, Some(String::from("{datetime}")));
    assert_eq!(c.update_interval(), 1000);
}

#[test]
fn configured_interval_is_used() {
    let mut c = bare_config();
    c.update_interval = Some(250);
    assert_eq!(c.update_interval(), 250);
}

#[test]
fn format_url_embeds_city_and_key() {
    let mut c = bare_config();
    c.weather_apikey = Some(String::from("KEY"));
    c.weather_city = Some(String::from("2686657"));
    assert_eq!(
        c.format_url().expect("url expected"),
        "https://api.openweathermap.org/data/2.5/weather?id=2686657&units=metric&appid=KEY"
    );
}

#[test]
fn format_url_reports_what_is_missing() {
    let mut c = bare_config();
    assert!(matches!(c.format_url(), Err(ConfigError::MissingApiKey)));
    c.weather_apikey = Some(String::from("KEY"));
    assert!(matches!(c.format_url(), Err(ConfigError::MissingCity)));
}

#[test]
fn net_interface_must_be_configured() {
    let c = bare_config();
    assert!(matches!(
        c.get_net_interface(),
        Err(ConfigError::MissingInterface)
    ));
}

#[test]
fn config_error_messages() {
    assert_eq!(
        ConfigError::MissingFormat.message(),
        "`format` not found in config.toml"
    );
    assert_eq!(
        ConfigError::MissingInterface.message(),
        "`net` module requires `net_interface` to be set in config.toml"
    );
}

#[test]
fn template_tokens_activate_their_samplers() {
    let m = Modules::init(bare_config(), "{cpu} {datetime}", 0).expect("modules expected");
    assert!(m.cpu.is_some());
    assert!(m.time.is_some());
    assert!(m.weather.is_none());
    assert!(m.net.is_none());
    assert!(m.mem.is_none());
    assert!(m.bat.is_none());
}

#[test]
fn weather_activation_needs_key_and_city() {
    assert!(matches!(
        Modules::init(bare_config(), "{weather}", 0),
        Err(ConfigError::MissingApiKey)
    ));
    let mut c = bare_config();
    c.weather_apikey = Some(String::from("KEY"));
    assert!(matches!(
        Modules::init(c, "{weather}", 0),
        Err(ConfigError::MissingCity)
    ));
}

#[test]
fn net_activation_needs_an_interface() {
    assert!(matches!(
        Modules::init(bare_config(), "{download}", 0),
        Err(ConfigError::MissingInterface)
    ));
    let mut c = bare_config();
    c.net_interface = Some(String::from("eth0"));
    let m = Modules::init(c, "{upload}", 0).expect("modules expected");
    assert!(m.net.is_some());
}

#[test]
fn unrecognized_tokens_are_left_in_place() {
    let mut m = Modules::init(bare_config(), "{memory}", 0).expect("modules expected");
    let mut t = tick(0);
    t.mem_content = Some(String::from("MemTotal: 1000 kB\nMemAvailable: 250 kB"));
    let out = update(String::from("{memory}% {unknown}"), &mut m, &t);
    assert_eq!(out, "75% {unknown}");
}

#[test]
fn tick_substitutes_in_template_order() {
    let mut c = bare_config();
    c.net_interface = Some(String::from("eth0"));
    let template = "{cpu}|{memory}|{download}|{upload}|{bat}";
    let mut m = Modules::init(c, template, 0).expect("modules expected");

    let mut t1 = tick(1);
    t1.cpu_content = Some(String::from("cpu 100 0 0 700 0 0 0 0 0 0"));
    t1.mem_content = Some(String::from("MemTotal: 1000 kB\nMemAvailable: 250 kB"));
    t1.net_content = Some(String::from("  eth0: 1000000 0 0 0 0 0 0 0 500000"));
    t1.bat_content = Some(String::from("87\n"));
    let out1 = update(String::from(template), &mut m, &t1);
    // The first CPU reading only seeds the baseline.
    let parts: Vec<&str> = out1.split('|').collect();
    assert_eq!(parts[0], "N/A");
    assert_eq!(parts[1], "75");
    assert_eq!(parts[4], "87%");

    let mut t2 = tick(2);
    t2.cpu_content = Some(String::from("cpu 200 0 0 1300 0 0 0 0 0 0"));
    t2.mem_content = Some(String::from("MemTotal: 1000 kB\nMemAvailable: 250 kB"));
    t2.net_content = Some(String::from("  eth0: 2000000 0 0 0 0 0 0 0 1000000"));
    t2.bat_content = Some(String::from("87\n"));
    let out2 = update(String::from(template), &mut m, &t2);
    let parts: Vec<&str> = out2.split('|').collect();
    assert_eq!(parts[0], "14");
    assert_eq!(parts[1], "75");
    // The second rate enters a window that still holds one empty slot:
    // (0 + 1.0 + 1.0) / 3 MB/s rounds to 0.67, half of it to 0.33.
    assert_eq!(parts[2], "\u{e061}0.67 MB/s");
    assert_eq!(parts[3], "\u{e060}0.33 MB/s");
    assert_eq!(parts[4], "87%");
}

#[test]
fn failing_sampler_does_not_stop_the_tick() {
    let mut m = Modules::init(bare_config(), "{cpu} {memory}", 0).expect("modules expected");
    let out = update(String::from("{cpu} {memory}"), &mut m, &tick(1));
    assert_eq!(out, "N/A N/A");
}

#[test]
fn inactive_samplers_render_the_fallback() {
    // The template grew a token its module set was not built for.
    let mut m = Modules::init(bare_config(), "plain", 0).expect("modules expected");
    let out = update(String::from("{bat}"), &mut m, &tick(1));
    assert_eq!(out, "N/A");
}

#[test]
fn weather_tick_uses_the_fetched_body() {
    let mut c = bare_config();
    c.weather_apikey = Some(String::from("KEY"));
    c.weather_city = Some(String::from("CITY"));
    let mut m = Modules::init(c, "{weather}", 0).expect("modules expected");
    let mut t = tick(5);
    t.weather_body = Some(String::from(
        "{\"main\":{\"temp\":21.4},\"weather\":[{\"description\":\"clear sky\"}]}",
    ));
    let out = update(String::from("{weather}"), &mut m, &t);
    assert_eq!(out, "\u{e01d}Clear Sky 21\u{b0}C");
    // Within the TTL the cache serves the line without a new body.
    let out = update(String::from("{weather}"), &mut m, &tick(6));
    assert_eq!(out, "\u{e01d}Clear Sky 21\u{b0}C");
}
