//! A status-line engine: stateful samplers turn raw OS counters and a remote
//! weather document into display text, and an orchestrator substitutes each
//! sampler's rendering into a configured template. Reading pseudo-files,
//! fetching the weather document and publishing the finished line are the
//! surrounding program's work; everything the engine decides and computes is
//! verified.

use vstd::prelude::*;

pub mod bat;
pub mod cpu;
pub mod datetime;
pub mod mem;
pub mod net;
pub mod text;
pub mod weather;

verus! {

use crate::text::contains_seq;
use crate::text::replace_seq;

/// Fallback text shown for a sampler that has no value to report.
pub open spec fn fallback_text() -> Seq<char> {
    "N/A"@
}

/// A configuration value the template's modules need but the caller did not
/// supply.
#[derive(Debug, PartialEq, Eq, Structural, Clone, Copy)]
pub enum ConfigError {
    /// No output format is configured.
    MissingFormat,
    /// The weather module is wanted but no API key is configured.
    MissingApiKey,
    /// The weather module is wanted but no city is configured.
    MissingCity,
    /// The network module is wanted but no interface is configured.
    MissingInterface,
}

impl ConfigError {
    /// A short description of the failure, for logging.
    pub fn message(&self) -> (r: &'static str)
        ensures
            self is MissingFormat ==> r@ == "`format` not found in config.toml"@,
            self is MissingApiKey ==> r@ == "`weather` module requires `weather_api` to be set in config.toml"@,
            self is MissingCity ==> r@ == "`weather` module requires `weather_city` to be set in config.toml"@,
            self is MissingInterface ==> r@ == "`net` module requires `net_interface` to be set in config.toml"@,
    {
        match self {
            ConfigError::MissingFormat => "`format` not found in config.toml",
            ConfigError::MissingApiKey => "`weather` module requires `weather_api` to be set in config.toml",
            ConfigError::MissingCity => "`weather` module requires `weather_city` to be set in config.toml",
            ConfigError::MissingInterface => "`net` module requires `net_interface` to be set in config.toml",
        }
    }
}

/// The engine's configuration, handed in as plain values; discovering and
/// parsing the configuration file is the surrounding program's work.
#[derive(Debug, PartialEq, Clone)]
pub struct Config {
    /// The output template.
    pub format: Option<String>,
    /// The weather API key.
    pub weather_apikey: Option<String>,
    /// The weather city identifier.
    pub weather_city: Option<String>,
    /// The network interface to watch.
    pub net_interface: Option<String>,
    /// The poll interval in milliseconds.
    pub update_interval: Option<u64>,
}

/// The request URL for a city and an API key.
pub open spec fn url_text(city: Seq<char>, key: Seq<char>) -> Seq<char> {
    "https://api.openweathermap.org/data/2.5/weather?id="@ + city + "&units=metric&appid="@ + key
}

impl Config {
    /// The configuration used when none can be loaded: a template that only
    /// shows the time.
    pub fn default() -> (c: Config)
        ensures
            c.format matches Some(f) && f@ == "{datetime}"@,
            c.weather_apikey is None,
            c.weather_city is None,
            c.net_interface is None,
            c.update_interval is None,
    {
        Config {
            format: Some(String::from_str("{datetime}")),
            weather_apikey: None,
            weather_city: None,
            net_interface: None,
            update_interval: None,
        }
    }

    /// The poll interval in milliseconds, one second when unconfigured.
    pub fn update_interval(&self) -> (r: u64)
        ensures
            r == (match self.update_interval {
                Some(v) => v,
                None => 1000u64,
            }),
    {
        match self.update_interval {
            Some(v) => v,
            None => 1000,
        }
    }

    /// The weather request URL, when both the API key and the city are
    /// configured; the missing value's error otherwise, key before city.
    pub fn format_url(&self) -> (r: Result<String, ConfigError>)
        ensures
            self.weather_apikey is None ==> r == Err::<String, ConfigError>(
                ConfigError::MissingApiKey,
            ),
            self.weather_apikey is Some && self.weather_city is None ==> r == Err::<
                String,
                ConfigError,
            >(ConfigError::MissingCity),
            match (self.weather_apikey, self.weather_city) {
                (Some(k), Some(c)) => r matches Ok(u) && u@ == url_text(c@, k@),
                _ => true,
            },
    {
        let apikey = match &self.weather_apikey {
            Some(s) => s,
            None => {
                return Err(ConfigError::MissingApiKey);
            },
        };
        let city = match &self.weather_city {
            Some(s) => s,
            None => {
                return Err(ConfigError::MissingCity);
            },
        };
        let mut url = String::from_str("https://api.openweathermap.org/data/2.5/weather?id=");
        url.append(city.as_str());
        url.append("&units=metric&appid=");
        url.append(apikey.as_str());
        Ok(url)
    }

    /// The configured network interface, or its missing-value error.
    pub fn get_net_interface(&self) -> (r: Result<String, ConfigError>)
        ensures
            match self.net_interface {
                Some(i) => r matches Ok(s) && s@ == i@,
                None => r == Err::<String, ConfigError>(ConfigError::MissingInterface),
            },
    {
        match &self.net_interface {
            Some(e) => Ok(e.clone()),
            None => Err(ConfigError::MissingInterface),
        }
    }
}

/// The set of activated samplers: one per recognized placeholder of the
/// template, built once at startup and owned by the poll loop.
#[derive(Debug, PartialEq, Clone)]
pub struct Modules {
    /// The time sampler, when the template shows the time.
    pub time: Option<datetime::Time>,
    /// The weather sampler, when the template shows the weather.
    pub weather: Option<weather::Weather>,
    /// The network sampler, when the template shows a transfer rate.
    pub net: Option<net::Net>,
    /// The CPU sampler, when the template shows utilization.
    pub cpu: Option<cpu::Cpu>,
    /// The memory sampler, when the template shows memory pressure.
    pub mem: Option<mem::Mem>,
    /// The battery sampler, when the template shows the charge.
    pub bat: Option<bat::Battery>,
}

impl Modules {
    /// Every activated sampler respects its own invariant.
    pub open spec fn wf(self) -> bool {
        &&& (self.cpu matches Some(c) ==> c.wf())
        &&& (self.mem matches Some(m) ==> m.wf())
        &&& (self.net matches Some(n) ==> n.wf())
    }

    /// Builds the sampler set for template `s` at time `now` (in seconds).
    /// A sampler is activated exactly when its placeholder token appears
    /// in the template. A token whose sampler needs a configuration value
    /// that is missing aborts the build with that value's error, weather
    /// before network, key before city.
    pub fn init(config: Config, s: &str, now: u64) -> (r: Result<Modules, ConfigError>)
        ensures
            ({
                let w_needed = contains_seq(s@, "{weather}"@);
                let n_needed = contains_seq(s@, "{download}"@) || contains_seq(s@, "{upload}"@);
                if w_needed && config.weather_apikey is None {
                    r == Err::<Modules, ConfigError>(ConfigError::MissingApiKey)
                } else if w_needed && config.weather_city is None {
                    r == Err::<Modules, ConfigError>(ConfigError::MissingCity)
                } else if n_needed && config.net_interface is None {
                    r == Err::<Modules, ConfigError>(ConfigError::MissingInterface)
                } else {
                    &&& r matches Ok(m)
                    &&& m.wf()
                    &&& (m.time is Some <==> contains_seq(s@, "{datetime}"@))
                    &&& (m.time matches Some(tm) ==> tm.val@ == Seq::<char>::empty())
                    &&& (m.weather is Some <==> w_needed)
                    &&& (m.weather matches Some(w) ==> w.description is None && w.degrees is None
                        && w.last_update is None && w.ttl_secs == weather::WEATHER_TTL_SECS
                        && w.url@ == url_text(config.weather_city->0@, config.weather_apikey->0@))
                    &&& (m.net is Some <==> n_needed)
                    &&& (m.net matches Some(n) ==> n.interface@ == config.net_interface->0@
                        && n.net_time == now && n.avg_recv is None && n.avg_tran is None
                        && n.recv == 0 && n.tran == 0 && n.recv_stack@ == seq![0u64, 0u64, 0u64]
                        && n.tran_stack@ == seq![0u64, 0u64, 0u64])
                    &&& (m.cpu is Some <==> contains_seq(s@, "{cpu}"@))
                    &&& (m.cpu matches Some(c) ==> !c.has_baseline && c.val is None
                        && c.last_total_sum == 0 && c.last_idle == 0)
                    &&& (m.mem is Some <==> contains_seq(s@, "{memory}"@))
                    &&& (m.mem matches Some(me) ==> me.used_mem is None)
                    &&& (m.bat is Some <==> contains_seq(s@, "{bat}"@))
                    &&& (m.bat matches Some(b) ==> b.val is None)
                }
            }),
    {
        let time = if text::str_contains(s, "{datetime}") {
            Some(datetime::Time::init())
        } else {
            None
        };

        let weather = if text::str_contains(s, "{weather}") {
            let url = match config.format_url() {
                Ok(u) => u,
                Err(e) => {
                    return Err(e);
                },
            };
            Some(weather::Weather::init(url))
        } else {
            None
        };

        let net = if text::str_contains(s, "{download}") || text::str_contains(s, "{upload}") {
            let interface = match config.get_net_interface() {
                Ok(i) => i,
                Err(e) => {
                    return Err(e);
                },
            };
            Some(net::Net::init(interface, now))
        } else {
            None
        };

        let cpu = if text::str_contains(s, "{cpu}") {
            Some(cpu::Cpu::init())
        } else {
            None
        };

        let mem = if text::str_contains(s, "{memory}") {
            Some(mem::Mem::init())
        } else {
            None
        };

        let bat = if text::str_contains(s, "{bat}") {
            Some(bat::Battery::init())
        } else {
            None
        };

        Ok(Modules { time, weather, net, cpu, mem, bat })
    }

    /// The time sampler's display text, or the fallback.
    pub open spec fn time_text_of(self) -> Seq<char> {
        match self.time {
            Some(t) => t.val@,
            None => fallback_text(),
        }
    }

    /// The weather sampler's display text, or the fallback.
    pub open spec fn weather_text_of(self) -> Seq<char> {
        match self.weather {
            Some(w) => match (w.description, w.degrees) {
                (Some(d), Some(g)) => weather::weather_text(d@, g as int),
                _ => fallback_text(),
            },
            None => fallback_text(),
        }
    }

    /// The CPU sampler's display text, or the fallback.
    pub open spec fn cpu_text_of(self) -> Seq<char> {
        match self.cpu {
            Some(c) => match c.val {
                Some(v) => text::pad2_seq(v as int),
                None => fallback_text(),
            },
            None => fallback_text(),
        }
    }

    /// The memory sampler's display text, or the fallback.
    pub open spec fn mem_text_of(self) -> Seq<char> {
        match self.mem {
            Some(m) => match m.used_mem {
                Some(v) => text::pad2_seq(v as int),
                None => fallback_text(),
            },
            None => fallback_text(),
        }
    }

    /// The download display text, or the fallback.
    pub open spec fn dl_text_of(self) -> Seq<char> {
        match self.net {
            Some(n) => match n.avg_recv {
                Some(h) => seq!['\u{e061}'] + net::mb_text(h as int) + " MB/s"@,
                None => fallback_text(),
            },
            None => fallback_text(),
        }
    }

    /// The upload display text, or the fallback.
    pub open spec fn up_text_of(self) -> Seq<char> {
        match self.net {
            Some(n) => match n.avg_tran {
                Some(h) => seq!['\u{e060}'] + net::mb_text(h as int) + " MB/s"@,
                None => fallback_text(),
            },
            None => fallback_text(),
        }
    }

    /// The battery sampler's display text, or the fallback.
    pub open spec fn bat_text_of(self) -> Seq<char> {
        match self.bat {
            Some(b) => match b.val {
                Some(v) => v@,
                None => fallback_text(),
            },
            None => fallback_text(),
        }
    }

    /// Updates the time sampler, when active, and returns its display
    /// text.
    pub fn update_time(&mut self) -> (r: String)
        ensures
            *final(self) == (Modules { time: final(self).time, ..*old(self) }),
            match old(self).time {
                Some(t0) => final(self).time matches Some(t1) && datetime::Time::step_rel(t0, t1),
                None => final(self).time is None,
            },
            r@ == final(self).time_text_of(),
    {
        match &mut self.time {
            Some(v) => {
                v.update();
                v.output()
            },
            None => String::from_str("N/A"),
        }
    }

    /// Updates the weather sampler, when active, with the tick's time and
    /// fetched body, and returns its display text.
    pub fn update_weather(&mut self, now: u64, body: Option<&str>) -> (r: String)
        ensures
            *final(self) == (Modules { weather: final(self).weather, ..*old(self) }),
            match old(self).weather {
                Some(w0) => final(self).weather matches Some(w1) && weather::Weather::step_any(
                    w0,
                    now,
                    match body {
                        Some(b) => Some(b@),
                        None => None,
                    },
                    w1,
                ),
                None => final(self).weather is None,
            },
            r@ == final(self).weather_text_of(),
    {
        match &mut self.weather {
            Some(v) => {
                let _ = v.update(now, body);
                match v.output() {
                    Some(s) => s,
                    None => String::from_str("N/A"),
                }
            },
            None => String::from_str("N/A"),
        }
    }

    /// Updates the network sampler, when active, with the tick's time and
    /// device text.
    pub fn update_net(&mut self, now: u64, content: Option<&str>)
        requires
            old(self).wf(),
        ensures
            final(self).wf(),
            *final(self) == (Modules { net: final(self).net, ..*old(self) }),
            match old(self).net {
                Some(n0) => final(self).net matches Some(n1) && net::Net::step_any(
                    n0,
                    now,
                    match content {
                        Some(s) => Some(s@),
                        None => None,
                    },
                    n1,
                ),
                None => final(self).net is None,
            },
    {
        if let Some(v) = &mut self.net {
            let _ = v.update(now, content);
        }
    }

    /// The download display text of the sampler as it stands.
    pub fn net_dl(&self) -> (r: String)
        ensures
            r@ == self.dl_text_of(),
    {
        match &self.net {
            Some(v) => {
                match v.dl_output() {
                    Some(s) => s,
                    None => String::from_str("N/A"),
                }
            },
            None => String::from_str("N/A"),
        }
    }

    /// The upload display text of the sampler as it stands.
    pub fn net_up(&self) -> (r: String)
        ensures
            r@ == self.up_text_of(),
    {
        match &self.net {
            Some(v) => {
                match v.up_output() {
                    Some(s) => s,
                    None => String::from_str("N/A"),
                }
            },
            None => String::from_str("N/A"),
        }
    }

    /// Updates the CPU sampler, when active, with the tick's counter text,
    /// and returns its display text.
    pub fn update_cpu(&mut self, content: Option<&str>) -> (r: String)
        requires
            old(self).wf(),
        ensures
            final(self).wf(),
            *final(self) == (Modules { cpu: final(self).cpu, ..*old(self) }),
            match old(self).cpu {
                Some(c0) => final(self).cpu matches Some(c1) && cpu::Cpu::step_any(
                    c0,
                    match content {
                        Some(s) => Some(s@),
                        None => None,
                    },
                    c1,
                ),
                None => final(self).cpu is None,
            },
            r@ == final(self).cpu_text_of(),
    {
        match &mut self.cpu {
            Some(v) => {
                let _ = v.update(content);
                match v.output() {
                    Some(s) => s,
                    None => String::from_str("N/A"),
                }
            },
            None => String::from_str("N/A"),
        }
    }

    /// Updates the memory sampler, when active, with the tick's meminfo
    /// text, and returns its display text.
    pub fn update_mem(&mut self, content: Option<&str>) -> (r: String)
        requires
            old(self).wf(),
        ensures
            final(self).wf(),
            *final(self) == (Modules { mem: final(self).mem, ..*old(self) }),
            match old(self).mem {
                Some(m0) => final(self).mem matches Some(m1) && mem::Mem::step_any(
                    m0,
                    match content {
                        Some(s) => Some(s@),
                        None => None,
                    },
                    m1,
                ),
                None => final(self).mem is None,
            },
            r@ == final(self).mem_text_of(),
    {
        match &mut self.mem {
            Some(v) => {
                let _ = v.update(content);
                match v.output() {
                    Some(s) => s,
                    None => String::from_str("N/A"),
                }
            },
            None => String::from_str("N/A"),
        }
    }

    /// Updates the battery sampler, when active, with the tick's capacity
    /// text, and returns its display text.
    pub fn update_bat(&mut self, content: Option<&str>) -> (r: String)
        ensures
            *final(self) == (Modules { bat: final(self).bat, ..*old(self) }),
            match old(self).bat {
                Some(b0) => final(self).bat matches Some(b1) && bat::Battery::step_rel(
                    b0,
                    match content {
                        Some(s) => Some(s@),
                        None => None,
                    },
                    b1,
                ),
                None => final(self).bat is None,
            },
            r@ == final(self).bat_text_of(),
    {
        match &mut self.bat {
            Some(v) => {
                v.update(content);
                match v.output() {
                    Some(s) => s,
                    None => String::from_str("N/A"),
                }
            },
            None => String::from_str("N/A"),
        }
    }
}

/// One tick's outside readings, gathered by the caller before the engine
/// runs: the time in seconds, the pseudo-file texts, and the weather body
/// (fetched only when the weather sampler said a fetch was due). `None`
/// stands for a source that could not be read.
#[derive(Debug, PartialEq, Clone)]
pub struct TickData {
    /// The tick's time in seconds.
    pub now: u64,
    /// The CPU counter pseudo-file's text.
    pub cpu_content: Option<String>,
    /// The memory key/value pseudo-file's text.
    pub mem_content: Option<String>,
    /// The network device pseudo-file's text.
    pub net_content: Option<String>,
    /// The battery capacity file's text.
    pub bat_content: Option<String>,
    /// The fetched weather document body.
    pub weather_body: Option<String>,
}

/// The text of an optional reading.
pub open spec fn opt_view(o: Option<String>) -> Option<Seq<char>> {
    match o {
        Some(s) => Some(s@),
        None => None,
    }
}

/// The template with every active placeholder replaced by its sampler's
/// display text, in template order: each stage tests the string the
/// previous stage produced, exactly as the tick performs it.
pub open spec fn substituted(s: Seq<char>, m: Modules) -> Seq<char> {
    let s1 = if contains_seq(s, "{datetime}"@) {
        replace_seq(s, "{datetime}"@, m.time_text_of())
    } else {
        s
    };
    let s2 = if contains_seq(s1, "{weather}"@) {
        replace_seq(s1, "{weather}"@, m.weather_text_of())
    } else {
        s1
    };
    let net_active = contains_seq(s2, "{download}"@) || contains_seq(s2, "{upload}"@);
    let s3a = if net_active {
        replace_seq(s2, "{upload}"@, m.up_text_of())
    } else {
        s2
    };
    let s3 = if net_active {
        replace_seq(s3a, "{download}"@, m.dl_text_of())
    } else {
        s3a
    };
    let s4 = if contains_seq(s3, "{cpu}"@) {
        replace_seq(s3, "{cpu}"@, m.cpu_text_of())
    } else {
        s3
    };
    let s5 = if contains_seq(s4, "{memory}"@) {
        replace_seq(s4, "{memory}"@, m.mem_text_of())
    } else {
        s4
    };
    let s6 = if contains_seq(s5, "{bat}"@) {
        replace_seq(s5, "{bat}"@, m.bat_text_of())
    } else {
        s5
    };
    s6
}

/// How one tick transforms the sampler set and what it publishes: each
/// sampler steps exactly when its placeholder stands in the string its
/// stage receives, and the published line is the fully substituted
/// template.
pub open spec fn tick_rel(
    s: Seq<char>,
    m0: Modules,
    m1: Modules,
    t: TickData,
    out: Seq<char>,
) -> bool {
    let s1 = if contains_seq(s, "{datetime}"@) {
        replace_seq(s, "{datetime}"@, m1.time_text_of())
    } else {
        s
    };
    let s2 = if contains_seq(s1, "{weather}"@) {
        replace_seq(s1, "{weather}"@, m1.weather_text_of())
    } else {
        s1
    };
    let net_active = contains_seq(s2, "{download}"@) || contains_seq(s2, "{upload}"@);
    let s3a = if net_active {
        replace_seq(s2, "{upload}"@, m1.up_text_of())
    } else {
        s2
    };
    let s3 = if net_active {
        replace_seq(s3a, "{download}"@, m1.dl_text_of())
    } else {
        s3a
    };
    let s4 = if contains_seq(s3, "{cpu}"@) {
        replace_seq(s3, "{cpu}"@, m1.cpu_text_of())
    } else {
        s3
    };
    let s5 = if contains_seq(s4, "{memory}"@) {
        replace_seq(s4, "{memory}"@, m1.mem_text_of())
    } else {
        s4
    };
    &&& (if contains_seq(s, "{datetime}"@) {
        match m0.time {
            Some(t0) => m1.time matches Some(t1) && datetime::Time::step_rel(t0, t1),
            None => m1.time is None,
        }
    } else {
        m1.time == m0.time
    })
    &&& (if contains_seq(s1, "{weather}"@) {
        match m0.weather {
            Some(w0) => m1.weather matches Some(w1) && weather::Weather::step_any(
                w0,
                t.now,
                opt_view(t.weather_body),
                w1,
            ),
            None => m1.weather is None,
        }
    } else {
        m1.weather == m0.weather
    })
    &&& (if net_active {
        match m0.net {
            Some(n0) => m1.net matches Some(n1) && net::Net::step_any(
                n0,
                t.now,
                opt_view(t.net_content),
                n1,
            ),
            None => m1.net is None,
        }
    } else {
        m1.net == m0.net
    })
    &&& (if contains_seq(s3, "{cpu}"@) {
        match m0.cpu {
            Some(c0) => m1.cpu matches Some(c1) && cpu::Cpu::step_any(
                c0,
                opt_view(t.cpu_content),
                c1,
            ),
            None => m1.cpu is None,
        }
    } else {
        m1.cpu == m0.cpu
    })
    &&& (if contains_seq(s4, "{memory}"@) {
        match m0.mem {
            Some(mm0) => m1.mem matches Some(mm1) && mem::Mem::step_any(
                mm0,
                opt_view(t.mem_content),
                mm1,
            ),
            None => m1.mem is None,
        }
    } else {
        m1.mem == m0.mem
    })
    &&& (if contains_seq(s5, "{bat}"@) {
        match m0.bat {
            Some(b0) => m1.bat matches Some(b1) && bat::Battery::step_rel(
                b0,
                opt_view(t.bat_content),
                b1,
            ),
            None => m1.bat is None,
        }
    } else {
        m1.bat == m0.bat
    })
    &&& out == substituted(s, m1)
}

/// Runs one tick: every active sampler whose placeholder stands in the
/// template digests its reading, and the template is substituted in
/// template order. A failing sampler only blanks or freezes its own text;
/// the tick always produces a line.
#[verifier::rlimit(100)]
#[verifier::spinoff_prover]
pub fn update(s: String, m: &mut Modules, t: &TickData) -> (out: String)
    requires
        old(m).wf(),
    ensures
        final(m).wf(),
        tick_rel(s@, *old(m), *final(m), *t, out@),
{
    proof {
        reveal_strlit("{datetime}");
        reveal_strlit("{weather}");
        reveal_strlit("{download}");
        reveal_strlit("{upload}");
        reveal_strlit("{cpu}");
        reveal_strlit("{memory}");
        reveal_strlit("{bat}");
    }
    let mut cur = s;
    if text::str_contains(cur.as_str(), "{datetime}") {
        let txt = m.update_time();
        cur = text::str_replace(cur.as_str(), "{datetime}", txt.as_str());
    }
    if text::str_contains(cur.as_str(), "{weather}") {
        let body = match &t.weather_body {
            Some(b) => Some(b.as_str()),
            None => None,
        };
        let txt = m.update_weather(t.now, body);
        cur = text::str_replace(cur.as_str(), "{weather}", txt.as_str());
    }
    if text::str_contains(cur.as_str(), "{download}") || text::str_contains(
        cur.as_str(),
        "{upload}",
    ) {
        let content = match &t.net_content {
            Some(c) => Some(c.as_str()),
            None => None,
        };
        m.update_net(t.now, content);
        let up = m.net_up();
        cur = text::str_replace(cur.as_str(), "{upload}", up.as_str());
        let dl = m.net_dl();
        cur = text::str_replace(cur.as_str(), "{download}", dl.as_str());
    }
    if text::str_contains(cur.as_str(), "{cpu}") {
        let content = match &t.cpu_content {
            Some(c) => Some(c.as_str()),
            None => None,
        };
        let txt = m.update_cpu(content);
        cur = text::str_replace(cur.as_str(), "{cpu}", txt.as_str());
    }
    if text::str_contains(cur.as_str(), "{memory}") {
        let content = match &t.mem_content {
            Some(c) => Some(c.as_str()),
            None => None,
        };
        let txt = m.update_mem(content);
        cur = text::str_replace(cur.as_str(), "{memory}", txt.as_str());
    }
    if text::str_contains(cur.as_str(), "{bat}") {
        let content = match &t.bat_content {
            Some(c) => Some(c.as_str()),
            None => None,
        };
        let txt = m.update_bat(content);
        cur = text::str_replace(cur.as_str(), "{bat}", txt.as_str());
    }
    cur
}

} // verus!
