//! The weather sampler: a TTL-guarded cache of the remote weather
//! document's rendering. The engine decides when a fetch is due and digests
//! the fetched body; performing the HTTP request itself is the caller's
//! side of the bargain. The JSON document is taken apart through
//! serde_json; everything after the two raw fields come out is verified.

use vstd::prelude::*;

use crate::text;

verus! {

/// The cache's time-to-live: successful or failing, a fetch is not retried
/// before this many seconds have passed.
pub const WEATHER_TTL_SECS: u64 = 300;

/// Why a weather update failed.
#[derive(Debug, PartialEq, Eq, Structural, Clone, Copy)]
pub enum WeatherError {
    /// The body could not be fetched at all.
    Fetch,
    /// The body is not a JSON document.
    Json,
    /// The document has no temperature field.
    NoTempVal,
    /// The temperature field is not a plain number.
    F64Error,
    /// The document has no description field.
    NoDescriptionVal,
    /// The description field is not a string.
    StrError,
}

impl WeatherError {
    /// A short description of the failure, for logging.
    pub fn message(&self) -> (r: &'static str)
        ensures
            self is Fetch ==> r@ == "could not fetch the weather document"@,
            self is Json ==> r@ == "the weather document is not valid json"@,
            self is NoTempVal ==> r@ == "could not find `/main/temp` in json"@,
            self is F64Error ==> r@ == "could not read `/main/temp` as a number"@,
            self is NoDescriptionVal ==> r@ == "could not find /weather/0/description in json"@,
            self is StrError ==> r@ == "could not cast /weather/0/description value into str"@,
    {
        match self {
            WeatherError::Fetch => "could not fetch the weather document",
            WeatherError::Json => "the weather document is not valid json",
            WeatherError::NoTempVal => "could not find `/main/temp` in json",
            WeatherError::F64Error => "could not read `/main/temp` as a number",
            WeatherError::NoDescriptionVal => "could not find /weather/0/description in json",
            WeatherError::StrError => "could not cast /weather/0/description value into str",
        }
    }
}

/// The two raw fields of a weather document body: the description text at
/// `/weather/0/description` and the decimal text of the number at
/// `/main/temp`, or nothing when the body is not JSON or either field is
/// absent or of the wrong kind. Both depend on the body alone.
pub uninterp spec fn raw_fields_of(b: Seq<char>) -> Option<(Seq<char>, Seq<char>)>;

/// Relies on serde_json — `from_str`, `Value::pointer`, `Value::as_str`
/// and `Number`'s decimal rendering — for the one step the engine cannot
/// do itself: taking the two raw fields out of the document. The error
/// names the first lookup that failed; which one it is carries no promise,
/// only that the fields could not be had.
#[verifier::external_body]
fn extract_raw_fields(b: &str) -> (r: Result<(String, String), WeatherError>)
    ensures
        r matches Ok(p) ==> raw_fields_of(b@) == Some((p.0@, p.1@)),
        r is Err ==> raw_fields_of(b@) is None,
{
    let j: serde_json::Value = serde_json::from_str(b).map_err(|_| WeatherError::Json)?;
    let t = j.pointer("/main/temp").ok_or(WeatherError::NoTempVal)?;
    let n = match t {
        serde_json::Value::Number(n) => n.to_string(),
        _ => return Err(WeatherError::F64Error),
    };
    let d = j.pointer("/weather/0/description").ok_or(WeatherError::NoDescriptionVal)?;
    Ok((d.as_str().ok_or(WeatherError::StrError)?.to_string(), n))
}

/// The display form of the two raw document fields: the description's
/// words title-cased, the temperature text rounded to the nearest degree
/// (halves away from zero). Nothing comes back when the temperature text
/// is not a plain numeral or does not fit.
pub fn render_weather_fields(descr: &str, temp_text: &str) -> (r: Option<(String, i64)>)
    ensures
        match text::round_decimal_spec(temp_text@) {
            Some(v) => if -i64::MAX <= v <= i64::MAX {
                r matches Some(p) && p.0@ == text::cap_words(descr@) && p.1 == v
            } else {
                r is None
            },
            None => r is None,
        },
{
    match text::round_decimal(temp_text) {
        Some(deg) => {
            let d = text::capitalize_words(descr);
            Some((d, deg))
        },
        None => None,
    }
}

/// What one body yields: the title-cased description and the rounded
/// temperature when the raw fields come out and the temperature text
/// rounds to an `i64`; an error otherwise.
pub open spec fn parsed_body(b: Seq<char>, r: Result<(String, i64), WeatherError>) -> bool {
    match raw_fields_of(b) {
        Some(p) => match text::round_decimal_spec(p.1) {
            Some(v) => if -i64::MAX <= v <= i64::MAX {
                r matches Ok(q) && q.0@ == text::cap_words(p.0) && q.1 == v
            } else {
                r == Err::<(String, i64), WeatherError>(WeatherError::F64Error)
            },
            None => r == Err::<(String, i64), WeatherError>(WeatherError::F64Error),
        },
        None => r is Err,
    }
}

/// Takes a fetched body apart: the raw fields out of the document, then
/// the verified rendering.
fn parse_body(b: &str) -> (r: Result<(String, i64), WeatherError>)
    ensures
        parsed_body(b@, r),
{
    let (d, t) = match extract_raw_fields(b) {
        Ok(p) => p,
        Err(e) => {
            return Err(e);
        },
    };
    match render_weather_fields(d.as_str(), t.as_str()) {
        Some(p) => Ok(p),
        None => Err(WeatherError::F64Error),
    }
}

/// The rendered weather line for a description and a temperature.
pub open spec fn weather_text(d: Seq<char>, deg: int) -> Seq<char> {
    seq!['\u{e01d}'] + d + " "@ + text::int_seq(deg) + "\u{b0}C"@
}

/// The weather sampler's state: the cached rendering fields, the request
/// URL, the TTL, and when the last fetch outcome was recorded.
#[derive(Debug, PartialEq, Clone)]
pub struct Weather {
    /// The title-cased description, if the last fetch parsed.
    pub description: Option<String>,
    /// The rounded temperature, if the last fetch parsed.
    pub degrees: Option<i64>,
    /// The request URL handed to the fetching caller.
    pub url: String,
    /// Seconds a fetch outcome stays fresh.
    pub ttl_secs: u64,
    /// When the last fetch outcome was recorded, in seconds.
    pub last_update: Option<u64>,
}

impl Weather {
    /// A fetch outcome is due: none was ever recorded, or the last one has
    /// outlived the TTL.
    pub open spec fn fetch_due(self, now: u64) -> bool {
        match self.last_update {
            Some(t) => now >= t + self.ttl_secs,
            None => true,
        }
    }

    /// A sampler for `url` that has never fetched.
    pub fn init(url: String) -> (w: Weather)
        ensures
            w.description is None,
            w.degrees is None,
            w.url == url,
            w.ttl_secs == WEATHER_TTL_SECS,
            w.last_update is None,
    {
        Weather {
            description: None,
            degrees: None,
            url,
            ttl_secs: WEATHER_TTL_SECS,
            last_update: None,
        }
    }

    /// Whether the caller should fetch the document before the next
    /// update.
    pub fn needs_refresh(&self, now: u64) -> (b: bool)
        ensures
            b == self.fetch_due(now),
    {
        match self.last_update {
            Some(t) => now >= t && now - t >= self.ttl_secs,
            None => true,
        }
    }

    /// How one tick at time `now` (in seconds) transforms the sampler,
    /// given the fetched `body` (`None` for a failed or omitted fetch).
    /// When no fetch is due the state is untouched and the tick succeeds
    /// without any outside work. When one is due, the outcome is recorded
    /// at `now`, so neither success nor failure is retried before the TTL
    /// passes again. A body whose raw fields come out and whose
    /// temperature rounds is cached — the description title-cased, the
    /// temperature as its rounded degrees; any other body, like a failed
    /// fetch, clears the cache rather than leaving it stale.
    pub open spec fn step_rel(
        pre: Weather,
        now: u64,
        body: Option<Seq<char>>,
        post: Weather,
        r: Result<(), WeatherError>,
    ) -> bool {
        &&& (!pre.fetch_due(now) ==> post == pre && r is Ok)
        &&& (pre.fetch_due(now) ==> post.last_update == Some(now) && post.url == pre.url
            && post.ttl_secs == pre.ttl_secs)
        &&& (pre.fetch_due(now) && body is None ==> post.description is None
            && post.degrees is None && r == Err::<(), WeatherError>(WeatherError::Fetch))
        &&& (match body {
            Some(b) => pre.fetch_due(now) ==> match raw_fields_of(b) {
                Some(p) => match text::round_decimal_spec(p.1) {
                    Some(v) => if -i64::MAX <= v <= i64::MAX {
                        &&& r is Ok
                        &&& post.description matches Some(d) && d@ == text::cap_words(p.0)
                        &&& post.degrees == Some(v as i64)
                    } else {
                        &&& r == Err::<(), WeatherError>(WeatherError::F64Error)
                        &&& post.description is None
                        &&& post.degrees is None
                    },
                    None => {
                        &&& r == Err::<(), WeatherError>(WeatherError::F64Error)
                        &&& post.description is None
                        &&& post.degrees is None
                    },
                },
                None => {
                    &&& r is Err
                    &&& post.description is None
                    &&& post.degrees is None
                },
            },
            None => true,
        })
    }

    /// `step_rel` with the result abstracted away.
    pub open spec fn step_any(pre: Weather, now: u64, body: Option<Seq<char>>, post: Weather) -> bool {
        exists|res: Result<(), WeatherError>| Weather::step_rel(pre, now, body, post, res)
    }

    /// Digests one tick, as `step_rel` says.
    pub fn update(&mut self, now: u64, body: Option<&str>) -> (r: Result<(), WeatherError>)
        ensures
            Weather::step_rel(
                *old(self),
                now,
                match body {
                    Some(b) => Some(b@),
                    None => None,
                },
                *final(self),
                r,
            ),
    {
        if !self.needs_refresh(now) {
            return Ok(());
        }
        self.last_update = Some(now);
        let b = match body {
            None => {
                self.description = None;
                self.degrees = None;
                return Err(WeatherError::Fetch);
            },
            Some(b) => b,
        };
        match parse_body(b) {
            Ok((d, t)) => {
                self.description = Some(d);
                self.degrees = Some(t);
                Ok(())
            },
            Err(e) => {
                self.description = None;
                self.degrees = None;
                Err(e)
            },
        }
    }

    /// The rendered weather line, or nothing when no parsed fetch is
    /// cached.
    pub fn output(&self) -> (r: Option<String>)
        ensures
            match (self.description, self.degrees) {
                (Some(d), Some(t)) => r matches Some(o) && o@ == weather_text(d@, t as int),
                _ => r is None,
            },
    {
        match (&self.description, self.degrees) {
            (Some(d), Some(t)) => {
                let mut out = String::new();
                text::push_char(&mut out, '\u{e01d}');
                out.append(d.as_str());
                out.append(" ");
                let deg = text::i128_to_dec(t as i128);
                out.append(deg.as_str());
                out.append("\u{b0}C");
                proof {
                    assert(Seq::<char>::empty().push('\u{e01d}') =~= seq!['\u{e01d}']);
                }
                Some(out)
            },
            _ => None,
        }
    }
}

/// Once a fetch outcome is recorded at time `t`, no further fetch is due
/// before `t + ttl`: however often the sampler is polled, it asks for at
/// most one network call in any window of `ttl` seconds.
pub proof fn lemma_fetch_rate_limit(w: Weather, t: u64, now: u64)
    requires
        w.last_update == Some(t),
        now < t + w.ttl_secs,
    ensures
        !w.fetch_due(now),
{
}

/// The same bound through the transition itself: a tick that processes a
/// fetch at `now` leaves a state in which no fetch is due at any `later`
/// tick inside the TTL window, so such ticks do no outside work at all.
pub proof fn lemma_at_most_one_fetch(
    pre: Weather,
    now: u64,
    body: Option<Seq<char>>,
    post: Weather,
    r: Result<(), WeatherError>,
    later: u64,
)
    requires
        pre.fetch_due(now),
        Weather::step_rel(pre, now, body, post, r),
        later < now + post.ttl_secs,
    ensures
        !post.fetch_due(later),
{
}

} // verus!
