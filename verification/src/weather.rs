//! Weather for page 170: weekday arithmetic, the decorative generator that
//! stands in when the upstream service is unusable, and the decisions of
//! the current-conditions cache.

use vstd::prelude::*;
use crate::text::{
    contains, contains_text, decimal_digits, push_decimal, trim, trimmed,
};

verus! {

/// How long (in seconds) a cached current-conditions string stays fresh.
pub const WEATHER_CACHE_TTL_SECS: u64 = 3600;

/// ISO weekday index (0 = Monday ... 6 = Sunday) of a Unix timestamp;
/// 1970-01-01 was a Thursday (index 3).
pub fn weekday_from_secs(secs: u64) -> (r: u64)
    ensures
        r == (secs / 86400 + 3) % 7,
{
    (secs / 86400 + 3) % 7
}

/// One step of the linear congruential generator on 64-bit seeds.
pub open spec fn lcg_step(s: u64) -> u64 {
    ((s * 6364136223846793005int + 1442695040888963407int) % 0x1_0000_0000_0000_0000int) as u64
}

/// The value the generator hands out for a seed: its upper 31 bits.
pub open spec fn lcg_output(s: u64) -> u64 {
    s / 0x2_0000_0000
}

/// The seed after `k` steps.
pub open spec fn lcg_steps(s: u64, k: nat) -> u64
    decreases k,
{
    if k == 0 { s } else { lcg_step(lcg_steps(s, (k - 1) as nat)) }
}

/// Advances `seed` by one generator step and returns the upper 31 bits of
/// the new seed.  Decorative randomness only.
pub fn lcg_next(seed: &mut u64) -> (r: u64)
    ensures
        *final(seed) == lcg_step(*old(seed)),
        r == lcg_output(*final(seed)),
        r < 0x8000_0000,
{
    let ghost s = *seed;
    let a = seed.wrapping_mul(6364136223846793005);
    let b = a.wrapping_add(1442695040888963407);
    proof {
        vstd::arithmetic::div_mod::lemma_add_mod_noop(
            s * 6364136223846793005int,
            1442695040888963407int,
            0x1_0000_0000_0000_0000int,
        );
        assert(1442695040888963407int % 0x1_0000_0000_0000_0000int == 1442695040888963407int);
    }
    *seed = b;
    assert(b >> 33u64 == b / 0x2_0000_0000) by (bit_vector);
    b >> 33
}

/// German weekday abbreviation for index `i` (0 = Monday).
pub open spec fn day_name(i: int) -> Seq<char> {
    if i == 0 { "Mo"@ }
    else if i == 1 { "Di"@ }
    else if i == 2 { "Mi"@ }
    else if i == 3 { "Do"@ }
    else if i == 4 { "Fr"@ }
    else if i == 5 { "Sa"@ }
    else { "So"@ }
}

/// Weather symbol number `i` of the fixed palette of seven.
pub open spec fn icon_name(i: int) -> Seq<char> {
    if i == 0 { "\u{2600}"@ }
    else if i == 1 { "\u{1f324}"@ }
    else if i == 2 { "\u{26c5}"@ }
    else if i == 3 { "\u{1f326}"@ }
    else if i == 4 { "\u{2601}"@ }
    else if i == 5 { "\u{1f327}"@ }
    else { "\u{26c8}"@ }
}

/// CSS colour class number `i` of the teletext palette.
pub open spec fn color_name(i: int) -> Seq<char> {
    if i == 0 { "color-green"@ }
    else if i == 1 { "color-yellow"@ }
    else if i == 2 { "color-cyan"@ }
    else { "color-red"@ }
}

fn day_text(i: u64) -> (t: &'static str)
    ensures
        t@ == day_name(i as int),
{
    match i {
        0 => "Mo",
        1 => "Di",
        2 => "Mi",
        3 => "Do",
        4 => "Fr",
        5 => "Sa",
        _ => "So",
    }
}

fn icon_text(i: u64) -> (t: &'static str)
    ensures
        t@ == icon_name(i as int),
{
    match i {
        0 => "\u{2600}",
        1 => "\u{1f324}",
        2 => "\u{26c5}",
        3 => "\u{1f326}",
        4 => "\u{2601}",
        5 => "\u{1f327}",
        _ => "\u{26c8}",
    }
}

fn color_text(i: u64) -> (t: &'static str)
    ensures
        t@ == color_name(i as int),
{
    match i {
        0 => "color-green",
        1 => "color-yellow",
        2 => "color-cyan",
        _ => "color-red",
    }
}

/// One day of the generated three-day forecast.
#[derive(Debug, PartialEq, Eq)]
pub struct ForecastDay {
    /// German weekday abbreviation (Mo, Di, ...).
    pub day: String,
    /// A weather symbol from the fixed palette.
    pub icon: String,
    /// Temperature in degrees Celsius.
    pub temp: u64,
    /// Wind speed in km/h.
    pub wind: u64,
    /// CSS colour class from the teletext palette.
    pub color: String,
}

/// Day `k` (0-based, the day after today being 0) of the forecast seeded
/// from `now`: the weekday follows today's, and each field takes the next
/// generator output in turn.
pub open spec fn is_forecast_day(f: ForecastDay, now: u64, k: int) -> bool {
    &&& f.day@ == day_name(((now / 86400 + 3) % 7 + k + 1) % 7)
    &&& f.icon@ == icon_name((lcg_output(lcg_steps(now, (4 * k + 1) as nat)) % 7) as int)
    &&& f.temp == 8 + lcg_output(lcg_steps(now, (4 * k + 2) as nat)) % 15
    &&& f.wind == 5 + lcg_output(lcg_steps(now, (4 * k + 3) as nat)) % 36
    &&& f.color@ == color_name((lcg_output(lcg_steps(now, (4 * k + 4) as nat)) % 4) as int)
}

/// Generates the decorative three-day forecast for page 170, seeded from
/// `now_secs` so it is stable within a second.
pub fn build_forecast(now_secs: u64) -> (f: Vec<ForecastDay>)
    ensures
        f@.len() == 3,
        forall|k: int| 0 <= k < 3 ==> is_forecast_day(#[trigger] f@[k], now_secs, k),
        forall|k: int| 0 <= k < 3 ==> 8 <= #[trigger] f@[k].temp <= 22 && 5 <= f@[k].wind <= 40,
{
    let today = weekday_from_secs(now_secs);
    let mut seed = now_secs;
    let mut out: Vec<ForecastDay> = Vec::new();
    let mut i: u64 = 1;
    while i <= 3
        invariant
            1 <= i <= 4,
            today == (now_secs / 86400 + 3) % 7,
            seed == lcg_steps(now_secs, (4 * (i - 1)) as nat),
            out@.len() == i - 1,
            forall|k: int| 0 <= k < i - 1 ==> is_forecast_day(#[trigger] out@[k], now_secs, k),
        decreases 4 - i,
    {
        let ghost k: int = i - 1;
        let day = String::from_str(day_text((today + i) % 7));
        let icon = String::from_str(icon_text(lcg_next(&mut seed) % 7));
        let temp = 8 + lcg_next(&mut seed) % 15;
        let wind = 5 + lcg_next(&mut seed) % 36;
        let color = String::from_str(color_text(lcg_next(&mut seed) % 4));
        proof {
            assert(seed == lcg_steps(now_secs, (4 * k + 4) as nat)) by {
                reveal_with_fuel(lcg_steps, 5);
            }
            assert(lcg_steps(now_secs, (4 * k + 3) as nat) == lcg_step(lcg_steps(now_secs, (4 * k + 2) as nat)));
            assert(lcg_steps(now_secs, (4 * k + 2) as nat) == lcg_step(lcg_steps(now_secs, (4 * k + 1) as nat)));
            assert(lcg_steps(now_secs, (4 * k + 1) as nat) == lcg_step(lcg_steps(now_secs, (4 * k) as nat)));
        }
        out.push(ForecastDay { day, icon, temp, wind, color });
        i = i + 1;
    }
    out
}

/// wttr.in `format=2` output always holds a degree sign followed by `C`
/// or `F`; anything without one is an error page.
pub open spec fn is_weather_text(s: Seq<char>) -> bool {
    contains_text(s, "\u{b0}C"@) || contains_text(s, "\u{b0}F"@)
}

/// Whether `s` looks like a wttr.in weather string.
pub fn looks_like_weather(s: &str) -> (r: bool)
    ensures
        r == is_weather_text(s@),
{
    contains(s, "\u{b0}C") || contains(s, "\u{b0}F")
}

/// The seed of the current-conditions generator for `now`.
pub open spec fn current_seed(now: u64) -> u64 {
    ((now * 2654435761int) % 0x1_0000_0000_0000_0000int) as u64
}

/// The generated current-conditions string for `now`, in wttr.in
/// `format=2` style: a symbol, two spaces, `+`, 8..=22 and `°C`.
pub open spec fn generated_weather_text(now: u64) -> Seq<char> {
    let s = current_seed(now);
    icon_name((lcg_output(lcg_steps(s, 1)) % 7) as int) + "  +"@
        + decimal_digits((lcg_output(lcg_steps(s, 2)) % 15 + 8) as nat) + "\u{b0}C"@
}

/// Generates a plausible current-conditions string, the stand-in when
/// wttr.in is unreachable or answers with something that is not weather.
pub fn generate_current_weather(now_secs: u64) -> (w: String)
    ensures
        w@ == generated_weather_text(now_secs),
{
    let mut seed = now_secs.wrapping_mul(2654435761);
    let icon = icon_text(lcg_next(&mut seed) % 7);
    let temp = lcg_next(&mut seed) % 15 + 8;
    proof {
        reveal_with_fuel(lcg_steps, 3);
    }
    let mut out = String::from_str(icon);
    out.append("  +");
    push_decimal(&mut out, temp);
    out.append("\u{b0}C");
    out
}

/// The generated stand-in always passes the weather check.
pub proof fn lemma_generated_weather_looks_like_weather(now: u64)
    ensures
        is_weather_text(generated_weather_text(now)),
{
    let w = generated_weather_text(now);
    reveal_strlit("\u{b0}C");
    let i = w.len() - 2;
    assert(w.subrange(i, i + 2) =~= "\u{b0}C"@);
    assert(crate::text::occurs_at(w, "\u{b0}C"@, i));
}

/// The current-conditions string shown for a raw upstream answer: the
/// answer without surrounding white space when it looks like weather, the
/// generated stand-in for `now` otherwise.
pub open spec fn resolved_weather_text(raw: Seq<char>, now: u64) -> Seq<char> {
    if is_weather_text(trimmed(raw)) { trimmed(raw) } else { generated_weather_text(now) }
}

/// Chooses what page 170 shows for the raw upstream answer `raw`.
pub fn resolve_weather(raw: &str, now_secs: u64) -> (w: String)
    ensures
        w@ == resolved_weather_text(raw@, now_secs),
{
    let t = trim(raw);
    if looks_like_weather(t) {
        String::from_str(t)
    } else {
        generate_current_weather(now_secs)
    }
}

/// Whatever the upstream answered, what page 170 shows looks like weather.
pub proof fn lemma_resolved_weather_looks_like_weather(raw: Seq<char>, now: u64)
    ensures
        is_weather_text(resolved_weather_text(raw, now)),
{
    lemma_generated_weather_looks_like_weather(now);
}

/// Cached current-conditions string.  `fetched_at` starts at 0 with an
/// empty value, so the first request always fetches.
pub struct WeatherCache {
    /// Last resolved current-conditions string (empty before the first fetch).
    pub value: String,
    /// Unix timestamp (seconds) when `value` was stored.
    pub fetched_at: u64,
}

/// `now - then`, or 0 when `then` lies in the future.
pub open spec fn elapsed(now: u64, then: u64) -> int {
    if now >= then { now - then } else { 0 }
}

impl WeatherCache {
    /// The cache holds a value younger than the time-to-live.
    pub open spec fn is_fresh(&self, now: u64) -> bool {
        self.value@.len() > 0 && elapsed(now, self.fetched_at) < WEATHER_CACHE_TTL_SECS
    }

    /// An empty cache, stale for every request.
    pub fn new() -> (c: WeatherCache)
        ensures
            c.value@.len() == 0,
            c.fetched_at == 0,
    {
        WeatherCache { value: String::new(), fetched_at: 0 }
    }

    /// The cached value when it is still fresh at `now`, `None` when a
    /// fetch is due.
    pub fn fresh_value(&self, now_secs: u64) -> (r: Option<String>)
        ensures
            r is Some <==> self.is_fresh(now_secs),
            r matches Some(v) ==> v@ == self.value@,
    {
        if !self.value.as_str().is_empty()
            && now_secs.saturating_sub(self.fetched_at) < WEATHER_CACHE_TTL_SECS {
            Some(self.value.clone())
        } else {
            None
        }
    }

    /// Resolves the upstream answer `raw` fetched at `now_secs`, stores the
    /// result (real or generated) and returns it.
    pub fn refresh(&mut self, raw: &str, now_secs: u64) -> (w: String)
        ensures
            w@ == resolved_weather_text(raw@, now_secs),
            final(self).value@ == w@,
            final(self).fetched_at == now_secs,
    {
        let w = resolve_weather(raw, now_secs);
        self.value = w.clone();
        self.fetched_at = now_secs;
        w
    }
}

/// A value just stored is served from the cache for the whole time-to-live:
/// any request within `WEATHER_CACHE_TTL_SECS` after the fetch is a hit and
/// gets exactly what was stored.
pub proof fn lemma_refreshed_cache_is_fresh(c: WeatherCache, raw: Seq<char>, fetched: u64, now: u64)
    requires
        c.value@ == resolved_weather_text(raw, fetched),
        c.fetched_at == fetched,
        fetched <= now < fetched + WEATHER_CACHE_TTL_SECS,
    ensures
        c.is_fresh(now),
{
    lemma_resolved_weather_looks_like_weather(raw, fetched);
    let w = resolved_weather_text(raw, fetched);
    if w.len() == 0 {
        let i = choose|i: int| crate::text::occurs_at(w, "\u{b0}C"@, i) || crate::text::occurs_at(w, "\u{b0}F"@, i);
        reveal_strlit("\u{b0}C");
        reveal_strlit("\u{b0}F");
        assert(crate::text::occurs_at(w, "\u{b0}C"@, i) || crate::text::occurs_at(w, "\u{b0}F"@, i));
    }
}


/// The weather check is exactly the presence of a degree sign directly
/// followed by `C` or `F`, anywhere in the text (a minus sign or any other
/// text around it does not matter).
pub proof fn lemma_weather_text_is_degree_and_unit(s: Seq<char>)
    ensures
        is_weather_text(s) <==> exists|i: int|
            0 <= i && i + 1 < s.len() && #[trigger] s[i] == '\u{b0}' && (s[i + 1] == 'C' || s[i + 1] == 'F'),
{
    reveal_strlit("\u{b0}C");
    reveal_strlit("\u{b0}F");
    if is_weather_text(s) {
        if contains_text(s, "\u{b0}C"@) {
            let i = choose|i: int| crate::text::occurs_at(s, "\u{b0}C"@, i);
            assert(s.subrange(i, i + 2)[0] == s[i]);
            assert(s.subrange(i, i + 2)[1] == s[i + 1]);
        } else {
            let i = choose|i: int| crate::text::occurs_at(s, "\u{b0}F"@, i);
            assert(s.subrange(i, i + 2)[0] == s[i]);
            assert(s.subrange(i, i + 2)[1] == s[i + 1]);
        }
    }
    if exists|i: int| 0 <= i && i + 1 < s.len() && #[trigger] s[i] == '\u{b0}' && (s[i + 1] == 'C' || s[i + 1] == 'F') {
        let i = choose|i: int| 0 <= i && i + 1 < s.len() && #[trigger] s[i] == '\u{b0}' && (s[i + 1] == 'C' || s[i + 1] == 'F');
        if s[i + 1] == 'C' {
            assert(s.subrange(i, i + 2) =~= "\u{b0}C"@);
            assert(crate::text::occurs_at(s, "\u{b0}C"@, i));
        } else {
            assert(s.subrange(i, i + 2) =~= "\u{b0}F"@);
            assert(crate::text::occurs_at(s, "\u{b0}F"@, i));
        }
    }
}

/// An upstream answer is kept, without its surrounding white space,
/// exactly when that text holds a degree sign directly followed by `C`
/// or `F`; otherwise the generated stand-in is shown.
pub proof fn lemma_resolved_weather_keeps_degree_answers(raw: Seq<char>, now: u64)
    ensures
        (exists|i: int| 0 <= i && i + 1 < trimmed(raw).len() && #[trigger] trimmed(raw)[i] == '\u{b0}'
            && (trimmed(raw)[i + 1] == 'C' || trimmed(raw)[i + 1] == 'F'))
            ==> resolved_weather_text(raw, now) == trimmed(raw),
        !(exists|i: int| 0 <= i && i + 1 < trimmed(raw).len() && #[trigger] trimmed(raw)[i] == '\u{b0}'
            && (trimmed(raw)[i + 1] == 'C' || trimmed(raw)[i + 1] == 'F'))
            ==> resolved_weather_text(raw, now) == generated_weather_text(now),
{
    lemma_weather_text_is_degree_and_unit(trimmed(raw));
}

/// The forecast's weekday names: index 0 is Monday, in the German
/// abbreviations Mo, Di, Mi, Do, Fr, Sa, So.
pub proof fn lemma_day_names()
    ensures
        day_name(0) == seq!['M', 'o'],
        day_name(1) == seq!['D', 'i'],
        day_name(2) == seq!['M', 'i'],
        day_name(3) == seq!['D', 'o'],
        day_name(4) == seq!['F', 'r'],
        day_name(5) == seq!['S', 'a'],
        day_name(6) == seq!['S', 'o'],
{
    reveal_strlit("Mo");
    reveal_strlit("Di");
    reveal_strlit("Mi");
    reveal_strlit("Do");
    reveal_strlit("Fr");
    reveal_strlit("Sa");
    reveal_strlit("So");
    assert(day_name(0) =~= seq!['M', 'o']);
    assert(day_name(1) =~= seq!['D', 'i']);
    assert(day_name(2) =~= seq!['M', 'i']);
    assert(day_name(3) =~= seq!['D', 'o']);
    assert(day_name(4) =~= seq!['F', 'r']);
    assert(day_name(5) =~= seq!['S', 'a']);
    assert(day_name(6) =~= seq!['S', 'o']);
}

/// Forecast day `k` (0 is tomorrow) is labelled with the German weekday
/// `k + 1` days after the weekday of `now` (1970-01-01 was a Thursday).
pub proof fn lemma_forecast_day_label(f: ForecastDay, now: u64, k: int)
    requires
        0 <= k < 3,
        is_forecast_day(f, now, k),
    ensures
        f.day@ == seq![
            seq!['M', 'o'], seq!['D', 'i'], seq!['M', 'i'], seq!['D', 'o'],
            seq!['F', 'r'], seq!['S', 'a'], seq!['S', 'o'],
        ][((now / 86400 + 3) % 7 + k + 1) % 7],
{
    lemma_day_names();
}

/// The seven weather symbols, in palette order.
pub proof fn lemma_icon_names()
    ensures
        icon_name(0) == seq!['\u{2600}'],
        icon_name(1) == seq!['\u{1f324}'],
        icon_name(2) == seq!['\u{26c5}'],
        icon_name(3) == seq!['\u{1f326}'],
        icon_name(4) == seq!['\u{2601}'],
        icon_name(5) == seq!['\u{1f327}'],
        icon_name(6) == seq!['\u{26c8}'],
{
    reveal_strlit("\u{2600}");
    reveal_strlit("\u{1f324}");
    reveal_strlit("\u{26c5}");
    reveal_strlit("\u{1f326}");
    reveal_strlit("\u{2601}");
    reveal_strlit("\u{1f327}");
    reveal_strlit("\u{26c8}");
    assert(icon_name(0) =~= seq!['\u{2600}']);
    assert(icon_name(1) =~= seq!['\u{1f324}']);
    assert(icon_name(2) =~= seq!['\u{26c5}']);
    assert(icon_name(3) =~= seq!['\u{1f326}']);
    assert(icon_name(4) =~= seq!['\u{2601}']);
    assert(icon_name(5) =~= seq!['\u{1f327}']);
    assert(icon_name(6) =~= seq!['\u{26c8}']);
}

/// The four colour classes, in palette order.
pub proof fn lemma_color_names()
    ensures
        color_name(0) == seq!['c', 'o', 'l', 'o', 'r', '-', 'g', 'r', 'e', 'e', 'n'],
        color_name(1) == seq!['c', 'o', 'l', 'o', 'r', '-', 'y', 'e', 'l', 'l', 'o', 'w'],
        color_name(2) == seq!['c', 'o', 'l', 'o', 'r', '-', 'c', 'y', 'a', 'n'],
        color_name(3) == seq!['c', 'o', 'l', 'o', 'r', '-', 'r', 'e', 'd'],
{
    reveal_strlit("color-green");
    reveal_strlit("color-yellow");
    reveal_strlit("color-cyan");
    reveal_strlit("color-red");
    assert(color_name(0) =~= seq!['c', 'o', 'l', 'o', 'r', '-', 'g', 'r', 'e', 'e', 'n']);
    assert(color_name(1) =~= seq!['c', 'o', 'l', 'o', 'r', '-', 'y', 'e', 'l', 'l', 'o', 'w']);
    assert(color_name(2) =~= seq!['c', 'o', 'l', 'o', 'r', '-', 'c', 'y', 'a', 'n']);
    assert(color_name(3) =~= seq!['c', 'o', 'l', 'o', 'r', '-', 'r', 'e', 'd']);
}

/// The cache serves its value exactly while the value is non-empty and
/// less than an hour (3600 s) has passed since the fetch; a clock behind
/// the fetch time counts as no time passed.  From an hour on it is stale.
pub proof fn lemma_cache_freshness(c: WeatherCache, now: u64)
    ensures
        c.is_fresh(now) <==> (c.value@.len() > 0 && (now < c.fetched_at || now - c.fetched_at < 3600)),
        now >= c.fetched_at && now - c.fetched_at >= 3600 ==> !c.is_fresh(now),
{
}

/// One generator step is `s * 6364136223846793005 + 1442695040888963407`
/// modulo 2^64, and the value handed out is the top 31 bits of the new seed.
pub proof fn lemma_generator_step(s: u64)
    ensures
        lcg_step(s) as int == (s as int * 6364136223846793005 + 1442695040888963407) % 18446744073709551616,
        lcg_output(lcg_step(s)) as int == lcg_step(s) as int / 8589934592,
{
}


/// The generated stand-in: the seed is `now * 2654435761` modulo 2^64; the
/// first generator output picks one of the seven symbols, the second a
/// temperature from 8 to 22; the text is the symbol, two spaces, `+`, the
/// temperature in decimal and `°C`.
pub proof fn lemma_generated_weather_shape(now: u64)
    ensures
        current_seed(now) as int == (now as int * 2654435761) % 18446744073709551616,
        ({
            let s1 = lcg_step(current_seed(now));
            let s2 = lcg_step(s1);
            let t = lcg_output(s2) % 15 + 8;
            &&& 8 <= t <= 22
            &&& generated_weather_text(now) == icon_name((lcg_output(s1) % 7) as int)
                + seq![' ', ' ', '+'] + decimal_digits(t as nat) + seq!['\u{b0}', 'C']
        }),
{
    reveal_strlit("  +");
    reveal_strlit("\u{b0}C");
    reveal_with_fuel(lcg_steps, 3);
    let s1 = lcg_step(current_seed(now));
    let s2 = lcg_step(s1);
    let t = lcg_output(s2) % 15 + 8;
    assert(generated_weather_text(now) =~= icon_name((lcg_output(s1) % 7) as int)
        + seq![' ', ' ', '+'] + decimal_digits(t as nat) + seq!['\u{b0}', 'C']);
}


/// The forecast draws its fields from consecutive generator steps starting
/// at the seed `now`: day `k` (0 is tomorrow) takes steps `4k+1` to `4k+4`
/// for symbol (one of 7), temperature (8 + output mod 15), wind
/// (5 + output mod 36) and colour (one of 4), in that order.
pub proof fn lemma_forecast_day_fields(f: ForecastDay, now: u64, k: int)
    requires
        0 <= k < 3,
    ensures
        is_forecast_day(f, now, k) ==> {
            &&& f.icon@ == icon_name((lcg_steps(now, (4 * k + 1) as nat) / 8589934592 % 7) as int)
            &&& f.temp as int == 8 + lcg_steps(now, (4 * k + 2) as nat) / 8589934592 % 15
            &&& f.wind as int == 5 + lcg_steps(now, (4 * k + 3) as nat) / 8589934592 % 36
            &&& f.color@ == color_name((lcg_steps(now, (4 * k + 4) as nat) / 8589934592 % 4) as int)
        },
        lcg_steps(now, 0) == now,
        lcg_steps(now, (k + 1) as nat) == lcg_step(lcg_steps(now, k as nat)),
{
}

} // verus!
