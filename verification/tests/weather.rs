use funkfabrik::weather::{
    build_forecast, generate_current_weather, lcg_next, looks_like_weather, resolve_weather,
    weekday_from_secs, WeatherCache, WEATHER_CACHE_TTL_SECS,
};

#[test]
fn weekday_epoch_is_thursday() {
    // 1970-01-01 00:00:00 UTC was a Thursday (index 3, Mon = 0)
    assert_eq!(weekday_from_secs(0), 3);
}

#[test]
fn weekday_wraps_correctly() {
    // 7 days after epoch is also Thursday
    assert_eq!(weekday_from_secs(7 * 86400), 3);
    // 1 day after epoch is Friday (index 4)
    assert_eq!(weekday_from_secs(86400), 4);
    // 6 days after epoch is Wednesday (index 2)
    assert_eq!(weekday_from_secs(6 * 86400), 2);
}

#[test]
fn weekday_of_a_known_date() {
    // 2024-03-15 was a Friday.
    assert_eq!(weekday_from_secs(1_710_513_000), 4);
}

#[test]
fn lcg_next_is_deterministic() {
    let mut s1 = 42u64;
    let mut s2 = 42u64;
    assert_eq!(lcg_next(&mut s1), lcg_next(&mut s2));
    assert_eq!(lcg_next(&mut s1), lcg_next(&mut s2));
}

#[test]
fn lcg_next_advances_seed() {
    let mut seed = 1u64;
    let a = lcg_next(&mut seed);
    let b = lcg_next(&mut seed);
    assert_ne!(a, b);
}

#[test]
fn lcg_next_known_step() {
    let mut seed = 0u64;
    let out = lcg_next(&mut seed);
    assert_eq!(seed, 1_442_695_040_888_963_407);
    assert_eq!(out, 1_442_695_040_888_963_407 >> 33);
    let mut seed = 1u64;
    lcg_next(&mut seed);
    assert_eq!(seed, 6_364_136_223_846_793_005u64.wrapping_add(1_442_695_040_888_963_407));
}

#[test]
fn lcg_next_output_fits_31_bits() {
    let mut seed = u64::MAX;
    for _ in 0..1000 {
        assert!(lcg_next(&mut seed) < 1 << 31);
    }
}

#[test]
fn build_forecast_returns_three_days() {
    let f = build_forecast(0);
    assert_eq!(f.len(), 3);
}

#[test]
fn build_forecast_days_follow_today() {
    // Seed 0 → epoch → Thursday (idx 3) → next days are Fr, Sa, So
    let f = build_forecast(0);
    assert_eq!(f[0].day, "Fr");
    assert_eq!(f[1].day, "Sa");
    assert_eq!(f[2].day, "So");
}

#[test]
fn build_forecast_temp_in_range() {
    for entry in build_forecast(12345678) {
        let t = entry.temp;
        assert!((8..=22).contains(&t), "temp {t} out of range");
    }
}

#[test]
fn build_forecast_wind_in_range() {
    for entry in build_forecast(12345678) {
        let w = entry.wind;
        assert!((5..=40).contains(&w), "wind {w} out of range");
    }
}

#[test]
fn build_forecast_is_deterministic() {
    assert_eq!(build_forecast(99999), build_forecast(99999));
}

#[test]
fn build_forecast_varies_by_seed() {
    assert_ne!(build_forecast(1), build_forecast(2));
}

#[test]
fn build_forecast_first_day_from_the_generator() {
    // Each field takes the next generator output in turn.
    let mut seed = 0u64;
    let icons = ["☀", "🌤", "⛅", "🌦", "☁", "🌧", "⛈"];
    let colors = ["color-green", "color-yellow", "color-cyan", "color-red"];
    let icon = icons[(lcg_next(&mut seed) % 7) as usize];
    let temp = 8 + lcg_next(&mut seed) % 15;
    let wind = 5 + lcg_next(&mut seed) % 36;
    let color = colors[(lcg_next(&mut seed) % 4) as usize];
    let f = build_forecast(0);
    assert_eq!(f[0].icon, icon);
    assert_eq!(f[0].temp, temp);
    assert_eq!(f[0].wind, wind);
    assert_eq!(f[0].color, color);
}

#[test]
fn looks_like_weather_accepts_celsius() {
    assert!(looks_like_weather("⛅  +12°C"));
    assert!(looks_like_weather("☀  +22°C"));
}

#[test]
fn looks_like_weather_accepts_fahrenheit() {
    assert!(looks_like_weather("☀  +72°F"));
}

#[test]
fn looks_like_weather_rejects_quota_message() {
    assert!(!looks_like_weather("Sorry, we are out of quota for your IP."));
    assert!(!looks_like_weather(""));
    assert!(!looks_like_weather("<html><body>Error</body></html>"));
}

#[test]
fn looks_like_weather_needs_the_degree_sign_before_the_unit() {
    assert!(!looks_like_weather("12 C"));
    assert!(!looks_like_weather("°"));
    assert!(!looks_like_weather("C°"));
    assert!(looks_like_weather("°F"));
}

#[test]
fn generate_current_weather_contains_degree() {
    let w = generate_current_weather(12345678);
    assert!(
        looks_like_weather(&w),
        "generated weather should pass looks_like_weather: {w}"
    );
}

#[test]
fn generate_current_weather_is_deterministic() {
    assert_eq!(generate_current_weather(42), generate_current_weather(42));
}

#[test]
fn generate_current_weather_varies_by_seed() {
    assert_ne!(generate_current_weather(1), generate_current_weather(2));
}

#[test]
fn generate_current_weather_exact_format() {
    let mut seed = 7u64.wrapping_mul(2654435761);
    let icons = ["☀", "🌤", "⛅", "🌦", "☁", "🌧", "⛈"];
    let icon = icons[(lcg_next(&mut seed) % 7) as usize];
    let temp = lcg_next(&mut seed) % 15 + 8;
    assert_eq!(generate_current_weather(7), format!("{}  +{}°C", icon, temp));
}

#[test]
fn generated_weather_always_looks_like_weather() {
    for now in [0u64, 1, 2, 42, 99_999, 1_710_513_000, u64::MAX] {
        assert!(looks_like_weather(&generate_current_weather(now)));
    }
}

#[test]
fn resolve_weather_keeps_a_valid_answer() {
    let w = resolve_weather("⛅  +14°C", 1000);
    assert_eq!(w, "⛅  +14°C");
}

#[test]
fn resolve_weather_trims_the_answer() {
    assert_eq!(resolve_weather("  ⛅  +14°C\n", 1000), "⛅  +14°C");
}

#[test]
fn resolve_weather_replaces_a_quota_message() {
    let w = resolve_weather("Sorry, we are out of quota for your IP.", 1000);
    assert!(w.contains("°C") || w.contains("°F"));
    assert!(!w.contains("quota"));
    assert_eq!(w, generate_current_weather(1000));
}

#[test]
fn resolve_weather_replaces_an_empty_answer() {
    let w = resolve_weather("", 1000);
    assert_eq!(w, generate_current_weather(1000));
}

#[test]
fn weather_cache_serves_a_fetch_for_the_ttl() {
    let mut cache = WeatherCache::new();
    assert!(cache.fresh_value(5000).is_none());
    let w = cache.refresh("☀  +20°C", 5000);
    assert_eq!(w, "☀  +20°C");
    assert_eq!(cache.fresh_value(5000).as_deref(), Some("☀  +20°C"));
    assert_eq!(
        cache.fresh_value(5000 + WEATHER_CACHE_TTL_SECS - 1).as_deref(),
        Some("☀  +20°C")
    );
    assert!(cache.fresh_value(5000 + WEATHER_CACHE_TTL_SECS).is_none());
}

#[test]
fn weather_cache_starts_empty_and_stale() {
    let cache = WeatherCache::new();
    assert!(cache.value.is_empty());
    assert_eq!(cache.fetched_at, 0);
    assert!(cache.fresh_value(0).is_none());
}

#[test]
fn weather_cache_stores_generated_fallback() {
    let mut cache = WeatherCache::new();
    let w = cache.refresh("<html>Error</html>", 777);
    assert_eq!(w, generate_current_weather(777));
    assert_eq!(cache.value, w);
    assert_eq!(cache.fetched_at, 777);
    assert_eq!(cache.fresh_value(778), Some(w));
}

#[test]
fn weather_cache_with_clock_behind_fetch_is_fresh() {
    let mut cache = WeatherCache::new();
    cache.refresh("☀  +20°C", 5000);
    // A clock that went backwards counts as no time elapsed.
    assert!(cache.fresh_value(10).is_some());
}
