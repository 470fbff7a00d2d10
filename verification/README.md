# weather_cli

A command-line client for the Open-Meteo weather API (current conditions,
7-day and hourly forecasts, city search, IP geolocation, an on-disk cache),
whose decision logic is a library verified with Verus.

- `src/` — the verified library
  - `models.rs` — WMO weather-code texts, unit tables, the cached-response union
  - `cache.rs` — the TTL cache: keyed entries, freshness, read-after-write laws
  - `app.rs` — action planning, cache keys, prompt and city-choice parsing, labels
  - `api.rs` — request URLs, built with `reqwest::Url` behind one trusted wrapper
  - `text.rs` — white space, trimming, word splitting, decimal numerals
- `app/` — the program: argument parsing, HTTP, terminal output, the cache
  file, and everything that handles floating-point measurements
- `tests/` — tests of the library
