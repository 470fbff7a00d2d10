//! Request URLs of the Open-Meteo forecast and geocoding APIs and of the
//! IP geolocation service.

use vstd::prelude::*;
use crate::text::{decimal, decimal_text, opt_view};

verus! {

/// Open-Meteo forecast endpoint.
pub const API_BASE: &'static str = "https://api.open-meteo.com/v1/forecast";

/// Open-Meteo geocoding (city search) endpoint.
pub const GEOCODING_BASE: &'static str = "https://geocoding-api.open-meteo.com/v1/search";

/// IP geolocation endpoint, reached over HTTPS; answers with the caller's
/// latitude and longitude.
pub const IP_API_URL: &'static str = "https://ip-api.com/json?fields=lat,lon";

/// Fields requested for current conditions.
pub const CURRENT_FIELDS: &'static str = "temperature_2m,apparent_temperature,relative_humidity_2m,surface_pressure,wind_speed_10m,uv_index,weather_code,rain,snowfall,precipitation";

/// Series requested for the daily forecast.
pub const DAILY_FIELDS: &'static str = "uv_index_max,snowfall_sum,showers_sum,rain_sum,shortwave_radiation_sum,temperature_2m_mean,wind_speed_10m_max";

/// Series requested for the hourly forecast.
pub const HOURLY_FIELDS: &'static str = "temperature_2m,precipitation_probability,weather_code";

/// The characters of name/value pairs of owned texts.
pub open spec fn pairs_view(pairs: Seq<(String, String)>) -> Seq<(Seq<char>, Seq<char>)> {
    pairs.map_values(|p: (String, String)| (p.0@, p.1@))
}

/// The characters of name/value pairs of borrowed texts.
pub open spec fn str_pairs_view(pairs: Seq<(&str, &str)>) -> Seq<(Seq<char>, Seq<char>)> {
    pairs.map_values(|p: (&str, &str)| (p.0@, p.1@))
}

/// Names the text of the URL that `reqwest::Url` gives for `base` once
/// `pairs` are appended to its query as `application/x-www-form-urlencoded`
/// name/value pairs, or `None` when `base` does not parse as a URL.
pub uninterp spec fn form_url(base: Seq<char>, pairs: Seq<(Seq<char>, Seq<char>)>) -> Option<Seq<char>>;

/// `reqwest::Url::parse` of `base`, then `query_pairs_mut().extend_pairs`
/// with `pairs`, then the URL's text. The contract only names the result:
/// the URL syntax and the percent-encoding are the url crate's.
#[verifier::external_body]
fn url_with_query(base: &str, pairs: &[(String, String)]) -> (url: Option<String>)
    ensures
        opt_view(url) == form_url(base@, pairs_view(pairs@)),
{
    let mut url = reqwest::Url::parse(base).ok()?;
    url.query_pairs_mut().extend_pairs(pairs);
    Some(url.to_string())
}

/// The forecast-endpoint URL for the coordinates written as `lat` and `lon`,
/// with the `extra` query parameters after them.
pub fn build_url(lat: &str, lon: &str, extra: &[(&str, &str)]) -> (url: Option<String>)
    ensures
        opt_view(url) == form_url(
            API_BASE@,
            seq![("latitude"@, lat@), ("longitude"@, lon@)] + str_pairs_view(extra@),
        ),
{
    let mut pairs: Vec<(String, String)> = Vec::new();
    pairs.push((String::from_str("latitude"), String::from_str(lat)));
    pairs.push((String::from_str("longitude"), String::from_str(lon)));
    let ghost head = seq![("latitude"@, lat@), ("longitude"@, lon@)];
    assert(pairs_view(pairs@) =~= head + str_pairs_view(extra@.take(0)));
    let mut i: usize = 0;
    while i < extra.len()
        invariant
            i <= extra@.len(),
            pairs_view(pairs@) =~= head + str_pairs_view(extra@.take(i as int)),
        decreases extra@.len() - i,
    {
        let (k, v) = extra[i];
        let ghost prev = pairs@;
        pairs.push((String::from_str(k), String::from_str(v)));
        proof {
            assert(pairs_view(pairs@) =~= pairs_view(prev).push((k@, v@)));
            assert(extra@.take(i + 1) =~= extra@.take(i as int).push(extra@[i as int]));
            assert(str_pairs_view(extra@.take(i + 1)) =~= str_pairs_view(extra@.take(i as int)).push((k@, v@)));
        }
        i = i + 1;
    }
    assert(extra@.take(extra@.len() as int) =~= extra@);
    url_with_query(API_BASE, pairs.as_slice())
}

/// The URL for current conditions at the coordinates written as `lat`, `lon`.
pub fn current_url(lat: &str, lon: &str) -> (url: Option<String>)
    ensures
        opt_view(url) == form_url(
            API_BASE@,
            seq![("latitude"@, lat@), ("longitude"@, lon@), ("current"@, CURRENT_FIELDS@)],
        ),
{
    let extra = [("current", CURRENT_FIELDS)];
    let url = build_url(lat, lon, &extra);
    assert(seq![("latitude"@, lat@), ("longitude"@, lon@)] + str_pairs_view(extra@)
        =~= seq![("latitude"@, lat@), ("longitude"@, lon@), ("current"@, CURRENT_FIELDS@)]);
    url
}

/// The URL for the daily forecast at the coordinates written as `lat`, `lon`,
/// with days counted in GMT.
pub fn forecast_url(lat: &str, lon: &str) -> (url: Option<String>)
    ensures
        opt_view(url) == form_url(
            API_BASE@,
            seq![("latitude"@, lat@), ("longitude"@, lon@), ("daily"@, DAILY_FIELDS@), ("timezone"@, "GMT"@)],
        ),
{
    let extra = [("daily", DAILY_FIELDS), ("timezone", "GMT")];
    let url = build_url(lat, lon, &extra);
    assert(seq![("latitude"@, lat@), ("longitude"@, lon@)] + str_pairs_view(extra@)
        =~= seq![("latitude"@, lat@), ("longitude"@, lon@), ("daily"@, DAILY_FIELDS@), ("timezone"@, "GMT"@)]);
    url
}

/// The URL for an hourly forecast of `days` days at the coordinates written
/// as `lat`, `lon`, in GMT.
pub fn hourly_url(lat: &str, lon: &str, days: u32) -> (url: Option<String>)
    ensures
        opt_view(url) == form_url(
            API_BASE@,
            seq![
                ("latitude"@, lat@),
                ("longitude"@, lon@),
                ("hourly"@, HOURLY_FIELDS@),
                ("timezone"@, "GMT"@),
                ("forecast_days"@, decimal(days as nat)),
            ],
        ),
{
    let n = decimal_text(days);
    let extra = [("hourly", HOURLY_FIELDS), ("timezone", "GMT"), ("forecast_days", n.as_str())];
    let url = build_url(lat, lon, &extra);
    assert(seq![("latitude"@, lat@), ("longitude"@, lon@)] + str_pairs_view(extra@) =~= seq![
        ("latitude"@, lat@),
        ("longitude"@, lon@),
        ("hourly"@, HOURLY_FIELDS@),
        ("timezone"@, "GMT"@),
        ("forecast_days"@, decimal(days as nat)),
    ]);
    url
}

/// The geocoding URL that looks up at most five cities called `name`, with
/// English names.
pub fn search_url(name: &str) -> (url: Option<String>)
    ensures
        opt_view(url) == form_url(
            GEOCODING_BASE@,
            seq![("name"@, name@), ("count"@, "5"@), ("language"@, "en"@)],
        ),
{
    let mut pairs: Vec<(String, String)> = Vec::new();
    pairs.push((String::from_str("name"), String::from_str(name)));
    pairs.push((String::from_str("count"), String::from_str("5")));
    pairs.push((String::from_str("language"), String::from_str("en")));
    assert(pairs_view(pairs@) =~= seq![("name"@, name@), ("count"@, "5"@), ("language"@, "en"@)]);
    url_with_query(GEOCODING_BASE, pairs.as_slice())
}

/// Every service is reached over HTTPS: the forecast, geocoding and IP
/// geolocation endpoints all begin with `https://`.
pub proof fn law_endpoints_use_https()
    ensures
        API_BASE@.take(8) == "https://"@,
        GEOCODING_BASE@.take(8) == "https://"@,
        IP_API_URL@.take(8) == "https://"@,
{
    reveal_strlit("https://");
    reveal_strlit("https://api.open-meteo.com/v1/forecast");
    reveal_strlit("https://geocoding-api.open-meteo.com/v1/search");
    reveal_strlit("https://ip-api.com/json?fields=lat,lon");
    assert(API_BASE@.take(8) =~= "https://"@);
    assert(GEOCODING_BASE@.take(8) =~= "https://"@);
    assert(IP_API_URL@.take(8) =~= "https://"@);
}

} // verus!
