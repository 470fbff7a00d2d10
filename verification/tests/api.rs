use weather_cli::api::{build_url, current_url, forecast_url, hourly_url, search_url, IP_API_URL};

#[test]
fn build_url_basic() {
    let url = build_url(&48.8566f64.to_string(), &2.3522f64.to_string(), &[("current", "temperature_2m")]).unwrap();
    assert!(url.contains("latitude=48.8566"));
    assert!(url.contains("longitude=2.3522"));
    assert!(url.contains("current=temperature_2m"));
    assert!(url.starts_with("https://api.open-meteo.com/v1/forecast?"));
}

#[test]
fn build_url_negative_coords() {
    let url = build_url(&(-33.8688f64).to_string(), &151.2093f64.to_string(), &[]).unwrap();
    assert!(url.contains("latitude=-33.8688"));
    assert!(url.contains("longitude=151.2093"));
}

#[test]
fn build_url_multiple_params() {
    let url = build_url(
        &0.0f64.to_string(),
        &0.0f64.to_string(),
        &[("daily", "temperature_2m_mean"), ("timezone", "GMT")],
    )
    .unwrap();
    assert!(url.contains("daily=temperature_2m_mean"));
    assert!(url.contains("timezone=GMT"));
}

#[test]
fn build_url_zero_coords() {
    let url = build_url(&0.0f64.to_string(), &0.0f64.to_string(), &[]).unwrap();
    assert!(url.contains("latitude=0"));
    assert!(url.contains("longitude=0"));
}

#[test]
fn endpoint_urls() {
    assert_eq!(
        current_url("1.5", "2").unwrap(),
        "https://api.open-meteo.com/v1/forecast?latitude=1.5&longitude=2&current=temperature_2m%2Capparent_temperature%2Crelative_humidity_2m%2Csurface_pressure%2Cwind_speed_10m%2Cuv_index%2Cweather_code%2Crain%2Csnowfall%2Cprecipitation"
    );
    let f = forecast_url("1", "2").unwrap();
    assert!(f.contains("daily=uv_index_max%2Csnowfall_sum"));
    assert!(f.ends_with("&timezone=GMT"));
    let h = hourly_url("1", "2", 7).unwrap();
    assert!(h.contains("hourly=temperature_2m%2Cprecipitation_probability%2Cweather_code"));
    assert!(h.ends_with("&timezone=GMT&forecast_days=7"));
    assert_eq!(
        search_url("New York").unwrap(),
        "https://geocoding-api.open-meteo.com/v1/search?name=New+York&count=5&language=en"
    );
    assert_eq!(IP_API_URL, "https://ip-api.com/json?fields=lat,lon");
    assert!(IP_API_URL.starts_with("https://"));
}
