use weather_cli::app::display_cached;
use weather_cli::models::{weather_code_to_text, CurrentUnits, ReturnedData};

#[derive(Debug, Clone, PartialEq)]
struct Location {
    lat: f64,
    lon: f64,
}

#[allow(dead_code)]
#[derive(Debug, Clone)]
struct Current {
    time: String,
    temperature_2m: f64,
    apparent_temperature: f64,
    relative_humidity_2m: f64,
    surface_pressure: f64,
    wind_speed_10m: f64,
    uv_index: f64,
    weather_code: u32,
    rain: f64,
    snowfall: f64,
    precipitation: f64,
}

#[allow(dead_code)]
#[derive(Debug, Clone)]
struct WeatherResponse {
    latitude: f64,
    longitude: f64,
    generationtime_ms: f64,
    timezone: String,
    timezone_abbreviation: String,
    elevation: f64,
    current_units: CurrentUnits,
    current: Current,
}

type Data = ReturnedData<(), WeatherResponse, (), Location>;

fn location_from_json(v: &serde_json::Value) -> Location {
    Location {
        lat: v["lat"].as_f64().unwrap(),
        lon: v["lon"].as_f64().unwrap(),
    }
}

fn data_to_json(data: &Data) -> serde_json::Value {
    let loc = data.as_location().unwrap();
    let mut inner = serde_json::Map::new();
    inner.insert("lat".to_string(), serde_json::Value::from(loc.lat));
    inner.insert("lon".to_string(), serde_json::Value::from(loc.lon));
    let mut outer = serde_json::Map::new();
    outer.insert("Location".to_string(), serde_json::Value::Object(inner));
    serde_json::Value::Object(outer)
}

#[test]
fn returned_data_roundtrip() {
    let json = r#"{"lat": 40.71, "lon": -74.01}"#;
    let v: serde_json::Value = serde_json::from_str(json).unwrap();
    let loc = location_from_json(&v);
    let data: Data = ReturnedData::Location(Box::new(loc.clone()));
    assert!(data.as_location().is_some());
    assert!(data.as_daily().is_none());
    assert!(data.as_current().is_none());
    assert!(data.as_hourly().is_none());

    let serialized = serde_json::to_string(&data_to_json(&data)).unwrap();
    let back: serde_json::Value = serde_json::from_str(&serialized).unwrap();
    let deserialized: Data = ReturnedData::Location(Box::new(location_from_json(&back["Location"])));
    assert!((deserialized.as_location().unwrap().lat - 40.71).abs() < 0.01);
}

#[test]
fn weather_code_mapping() {
    assert_eq!(weather_code_to_text(0), "Clear sky");
    assert_eq!(weather_code_to_text(3), "Overcast");
    assert_eq!(weather_code_to_text(45), "Fog");
    assert_eq!(weather_code_to_text(61), "Slight rain");
    assert_eq!(weather_code_to_text(95), "Thunderstorm");
    assert_eq!(weather_code_to_text(999), "Unknown");
}

#[test]
fn weather_code_full_table() {
    let table: [(u32, &str); 28] = [
        (0, "Clear sky"),
        (1, "Mainly clear"),
        (2, "Partly cloudy"),
        (3, "Overcast"),
        (45, "Fog"),
        (48, "Fog"),
        (51, "Light drizzle"),
        (53, "Moderate drizzle"),
        (55, "Dense drizzle"),
        (56, "Light freezing drizzle"),
        (57, "Dense freezing drizzle"),
        (61, "Slight rain"),
        (63, "Moderate rain"),
        (65, "Heavy rain"),
        (66, "Light freezing rain"),
        (67, "Heavy freezing rain"),
        (71, "Slight snowfall"),
        (73, "Moderate snowfall"),
        (75, "Heavy snowfall"),
        (77, "Snow grains"),
        (80, "Slight rain showers"),
        (81, "Moderate rain showers"),
        (82, "Violent rain showers"),
        (85, "Slight snow showers"),
        (86, "Heavy snow showers"),
        (95, "Thunderstorm"),
        (96, "Thunderstorm with slight hail"),
        (99, "Thunderstorm with heavy hail"),
    ];
    for (code, text) in table {
        assert_eq!(weather_code_to_text(code), text);
    }
    for code in [4u32, 44, 46, 50, 52, 60, 100, u32::MAX] {
        assert_eq!(weather_code_to_text(code), "Unknown");
    }
}

#[test]
fn accessors_pick_their_kind() {
    let daily: ReturnedData<u8, u16, u32, u64> = ReturnedData::Daily(Box::new(1));
    let current: ReturnedData<u8, u16, u32, u64> = ReturnedData::Current(Box::new(2));
    let hourly: ReturnedData<u8, u16, u32, u64> = ReturnedData::Hourly(Box::new(3));
    let location: ReturnedData<u8, u16, u32, u64> = ReturnedData::Location(Box::new(4));
    assert_eq!(daily.as_daily(), Some(&1));
    assert_eq!(daily.as_current(), None);
    assert_eq!(current.as_current(), Some(&2));
    assert_eq!(current.as_hourly(), None);
    assert_eq!(hourly.as_hourly(), Some(&3));
    assert_eq!(hourly.as_location(), None);
    assert_eq!(location.as_location(), Some(&4));
    assert_eq!(location.as_daily(), None);
}

#[test]
fn display_cached_current_miss_on_forecast() {
    let data: Data = ReturnedData::Current(Box::new(WeatherResponse {
        latitude: 0.0,
        longitude: 0.0,
        generationtime_ms: 0.0,
        timezone: "GMT".into(),
        timezone_abbreviation: "GMT".into(),
        elevation: 0.0,
        current_units: CurrentUnits {
            temperature_2m: "°C".into(),
            apparent_temperature: "°C".into(),
            relative_humidity_2m: "%".into(),
            surface_pressure: "hPa".into(),
            wind_speed_10m: "km/h".into(),
            uv_index: "".into(),
            weather_code: "".into(),
            rain: "mm".into(),
            snowfall: "cm".into(),
            precipitation: "mm".into(),
        },
        current: Current {
            time: "2025-01-01T00:00".into(),
            temperature_2m: 10.0,
            apparent_temperature: 8.0,
            relative_humidity_2m: 70.0,
            surface_pressure: 1013.0,
            wind_speed_10m: 5.0,
            uv_index: 0.0,
            weather_code: 0,
            rain: 0.0,
            snowfall: 0.0,
            precipitation: 0.0,
        },
    }));
    // Asking for forecast but data is Current — should return false
    assert!(!display_cached(&data, true));
    assert!(display_cached(&data, false));
}
