//! Response layouts that carry no measurements, the cached response union,
//! and the WMO weather-code vocabulary.

use vstd::prelude::*;

verus! {

/// The text that describes a WMO weather code; `"Unknown"` for codes
/// outside the table.
pub open spec fn weather_text(code: u32) -> Seq<char> {
    if code == 0 { "Clear sky"@ }
    else if code == 1 { "Mainly clear"@ }
    else if code == 2 { "Partly cloudy"@ }
    else if code == 3 { "Overcast"@ }
    else if code == 45 || code == 48 { "Fog"@ }
    else if code == 51 { "Light drizzle"@ }
    else if code == 53 { "Moderate drizzle"@ }
    else if code == 55 { "Dense drizzle"@ }
    else if code == 56 { "Light freezing drizzle"@ }
    else if code == 57 { "Dense freezing drizzle"@ }
    else if code == 61 { "Slight rain"@ }
    else if code == 63 { "Moderate rain"@ }
    else if code == 65 { "Heavy rain"@ }
    else if code == 66 { "Light freezing rain"@ }
    else if code == 67 { "Heavy freezing rain"@ }
    else if code == 71 { "Slight snowfall"@ }
    else if code == 73 { "Moderate snowfall"@ }
    else if code == 75 { "Heavy snowfall"@ }
    else if code == 77 { "Snow grains"@ }
    else if code == 80 { "Slight rain showers"@ }
    else if code == 81 { "Moderate rain showers"@ }
    else if code == 82 { "Violent rain showers"@ }
    else if code == 85 { "Slight snow showers"@ }
    else if code == 86 { "Heavy snow showers"@ }
    else if code == 95 { "Thunderstorm"@ }
    else if code == 96 { "Thunderstorm with slight hail"@ }
    else if code == 99 { "Thunderstorm with heavy hail"@ }
    else { "Unknown"@ }
}

/// Map a WMO weather code to a human-readable description.
pub fn weather_code_to_text(code: u32) -> (text: &'static str)
    ensures
        text@ == weather_text(code),
{
    match code {
        0 => "Clear sky",
        1 => "Mainly clear",
        2 => "Partly cloudy",
        3 => "Overcast",
        45 | 48 => "Fog",
        51 => "Light drizzle",
        53 => "Moderate drizzle",
        55 => "Dense drizzle",
        56 => "Light freezing drizzle",
        57 => "Dense freezing drizzle",
        61 => "Slight rain",
        63 => "Moderate rain",
        65 => "Heavy rain",
        66 => "Light freezing rain",
        67 => "Heavy freezing rain",
        71 => "Slight snowfall",
        73 => "Moderate snowfall",
        75 => "Heavy snowfall",
        77 => "Snow grains",
        80 => "Slight rain showers",
        81 => "Moderate rain showers",
        82 => "Violent rain showers",
        85 => "Slight snow showers",
        86 => "Heavy snow showers",
        95 => "Thunderstorm",
        96 => "Thunderstorm with slight hail",
        99 => "Thunderstorm with heavy hail",
        _ => "Unknown",
    }
}

/// Units of the daily forecast series.
#[derive(Debug, Clone)]
pub struct DailyUnits {
    pub time: String,
    pub uv_index_max: String,
    pub snowfall_sum: String,
    pub showers_sum: String,
    pub rain_sum: String,
    pub shortwave_radiation_sum: String,
    pub temperature_2m_mean: String,
    pub wind_speed_10m_max: String,
}

/// Units of the current-conditions fields.
#[derive(Debug, Clone)]
pub struct CurrentUnits {
    pub temperature_2m: String,
    pub apparent_temperature: String,
    pub relative_humidity_2m: String,
    pub surface_pressure: String,
    pub wind_speed_10m: String,
    pub uv_index: String,
    pub weather_code: String,
    pub rain: String,
    pub snowfall: String,
    pub precipitation: String,
}

/// Units of the hourly forecast series.
#[derive(Debug, Clone)]
pub struct HourlyUnits {
    pub time: String,
    pub temperature_2m: String,
    pub precipitation_probability: String,
    pub weather_code: String,
}

/// Tagged union of the API responses that the cache holds: a daily
/// forecast `D`, current conditions `C`, an hourly forecast `H`, or a
/// geolocation `L`.
#[derive(Debug, Clone)]
pub enum ReturnedData<D, C, H, L> {
    Daily(Box<D>),
    Current(Box<C>),
    Hourly(Box<H>),
    Location(Box<L>),
}

impl<D, C, H, L> ReturnedData<D, C, H, L> {
    /// The daily forecast held, if any.
    pub open spec fn as_daily_spec(self) -> Option<D> {
        match self {
            ReturnedData::Daily(d) => Some(*d),
            _ => None,
        }
    }

    /// The current conditions held, if any.
    pub open spec fn as_current_spec(self) -> Option<C> {
        match self {
            ReturnedData::Current(c) => Some(*c),
            _ => None,
        }
    }

    /// The hourly forecast held, if any.
    pub open spec fn as_hourly_spec(self) -> Option<H> {
        match self {
            ReturnedData::Hourly(h) => Some(*h),
            _ => None,
        }
    }

    /// The geolocation held, if any.
    pub open spec fn as_location_spec(self) -> Option<L> {
        match self {
            ReturnedData::Location(l) => Some(*l),
            _ => None,
        }
    }

    /// The daily forecast, when this is one.
    pub fn as_daily(&self) -> (daily: Option<&D>)
        ensures
            daily matches Some(x) ==> self.as_daily_spec() == Some(*x),
            daily is None ==> self.as_daily_spec() is None,
    {
        if let ReturnedData::Daily(d) = self {
            Some(&**d)
        } else {
            None
        }
    }

    /// The current conditions, when this is them.
    pub fn as_current(&self) -> (current: Option<&C>)
        ensures
            current matches Some(x) ==> self.as_current_spec() == Some(*x),
            current is None ==> self.as_current_spec() is None,
    {
        if let ReturnedData::Current(c) = self {
            Some(&**c)
        } else {
            None
        }
    }

    /// The geolocation, when this is one.
    pub fn as_location(&self) -> (location: Option<&L>)
        ensures
            location matches Some(x) ==> self.as_location_spec() == Some(*x),
            location is None ==> self.as_location_spec() is None,
    {
        if let ReturnedData::Location(l) = self {
            Some(&**l)
        } else {
            None
        }
    }

    /// The hourly forecast, when this is one.
    pub fn as_hourly(&self) -> (hourly: Option<&H>)
        ensures
            hourly matches Some(x) ==> self.as_hourly_spec() == Some(*x),
            hourly is None ==> self.as_hourly_spec() is None,
    {
        if let ReturnedData::Hourly(h) = self {
            Some(&**h)
        } else {
            None
        }
    }
}

/// Every cached response is of exactly one kind, so exactly one of the
/// accessors `as_daily`, `as_current`, `as_hourly`, `as_location` hands it back.
pub proof fn law_one_kind<D, C, H, L>(data: ReturnedData<D, C, H, L>)
    ensures
        (data.as_daily_spec() is Some) as int + (data.as_current_spec() is Some) as int
            + (data.as_hourly_spec() is Some) as int + (data.as_location_spec() is Some) as int == 1,
{
}

} // verus!
