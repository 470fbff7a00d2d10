use weather_cli::app::{
    cache_key, cached_view, city_choice, city_follow_up, city_label, classify_input, coordinate_source,
    hourly_cache_key, location_text, mode_suffix, plan, selected_index, short_time, split_coords,
    Action, CachedView, CityChoice, CoordSource, Invocation, ReplCommand, LOCATION_KEY,
};
use weather_cli::models::ReturnedData;

#[test]
fn mode_suffix_forecast() {
    assert_eq!(mode_suffix(true), "forecast");
    assert_eq!(mode_suffix(false), "current");
}

#[test]
fn cache_keys_by_mode() {
    assert_eq!(cache_key("48.85", "2.35", true), "48.85_2.35_forecast");
    assert_eq!(cache_key("48.85", "2.35", false), "48.85_2.35_current");
    assert_eq!(hourly_cache_key("48.85", "2.35", 3), "48.85_2.35_hourly_3");
    assert_eq!(hourly_cache_key("-33.87", "151.21", 16), "-33.87_151.21_hourly_16");
    assert_ne!(cache_key("1", "2", true), cache_key("1", "2", false));
    assert_eq!(LOCATION_KEY, "ml");
}

#[test]
fn cached_view_by_kind() {
    let daily: ReturnedData<u8, u16, u32, u64> = ReturnedData::Daily(Box::new(5));
    let hourly: ReturnedData<u8, u16, u32, u64> = ReturnedData::Hourly(Box::new(6));
    assert!(matches!(cached_view(&daily, true), Some(CachedView::Forecast(&5))));
    assert!(cached_view(&daily, false).is_none());
    assert!(cached_view(&hourly, true).is_none());
    assert!(cached_view(&hourly, false).is_none());
}

#[test]
fn split_coords_two_words() {
    assert_eq!(split_coords("48.85 2.35"), Some(("48.85".to_string(), "2.35".to_string())));
    assert_eq!(split_coords("  -33.87\t151.21 \n"), Some(("-33.87".to_string(), "151.21".to_string())));
    assert_eq!(split_coords("abc def"), Some(("abc".to_string(), "def".to_string())));
    assert_eq!(split_coords("1\u{3000}2"), Some(("1".to_string(), "2".to_string())));
}

#[test]
fn split_coords_wrong_count() {
    assert!(split_coords("48.85").is_none());
    assert!(split_coords("48.85 2.35 extra").is_none());
    assert!(split_coords("").is_none());
    assert!(split_coords("   ").is_none());
}

#[test]
fn classify_prompt_lines() {
    assert_eq!(classify_input("q"), ReplCommand::Quit);
    assert_eq!(classify_input("  quit\n"), ReplCommand::Quit);
    assert_eq!(classify_input("exit"), ReplCommand::Quit);
    assert_eq!(classify_input("help"), ReplCommand::Help);
    assert_eq!(classify_input(" \t "), ReplCommand::Empty);
    assert_eq!(classify_input(""), ReplCommand::Empty);
    assert_eq!(classify_input("48.85 2.35"), ReplCommand::Coordinates);
    assert_eq!(classify_input("Q"), ReplCommand::Coordinates);
    assert_eq!(classify_input("helpme"), ReplCommand::Coordinates);
}

#[test]
fn city_choice_index() {
    assert_eq!(selected_index("2\n", 5), 1);
    assert_eq!(selected_index("5", 5), 4);
    assert_eq!(selected_index("\n", 5), 0);
    assert_eq!(selected_index("6", 5), 0);
    assert_eq!(selected_index("0", 5), 0);
    assert_eq!(selected_index("abc", 5), 0);
    assert_eq!(selected_index("+3", 5), 2);
    assert_eq!(selected_index("-3", 5), 0);
    assert_eq!(selected_index("99999999999999999999999", 5), 0);
}

#[test]
fn city_labels() {
    let fr = Some("France".to_string());
    let idf = Some("Ile-de-France".to_string());
    assert_eq!(city_label("Paris", &fr, &idf), "Paris, Ile-de-France, France");
    assert_eq!(city_label("Paris", &fr, &None), "Paris, France");
    assert_eq!(city_label("Paris", &None, &idf), "Paris");
    assert_eq!(location_text(&fr, &idf), "Ile-de-France, France");
    assert_eq!(location_text(&fr, &None), "France");
    assert_eq!(location_text(&None, &idf), "");
}

#[test]
fn short_time_of_timestamps() {
    assert_eq!(short_time("2025-07-26T00:00"), "00:00");
    assert_eq!(short_time("2025-07-26T13:45"), "13:45");
    assert_eq!(short_time("2025-07-26"), "2025-07-26");
    assert_eq!(short_time("2025-07-2é6T00:00"), "6T00:");
    assert_eq!(short_time("2025-07-26é00:00"), "2025-07-26é00:00");
}

fn invocation() -> Invocation {
    Invocation {
        search: false,
        hourly: None,
        json: false,
        coordinates: false,
        interactive: false,
        ml: false,
        clear_cache: false,
    }
}

#[test]
fn plan_precedence() {
    assert_eq!(plan(&invocation()), Action::Nothing);
    assert_eq!(plan(&Invocation { clear_cache: true, ..invocation() }), Action::ClearCache);
    assert_eq!(plan(&Invocation { ml: true, clear_cache: true, ..invocation() }), Action::MyLocation);
    assert_eq!(plan(&Invocation { interactive: true, ml: true, ..invocation() }), Action::Interactive);
    assert_eq!(plan(&Invocation { coordinates: true, interactive: true, ..invocation() }), Action::Direct);
    assert_eq!(plan(&Invocation { json: true, coordinates: true, ..invocation() }), Action::Json);
    assert_eq!(plan(&Invocation { hourly: Some(3), json: true, ..invocation() }), Action::Hourly(3));
    assert_eq!(plan(&Invocation { search: true, hourly: Some(3), ..invocation() }), Action::CitySearch);
}

#[test]
fn coordinate_sources() {
    assert_eq!(coordinate_source(true, true), CoordSource::Given);
    assert_eq!(coordinate_source(false, true), CoordSource::Geolocated);
    assert_eq!(coordinate_source(false, false), CoordSource::Missing);
}

#[test]
fn city_follow_up_order() {
    assert_eq!(city_follow_up(true, Some(3)), Action::Json);
    assert_eq!(city_follow_up(false, Some(3)), Action::Hourly(3));
    assert_eq!(city_follow_up(false, None), Action::Direct);
}

#[test]
fn city_choice_by_result_count() {
    assert_eq!(city_choice(0), CityChoice::NoResults);
    assert_eq!(city_choice(1), CityChoice::Only);
    assert_eq!(city_choice(2), CityChoice::Prompt);
    assert_eq!(city_choice(5), CityChoice::Prompt);
}
