//! The decisions of the command-line client: what to do for the given
//! options, how cache keys are formed, when a cached response can be shown,
//! and how interactive input and city choices are read.

use vstd::prelude::*;
use vstd::string::*;
use vstd::utf8::*;
use crate::models::ReturnedData;
use crate::text::{
    decimal, decimal_text, opt_view, parse_usize, parsed_usize, same_text, split_words, trim, trimmed, words,
};

verus! {

/// The cache-key suffix of a display mode.
pub open spec fn mode_text(forecast: bool) -> Seq<char> {
    if forecast { "forecast"@ } else { "current"@ }
}

/// Cache-key suffix for the display mode: `"forecast"` or `"current"`.
pub fn mode_suffix(forecast: bool) -> (suffix: &'static str)
    ensures
        suffix@ == mode_text(forecast),
{
    if forecast { "forecast" } else { "current" }
}

/// The key under which the response for coordinates written as `lat`, `lon`
/// is cached in the given display mode: `LAT_LON_MODE`.
pub fn cache_key(lat: &str, lon: &str, forecast: bool) -> (key: String)
    ensures
        key@ == lat@ + "_"@ + lon@ + "_"@ + mode_text(forecast),
{
    let mut key = String::from_str(lat);
    key.append("_");
    key.append(lon);
    key.append("_");
    key.append(mode_suffix(forecast));
    key
}

/// The key under which an hourly forecast of `days` days is cached:
/// `LAT_LON_hourly_DAYS`.
pub fn hourly_cache_key(lat: &str, lon: &str, days: u32) -> (key: String)
    ensures
        key@ == lat@ + "_"@ + lon@ + "_hourly_"@ + decimal(days as nat),
{
    let mut key = String::from_str(lat);
    key.append("_");
    key.append(lon);
    key.append("_hourly_");
    let n = decimal_text(days);
    key.append(n.as_str());
    key
}

/// What a cached response shows in a display mode.
pub enum CachedView<'a, D, C> {
    Forecast(&'a D),
    Current(&'a C),
}

/// Whether a cached response can be shown in the given mode: a daily
/// forecast in forecast mode, current conditions otherwise.
pub open spec fn shows_cached<D, C, H, L>(data: ReturnedData<D, C, H, L>, forecast: bool) -> bool {
    (forecast && data is Daily) || (!forecast && data is Current)
}

/// The part of a cached response to show in the given mode, if it has one.
pub fn cached_view<'a, D, C, H, L>(data: &'a ReturnedData<D, C, H, L>, forecast: bool) -> (view: Option<CachedView<'a, D, C>>)
    ensures
        view is Some <==> shows_cached(*data, forecast),
        view matches Some(CachedView::Forecast(d)) ==> forecast && data.as_daily_spec() == Some(*d),
        view matches Some(CachedView::Current(c)) ==> !forecast && data.as_current_spec() == Some(*c),
{
    if forecast {
        match data.as_daily() {
            Some(d) => Some(CachedView::Forecast(d)),
            None => None,
        }
    } else {
        match data.as_current() {
            Some(c) => Some(CachedView::Current(c)),
            None => None,
        }
    }
}

/// Whether a cached response can be displayed in the given mode; `false`
/// sends the caller to fetch a fresh one.
pub fn display_cached<D, C, H, L>(data: &ReturnedData<D, C, H, L>, forecast: bool) -> (shown: bool)
    ensures
        shown == shows_cached(*data, forecast),
{
    cached_view(data, forecast).is_some()
}

/// The two coordinate words of a `LAT LON` line, when it holds exactly two
/// white-space separated words; the numbers themselves are read by the caller.
pub fn split_coords(input: &str) -> (parts: Option<(String, String)>)
    ensures
        parts is Some <==> words(input@).len() == 2,
        parts matches Some((lat, lon)) ==> lat@ == words(input@)[0] && lon@ == words(input@)[1],
{
    let ws = split_words(input);
    if ws.len() != 2 {
        return None;
    }
    let lat = ws[0].clone();
    let lon = ws[1].clone();
    Some((lat, lon))
}

/// A line typed at the interactive prompt.
#[derive(Debug, Clone, Copy, PartialEq, Eq, Structural)]
pub enum ReplCommand {
    /// `q`, `quit` or `exit`: leave the prompt.
    Quit,
    /// `help`: show the commands.
    Help,
    /// Nothing but white space.
    Empty,
    /// Anything else, read as `LAT LON`.
    Coordinates,
}

/// How the interactive prompt reads a line: by its text without surrounding white space.
pub open spec fn repl_command(line: Seq<char>) -> ReplCommand {
    let t = trimmed(line);
    if t == "q"@ || t == "quit"@ || t == "exit"@ {
        ReplCommand::Quit
    } else if t == "help"@ {
        ReplCommand::Help
    } else if t.len() == 0 {
        ReplCommand::Empty
    } else {
        ReplCommand::Coordinates
    }
}

/// Classify a line typed at the interactive prompt.
pub fn classify_input(input: &str) -> (command: ReplCommand)
    ensures
        command == repl_command(input@),
{
    let t = trim(input);
    if same_text(t, "q") || same_text(t, "quit") || same_text(t, "exit") {
        ReplCommand::Quit
    } else if same_text(t, "help") {
        ReplCommand::Help
    } else if t.unicode_len() == 0 {
        ReplCommand::Empty
    } else {
        ReplCommand::Coordinates
    }
}

/// The position chosen among `count` search results by the typed `line`:
/// the 1-based number it holds, or the first result when the line is not a
/// number or the number is out of range.
pub open spec fn chosen_index(line: Seq<char>, count: usize) -> usize {
    let n: usize = match parsed_usize(trimmed(line)) {
        Some(v) => v,
        None => 1,
    };
    let idx: usize = if n == 0 { 0 } else { (n - 1) as usize };
    if idx < count { idx } else { 0 }
}

/// Read the typed choice among `count` city search results as a 0-based index.
pub fn selected_index(line: &str, count: usize) -> (index: usize)
    requires
        count > 0,
    ensures
        index == chosen_index(line@, count),
{
    let n = match parse_usize(trim(line)) {
        Some(v) => v,
        None => 1,
    };
    let idx = n.saturating_sub(1);
    if idx < count { idx } else { 0 }
}

/// Where a city lies, as the search results list it.
pub open spec fn location_of(country: Option<Seq<char>>, admin1: Option<Seq<char>>) -> Seq<char> {
    match (country, admin1) {
        (Some(c), Some(a)) => a + ", "@ + c,
        (Some(c), None) => c,
        _ => Seq::empty(),
    }
}

/// `"REGION, COUNTRY"`, `"COUNTRY"`, or nothing when the country is unknown.
pub fn location_text(country: &Option<String>, admin1: &Option<String>) -> (text: String)
    ensures
        text@ == location_of(opt_view(*country), opt_view(*admin1)),
{
    match (country, admin1) {
        (Some(c), Some(a)) => {
            let mut t = String::from_str(a.as_str());
            t.append(", ");
            t.append(c.as_str());
            t
        }
        (Some(c), None) => String::from_str(c.as_str()),
        _ => String::new(),
    }
}

/// How the selected city is announced.
pub open spec fn label_of(name: Seq<char>, country: Option<Seq<char>>, admin1: Option<Seq<char>>) -> Seq<char> {
    match (country, admin1) {
        (Some(c), Some(a)) => name + ", "@ + a + ", "@ + c,
        (Some(c), None) => name + ", "@ + c,
        _ => name,
    }
}

/// `"NAME, REGION, COUNTRY"`, `"NAME, COUNTRY"`, or the bare name.
pub fn city_label(name: &str, country: &Option<String>, admin1: &Option<String>) -> (label: String)
    ensures
        label@ == label_of(name@, opt_view(*country), opt_view(*admin1)),
{
    let mut label = String::from_str(name);
    match (country, admin1) {
        (Some(c), Some(a)) => {
            label.append(", ");
            label.append(a.as_str());
            label.append(", ");
            label.append(c.as_str());
        }
        (Some(c), None) => {
            label.append(", ");
            label.append(c.as_str());
        }
        _ => {}
    }
    label
}

/// `str::get(start..end)`: the part of `s` between the byte offsets
/// `start` and `end`, or `None` where indexing would panic (a reversed or
/// out-of-bounds range, or an offset inside a character), as std documents it.
#[verifier::external_body]
fn byte_range(s: &str, start: usize, end: usize) -> (part: Option<&str>)
    ensures
        part is Some <==> (start <= end && end <= s.spec_bytes().len()
            && is_char_boundary(s.spec_bytes(), start as int)
            && is_char_boundary(s.spec_bytes(), end as int)),
        part matches Some(p) ==> p.spec_bytes() == s.spec_bytes().subrange(start as int, end as int),
{
    s.get(start..end)
}

/// The `hh:mm` part of an ISO-8601 timestamp `YYYY-MM-DDThh:mm`: bytes 11
/// to 16, or the whole text when it has no such part.
pub fn short_time(time: &str) -> (hhmm: &str)
    ensures
        hhmm.spec_bytes() == (if 16 <= time.spec_bytes().len()
            && is_char_boundary(time.spec_bytes(), 11)
            && is_char_boundary(time.spec_bytes(), 16) {
            time.spec_bytes().subrange(11, 16)
        } else {
            time.spec_bytes()
        }),
        is_ascii_chars(time@) && time@.len() >= 16 ==> hhmm@ == time@.subrange(11, 16),
{
    let hhmm = match byte_range(time, 11, 16) {
        Some(part) => part,
        None => time,
    };
    proof {
        if is_ascii_chars(time@) && time@.len() >= 16 {
            lemma_ascii_slice(time@, hhmm@);
        }
    }
    hhmm
}

/// In ASCII text every byte offset is a character boundary, so bytes 11 to
/// 16 are characters 11 to 16.
proof fn lemma_ascii_slice(s: Seq<char>, part: Seq<char>)
    requires
        is_ascii_chars(s),
        s.len() >= 16,
        encode_utf8(part) == (if 16 <= encode_utf8(s).len()
            && is_char_boundary(encode_utf8(s), 11)
            && is_char_boundary(encode_utf8(s), 16) {
            encode_utf8(s).subrange(11, 16)
        } else {
            encode_utf8(s)
        }),
    ensures
        part == s.subrange(11, 16),
{
    let b = encode_utf8(s);
    is_ascii_chars_encode_utf8(s);
    encode_utf8_valid_utf8(s);
    is_char_boundary_iff_not_is_continuation_byte(b, 11);
    assert(b[11] == s[11] as u8);
    assert(!is_continuation_byte(b[11]));
    if s.len() == 16 {
        is_char_boundary_start_end_of_seq(b);
    } else {
        is_char_boundary_iff_not_is_continuation_byte(b, 16);
        assert(b[16] == s[16] as u8);
    }
    let sub = s.subrange(11, 16);
    assert(is_ascii_chars(sub));
    is_ascii_chars_encode_utf8(sub);
    assert(encode_utf8(sub) =~= b.subrange(11, 16));
    encode_utf8_decode_utf8(sub);
    encode_utf8_decode_utf8(part);
}

/// What the program does for the options it was given.
#[derive(Debug, Clone, Copy, PartialEq, Eq, Structural)]
pub enum Action {
    /// Look a city up by name.
    CitySearch,
    /// Hourly forecast for this many days.
    Hourly(u32),
    /// Raw JSON output.
    Json,
    /// Weather at the coordinates given.
    Direct,
    /// The interactive prompt.
    Interactive,
    /// Weather at the location of the caller's IP address.
    MyLocation,
    /// Remove the cache file.
    ClearCache,
    /// No action was asked for.
    Nothing,
}

/// The options that decide the action.
pub struct Invocation {
    /// A city name was given to search for.
    pub search: bool,
    /// The hourly forecast was asked for, with this many days.
    pub hourly: Option<u32>,
    /// JSON output was asked for.
    pub json: bool,
    /// Both latitude and longitude were given.
    pub coordinates: bool,
    /// Interactive mode was asked for.
    pub interactive: bool,
    /// IP geolocation was asked for.
    pub ml: bool,
    /// Clearing the cache was asked for.
    pub clear_cache: bool,
}

/// The action for the options, in order of precedence: search, hourly,
/// JSON, given coordinates, interactive, geolocation, clearing the cache.
pub open spec fn action_for(inv: Invocation) -> Action {
    if inv.search {
        Action::CitySearch
    } else if inv.hourly is Some {
        Action::Hourly(inv.hourly->0)
    } else if inv.json {
        Action::Json
    } else if inv.coordinates {
        Action::Direct
    } else if inv.interactive {
        Action::Interactive
    } else if inv.ml {
        Action::MyLocation
    } else if inv.clear_cache {
        Action::ClearCache
    } else {
        Action::Nothing
    }
}

/// Choose the action for the given options.
pub fn plan(inv: &Invocation) -> (action: Action)
    ensures
        action == action_for(*inv),
{
    if inv.search {
        Action::CitySearch
    } else if let Some(days) = inv.hourly {
        Action::Hourly(days)
    } else if inv.json {
        Action::Json
    } else if inv.coordinates {
        Action::Direct
    } else if inv.interactive {
        Action::Interactive
    } else if inv.ml {
        Action::MyLocation
    } else if inv.clear_cache {
        Action::ClearCache
    } else {
        Action::Nothing
    }
}

/// Where the coordinates of an hourly or JSON request come from.
#[derive(Debug, Clone, Copy, PartialEq, Eq, Structural)]
pub enum CoordSource {
    /// The coordinates given on the command line.
    Given,
    /// The location of the caller's IP address.
    Geolocated,
    /// None: the request fails.
    Missing,
}

/// Given coordinates take precedence over geolocation; with neither the
/// request cannot go on.
pub fn coordinate_source(coordinates: bool, ml: bool) -> (source: CoordSource)
    ensures
        source == (if coordinates { CoordSource::Given } else if ml { CoordSource::Geolocated } else { CoordSource::Missing }),
{
    if coordinates {
        CoordSource::Given
    } else if ml {
        CoordSource::Geolocated
    } else {
        CoordSource::Missing
    }
}

/// Cache key of the caller's IP geolocation.
pub const LOCATION_KEY: &'static str = "ml";

/// How a city search goes on, by the number of results it found.
#[derive(Debug, Clone, Copy, PartialEq, Eq, Structural)]
pub enum CityChoice {
    /// Nothing was found: the search fails.
    NoResults,
    /// One city was found: it is taken without asking.
    Only,
    /// Several were found: the user is asked to pick one.
    Prompt,
}

/// Decide how a city search with `count` results goes on.
pub fn city_choice(count: usize) -> (choice: CityChoice)
    ensures
        choice == (if count == 0 {
            CityChoice::NoResults
        } else if count == 1 {
            CityChoice::Only
        } else {
            CityChoice::Prompt
        }),
{
    if count == 0 {
        CityChoice::NoResults
    } else if count == 1 {
        CityChoice::Only
    } else {
        CityChoice::Prompt
    }
}

/// What follows a city search once a city is chosen: JSON output when asked
/// for (it takes precedence over the hourly forecast here), else the hourly
/// forecast when asked for, else the weather report.
pub fn city_follow_up(json: bool, hourly: Option<u32>) -> (action: Action)
    ensures
        action == (if json {
            Action::Json
        } else if hourly is Some {
            Action::Hourly(hourly->0)
        } else {
            Action::Direct
        }),
{
    if json {
        Action::Json
    } else if let Some(days) = hourly {
        Action::Hourly(days)
    } else {
        Action::Direct
    }
}

/// Precedence of the options, each whatever the options below it say: a city
/// search wins over everything; otherwise an hourly request gives the hourly
/// forecast; otherwise JSON output is chosen; otherwise given coordinates,
/// then interactive mode, then geolocation, then clearing the cache; with
/// none of them there is nothing to do.
pub proof fn law_action_precedence(inv: Invocation)
    ensures
        inv.search ==> action_for(inv) == Action::CitySearch,
        forall|d: u32| !inv.search && inv.hourly == Some(d) ==> action_for(inv) == Action::Hourly(d),
        !inv.search && inv.hourly is None && inv.json ==> action_for(inv) == Action::Json,
        !inv.search && inv.hourly is None && !inv.json && inv.coordinates
            ==> action_for(inv) == Action::Direct,
        !inv.search && inv.hourly is None && !inv.json && !inv.coordinates && inv.interactive
            ==> action_for(inv) == Action::Interactive,
        !inv.search && inv.hourly is None && !inv.json && !inv.coordinates && !inv.interactive && inv.ml
            ==> action_for(inv) == Action::MyLocation,
        !inv.search && inv.hourly is None && !inv.json && !inv.coordinates && !inv.interactive && !inv.ml
            && inv.clear_cache ==> action_for(inv) == Action::ClearCache,
        action_for(inv) == Action::Nothing <==> (!inv.search && inv.hourly is None && !inv.json
            && !inv.coordinates && !inv.interactive && !inv.ml && !inv.clear_cache),
        action_for(inv) == Action::MyLocation ==> inv.ml,
{
}

/// The prompt reads a line by its trimmed text: it is empty exactly when that
/// text is empty; it quits on `q`, `quit` or `exit` and asks for help on
/// `help`; every other non-empty text, a negative latitude included, is read
/// as coordinates.
pub proof fn law_prompt_lines(line: Seq<char>)
    ensures
        repl_command(line) == ReplCommand::Empty <==> trimmed(line).len() == 0,
        repl_command(line) == ReplCommand::Quit
            <==> (trimmed(line) == "q"@ || trimmed(line) == "quit"@ || trimmed(line) == "exit"@),
        repl_command(line) == ReplCommand::Help <==> trimmed(line) == "help"@,
        repl_command(line) == ReplCommand::Coordinates <==> (trimmed(line).len() > 0
            && trimmed(line) != "q"@ && trimmed(line) != "quit"@ && trimmed(line) != "exit"@
            && trimmed(line) != "help"@),
{
    reveal_strlit("q");
    reveal_strlit("quit");
    reveal_strlit("exit");
    reveal_strlit("help");
    let t = trimmed(line);
    if t == "q"@ || t == "quit"@ || t == "exit"@ || t == "help"@ {
        assert(t.len() > 0);
    }
    assert("q"@ != "help"@ && "quit"@ != "help"@ && "exit"@ != "help"@) by {
        assert("q"@.len() != "help"@.len());
        assert("quit"@[0] != "help"@[0]);
        assert("exit"@[0] != "help"@[0]);
    }
}

/// Keys never collide across kinds of request: for the same coordinates the
/// forecast and current-conditions keys differ, and no hourly key equals the
/// key of a forecast or current-conditions request for any coordinates.
pub proof fn law_cache_keys_distinct(
    lat: Seq<char>,
    lon: Seq<char>,
    lat2: Seq<char>,
    lon2: Seq<char>,
    days: u32,
    forecast: bool,
)
    ensures
        lat + "_"@ + lon + "_"@ + mode_text(true) != lat + "_"@ + lon + "_"@ + mode_text(false),
        lat + "_"@ + lon + "_hourly_"@ + decimal(days as nat) != lat2 + "_"@ + lon2 + "_"@ + mode_text(forecast),
{
    reveal_strlit("forecast");
    reveal_strlit("current");
    reveal_strlit("_");
    reveal_strlit("_hourly_");
    let f = lat + "_"@ + lon + "_"@ + mode_text(true);
    let c = lat + "_"@ + lon + "_"@ + mode_text(false);
    assert(f.len() == c.len() + 1);
    let h = lat + "_"@ + lon + "_hourly_"@ + decimal(days as nat);
    let m = lat2 + "_"@ + lon2 + "_"@ + mode_text(forecast);
    crate::text::lemma_decimal_digits(days as nat);
    let d = decimal(days as nat);
    assert(h.last() == d.last());
    assert(crate::text::is_digit(d[d.len() - 1]));
    assert(m.last() == 't');
}

/// A cached response is shown in at most one display mode, and hourly
/// forecasts and geolocations are never shown as weather reports.
pub proof fn law_cached_view_one_mode<D, C, H, L>(data: ReturnedData<D, C, H, L>)
    ensures
        !(shows_cached(data, true) && shows_cached(data, false)),
        data is Hourly || data is Location ==> !shows_cached(data, true) && !shows_cached(data, false),
{
}

/// Trimming is idempotent, so a prompt line reads the same as its trimmed text.
pub proof fn law_trim_idempotent(line: Seq<char>)
    ensures
        trimmed(trimmed(line)) == trimmed(line),
        repl_command(trimmed(line)) == repl_command(line),
{
    crate::text::lemma_trimmed_ends(line);
    crate::text::lemma_trim_clean(trimmed(line));
}

/// The chosen search result always exists: its index is below the number of results.
pub proof fn law_choice_in_range(line: Seq<char>, count: usize)
    requires
        count > 0,
    ensures
        chosen_index(line, count) < count,
{
}

/// Typing the number listed beside a result, then Enter, selects that
/// result; an empty line selects the first.
pub proof fn law_choice_by_number(k: u32, count: usize)
    requires
        count > 0,
        1 <= k <= count,
    ensures
        chosen_index(decimal(k as nat) + "\n"@, count) == k - 1,
        chosen_index("\n"@, count) == 0,
{
    reveal_strlit("\n");
    let d = decimal(k as nat);
    crate::text::lemma_decimal_digits(k as nat);
    crate::text::lemma_trim_digits_line(d);
    crate::text::law_numeral_roundtrip(k);
    crate::text::lemma_trim_newline();
    assert(parsed_usize(Seq::<char>::empty()) is None);
}

/// The selected city is announced by its name, followed by where it lies
/// when the country is known.
pub proof fn law_label_names_location(name: Seq<char>, country: Option<Seq<char>>, admin1: Option<Seq<char>>)
    ensures
        label_of(name, country, admin1) == (if country is Some {
            name + ", "@ + location_of(country, admin1)
        } else {
            name
        }),
{
    match (country, admin1) {
        (Some(c), Some(a)) => {
            assert(name + ", "@ + a + ", "@ + c =~= name + ", "@ + (a + ", "@ + c));
        }
        _ => {}
    }
}

} // verus!
