//! Weather observations and the requests that fetch them.

use vstd::prelude::*;
use vstd::string::StringExecFns;
use crate::text::{
    chars_of, fields, fields_from, is_char, is_whitespace, lemma_first_from_is, parse_u8,
    parsed_u8, pieces, pieces_from, split_fields, split_pieces, texts, white,
};

verus! {

/// Where the weather service answers.
pub const APIXU_URL: &'static str = "https://api.apixu.com/v1/";

/// The place that is asked for when no city is given: wherever the request
/// comes from.
pub const AUTO_IP: &'static str = "auto:ip";

/// A physical reading in thousandths of its unit: 71.6 degrees are `71_600`.
pub type Milli = i32;

/// Where an observation was made.
#[derive(Debug, Clone, Default)]
pub struct Location {
    /// Latitude, in thousandths of a decimal degree
    pub lat: Milli,
    /// Longitude, in thousandths of a decimal degree
    pub lon: Milli,
    /// Location name
    pub name: String,
    /// Region or state of the location, if available
    pub region: Option<String>,
    /// Location country
    pub country: String,
    /// Time zone name
    pub tz_id: String,
    /// Local date and time in unix time
    pub localtime_epoch: u32,
    /// Local date and time
    pub localtime: String,
}

/// The answer of the weather service: a place and what was observed
/// there.
#[derive(Debug, Clone, Default)]
pub struct CurrentWeather {
    pub location: Location,
    pub current: Current,
}

/// The sky in words and as a code of the service; 1000 is a clear sky.
#[derive(Debug, Clone, Default)]
pub struct WeatherCondition {
    pub text: String,
    pub code: u32,
}

/// One observation. Every reading is a `Milli`.
#[derive(Debug, Clone, Default)]
pub struct Current {
    /// Local time when the real time data was updated.
    pub last_updated: String,
    /// Local time when the real time data was updated in unix time.
    pub last_updated_epoch: i32,
    /// Temperature in celsius
    pub temp_c: Milli,
    /// Temperature in fahrenheit
    pub temp_f: Milli,
    pub condition: WeatherCondition,
    /// Wind speed in miles per hour
    pub wind_mph: Milli,
    /// Wind speed in kilometer per hour
    pub wind_kph: Milli,
    /// Wind direction in degrees
    pub wind_degree: i32,
    /// Wind direction as 16 point compass. e.g.: NSW
    pub wind_dir: String,
    /// Pressure in millibars
    pub pressure_mb: Milli,
    /// Pressure in inches
    pub pressure_in: Milli,
    /// Precipitation amount in millimeters
    pub precip_mm: Milli,
    /// Precipitation amount in inches
    pub precip_in: Milli,
    /// Humidity as percentage
    pub humidity: u8,
    /// Cloud cover as percentage
    pub cloud: u8,
    /// Feels like temperature as celcius
    pub feelslike_c: Milli,
    /// Feels like temperature as fahrenheit
    pub feelslike_f: Milli,
    /// 1 by day, 0 by night
    pub is_day: u8,
}

/// The hour of a local time stamp such as `2016-12-15 09:22`: the text has
/// exactly two fields, a date and a time; the time has exactly one colon;
/// and what stands before the colon writes a number from 0 to 255.
pub open spec fn hours_of(last_updated: Seq<char>) -> Option<u8> {
    let parts = fields(last_updated);
    if parts.len() == 2 {
        let clock = pieces(parts[1], ':');
        if clock.len() == 2 {
            parsed_u8(clock[0])
        } else {
            None
        }
    } else {
        None
    }
}

/// Whether `s` is a word that can stand in a time stamp: no white space and
/// no colon.
pub open spec fn plain_word(s: Seq<char>) -> bool {
    forall|k: int| 0 <= k < s.len() ==> !is_whitespace(#[trigger] s[k]) && s[k] != ':'
}

/// A stamp written as a date, a blank, the hour, a colon and the minutes
/// gives the hour, as far as the hour writes a number.
pub proof fn lemma_hours_of_stamp(date: Seq<char>, hour: Seq<char>, minute: Seq<char>)
    requires
        date.len() > 0,
        forall|k: int| 0 <= k < date.len() ==> !is_whitespace(#[trigger] date[k]),
        plain_word(hour),
        plain_word(minute),
    ensures
        hours_of(date + seq![' '] + hour + seq![':'] + minute) == parsed_u8(hour),
{
    let time = hour + seq![':'] + minute;
    let s = date + seq![' '] + hour + seq![':'] + minute;
    let d = date.len() as int;
    let n = s.len() as int;
    assert(s =~= date + seq![' '] + time);
    assert(is_whitespace(' '));
    assert(!is_whitespace(':'));
    assert forall|k: int| 0 <= k < time.len() implies !is_whitespace(#[trigger] time[k]) by {
        if k < hour.len() {
            assert(time[k] == hour[k]);
        } else if k > hour.len() {
            assert(time[k] == minute[k - hour.len() - 1]);
        }
    }
    assert forall|k: int| 0 <= k < d implies !white()(#[trigger] s[k]) by {
        assert(s[k] == date[k]);
    }
    assert forall|k: int| d + 1 <= k < n implies !white()(#[trigger] s[k]) by {
        assert(s[k] == time[k - d - 1]);
    }
    assert(s[d] == ' ');
    lemma_first_from_is(s, white(), 0, d);
    lemma_first_from_is(s, white(), d + 1, n);
    assert(s[0] == date[0]);
    assert(s[d + 1] == time[0]);
    assert(fields_from(s, n) =~= Seq::<Seq<char>>::empty());
    assert(fields_from(s, d + 1) =~= seq![s.subrange(d + 1, n)]);
    assert(fields_from(s, d) == fields_from(s, d + 1));
    assert(fields_from(s, 0) =~= seq![s.subrange(0, d), s.subrange(d + 1, n)]);
    assert(s.subrange(d + 1, n) =~= time);
    assert(fields(s)[1] == time);

    let h = hour.len() as int;
    let m = time.len() as int;
    assert forall|k: int| 0 <= k < h implies !is_char(':')(#[trigger] time[k]) by {
        assert(time[k] == hour[k]);
    }
    assert forall|k: int| h + 1 <= k < m implies !is_char(':')(#[trigger] time[k]) by {
        assert(time[k] == minute[k - h - 1]);
    }
    assert(time[h] == ':');
    lemma_first_from_is(time, is_char(':'), 0, h);
    lemma_first_from_is(time, is_char(':'), h + 1, m);
    assert(pieces_from(time, ':', h + 1) =~= seq![time.subrange(h + 1, m)]);
    assert(pieces_from(time, ':', 0) =~= seq![time.subrange(0, h), time.subrange(h + 1, m)]);
    assert(time.subrange(0, h) =~= hour);
}

/// Reads the hour of a local time stamp.
pub fn parse_hours_from_last_updated<'a>(last_updated: &'a str) -> (hours: Option<u8>)
    ensures
        hours == hours_of(last_updated@),
{
    let chars = chars_of(last_updated);
    let parts = split_fields(&chars);
    if parts.len() != 2 {
        return None;
    }
    assert(texts(parts@)[1] == parts@[1]@);
    let clock = split_pieces(&parts[1], ':');
    if clock.len() != 2 {
        return None;
    }
    assert(texts(clock@)[0] == clock@[0]@);
    parse_u8(&clock[0])
}

/// The parameters of a request as they stand behind the key: each as
/// `&name=value`, in order, nothing escaped.
pub open spec fn params_text(params: Seq<(Seq<char>, Seq<char>)>) -> Seq<char>
    decreases params.len(),
{
    if params.len() == 0 {
        Seq::empty()
    } else {
        params_text(params.drop_last()) + "&"@ + params.last().0 + "="@ + params.last().1
    }
}

/// The address of a request to the weather service.
pub open spec fn url_text(
    api_key: Seq<char>,
    uri_path: Seq<char>,
    params: Seq<(Seq<char>, Seq<char>)>,
) -> Seq<char> {
    APIXU_URL@ + uri_path + "?key="@ + api_key + params_text(params)
}

/// Names and values of request parameters as texts.
pub open spec fn param_texts(params: Seq<(&str, &String)>) -> Seq<(Seq<char>, Seq<char>)> {
    params.map_values(|p: (&str, &String)| (p.0@, p.1@))
}

/// Builds the address of a request: the service, the path, the key of the
/// account and the parameters.
pub fn mk_url(api_key: &str, uri_path: &str, params: Vec<(&str, &String)>) -> (url: String)
    ensures
        url@ == url_text(api_key@, uri_path@, param_texts(params@)),
{
    let mut param_string = String::new();
    let n = params.len();
    let mut i: usize = 0;
    assert(param_texts(params@).take(0) =~= Seq::empty());
    while i < n
        invariant
            n == params.len(),
            i <= n,
            param_string@ == params_text(param_texts(params@).take(i as int)),
        decreases n - i,
    {
        let ghost before = param_texts(params@).take(i as int);
        let ghost after = param_texts(params@).take(i + 1);
        assert(after.drop_last() =~= before);
        assert(after.last() == (params@[i as int].0@, params@[i as int].1@));
        param_string.append("&");
        param_string.append(params[i].0);
        param_string.append("=");
        param_string.append(params[i].1.as_str());
        i = i + 1;
    }
    assert(param_texts(params@).take(n as int) =~= param_texts(params@));
    let mut url = String::from_str(APIXU_URL);
    url.append(uri_path);
    url.append("?key=");
    url.append(api_key);
    url.append(param_string.as_str());
    url
}

/// The place to ask the weather for: the city, or `auto:ip` without one.
pub open spec fn place_of(city: Option<String>) -> Seq<char> {
    match city {
        Some(name) => name@,
        None => AUTO_IP@,
    }
}

/// The address that gives the current weather of `city`, or of the place
/// that the request comes from where no city is named.
pub fn current_weather_url(api_key: &str, city: &Option<String>) -> (url: String)
    ensures
        url@ == url_text(api_key@, "current.json"@, seq![("q"@, place_of(*city))]),
{
    let the_city = match city {
        Some(name) => name.clone(),
        None => String::from_str(AUTO_IP),
    };
    let mut params: Vec<(&str, &String)> = Vec::new();
    params.push(("q", &the_city));
    assert(param_texts(params@) =~= seq![("q"@, place_of(*city))]);
    mk_url(api_key, "current.json", params)
}

/// The place as the recap names it: the city that was asked for, or the
/// one that the service found, marked as inferred.
pub open spec fn city_text(city: Option<String>, name: Seq<char>, country: Seq<char>) -> Seq<char> {
    match city {
        Some(asked) => asked@,
        None => name + ", "@ + country + " (Inferred)"@,
    }
}

/// Names the place of an observation for the recap.
pub fn city_label(city: &Option<String>, name: &str, country: &str) -> (label: String)
    ensures
        label@ == city_text(*city, name@, country@),
{
    match city {
        Some(asked) => asked.clone(),
        None => {
            let mut label = String::from_str(name);
            label.append(", ");
            label.append(country);
            label.append(" (Inferred)");
            label
        },
    }
}

} // verus!
