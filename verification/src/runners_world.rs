//! The recommendation page of Runner's World: the query that asks it what
//! to wear, in its own vocabulary. What the page answers is read in `page`,
//! ordered in `image` and shown by `terminal`.

use vstd::prelude::*;
use vstd::string::StringExecFns;
use crate::apixu_weather::{hours_of, parse_hours_from_last_updated, CurrentWeather};
use crate::cli::{Gender, Intensity};

pub use crate::image::Image;
pub use crate::page::{find_descriptions, find_images};
pub use crate::terminal::to_base_64;

verus! {

/// Where the page that recommends clothes answers.
pub const RUNNERS_WORLD_URL: &'static str = "http://www.runnersworld.com/what-to-wear";

/// The lower edge, in whole degrees Fahrenheit, of the bin that holds a
/// reading of `milli` thousandths of a degree. Bins are five degrees wide and
/// closed below; everything under -5 falls in bin -10, everything from 100
/// upwards in bin 100.
pub open spec fn temperature_bin(milli: int) -> int {
    if milli < -5_000 {
        -10
    } else if milli >= 100_000 {
        100
    } else {
        5 * (milli / 5_000)
    }
}

/// The token by which the page knows a temperature bin.
pub open spec fn temperature_label(bin: int) -> Seq<char> {
    if bin == -10 {
        "-10"@
    } else if bin == -5 {
        "-5"@
    } else if bin == 0 {
        "zero"@
    } else if bin == 5 {
        "5"@
    } else if bin == 10 {
        "10"@
    } else if bin == 15 {
        "15"@
    } else if bin == 20 {
        "20"@
    } else if bin == 25 {
        "25"@
    } else if bin == 30 {
        "30"@
    } else if bin == 35 {
        "35"@
    } else if bin == 40 {
        "40"@
    } else if bin == 45 {
        "45"@
    } else if bin == 50 {
        "50"@
    } else if bin == 55 {
        "55"@
    } else if bin == 60 {
        "60"@
    } else if bin == 65 {
        "65"@
    } else if bin == 70 {
        "70"@
    } else if bin == 75 {
        "75"@
    } else if bin == 80 {
        "80"@
    } else if bin == 85 {
        "85"@
    } else if bin == 90 {
        "90"@
    } else if bin == 95 {
        "95"@
    } else {
        "100"@
    }
}

/// Whether a reading of `milli` thousandths of a degree lies in the bin
/// whose lower edge is `bin` whole degrees: one of the 23 bins from -10 to
/// 100, each closed below and open above, the first without a lower edge and
/// the last without an upper one.
pub open spec fn bin_holds(bin: int, milli: int) -> bool {
    &&& -10 <= bin <= 100
    &&& bin % 5 == 0
    &&& bin == -10 ==> milli < -5_000
    &&& bin == 100 ==> milli >= 100_000
    &&& -10 < bin < 100 ==> 1_000 * bin <= milli < 1_000 * (bin + 5)
}

/// Every temperature lies in exactly one bin, the one that `temperature_bin`
/// names.
pub proof fn lemma_temperature_bin_is_the_only_one(milli: int, bin: int)
    ensures
        bin_holds(bin, milli) <==> bin == temperature_bin(milli),
{
}

/// No two bins share a token.
pub proof fn lemma_temperature_labels_differ(a: int, b: int)
    requires
        -10 <= a <= 100 && a % 5 == 0,
        -10 <= b <= 100 && b % 5 == 0,
        a != b,
    ensures
        temperature_label(a) != temperature_label(b),
{
    reveal_strlit("-10");
    reveal_strlit("-5");
    reveal_strlit("zero");
    reveal_strlit("5");
    reveal_strlit("10");
    reveal_strlit("15");
    reveal_strlit("20");
    reveal_strlit("25");
    reveal_strlit("30");
    reveal_strlit("35");
    reveal_strlit("40");
    reveal_strlit("45");
    reveal_strlit("50");
    reveal_strlit("55");
    reveal_strlit("60");
    reveal_strlit("65");
    reveal_strlit("70");
    reveal_strlit("75");
    reveal_strlit("80");
    reveal_strlit("85");
    reveal_strlit("90");
    reveal_strlit("95");
    reveal_strlit("100");
    let x = temperature_label(a);
    let y = temperature_label(b);
    if x.len() == y.len() {
        assert(x[0] != y[0] || x[1] != y[1]);
    }
}

/// The token for the sky, by the code of the weather service: 1000 is
/// clear, every code from 1003 on counts as partly cloudy, and what is left
/// counts as snow.
pub open spec fn conditions_token(code: int) -> Seq<char> {
    if code == 1000 {
        "c"@
    } else if code >= 1003 {
        "pc"@
    } else {
        "s"@
    }
}

/// The rules for the sky as they are listed, the first that matches
/// deciding: clear, partly cloudy, overcast, light rain, rain, and snow for
/// the rest.
pub open spec fn conditions_by_rules(code: int) -> Seq<char> {
    if code == 1000 {
        "c"@
    } else if code >= 1003 {
        "pc"@
    } else if 1003 < code <= 1009 {
        "o"@
    } else if code == 1183 {
        "lr"@
    } else if code != 1183 && 1009 < code < 1195 {
        "r"@
    } else {
        "s"@
    }
}

/// The rule for partly cloudy skies shadows those for overcast skies, light
/// rain and rain: no code reaches them.
pub proof fn lemma_conditions_rules_shadowed(code: int)
    ensures
        conditions_by_rules(code) == conditions_token(code),
        code >= 1003 ==> conditions_token(code) == "pc"@,
{
}

/// The token for the wind, by its speed in thousandths of a mile per hour:
/// none up to 3 mph, light between 3 and 25, high above 25. At 25 mph
/// exactly no rule applies and the wind counts as none.
pub open spec fn wind_token(milli_mph: int) -> Seq<char> {
    if milli_mph <= 3_000 || milli_mph == 25_000 {
        "nw"@
    } else if milli_mph < 25_000 {
        "lw"@
    } else {
        "hw"@
    }
}

/// The token for the time of day. Without an hour it is day. With one, night
/// is when the observation says so; by day the hours before 8 are dawn,
/// those between 8 and 16 day, those between 16 and 20 dusk, and the rest,
/// 8 and 16 among them, night.
pub open spec fn time_of_day_token(hours: Option<u8>, is_day: u8) -> Seq<char> {
    match hours {
        None => "day"@,
        Some(h) => if is_day == 0 {
            "night"@
        } else if h < 8 {
            "dawn"@
        } else if 8 < h < 16 {
            "day"@
        } else if 16 < h < 20 {
            "dusk"@
        } else {
            "night"@
        },
    }
}

/// When the observation says that it is not day, it is night at every hour.
pub proof fn lemma_night_at_every_hour(hour: u8)
    ensures
        time_of_day_token(Some(hour), 0) == "night"@,
{
}

/// By day every hour is dawn, day, dusk or night, and only the hours 8 and
/// 16 and those from 20 on are night.
pub proof fn lemma_hours_by_day(hour: u8, is_day: u8)
    requires
        is_day != 0,
    ensures
        hour < 8 <==> time_of_day_token(Some(hour), is_day) == "dawn"@,
        8 < hour < 16 <==> time_of_day_token(Some(hour), is_day) == "day"@,
        16 < hour < 20 <==> time_of_day_token(Some(hour), is_day) == "dusk"@,
        hour == 8 || hour == 16 || hour >= 20 <==> time_of_day_token(Some(hour), is_day)
            == "night"@,
{
    reveal_strlit("dawn");
    reveal_strlit("day");
    reveal_strlit("dusk");
    reveal_strlit("night");
    assert("dawn"@[1] != "day"@[1] || "dawn"@.len() != "day"@.len());
    assert("dawn"@[1] != "dusk"@[1]);
    assert("dawn"@.len() != "night"@.len());
    assert("day"@.len() != "dusk"@.len());
    assert("day"@.len() != "night"@.len());
    assert("dusk"@.len() != "night"@.len());
}

/// The token for the kind of run.
pub open spec fn intensity_token(i: Intensity) -> Seq<char> {
    match i {
        Intensity::EasyRun => "n"@,
        Intensity::LongRun => "lr"@,
        Intensity::HardWorkout => "h"@,
        Intensity::Race => "r"@,
    }
}

/// The token for how the air feels, by the measured and the felt
/// temperature in thousandths of a degree Celsius: in between where both
/// agree, warmer where the measured one is under the felt one plus ten
/// degrees, colder where it is over that, and in between where it is
/// exactly that.
pub open spec fn feel_token(measured: int, felt: int) -> Seq<char> {
    if measured == felt || measured == felt + 10_000 {
        "ib"@
    } else if measured < felt + 10_000 {
        "w"@
    } else {
        "c"@
    }
}

/// The token for the runner.
pub open spec fn gender_token(g: Gender) -> Seq<char> {
    match g {
        Gender::Male => "m"@,
        Gender::Female => "f"@,
    }
}

/// The seven tokens that make a query.
pub struct FormBuilder {
    pub gender: &'static str,
    pub temperature: &'static str,
    pub conditions: &'static str,
    pub wind: &'static str,
    pub time_of_day: &'static str,
    pub intensity: &'static str,
    pub feel: &'static str,
}

impl FormBuilder {
    /// The address of the page for these tokens: the seven of them as
    /// parameters of a query, in a fixed order.
    pub open spec fn url_text(self) -> Seq<char> {
        RUNNERS_WORLD_URL@ + "?gender="@ + self.gender@ + "&temp="@ + self.temperature@
            + "&conditions="@ + self.conditions@ + "&wind="@ + self.wind@ + "&time="@
            + self.time_of_day@ + "&intensity="@ + self.intensity@ + "&feel="@ + self.feel@
    }

    /// Writes the address of the page for these tokens.
    pub fn to_url(&self) -> (url: String)
        ensures
            url@ == self.url_text(),
    {
        let mut url = String::from_str(RUNNERS_WORLD_URL);
        url.append("?gender=");
        url.append(self.gender);
        url.append("&temp=");
        url.append(self.temperature);
        url.append("&conditions=");
        url.append(self.conditions);
        url.append("&wind=");
        url.append(self.wind);
        url.append("&time=");
        url.append(self.time_of_day);
        url.append("&intensity=");
        url.append(self.intensity);
        url.append("&feel=");
        url.append(self.feel);
        url
    }

    /// The tokens for a runner and the weather.
    pub open spec fn tokens_for(self, gender: Gender, intensity: Intensity, weather: CurrentWeather) -> bool {
        &&& self.gender@ == gender_token(gender)
        &&& self.temperature@ == temperature_label(temperature_bin(weather.current.temp_f as int))
        &&& self.conditions@ == conditions_token(weather.current.condition.code as int)
        &&& self.wind@ == wind_token(weather.current.wind_mph as int)
        &&& self.time_of_day@ == time_of_day_token(
            hours_of(weather.current.last_updated@),
            weather.current.is_day,
        )
        &&& self.intensity@ == intensity_token(intensity)
        &&& self.feel@ == feel_token(
            weather.current.temp_c as int,
            weather.current.feelslike_c as int,
        )
    }

    /// The query for a runner in the weather that was observed.
    pub fn new(gender: &Gender, intensity: &Intensity, weather: &CurrentWeather) -> (form: FormBuilder)
        ensures
            form.tokens_for(*gender, *intensity, *weather),
    {
        FormBuilder {
            gender: match gender {
                Gender::Male => "m",
                Gender::Female => "f",
            },
            temperature: FormBuilder::to_temperature(weather),
            conditions: FormBuilder::to_conditions(weather),
            wind: FormBuilder::to_wind(weather),
            time_of_day: FormBuilder::to_time_of_day(weather),
            intensity: FormBuilder::to_intensity(intensity),
            feel: FormBuilder::to_feel(weather),
        }
    }

    /// The token for the time of day of an observation.
    pub fn to_time_of_day(w: &CurrentWeather) -> (token: &'static str)
        ensures
            token@ == time_of_day_token(hours_of(w.current.last_updated@), w.current.is_day),
    {
        match parse_hours_from_last_updated(w.current.last_updated.as_str()) {
            None => "day",
            Some(h) => {
                if w.current.is_day == 0 {
                    return "night";
                }
                if h < 8 {
                    return "dawn";
                }
                if h > 8 && h < 16 {
                    return "day";
                }
                if h > 16 && h < 20 {
                    return "dusk";
                }
                "night"
            },
        }
    }

    /// The token for the wind of an observation.
    pub fn to_wind(w: &CurrentWeather) -> (token: &'static str)
        ensures
            token@ == wind_token(w.current.wind_mph as int),
    {
        if w.current.wind_mph <= 3_000 {
            return "nw";
        }
        if w.current.wind_mph > 3_000 && w.current.wind_mph < 25_000 {
            return "lw";
        }
        if w.current.wind_mph > 25_000 {
            return "hw";
        }
        "nw"
    }

    /// The token for how the air of an observation feels.
    pub fn to_feel(w: &CurrentWeather) -> (token: &'static str)
        ensures
            token@ == feel_token(w.current.temp_c as int, w.current.feelslike_c as int),
    {
        let real_temp: i64 = w.current.temp_c as i64;
        let feel_temp: i64 = w.current.feelslike_c as i64;
        if real_temp == feel_temp {
            return "ib";
        }
        if real_temp < feel_temp + 10_000 {
            return "w";
        }
        if real_temp > feel_temp + 10_000 {
            return "c";
        }
        "ib"
    }

    /// The token for the sky of an observation. The rules are tried in
    /// their order, so those after the one for partly cloudy skies decide
    /// nothing.
    pub fn to_conditions(w: &CurrentWeather) -> (token: &'static str)
        ensures
            token@ == conditions_token(w.current.condition.code as int),
    {
        let weather_code = w.current.condition.code;
        if weather_code == 1000 {
            return "c";
        }
        if weather_code >= 1003 {
            return "pc";
        }
        if weather_code > 1003 && weather_code <= 1009 {
            return "o";
        }
        if weather_code == 1183 {
            return "lr";
        }
        if weather_code != 1183 && weather_code > 1009 && weather_code < 1195 {
            return "r";
        }
        "s"
    }

    /// The token for the kind of run.
    pub fn to_intensity(i: &Intensity) -> (token: &'static str)
        ensures
            token@ == intensity_token(*i),
    {
        match *i {
            Intensity::EasyRun => "n",
            Intensity::LongRun => "lr",
            Intensity::HardWorkout => "h",
            Intensity::Race => "r",
        }
    }

    /// The token for the temperature of an observation.
    pub fn to_temperature(w: &CurrentWeather) -> (token: &'static str)
        ensures
            token@ == temperature_label(temperature_bin(w.current.temp_f as int)),
    {
        let temp = w.current.temp_f;
        if temp < -5_000 {
            return "-10";
        }
        if temp >= -5_000 && temp < 0 {
            return "-5";
        }
        if temp >= 0 && temp < 5_000 {
            return "zero";
        }
        if temp >= 5_000 && temp < 10_000 {
            return "5";
        }
        if temp >= 10_000 && temp < 15_000 {
            return "10";
        }
        if temp >= 15_000 && temp < 20_000 {
            return "15";
        }
        if temp >= 20_000 && temp < 25_000 {
            return "20";
        }
        if temp >= 25_000 && temp < 30_000 {
            return "25";
        }
        if temp >= 30_000 && temp < 35_000 {
            return "30";
        }
        if temp >= 35_000 && temp < 40_000 {
            return "35";
        }
        if temp >= 40_000 && temp < 45_000 {
            return "40";
        }
        if temp >= 45_000 && temp < 50_000 {
            return "45";
        }
        if temp >= 50_000 && temp < 55_000 {
            return "50";
        }
        if temp >= 55_000 && temp < 60_000 {
            return "55";
        }
        if temp >= 60_000 && temp < 65_000 {
            return "60";
        }
        if temp >= 65_000 && temp < 70_000 {
            return "65";
        }
        if temp >= 70_000 && temp < 75_000 {
            return "70";
        }
        if temp >= 75_000 && temp < 80_000 {
            return "75";
        }
        if temp >= 80_000 && temp < 85_000 {
            return "80";
        }
        if temp >= 85_000 && temp < 90_000 {
            return "85";
        }
        if temp >= 90_000 && temp < 95_000 {
            return "90";
        }
        if temp >= 95_000 && temp < 100_000 {
            return "95";
        }
        "100"
    }
}

} // verus!
