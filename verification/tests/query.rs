use viktor::apixu_weather::{Current, CurrentWeather, Location, WeatherCondition};
use viktor::cli::{Gender, Intensity};
use viktor::runners_world::{FormBuilder, RUNNERS_WORLD_URL};

fn milli(reading: f64) -> i32 {
    (reading * 1000.0).round() as i32
}

fn weather() -> CurrentWeather {
    CurrentWeather {
        location: Location::default(),
        current: Current {
            last_updated: String::from("2016-12-15 09:22"),
            temp_c: milli(22.0),
            temp_f: milli(72.0),
            feelslike_c: milli(22.0),
            condition: WeatherCondition { text: String::from("Sunny"), code: 1000 },
            wind_mph: milli(2.0),
            is_day: 1,
            ..Current::default()
        },
    }
}

fn at_temp_f(reading: f64) -> CurrentWeather {
    let mut w = weather();
    w.current.temp_f = milli(reading);
    w
}

fn with_code(code: u32) -> CurrentWeather {
    let mut w = weather();
    w.current.condition.code = code;
    w
}

fn with_wind(mph: f64) -> CurrentWeather {
    let mut w = weather();
    w.current.wind_mph = milli(mph);
    w
}

fn at_time(last_updated: &str, is_day: u8) -> CurrentWeather {
    let mut w = weather();
    w.current.last_updated = String::from(last_updated);
    w.current.is_day = is_day;
    w
}

fn feeling(temp_c: f64, feelslike_c: f64) -> CurrentWeather {
    let mut w = weather();
    w.current.temp_c = milli(temp_c);
    w.current.feelslike_c = milli(feelslike_c);
    w
}

#[test]
fn temperature_bins_are_closed_below_and_open_above() {
    assert_eq!(FormBuilder::to_temperature(&at_temp_f(100.0)), "100");
    assert_eq!(FormBuilder::to_temperature(&at_temp_f(99.999)), "95");
    assert_eq!(FormBuilder::to_temperature(&at_temp_f(95.0)), "95");
    assert_eq!(FormBuilder::to_temperature(&at_temp_f(94.999)), "90");
    assert_eq!(FormBuilder::to_temperature(&at_temp_f(5.0)), "5");
    assert_eq!(FormBuilder::to_temperature(&at_temp_f(4.999)), "zero");
    assert_eq!(FormBuilder::to_temperature(&at_temp_f(0.0)), "zero");
    assert_eq!(FormBuilder::to_temperature(&at_temp_f(-0.001)), "-5");
    assert_eq!(FormBuilder::to_temperature(&at_temp_f(-5.0)), "-5");
    assert_eq!(FormBuilder::to_temperature(&at_temp_f(-5.001)), "-10");
}

#[test]
fn temperature_has_a_token_for_every_bin() {
    let tokens = [
        "-10", "-5", "zero", "5", "10", "15", "20", "25", "30", "35", "40", "45", "50", "55", "60",
        "65", "70", "75", "80", "85", "90", "95", "100",
    ];
    assert_eq!(tokens.len(), 23);
    let mut w = weather();
    for (k, token) in tokens.iter().enumerate() {
        let lower = (-10 + 5 * k as i32) * 1000;
        let (first, last) = if k == 0 {
            (-1_000_000, -5_001)
        } else if k == 22 {
            (100_000, 1_000_000)
        } else {
            (lower, lower + 4_999)
        };
        w.current.temp_f = first;
        assert_eq!(&FormBuilder::to_temperature(&w), token);
        w.current.temp_f = last;
        assert_eq!(&FormBuilder::to_temperature(&w), token);
    }
}

#[test]
fn temperature_at_the_ends_of_the_scale() {
    let mut w = weather();
    w.current.temp_f = i32::MIN;
    assert_eq!(FormBuilder::to_temperature(&w), "-10");
    w.current.temp_f = i32::MAX;
    assert_eq!(FormBuilder::to_temperature(&w), "100");
}

#[test]
fn conditions_clear_partly_cloudy_and_the_rest() {
    assert_eq!(FormBuilder::to_conditions(&with_code(1000)), "c");
    assert_eq!(FormBuilder::to_conditions(&with_code(1003)), "pc");
    assert_eq!(FormBuilder::to_conditions(&with_code(1006)), "pc");
    assert_eq!(FormBuilder::to_conditions(&with_code(1009)), "pc");
    assert_eq!(FormBuilder::to_conditions(&with_code(1183)), "pc");
    assert_eq!(FormBuilder::to_conditions(&with_code(1189)), "pc");
    assert_eq!(FormBuilder::to_conditions(&with_code(1282)), "pc");
    assert_eq!(FormBuilder::to_conditions(&with_code(u32::MAX)), "pc");
    assert_eq!(FormBuilder::to_conditions(&with_code(1001)), "s");
    assert_eq!(FormBuilder::to_conditions(&with_code(1002)), "s");
    assert_eq!(FormBuilder::to_conditions(&with_code(999)), "s");
    assert_eq!(FormBuilder::to_conditions(&with_code(0)), "s");
}

#[test]
fn wind_none_light_and_high() {
    assert_eq!(FormBuilder::to_wind(&with_wind(0.0)), "nw");
    assert_eq!(FormBuilder::to_wind(&with_wind(2.0)), "nw");
    assert_eq!(FormBuilder::to_wind(&with_wind(3.0)), "nw");
    assert_eq!(FormBuilder::to_wind(&with_wind(3.001)), "lw");
    assert_eq!(FormBuilder::to_wind(&with_wind(24.999)), "lw");
    assert_eq!(FormBuilder::to_wind(&with_wind(25.0)), "nw");
    assert_eq!(FormBuilder::to_wind(&with_wind(25.001)), "hw");
    assert_eq!(FormBuilder::to_wind(&with_wind(80.0)), "hw");
    assert_eq!(FormBuilder::to_wind(&with_wind(-1.0)), "nw");
}

#[test]
fn time_of_day_by_the_hour() {
    assert_eq!(FormBuilder::to_time_of_day(&at_time("2016-12-15 07:00", 1)), "dawn");
    assert_eq!(FormBuilder::to_time_of_day(&at_time("2016-12-15 0:10", 1)), "dawn");
    assert_eq!(FormBuilder::to_time_of_day(&at_time("2016-12-15 12:00", 1)), "day");
    assert_eq!(FormBuilder::to_time_of_day(&at_time("2016-12-15 9:00", 1)), "day");
    assert_eq!(FormBuilder::to_time_of_day(&at_time("2016-12-15 15:59", 1)), "day");
    assert_eq!(FormBuilder::to_time_of_day(&at_time("2016-12-15 17:00", 1)), "dusk");
    assert_eq!(FormBuilder::to_time_of_day(&at_time("2016-12-15 19:59", 1)), "dusk");
    assert_eq!(FormBuilder::to_time_of_day(&at_time("2016-12-15 20:00", 1)), "night");
    assert_eq!(FormBuilder::to_time_of_day(&at_time("2016-12-15 23:00", 1)), "night");
}

#[test]
fn time_of_day_at_eight_and_sixteen_is_night() {
    assert_eq!(FormBuilder::to_time_of_day(&at_time("2016-12-15 08:00", 1)), "night");
    assert_eq!(FormBuilder::to_time_of_day(&at_time("2016-12-15 16:00", 1)), "night");
}

#[test]
fn time_of_day_is_night_when_it_is_not_day() {
    for hour in 0..24 {
        let stamp = format!("2016-12-15 {}:30", hour);
        assert_eq!(FormBuilder::to_time_of_day(&at_time(&stamp, 0)), "night");
    }
}

#[test]
fn time_of_day_without_an_hour_is_day() {
    assert_eq!(FormBuilder::to_time_of_day(&at_time("", 1)), "day");
    assert_eq!(FormBuilder::to_time_of_day(&at_time("yesterday", 1)), "day");
    assert_eq!(FormBuilder::to_time_of_day(&at_time("2016-12-15 nine:22", 1)), "day");
    assert_eq!(FormBuilder::to_time_of_day(&at_time("2016-12-15T09:22", 0)), "day");
}

#[test]
fn intensity_tokens() {
    assert_eq!(FormBuilder::to_intensity(&Intensity::EasyRun), "n");
    assert_eq!(FormBuilder::to_intensity(&Intensity::LongRun), "lr");
    assert_eq!(FormBuilder::to_intensity(&Intensity::HardWorkout), "h");
    assert_eq!(FormBuilder::to_intensity(&Intensity::Race), "r");
}

#[test]
fn feel_in_between_warmer_and_colder() {
    assert_eq!(FormBuilder::to_feel(&feeling(22.0, 22.0)), "ib");
    assert_eq!(FormBuilder::to_feel(&feeling(22.0, 25.0)), "w");
    assert_eq!(FormBuilder::to_feel(&feeling(22.0, 20.0)), "w");
    assert_eq!(FormBuilder::to_feel(&feeling(22.0, 12.001)), "w");
    assert_eq!(FormBuilder::to_feel(&feeling(22.0, 12.0)), "ib");
    assert_eq!(FormBuilder::to_feel(&feeling(22.0, 11.999)), "c");
    assert_eq!(FormBuilder::to_feel(&feeling(5.0, -20.0)), "c");
}

#[test]
fn feel_at_the_ends_of_the_scale() {
    let mut w = weather();
    w.current.temp_c = i32::MAX;
    w.current.feelslike_c = i32::MAX;
    assert_eq!(FormBuilder::to_feel(&w), "ib");
    w.current.feelslike_c = i32::MAX - 1;
    assert_eq!(FormBuilder::to_feel(&w), "w");
    w.current.feelslike_c = i32::MIN;
    assert_eq!(FormBuilder::to_feel(&w), "c");
}

#[test]
fn query_for_a_mild_clear_morning() {
    let form = FormBuilder::new(&Gender::Male, &Intensity::EasyRun, &weather());
    assert_eq!(form.gender, "m");
    assert_eq!(form.temperature, "70");
    assert_eq!(form.conditions, "c");
    assert_eq!(form.wind, "nw");
    assert_eq!(form.time_of_day, "day");
    assert_eq!(form.intensity, "n");
    assert_eq!(form.feel, "ib");
}

#[test]
fn query_for_a_woman_racing_in_the_cold() {
    let mut w = weather();
    w.current.temp_f = milli(-7.5);
    w.current.temp_c = milli(-21.9);
    w.current.feelslike_c = milli(-35.0);
    w.current.condition.code = 1225;
    w.current.wind_mph = milli(30.2);
    w.current.last_updated = String::from("2017-01-08 18:45");
    let form = FormBuilder::new(&Gender::Female, &Intensity::Race, &w);
    assert_eq!(form.gender, "f");
    assert_eq!(form.temperature, "-10");
    assert_eq!(form.conditions, "pc");
    assert_eq!(form.wind, "hw");
    assert_eq!(form.time_of_day, "dusk");
    assert_eq!(form.intensity, "r");
    assert_eq!(form.feel, "c");
}

#[test]
fn url_joins_the_seven_tokens() {
    let form = FormBuilder::new(&Gender::Male, &Intensity::EasyRun, &weather());
    assert_eq!(
        form.to_url(),
        "http://www.runnersworld.com/what-to-wear?gender=m&temp=70&conditions=c&wind=nw&time=day&intensity=n&feel=ib"
    );
    assert!(form.to_url().starts_with(RUNNERS_WORLD_URL));
}

#[test]
fn url_takes_the_tokens_as_they_are() {
    let form = FormBuilder {
        gender: "f",
        temperature: "zero",
        conditions: "s",
        wind: "lw",
        time_of_day: "night",
        intensity: "h",
        feel: "w",
    };
    assert_eq!(
        form.to_url(),
        "http://www.runnersworld.com/what-to-wear?gender=f&temp=zero&conditions=s&wind=lw&time=night&intensity=h&feel=w"
    );
}
