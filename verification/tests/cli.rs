use viktor::cli::{cli, parse_gender, parse_intensity, Args, CliParseError, Gender, Intensity};

fn word(text: &str) -> Option<String> {
    Some(String::from(text))
}

#[test]
fn gender_by_its_word() {
    assert!(matches!(parse_gender("male"), Ok(Gender::Male)));
    assert!(matches!(parse_gender("female"), Ok(Gender::Female)));
}

#[test]
fn gender_of_another_word_is_an_error_with_the_word() {
    match parse_gender("Male") {
        Err(CliParseError::ParseGenderError(w)) => assert_eq!(w, "Male"),
        other => panic!("{:?}", other),
    }
    match parse_gender("") {
        Err(CliParseError::ParseGenderError(w)) => assert_eq!(w, ""),
        other => panic!("{:?}", other),
    }
}

#[test]
fn intensity_by_its_word() {
    assert!(matches!(parse_intensity("easy_run"), Ok(Intensity::EasyRun)));
    assert!(matches!(parse_intensity("long_run"), Ok(Intensity::LongRun)));
    assert!(matches!(parse_intensity("hard_workout"), Ok(Intensity::HardWorkout)));
    assert!(matches!(parse_intensity("race"), Ok(Intensity::Race)));
}

#[test]
fn intensity_of_another_word_is_an_error_with_the_word() {
    match parse_intensity("easy run") {
        Err(CliParseError::ParseIntensityError(w)) => assert_eq!(w, "easy run"),
        other => panic!("{:?}", other),
    }
}

#[test]
fn preferences_from_the_three_values() {
    let args = Args::from_values(word("female"), word("long_run"), word("Marsala")).unwrap();
    assert_eq!(args.gender, Gender::Female);
    assert_eq!(args.intensity, Intensity::LongRun);
    assert_eq!(args.city, word("Marsala"));
    let args = Args::from_values(word("male"), word("race"), None).unwrap();
    assert_eq!(args.gender, Gender::Male);
    assert_eq!(args.intensity, Intensity::Race);
    assert_eq!(args.city, None);
}

#[test]
fn preferences_without_a_gender() {
    match Args::from_values(None, word("race"), None) {
        Err(CliParseError::ParseGenderError(w)) => assert_eq!(w, "Gender is required."),
        other => panic!("{:?}", other),
    }
    match Args::from_values(None, None, None) {
        Err(CliParseError::ParseGenderError(w)) => assert_eq!(w, "Gender is required."),
        other => panic!("{:?}", other),
    }
}

#[test]
fn preferences_without_an_intensity() {
    match Args::from_values(word("male"), None, word("Marsala")) {
        Err(CliParseError::ParseIntensityError(w)) => assert_eq!(w, "Intensity is required."),
        other => panic!("{:?}", other),
    }
}

#[test]
fn preferences_with_a_wrong_gender_fail_before_the_intensity_is_read() {
    match Args::from_values(word("other"), word("stroll"), None) {
        Err(CliParseError::ParseGenderError(w)) => assert_eq!(w, "other"),
        other => panic!("{:?}", other),
    }
}

#[test]
fn preferences_with_a_wrong_intensity() {
    match Args::from_values(word("female"), word("stroll"), None) {
        Err(CliParseError::ParseIntensityError(w)) => assert_eq!(w, "stroll"),
        other => panic!("{:?}", other),
    }
}

#[test]
fn preferences_from_a_command_line_with_long_flags() {
    let matches = cli()
        .get_matches_from_safe(vec![
            "viktor",
            "--gender",
            "male",
            "--intensity",
            "hard_workout",
            "--city",
            "Marsala",
        ])
        .unwrap();
    let args = Args::parse(&matches).unwrap();
    assert_eq!(args.gender, Gender::Male);
    assert_eq!(args.intensity, Intensity::HardWorkout);
    assert_eq!(args.city, word("Marsala"));
}

#[test]
fn preferences_from_a_command_line_with_short_flags() {
    let matches =
        cli().get_matches_from_safe(vec!["viktor", "-g", "female", "-i", "easy_run"]).unwrap();
    let args = Args::parse(&matches).unwrap();
    assert_eq!(args.gender, Gender::Female);
    assert_eq!(args.intensity, Intensity::EasyRun);
    assert_eq!(args.city, None);
}

#[test]
fn preferences_from_a_command_line_with_a_wrong_word() {
    let matches =
        cli().get_matches_from_safe(vec!["viktor", "-g", "female", "-i", "stroll"]).unwrap();
    match Args::parse(&matches) {
        Err(CliParseError::ParseIntensityError(w)) => assert_eq!(w, "stroll"),
        other => panic!("{:?}", other),
    }
}

#[test]
fn command_line_asks_for_gender_and_intensity() {
    assert!(cli().get_matches_from_safe(vec!["viktor"]).is_err());
    assert!(cli().get_matches_from_safe(vec!["viktor", "-g", "male"]).is_err());
    assert!(cli().get_matches_from_safe(vec!["viktor", "-i", "race"]).is_err());
    assert!(cli().get_matches_from_safe(vec!["viktor", "-c", "Marsala"]).is_err());
    assert!(cli().get_matches_from_safe(vec!["viktor", "-i", "race", "-g", "male"]).is_ok());
}

#[test]
fn command_line_says_what_it_is() {
    let mut app = cli();
    assert_eq!(app.get_name(), "Viktor");
    let mut help = Vec::new();
    app.write_long_help(&mut help).unwrap();
    let help = String::from_utf8(help).unwrap();
    assert!(help.contains("0.0.1"));
    assert!(help.contains("Display on iTerm what to wear while running"));
    assert!(help.contains("--gender <male|female>"));
    assert!(help.contains("--intensity <INTENSITY>"));
    assert!(help.contains("--city <CITY>"));
    assert!(help.contains("The city you are in right now."));
}
