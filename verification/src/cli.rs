//! The runner's preferences as given on the command line.

use vstd::prelude::*;
use vstd::string::StringExecFns;
use crate::text::{same_text, text_of};

verus! {

#[verifier::external_type_specification]
#[verifier::external_body]
pub struct ExArgMatches<'a>(clap::ArgMatches<'a>);

#[verifier::external_type_specification]
#[verifier::external_body]
pub struct ExApp<'a, 'b>(clap::App<'a, 'b>) where 'a: 'b;

#[verifier::external_type_specification]
#[verifier::external_body]
pub struct ExArg<'a, 'b>(clap::Arg<'a, 'b>) where 'a: 'b;

/// A flag whose value is missing or names nothing; it holds the word
/// that was given, or what to say where none was.
#[derive(Debug)]
pub enum CliParseError {
    ParseGenderError(String),
    ParseIntensityError(String),
}

/// What the runner asks for: who runs, how hard, and where, unless the
/// place is left to the weather service.
#[derive(Debug)]
pub struct Args {
    pub gender: Gender,
    pub intensity: Intensity,
    pub city: Option<String>,
}

/// For whom the clothes are.
#[derive(Debug, Clone, Copy, PartialEq, Eq, Structural)]
pub enum Gender {
    Male,
    Female,
}

/// The kind of run.
#[derive(Debug, Clone, Copy, PartialEq, Eq, Structural)]
pub enum Intensity {
    EasyRun,
    LongRun,
    HardWorkout,
    Race,
}

/// The gender that a word names.
pub open spec fn gender_of(input: Seq<char>) -> Option<Gender> {
    if input == "male"@ {
        Some(Gender::Male)
    } else if input == "female"@ {
        Some(Gender::Female)
    } else {
        None
    }
}

/// The kind of run that a word names.
pub open spec fn intensity_of(input: Seq<char>) -> Option<Intensity> {
    if input == "easy_run"@ {
        Some(Intensity::EasyRun)
    } else if input == "long_run"@ {
        Some(Intensity::LongRun)
    } else if input == "hard_workout"@ {
        Some(Intensity::HardWorkout)
    } else if input == "race"@ {
        Some(Intensity::Race)
    } else {
        None
    }
}

/// Reads a gender; a word that names none comes back in the error.
pub fn parse_gender(input: &str) -> (parsed: Result<Gender, CliParseError>)
    ensures
        parsed is Ok <==> gender_of(input@) is Some,
        parsed matches Ok(g) ==> gender_of(input@) == Some(g),
        parsed matches Err(e) ==> e matches CliParseError::ParseGenderError(word) && word@
            == input@,
{
    if same_text(input, "male") {
        Ok(Gender::Male)
    } else if same_text(input, "female") {
        Ok(Gender::Female)
    } else {
        Err(CliParseError::ParseGenderError(String::from_str(input)))
    }
}

/// Reads a kind of run; a word that names none comes back in the error.
pub fn parse_intensity(input: &str) -> (parsed: Result<Intensity, CliParseError>)
    ensures
        parsed is Ok <==> intensity_of(input@) is Some,
        parsed matches Ok(i) ==> intensity_of(input@) == Some(i),
        parsed matches Err(e) ==> e matches CliParseError::ParseIntensityError(word) && word@
            == input@,
{
    if same_text(input, "easy_run") {
        Ok(Intensity::EasyRun)
    } else if same_text(input, "long_run") {
        Ok(Intensity::LongRun)
    } else if same_text(input, "hard_workout") {
        Ok(Intensity::HardWorkout)
    } else if same_text(input, "race") {
        Ok(Intensity::Race)
    } else {
        Err(CliParseError::ParseIntensityError(String::from_str(input)))
    }
}

/// Whether `parsed` is what the values of the three flags amount to: the
/// preferences, where gender and intensity are given and name one; else
/// the error of the gender, where it is missing or names none; else that
/// of the intensity. An error holds the word that names nothing, or says
/// that the flag is required.
pub open spec fn args_of(
    gender: Option<Seq<char>>,
    intensity: Option<Seq<char>>,
    city: Option<Seq<char>>,
    parsed: Result<Args, CliParseError>,
) -> bool {
    match parsed {
        Ok(args) => {
            &&& gender is Some && gender_of(gender->0) == Some(args.gender)
            &&& intensity is Some && intensity_of(intensity->0) == Some(args.intensity)
            &&& args.city is Some == city is Some
            &&& city is Some ==> args.city->0@ == city->0
        },
        Err(CliParseError::ParseGenderError(word)) => {
            &&& gender is None ==> word@ == "Gender is required."@
            &&& gender is Some ==> gender_of(gender->0) is None && word@ == gender->0
        },
        Err(CliParseError::ParseIntensityError(word)) => {
            &&& gender is Some && gender_of(gender->0) is Some
            &&& intensity is None ==> word@ == "Intensity is required."@
            &&& intensity is Some ==> intensity_of(intensity->0) is None && word@ == intensity->0
        },
    }
}

/// The first value that the command line gave for the flag `name`, if it
/// gave one.
pub uninterp spec fn matched_value(matches: clap::ArgMatches, name: Seq<char>) -> Option<Seq<char>>;

/// `clap::ArgMatches::value_of_lossy`: the first value of the flag `name`
/// as owned text, `None` where the command line had no such flag. Bytes
/// that are no UTF-8 come out as U+FFFD.
#[verifier::external_body]
fn value_of(matches: &clap::ArgMatches, name: &str) -> (value: Option<String>)
    ensures
        text_of(value) == matched_value(*matches, name@),
{
    matches.value_of_lossy(name).map(|v| v.into_owned())
}

impl Args {
    /// Reads the preferences from the values of the flags `gender`,
    /// `intensity` and `city`.
    pub fn from_values(gender: Option<String>, intensity: Option<String>, city: Option<String>) -> (parsed:
        Result<Args, CliParseError>)
        ensures
            args_of(text_of(gender), text_of(intensity), text_of(city), parsed),
    {
        let gender = match gender {
            None => {
                return Err(CliParseError::ParseGenderError(String::from_str("Gender is required.")));
            },
            Some(word) => match parse_gender(word.as_str()) {
                Ok(g) => g,
                Err(e) => {
                    return Err(e);
                },
            },
        };
        let intensity = match intensity {
            None => {
                return Err(
                    CliParseError::ParseIntensityError(String::from_str("Intensity is required.")),
                );
            },
            Some(word) => match parse_intensity(word.as_str()) {
                Ok(i) => i,
                Err(e) => {
                    return Err(e);
                },
            },
        };
        Ok(Args { gender, intensity, city })
    }

    /// Reads the preferences from a parsed command line.
    pub fn parse(matches: &clap::ArgMatches) -> (parsed: Result<Args, CliParseError>)
        ensures
            args_of(
                matched_value(*matches, "gender"@),
                matched_value(*matches, "intensity"@),
                matched_value(*matches, "city"@),
                parsed,
            ),
    {
        Args::from_values(
            value_of(matches, "gender"),
            value_of(matches, "intensity"),
            value_of(matches, "city"),
        )
    }
}

/// An option of the command line as it is declared: the name by which its
/// value is asked for, the long and the short flag without their dashes,
/// the name of the value and the help as the usage shows them, and whether
/// the option must be given.
pub struct OptionDecl {
    pub name: Seq<char>,
    pub long: Seq<char>,
    pub short: Seq<char>,
    pub value_name: Seq<char>,
    pub help: Seq<char>,
    pub required: bool,
}

/// What a command line says of itself: name, version, author and purpose.
pub struct About {
    pub name: Seq<char>,
    pub version: Seq<char>,
    pub author: Seq<char>,
    pub about: Seq<char>,
}

/// The declaration of `arg`, where `arg` is an option that takes one value
/// and has nothing set but what a declaration holds.
pub uninterp spec fn option_decl(arg: clap::Arg) -> Option<OptionDecl>;

/// The options that `app` takes, in the order of their declaration.
pub uninterp spec fn app_options(app: clap::App) -> Seq<OptionDecl>;

/// What `app` says of itself.
pub uninterp spec fn app_about(app: clap::App) -> About;

/// The declarations of options.
pub open spec fn option_decls(args: Seq<clap::Arg>) -> Seq<OptionDecl> {
    args.map_values(|a: clap::Arg| option_decl(a)->0)
}

/// No two options share their name, their long flag or their short flag.
pub open spec fn distinct_options(decls: Seq<OptionDecl>) -> bool {
    forall|i: int, j: int|
        0 <= i < j < decls.len() ==> {
            &&& (#[trigger] decls[i]).name != (#[trigger] decls[j]).name
            &&& decls[i].long != decls[j].long
            &&& decls[i].short != decls[j].short
        }
}

/// `clap::Arg::with_name`, then `long`, `short`, `value_name`, `help` and
/// `required` on what it gives: an option that holds these settings and no
/// others. `clap` drops dashes in front of a flag and keeps the first
/// character of a short one, so the flags are asked to be plain.
#[verifier::external_body]
fn option_arg(
    name: &'static str,
    long: &'static str,
    short: &'static str,
    value_name: &'static str,
    help: &'static str,
    required: bool,
) -> (arg: clap::Arg<'static, 'static>)
    requires
        long@.len() > 0 && long@[0] != '-',
        short@.len() == 1 && short@[0] != '-',
    ensures
        option_decl(arg) == Some(
            OptionDecl {
                name: name@,
                long: long@,
                short: short@,
                value_name: value_name@,
                help: help@,
                required,
            },
        ),
{
    clap::Arg::with_name(name).long(long).short(short).value_name(value_name).help(help).required(
        required,
    )
}

/// `clap::App::new`, then `version`, `author`, `about` and `args` on what
/// it gives: a command line that takes these options, in this order. Where
/// two options share a name or a flag `clap` panics.
#[verifier::external_body]
fn app_with(
    name: &'static str,
    version: &'static str,
    author: &'static str,
    about: &'static str,
    args: &Vec<clap::Arg<'static, 'static>>,
) -> (app: clap::App<'static, 'static>)
    requires
        forall|i: int| 0 <= i < args.len() ==> option_decl(#[trigger] args[i]) is Some,
        distinct_options(option_decls(args@)),
    ensures
        app_about(app) == (About { name: name@, version: version@, author: author@, about: about@ }),
        app_options(app) == option_decls(args@),
{
    clap::App::new(name).version(version).author(author).about(about).args(args)
}

/// The options of the command line: the city, which may be left out, and
/// the intensity and the gender, which may not.
pub open spec fn cli_options() -> Seq<OptionDecl> {
    seq![
        OptionDecl {
            name: "city"@,
            long: "city"@,
            short: "c"@,
            value_name: "CITY"@,
            help: "The city you are in right now."@,
            required: false,
        },
        OptionDecl {
            name: "intensity"@,
            long: "intensity"@,
            short: "i"@,
            value_name: "INTENSITY"@,
            help: "easy run|long run|hard workout|race"@,
            required: true,
        },
        OptionDecl {
            name: "gender"@,
            long: "gender"@,
            short: "g"@,
            value_name: "male|female"@,
            help: "Your gender ('male' or 'female')"@,
            required: true,
        },
    ]
}

/// The command line of the program.
pub fn cli() -> (app: clap::App<'static, 'static>)
    ensures
        app_about(app) == (About {
            name: "Viktor"@,
            version: "0.0.1"@,
            author: "Alfredo Di Napoli"@,
            about: "Display on iTerm what to wear while running"@,
        }),
        app_options(app) == cli_options(),
{
    proof {
        reveal_strlit("gender");
        reveal_strlit("g");
        reveal_strlit("city");
        reveal_strlit("c");
        reveal_strlit("intensity");
        reveal_strlit("i");
    }
    let gender_arg = option_arg(
        "gender",
        "gender",
        "g",
        "male|female",
        "Your gender ('male' or 'female')",
        true,
    );
    let city_arg = option_arg("city", "city", "c", "CITY", "The city you are in right now.", false);
    let intensity_arg = option_arg(
        "intensity",
        "intensity",
        "i",
        "INTENSITY",
        "easy run|long run|hard workout|race",
        true,
    );
    let mut args: Vec<clap::Arg<'static, 'static>> = Vec::new();
    args.push(city_arg);
    args.push(intensity_arg);
    args.push(gender_arg);
    assert(option_decls(args@) =~= cli_options());
    assert(distinct_options(cli_options())) by {
        assert("city"@.len() != "intensity"@.len());
        assert("city"@.len() != "gender"@.len());
        assert("intensity"@.len() != "gender"@.len());
        assert("c"@[0] != "i"@[0]);
        assert("c"@[0] != "g"@[0]);
        assert("i"@[0] != "g"@[0]);
    }
    app_with(
        "Viktor",
        "0.0.1",
        "Alfredo Di Napoli",
        "Display on iTerm what to wear while running",
        &args,
    )
}

} // verus!
