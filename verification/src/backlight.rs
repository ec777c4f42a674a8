//! External monitor brightness through `ddcutil`, for a two-monitor setup.
//!
//! `backlight 10` sets both displays to 10; `backlight 10 25` sets display 1
//! to 10 and display 2 to 25. Brightness is an integer from 0 to 100.

use vstd::prelude::*;
use crate::luks::{argv_view, push_arg};
use crate::numbers::{decimal, decimal_string, parse_u8, parse_u8_spec, push_decimal};
use crate::paths::{file_name, file_name_range};
use crate::text::{push_str, string_of, to_chars};

verus! {

/// Minimum screen brightness.
pub const MIN_BRIGHTNESS: u8 = 0;

/// Maximum screen brightness.
pub const MAX_BRIGHTNESS: u8 = 100;

/// Why a brightness argument was refused.
#[derive(Debug)]
pub enum BrightnessError {
    /// Not an unsigned byte.
    NotAnInteger { arg_name: String },
    /// A byte above the maximum brightness.
    OutOfRange { arg_name: String },
}

impl BrightnessError {
    /// The message shown for the error.
    pub open spec fn text(&self) -> Seq<char> {
        match self {
            BrightnessError::NotAnInteger { arg_name } => arg_name@
                + " must be an integer between "@ + decimal(MIN_BRIGHTNESS as nat) + " and "@
                + decimal(MAX_BRIGHTNESS as nat),
            BrightnessError::OutOfRange { arg_name } => arg_name@ + " must be between "@ + decimal(
                MIN_BRIGHTNESS as nat,
            ) + " and "@ + decimal(MAX_BRIGHTNESS as nat),
        }
    }

    /// The message shown for the error.
    pub fn message(&self) -> (s: String)
        ensures
            s@ == self.text(),
    {
        let mut s = String::new();
        match self {
            BrightnessError::NotAnInteger { arg_name } => {
                push_str(&mut s, arg_name.as_str());
                push_str(&mut s, " must be an integer between ");
            },
            BrightnessError::OutOfRange { arg_name } => {
                push_str(&mut s, arg_name.as_str());
                push_str(&mut s, " must be between ");
            },
        }
        push_decimal(&mut s, MIN_BRIGHTNESS as u64);
        push_str(&mut s, " and ");
        push_decimal(&mut s, MAX_BRIGHTNESS as u64);
        assert(s@ =~= self.text());
        s
    }
}

/// What `parse_brightness` gives for an argument: the byte it writes when
/// that is at most the maximum; otherwise which check failed.
pub open spec fn brightness_of(raw: Seq<char>) -> Result<u8, bool> {
    match parse_u8_spec(raw) {
        None => Err(false),
        Some(v) => if MIN_BRIGHTNESS <= v && v <= MAX_BRIGHTNESS {
            Ok(v)
        } else {
            Err(true)
        },
    }
}

/// Reads a brightness argument: an integer from 0 to 100.
pub fn parse_brightness(raw: &str, arg_name: &str) -> (r: Result<u8, BrightnessError>)
    ensures
        match brightness_of(raw@) {
            Ok(v) => r == Ok::<u8, BrightnessError>(v),
            Err(out_of_range) => match r {
                Err(BrightnessError::NotAnInteger { arg_name: a }) => !out_of_range && a@
                    == arg_name@,
                Err(BrightnessError::OutOfRange { arg_name: a }) => out_of_range && a@
                    == arg_name@,
                Ok(_) => false,
            },
        },
{
    let mut name = String::new();
    push_str(&mut name, arg_name);
    match parse_u8(raw) {
        None => Err(BrightnessError::NotAnInteger { arg_name: name }),
        Some(v) => {
            if MIN_BRIGHTNESS <= v && v <= MAX_BRIGHTNESS {
                Ok(v)
            } else {
                Err(BrightnessError::OutOfRange { arg_name: name })
            }
        },
    }
}

/// Why setting the brightness failed.
#[derive(Debug)]
pub enum BacklightError {
    /// Neither one nor two brightness arguments.
    ArgumentCount,
    Brightness(BrightnessError),
    /// A `ddcutil` run reported failure.
    CommandFailed,
}

impl BacklightError {
    pub open spec fn text(&self) -> Seq<char> {
        match self {
            BacklightError::ArgumentCount => "invalid argument count"@,
            BacklightError::Brightness(e) => e.text(),
            BacklightError::CommandFailed => "one or more ddcutil commands failed"@,
        }
    }

    /// The message shown for the error.
    pub fn message(&self) -> (s: String)
        ensures
            s@ == self.text(),
    {
        match self {
            BacklightError::ArgumentCount => {
                let mut s = String::new();
                push_str(&mut s, "invalid argument count");
                s
            },
            BacklightError::Brightness(e) => e.message(),
            BacklightError::CommandFailed => {
                let mut s = String::new();
                push_str(&mut s, "one or more ddcutil commands failed");
                s
            },
        }
    }
}

/// The two brightness values asked for by the arguments after the program
/// name: one value for both displays, or one per display.
pub fn brightness_args(args: &Vec<String>) -> (r: Result<(u8, u8), BacklightError>)
    ensures
        (args@.len() == 0 || args@.len() > 2) ==> (r matches Err(BacklightError::ArgumentCount)),
        (1 <= args@.len() <= 2) ==> match brightness_of(args@[0]@) {
            Err(_) => r matches Err(BacklightError::Brightness(_)),
            Ok(b1) => if args@.len() == 1 {
                r == Ok::<(u8, u8), BacklightError>((b1, b1))
            } else {
                match brightness_of(args@[1]@) {
                    Ok(b2) => r == Ok::<(u8, u8), BacklightError>((b1, b2)),
                    Err(_) => r matches Err(BacklightError::Brightness(_)),
                }
            },
        },
{
    if args.len() == 0 || args.len() > 2 {
        return Err(BacklightError::ArgumentCount);
    }
    let b1 = match parse_brightness(args[0].as_str(), "brightness") {
        Ok(b) => b,
        Err(e) => return Err(BacklightError::Brightness(e)),
    };
    let b2 = if args.len() == 2 {
        match parse_brightness(args[1].as_str(), "brightness") {
            Ok(b) => b,
            Err(e) => return Err(BacklightError::Brightness(e)),
        }
    } else {
        b1
    };
    Ok((b1, b2))
}

/// Display 2 follows display 1 unless it has a value of its own.
pub fn brightness_pair(brightness1: u8, brightness2: Option<u8>) -> (r: (u8, u8))
    ensures
        r == (brightness1, match brightness2 {
            Some(b) => b,
            None => brightness1,
        }),
{
    match brightness2 {
        Some(b) => (brightness1, b),
        None => (brightness1, brightness1),
    }
}

/// The `ddcutil` command line that sets VCP feature 10 (brightness) on a display.
pub open spec fn ddcutil_argv(display: Seq<char>, brightness: Seq<char>) -> Seq<Seq<char>> {
    seq![
        "ddcutil"@,
        "--display"@,
        display,
        "--skip-ddc-checks"@,
        "--enable-dynamic-sleep"@,
        "setvcp"@,
        "10"@,
        brightness,
    ]
}

/// The command line that sets a display's brightness (program first).
pub fn ddcutil_args(display: &str, brightness: &str) -> (argv: Vec<String>)
    ensures
        argv_view(argv@) == ddcutil_argv(display@, brightness@),
{
    let mut argv: Vec<String> = Vec::new();
    push_arg(&mut argv, "ddcutil");
    push_arg(&mut argv, "--display");
    push_arg(&mut argv, display);
    push_arg(&mut argv, "--skip-ddc-checks");
    push_arg(&mut argv, "--enable-dynamic-sleep");
    push_arg(&mut argv, "setvcp");
    push_arg(&mut argv, "10");
    push_arg(&mut argv, brightness);
    assert(argv_view(argv@) =~= ddcutil_argv(display@, brightness@));
    argv
}

/// The two `ddcutil` runs that set display 1 to `b1` and display 2 to `b2`.
pub fn set_brightness(b1: u8, b2: u8) -> (r: (Vec<String>, Vec<String>))
    ensures
        argv_view(r.0@) == ddcutil_argv("1"@, decimal(b1 as nat)),
        argv_view(r.1@) == ddcutil_argv("2"@, decimal(b2 as nat)),
{
    let brightness_display_1 = decimal_string(b1 as u64);
    let brightness_display_2 = decimal_string(b2 as u64);
    let display_1 = ddcutil_args("1", brightness_display_1.as_str());
    let display_2 = ddcutil_args("2", brightness_display_2.as_str());
    (display_1, display_2)
}

/// Both `ddcutil` runs must succeed.
pub fn ddcutil_outcome(status_1_ok: bool, status_2_ok: bool) -> (r: Result<(), BacklightError>)
    ensures
        (status_1_ok && status_2_ok) ==> r is Ok,
        !(status_1_ok && status_2_ok) ==> (r matches Err(BacklightError::CommandFailed)),
{
    if !status_1_ok || !status_2_ok {
        return Err(BacklightError::CommandFailed);
    }
    Ok(())
}

/// The name the program was started as: the file name of its path, or `backlight`.
pub fn program_name(argv0: Option<&str>) -> (r: String)
    ensures
        match argv0 {
            Some(p) => match file_name(p@) {
                Some(n) => r@ == n,
                None => r@ == "backlight"@,
            },
            None => r@ == "backlight"@,
        },
{
    if let Some(p) = argv0 {
        let v = to_chars(p);
        if let Some((lo, hi)) = file_name_range(&v) {
            return string_of(&v, lo, hi);
        }
    }
    let mut r = String::new();
    push_str(&mut r, "backlight");
    r
}

/// The usage text printed for a wrong number of arguments.
pub open spec fn usage_lines(program: Seq<char>) -> Seq<Seq<char>> {
    seq![
        "Usage:"@,
        "  "@ + program
            + " <brightness 0-100>                 # Set both displays to same brightness"@,
        "  "@ + program
            + " <brightness1 0-100> <brightness2 0-100>  # Set each display individually"@,
    ]
}

/// The usage text printed for a wrong number of arguments, line by line.
pub fn usage(program: &str) -> (lines: Vec<String>)
    ensures
        argv_view(lines@) == usage_lines(program@),
{
    let mut lines: Vec<String> = Vec::new();
    push_arg(&mut lines, "Usage:");
    let mut second = String::new();
    push_str(&mut second, "  ");
    push_str(&mut second, program);
    push_str(
        &mut second,
        " <brightness 0-100>                 # Set both displays to same brightness",
    );
    push_arg(&mut lines, second.as_str());
    let mut third = String::new();
    push_str(&mut third, "  ");
    push_str(&mut third, program);
    push_str(
        &mut third,
        " <brightness1 0-100> <brightness2 0-100>  # Set each display individually",
    );
    push_arg(&mut lines, third.as_str());
    assert(argv_view(lines@) =~= usage_lines(program@));
    lines
}

/// Reading back: every brightness from 0 to 100, written in decimal, is
/// accepted as itself; every larger byte value is refused as out of range.
pub proof fn lemma_brightness_reads_back(n: u8)
    ensures
        n <= MAX_BRIGHTNESS ==> brightness_of(decimal(n as nat)) == Ok::<u8, bool>(n),
        n > MAX_BRIGHTNESS ==> brightness_of(decimal(n as nat)) == Err::<u8, bool>(true),
{
    crate::numbers::lemma_parse_u8_decimal(n);
}

} // verus!
