//! Battery-related decisions on plain values: parsing the power-profile
//! tool's output and formatting remaining-time displays. Running the tool and
//! reading the hardware stay with the shell.

use vstd::prelude::*;

use crate::text::chars_of;
use crate::text::contains_chars;
use crate::text::eq_chars;
use crate::text::push_char;
use crate::text::spec_contains_seq;
use crate::text::spec_decimal;
use crate::text::spec_trim;
use crate::text::string_from_chars;
use crate::text::trim_chars;
use crate::text::append_decimal;

verus! {

/// What can go wrong around battery state and the power-profile tool; the
/// payloads carry the offending command, path or text.
#[derive(Debug, Clone, PartialEq, Eq)]
pub enum BatteryUtilError {
    Io(String),
    BatteryManager(String),
    NoBatteryFound,
    CommandNotFound(String, String),
    CommandFailed(String, String),
    ParseError(String),
    SysfsNotFound(String),
    PermissionDenied(String),
    Utf8Error(String),
}

/// A power profile the system can run under.
#[derive(Debug, Clone, PartialEq, Eq, Hash)]
pub enum PowerProfile {
    PowerSaver,
    Balanced,
    Performance,
    Unknown(String),
}

impl PowerProfile {
    /// Reads a profile name, as the power-profile tool prints it: the three
    /// known names map to their profiles, anything else is kept verbatim.
    pub fn parse(s: &str) -> (r: PowerProfile)
        ensures
            ({
                let t = spec_trim(s@);
                if t == "power-saver"@ {
                    r == PowerProfile::PowerSaver
                } else if t == "balanced"@ {
                    r == PowerProfile::Balanced
                } else if t == "performance"@ {
                    r == PowerProfile::Performance
                } else {
                    r matches PowerProfile::Unknown(u) && u@ == t
                }
            }),
    {
        let cs = chars_of(s);
        let t = trim_chars(&cs);
        if eq_chars(&t, &chars_of("power-saver")) {
            PowerProfile::PowerSaver
        } else if eq_chars(&t, &chars_of("balanced")) {
            PowerProfile::Balanced
        } else if eq_chars(&t, &chars_of("performance")) {
            PowerProfile::Performance
        } else {
            PowerProfile::Unknown(string_from_chars(&t))
        }
    }

    /// The name the power-profile tool knows this profile by.
    pub fn name(&self) -> (r: String)
        ensures
            match self {
                PowerProfile::PowerSaver => r@ == "power-saver"@,
                PowerProfile::Balanced => r@ == "balanced"@,
                PowerProfile::Performance => r@ == "performance"@,
                PowerProfile::Unknown(s) => r@ == s@,
            },
    {
        match self {
            PowerProfile::PowerSaver => String::from_str("power-saver"),
            PowerProfile::Balanced => String::from_str("balanced"),
            PowerProfile::Performance => String::from_str("performance"),
            PowerProfile::Unknown(s) => s.clone(),
        }
    }
}

/// Reads the active profile from the power-profile tool's `get` output (one
/// profile name on a line of its own). The read itself never fails: an
/// unrecognized name is carried as `Unknown`.
pub fn get_active_power_profile(output: &str) -> (r: Result<PowerProfile, BatteryUtilError>)
    ensures
        ({
            let t = spec_trim(output@);
            if t == "power-saver"@ {
                r == Ok::<PowerProfile, BatteryUtilError>(PowerProfile::PowerSaver)
            } else if t == "balanced"@ {
                r == Ok::<PowerProfile, BatteryUtilError>(PowerProfile::Balanced)
            } else if t == "performance"@ {
                r == Ok::<PowerProfile, BatteryUtilError>(PowerProfile::Performance)
            } else {
                r matches Ok(PowerProfile::Unknown(u)) && u@ == t
            }
        }),
{
    Ok(PowerProfile::parse(output))
}

/// The profiles the power-profile tool's `list` output offers, in the fixed
/// saver-balanced-performance order, each present exactly when its name
/// occurs in the output.
pub fn get_available_power_profiles(list_output: &str) -> (r: Vec<PowerProfile>)
    ensures
        r@ == spec_available_profiles(list_output@),
{
    let cs = chars_of(list_output);
    let mut profiles: Vec<PowerProfile> = Vec::new();
    let saver = chars_of("power-saver");
    let balanced = chars_of("balanced");
    let performance = chars_of("performance");
    if contains_chars(&cs, &saver) {
        profiles.push(PowerProfile::PowerSaver);
    }
    if contains_chars(&cs, &balanced) {
        profiles.push(PowerProfile::Balanced);
    }
    if contains_chars(&cs, &performance) {
        profiles.push(PowerProfile::Performance);
    }
    proof {
        assert(profiles@ =~= spec_available_profiles(list_output@));
    }
    profiles
}

/// The profile list `get_available_power_profiles` returns for this output.
pub open spec fn spec_available_profiles(s: Seq<char>) -> Seq<PowerProfile> {
    (if spec_contains_seq(s, "power-saver"@) {
        seq![PowerProfile::PowerSaver]
    } else {
        Seq::<PowerProfile>::empty()
    }) + (if spec_contains_seq(s, "balanced"@) {
        seq![PowerProfile::Balanced]
    } else {
        Seq::<PowerProfile>::empty()
    }) + (if spec_contains_seq(s, "performance"@) {
        seq![PowerProfile::Performance]
    } else {
        Seq::<PowerProfile>::empty()
    })
}

/// How a remaining-time display reads: hours and zero-padded minutes when a
/// full hour remains, bare minutes otherwise, nothing when the time is
/// unknown.
pub open spec fn spec_format_time(total_seconds: u64) -> Seq<char> {
    let hours = total_seconds as int / 3600;
    let minutes = (total_seconds as int % 3600) / 60;
    if hours > 0 {
        spec_decimal(hours) + seq!['h', ' '] + spec_pad2(minutes) + seq!['m']
    } else {
        spec_decimal(minutes) + seq!['m']
    }
}

/// A minute count padded to two digits.
pub open spec fn spec_pad2(m: int) -> Seq<char> {
    if 0 <= m <= 9 {
        seq!['0'] + spec_decimal(m)
    } else {
        spec_decimal(m)
    }
}

/// Formats a remaining time, given in whole seconds, for display.
pub fn format_time_option(duration_seconds: Option<u64>) -> (r: String)
    ensures
        match duration_seconds {
            Some(s) => r@ == spec_format_time(s),
            None => r@ == Seq::<char>::empty(),
        },
{
    match duration_seconds {
        Some(total_seconds) => {
            let hours = total_seconds / 3600;
            let minutes = (total_seconds % 3600) / 60;
            let mut out = String::new();
            if hours > 0 {
                append_decimal(&mut out, hours);
                push_char(&mut out, 'h');
                push_char(&mut out, ' ');
                if minutes <= 9 {
                    push_char(&mut out, '0');
                }
                append_decimal(&mut out, minutes);
                push_char(&mut out, 'm');
                proof {
                    assert(out@ =~= spec_format_time(total_seconds));
                }
            } else {
                append_decimal(&mut out, minutes);
                push_char(&mut out, 'm');
                proof {
                    assert(out@ =~= spec_format_time(total_seconds));
                }
            }
            out
        },
        None => String::new(),
    }
}

} // verus!
