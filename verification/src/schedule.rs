//! Building the scheduler entries for automatic rotation: a cron line for
//! the POSIX scheduler and a `schtasks` command line for the Windows one.
//! Only the text is built here; registering it is the boundary's work.

use vstd::prelude::*;
use vstd::string::StringExecFns;

use crate::models::{DwConfig, DwOperationExecutionResult, DwPreset};

verus! {

/// The decimal digit `d` as a character.
pub open spec fn digit_char(d: int) -> char {
    if d == 0 {
        '0'
    } else if d == 1 {
        '1'
    } else if d == 2 {
        '2'
    } else if d == 3 {
        '3'
    } else if d == 4 {
        '4'
    } else if d == 5 {
        '5'
    } else if d == 6 {
        '6'
    } else if d == 7 {
        '7'
    } else if d == 8 {
        '8'
    } else {
        '9'
    }
}

/// Decimal notation of a byte, without leading zeros.
pub open spec fn dec_u8(n: u8) -> Seq<char> {
    if n < 10 {
        seq![digit_char(n as int)]
    } else if n < 100 {
        seq![digit_char(n as int / 10), digit_char(n as int % 10)]
    } else {
        seq![
            digit_char(n as int / 100),
            digit_char((n as int / 10) % 10),
            digit_char(n as int % 10),
        ]
    }
}

/// One decimal digit as text.
fn digit_str(d: u8) -> (r: &'static str)
    requires
        d < 10,
    ensures
        r@ == seq![digit_char(d as int)],
{
    if d == 0 {
        proof {
            reveal_strlit("0");
            assert("0"@ =~= seq![digit_char(0int)]);
        }
        "0"
    } else if d == 1 {
        proof {
            reveal_strlit("1");
            assert("1"@ =~= seq![digit_char(1int)]);
        }
        "1"
    } else if d == 2 {
        proof {
            reveal_strlit("2");
            assert("2"@ =~= seq![digit_char(2int)]);
        }
        "2"
    } else if d == 3 {
        proof {
            reveal_strlit("3");
            assert("3"@ =~= seq![digit_char(3int)]);
        }
        "3"
    } else if d == 4 {
        proof {
            reveal_strlit("4");
            assert("4"@ =~= seq![digit_char(4int)]);
        }
        "4"
    } else if d == 5 {
        proof {
            reveal_strlit("5");
            assert("5"@ =~= seq![digit_char(5int)]);
        }
        "5"
    } else if d == 6 {
        proof {
            reveal_strlit("6");
            assert("6"@ =~= seq![digit_char(6int)]);
        }
        "6"
    } else if d == 7 {
        proof {
            reveal_strlit("7");
            assert("7"@ =~= seq![digit_char(7int)]);
        }
        "7"
    } else if d == 8 {
        proof {
            reveal_strlit("8");
            assert("8"@ =~= seq![digit_char(8int)]);
        }
        "8"
    } else {
        proof {
            reveal_strlit("9");
            assert("9"@ =~= seq![digit_char(9int)]);
        }
        "9"
    }
}

/// A byte in decimal notation.
fn dec_str(n: u8) -> (r: String)
    ensures
        r@ == dec_u8(n),
{
    let mut s = String::new();
    if n >= 100 {
        s.append(digit_str(n / 100));
        s.append(digit_str((n / 10) % 10));
        s.append(digit_str(n % 10));
    } else if n >= 10 {
        s.append(digit_str(n / 10));
        s.append(digit_str(n % 10));
    } else {
        s.append(digit_str(n));
    }
    proof {
        assert(s@ =~= dec_u8(n));
    }
    s
}

/// The cron line that runs `action` every `interval` units of `preset`.
pub open spec fn cron_string_view(preset: DwPreset, interval: u8, action: Seq<char>) -> Seq<char> {
    match preset {
        DwPreset::HOUR => "0 */"@ + dec_u8(interval) + " * * * "@ + action,
        DwPreset::MINUTE => "*/"@ + dec_u8(interval) + " * * * * "@ + action,
        DwPreset::DAY => "0 0 */"@ + dec_u8(interval) + " * * "@ + action,
    }
}

/// The `schtasks` schedule unit for a preset.
pub open spec fn schtasks_unit_view(preset: DwPreset) -> Seq<char> {
    match preset {
        DwPreset::HOUR => "HOURLY"@,
        DwPreset::MINUTE => "MINUTE"@,
        DwPreset::DAY => "DAILY"@,
    }
}

/// The `schtasks` command that registers `action` as task `task` every
/// `interval` units of `preset`.
pub open spec fn schtasks_command_view(
    preset: DwPreset,
    interval: u8,
    task: Seq<char>,
    action: Seq<char>,
) -> Seq<char> {
    "schtasks /create /tn "@ + task + " /tr "@ + action + " /sc "@ + schtasks_unit_view(preset)
        + " /mo "@ + dec_u8(interval) + " /IT"@
}

/// Build the cron line for `action` at the given preset and interval.
pub fn generate_cron_string(preset: DwPreset, interval: u8, action: &str) -> (r: String)
    ensures
        r@ == cron_string_view(preset, interval, action@),
{
    let mut s = String::new();
    match preset {
        DwPreset::HOUR => {
            s.append("0 */");
            s.append(dec_str(interval).as_str());
            s.append(" * * * ");
            s.append(action);
        },
        DwPreset::MINUTE => {
            s.append("*/");
            s.append(dec_str(interval).as_str());
            s.append(" * * * * ");
            s.append(action);
        },
        DwPreset::DAY => {
            s.append("0 0 */");
            s.append(dec_str(interval).as_str());
            s.append(" * * ");
            s.append(action);
        },
    }
    proof {
        assert(s@ =~= cron_string_view(preset, interval, action@));
    }
    s
}

/// Build the `schtasks` command for `action` as task `task_name` at the
/// given preset and interval.
pub fn generate_schtasks_command(preset: DwPreset, interval: u8, task_name: &str, action: &str) -> (r:
    String)
    ensures
        r@ == schtasks_command_view(preset, interval, task_name@, action@),
{
    let mut s = String::new();
    s.append("schtasks /create /tn ");
    s.append(task_name);
    s.append(" /tr ");
    s.append(action);
    s.append(" /sc ");
    match preset {
        DwPreset::HOUR => {
            s.append("HOURLY");
        },
        DwPreset::MINUTE => {
            s.append("MINUTE");
        },
        DwPreset::DAY => {
            s.append("DAILY");
        },
    }
    s.append(" /mo ");
    s.append(dec_str(interval).as_str());
    s.append(" /IT");
    proof {
        assert(s@ =~= schtasks_command_view(preset, interval, task_name@, action@));
    }
    s
}

/// Build the scheduler entry that runs `action` at the configured preset
/// and interval.  This is the cron flavour used by the POSIX scheduler
/// integration; the `schtasks` builder stands beside it for the Windows
/// one.
pub fn generate_schedule(preset: DwPreset, interval: u8, task_name: &str, action: &str) -> (r:
    String)
    ensures
        r@ == cron_string_view(preset, interval, action@),
{
    let _ = task_name;
    generate_cron_string(preset, interval, action)
}

/// The scheduler entry that the `on` operation registers for the loaded
/// configuration.  The day preset is rejected with exit code `33`: the
/// cron integration here is minute/hour oriented, and registering a
/// day-based line is documented as unsupported.
pub fn rotation_entry(config: &DwConfig, action: &str) -> (r: Result<
    String,
    DwOperationExecutionResult,
>)
    ensures
        config.time_config.preset == DwPreset::DAY ==> (r matches Err(e) && !e.success
            && e.exit_code == 33 && (e.message matches Some(m) && m@ == "Unsupported preset"@)),
        config.time_config.preset != DwPreset::DAY ==> (r matches Ok(s) && s@ == cron_string_view(
            config.time_config.preset,
            config.time_config.interval,
            action@,
        )),
{
    match config.time_config.preset {
        DwPreset::DAY => Err(
            DwOperationExecutionResult {
                success: false,
                exit_code: 33,
                message: Some("Unsupported preset".to_owned()),
            },
        ),
        _ => Ok(
            generate_cron_string(config.time_config.preset, config.time_config.interval, action),
        ),
    }
}

} // verus!
