//! The command operations that work on a loaded configuration, and the
//! result mapping for the operations whose work is done by a collaborator
//! (applying a wallpaper, writing files).  The caller loads and persists the
//! configuration; everything here is pure computation on it.

use vstd::prelude::*;

use crate::models::{
    DwConfig, DwError, DwOperationExecutionResult, DwPreset, DwTimeConfig, DwWallpaperCandidate,
    error_message_view, error_result, success_result,
};
use crate::navigator::{find_image, index_of_path, lemma_find_image};
use crate::platform::now_timestamp;
use crate::text::str_eq;

verus! {

/// The configuration seeded by the init operation: no current wallpaper, a
/// one-day rotation interval, and no candidates.  The timestamp is taken
/// from the clock.  Init itself is idempotent at the boundary: it only
/// writes this value when no configuration file exists yet.
pub fn initial_config() -> (c: DwConfig)
    ensures
        c.actual_wallpaper.index == 0,
        c.actual_wallpaper.path@ == Seq::<char>::empty(),
        !c.actual_wallpaper.child,
        c.actual_wallpaper.sub_index == 0,
        c.time_config.preset == DwPreset::DAY,
        c.time_config.interval == 1,
        c.candidates@.len() == 0,
{
    DwConfig {
        actual_wallpaper: DwWallpaperCandidate {
            index: 0,
            path: String::new(),
            date_set: now_timestamp(),
            child: false,
            sub_index: 0,
        },
        time_config: DwTimeConfig { preset: DwPreset::DAY, interval: 1 },
        candidates: Vec::new(),
    }
}

/// Result of setting a specific wallpaper: the applier's outcome, mapped to
/// the operation result (failure keeps the applier's message, with exit
/// code `1`).
pub fn set_wallpaper(apply: Result<(), String>) -> (r: DwOperationExecutionResult)
    ensures
        apply is Ok ==> r.success && r.exit_code == 0 && r.message is None,
        apply matches Err(e) ==> !r.success && r.exit_code == 1 && (r.message matches Some(m) && m@
            == e@),
{
    match apply {
        Ok(()) => success_result(),
        Err(e) => DwOperationExecutionResult { success: false, exit_code: 1, message: Some(e) },
    }
}

/// Result of the init operation: the boundary's outcome of seeding the
/// configuration file, mapped to the operation result (exit code `3` on
/// failure).
pub fn perform_init(outcome: Result<(), String>) -> (r: DwOperationExecutionResult)
    ensures
        outcome is Ok ==> r.success && r.exit_code == 0 && r.message is None,
        outcome matches Err(e) ==> !r.success && r.exit_code == 3 && (r.message matches Some(m)
            && m@ == e@),
{
    match outcome {
        Ok(()) => success_result(),
        Err(e) => DwOperationExecutionResult { success: false, exit_code: 3, message: Some(e) },
    }
}

/// Result of replacing the configuration file: the boundary's outcome of
/// validating and copying the new file, mapped to the operation result
/// (exit code `4` on failure).
pub fn set_config(outcome: Result<(), String>) -> (r: DwOperationExecutionResult)
    ensures
        outcome is Ok ==> r.success && r.exit_code == 0 && r.message is None,
        outcome matches Err(e) ==> !r.success && r.exit_code == 4 && (r.message matches Some(m)
            && m@ == e@),
{
    match outcome {
        Ok(()) => success_result(),
        Err(e) => DwOperationExecutionResult { success: false, exit_code: 4, message: Some(e) },
    }
}

/// Add a wallpaper or directory to the cycle.
///
/// The disk decides whether the path qualifies, and the probes depend on it
/// alone (existence, directory test, and the content-sniffed MIME type,
/// decided by [`crate::text::mime_is_image`]); the sniffer can abort on an
/// unreadable file, so the boundary performs them and hands their outcomes
/// in, as it does for directory listings.  A missing path is rejected with
/// exit code `5`, a path that is neither an image nor a directory with exit
/// code `6`; otherwise the path is appended to the candidate list and
/// nothing else changes.
pub fn add_wallpaper(
    config: &mut DwConfig,
    path: &String,
    exists: bool,
    is_image: bool,
    is_dir: bool,
) -> (r: DwOperationExecutionResult)
    ensures
        !exists ==> {
            &&& !r.success
            &&& r.exit_code == 5
            &&& (r.message matches Some(m) && m@ == error_message_view(DwError::PathNotFound))
            &&& *final(config) == *old(config)
        },
        exists && !is_image && !is_dir ==> {
            &&& !r.success
            &&& r.exit_code == 6
            &&& (r.message matches Some(m) && m@ == error_message_view(DwError::NotAnImage))
            &&& *final(config) == *old(config)
        },
        exists && (is_image || is_dir) ==> {
            &&& r.success
            &&& r.exit_code == 0
            &&& r.message is None
            &&& final(config).candidates@ == old(config).candidates@.push(*path)
            &&& final(config).candidates.deep_view() == old(config).candidates.deep_view().push(
                path@,
            )
            &&& final(config).actual_wallpaper == old(config).actual_wallpaper
            &&& final(config).time_config == old(config).time_config
        },
{
    if !exists {
        return error_result(DwError::PathNotFound);
    }
    if !is_image && !is_dir {
        return error_result(DwError::NotAnImage);
    }
    let ghost dv0 = config.candidates.deep_view();
    config.candidates.push(path.clone());
    proof {
        assert(config.candidates.deep_view() =~= dv0.push(path@));
    }
    success_result()
}

/// Remove the first candidate equal to `path` from the cycle; exit code `8`
/// when the candidate list does not hold it, and then nothing changes.
pub fn rm_wallpaper(config: &mut DwConfig, path: &String) -> (r: DwOperationExecutionResult)
    ensures
        ({
            let f = find_image(old(config).candidates.deep_view(), path@);
            &&& f >= 0 ==> {
                &&& r.success
                &&& r.exit_code == 0
                &&& r.message is None
                &&& final(config).candidates.deep_view() == old(
                    config,
                ).candidates.deep_view().remove(f)
                &&& final(config).actual_wallpaper == old(config).actual_wallpaper
                &&& final(config).time_config == old(config).time_config
            }
            &&& f < 0 ==> {
                &&& !r.success
                &&& r.exit_code == 8
                &&& (r.message matches Some(m) && m@ == "Wallpaper not found in config"@)
                &&& *final(config) == *old(config)
            }
        }),
{
    let ghost dv0 = config.candidates.deep_view();
    proof {
        lemma_find_image(dv0, path@);
    }
    match index_of_path(&config.candidates, path) {
        Some(i) => {
            config.candidates.remove(i);
            proof {
                let dv1 = config.candidates.deep_view();
                assert forall|k: int| 0 <= k < dv1.len() implies dv1[k] == dv0.remove(i as int)[k]
                by {
                    if k < i as int {
                        assert(config.candidates@[k] == old(config).candidates@[k]);
                    } else {
                        assert(config.candidates@[k] == old(config).candidates@[k + 1]);
                    }
                }
                assert(dv1 =~= dv0.remove(i as int));
            }
            success_result()
        },
        None => DwOperationExecutionResult {
            success: false,
            exit_code: 8,
            message: Some("Wallpaper not found in config".to_owned()),
        },
    }
}

/// Set the rotation preset, and the interval when one is given.  The preset
/// names accepted are exactly `minute`, `hour` and `day`, and the interval
/// must be positive; anything else is rejected with exit code `10` and the
/// configuration is untouched.
pub fn set_preset(config: &mut DwConfig, preset: &str, interval: Option<u8>) -> (r:
    DwOperationExecutionResult)
    ensures
        ({
            let p = preset@;
            let valid_preset = p == "minute"@ || p == "hour"@ || p == "day"@;
            let valid_interval = match interval {
                Some(iv) => iv > 0,
                None => true,
            };
            if valid_preset && valid_interval {
                &&& r.success
                &&& r.exit_code == 0
                &&& r.message is None
                &&& final(config).time_config.preset == (if p == "minute"@ {
                    DwPreset::MINUTE
                } else if p == "hour"@ {
                    DwPreset::HOUR
                } else {
                    DwPreset::DAY
                })
                &&& (match interval {
                    Some(iv) => final(config).time_config.interval == iv,
                    None => final(config).time_config.interval == old(config).time_config.interval,
                })
                &&& final(config).actual_wallpaper == old(config).actual_wallpaper
                &&& final(config).candidates == old(config).candidates
            } else {
                &&& !r.success
                &&& r.exit_code == 10
                &&& (r.message matches Some(m) && m@ == (if !valid_preset {
                    "Invalid preset"@
                } else {
                    "Invalid interval"@
                }))
                &&& *final(config) == *old(config)
            }
        }),
{
    let enum_preset: DwPreset;
    if str_eq(preset, "minute") {
        enum_preset = DwPreset::MINUTE;
    } else if str_eq(preset, "hour") {
        enum_preset = DwPreset::HOUR;
    } else if str_eq(preset, "day") {
        enum_preset = DwPreset::DAY;
    } else {
        return DwOperationExecutionResult {
            success: false,
            exit_code: 10,
            message: Some("Invalid preset".to_owned()),
        };
    }
    match interval {
        Some(iv) => {
            if iv == 0 {
                return DwOperationExecutionResult {
                    success: false,
                    exit_code: 10,
                    message: Some("Invalid interval".to_owned()),
                };
            }
            config.time_config.preset = enum_preset;
            config.time_config.interval = iv;
        },
        None => {
            config.time_config.preset = enum_preset;
        },
    }
    success_result()
}

/// Round-trip law of the candidate list: adding a path that the list does
/// not yet hold appends it at the end, and removing that same path then
/// removes exactly the appended entry, restoring the list's prior contents
/// and order.
pub proof fn lemma_add_then_remove(cands: Seq<Seq<char>>, path: Seq<char>)
    requires
        forall|k: int| 0 <= k < cands.len() ==> cands[k] != path,
    ensures
        find_image(cands.push(path), path) == cands.len(),
        cands.push(path).remove(cands.len() as int) == cands,
{
    let added = cands.push(path);
    lemma_find_image(added, path);
    let f = find_image(added, path);
    assert(added[cands.len() as int] == path);
    assert(f >= 0);
    if f < cands.len() {
        assert(added[f] == cands[f]);
        assert(false);
    }
    assert(f == cands.len());
    assert(added.remove(cands.len() as int) =~= cands);
}

} // verus!
