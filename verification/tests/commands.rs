use daily_wallpapers::models::{
    Cli, Commands, DwConfig, DwPreset, DwTimeConfig, DwWallpaperCandidate,
};
use daily_wallpapers::operations::{
    add_wallpaper, initial_config, perform_init, rm_wallpaper, set_config, set_preset,
    set_wallpaper,
};

fn sample_config(candidates: &[&str]) -> DwConfig {
    DwConfig {
        actual_wallpaper: DwWallpaperCandidate {
            index: 0,
            path: "/img/a.png".to_string(),
            date_set: 7,
            child: false,
            sub_index: 0,
        },
        time_config: DwTimeConfig { preset: DwPreset::HOUR, interval: 2 },
        candidates: candidates.iter().map(|s| s.to_string()).collect(),
    }
}

#[test]
fn initial_config_is_empty_day_one() {
    let c = initial_config();
    assert_eq!(c.actual_wallpaper.index, 0);
    assert_eq!(c.actual_wallpaper.path, "");
    assert!(!c.actual_wallpaper.child);
    assert_eq!(c.actual_wallpaper.sub_index, 0);
    assert_eq!(c.time_config.preset, DwPreset::DAY);
    assert_eq!(c.time_config.interval, 1);
    assert!(c.candidates.is_empty());
}

#[test]
fn set_wallpaper_maps_apply_outcomes() {
    let ok = set_wallpaper(Ok(()));
    assert!(ok.success);
    assert_eq!(ok.exit_code, 0);
    assert!(ok.message.is_none());

    let err = set_wallpaper(Err("no display".to_string()));
    assert!(!err.success);
    assert_eq!(err.exit_code, 1);
    assert_eq!(err.message.as_deref(), Some("no display"));
}

#[test]
fn perform_init_maps_outcomes() {
    assert!(perform_init(Ok(())).success);
    let err = perform_init(Err("disk full".to_string()));
    assert!(!err.success);
    assert_eq!(err.exit_code, 3);
    assert_eq!(err.message.as_deref(), Some("disk full"));
}

#[test]
fn set_config_maps_outcomes() {
    assert!(set_config(Ok(())).success);
    let err = set_config(Err("bad json".to_string()));
    assert!(!err.success);
    assert_eq!(err.exit_code, 4);
    assert_eq!(err.message.as_deref(), Some("bad json"));
}

#[test]
fn add_wallpaper_appends_candidate() {
    let mut config = sample_config(&["/img/a.png"]);
    let path = "/img/b.png".to_string();
    let r = add_wallpaper(&mut config, &path, true, true, false);
    assert!(r.success);
    assert_eq!(config.candidates, vec!["/img/a.png".to_string(), "/img/b.png".to_string()]);
    assert_eq!(config.time_config.interval, 2);
}

#[test]
fn add_wallpaper_accepts_directory() {
    let mut config = sample_config(&[]);
    let path = "/walls/".to_string();
    let r = add_wallpaper(&mut config, &path, true, false, true);
    assert!(r.success);
    assert_eq!(config.candidates, vec!["/walls/".to_string()]);
}

#[test]
fn add_wallpaper_rejects_missing_path() {
    let mut config = sample_config(&["/img/a.png"]);
    let path = "/img/b.png".to_string();
    let r = add_wallpaper(&mut config, &path, false, false, false);
    assert!(!r.success);
    assert_eq!(r.exit_code, 5);
    assert_eq!(r.message.as_deref(), Some("The specified file or directory does not exist"));
    assert_eq!(config.candidates, vec!["/img/a.png".to_string()]);
}

#[test]
fn add_wallpaper_rejects_non_image_file() {
    let mut config = sample_config(&[]);
    let path = "/notes.txt".to_string();
    let r = add_wallpaper(&mut config, &path, true, false, false);
    assert!(!r.success);
    assert_eq!(r.exit_code, 6);
    assert!(config.candidates.is_empty());
}

#[test]
fn add_then_remove_restores_candidates() {
    let mut config = sample_config(&["/img/a.png", "/walls/"]);
    let path = "/img/new.png".to_string();
    assert!(add_wallpaper(&mut config, &path, true, true, false).success);
    assert!(rm_wallpaper(&mut config, &path).success);
    assert_eq!(config.candidates, vec!["/img/a.png".to_string(), "/walls/".to_string()]);
}

#[test]
fn rm_wallpaper_removes_first_match_only() {
    let mut config = sample_config(&["/img/a.png", "/img/b.png", "/img/a.png"]);
    let path = "/img/a.png".to_string();
    let r = rm_wallpaper(&mut config, &path);
    assert!(r.success);
    assert_eq!(config.candidates, vec!["/img/b.png".to_string(), "/img/a.png".to_string()]);
}

#[test]
fn rm_wallpaper_reports_missing_candidate() {
    let mut config = sample_config(&["/img/a.png"]);
    let path = "/img/zz.png".to_string();
    let r = rm_wallpaper(&mut config, &path);
    assert!(!r.success);
    assert_eq!(r.exit_code, 8);
    assert_eq!(r.message.as_deref(), Some("Wallpaper not found in config"));
    assert_eq!(config.candidates, vec!["/img/a.png".to_string()]);
}

#[test]
fn set_preset_updates_preset_and_interval() {
    let mut config = sample_config(&[]);
    let r = set_preset(&mut config, "minute", Some(15));
    assert!(r.success);
    assert_eq!(config.time_config.preset, DwPreset::MINUTE);
    assert_eq!(config.time_config.interval, 15);
}

#[test]
fn set_preset_keeps_interval_when_absent() {
    let mut config = sample_config(&[]);
    let r = set_preset(&mut config, "day", None);
    assert!(r.success);
    assert_eq!(config.time_config.preset, DwPreset::DAY);
    assert_eq!(config.time_config.interval, 2);
}

#[test]
fn set_preset_accepts_hour() {
    let mut config = sample_config(&[]);
    config.time_config.preset = DwPreset::DAY;
    assert!(set_preset(&mut config, "hour", Some(3)).success);
    assert_eq!(config.time_config.preset, DwPreset::HOUR);
    assert_eq!(config.time_config.interval, 3);
}

#[test]
fn set_preset_rejects_zero_interval() {
    let mut config = sample_config(&[]);
    let r = set_preset(&mut config, "minute", Some(0));
    assert!(!r.success);
    assert_eq!(r.exit_code, 10);
    assert_eq!(r.message.as_deref(), Some("Invalid interval"));
    assert_eq!(config.time_config.preset, DwPreset::HOUR);
    assert_eq!(config.time_config.interval, 2);
}

#[test]
fn set_preset_rejects_unknown_name() {
    let mut config = sample_config(&[]);
    let r = set_preset(&mut config, "weekly", Some(1));
    assert!(!r.success);
    assert_eq!(r.exit_code, 10);
    assert_eq!(r.message.as_deref(), Some("Invalid preset"));
    assert_eq!(config.time_config.preset, DwPreset::HOUR);
    assert_eq!(config.time_config.interval, 2);
}

#[test]
fn command_values_carry_their_arguments() {
    let cli = Cli { command: Commands::AddWallpaper { path: "/img/a.png".to_string() } };
    assert_eq!(cli.command, Commands::AddWallpaper { path: "/img/a.png".to_string() });
    assert_ne!(cli.command, Commands::Next);
}
