use daily_wallpapers::models::{
    CandidateSnapshot, DwConfig, DwPreset, DwTimeConfig, DwWallpaperCandidate,
};
use daily_wallpapers::navigator::{
    found_wpp_index_by_path_in_directory, found_wpp_path_by_index_in_directory, next, previous,
    reset,
};

fn config_at(candidates: &[&str], index: usize, child: bool, sub_index: usize, path: &str) -> DwConfig {
    DwConfig {
        actual_wallpaper: DwWallpaperCandidate {
            index,
            path: path.to_string(),
            date_set: 0,
            child,
            sub_index,
        },
        time_config: DwTimeConfig { preset: DwPreset::DAY, interval: 1 },
        candidates: candidates.iter().map(|s| s.to_string()).collect(),
    }
}

fn file_snap() -> CandidateSnapshot {
    CandidateSnapshot { is_dir: false, images: Vec::new() }
}

fn dir_snap(images: &[&str]) -> CandidateSnapshot {
    CandidateSnapshot { is_dir: true, images: images.iter().map(|s| s.to_string()).collect() }
}

fn scenario_snapshot() -> Vec<CandidateSnapshot> {
    vec![file_snap(), dir_snap(&["/dir/b.png", "/dir/c.png"])]
}

#[test]
fn next_steps_through_scenario() {
    let cands = ["/img/a.png", "/dir/"];
    let mut config = config_at(&cands, 0, false, 0, "/img/a.png");
    let fs = scenario_snapshot();

    let r1 = next(&mut config, &fs);
    assert!(r1.success);
    assert_eq!(config.actual_wallpaper.index, 1);
    assert!(config.actual_wallpaper.child);
    assert_eq!(config.actual_wallpaper.sub_index, 0);
    assert_eq!(config.actual_wallpaper.path, "/dir/b.png");

    let r2 = next(&mut config, &fs);
    assert!(r2.success);
    assert_eq!(config.actual_wallpaper.index, 1);
    assert!(config.actual_wallpaper.child);
    assert_eq!(config.actual_wallpaper.sub_index, 1);
    assert_eq!(config.actual_wallpaper.path, "/dir/c.png");

    let r3 = next(&mut config, &fs);
    assert!(r3.success);
    assert_eq!(config.actual_wallpaper.index, 0);
    assert!(!config.actual_wallpaper.child);
    assert_eq!(config.actual_wallpaper.sub_index, 0);
    assert_eq!(config.actual_wallpaper.path, "/img/a.png");
}

#[test]
fn previous_returns_from_wrapped_state() {
    let cands = ["/img/a.png", "/dir/"];
    let mut config = config_at(&cands, 0, false, 0, "/img/a.png");
    let fs = scenario_snapshot();

    let r = previous(&mut config, &fs);
    assert!(r.success);
    assert_eq!(config.actual_wallpaper.index, 1);
    assert!(config.actual_wallpaper.child);
    assert_eq!(config.actual_wallpaper.sub_index, 1);
    assert_eq!(config.actual_wallpaper.path, "/dir/c.png");
}

#[test]
fn next_then_previous_round_trips_inside_directory() {
    let cands = ["/img/a.png", "/dir/"];
    let mut config = config_at(&cands, 1, true, 0, "/dir/b.png");
    let fs = scenario_snapshot();

    assert!(next(&mut config, &fs).success);
    assert_eq!(config.actual_wallpaper.sub_index, 1);
    assert!(previous(&mut config, &fs).success);
    assert_eq!(config.actual_wallpaper.index, 1);
    assert!(config.actual_wallpaper.child);
    assert_eq!(config.actual_wallpaper.sub_index, 0);
    assert_eq!(config.actual_wallpaper.path, "/dir/b.png");
}

#[test]
fn full_cycle_of_next_returns_to_start() {
    let cands = ["/img/a.png", "/dir/"];
    let mut config = config_at(&cands, 0, false, 0, "/img/a.png");
    let fs = scenario_snapshot();
    // Three images in the cycle: a.png, b.png, c.png.
    for _ in 0..3 {
        assert!(next(&mut config, &fs).success);
    }
    assert_eq!(config.actual_wallpaper.index, 0);
    assert!(!config.actual_wallpaper.child);
    assert_eq!(config.actual_wallpaper.sub_index, 0);
    assert_eq!(config.actual_wallpaper.path, "/img/a.png");
}

#[test]
fn full_cycle_of_previous_returns_to_start() {
    let cands = ["/img/a.png", "/dir/"];
    let mut config = config_at(&cands, 1, true, 1, "/dir/c.png");
    let fs = scenario_snapshot();
    for _ in 0..3 {
        assert!(previous(&mut config, &fs).success);
    }
    assert_eq!(config.actual_wallpaper.index, 1);
    assert!(config.actual_wallpaper.child);
    assert_eq!(config.actual_wallpaper.sub_index, 1);
    assert_eq!(config.actual_wallpaper.path, "/dir/c.png");
}

#[test]
fn reset_lands_on_first_file() {
    let cands = ["/img/a.png", "/dir/"];
    let mut config = config_at(&cands, 1, true, 1, "/dir/c.png");
    let fs = scenario_snapshot();
    let r = reset(&mut config, &fs);
    assert!(r.success);
    assert_eq!(config.actual_wallpaper.index, 0);
    assert!(!config.actual_wallpaper.child);
    assert_eq!(config.actual_wallpaper.sub_index, 0);
    assert_eq!(config.actual_wallpaper.path, "/img/a.png");
}

#[test]
fn reset_lands_on_first_sorted_image_of_directory() {
    let cands = ["/dir/", "/img/a.png"];
    let mut config = config_at(&cands, 1, false, 0, "/img/a.png");
    let fs = vec![dir_snap(&["/dir/b.png", "/dir/c.png"]), file_snap()];
    let r = reset(&mut config, &fs);
    assert!(r.success);
    assert_eq!(config.actual_wallpaper.index, 0);
    assert!(config.actual_wallpaper.child);
    assert_eq!(config.actual_wallpaper.sub_index, 0);
    assert_eq!(config.actual_wallpaper.path, "/dir/b.png");
}

#[test]
fn next_into_empty_directory_fails_and_keeps_state() {
    let cands = ["/img/a.png", "/empty/"];
    let mut config = config_at(&cands, 0, false, 0, "/img/a.png");
    let fs = vec![file_snap(), dir_snap(&[])];
    let r = next(&mut config, &fs);
    assert!(!r.success);
    assert_eq!(r.exit_code, 28);
    assert_eq!(r.message.as_deref(), Some("The directory is empty"));
    assert_eq!(config.actual_wallpaper.index, 0);
    assert!(!config.actual_wallpaper.child);
    assert_eq!(config.actual_wallpaper.sub_index, 0);
    assert_eq!(config.actual_wallpaper.path, "/img/a.png");
    assert_eq!(config.candidates, vec!["/img/a.png".to_string(), "/empty/".to_string()]);
}

#[test]
fn reset_into_empty_directory_fails_and_keeps_state() {
    let cands = ["/empty/", "/img/a.png"];
    let mut config = config_at(&cands, 1, false, 0, "/img/a.png");
    let fs = vec![dir_snap(&[]), file_snap()];
    let r = reset(&mut config, &fs);
    assert!(!r.success);
    assert_eq!(r.exit_code, 28);
    assert_eq!(config.actual_wallpaper.index, 1);
    assert_eq!(config.actual_wallpaper.path, "/img/a.png");
}

#[test]
fn previous_into_empty_directory_fails_and_keeps_state() {
    let cands = ["/empty/", "/img/a.png"];
    let mut config = config_at(&cands, 1, false, 0, "/img/a.png");
    let fs = vec![dir_snap(&[]), file_snap()];
    let r = previous(&mut config, &fs);
    assert!(!r.success);
    assert_eq!(r.exit_code, 28);
    assert_eq!(config.actual_wallpaper.index, 1);
    assert_eq!(config.actual_wallpaper.path, "/img/a.png");
}

#[test]
fn next_on_empty_cycle_fails() {
    let mut config = config_at(&[], 0, false, 0, "");
    let fs: Vec<CandidateSnapshot> = Vec::new();
    let r = next(&mut config, &fs);
    assert!(!r.success);
    assert_eq!(r.exit_code, 13);
    assert_eq!(r.message.as_deref(), Some("The candidates list is empty"));
}

#[test]
fn next_with_stale_index_fails_and_keeps_state() {
    let cands = ["/img/a.png"];
    let mut config = config_at(&cands, 5, false, 0, "/img/a.png");
    let fs = vec![file_snap()];
    let r = next(&mut config, &fs);
    assert!(!r.success);
    assert_eq!(r.exit_code, 14);
    assert_eq!(config.actual_wallpaper.index, 5);
}

#[test]
fn next_rederives_sub_index_by_path_lookup() {
    // The stored sub-index is stale (0), but the stored path is still in the
    // listing at position 1, so the lookup wins and `next` leaves the
    // directory from its last image.
    let cands = ["/dir/", "/img/a.png"];
    let mut config = config_at(&cands, 0, true, 0, "/dir/c.png");
    let fs = vec![dir_snap(&["/dir/b.png", "/dir/c.png"]), file_snap()];
    let r = next(&mut config, &fs);
    assert!(r.success);
    assert_eq!(config.actual_wallpaper.index, 1);
    assert!(!config.actual_wallpaper.child);
    assert_eq!(config.actual_wallpaper.path, "/img/a.png");
}

#[test]
fn next_restarts_directory_on_lost_reference() {
    // The stored path vanished and the stored sub-index overruns the
    // listing: the reference is lost, the position restarts at the first
    // image, and `next` lands on the second.
    let cands = ["/dir/", "/img/a.png"];
    let mut config = config_at(&cands, 0, true, 7, "/dir/gone.png");
    let fs = vec![dir_snap(&["/dir/b.png", "/dir/c.png"]), file_snap()];
    let r = next(&mut config, &fs);
    assert!(r.success);
    assert_eq!(config.actual_wallpaper.index, 0);
    assert!(config.actual_wallpaper.child);
    assert_eq!(config.actual_wallpaper.sub_index, 1);
    assert_eq!(config.actual_wallpaper.path, "/dir/c.png");
}

#[test]
fn next_keeps_stored_sub_index_when_path_gone_but_in_range() {
    // The stored path vanished but the stored sub-index still fits the
    // listing: it is trusted, and `next` advances from it.
    let cands = ["/dir/", "/img/a.png"];
    let mut config = config_at(&cands, 0, true, 0, "/dir/gone.png");
    let fs = vec![dir_snap(&["/dir/b.png", "/dir/c.png"]), file_snap()];
    let r = next(&mut config, &fs);
    assert!(r.success);
    assert_eq!(config.actual_wallpaper.index, 0);
    assert_eq!(config.actual_wallpaper.sub_index, 1);
    assert_eq!(config.actual_wallpaper.path, "/dir/c.png");
}

#[test]
fn previous_from_first_image_of_first_candidate_wraps_to_end() {
    let cands = ["/dir/", "/img/a.png"];
    let mut config = config_at(&cands, 0, true, 0, "/dir/b.png");
    let fs = vec![dir_snap(&["/dir/b.png", "/dir/c.png"]), file_snap()];
    let r = previous(&mut config, &fs);
    assert!(r.success);
    assert_eq!(config.actual_wallpaper.index, 1);
    assert!(!config.actual_wallpaper.child);
    assert_eq!(config.actual_wallpaper.path, "/img/a.png");
}

#[test]
fn found_wpp_index_by_path_finds_first_match() {
    let images = vec!["/d/a.png".to_string(), "/d/b.png".to_string(), "/d/c.png".to_string()];
    let target = "/d/b.png".to_string();
    assert_eq!(found_wpp_index_by_path_in_directory(&images, &target), Ok(1));
}

#[test]
fn found_wpp_index_by_path_reports_missing() {
    let images = vec!["/d/a.png".to_string()];
    let target = "/d/zz.png".to_string();
    assert!(found_wpp_index_by_path_in_directory(&images, &target).is_err());
}

#[test]
fn found_wpp_path_by_index_reads_listing() {
    let images = vec!["/d/a.png".to_string(), "/d/b.png".to_string()];
    assert_eq!(found_wpp_path_by_index_in_directory(&images, 1), Ok("/d/b.png".to_string()));
    assert!(found_wpp_path_by_index_in_directory(&images, 2).is_err());
}
