use std::io::Cursor;
use std::io::Write;

use yacc_launcher::extract::{
    entry_is_dir, entry_payload_path, path_stays_inside, plan_extraction, ExtractError, ExtractStep,
};
use yacc_launcher::install::{find_game_install_location, install_from_steam_lookup};
use yacc_launcher::launch::{launch_outcome, plan_launch, LaunchError};
use yacc_launcher::paths::{
    check_is_valid_game_path, classify_game_path, game_exe_path, validation_verdict, verify_install_location,
};
use yacc_launcher::process::game_process_present;
use yacc_launcher::stats::get_server_player_count;
use yacc_launcher::text::replace;
use yacc_launcher::types::{GameInstall, InstallType};
use yacc_launcher::version::{convert_release_candidate_number, launcher_version_label};

fn archive_of(entries: &[(&str, Option<&[u8]>)]) -> zip::ZipArchive<Cursor<Vec<u8>>> {
    let mut w = zip::ZipWriter::new(Cursor::new(Vec::new()));
    let opts = zip::write::FileOptions::default();
    for (name, contents) in entries {
        match contents {
            Some(bytes) => {
                w.start_file(*name, opts).unwrap();
                w.write_all(bytes).unwrap();
            }
            None => w.add_directory(*name, opts).unwrap(),
        }
    }
    let bytes = w.finish().unwrap().into_inner();
    zip::ZipArchive::new(Cursor::new(bytes)).unwrap()
}

fn describe(steps: &[ExtractStep]) -> Vec<(bool, String, Vec<u8>)> {
    steps
        .iter()
        .map(|s| match s {
            ExtractStep::CreateDir { path } => (true, path.clone(), Vec::new()),
            ExtractStep::WriteFile { path, contents } => (false, path.clone(), contents.clone()),
        })
        .collect()
}

#[test]
fn rc_number_below_ten() {
    assert_eq!(convert_release_candidate_number("v1.9.2-rc1".to_string()), "v1.9.201");
}

#[test]
fn rc_number_above_nine() {
    assert_eq!(convert_release_candidate_number("v1.9.2-rc11".to_string()), "v1.9.2011");
}

#[test]
fn rc_number_plain_release_unchanged() {
    assert_eq!(convert_release_candidate_number("v1.9.2".to_string()), "v1.9.2");
}

#[test]
fn rc_number_drops_double_zero() {
    assert_eq!(convert_release_candidate_number("v1.100.0".to_string()), "v1.1.0");
}

#[test]
fn replace_is_leftmost_and_non_overlapping() {
    assert_eq!(replace("aaaa", "aa", "b"), "bb");
    assert_eq!(replace("aaa", "aa", "b"), "ba");
    assert_eq!(replace("abc", "", "x"), "abc");
    assert_eq!(replace("", "a", "x"), "");
}

#[test]
fn version_label_release_and_debug() {
    assert_eq!(launcher_version_label("1.2.3", false), "v1.2.3");
    assert_eq!(launcher_version_label("1.2.3", true), "v1.2.3 (debug mode)");
}

#[test]
fn exe_path_is_inside_directory() {
    assert_eq!(game_exe_path("C:/Games/COD4"), "C:/Games/COD4/iw3mp.exe");
}

#[test]
fn validator_rejects_directory_without_executable() {
    assert_eq!(
        classify_game_path("/games/cod4", false),
        Err("Incorrect game path \"/games/cod4\"".to_string())
    );
}

#[test]
fn validator_accepts_directory_with_executable() {
    assert_eq!(classify_game_path("/games/cod4", true), Ok(()));
}

#[test]
fn validator_on_missing_directory() {
    let dir = "/no/such/dir/for/the/game";
    assert_eq!(
        check_is_valid_game_path(dir),
        Err("Incorrect game path \"/no/such/dir/for/the/game\"".to_string())
    );
    assert!(!verify_install_location(dir.to_string()));
}

#[test]
fn liveness_finds_either_process() {
    assert!(game_process_present(&vec!["bash".to_string(), "yacc.exe".to_string()]));
    assert!(game_process_present(&vec!["iw3mp.exe".to_string()]));
}

#[test]
fn liveness_false_without_game() {
    assert!(!game_process_present(&vec![]));
    assert!(!game_process_present(&vec!["yacc.exe.bak".to_string(), "iw3mp".to_string()]));
}

#[test]
fn steam_lookup_without_app_gives_fallback_error() {
    assert_eq!(
        install_from_steam_lookup(None).unwrap_err(),
        "Could not auto-detect game install location! Please enter it manually."
    );
}

#[test]
fn steam_lookup_with_app_gives_steam_install() {
    let found = install_from_steam_lookup(Some(Some("/steam/common/COD4".to_string()))).unwrap();
    assert_eq!(found.game_path, "/steam/common/COD4");
    assert_eq!(found.install_type, InstallType::STEAM);
}

#[test]
fn locator_never_panics() {
    match find_game_install_location() {
        Ok(found) => assert_eq!(found.install_type, InstallType::STEAM),
        Err(msg) => assert_eq!(
            msg,
            "Could not auto-detect game install location! Please enter it manually."
        ),
    }
}

#[test]
fn launch_refused_off_windows() {
    let install = GameInstall { game_path: "/games/cod4".to_string(), install_type: InstallType::STEAM };
    let err = plan_launch("linux", &install).err().unwrap();
    assert_eq!(
        err.message(),
        "Not yet implemented for \"linux\" with COD4 installed via \"STEAM\""
    );
}

#[test]
fn launch_refused_for_unknown_install() {
    let install = GameInstall { game_path: "C:/COD4".to_string(), install_type: InstallType::UNKNOWN };
    let err = plan_launch("windows", &install).err().unwrap();
    let msg = err.message();
    assert!(msg.contains("windows"));
    assert!(msg.contains("UNKNOWN"));
    assert!(matches!(err, LaunchError::Unsupported { .. }));
}

#[test]
fn launch_accepted_for_steam_on_windows() {
    let install = GameInstall { game_path: "C:/COD4".to_string(), install_type: InstallType::STEAM };
    let plan = plan_launch("windows", &install).ok().unwrap();
    assert_eq!(plan.working_dir, "C:/COD4");
    assert_eq!(plan.executable, "C:/COD4/YACC.exe");
}

#[test]
fn launch_error_messages() {
    assert_eq!(LaunchError::DirectoryUnavailable.message(), "Couldn't access COD4 directory");
    assert_eq!(LaunchError::SpawnFailed.message(), "Couldn't start the game");
}

#[test]
fn statistics_stub() {
    assert_eq!(get_server_player_count(), Ok((1337, 420)));
}

#[test]
fn payload_paths() {
    assert_eq!(entry_payload_path("YACC/a.txt"), Some("a.txt".to_string()));
    assert_eq!(entry_payload_path("YACC/sub/"), Some("sub/".to_string()));
    assert_eq!(entry_payload_path("YACC"), Some(String::new()));
    assert_eq!(entry_payload_path("other/b.txt"), None);
    assert_eq!(entry_payload_path("YACCX/b.txt"), None);
    assert!(entry_is_dir("YACC/sub/"));
    assert!(!entry_is_dir("YACC/a.txt"));
}

#[test]
fn extraction_keeps_payload_only() {
    let mut archive = archive_of(&[
        ("YACC/a.txt", Some(b"hello".as_slice())),
        ("YACC/sub/", None),
        ("other/b.txt", Some(b"ignored".as_slice())),
    ]);
    let steps = plan_extraction(&mut archive).ok().unwrap();
    assert_eq!(
        describe(&steps),
        vec![
            (false, "a.txt".to_string(), b"hello".to_vec()),
            (true, "sub/".to_string(), Vec::new()),
        ]
    );
}

#[test]
fn extraction_plan_is_repeatable() {
    let mut archive = archive_of(&[("YACC/a.txt", Some(b"same".as_slice())), ("YACC/d/", None)]);
    let first = describe(&plan_extraction(&mut archive).ok().unwrap());
    let second = describe(&plan_extraction(&mut archive).ok().unwrap());
    assert_eq!(first, second);
}

#[test]
fn extraction_of_empty_archive() {
    let mut archive = archive_of(&[]);
    assert!(plan_extraction(&mut archive).ok().unwrap().is_empty());
}

#[test]
fn extraction_stops_on_unsafe_name() {
    let mut archive = archive_of(&[("YACC/ok.txt", Some(b"x".as_slice())), ("../evil.txt", Some(b"y".as_slice()))]);
    match plan_extraction(&mut archive) {
        Err(ExtractError::UndecodableName { index }) => assert_eq!(index, 1),
        _ => panic!("expected an undecodable name"),
    }
}

#[test]
fn extraction_root_directory_and_lookalike_prefix() {
    let mut archive = archive_of(&[
        ("YACC/", None),
        ("YACCX/b.txt", Some(b"no".as_slice())),
        ("YACC/sub/deep.txt", Some(b"deep".as_slice())),
    ]);
    let steps = plan_extraction(&mut archive).ok().unwrap();
    assert_eq!(
        describe(&steps),
        vec![
            (true, String::new(), Vec::new()),
            (false, "sub/deep.txt".to_string(), b"deep".to_vec()),
        ]
    );
}

#[test]
fn steam_lookup_with_non_utf8_path_gives_fallback_error() {
    assert_eq!(
        install_from_steam_lookup(Some(None)).unwrap_err(),
        "Could not auto-detect game install location! Please enter it manually."
    );
}

#[test]
fn verdict_follows_the_check() {
    assert!(validation_verdict(&Ok(())));
    assert!(!validation_verdict(&Err("Incorrect game path \"x\"".to_string())));
}

#[test]
fn launch_outcomes() {
    assert_eq!(launch_outcome(true, true).ok().unwrap(), "Launched game");
    assert!(matches!(launch_outcome(false, false), Err(LaunchError::DirectoryUnavailable)));
    assert!(matches!(launch_outcome(true, false), Err(LaunchError::SpawnFailed)));
}

#[test]
fn payload_paths_strip_prefix_and_separators() {
    assert_eq!(entry_payload_path("YACC//a.txt"), Some("a.txt".to_string()));
    assert_eq!(entry_payload_path("YACC\\a.txt"), Some("a.txt".to_string()));
    assert_eq!(entry_payload_path("YACC/a/../b.txt"), Some("a/../b.txt".to_string()));
    assert_eq!(entry_payload_path("YACC/../x"), Some("../x".to_string()));
}

#[test]
fn paths_that_stay_inside() {
    assert!(path_stays_inside(""));
    assert!(path_stays_inside("a.txt"));
    assert!(path_stays_inside("sub/"));
    assert!(path_stays_inside("a/../b.txt"));
    assert!(path_stays_inside("a/./b/../../c"));
    assert!(path_stays_inside("a..b/c"));
}

#[test]
fn paths_that_leave() {
    assert!(!path_stays_inside(".."));
    assert!(!path_stays_inside("../x"));
    assert!(!path_stays_inside("..\\x.txt"));
    assert!(!path_stays_inside("a/../../x"));
    assert!(!path_stays_inside("C:/x"));
}

#[test]
fn extraction_writes_entry_that_stays_inside() {
    let mut archive = archive_of(&[
        ("YACC/a/../b.txt", Some(b"in".as_slice())),
        ("YACC/a/../d/", None),
    ]);
    let steps = plan_extraction(&mut archive).ok().unwrap();
    assert_eq!(
        describe(&steps),
        vec![
            (false, "a/../b.txt".to_string(), b"in".to_vec()),
            (true, "a/../d/".to_string(), Vec::new()),
        ]
    );
}

#[test]
fn extraction_stops_on_climbing_entry() {
    let mut archive = archive_of(&[
        ("YACC//a.txt", Some(b"in".as_slice())),
        ("YACC/../x.txt", Some(b"out".as_slice())),
    ]);
    match plan_extraction(&mut archive) {
        Err(ExtractError::Escapes { index }) => assert_eq!(index, 1),
        _ => panic!("expected an escaping entry"),
    }
}
