use rlgym_rust::gamelaunch::epic_launch::{install_path_from_files, ManifestError};
use rlgym_rust::gamelaunch::epic_launch::{
    epic_launch_argv, found_install_path, install_path, manifest_pattern,
    program_data_manifest_dir, registry_manifest_dir, select_manifest, EpicManifest,
    ManifestField,
};
use rlgym_rust::gamelaunch::launch::{tries_custom_path, LaunchPreference, ROCKET_LEAGUE_PROCESS_INFO};
use rlgym_rust::gamelaunch::minimize::is_game_window;

fn text(s: &str) -> ManifestField {
    ManifestField::Text(s.to_string())
}

fn manifest(name: ManifestField, loc: ManifestField, exe: ManifestField) -> EpicManifest {
    EpicManifest { mandatory_app_folder_name: name, install_location: loc, launch_executable: exe }
}

#[test]
fn process_info_and_ideal_args() {
    let info = ROCKET_LEAGUE_PROCESS_INFO::new();
    assert_eq!(info.GAMEID, 252950);
    assert_eq!(info.PROGRAM_NAME, "RocketLeague.exe");
    assert_eq!(info.PROGRAM, "RocketLeague.exe");
    assert_eq!(info.REQUIRED_ARGS, "-pipe");
    let args = ROCKET_LEAGUE_PROCESS_INFO::get_ideal_args("\\\\.\\pipe\\3".to_string());
    assert_eq!(args, ["-pipe".to_string(), "\\\\.\\pipe\\3".to_string(), "-nomovie".to_string()]);
}

#[test]
fn launch_preferences() {
    let p = LaunchPreference::new();
    assert_eq!(p.STEAM, "steam");
    assert_eq!(p.EPIC, "epic");
    assert_eq!(p.EPIC_LOGIN_TRICK, "_login_trick");
    // every preference is first tried as a path
    assert!(tries_custom_path(&"epic".to_string()));
    assert!(tries_custom_path(&"steam".to_string()));
    assert!(tries_custom_path(&"D:/Games/RocketLeague.exe".to_string()));
}

#[test]
fn epic_command_line() {
    let argv = epic_launch_argv(
        "C:/RL/Binaries/RocketLeague.exe".to_string(),
        vec!["-pipe".to_string(), "\\\\.\\pipe\\0".to_string(), "-nomovie".to_string()],
    );
    assert_eq!(
        argv,
        vec!["C:/RL/Binaries/RocketLeague.exe", "-pipe", "\\\\.\\pipe\\0", "-nomovie", "-EpicPortal"]
    );
    assert_eq!(epic_launch_argv("rl".to_string(), vec![]), vec!["rl", "-EpicPortal"]);
}

#[test]
fn manifest_folders() {
    assert_eq!(registry_manifest_dir("C:\\ProgramData\\Epic\\".to_string()), "C:\\ProgramData\\Epic\\Manifests\\");
    assert_eq!(
        program_data_manifest_dir("C:\\ProgramData".to_string()),
        "C:\\ProgramDataEpic\\EpicGamesLauncher\\Data\\Manifests\\"
    );
    assert_eq!(manifest_pattern(&"D:\\M\\".to_string()), "D:\\M\\*.item");
}

#[test]
fn select_first_game_manifest() {
    let found = vec![
        Some(manifest(text("fortnite"), text("F:/FN"), text("fn.exe"))),
        None,
        Some(manifest(text("rocketleague"), text("F:/RL"), text("rl.exe"))),
        Some(manifest(text("rocketleague"), text("G:/RL"), text("rl.exe"))),
    ];
    assert_eq!(select_manifest(&found), Some(2));
    assert_eq!(found_install_path(&found, "\\"), Some("F:/RL\\rl.exe".to_string()));
}

#[test]
fn select_last_read_without_game() {
    let found = vec![
        Some(manifest(text("a"), ManifestField::Missing, ManifestField::Missing)),
        Some(manifest(ManifestField::NotText, text("X:/B"), text("b.exe"))),
        None,
    ];
    assert_eq!(select_manifest(&found), Some(1));
    assert_eq!(found_install_path(&found, "/"), Some("X:/B/b.exe".to_string()));
    let nothing: Vec<Option<EpicManifest>> = vec![None, None];
    assert_eq!(select_manifest(&nothing), None);
    assert_eq!(found_install_path(&nothing, "/"), None);
    assert_eq!(select_manifest(&vec![]), None);
}

#[test]
fn install_path_needs_location() {
    let m = manifest(text("rocketleague"), ManifestField::Missing, text("rl.exe"));
    assert_eq!(install_path(&m, "\\"), None);
    let m = manifest(text("rocketleague"), text("C:/Epic/rocketleague"), text("Binaries/Win64/RocketLeague.exe"));
    assert_eq!(
        install_path(&m, "\\"),
        Some("C:/Epic/rocketleague\\Binaries/Win64/RocketLeague.exe".to_string())
    );
    assert_eq!(install_path(&EpicManifest::empty(), "\\"), None);
}

#[test]
fn game_windows_by_title() {
    assert!(is_game_window("Rocket League"));
    assert!(is_game_window("Rocket League (64-bit, DX11, Cooked)"));
    assert!(is_game_window("» Rocket League «"));
    assert!(!is_game_window("rocket league"));
    assert!(!is_game_window("Rocket Leagu"));
    assert!(!is_game_window(""));
    assert!(!is_game_window("Epic Games Launcher"));
}

#[test]
fn install_path_from_manifest_bytes() {
    let other = br#"{"MandatoryAppFolderName":"fortnite","InstallLocation":"D:\\FN","LaunchExecutable":"fn.exe"}"#.to_vec();
    let rl = br#"{"MandatoryAppFolderName":"rocketleague","InstallLocation":"C:\\RL","LaunchExecutable":"rl.exe"}"#.to_vec();
    let broken = b"not json".to_vec();
    let files = vec![Some(other.clone()), None, Some(rl), Some(broken.clone())];
    assert_eq!(install_path_from_files(&files, "\\"), Ok(Some("C:\\RL\\rl.exe".to_string())));
    // no game manifest: the last file that parsed is kept
    let files = vec![Some(other.clone()), Some(broken.clone())];
    assert_eq!(install_path_from_files(&files, "/"), Ok(Some("D:\\FN/fn.exe".to_string())));
    // nothing parses
    assert_eq!(install_path_from_files(&vec![Some(broken), None], "/"), Ok(None));
    // a parsed manifest without an install location
    let bare = br#"{"MandatoryAppFolderName":"rocketleague"}"#.to_vec();
    assert_eq!(install_path_from_files(&vec![Some(bare)], "/"), Ok(None));
    // the kept manifest's install location is not a string
    let bad = br#"{"MandatoryAppFolderName":"rocketleague","InstallLocation":3,"LaunchExecutable":"rl.exe"}"#.to_vec();
    assert_eq!(install_path_from_files(&vec![Some(bad)], "/"), Err(ManifestError::KeptValuesNotText));
    // a JSON value that is not an object does not parse as a manifest
    assert_eq!(install_path_from_files(&vec![Some(b"[1,2]".to_vec())], "/"), Ok(None));
}
