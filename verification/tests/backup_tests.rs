use amax_updater_client::backup::{
    conclude_snapshot, managed_set, plan_snapshot, BackupError, BackupSnapshot,
};
use amax_updater_client::layout::{
    archive_name, archive_path, archive_url, backup_dir, loader_files, managed_dir, version_marker,
    version_url,
};
use amax_updater_client::paths::PathStyle;
use amax_updater_client::plan::{FileOp, OnFailure, Step};

const UNIX: PathStyle = PathStyle::Unix;
const WINDOWS: PathStyle = PathStyle::Windows;

fn optional(op: FileOp) -> Step {
    Step { op, on_failure: OnFailure::Skip }
}

fn required(op: FileOp) -> Step {
    Step { op, on_failure: OnFailure::Abort }
}

fn moved(from: &str, to: &str) -> Step {
    optional(FileOp::Move { from: from.to_string(), to: to.to_string() })
}

#[test]
fn layout_of_an_installation() {
    assert_eq!(managed_dir("/games/blur", UNIX), "/games/blur/amax");
    assert_eq!(version_marker("/games/blur", UNIX), "/games/blur/amax/version");
    assert_eq!(backup_dir("/games/blur", UNIX), "/games/blur/.amax_bak");
    assert_eq!(loader_files(), vec!["d3d9.dll", "lua5.1.dll", "discord-rpc.dll"]);
    assert_eq!(managed_set(), vec!["amax", "d3d9.dll", "lua5.1.dll", "discord-rpc.dll"]);
}

#[test]
fn layout_below_the_current_directory() {
    assert_eq!(managed_dir(".", UNIX), "./amax");
    assert_eq!(version_marker("", UNIX), "amax/version");
}

#[test]
fn snapshot_moves_the_managed_set_into_the_backup() {
    let steps = plan_snapshot("/games/blur", true, UNIX);
    assert_eq!(
        steps,
        vec![
            optional(FileOp::Remove { path: "/games/blur/.amax_bak".to_string() }),
            required(FileOp::CreateDir { path: "/games/blur/.amax_bak".to_string() }),
            moved("/games/blur/amax", "/games/blur/.amax_bak/amax"),
            moved("/games/blur/d3d9.dll", "/games/blur/.amax_bak/d3d9.dll"),
            moved("/games/blur/lua5.1.dll", "/games/blur/.amax_bak/lua5.1.dll"),
            moved("/games/blur/discord-rpc.dll", "/games/blur/.amax_bak/discord-rpc.dll"),
        ]
    );
}

#[test]
fn snapshot_of_a_populated_installation_relocates_everything() {
    let outcomes = vec![true; 6];
    assert_eq!(
        conclude_snapshot("/games/blur", true, &outcomes, UNIX),
        Ok(BackupSnapshot {
            location: Some("/games/blur/.amax_bak".to_string()),
            relocated: vec![
                "/games/blur/amax".to_string(),
                "/games/blur/d3d9.dll".to_string(),
                "/games/blur/lua5.1.dll".to_string(),
                "/games/blur/discord-rpc.dll".to_string(),
            ],
        })
    );
}

#[test]
fn the_version_marker_is_never_moved_on_its_own() {
    let marker = version_marker("/games/blur", UNIX);
    for step in plan_snapshot("/games/blur", true, UNIX) {
        if let FileOp::Move { from, .. } = step.op {
            assert_ne!(from, marker);
            assert!(!from.starts_with("/games/blur/amax/"));
        }
    }
}

#[test]
fn first_install_has_nothing_to_back_up() {
    assert!(plan_snapshot("/games/blur", false, UNIX).is_empty());
    assert_eq!(
        conclude_snapshot("/games/blur", false, &Vec::new(), UNIX),
        Ok(BackupSnapshot { location: None, relocated: Vec::new() })
    );
}

#[test]
fn missing_loader_files_are_skipped() {
    let outcomes = vec![false, true, true, false, true, false];
    let snapshot = conclude_snapshot("root", true, &outcomes, UNIX).unwrap();
    assert_eq!(snapshot.location, Some("root/.amax_bak".to_string()));
    assert_eq!(snapshot.relocated, vec!["root/amax".to_string(), "root/lua5.1.dll".to_string()]);
}

#[test]
fn backup_location_that_cannot_be_created_is_fatal() {
    assert_eq!(
        conclude_snapshot("root", true, &vec![true, false], UNIX),
        Err(BackupError::CannotCreateBackupLocation)
    );
    assert_eq!(
        conclude_snapshot("root", true, &vec![true, false, true, true, true, true], UNIX),
        Err(BackupError::CannotCreateBackupLocation)
    );
}

#[test]
fn backup_with_missing_steps_is_incomplete() {
    assert_eq!(conclude_snapshot("root", true, &Vec::new(), UNIX), Err(BackupError::Incomplete));
    assert_eq!(conclude_snapshot("root", true, &vec![true], UNIX), Err(BackupError::Incomplete));
    assert_eq!(
        conclude_snapshot("root", true, &vec![true, true, true, true, true], UNIX),
        Err(BackupError::Incomplete)
    );
}

#[test]
fn backup_error_messages() {
    assert_eq!(
        BackupError::CannotCreateBackupLocation.message(),
        "Failed to create the backup directory"
    );
    assert_eq!(BackupError::Incomplete.message(), "The backup was not carried out to the end");
}

#[test]
fn layout_of_the_server() {
    assert_eq!(version_url("https://cs.amax-emu.com"), "https://cs.amax-emu.com/version.txt");
    assert_eq!(
        archive_url("https://cs.amax-emu.com/"),
        "https://cs.amax-emu.com/amax_client_files.zip"
    );
    assert_eq!(archive_name(), "amax_client_files.zip");
    assert_eq!(archive_path("/tmp/work", UNIX), "/tmp/work/amax_client_files.zip");
}

#[test]
fn snapshot_on_a_windows_host() {
    let steps = plan_snapshot("C:\\Games\\Blur", true, WINDOWS);
    assert_eq!(
        steps[1],
        required(FileOp::CreateDir { path: "C:\\Games\\Blur\\.amax_bak".to_string() })
    );
    assert_eq!(
        steps[2],
        moved("C:\\Games\\Blur\\amax", "C:\\Games\\Blur\\.amax_bak\\amax")
    );
    assert_eq!(version_marker("C:\\Games\\Blur\\", WINDOWS), "C:\\Games\\Blur\\amax\\version");
    let snapshot =
        conclude_snapshot("C:\\Games\\Blur", true, &vec![true; 6], WINDOWS).unwrap();
    assert_eq!(snapshot.relocated[3], "C:\\Games\\Blur\\discord-rpc.dll");
}
