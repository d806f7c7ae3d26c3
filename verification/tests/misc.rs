use applejuicecli::command::{parse_command, Command};
use applejuicecli::initialise::{asset_file_name, default_global_config, shortcut_contents};
use applejuicecli::installation::Binary;
use applejuicecli::json::JsonValue;
use applejuicecli::proton::discover_proton_directory;
use applejuicecli::purge::{purge_target, PurgeArgsError, PurgeTarget};
use applejuicecli::setup::{data_path, get_applejuice_dir};
use applejuicecli::terminal::{log_line, LogContext, LogKind};

#[test]
fn data_folder_paths() {
    assert_eq!(get_applejuice_dir("/home/u"), "/home/u/.local/share/applejuice");
    assert_eq!(data_path("/home/u", "cache"), "/home/u/.local/share/applejuice/cache");
    assert_eq!(
        data_path("/home/u", "/home/u/.local/share/applejuice/roblox"),
        "/home/u/.local/share/applejuice/roblox"
    );
}

#[test]
fn proton_folders_are_found() {
    let folders = vec![
        ("Proton 8.0".to_string(), "/s/Proton 8.0".to_string()),
        ("Steamworks Shared".to_string(), "/s/Steamworks Shared".to_string()),
        ("Proton - Experimental".to_string(), "/s/Proton - Experimental".to_string()),
    ];
    let found = discover_proton_directory(&folders);
    assert_eq!(found.str_at("Proton 8.0"), Some("/s/Proton 8.0/proton"));
    assert_eq!(found.str_at("Proton - Experimental"), Some("/s/Proton - Experimental/proton"));
    assert!(found.get("Steamworks Shared").is_none());
    assert!(discover_proton_directory(&vec![]).is_empty_object());
}

fn purge_args(value: &str) -> Vec<Vec<(String, String)>> {
    vec![vec![("purge".to_string(), value.to_string())]]
}

#[test]
fn purge_targets() {
    assert_eq!(purge_target(purge_args("cache")).ok(), Some(PurgeTarget::Cache));
    assert_eq!(purge_target(purge_args("installs extra")).ok(), Some(PurgeTarget::Installs));
    assert!(matches!(purge_target(purge_args("")), Err(PurgeArgsError::Blank)));
    match purge_target(purge_args("all")) {
        Err(PurgeArgsError::Unknown(w)) => assert_eq!(w, "all"),
        _ => panic!("expected unknown"),
    }
    match purge_target(vec![]) {
        Err(PurgeArgsError::Unknown(w)) => assert_eq!(w, ""),
        _ => panic!("expected unknown"),
    }
}

#[test]
fn commands() {
    assert_eq!(parse_command("--help"), Some(Command::Help));
    assert_eq!(parse_command("--launch"), Some(Command::Launch));
    assert_eq!(parse_command("sysinfo"), Some(Command::SysInfo));
    assert_eq!(parse_command("--nope"), None);
}

#[test]
fn shortcuts() {
    let player = shortcut_contents("/d", Binary::Player);
    assert!(player.starts_with("[Desktop Entry]\nName=Roblox Player\n"));
    assert!(player.contains("Icon=/d/assets/player.png\n"));
    assert!(player.ends_with("MimeType=x-scheme-handler/roblox-player;x-scheme-handler/roblox"));
    let studio = shortcut_contents("/d", Binary::Studio);
    assert!(studio.contains("Exec=env applejuicecli --launch --binary Studio --bootstrap --args %u\n"));
}

#[test]
fn first_configuration() {
    let g = default_global_config();
    assert_eq!(g.str_at("config_version"), Some("0"));
    let misc = g.get("misc").unwrap();
    assert!(misc.get("purge_old_installed_deployments_after_update").unwrap().is_true());
    assert!(!misc.get("purge_cached_deployment_after_install").unwrap().is_true());
    assert!(misc.get("overrides").unwrap().get("LIVE_DEPLOYMENT_CDN").unwrap().is_null());
}

#[test]
fn asset_names() {
    assert_eq!(asset_file_name("/assets/Player.PNG"), "player.png");
    assert_eq!(asset_file_name("crudejuice.png"), "crudejuice.png");
}

#[test]
fn log_lines() {
    assert_eq!(log_line(2, LogKind::Warning, "hi"), "\t\t\x1b[93m\x1b[1m! \x1b[0mhi\n");
    assert_eq!(log_line(0, LogKind::Status, "x"), "\x1b[94m\x1b[1m• \x1b[0mx\n");
}

#[test]
fn json_null_is_null() {
    assert!(JsonValue::Null.is_null());
}

#[test]
fn indentation_nests_and_unwinds() {
    let mut context = LogContext::new();
    assert_eq!(context.get_indentation(), 0);
    context.enter();
    context.enter();
    assert_eq!(context.get_indentation(), 2);
    context.leave();
    assert_eq!(context.get_indentation(), 1);
    context.set_indentation(5);
    assert_eq!(context.get_indentation(), 5);
    context.leave();
    assert_eq!(context.get_indentation(), 4);
}
