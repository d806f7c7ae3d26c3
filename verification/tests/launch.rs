use applejuicecli::json::JsonValue;
use applejuicecli::launch::{
    data_model_patch_path, executable_path, find_installation, fullscreen_plan, parse_launch_arguments,
    proton_command, proton_installation_path, resolve_active_logfile, rpc_enabled, update_decision,
    FullscreenRestore, LaunchArguments, MissingInstallation, UpdateDecision,
};

fn pairs(v: &[(&str, &str)]) -> Vec<(String, String)> {
    v.iter().map(|(a, b)| (a.to_string(), b.to_string())).collect()
}

#[test]
fn launch_arguments() {
    match parse_launch_arguments(&pairs(&[("launch", ""), ("binary", "Studio"), ("args", "roblox-studio-auth:1"), ("bootstrap", "")])) {
        LaunchArguments::Launch(o) => {
            assert_eq!(o.binary, "Studio");
            assert!(o.bootstrap);
            assert!(!o.skip_update_check);
            assert!(!o.steamos_override);
            assert!(o.studio_oauth);
        }
        _ => panic!("expected a launch"),
    }
    assert!(matches!(parse_launch_arguments(&pairs(&[("launch", "")])), LaunchArguments::MissingBinary));
    assert!(matches!(parse_launch_arguments(&pairs(&[("help", ""), ("binary", "x")])), LaunchArguments::Help));
    match parse_launch_arguments(&pairs(&[("binary", "Player")])) {
        LaunchArguments::Launch(o) => assert_eq!(o.protocol_arguments, ""),
        _ => panic!("expected a launch"),
    }
}

#[test]
fn update_check() {
    assert!(matches!(update_decision("Player", "version-1", "LIVE", "version-1", false), UpdateDecision::UpToDate));
    assert!(matches!(update_decision("Player", "version-1", "LIVE", "version-2", true), UpdateDecision::Reinstall));
    match update_decision("Player", "version-1", "LIVE", "version-2", false) {
        UpdateDecision::Outdated { message } => assert_eq!(
            message,
            "You are on 1 and the latest version for LIVE is 2\nConsider running \"--install player \""
        ),
        _ => panic!("expected outdated"),
    }
    match update_decision("Studio", "version-a", "zbeta", "version-b", false) {
        UpdateDecision::Outdated { message } => assert!(message.ends_with("\"--install studio zbeta\"")),
        _ => panic!("expected outdated"),
    }
}

#[test]
fn fullscreen_forcing() {
    let p = fullscreen_plan("false", true, false);
    assert!(p.force_on && !p.warn_missing);
    assert!(matches!(p.restore, FullscreenRestore::Write(false)));
    let p = fullscreen_plan("true", false, true);
    assert!(!p.force_on);
    assert!(matches!(p.restore, FullscreenRestore::Write(true)));
    let p = fullscreen_plan("", true, false);
    assert!(p.warn_missing);
    assert!(matches!(p.restore, FullscreenRestore::Keep));
    let p = fullscreen_plan("false", false, false);
    assert!(!p.force_on);
    assert!(matches!(p.restore, FullscreenRestore::Keep));
    assert!(matches!(fullscreen_plan("1", true, false).restore, FullscreenRestore::Unreadable));
}

#[test]
fn launch_paths() {
    assert_eq!(executable_path("/i", "Player"), "/i/RobloxPlayerBeta.exe");
    assert_eq!(executable_path("/i", "Studio"), "/i/RobloxStudioBeta.exe");
    assert_eq!(data_model_patch_path("/i"), "/i/ExtraContent/models/DataModelPatch/DataModelPatch.rbxm");
    assert_eq!(proton_command("/p"), "/p/proton");
    let installs = JsonValue::Object(vec![("P".to_string(), JsonValue::String("/steam/P".to_string()))]);
    let inst = JsonValue::Object(vec![("preferred_proton".to_string(), JsonValue::String("P".to_string()))]);
    assert_eq!(proton_installation_path(&installs, &inst), "/steam/P");
    assert_eq!(proton_installation_path(&installs, &JsonValue::Null), "");
}

#[test]
fn log_file_is_found() {
    let names = vec!["a.log".to_string(), "0.1_last.log".to_string(), "b_last.log".to_string()];
    assert_eq!(resolve_active_logfile("/logs/", &names), Some((1, "/logs/0.1_last.log".to_string())));
    assert_eq!(resolve_active_logfile("/logs/", &vec!["x".to_string()]), None);
}

fn obj(v: Vec<(&str, JsonValue)>) -> JsonValue {
    JsonValue::Object(v.into_iter().map(|(k, x)| (k.to_string(), x)).collect())
}

#[test]
fn installations_are_found_by_binary() {
    let installations = obj(vec![("Player", obj(vec![("install_path", JsonValue::String("/p".to_string()))]))]);
    match find_installation(&installations, "Player", false) {
        Ok(found) => assert_eq!(found.str_at("install_path"), Some("/p")),
        Err(_) => panic!("expected the installation"),
    }
    assert!(matches!(find_installation(&installations, "Studio", true), Err(MissingInstallation::Bootstrap)));
    assert!(matches!(find_installation(&installations, "Studio", false), Err(MissingInstallation::NotInstalled)));
    assert!(matches!(find_installation(&JsonValue::Null, "Player", false), Err(MissingInstallation::NotInstalled)));
}

#[test]
fn rich_presence_follows_enable_rpc() {
    let on = obj(vec![("configuration", obj(vec![("enable_rpc", JsonValue::Bool(true))]))]);
    let off = obj(vec![("configuration", obj(vec![("enable_rpc", JsonValue::Bool(false))]))]);
    let text = obj(vec![("configuration", obj(vec![("enable_rpc", JsonValue::String("true".to_string()))]))]);
    assert!(rpc_enabled(&on));
    assert!(!rpc_enabled(&off));
    assert!(!rpc_enabled(&text));
    assert!(!rpc_enabled(&obj(vec![])));
}
