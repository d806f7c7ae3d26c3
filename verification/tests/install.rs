use applejuicecli::install::{check_proton_instances, client_app_settings, client_app_settings_text, refresh_rate_or_default, low_disk_space, parse_install_arguments, plan_install, preferred_proton};
use applejuicecli::installation::{Binary, ExactVersion, Version};
use applejuicecli::json::JsonValue;

fn pairs(v: &[(&str, &str)]) -> Vec<(String, String)> {
    v.iter().map(|(a, b)| (a.to_string(), b.to_string())).collect()
}

fn s(v: &str) -> JsonValue {
    JsonValue::String(v.to_string())
}

fn obj(es: Vec<(&str, JsonValue)>) -> JsonValue {
    JsonValue::Object(es.into_iter().map(|(k, v)| (k.to_string(), v)).collect())
}

#[test]
fn install_arguments() {
    let req = parse_install_arguments(&pairs(&[("install", "player")])).unwrap();
    assert!(req.threading);
    match req.version {
        Version::Latest(l) => {
            assert_eq!(l.binary, "player");
            assert_eq!(l.channel, "LIVE");
        }
        _ => panic!("expected latest"),
    }
    let req = parse_install_arguments(&pairs(&[("install", "version-1 zbeta"), ("exact", ""), ("nothreads", "")])).unwrap();
    assert!(!req.threading);
    match req.version {
        Version::Exact(e) => {
            assert_eq!(e.hash, "version-1");
            assert_eq!(e.channel, "zbeta");
        }
        _ => panic!("expected exact"),
    }
    assert!(parse_install_arguments(&pairs(&[("install", "")])).is_err());
    assert!(parse_install_arguments(&pairs(&[("install", "a b c")])).is_err());
}

#[test]
fn disk_space_threshold() {
    assert!(low_disk_space(999_999_999));
    assert!(!low_disk_space(1_000_000_000));
}

#[test]
fn proton_is_chosen_by_its_path() {
    let p = obj(vec![("GE", s("/opt/ge/proton")), ("Proton 8.0", s("/steam/Proton 8.0/proton"))]);
    assert_eq!(preferred_proton(&p), "Proton 8.0");
    assert_eq!(preferred_proton(&JsonValue::Null), "");
    assert_eq!(preferred_proton(&obj(vec![])), "");
}

#[test]
fn new_installation_gets_default_record() {
    let global = obj(vec![(
        "misc",
        obj(vec![
            ("purge_cached_deployment_after_install", JsonValue::Bool(false)),
            ("purge_old_installed_deployments_after_update", JsonValue::Bool(true)),
        ]),
    )]);
    let protons = obj(vec![("Proton 9.0", s("/s/Proton 9.0/proton"))]);
    let version = ExactVersion::new("LIVE".to_string(), "version-2".to_string());
    let plan = plan_install(version, Binary::Player, "/d", &global, obj(vec![]), &protons);
    assert!(!plan.upgrading);
    assert!(!plan.remove_cached_deployment);
    assert!(plan.remove_old_install.is_none());
    assert!(!plan.fix_studio_font);
    assert_eq!(plan.folder_path, "/d/roblox/LIVE/Player/version-2");
    let record = plan.config_entry.get("Player").unwrap();
    assert_eq!(record.str_at("version_hash"), Some("version-2"));
    assert_eq!(record.str_at("install_path"), Some("/d/roblox/LIVE/Player/version-2"));
    assert_eq!(record.str_at("preferred_proton"), Some("Proton 9.0"));
    match record {
        JsonValue::Object(members) => assert_eq!(members.len(), 5),
        _ => panic!("expected an object"),
    }
    let conf = record.get("configuration").unwrap();
    match conf {
        JsonValue::Object(members) => assert_eq!(members.len(), 5),
        _ => panic!("expected an object"),
    }
    assert_eq!(conf.str_at("use_verb"), Some("run"));
    assert!(conf.get("enable_rpc").unwrap().is_true());
}

#[test]
fn upgrade_keeps_configuration_and_removes_old_install() {
    let global = obj(vec![(
        "misc",
        obj(vec![
            ("purge_cached_deployment_after_install", JsonValue::Bool(true)),
            ("purge_old_installed_deployments_after_update", JsonValue::Bool(true)),
        ]),
    )]);
    let installations = obj(vec![(
        "Studio",
        obj(vec![
            ("version_hash", s("version-1")),
            ("install_path", s("/old")),
            ("preferred_proton", s("Mine")),
            ("configuration", obj(vec![("use_verb", s("waitforexitandrun"))])),
        ]),
    )]);
    let version = ExactVersion::new("LIVE".to_string(), "version-2".to_string());
    let plan = plan_install(version, Binary::Studio, "/d", &global, installations, &JsonValue::Null);
    assert!(plan.upgrading);
    assert!(plan.remove_cached_deployment);
    assert!(plan.fix_studio_font);
    assert_eq!(plan.remove_old_install, Some("/old".to_string()));
    let record = plan.config_entry.get("Studio").unwrap();
    assert_eq!(record.str_at("preferred_proton"), Some("Mine"));
    assert_eq!(record.get("configuration").unwrap().str_at("use_verb"), Some("waitforexitandrun"));
}

#[test]
fn reinstalling_same_version_is_no_upgrade() {
    let installations = obj(vec![("Player", obj(vec![("version_hash", s("version-2"))]))]);
    let version = ExactVersion::new("LIVE".to_string(), "version-2".to_string());
    let plan = plan_install(version, Binary::Player, "/d", &obj(vec![]), installations, &JsonValue::Null);
    assert!(!plan.upgrading);
    assert!(plan.remove_old_install.is_none());
}

#[test]
fn client_settings_target_refresh_rate() {
    match client_app_settings(144).get("DFIntTaskSchedulerTargetFps") {
        Some(JsonValue::Number(n)) => assert_eq!(n, "144"),
        _ => panic!("expected a number"),
    }
    match client_app_settings(-5).get("DFIntTaskSchedulerTargetFps") {
        Some(JsonValue::Number(n)) => assert_eq!(n, "-5"),
        _ => panic!("expected a number"),
    }
}

#[test]
fn refresh_rate_defaults_to_sixty() {
    assert_eq!(refresh_rate_or_default(Some(144)), 144);
    assert_eq!(refresh_rate_or_default(None), 60);
}

#[test]
fn proton_instances_are_checked() {
    assert!(check_proton_instances(&JsonValue::Null));
    let ok = JsonValue::Object(vec![("a".to_string(), s("/x/Proton 8")), ("b".to_string(), JsonValue::Null)]);
    assert!(check_proton_instances(&ok));
    let bad = JsonValue::Object(vec![("a".to_string(), JsonValue::Null), ("b".to_string(), s("/x/Proton 8"))]);
    assert!(!check_proton_instances(&bad));
    let none = JsonValue::Object(vec![("a".to_string(), s("/x/wine"))]);
    assert!(check_proton_instances(&none));
    assert!(!check_proton_instances(&s("/x/Proton")));
}

#[test]
fn client_settings_file_text() {
    assert_eq!(client_app_settings_text(144), "{\"DFIntTaskSchedulerTargetFps\":144}");
    assert_eq!(client_app_settings_text(-5), "{\"DFIntTaskSchedulerTargetFps\":-5}");
}
