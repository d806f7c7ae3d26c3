//! The `--install` command: reading its arguments, and what an installation writes and removes.
use vstd::prelude::*;
use crate::argparse::{first_value, get_param_value_new};
use crate::installation::{binary_name, Binary, ExactVersion, Version};
use crate::json::{at_key, entries, lemma_lookup_found, string_of, JsonValue};
use crate::json_text::{json_text, to_json};
use crate::text::{concat, contains, contains_spec, copy_str, decimal, decimal_string, split_char, split_spec, views};

verus! {

/// What `--install` was asked to do.
pub struct InstallRequest {
    pub version: Version,
    /// Whether deployments are extracted on several threads (`--nothreads` turns this off).
    pub threading: bool,
}

/// The value of `--install` does not name what to install: its first word is empty, or it
/// has more than a binary (or hash) and a channel.
#[derive(PartialEq, Eq, Structural, Clone, Copy, Debug)]
pub struct InstallUsageError;

/// The request made by the arguments `arguments` of `--install`: its value is a binary (or,
/// with `--exact`, a version hash) and optionally a channel (`LIVE` where none is given).
pub fn parse_install_arguments(arguments: &[(String, String)]) -> (res: Result<InstallRequest, InstallUsageError>)
    requires
        first_value(arguments@, "install"@) is Some,
    ensures
        ({
            let words = split_spec(first_value(arguments@, "install"@).unwrap(), ' ');
            match res {
                Ok(req) => {
                    &&& words[0].len() > 0
                    &&& words.len() <= 2
                    &&& req.threading == (first_value(arguments@, "nothreads"@) is None)
                    &&& ({
                        let channel = if words.len() == 2 { words[1] } else { "LIVE"@ };
                        if first_value(arguments@, "exact"@) is Some {
                            req.version matches Version::Exact(e) && e.hash@ == words[0] && e.channel@ == channel
                        } else {
                            req.version matches Version::Latest(l) && l.binary@ == words[0] && l.channel@ == channel
                        }
                    })
                },
                Err(_) => words[0].len() == 0 || words.len() > 2,
            }
        }),
{
    let inline = match get_param_value_new(arguments, "install") {
        Some(v) => v,
        None => {
            return Err(InstallUsageError);
        },
    };
    let exact = get_param_value_new(arguments, "exact").is_some();
    let threading = get_param_value_new(arguments, "nothreads").is_none();
    let words = split_char(inline, ' ');
    proof {
        crate::text::lemma_split_nonempty(inline@, ' ');
    }
    assert(views(words@)[0] == words@[0]@);
    if words[0].as_str().is_empty() {
        return Err(InstallUsageError);
    }
    let channel = if words.len() >= 2 {
        assert(views(words@)[1] == words@[1]@);
        copy_str(words[1].as_str())
    } else {
        String::from_str("LIVE")
    };
    if words.len() > 2 {
        return Err(InstallUsageError);
    }
    let hash_or_binary = copy_str(words[0].as_str());
    let version = if exact {
        Version::exact(channel, hash_or_binary)
    } else {
        Version::latest(channel, hash_or_binary)
    };
    Ok(InstallRequest { version, threading })
}

/// Whether the root disk has less than 1 GB free, so that the user is asked before installing.
pub fn low_disk_space(available_bytes: u64) -> (res: bool)
    ensures
        res == (available_bytes < 1_000_000_000),
{
    available_bytes < 1_000_000_000
}

/// The first Proton installation whose path names Proton, in the order the configuration
/// lists them (the order of their names, as the map that reads the file keeps them).
pub open spec fn proton_choice(es: Seq<(String, JsonValue)>) -> Option<Seq<char>>
    decreases es.len(),
{
    if es.len() == 0 {
        None
    } else if string_of(es[0].1) matches Some(path) && contains_spec(path, "Proton"@) {
        Some(es[0].0@)
    } else {
        proton_choice(es.drop_first())
    }
}

/// Every Proton installation looked at before one is chosen has a path.
pub open spec fn proton_paths_readable(es: Seq<(String, JsonValue)>) -> bool
    decreases es.len(),
{
    es.len() == 0 || (string_of(es[0].1) matches Some(path) && (contains_spec(path, "Proton"@)
        || proton_paths_readable(es.drop_first())))
}

/// The Proton installations of the configuration can be looked through: there are none
/// (`null`), or they form an object of paths.
pub open spec fn proton_instances_readable(proton_instances: JsonValue) -> bool {
    proton_instances is Null || (proton_instances is Object && proton_paths_readable(entries(proton_instances)))
}

/// Whether the Proton installations of the configuration can be looked through.
pub fn check_proton_instances(proton_instances: &JsonValue) -> (res: bool)
    ensures
        res == proton_instances_readable(*proton_instances),
{
    match proton_instances {
        JsonValue::Null => true,
        JsonValue::Object(es) => {
            let ghost all = es@;
            assert(entries(*proton_instances) == all);
            assert(all.skip(0) =~= all);
            for i in 0..es.len()
                invariant
                    all == es@,
                    entries(*proton_instances) == all,
                    proton_paths_readable(all) == proton_paths_readable(all.skip(i as int)),
            {
                let ghost rest = all.skip(i as int);
                assert(rest[0] == all[i as int]);
                assert(rest.drop_first() =~= all.skip(i + 1));
                match es[i].1.as_str() {
                    Some(p) => {
                        if contains(p, "Proton") {
                            return true;
                        }
                    },
                    None => {
                        return false;
                    },
                }
            }
            assert(all.skip(es.len() as int).len() == 0);
            true
        },
        _ => false,
    }
}

/// The Proton installation that a new installation prefers: the first whose path names
/// Proton, and none (the empty name) where there is no such installation.
pub open spec fn preferred_proton_spec(proton_instances: JsonValue) -> Seq<char> {
    match proton_choice(entries(proton_instances)) {
        Some(k) => k,
        None => Seq::empty(),
    }
}

/// The name of the Proton installation that a new installation prefers.
pub fn preferred_proton(proton_instances: &JsonValue) -> (res: String)
    requires
        proton_instances_readable(*proton_instances),
    ensures
        res@ == preferred_proton_spec(*proton_instances),
{
    match proton_instances {
        JsonValue::Object(es) => {
            let ghost all = es@;
            assert(entries(*proton_instances) == all);
            assert(all.skip(0) =~= all);
            for i in 0..es.len()
                invariant
                    all == es@,
                    entries(*proton_instances) == all,
                    proton_choice(all) == proton_choice(all.skip(i as int)),
                    proton_paths_readable(all.skip(i as int)),
            {
                let ghost rest = all.skip(i as int);
                assert(rest[0] == all[i as int]);
                assert(rest.drop_first() =~= all.skip(i + 1));
                let path = es[i].1.as_str();
                match path {
                    Some(p) => {
                        if contains(p, "Proton") {
                            assert(string_of(rest[0].1) == Some(p@));
                            assert(proton_choice(rest) == Some(rest[0].0@));
                            return copy_str(es[i].0.as_str());
                        }
                    },
                    None => {
                        assert(false);
                    },
                }
            }
            String::new()
        },
        _ => String::new(),
    }
}

/// Where an installation of `binary` at `version` goes: `<data folder>/roblox/<channel>/<binary>/<hash>`.
pub open spec fn install_folder_spec(applejuice_dir: Seq<char>, version: ExactVersion, binary: Binary) -> Seq<char> {
    applejuice_dir + "/roblox/"@ + version.channel@ + "/"@ + binary_name(binary) + "/"@ + version.hash@
}

/// The recorded version of an installation, where there is one.
pub open spec fn recorded_version(existing: JsonValue) -> JsonValue {
    at_key(existing, "version_hash"@)
}

/// An installation replaces another version: one is recorded, and it is not `version_hash`.
pub open spec fn is_upgrade(existing: JsonValue, version_hash: Seq<char>) -> bool {
    !(recorded_version(existing) is Null) && string_of(recorded_version(existing)) != Some(version_hash)
}

/// The configuration that a new installation starts with.
pub open spec fn default_install_configuration(c: JsonValue) -> bool {
    &&& c is Object
    &&& entries(c).len() == 5
    &&& string_of(at_key(c, "preferred_compat"@)) == Some("proton"@)
    &&& string_of(at_key(c, "use_verb"@)) == Some("run"@)
    &&& string_of(at_key(c, "prefix"@)) == Some("prefixdata"@)
    &&& string_of(at_key(c, "parameters"@)) == Some("%command%"@)
    &&& at_key(c, "enable_rpc"@) == JsonValue::Bool(true)
}

/// `entry` is the installation record written for `binary` at `version` in `folder`: where
/// an installation with a recorded version exists, its preferred Proton and configuration
/// are kept; otherwise the new record prefers `proton` and gets the default configuration.
pub open spec fn install_record(entry: JsonValue, binary: Binary, version: ExactVersion, folder: Seq<char>, existing: JsonValue, proton: Seq<char>) -> bool {
    let record = at_key(entry, binary_name(binary));
    &&& entry is Object
    &&& entries(entry).len() == 1
    &&& entries(entry)[0].0@ == binary_name(binary)
    &&& record is Object
    &&& entries(record).len() == 5
    &&& string_of(at_key(record, "channel"@)) == Some(version.channel@)
    &&& string_of(at_key(record, "version_hash"@)) == Some(version.hash@)
    &&& string_of(at_key(record, "install_path"@)) == Some(folder)
    &&& if !(recorded_version(existing) is Null) {
        &&& at_key(record, "preferred_proton"@) == at_key(existing, "preferred_proton"@)
        &&& at_key(record, "configuration"@) == at_key(existing, "configuration"@)
    } else {
        &&& string_of(at_key(record, "preferred_proton"@)) == Some(proton)
        &&& default_install_configuration(at_key(record, "configuration"@))
    }
}

/// What an installation does besides downloading and extracting.
pub struct InstallPlan {
    /// A different version of this binary was installed before.
    pub upgrading: bool,
    /// Where the deployment is extracted.
    pub folder_path: String,
    /// Studio's broken font is to be removed after extraction.
    pub fix_studio_font: bool,
    /// The cached download is removed after the installation.
    pub remove_cached_deployment: bool,
    /// The previous installation to remove, where one is replaced and the configuration asks for it.
    pub remove_old_install: Option<String>,
    /// What is written into the section `roblox_installations` of the configuration.
    pub config_entry: JsonValue,
}

/// A JSON string holding `s`.
fn json_string(s: &str) -> (res: JsonValue)
    ensures
        string_of(res) == Some(s@),
{
    JsonValue::String(copy_str(s))
}

/// The default configuration of a new installation.
fn default_configuration() -> (res: JsonValue)
    ensures
        default_install_configuration(res),
{
    proof {
        reveal_strlit("preferred_compat");
        reveal_strlit("use_verb");
        reveal_strlit("prefix");
        reveal_strlit("parameters");
        reveal_strlit("enable_rpc");
        assert("parameters"@[0] != "enable_rpc"@[0]);
        assert("prefix"@.len() != "enable_rpc"@.len() && "prefix"@.len() != "parameters"@.len());
        assert("use_verb"@.len() != "enable_rpc"@.len() && "use_verb"@.len() != "parameters"@.len() && "use_verb"@.len() != "prefix"@.len());
        assert("preferred_compat"@.len() != "enable_rpc"@.len() && "preferred_compat"@.len() != "parameters"@.len() && "preferred_compat"@.len() != "prefix"@.len() && "preferred_compat"@.len() != "use_verb"@.len());
    }
    let mut es: Vec<(String, JsonValue)> = Vec::new();
    es.push((String::from_str("preferred_compat"), json_string("proton")));
    es.push((String::from_str("use_verb"), json_string("run")));
    es.push((String::from_str("prefix"), json_string("prefixdata")));
    es.push((String::from_str("parameters"), json_string("%command%")));
    es.push((String::from_str("enable_rpc"), JsonValue::Bool(true)));
    let res = JsonValue::Object(es);
    proof {
        lemma_lookup_found(es@, "enable_rpc"@, 4);
        lemma_lookup_found(es@, "parameters"@, 3);
        lemma_lookup_found(es@, "prefix"@, 2);
        lemma_lookup_found(es@, "use_verb"@, 1);
        lemma_lookup_found(es@, "preferred_compat"@, 0);
    }
    res
}

/// Whether `global_config[misc][key]` is `true`.
fn misc_flag(global_config: &JsonValue, key: &str) -> (res: bool)
    ensures
        res == (at_key(at_key(*global_config, "misc"@), key@) == JsonValue::Bool(true)),
{
    match global_config.get("misc") {
        Some(misc) => match misc.get(key) {
            Some(v) => v.is_true(),
            None => false,
        },
        None => false,
    }
}

/// The plan for installing `binary` at `version`, given the data folder, the sections
/// `global` and `roblox_installations` of the configuration, and the Proton installations.
pub fn plan_install(
    version: ExactVersion,
    binary: Binary,
    applejuice_dir: &str,
    global_config: &JsonValue,
    installations: JsonValue,
    proton_instances: &JsonValue,
) -> (res: InstallPlan)
    requires
        proton_instances_readable(*proton_instances),
    ensures
        ({
            let existing = at_key(installations, binary_name(binary));
            let folder = install_folder_spec(applejuice_dir@, version, binary);
            &&& res.upgrading == is_upgrade(existing, version.hash@)
            &&& res.folder_path@ == folder
            &&& res.fix_studio_font == (binary == Binary::Studio)
            &&& res.remove_cached_deployment == (at_key(at_key(*global_config, "misc"@), "purge_cached_deployment_after_install"@) == JsonValue::Bool(true))
            &&& match res.remove_old_install {
                Some(p) => {
                    &&& at_key(at_key(*global_config, "misc"@), "purge_old_installed_deployments_after_update"@) == JsonValue::Bool(true)
                    &&& is_upgrade(existing, version.hash@)
                    &&& p@ == match string_of(at_key(existing, "install_path"@)) {
                        Some(s) => s,
                        None => Seq::<char>::empty(),
                    }
                },
                None => !(at_key(at_key(*global_config, "misc"@), "purge_old_installed_deployments_after_update"@) == JsonValue::Bool(true)
                    && is_upgrade(existing, version.hash@)),
            }
            &&& install_record(res.config_entry, binary, version, folder, existing, preferred_proton_spec(*proton_instances))
        }),
{
    proof {
        reveal_strlit("channel");
        reveal_strlit("version_hash");
        reveal_strlit("install_path");
        reveal_strlit("preferred_proton");
        reveal_strlit("configuration");
        assert("preferred_proton"@.len() != "configuration"@.len());
        assert("install_path"@.len() != "configuration"@.len() && "install_path"@.len() != "preferred_proton"@.len());
        assert("version_hash"@[0] != "install_path"@[0]);
        assert("version_hash"@.len() != "configuration"@.len() && "version_hash"@.len() != "preferred_proton"@.len());
        assert("channel"@.len() != "configuration"@.len() && "channel"@.len() != "preferred_proton"@.len() && "channel"@.len() != "install_path"@.len() && "channel"@.len() != "version_hash"@.len());
    }
    let ghost existing_spec = at_key(installations, binary_name(binary));
    let binary_key = binary.name();
    let existing = installations.take(binary_key.as_str());
    let (upgrading, has_record) = match existing.get("version_hash") {
        Some(v) => (!v.is_null() && !v.is_string(version.hash.as_str()), !v.is_null()),
        None => (false, false),
    };
    let a = concat(applejuice_dir, "/roblox/");
    let b = concat(a.as_str(), version.channel.as_str());
    let c = concat(b.as_str(), "/");
    let d = concat(c.as_str(), binary_key.as_str());
    let e = concat(d.as_str(), "/");
    let folder_path = concat(e.as_str(), version.hash.as_str());
    let remove_cached_deployment = misc_flag(global_config, "purge_cached_deployment_after_install");
    let remove_deployment = misc_flag(global_config, "purge_old_installed_deployments_after_update");
    let remove_old_install = if remove_deployment && upgrading {
        match existing.str_at("install_path") {
            Some(p) => Some(copy_str(p)),
            None => Some(String::new()),
        }
    } else {
        None
    };
    let proton = preferred_proton(proton_instances);
    let mut record: Vec<(String, JsonValue)> = Vec::new();
    record.push((String::from_str("channel"), json_string(version.channel.as_str())));
    record.push((String::from_str("version_hash"), json_string(version.hash.as_str())));
    record.push((String::from_str("install_path"), json_string(folder_path.as_str())));
    if has_record {
        let (kept_proton, kept_configuration) = existing.take_pair("preferred_proton", "configuration");
        record.push((String::from_str("preferred_proton"), kept_proton));
        record.push((String::from_str("configuration"), kept_configuration));
    } else {
        record.push((String::from_str("preferred_proton"), json_string(proton.as_str())));
        record.push((String::from_str("configuration"), default_configuration()));
    }
    let ghost rs = record@;
    proof {
        lemma_lookup_found(rs, "configuration"@, 4);
        lemma_lookup_found(rs, "preferred_proton"@, 3);
        lemma_lookup_found(rs, "install_path"@, 2);
        lemma_lookup_found(rs, "version_hash"@, 1);
        lemma_lookup_found(rs, "channel"@, 0);
    }
    let mut entry: Vec<(String, JsonValue)> = Vec::new();
    entry.push((binary_key, JsonValue::Object(record)));
    let config_entry = JsonValue::Object(entry);
    InstallPlan {
        upgrading,
        folder_path,
        fix_studio_font: binary == Binary::Studio,
        remove_cached_deployment,
        remove_old_install,
        config_entry,
    }
}

/// The display's refresh rate, or 60 Hz where it could not be detected.
pub fn refresh_rate_or_default(detected: Option<i32>) -> (res: i32)
    ensures
        res == match detected {
            Some(r) => r,
            None => 60i32,
        },
{
    match detected {
        Some(r) => r,
        None => 60,
    }
}

/// The client settings of a new installation: an object whose one member,
/// `DFIntTaskSchedulerTargetFps`, is the number `refresh_rate`.
pub open spec fn client_settings(v: JsonValue, refresh_rate: int) -> bool {
    &&& v is Object
    &&& entries(v).len() == 1
    &&& at_key(v, "DFIntTaskSchedulerTargetFps"@) matches JsonValue::Number(n) && n@ == decimal(refresh_rate)
}

/// The client settings written for a new installation: a frame-rate target of `refresh_rate`.
pub fn client_app_settings(refresh_rate: i32) -> (res: JsonValue)
    ensures
        client_settings(res, refresh_rate as int),
{
    let mut es: Vec<(String, JsonValue)> = Vec::new();
    es.push((String::from_str("DFIntTaskSchedulerTargetFps"), JsonValue::Number(decimal_string(refresh_rate as i64))));
    JsonValue::Object(es)
}

/// The text of the client settings file (`ClientAppSettings.json`) of a new installation.
pub fn client_app_settings_text(refresh_rate: i32) -> (res: String)
    ensures
        exists|v: JsonValue| #[trigger] client_settings(v, refresh_rate as int) && res@ == json_text(v),
{
    let settings = client_app_settings(refresh_rate);
    let text = to_json(&settings);
    assert(client_settings(settings, refresh_rate as int) && text@ == json_text(settings));
    text
}

/// An installation, once its record is written into the section `roblox_installations`,
/// is found there: the configuration names the installed version, its channel and its folder
/// for the binary installed.
pub proof fn installed_version_is_recorded(
    config: JsonValue,
    entry: JsonValue,
    res: JsonValue,
    binary: Binary,
    version: ExactVersion,
    folder: Seq<char>,
    existing: JsonValue,
    proton: Seq<char>,
)
    requires
        install_record(entry, binary, version, folder, existing, proton),
        crate::configuration::config_updated(config, entry, "roblox_installations"@, res),
    ensures
        ({
            let recorded = at_key(at_key(res, "roblox_installations"@), binary_name(binary));
            &&& string_of(at_key(recorded, "version_hash"@)) == Some(version.hash@)
            &&& string_of(at_key(recorded, "channel"@)) == Some(version.channel@)
            &&& string_of(at_key(recorded, "install_path"@)) == Some(folder)
        }),
{
    assert(crate::json::keys_unique(entries(entry)));
    crate::configuration::update_then_get_reads_back(config, entry, "roblox_installations"@, res, 0);
}

/// The install folder of `binary` at `version` lies in the data folder's `roblox` tree under
/// the version's channel, and its last two segments are the name of the binary installed and
/// the version: it is `<dir>/roblox/<channel>/` followed by `<binary name>/<hash>` and nothing else.
pub proof fn install_folder_names_binary_and_version(dir: Seq<char>, version: ExactVersion, binary: Binary)
    ensures
        ({
            let folder = install_folder_spec(dir, version, binary);
            let head = dir + "/roblox/"@ + version.channel@ + "/"@;
            let tail = binary_name(binary) + "/"@ + version.hash@;
            &&& folder.len() == head.len() + tail.len()
            &&& folder.take(head.len() as int) == head
            &&& folder.skip(head.len() as int) == tail
        }),
{
    let folder = install_folder_spec(dir, version, binary);
    let head = dir + "/roblox/"@ + version.channel@ + "/"@;
    let tail = binary_name(binary) + "/"@ + version.hash@;
    assert(folder =~= head + tail);
    assert((head + tail).take(head.len() as int) =~= head);
    assert((head + tail).skip(head.len() as int) =~= tail);
}

/// Player and Studio at the same version and channel are installed in different folders.
pub proof fn binaries_install_apart(dir: Seq<char>, version: ExactVersion)
    ensures
        install_folder_spec(dir, version, Binary::Player) != install_folder_spec(dir, version, Binary::Studio),
{
    reveal_strlit("Player");
    reveal_strlit("Studio");
    let head = dir + "/roblox/"@ + version.channel@ + "/"@;
    install_folder_names_binary_and_version(dir, version, Binary::Player);
    install_folder_names_binary_and_version(dir, version, Binary::Studio);
    let a = install_folder_spec(dir, version, Binary::Player);
    let b = install_folder_spec(dir, version, Binary::Studio);
    assert(a.skip(head.len() as int)[0] == 'P');
    assert(b.skip(head.len() as int)[0] == 'S');
}

/// Two versions of a binary on a channel are installed in different folders.
pub proof fn versions_install_apart(dir: Seq<char>, v1: ExactVersion, v2: ExactVersion, binary: Binary)
    requires
        v1.channel@ == v2.channel@,
        v1.hash@ != v2.hash@,
    ensures
        install_folder_spec(dir, v1, binary) != install_folder_spec(dir, v2, binary),
{
    let base = dir + "/roblox/"@ + v1.channel@ + "/"@ + binary_name(binary) + "/"@;
    assert(install_folder_spec(dir, v1, binary) =~= base + v1.hash@);
    assert(install_folder_spec(dir, v2, binary) =~= base + v2.hash@);
    if install_folder_spec(dir, v1, binary) == install_folder_spec(dir, v2, binary) {
        assert((base + v1.hash@).skip(base.len() as int) =~= v1.hash@);
        assert((base + v2.hash@).skip(base.len() as int) =~= v2.hash@);
    }
}

/// A Proton installation whose path names Proton.
pub open spec fn names_proton(path: JsonValue) -> bool {
    string_of(path) matches Some(p) && contains_spec(p, "Proton"@)
}

proof fn lemma_proton_choice_first(es: Seq<(String, JsonValue)>)
    ensures
        match proton_choice(es) {
            Some(k) => exists|i: int|
                0 <= i < es.len() && (#[trigger] es[i]).0@ == k && names_proton(es[i].1)
                    && forall|j: int| 0 <= j < i ==> !names_proton(#[trigger] es[j].1),
            None => forall|i: int| 0 <= i < es.len() ==> !names_proton(#[trigger] es[i].1),
        },
    decreases es.len(),
{
    if es.len() > 0 {
        let rest = es.drop_first();
        lemma_proton_choice_first(rest);
        if names_proton(es[0].1) {
            assert(es[0].0@ == es[0].0@ && names_proton(es[0].1));
        } else {
            match proton_choice(rest) {
                Some(k) => {
                    let i = choose|i: int|
                        0 <= i < rest.len() && (#[trigger] rest[i]).0@ == k && names_proton(rest[i].1)
                            && forall|j: int| 0 <= j < i ==> !names_proton(#[trigger] rest[j].1);
                    assert(es[i + 1] == rest[i]);
                    assert forall|j: int| 0 <= j < i + 1 implies !names_proton(#[trigger] es[j].1) by {
                        if j > 0 {
                            assert(es[j] == rest[j - 1]);
                        }
                    }
                },
                None => {
                    assert forall|i: int| 0 <= i < es.len() implies !names_proton(#[trigger] es[i].1) by {
                        if i > 0 {
                            assert(es[i] == rest[i - 1]);
                        }
                    }
                },
            }
        }
    }
}

/// The Proton installation that a new installation prefers is the first, in the
/// configuration's order, whose path names Proton: its key is that of an entry whose path
/// holds `Proton` and no entry before it has such a path; where no entry has one, the
/// preferred name is empty.
pub proof fn preferred_proton_is_first_match(proton_instances: JsonValue)
    ensures
        ({
            let es = entries(proton_instances);
            let k = preferred_proton_spec(proton_instances);
            ||| exists|i: int|
                0 <= i < es.len() && (#[trigger] es[i]).0@ == k && names_proton(es[i].1)
                    && forall|j: int| 0 <= j < i ==> !names_proton(#[trigger] es[j].1)
            ||| k.len() == 0 && forall|i: int| 0 <= i < es.len() ==> !names_proton(#[trigger] es[i].1)
        }),
{
    lemma_proton_choice_first(entries(proton_instances));
}

/// An installation is an upgrade exactly when a version is recorded for the binary and the
/// version installed is another one: reinstalling the recorded version, or installing where
/// none is recorded, is no upgrade.
pub proof fn upgrade_means_another_recorded_version(existing: JsonValue, version_hash: Seq<char>)
    ensures
        at_key(existing, "version_hash"@) is Null ==> !is_upgrade(existing, version_hash),
        string_of(at_key(existing, "version_hash"@)) == Some(version_hash) ==> !is_upgrade(existing, version_hash),
        string_of(at_key(existing, "version_hash"@)) matches Some(h) && h != version_hash ==> is_upgrade(existing, version_hash),
{
}

} // verus!
