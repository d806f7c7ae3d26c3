//! The `--launch` command: its arguments, the update check, fullscreen forcing, and what is started.
use vstd::prelude::*;
use crate::argparse::{first_value, get_param_value_new};
use crate::json::{at_key, entries, lookup, string_of, JsonValue};
use crate::text::{concat, contains, contains_spec, copy_str, remove_all, remove_all_spec, str_eq};

verus! {

/// What `--launch` was asked to do.
pub struct LaunchOptions {
    /// `Player` or `Studio`.
    pub binary: String,
    /// The arguments handed to Roblox, usually from a protocol link (empty where none are given).
    pub protocol_arguments: String,
    pub skip_update_check: bool,
    pub bootstrap: bool,
    pub steamos_override: bool,
    /// Studio is started to sign in (`roblox-studio-auth` is among the protocol arguments).
    pub studio_oauth: bool,
}

/// How the arguments of `--launch` are read.
pub enum LaunchArguments {
    /// `--help` was given.
    Help,
    /// No `--binary` was given.
    MissingBinary,
    Launch(LaunchOptions),
}

/// The value of a parameter, or the empty string where it is absent.
pub open spec fn value_or_empty(v: Option<Seq<char>>) -> Seq<char> {
    match v {
        Some(s) => s,
        None => Seq::empty(),
    }
}

/// The options of a launch as read from the (parameter, value) pairs `raw`.
pub open spec fn launch_options_read(raw: Seq<(String, String)>, o: LaunchOptions) -> bool {
    &&& Some(o.binary@) == first_value(raw, "binary"@)
    &&& o.protocol_arguments@ == value_or_empty(first_value(raw, "args"@))
    &&& o.skip_update_check == (first_value(raw, "skipupdatecheck"@) is Some)
    &&& o.bootstrap == (first_value(raw, "bootstrap"@) is Some)
    &&& o.steamos_override == (first_value(raw, "sosoverride"@) is Some)
    &&& o.studio_oauth == contains_spec(o.protocol_arguments@, "roblox-studio-auth"@)
}

/// How `--launch` reads its (parameter, value) pairs.
pub fn parse_launch_arguments(raw_args: &[(String, String)]) -> (res: LaunchArguments)
    ensures
        first_value(raw_args@, "help"@) is Some ==> res is Help,
        first_value(raw_args@, "help"@) is None && first_value(raw_args@, "binary"@) is None ==> res is MissingBinary,
        first_value(raw_args@, "help"@) is None && first_value(raw_args@, "binary"@) is Some ==> match res {
            LaunchArguments::Launch(o) => launch_options_read(raw_args@, o),
            _ => false,
        },
{
    if get_param_value_new(raw_args, "help").is_some() {
        return LaunchArguments::Help;
    }
    let binary = match get_param_value_new(raw_args, "binary") {
        Some(b) => copy_str(b),
        None => {
            return LaunchArguments::MissingBinary;
        },
    };
    let protocol_arguments = match get_param_value_new(raw_args, "args") {
        Some(a) => copy_str(a),
        None => String::new(),
    };
    let skip_update_check = get_param_value_new(raw_args, "skipupdatecheck").is_some();
    let bootstrap = get_param_value_new(raw_args, "bootstrap").is_some();
    let steamos_override = get_param_value_new(raw_args, "sosoverride").is_some();
    let studio_oauth = contains(protocol_arguments.as_str(), "roblox-studio-auth");
    LaunchArguments::Launch(
        LaunchOptions { binary, protocol_arguments, skip_update_check, bootstrap, steamos_override, studio_oauth },
    )
}

/// Why `--launch` has no installation to start.
pub enum MissingInstallation {
    /// `--bootstrap` was given: the binary is installed, and the launch starts over.
    Bootstrap,
    /// The user is told how to install the binary, and the program stops.
    NotInstalled,
}

/// The installation of `binary` among the configured `installations`, or what is done
/// without one.
pub fn find_installation<'a>(installations: &'a JsonValue, binary: &str, bootstrap: bool) -> (res: Result<
    &'a JsonValue,
    MissingInstallation,
>)
    ensures
        match res {
            Ok(found) => lookup(entries(*installations), binary@) == Some(*found),
            Err(m) => lookup(entries(*installations), binary@) is None && (m is Bootstrap) == bootstrap,
        },
{
    match installations.get(binary) {
        Some(found) => Ok(found),
        None => if bootstrap {
            Err(MissingInstallation::Bootstrap)
        } else {
            Err(MissingInstallation::NotInstalled)
        },
    }
}

/// Whether the rich presence is started for an installation: its
/// `configuration.enable_rpc` is `true` (a missing or non-boolean value counts as `false`).
pub fn rpc_enabled(installation: &JsonValue) -> (res: bool)
    ensures
        res == (at_key(at_key(*installation, "configuration"@), "enable_rpc"@) == JsonValue::Bool(true)),
{
    match installation.get("configuration") {
        Some(configuration) => match configuration.get("enable_rpc") {
            Some(v) => v.is_true(),
            None => false,
        },
        None => false,
    }
}

/// What the update check decides.
pub enum UpdateDecision {
    /// The installed version is the newest.
    UpToDate,
    /// A newer version exists and `--bootstrap` asks to install it.
    Reinstall,
    /// A newer version exists; the user is told so, with the command that installs it.
    Outdated { message: String },
}

/// The command that installs the newest version of `binary` from `channel`.
pub open spec fn install_command_spec(binary: Seq<char>, channel: Seq<char>) -> Seq<char> {
    "--install "@ + (if binary == "Player"@ { "player"@ } else { "studio"@ }) + " "@ + (if channel == "LIVE"@ {
        Seq::<char>::empty()
    } else {
        channel
    })
}

/// The notice that the installed version `version` of `binary` on `channel` is older than `latest`.
pub open spec fn outdated_message_spec(binary: Seq<char>, version: Seq<char>, channel: Seq<char>, latest: Seq<char>) -> Seq<char> {
    "You are on "@ + remove_all_spec(version, "version-"@) + " and the latest version for "@ + channel + " is "@
        + remove_all_spec(latest, "version-"@) + "\nConsider running \""@ + install_command_spec(binary, channel) + "\""@
}

/// The decision of the update check for the installed version `version` of `binary` on
/// `channel`, when the newest version is `latest`.
pub fn update_decision(binary: &str, version: &str, channel: &str, latest: &str, bootstrap: bool) -> (res: UpdateDecision)
    ensures
        latest@ == version@ ==> res is UpToDate,
        latest@ != version@ && bootstrap ==> res is Reinstall,
        latest@ != version@ && !bootstrap ==> (res matches UpdateDecision::Outdated { message }
            && message@ == outdated_message_spec(binary@, version@, channel@, latest@)),
{
    proof {
        reveal_strlit("version-");
    }
    if str_eq(latest, version) {
        return UpdateDecision::UpToDate;
    }
    if bootstrap {
        return UpdateDecision::Reinstall;
    }
    let which = if str_eq(binary, "Player") { "player" } else { "studio" };
    let channel_part = if str_eq(channel, "LIVE") { String::new() } else { copy_str(channel) };
    let cmd = concat("--install ", which);
    let cmd = concat(cmd.as_str(), " ");
    let cmd = concat(cmd.as_str(), channel_part.as_str());
    let m = concat("You are on ", remove_all(version, "version-").as_str());
    let m = concat(m.as_str(), " and the latest version for ");
    let m = concat(m.as_str(), channel);
    let m = concat(m.as_str(), " is ");
    let m = concat(m.as_str(), remove_all(latest, "version-").as_str());
    let m = concat(m.as_str(), "\nConsider running \"");
    let m = concat(m.as_str(), cmd.as_str());
    let message = concat(m.as_str(), "\"");
    UpdateDecision::Outdated { message }
}

/// What becomes of the fullscreen setting once Roblox has exited.
pub enum FullscreenRestore {
    /// Nothing is written back.
    Keep,
    /// The value read before the launch is written back.
    Write(bool),
    /// The value read before the launch is neither `true` nor `false`, and cannot be written back.
    Unreadable,
}

/// What the launch does to the fullscreen setting.
pub struct FullscreenPlan {
    /// Fullscreen is forced on before the launch.
    pub force_on: bool,
    /// Fullscreen is to be forced but the settings file gave no value.
    pub warn_missing: bool,
    pub restore: FullscreenRestore,
}

/// The fullscreen handling when the settings file held `old_value` (empty where it held
/// none), in Big Picture mode or with the SteamOS override: fullscreen is forced, a `false`
/// is turned to `true`, and any value that was read is written back after the launch.
pub fn fullscreen_plan(old_value: &str, big_picture: bool, steamos_override: bool) -> (res: FullscreenPlan)
    ensures
        ({
            let forced = big_picture || steamos_override;
            &&& res.force_on == (forced && old_value@ == "false"@)
            &&& res.warn_missing == (forced && old_value@.len() == 0)
            &&& match res.restore {
                FullscreenRestore::Keep => !forced || old_value@.len() == 0,
                FullscreenRestore::Write(b) => forced && old_value@ == crate::steamos::bool_text(b),
                FullscreenRestore::Unreadable => forced && old_value@.len() > 0 && old_value@ != "true"@
                    && old_value@ != "false"@,
            }
        }),
{
    proof {
        reveal_strlit("true");
        reveal_strlit("false");
    }
    let forced = big_picture || steamos_override;
    let is_false = str_eq(old_value, "false");
    let is_true = str_eq(old_value, "true");
    let empty = old_value.is_empty();
    let restore = if forced && !empty {
        if is_true {
            FullscreenRestore::Write(true)
        } else if is_false {
            FullscreenRestore::Write(false)
        } else {
            FullscreenRestore::Unreadable
        }
    } else {
        FullscreenRestore::Keep
    };
    FullscreenPlan { force_on: forced && is_false, warn_missing: forced && empty, restore }
}

/// The program that starts `binary` from its installation folder `install_path`.
pub fn executable_path(install_path: &str, binary: &str) -> (res: String)
    ensures
        res@ == install_path@ + "/"@ + (if binary@ == "Player"@ {
            "RobloxPlayerBeta.exe"@
        } else {
            "RobloxStudioBeta.exe"@
        }),
{
    let exe = if str_eq(binary, "Player") { "RobloxPlayerBeta.exe" } else { "RobloxStudioBeta.exe" };
    let a = concat(install_path, "/");
    concat(a.as_str(), exe)
}

/// The file without which Studio may not run, in its installation folder `install_path`.
pub fn data_model_patch_path(install_path: &str) -> (res: String)
    ensures
        res@ == install_path@ + "/ExtraContent/models/DataModelPatch/DataModelPatch.rbxm"@,
{
    concat(install_path, "/ExtraContent/models/DataModelPatch/DataModelPatch.rbxm")
}

/// A JSON value's text where it is a string, and the empty text otherwise.
pub open spec fn text_or_empty(v: JsonValue) -> Seq<char> {
    match string_of(v) {
        Some(s) => s,
        None => Seq::empty(),
    }
}

/// The path of the Proton installation that an installation prefers:
/// `proton_installs[installation["preferred_proton"]]`, empty where either is not a string.
pub fn proton_installation_path(proton_installs: &JsonValue, installation: &JsonValue) -> (res: String)
    ensures
        res@ == text_or_empty(at_key(*proton_installs, text_or_empty(at_key(*installation, "preferred_proton"@)))),
{
    let preferred = match installation.str_at("preferred_proton") {
        Some(p) => copy_str(p),
        None => String::new(),
    };
    match proton_installs.str_at(preferred.as_str()) {
        Some(p) => copy_str(p),
        None => String::new(),
    }
}

/// The Proton program in the Proton installation at `proton_path`.
pub fn proton_command(proton_path: &str) -> (res: String)
    ensures
        res@ == proton_path@ + "/proton"@,
{
    concat(proton_path, "/proton")
}

/// The log file that Roblox has just created, among the names `created` of the files created
/// in `expected_log_directory`: the first whose name holds `last.log`, with its index among
/// the names and its path (the directory followed by the name).
pub fn resolve_active_logfile(expected_log_directory: &str, created: &Vec<String>) -> (res: Option<(usize, String)>)
    ensures
        match res {
            Some((i, p)) => i < created@.len() && contains_spec(created@[i as int]@, "last.log"@)
                && (forall|j: int| 0 <= j < i ==> !contains_spec(#[trigger] created@[j]@, "last.log"@))
                && p@ == expected_log_directory@ + created@[i as int]@,
            None => forall|i: int| 0 <= i < created@.len() ==> !contains_spec(#[trigger] created@[i]@, "last.log"@),
        },
{
    for i in 0..created.len()
        invariant
            forall|j: int| 0 <= j < i ==> !contains_spec(#[trigger] created@[j]@, "last.log"@),
    {
        if contains(created[i].as_str(), "last.log") {
            return Some((i, concat(expected_log_directory, created[i].as_str())));
        }
    }
    None
}

/// A launch hands Roblox the value of `--args` exactly as it was given, and nothing where
/// `--args` is absent.
pub proof fn protocol_arguments_passed_unchanged(raw: Seq<(String, String)>, o: LaunchOptions)
    requires
        launch_options_read(raw, o),
    ensures
        first_value(raw, "args"@) matches Some(a) ==> o.protocol_arguments@ == a,
        first_value(raw, "args"@) is None ==> o.protocol_arguments@.len() == 0,
{
}

/// The outdated notice names the installed version first and the newest one second, for
/// every binary: it begins `You are on <installed> and the latest version for <channel> is
/// <newest>` and a line break, both versions without `version-`; only what follows, the
/// install command, depends on the binary.
pub proof fn outdated_notice_names_installed_then_newest(
    binary: Seq<char>,
    version: Seq<char>,
    channel: Seq<char>,
    latest: Seq<char>,
)
    ensures
        ({
            let head = "You are on "@ + remove_all_spec(version, "version-"@) + " and the latest version for "@
                + channel + " is "@ + remove_all_spec(latest, "version-"@) + "\n"@;
            outdated_message_spec(binary, version, channel, latest).take(head.len() as int) == head
        }),
{
    reveal_strlit("\n");
    reveal_strlit("\nConsider running \"");
    reveal_strlit("Consider running \"");
    let body = "You are on "@ + remove_all_spec(version, "version-"@) + " and the latest version for "@
        + channel + " is "@ + remove_all_spec(latest, "version-"@);
    let head = body + "\n"@;
    let rest = "Consider running \""@ + install_command_spec(binary, channel) + "\""@;
    assert("\nConsider running \""@ =~= "\n"@ + "Consider running \""@);
    assert(outdated_message_spec(binary, version, channel, latest) =~= head + rest);
    assert((head + rest).take(head.len() as int) =~= head);
}

/// The install command of the outdated notice names the binary and the channel: Player and
/// Studio get different commands, and a channel other than `LIVE` ends the command.
pub proof fn install_command_names_binary_and_channel(channel: Seq<char>)
    ensures
        install_command_spec("Player"@, channel) != install_command_spec("Studio"@, channel),
        channel != "LIVE"@ ==> ({
            let cmd = install_command_spec("Player"@, channel);
            cmd.skip(cmd.len() - channel.len()) == channel
        }),
        channel != "LIVE"@ ==> ({
            let cmd = install_command_spec("Studio"@, channel);
            cmd.skip(cmd.len() - channel.len()) == channel
        }),
{
    reveal_strlit("Player");
    reveal_strlit("Studio");
    reveal_strlit("player");
    reveal_strlit("studio");
    reveal_strlit("--install ");
    reveal_strlit(" ");
    let p = install_command_spec("Player"@, channel);
    let q = install_command_spec("Studio"@, channel);
    assert("Player"@ != "Studio"@) by {
        assert("Player"@[0] != "Studio"@[0]);
    }
    assert(p[10] == 'p');
    assert(q[10] == 's');
    if channel != "LIVE"@ {
        let pre_p = "--install "@ + "player"@ + " "@;
        let pre_q = "--install "@ + "studio"@ + " "@;
        assert(p =~= pre_p + channel);
        assert(q =~= pre_q + channel);
        assert((pre_p + channel).skip(pre_p.len() as int) =~= channel);
        assert((pre_q + channel).skip(pre_q.len() as int) =~= channel);
    }
}

} // verus!
