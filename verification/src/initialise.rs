//! The `--init` command: the desktop shortcuts, the first configuration, and the assets.
use vstd::prelude::*;
use crate::installation::Binary;
use crate::json::{at_key, entries, lemma_lookup_found, lookup, string_of, JsonValue};
use crate::text::{concat, split_char, split_spec, views};

verus! {

/// The start of the Player's desktop shortcut, up to its icon's folder.
pub open spec fn player_shortcut_head() -> Seq<char> {
    "[Desktop Entry]\nName=Roblox Player\nComment=Launch Roblox Player with Applejuice and download latest version\nExec=env applejuicecli --launch --binary Player --bootstrap --args %u\nIcon="@
}

/// The rest of the Player's desktop shortcut, after its icon's folder.
pub open spec fn player_shortcut_tail() -> Seq<char> {
    "/assets/player.png\nType=Application\nCategories=Game\nMimeType=x-scheme-handler/roblox-player;x-scheme-handler/roblox"@
}

/// The start of Studio's desktop shortcut, up to its icon's folder.
pub open spec fn studio_shortcut_head() -> Seq<char> {
    "[Desktop Entry]\nName=Roblox Studio\nComment=Launch Roblox Studio with Applejuice and download latest version\nExec=env applejuicecli --launch --binary Studio --bootstrap --args %u\nIcon="@
}

/// The rest of Studio's desktop shortcut, after its icon's folder.
pub open spec fn studio_shortcut_tail() -> Seq<char> {
    "/assets/studio.png\nType=Application\nCategories=Game\nMimeType=x-scheme-handler/roblox-studio;x-scheme-handler/roblox-studio-auth"@
}

/// The desktop shortcut that launches `binary` through Applejuice, with its icon in the data
/// folder `location`; it handles Roblox's links for that binary.
pub fn shortcut_contents(location: &str, binary: Binary) -> (res: String)
    ensures
        res@ == match binary {
            Binary::Player => player_shortcut_head() + location@ + player_shortcut_tail(),
            Binary::Studio => studio_shortcut_head() + location@ + studio_shortcut_tail(),
        },
{
    match binary {
        Binary::Player => {
            let a = concat(
                "[Desktop Entry]\nName=Roblox Player\nComment=Launch Roblox Player with Applejuice and download latest version\nExec=env applejuicecli --launch --binary Player --bootstrap --args %u\nIcon=",
                location,
            );
            concat(
                a.as_str(),
                "/assets/player.png\nType=Application\nCategories=Game\nMimeType=x-scheme-handler/roblox-player;x-scheme-handler/roblox",
            )
        },
        Binary::Studio => {
            let a = concat(
                "[Desktop Entry]\nName=Roblox Studio\nComment=Launch Roblox Studio with Applejuice and download latest version\nExec=env applejuicecli --launch --binary Studio --bootstrap --args %u\nIcon=",
                location,
            );
            concat(
                a.as_str(),
                "/assets/studio.png\nType=Application\nCategories=Game\nMimeType=x-scheme-handler/roblox-studio;x-scheme-handler/roblox-studio-auth",
            )
        },
    }
}

/// The first contents of the section `global`: configuration version `0`, no overrides, the
/// downloaded deployment kept after an installation, and the replaced installation removed.
pub open spec fn default_global(g: JsonValue) -> bool {
    let misc = at_key(g, "misc"@);
    let overrides = at_key(misc, "overrides"@);
    &&& g is Object
    &&& entries(g).len() == 2
    &&& entries(misc).len() == 3
    &&& string_of(at_key(g, "config_version"@)) == Some("0"@)
    &&& misc is Object
    &&& at_key(misc, "purge_cached_deployment_after_install"@) == JsonValue::Bool(false)
    &&& at_key(misc, "purge_old_installed_deployments_after_update"@) == JsonValue::Bool(true)
    &&& overrides is Object
    &&& entries(overrides).len() == 4
    &&& at_key(overrides, "LATEST_VERSION_PLAYER_CHANNEL"@) is Null
    &&& at_key(overrides, "LATEST_VERSION_STUDIO_CHANNEL"@) is Null
    &&& at_key(overrides, "LIVE_DEPLOYMENT_CDN"@) is Null
    &&& at_key(overrides, "CHANNEL_DEPLOYMENT_CDN"@) is Null
}

/// The first contents of the section `global` of the configuration.
pub fn default_global_config() -> (res: JsonValue)
    ensures
        default_global(res),
{
    proof {
        reveal_strlit("purge_cached_deployment_after_install");
        reveal_strlit("purge_old_installed_deployments_after_update");
        reveal_strlit("overrides");
        reveal_strlit("config_version");
        reveal_strlit("misc");
        assert("overrides"@.len() != "purge_cached_deployment_after_install"@.len());
        assert("overrides"@.len() != "purge_old_installed_deployments_after_update"@.len());
        assert("purge_cached_deployment_after_install"@.len() != "purge_old_installed_deployments_after_update"@.len());
        assert("config_version"@.len() != "misc"@.len());
    }
    let mut overrides: Vec<(String, JsonValue)> = Vec::new();
    overrides.push((String::from_str("LATEST_VERSION_PLAYER_CHANNEL"), JsonValue::Null));
    overrides.push((String::from_str("LATEST_VERSION_STUDIO_CHANNEL"), JsonValue::Null));
    overrides.push((String::from_str("LIVE_DEPLOYMENT_CDN"), JsonValue::Null));
    overrides.push((String::from_str("CHANNEL_DEPLOYMENT_CDN"), JsonValue::Null));
    let ghost os = overrides@;
    assert forall|k: Seq<char>| lookup(os, k) is None || lookup(os, k) == Some(JsonValue::Null) by {
        reveal_with_fuel(lookup, 5);
    }
    let mut misc: Vec<(String, JsonValue)> = Vec::new();
    misc.push((String::from_str("overrides"), JsonValue::Object(overrides)));
    misc.push((String::from_str("purge_cached_deployment_after_install"), JsonValue::Bool(false)));
    misc.push((String::from_str("purge_old_installed_deployments_after_update"), JsonValue::Bool(true)));
    let ghost ms = misc@;
    proof {
        lemma_lookup_found(ms, "overrides"@, 0);
        lemma_lookup_found(ms, "purge_cached_deployment_after_install"@, 1);
        lemma_lookup_found(ms, "purge_old_installed_deployments_after_update"@, 2);
    }
    let mut global: Vec<(String, JsonValue)> = Vec::new();
    global.push((String::from_str("config_version"), JsonValue::String(String::from_str("0"))));
    global.push((String::from_str("misc"), JsonValue::Object(misc)));
    let ghost gs = global@;
    proof {
        lemma_lookup_found(gs, "config_version"@, 0);
        lemma_lookup_found(gs, "misc"@, 1);
    }
    JsonValue::Object(global)
}

/// Unicode lower-casing of a text.
pub uninterp spec fn unicode_lowercase(s: Seq<char>) -> Seq<char>;

/// The text in lower case.
/// Calls `str::to_lowercase`, whose result is fixed by the Unicode tables; it is named here
/// by `unicode_lowercase` and not stated further.
#[verifier::external_body]
fn to_lowercase(s: &str) -> (res: String)
    ensures
        res@ == unicode_lowercase(s@),
{
    s.to_lowercase()
}

/// The file name an asset is saved under: the last part of its address, in lower case.
pub fn asset_file_name(url: &str) -> (res: String)
    ensures
        res@ == unicode_lowercase(split_spec(url@, '/').last()),
{
    let parts = split_char(url, '/');
    proof {
        crate::text::lemma_split_nonempty(url@, '/');
    }
    let last = parts.len() - 1;
    assert(views(parts@)[last as int] == parts@[last as int]@);
    to_lowercase(parts[last].as_str())
}

} // verus!
