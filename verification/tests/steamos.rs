use applejuicecli::steamos::{
    add_item_to_steam_library, get_fullscreen_value_from_rbxxml, is_running_deck_big_picture_mode,
    is_running_on_steamos, parse_osrelease, set_rbx_fullscreen_value,
};

fn strings(v: &[&str]) -> Vec<String> {
    v.iter().map(|s| s.to_string()).collect()
}

const XML: &str = "<roblox>\n<Item class=\"UserGameSettings\">\n<bool name=\"Fullscreen\">false</bool>\n<int name=\"Volume\">5</int>\n</Item>\n</roblox>";

#[test]
fn osrelease_lines_are_split_at_equals() {
    let parsed = parse_osrelease(&strings(&["ID=steamos", "NAME=\"SteamOS\"", "A=b=c"]));
    assert_eq!(parsed[0], strings(&["ID", "steamos"]));
    assert_eq!(parsed[2], strings(&["A", "b", "c"]));
}

#[test]
fn steamos_is_detected_by_its_id() {
    assert!(is_running_on_steamos(&Some(parse_osrelease(&strings(&["NAME=x", "ID=steamos"])))));
    assert!(!is_running_on_steamos(&Some(parse_osrelease(&strings(&["ID=arch", "ID_LIKE=steamos"])))));
    assert!(!is_running_on_steamos(&Some(parse_osrelease(&strings(&[])))));
}

#[test]
fn missing_os_release_is_not_steamos() {
    assert!(!is_running_on_steamos(&None));
}

#[test]
fn big_picture_needs_both_variables() {
    assert!(is_running_deck_big_picture_mode("1", "1"));
    assert!(!is_running_deck_big_picture_mode("1", ""));
    assert!(!is_running_deck_big_picture_mode("", "1"));
}

#[test]
fn fullscreen_value_is_read() {
    assert_eq!(get_fullscreen_value_from_rbxxml(XML), Some("false".to_string()));
    assert_eq!(get_fullscreen_value_from_rbxxml("<roblox>\n</roblox>"), None);
}

#[test]
fn fullscreen_set_then_get() {
    let written = set_rbx_fullscreen_value(XML, true);
    assert_eq!(get_fullscreen_value_from_rbxxml(&written), Some("true".to_string()));
    assert!(written.contains("<bool name=\"Fullscreen\">true</bool>\n"));
    assert!(written.ends_with("</roblox>\n"));
    let back = set_rbx_fullscreen_value(&written, false);
    assert_eq!(get_fullscreen_value_from_rbxxml(&back), Some("false".to_string()));
}

#[test]
fn steam_library_entry_encodes_path() {
    let lines = strings(&["[Desktop Entry]", "Name=Roblox Player", "Comment=x"]);
    let entry = add_item_to_steam_library("/home/a b/roblox-player.desktop", &lines);
    assert_eq!(entry.application_name, "Roblox Player");
    assert_eq!(entry.url, "steam://addnonsteamgame/%2Fhome%2Fa%20b%2Froblox-player.desktop");
    let entry = add_item_to_steam_library("é~_.-", &lines);
    assert_eq!(entry.url, "steam://addnonsteamgame/%C3%A9~_.-");
}
