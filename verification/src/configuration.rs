//! Reading and updating sections of the configuration (the contents of `config.json`).
use vstd::prelude::*;
use crate::json::{
    at_key, entries, lemma_lookup_concat, lemma_lookup_remove, lemma_lookup_unique, keys_unique,
    lookup, overlays, JsonValue,
};
use crate::json_text::{json_pretty_text, json_text_value, parse_json, to_pretty_json};
use crate::text::copy_str;

verus! {

/// The section `new_section` is `old_section` with the members `updates` written into it:
/// unchanged where there are none, and otherwise an object holding the members of both,
/// those of `updates` winning.
pub open spec fn section_updated(old_section: JsonValue, updates: Seq<(String, JsonValue)>, new_section: JsonValue) -> bool {
    if updates.len() == 0 {
        new_section == old_section
    } else {
        new_section is Object && overlays(entries(new_section), entries(old_section), updates)
    }
}

/// `res` is the configuration `config` with the members of the object `json` written into
/// its section `section`; every other section is as it was.
pub open spec fn config_updated(config: JsonValue, json: JsonValue, section: Seq<char>, res: JsonValue) -> bool {
    &&& res is Object
    &&& forall|k: Seq<char>| k != section ==> #[trigger] lookup(entries(res), k) == lookup(entries(config), k)
    &&& lookup(entries(res), section) is Some
    &&& section_updated(at_key(config, section), entries(json), at_key(res, section))
}

/// What `update_config` accepts: an object to write, a configuration that is an object (or
/// still `null`), and a section that can take members where there are members to write.
pub open spec fn can_update(config: JsonValue, json: JsonValue, section: Seq<char>) -> bool {
    &&& json is Object
    &&& (config is Null || config is Object)
    &&& (entries(json).len() > 0 ==> (at_key(config, section) is Null || at_key(config, section) is Object))
}

/// The section `config_type` of the configuration `config` (`null` where it has none).
pub fn get_config(config: JsonValue, config_type: &str) -> (res: JsonValue)
    ensures
        res == at_key(config, config_type@),
{
    config.take(config_type)
}

/// The configuration `config` with the members of `json` written into its section
/// `config_type`: the members already there stay unless `json` names them too.
pub fn update_config(config: JsonValue, json: JsonValue, config_type: &str) -> (res: JsonValue)
    requires
        can_update(config, json, config_type@),
    ensures
        config_updated(config, json, config_type@, res),
{
    let ghost section = config_type@;
    let mut cs: Vec<(String, JsonValue)> = match config {
        JsonValue::Object(es) => es,
        _ => Vec::new(),
    };
    let ghost orig = cs@;
    assert(orig == entries(config));
    let old_section = match crate::json::find_last(&cs, config_type) {
        Some(i) => {
            assert forall|k: Seq<char>| k != section implies #[trigger] lookup(cs@.remove(i as int), k) == lookup(orig, k) by {
                lemma_lookup_remove(orig, i as int, k);
            }
            let (_, v) = cs.remove(i);
            v
        },
        None => JsonValue::Null,
    };
    assert(old_section == at_key(config, section));
    let ghost kept = cs@;
    let mut updates: Vec<(String, JsonValue)> = match json {
        JsonValue::Object(es) => es,
        _ => Vec::new(),
    };
    let ghost ups = updates@;
    let new_section = if updates.len() == 0 {
        old_section
    } else {
        let mut base: Vec<(String, JsonValue)> = match old_section {
            JsonValue::Object(es) => es,
            _ => Vec::new(),
        };
        let ghost b = base@;
        assert(b == entries(old_section));
        base.append(&mut updates);
        assert forall|k: Seq<char>| #[trigger] lookup(base@, k) == match lookup(ups, k) {
            Some(x) => Some(x),
            None => lookup(b, k),
        } by {
            lemma_lookup_concat(b, ups, k);
        }
        JsonValue::Object(base)
    };
    assert(section_updated(old_section, ups, new_section));
    assert(ups == entries(json));
    assert forall|k: Seq<char>| k != section implies #[trigger] lookup(kept, k) == lookup(orig, k) by {}
    let key = copy_str(config_type);
    cs.push((key, new_section));
    let res = JsonValue::Object(cs);
    assert(cs@.drop_last() == kept);
    assert(lookup(entries(res), section) == Some(new_section));
    assert forall|k: Seq<char>| k != section implies #[trigger] lookup(entries(res), k) == lookup(entries(config), k) by {
        assert(lookup(entries(res), k) == lookup(kept, k));
    }
    res
}

/// Whether `update_config` accepts the configuration `config`, the members `json` and the
/// section `config_type`.
pub fn check_update(config: &JsonValue, json: &JsonValue, config_type: &str) -> (res: bool)
    ensures
        res == can_update(*config, *json, config_type@),
{
    let members = match json {
        JsonValue::Object(es) => es.len(),
        _ => {
            return false;
        },
    };
    let config_ok = match config {
        JsonValue::Null => true,
        JsonValue::Object(_) => true,
        _ => false,
    };
    if !config_ok {
        return false;
    }
    if members == 0 {
        return true;
    }
    match config.get(config_type) {
        None => true,
        Some(JsonValue::Null) => true,
        Some(JsonValue::Object(_)) => true,
        Some(_) => false,
    }
}

/// The section `config_type` of the configuration whose text is `config_text`, or `None`
/// where that text is not JSON.
pub fn config_section(config_text: &str, config_type: &str) -> (res: Option<JsonValue>)
    ensures
        res == match json_text_value(config_text@) {
            Some(c) => Some(at_key(c, config_type@)),
            None => None,
        },
{
    match parse_json(config_text) {
        Some(config) => Some(get_config(config, config_type)),
        None => None,
    }
}

/// Why the text of the configuration cannot be updated.
pub enum ConfigTextError {
    /// The text is not JSON.
    NotJson,
    /// The configuration, the members or the section are not what `update_config` accepts.
    CannotUpdate,
}

/// The text of the configuration whose text is `config_text` once the members of `json` are
/// written into its section `config_type`, written out indented.
pub fn update_config_text(config_text: &str, json: JsonValue, config_type: &str) -> (res: Result<
    String,
    ConfigTextError,
>)
    ensures
        match json_text_value(config_text@) {
            None => res matches Err(ConfigTextError::NotJson),
            Some(c) => if can_update(c, json, config_type@) {
                res matches Ok(t) && exists|u: JsonValue|
                    #[trigger] config_updated(c, json, config_type@, u) && t@ == json_pretty_text(u)
            } else {
                res matches Err(ConfigTextError::CannotUpdate)
            },
        },
{
    let config = match parse_json(config_text) {
        Some(c) => c,
        None => {
            return Err(ConfigTextError::NotJson);
        },
    };
    if !check_update(&config, &json, config_type) {
        return Err(ConfigTextError::CannotUpdate);
    }
    let ghost c = config;
    let updated = update_config(config, json, config_type);
    let text = to_pretty_json(&updated);
    assert(config_updated(c, json, config_type@, updated) && text@ == json_pretty_text(updated));
    Ok(text)
}

/// What an update writes can be read back: after writing the members `json` into a section,
/// each member that `json` names is found in that section with the value written.
pub proof fn update_then_get_reads_back(config: JsonValue, json: JsonValue, section: Seq<char>, res: JsonValue, i: int)
    requires
        config_updated(config, json, section, res),
        keys_unique(entries(json)),
        0 <= i < entries(json).len(),
    ensures
        at_key(at_key(res, section), entries(json)[i].0@) == entries(json)[i].1,
{
    let k = entries(json)[i].0@;
    lemma_lookup_unique(entries(json), i);
    assert(lookup(entries(at_key(res, section)), k) == lookup(entries(json), k));
}

/// An update adds to a section and does not overwrite it: the members of the section that
/// the update does not name keep their values.
pub proof fn update_keeps_other_members(config: JsonValue, json: JsonValue, section: Seq<char>, res: JsonValue, k: Seq<char>)
    requires
        config_updated(config, json, section, res),
        lookup(entries(json), k) is None,
    ensures
        at_key(at_key(res, section), k) == at_key(at_key(config, section), k),
{
    if entries(json).len() > 0 {
        assert(lookup(entries(at_key(res, section)), k) == lookup(entries(at_key(config, section)), k));
    }
}

/// An update of one section leaves every other section as it was.
pub proof fn update_keeps_other_sections(config: JsonValue, json: JsonValue, section: Seq<char>, res: JsonValue, other: Seq<char>)
    requires
        config_updated(config, json, section, res),
        other != section,
    ensures
        at_key(res, other) == at_key(config, other),
{
    assert(lookup(entries(res), other) == lookup(entries(config), other));
}

/// Writing no members leaves the section as it was (`null` where there was none).
pub proof fn update_with_nothing_changes_nothing(config: JsonValue, json: JsonValue, section: Seq<char>, res: JsonValue)
    requires
        config_updated(config, json, section, res),
        entries(json).len() == 0,
    ensures
        at_key(res, section) == at_key(config, section),
{
}

} // verus!
