use applejuicecli::argparse::{generate_help, get_param_value, get_param_value_new, parse_arguments};

fn strings(v: &[&str]) -> Vec<String> {
    v.iter().map(|s| s.to_string()).collect()
}

fn pairs(v: &[(&str, &str)]) -> Vec<(String, String)> {
    v.iter().map(|(a, b)| (a.to_string(), b.to_string())).collect()
}

#[test]
fn parse_arguments_groups_flags_and_values() {
    let args = strings(&["applejuicecli", "--launch", "--binary", "Player", "--args", "roblox://x"]);
    assert_eq!(
        parse_arguments(&args),
        pairs(&[("launch", ""), ("binary", "Player"), ("args", "roblox://x")])
    );
}

#[test]
fn parse_arguments_joins_values_with_spaces() {
    let args = strings(&["applejuicecli", "--install", "player", "LIVE"]);
    assert_eq!(parse_arguments(&args), pairs(&[("install", "player LIVE")]));
}

#[test]
fn parse_arguments_values_before_any_flag() {
    let args = strings(&["applejuicecli", "foo", "bar", "--x"]);
    assert_eq!(parse_arguments(&args), pairs(&[("", "foo bar"), ("x", "")]));
}

#[test]
fn parse_arguments_without_arguments() {
    assert_eq!(parse_arguments(&strings(&["applejuicecli"])), pairs(&[]));
    assert_eq!(parse_arguments(&strings(&[])), pairs(&[]));
}

#[test]
fn parse_arguments_empty_word_is_skipped_in_joining() {
    let args = strings(&["p", "--a", "", "x"]);
    assert_eq!(parse_arguments(&args), pairs(&[("a", "x")]));
}

#[test]
fn parse_arguments_names_lose_every_pair_of_dashes() {
    let args = strings(&["p", "----x", "---y", "a--b"]);
    let parsed = parse_arguments(&args);
    assert_eq!(parsed, pairs(&[("x", ""), ("-y", ""), ("ab", "")]));
    for (name, _) in &parsed {
        assert!(!name.contains("--"));
    }
}

#[test]
fn get_param_value_new_finds_first() {
    let v = pairs(&[("a", "1"), ("b", "2"), ("a", "3")]);
    assert_eq!(get_param_value_new(&v, "a"), Some("1"));
    assert_eq!(get_param_value_new(&v, "b"), Some("2"));
    assert_eq!(get_param_value_new(&v, "c"), None);
}

#[test]
fn get_param_value_gives_blank_for_empty_value() {
    let v = vec![pairs(&[("purge", "")]), pairs(&[("x", "y")])];
    assert_eq!(get_param_value(v, "purge"), "blank");
    let v = vec![pairs(&[("purge", "cache")])];
    assert_eq!(get_param_value(v, "purge"), "cache");
    let v = vec![pairs(&[("x", "y")])];
    assert_eq!(get_param_value(v, "purge"), "");
}

#[test]
fn args_get_param_value_keeps_empty_value() {
    let v = vec![pairs(&[("purge", "")])];
    assert_eq!(applejuicecli::args::get_param_value(v, "purge"), "");
    let v = vec![pairs(&[("a", "b")]), pairs(&[("purge", "installs")])];
    assert_eq!(applejuicecli::args::get_param_value(v, "purge"), "installs");
}

#[test]
fn generate_help_lists_parameters() {
    let params = [("--help", "Displays this help message"), ("--init", "Initialises")];
    assert_eq!(generate_help(&params), "\t--help\tDisplays this help message\n\t--init\tInitialises\n");
    assert_eq!(generate_help(&[]), "");
}

#[test]
fn arguments_from_a_flag_on_group_on_their_own() {
    let whole = parse_arguments(&strings(&["prog", "a", "b", "--x", "1", "--y", "2", "3"]));
    let mut parts = parse_arguments(&strings(&["prog", "a", "b"]));
    parts.extend(parse_arguments(&strings(&["prog", "--x", "1", "--y", "2", "3"])));
    assert_eq!(whole, parts);
}

#[test]
fn every_flag_opens_a_group() {
    let groups = parse_arguments(&strings(&["prog", "w", "--a--b", "v", "--c"]));
    assert!(groups.iter().any(|(name, _)| name == "ab"));
    assert!(groups.iter().any(|(name, _)| name == "c"));
}

#[test]
fn parameters_are_found_by_presence() {
    let parsed = parse_arguments(&strings(&["prog", "--install", "player", "--nothreads"]));
    assert_eq!(get_param_value_new(&parsed, "nothreads"), Some(""));
    assert_eq!(get_param_value_new(&parsed, "install"), Some("player"));
    assert_eq!(get_param_value_new(&parsed, "exact"), None);
    let odd = parse_arguments(&strings(&["prog", "ex--act", "exact"]));
    assert_eq!(get_param_value_new(&odd, "exact"), Some("exact"));
    let none = parse_arguments(&strings(&["--exact", "exact"]));
    assert_eq!(get_param_value_new(&none, "exact"), None);
}

#[test]
fn values_never_hold_two_dashes() {
    let parsed = parse_arguments(&strings(&["prog", "--a", "b", "-", "-c", "d-"]));
    assert_eq!(parsed, pairs(&[("a", "b - -c d-")]));
    assert!(parsed.iter().all(|(_, v)| !v.contains("--")));
}
