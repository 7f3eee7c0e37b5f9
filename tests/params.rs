use anything_cli::params::parse_query_params;
use anything_cli::string_map::StringMap;

fn strings(items: &[&str]) -> Vec<String> {
    items.iter().map(|s| s.to_string()).collect()
}

#[test]
fn test_parse_query_params_empty() {
    let args: Vec<String> = vec![];
    let params = parse_query_params(&args);
    assert!(params.is_empty());
}

#[test]
fn test_parse_query_params_single() {
    let args = vec!["--name".to_string(), "value".to_string()];
    let params = parse_query_params(&args);
    assert_eq!(params.get("name").unwrap(), "value");
}

#[test]
fn test_parse_query_params_single_equal() {
    let args = vec!["--name=value".to_string()];
    let params = parse_query_params(&args);
    assert_eq!(params.get("name").unwrap(), "value");
}

#[test]
fn test_parse_query_params_multiple() {
    let args = vec![
        "--name".to_string(),
        "value".to_string(),
        "--age".to_string(),
        "25".to_string(),
        "--sort=ASC".to_string(),
    ];
    let params = parse_query_params(&args);
    assert_eq!(params.get("name").unwrap(), "value");
    assert_eq!(params.get("age").unwrap(), "25");
    assert_eq!(params.get("sort").unwrap(), "ASC");
}

#[test]
fn test_parse_query_params_flag_only() {
    let args = vec!["--verbose".to_string()];
    let params = parse_query_params(&args);
    assert_eq!(params.get("verbose").unwrap(), "true");
}

#[test]
fn test_parse_query_params_flag_only_short() {
    let args = vec!["-v".to_string()];
    let params = parse_query_params(&args);
    assert_eq!(params.get("v").unwrap(), "true");
}

#[test]
fn test_parse_query_params_mixed() {
    let args = vec![
        "--name".to_string(),
        "value".to_string(),
        "-t".to_string(),
        "--verbose".to_string(),
        "--count".to_string(),
        "10".to_string(),
        "--kind=new".to_string(),
        "-p".to_string(),
    ];
    let params = parse_query_params(&args);
    assert_eq!(params.get("name").unwrap(), "value");
    assert_eq!(params.get("verbose").unwrap(), "true");
    assert_eq!(params.get("t").unwrap(), "true");
    assert_eq!(params.get("count").unwrap(), "10");
    assert_eq!(params.get("kind").unwrap(), "new");
    assert_eq!(params.get("p").unwrap(), "true");
}

#[test]
fn repeated_key_keeps_later_value() {
    let params = parse_query_params(&strings(&["--a=1", "--a=2"]));
    assert_eq!(params.get("a").unwrap(), "2");
    assert_eq!(params.to_vec().len(), 1);
}

#[test]
fn long_flag_at_end_is_true() {
    let params = parse_query_params(&strings(&["--flag"]));
    assert_eq!(params.get("flag").unwrap(), "true");
}

#[test]
fn bundled_short_flags() {
    let params = parse_query_params(&strings(&["-abc"]));
    assert_eq!(params.get("a").unwrap(), "true");
    assert_eq!(params.get("b").unwrap(), "true");
    assert_eq!(params.get("c").unwrap(), "true");
    assert_eq!(params.to_vec().len(), 3);
}

#[test]
fn empty_value_differs_from_flag() {
    let params = parse_query_params(&strings(&["--key="]));
    assert_eq!(params.get("key").unwrap(), "");
}

#[test]
fn long_flag_before_dash_token_is_true() {
    let params = parse_query_params(&strings(&["--verbose", "-x", "--n", "-5"]));
    assert_eq!(params.get("verbose").unwrap(), "true");
    assert_eq!(params.get("x").unwrap(), "true");
    assert_eq!(params.get("n").unwrap(), "true");
    assert_eq!(params.get("5").unwrap(), "true");
}

#[test]
fn value_splits_at_first_equals() {
    let params = parse_query_params(&strings(&["--q=a=b"]));
    assert_eq!(params.get("q").unwrap(), "a=b");
}

#[test]
fn positional_tokens_are_ignored() {
    let params = parse_query_params(&strings(&["users", "list", "-"]));
    assert!(params.is_empty());
}

#[test]
fn string_map_insert_and_remove() {
    let mut m = StringMap::new();
    m.insert("k".to_string(), "1".to_string());
    m.insert("k".to_string(), "2".to_string());
    m.insert("j".to_string(), "3".to_string());
    assert_eq!(m.get("k").unwrap(), "2");
    m.remove("k");
    assert!(m.get("k").is_none());
    assert_eq!(m.get("j").unwrap(), "3");
    m.remove("j");
    assert!(m.is_empty());
}
