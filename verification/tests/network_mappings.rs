use dfx_extensions::network::{get_network_mappings, parse_network_mapping, NetworkMappingError, NetworkOpt};

fn names(input: &[&str]) -> Vec<(String, String)> {
    let input: Vec<String> = input.iter().map(|s| s.to_string()).collect();
    get_network_mappings(&input)
        .unwrap()
        .into_iter()
        .map(|m| (m.network_name_in_this_project, m.network_name_in_project_being_imported))
        .collect()
}

fn pair(a: &str, b: &str) -> (String, String) {
    (a.to_string(), b.to_string())
}

#[test]
fn mapping_of_a_name_is_the_name_in_both_projects() {
    assert_eq!(names(&["ic"]), vec![pair("ic", "ic")]);
}

#[test]
fn mapping_of_two_names_splits_at_the_equals_sign() {
    assert_eq!(names(&["ic=mainnet"]), vec![pair("ic", "mainnet")]);
}

#[test]
fn mapping_splits_at_the_first_equals_sign() {
    assert_eq!(names(&["a=b=c"]), vec![pair("a", "b=c")]);
}

#[test]
fn mappings_keep_their_order() {
    assert_eq!(
        names(&["local", "ic=mainnet", "x=y"]),
        vec![pair("local", "local"), pair("ic", "mainnet"), pair("x", "y")]
    );
}

#[test]
fn no_mappings_give_no_mappings() {
    assert!(names(&[]).is_empty());
}

#[test]
fn empty_mapping_text_maps_the_empty_name() {
    assert_eq!(names(&[""]), vec![pair("", "")]);
}

#[test]
fn mapping_with_empty_first_name_is_refused() {
    let e = parse_network_mapping(&"=mainnet".to_string()).unwrap_err();
    assert!(matches!(&e, NetworkMappingError::FirstNetworkNameEmpty(v) if v == "=mainnet"));
    assert_eq!(
        e.message(),
        "malformed network mapping '=mainnet': first network name is empty"
    );
}

#[test]
fn mapping_with_empty_second_name_is_refused() {
    let e = parse_network_mapping(&"ic=".to_string()).unwrap_err();
    assert!(matches!(&e, NetworkMappingError::SecondNetworkNameEmpty(v) if v == "ic="));
    assert_eq!(
        e.message(),
        "malformed network mapping 'ic=': second network name is empty"
    );
}

#[test]
fn lone_equals_sign_has_an_empty_first_name() {
    let e = parse_network_mapping(&"=".to_string()).unwrap_err();
    assert!(matches!(e, NetworkMappingError::FirstNetworkNameEmpty(_)));
}

#[test]
fn first_malformed_mapping_is_reported() {
    let input = vec!["ic".to_string(), "x=".to_string(), "=y".to_string()];
    let e = get_network_mappings(&input).unwrap_err();
    assert!(matches!(&e, NetworkMappingError::SecondNetworkNameEmpty(v) if v == "x="));
}

fn opt(network: Option<&str>, playground: bool, ic: bool) -> NetworkOpt {
    NetworkOpt { network: network.map(|s| s.to_string()), playground, ic }
}

#[test]
fn playground_flag_selects_playground() {
    assert_eq!(opt(None, true, false).to_network_name(), Some("playground".to_string()));
    assert_eq!(opt(Some("x"), true, true).to_network_name(), Some("playground".to_string()));
}

#[test]
fn ic_flag_selects_ic() {
    assert_eq!(opt(Some("x"), false, true).to_network_name(), Some("ic".to_string()));
}

#[test]
fn network_option_selects_that_network() {
    assert_eq!(
        opt(Some("http://localhost:12345/"), false, false).to_network_name(),
        Some("http://localhost:12345/".to_string())
    );
    assert_eq!(opt(None, false, false).to_network_name(), None);
}

#[test]
fn mapping_written_again_reads_the_same() {
    for text in ["ic=mainnet", "a=b=c", "local=x"] {
        let m = parse_network_mapping(&text.to_string()).unwrap();
        let again = format!(
            "{}={}",
            m.network_name_in_this_project, m.network_name_in_project_being_imported
        );
        let m2 = parse_network_mapping(&again).unwrap();
        assert_eq!(m.network_name_in_this_project, m2.network_name_in_this_project);
        assert_eq!(
            m.network_name_in_project_being_imported,
            m2.network_name_in_project_being_imported
        );
    }
}
