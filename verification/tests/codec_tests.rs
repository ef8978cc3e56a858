use elasticsearch::codec::{encode_query, join_comma, join_comma_required};
use elasticsearch::http::absolute_url;

#[test]
fn join_comma_joins_in_input_order() {
    let values = vec!["cpu".to_string(), "mem".to_string(), "disk".to_string()];
    assert_eq!(join_comma(&values), "cpu,mem,disk");
}

#[test]
fn join_comma_round_trip() {
    let values = vec!["ip".to_string(), "port".to_string(), "heapPercent".to_string(), "name".to_string()];
    let joined = join_comma(&values);
    let split: Vec<String> = joined.split(',').map(|s| s.to_string()).collect();
    assert_eq!(split, values);
}

#[test]
fn join_comma_single_value() {
    let values = vec!["json".to_string()];
    assert_eq!(join_comma(&values), "json");
}

#[test]
fn join_comma_empty_values_round_trip() {
    let values = vec![String::new(), String::new()];
    let joined = join_comma(&values);
    assert_eq!(joined, ",");
    let split: Vec<String> = joined.split(',').map(|s| s.to_string()).collect();
    assert_eq!(split, values);
}

#[test]
fn join_comma_no_values() {
    let values: Vec<String> = Vec::new();
    assert_eq!(join_comma(&values), "");
}

#[test]
fn join_comma_required_joins_a_present_value() {
    let values = Some(vec!["ip".to_string(), "port".to_string()]);
    assert_eq!(join_comma_required(&values), "ip,port");
}

#[test]
fn encode_query_joins_pairs_with_ampersand() {
    let params = vec![
        ("h".to_string(), vec!["ip".to_string(), "port".to_string()]),
        ("format".to_string(), vec!["json".to_string()]),
    ];
    assert_eq!(encode_query(&params), "h=ip,port&format=json");
}

#[test]
fn encode_query_empty_value_list() {
    let params = vec![("v".to_string(), Vec::new())];
    assert_eq!(encode_query(&params), "v=");
}

#[test]
fn encode_query_no_parameters() {
    let params: Vec<(String, Vec<String>)> = Vec::new();
    assert_eq!(encode_query(&params), "");
}

#[test]
fn absolute_url_appends_query_after_question_mark() {
    let address = "http://node-1:9200".to_string();
    let path = "/_cat/nodes".to_string();
    let query = Some("format=json".to_string());
    assert_eq!(absolute_url(&address, &path, &query), "http://node-1:9200/_cat/nodes?format=json");
}

#[test]
fn absolute_url_without_query() {
    let address = "http://node-1:9200".to_string();
    let path = "/_cat/health".to_string();
    assert_eq!(absolute_url(&address, &path, &None), "http://node-1:9200/_cat/health");
}
