use pubmed::{ids_from_items, ids_from_search_response, JsonValue, SearchError};

#[test]
fn search_response_ids() {
    let text = r#"{"header":{"type":"esearch","version":"0.3"},
        "esearchresult":{"count":"1","retmax":"1","retstart":"0","idlist":["22722859"]}}"#;
    assert_eq!(ids_from_search_response(text), Ok(vec![22722859]));
}

#[test]
fn search_response_drops_non_numbers() {
    let text = r#"{"esearchresult":{"idlist":["3","x","0",7,"12"]}}"#;
    assert_eq!(ids_from_search_response(text), Ok(vec![3, 12]));
}

#[test]
fn search_response_errors() {
    assert_eq!(ids_from_search_response("not json"), Err(SearchError::MalformedJson));
    assert_eq!(ids_from_search_response(r#"{"error":"x"}"#), Err(SearchError::NoIdList));
    assert_eq!(
        ids_from_search_response(r#"{"esearchresult":{"idlist":"1"}}"#),
        Err(SearchError::NoIdList)
    );
    assert_eq!(ids_from_search_response(r#"{"esearchresult":{"idlist":[]}}"#), Ok(vec![]));
    assert_eq!(ids_from_search_response(r#"{"esearchresult":[1]}"#), Err(SearchError::NoIdList));
    assert_eq!(ids_from_search_response("[1, 2]"), Err(SearchError::NoIdList));
}

#[test]
fn id_items() {
    let items = vec![
        JsonValue::Text("5".to_string()),
        JsonValue::Null,
        JsonValue::Number("6".to_string()),
        JsonValue::Text("abc".to_string()),
        JsonValue::Text("+9".to_string()),
    ];
    assert_eq!(ids_from_items(&items), vec![5, 9]);
}
