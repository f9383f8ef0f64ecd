use my_http_server::QueryString;

#[test]
pub fn test_basic() {
    let query_string = "tableName=deposit-restrictions&partitionKey=%2A&rowKey=1abfc";

    let query_string = QueryString::new(query_string).unwrap();

    let result = query_string
        .get_optional_string_parameter("partitionKey")
        .unwrap();

    assert_eq!("*", result);

    let result = query_string
        .get_optional_string_parameter("rowKey")
        .unwrap();
    assert_eq!("1abfc", result);
}

#[test]
fn test_all_three_parameters_decoded() {
    let query_string =
        QueryString::new("tableName=deposit-restrictions&partitionKey=%2A&rowKey=1abfc").unwrap();
    assert_eq!(
        "deposit-restrictions",
        query_string.get_optional_string_parameter("tableName").unwrap()
    );
    assert_eq!("*", query_string.get_optional_string_parameter("partitionKey").unwrap());
    assert_eq!("1abfc", query_string.get_optional_string_parameter("rowKey").unwrap());
    assert!(query_string.get_optional_string_parameter("absent").is_none());
}

#[test]
fn test_bool_parameter_policy() {
    let query_string = QueryString::new("a=1&b=TrUe&c=0&d=false&e=garbage&f=true").unwrap();
    assert_eq!(true, query_string.get_bool_parameter("a", false));
    assert_eq!(true, query_string.get_bool_parameter("b", false));
    assert_eq!(true, query_string.get_bool_parameter("f", false));
    assert_eq!(false, query_string.get_bool_parameter("c", true));
    assert_eq!(false, query_string.get_bool_parameter("d", true));
    assert_eq!(false, query_string.get_bool_parameter("e", true));
    assert_eq!(false, query_string.get_bool_parameter("absent", false));
    assert_eq!(true, query_string.get_bool_parameter("absent", true));
}

#[test]
fn test_required_string_parameter_errors_with_name() {
    let query_string = QueryString::new("present=1").unwrap();
    assert_eq!("1", query_string.get_required_string_parameter("present").unwrap());

    let err = query_string.get_required_string_parameter("missing").unwrap_err();
    assert_eq!(400, err.status_code);
    assert_eq!("Query parameter 'missing' is required", err.content);
    assert_eq!(true, err.metric_it);
}

#[test]
fn test_typed_parameters() {
    let query_string = QueryString::new("limit=25&name=abc").unwrap();
    let limit: Option<i64> = query_string.get_optional_parameter("limit");
    assert_eq!(Some(25), limit);
    let bad: Option<i64> = query_string.get_optional_parameter("name");
    assert_eq!(None, bad);
    let absent: Option<i64> = query_string.get_optional_parameter("absent");
    assert_eq!(None, absent);

    let required: Result<i64, _> = query_string.get_required_parameter("limit");
    assert_eq!(25, required.unwrap());

    let unparsable: Result<i64, _> = query_string.get_required_parameter("name");
    let err = unparsable.unwrap_err();
    assert_eq!(400, err.status_code);
    assert_eq!("Query parameter 'name' is required", err.content);

    let missing: Result<i64, _> = query_string.get_required_parameter("absent");
    let err = missing.unwrap_err();
    assert_eq!(400, err.status_code);
    assert_eq!("Query parameter 'absent' is required", err.content);
}

#[test]
fn test_duplicate_keys_last_write_wins() {
    let query_string = QueryString::new("k=first&k=second").unwrap();
    assert_eq!("second", query_string.get_optional_string_parameter("k").unwrap());
}

#[test]
fn test_element_without_equals_is_skipped() {
    let query_string = QueryString::new("lonely&k=v&&alsolonely").unwrap();
    assert!(query_string.get_optional_string_parameter("lonely").is_none());
    assert_eq!("v", query_string.get_optional_string_parameter("k").unwrap());
}

#[test]
fn test_bad_escape_in_query_string_fails() {
    assert!(QueryString::new("k=%zz").is_err());
    assert!(QueryString::new("k%2=v").is_err());
    // a malformed escape inside an element without '=' is skipped, not decoded
    assert!(QueryString::new("k%2&a=b").is_ok());
}
