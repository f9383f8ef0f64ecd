use my_http_server::PathSegment;
use my_http_server::PathSegments;

#[test]
fn test_segment_as_path() {
    let result = PathSegment::new("Test");

    if let PathSegment::Path(path) = result {
        assert_eq!("test", path)
    } else {
        panic!("Should not be here")
    }
}

#[test]
fn test_segment_as_key() {
    let result = PathSegment::new("{Test}");
    assert_eq!(true, result.is_key());
}

#[test]
fn test_is_my_path() {
    let path_segments = PathSegments::new("/Segment1/{Key1}/Segment2");

    assert_eq!(true, path_segments.is_my_path("/Segment1/MyValue/Segment2"));

    assert_eq!(
        "MyValue",
        path_segments
            .get_value("/Segment1/MyValue/Segment2", "Key1")
            .unwrap()
    );
}

#[test]
fn test_is_not_my_path() {
    let path_segments = PathSegments::new("/Segment1/{Key1}/Segment2");

    assert_eq!(
        false,
        path_segments.is_my_path("/Segment2/MyValue/Segment2")
    );
}

#[test]
fn test_last_marker() {
    let result = PathSegments::new("/Segment1/{Key1}/Segment2/{Key2}");

    let value = result.segments.get(1).unwrap();
    if let PathSegment::Key { path_key: _, last } = value {
        assert_eq!(false, *last);
    } else {
        panic!("Should not be gere")
    }

    let value = result.segments.get(3).unwrap();
    if let PathSegment::Key { path_key: _, last } = value {
        assert_eq!(true, *last);
    } else {
        panic!("Should not be gere")
    }
}

#[test]
fn test_is_my_path_with_last_key() {
    let path_segments = PathSegments::new("/Segment1/Segment2/{Key1}");

    assert_eq!(true, path_segments.is_my_path("/Segment1/Segment2"));

    let value = path_segments.get_value("/Segment1/Segment2", "Key1");

    assert_eq!(true, value.is_no_value());
}

#[test]
fn test_empty_template_matches_root() {
    let path_segments = PathSegments::new("");
    assert_eq!(0, path_segments.segments.len());
    assert_eq!(true, path_segments.is_my_path("/"));
    assert_eq!(true, path_segments.is_my_path(""));
    assert_eq!(false, path_segments.is_my_path("/anything"));

    let path_segments = PathSegments::new("/");
    assert_eq!(0, path_segments.segments.len());
    assert_eq!(true, path_segments.is_my_path("/"));
}

#[test]
fn test_matching_is_case_insensitive_and_slash_normalized() {
    let path_segments = PathSegments::new("/Orders/Items");
    assert_eq!(true, path_segments.is_my_path("/orders/items"));
    assert_eq!(true, path_segments.is_my_path("//ORDERS///ITEMS/"));
    assert_eq!(false, path_segments.is_my_path("/orders/other"));
}

#[test]
fn test_trailing_run_of_keys_is_all_marked_last() {
    let path_segments = PathSegments::new("/Segment1/{Key1}/{Key2}");
    for index in [1, 2] {
        if let Some(PathSegment::Key { path_key: _, last }) = path_segments.segments.get(index) {
            assert_eq!(true, *last);
        } else {
            panic!("expected a key segment at {}", index)
        }
    }
    // the walk stops at the first trailing key, so a one-token path matches
    assert_eq!(true, path_segments.is_my_path("/Segment1"));
    assert_eq!(
        true,
        path_segments.get_value("/Segment1", "Key2").is_no_value()
    );
}

#[test]
fn test_path_shorter_than_template_matches() {
    // the walk runs over the path tokens; a path that stops early
    // leaves the remaining template segments unvisited
    let path_segments = PathSegments::new("/Segment1/Segment2");
    assert_eq!(true, path_segments.is_my_path("/Segment1"));
}

#[test]
fn test_path_longer_than_template_fails() {
    let path_segments = PathSegments::new("/Segment1/Segment2");
    assert_eq!(false, path_segments.is_my_path("/Segment1/Segment2/More"));
}

#[test]
fn test_get_value_without_keys_reports_no_key() {
    let path_segments = PathSegments::new("/Segment1/Segment2");
    let value = path_segments.get_value("/Segment1/Segment2", "Key1");
    assert_eq!(true, value.is_no_key());
}

#[test]
fn test_get_value_at_key_position() {
    let path_segments = PathSegments::new("/accounts/{accountId}/orders/{orderId}");
    assert_eq!(true, path_segments.is_my_path("/accounts/A-17/orders/o-9"));
    assert_eq!(
        "A-17",
        path_segments
            .get_value("/accounts/A-17/orders/o-9", "accountId")
            .unwrap()
    );
    assert_eq!(
        "o-9",
        path_segments
            .get_value("/accounts/A-17/orders/o-9", "orderId")
            .unwrap()
    );
    assert_eq!(2, path_segments.keys_amount);
}
