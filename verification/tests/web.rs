use fn_search_backend::fn_cache::FnCache;
use fn_search_backend::handlers::{
    search, signature_of, suggest, suggestions_body, HandlerError, RESULT_LIMIT,
};

fn cache() -> FnCache {
    let mut pairs: Vec<(String, i64)> = Vec::new();
    for id in 0..12 {
        pairs.push((String::from("Int -> Int"), id));
    }
    pairs.push((String::from("Int -> String"), 100));
    pairs.push((String::from("a \"q\" -> b"), 200));
    for n in 0..12 {
        pairs.push((format!("Many {}", n), 300 + n));
    }
    FnCache::build(&pairs)
}

#[test]
fn a_path_segment_stands_for_a_signature() {
    assert_eq!(signature_of("Int%20-%3E%20Int").unwrap(), "Int -> Int");
    assert_eq!(signature_of("Int -> Int").unwrap(), "Int -> Int");
    assert_eq!(signature_of("%C3%A9").unwrap(), "\u{e9}");
    assert_eq!(signature_of("100%").unwrap(), "100%");
    assert_eq!(signature_of("%zz").unwrap(), "%zz");
    assert_eq!(signature_of("").unwrap(), "");
    assert!(matches!(signature_of("%ff"), Err(HandlerError::Signature(_))));
    assert!(matches!(signature_of("%C3"), Err(HandlerError::Signature(_))));
}

#[test]
fn search_answers_with_the_first_ten_ids() {
    let c = cache();
    assert_eq!(RESULT_LIMIT, 10);
    assert_eq!(search(&c, "Int%20-%3E%20Int").unwrap(), (0..10).collect::<Vec<i64>>());
    assert_eq!(search(&c, "Int%20-%3E%20String").unwrap(), vec![100]);
    assert_eq!(search(&c, "Int%20-%3E").unwrap(), Vec::<i64>::new());
    assert_eq!(search(&c, "Int%2520-%3E%20Int").unwrap(), Vec::<i64>::new());
    assert!(matches!(search(&c, "%80"), Err(HandlerError::Signature(_))));
}

#[test]
fn suggest_answers_with_a_json_array() {
    let c = cache();
    let body = suggest(&c, "Int%20-%3E%20S").unwrap();
    assert_eq!(body, "[\"Int -> String\"]");
    let both = suggest(&c, "Int").unwrap();
    assert!(
        both == "[\"Int -> Int\",\"Int -> String\"]"
            || both == "[\"Int -> String\",\"Int -> Int\"]"
    );
    assert_eq!(suggest(&c, "a%20").unwrap(), "[\"a \\\"q\\\" -> b\"]");
    assert_eq!(suggest(&c, "Nothing").unwrap(), "[]");
    assert!(matches!(suggest(&c, "%ff"), Err(HandlerError::Signature(_))));
    let many = suggest(&c, "Many").unwrap();
    assert_eq!(many.matches("\"Many ").count(), 10);
}

#[test]
fn no_suggestions_is_the_empty_array() {
    assert_eq!(suggestions_body(None).unwrap(), "[]");
    assert_eq!(suggestions_body(Some(vec![])).unwrap(), "[]");
    assert_eq!(suggestions_body(Some(vec!["a", "b\\c"])).unwrap(), "[\"a\",\"b\\\\c\"]");
}
