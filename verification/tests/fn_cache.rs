use fn_search_backend::actors::{FnCacheBroker, Request, Response};
use fn_search_backend::app_state::AppState;
use fn_search_backend::fn_cache::FnCache;
use fn_search_backend::models::Function;
use std::collections::HashSet;
use std::sync::Arc;

fn test_fns() -> Vec<Function> {
    vec![
        Function {
            id: 0,
            repo_id: 0,
            name: String::from("derpyfn"),
            type_signature: String::from("Int -> Int"),
        },
        Function {
            id: 1,
            repo_id: 0,
            name: String::from("whatever"),
            type_signature: String::from("String -> Int"),
        },
        Function {
            id: 2,
            repo_id: 1,
            name: String::from("lol"),
            type_signature: String::from("Int -> Bool"),
        },
        Function {
            id: 3,
            repo_id: 1,
            name: String::from("zxc"),
            type_signature: String::from("Bool -> Bool"),
        },
        Function {
            id: 4,
            repo_id: 1,
            name: String::from("fef"),
            type_signature: String::from("Int -> String"),
        },
        Function {
            id: 5,
            repo_id: 0,
            name: String::from("rer"),
            type_signature: String::from("String -> Int"),
        },
    ]
}

fn setup_test_cache() -> FnCache {
    FnCache::from_functions(&test_fns())
}

fn pairs(items: &[(&str, i64)]) -> Vec<(String, i64)> {
    items.iter().map(|(sig, id)| (sig.to_string(), *id)).collect()
}

#[test]
fn build_cache_for_fn_ref() {
    let v: Vec<Function> = Vec::new();
    let c = FnCache::from_functions(&v);
    assert!(c.search("", 10, None).is_none());
    assert!(c.suggest("", 10).is_none());
}

#[test]
fn build_cache_for_fn() {
    let v: Vec<(String, i64)> = Vec::new();
    let c = FnCache::build(&v);
    assert!(c.search("", 10, None).is_none());
    assert!(c.suggest("", 10).is_none());
}

#[test]
fn build_works_for_functions() {
    setup_test_cache();
}

#[test]
fn search_gives_values() {
    let fns = test_fns();
    let c = setup_test_cache();
    let res = c.search("String -> Int", 10, None);
    assert!(res.is_some());
    let res = res.unwrap();
    assert_eq!(res.len(), 2);
    assert_eq!(res, &[fns[1].id, fns[5].id]);
    assert_eq!(res, &[1, 5]);
}

#[test]
fn search_gives_value() {
    let fns = test_fns();
    let c = setup_test_cache();
    let res = c.search("Bool -> Bool", 10, None);
    assert!(res.is_some());
    let res = res.unwrap();
    assert_eq!(res.len(), 1);
    assert_eq!(res, &[fns[3].id]);
}

#[test]
fn search_gives_none_on_invalid_start() {
    let c = setup_test_cache();
    let res = c.search("String -> Int", 10, Some(2));
    assert!(res.is_none());
}

#[test]
fn search_gives_some_start_index() {
    let fns = test_fns();
    let c = setup_test_cache();
    let res = c.search("String -> Int", 10, Some(1));
    assert!(res.is_some());
    let res = res.unwrap();
    assert_eq!(res.len(), 1);
    assert_eq!(res, &[fns[5].id]);
}

#[test]
fn search_gives_only_num() {
    let fns = test_fns();
    let c = setup_test_cache();
    let res = c.search("String -> Int", 1, None);
    assert!(res.is_some());
    let res = res.unwrap();
    assert_eq!(res.len(), 1);
    assert_eq!(res, &[fns[1].id]);
}

#[test]
fn search_gives_only_num_with_start() {
    let fns = test_fns();
    let c = setup_test_cache();
    let res = c.search("String -> Int", 1, Some(1));
    assert!(res.is_some());
    let res = res.unwrap();
    assert_eq!(res.len(), 1);
    assert_eq!(res, &[fns[5].id]);
    assert_eq!(res, &[5]);
}

#[test]
fn search_gives_none_on_bad_key() {
    let c = setup_test_cache();
    let res = c.search("String -> In", 10, None);
    assert!(res.is_none());
}

#[test]
fn suggest_gives_suggestion() {
    let c = setup_test_cache();
    let res = c.suggest("String -> In", 10);
    assert!(res.is_some());
    let res = res.unwrap();
    assert_eq!(res.len(), 1);
    assert_eq!(res, vec!["String -> Int"]);
}

#[test]
fn suggest_gives_suggestions() {
    let c = setup_test_cache();
    let res = c.suggest("In", 10);
    assert!(res.is_some());
    let res = res.unwrap();
    assert_eq!(res.len(), 3);
    println!("{:?}", res);
    let sig_map: HashSet<&str> = res.into_iter().collect();
    let expected: HashSet<&str> =
        vec!["Int -> String", "Int -> Bool", "Int -> Int"].into_iter().collect();
    assert_eq!(sig_map, expected);
}

#[test]
fn suggest_gives_x_suggestions() {
    let c = setup_test_cache();
    let res = c.suggest("In", 2);
    assert!(res.is_some());
    let res = res.unwrap();
    assert_eq!(res.len(), 2);
}

#[test]
fn suggest_gives_none() {
    let c = setup_test_cache();
    let res = c.suggest("Ink", 10);
    assert!(res.is_none());
}

#[test]
fn search_window_edges() {
    let c = FnCache::build(&pairs(&[("a", 7), ("b", 1), ("a", 7), ("a", -3), ("", 9)]));
    assert_eq!(c.search("a", 10, None), Some(&[7, 7, -3][..]));
    assert_eq!(c.search("a", 3, Some(0)), Some(&[7, 7, -3][..]));
    assert_eq!(c.search("a", 2, Some(1)), Some(&[7, -3][..]));
    assert_eq!(c.search("a", 0, Some(1)), Some(&[][..]));
    assert_eq!(c.search("a", usize::MAX, Some(2)), Some(&[-3][..]));
    assert_eq!(c.search("a", usize::MAX, Some(3)), None);
    assert_eq!(c.search("a", 1, Some(usize::MAX)), None);
    assert_eq!(c.search("", 1, None), Some(&[9][..]));
    assert_eq!(c.search("c", 1, None), None);
    assert_eq!(c.search("A", 1, None), None);
}

#[test]
fn suggest_edges() {
    let c = FnCache::build(&pairs(&[("Int", 1), ("Int -> Int", 2), ("Int", 3), ("", 4)]));
    let all: HashSet<&str> = c.suggest("", 10).unwrap().into_iter().collect();
    assert_eq!(all, vec!["", "Int", "Int -> Int"].into_iter().collect());
    let exact: HashSet<&str> = c.suggest("Int", 10).unwrap().into_iter().collect();
    assert_eq!(exact, vec!["Int", "Int -> Int"].into_iter().collect());
    assert_eq!(c.suggest("Int -> Int", 10), Some(vec!["Int -> Int"]));
    assert_eq!(c.suggest("Int -> Int ", 10), None);
    assert_eq!(c.suggest("Int", 0), None);
    assert_eq!(c.suggest("I", 1).unwrap().len(), 1);
    assert_eq!(c.suggest("int", 1), None);
}

#[test]
fn suggest_is_the_same_each_time() {
    let c = setup_test_cache();
    let first = c.suggest("In", 2).unwrap();
    let second = c.suggest("In", 2).unwrap();
    assert_eq!(first, second);
    let all = c.suggest("In", 3).unwrap();
    assert_eq!(all[..2], first[..]);
}

#[test]
fn suggest_goes_by_characters() {
    let c = FnCache::build(&pairs(&[("\u{e9}t\u{e9}", 1), ("\u{e8}", 2), ("e", 3)]));
    assert_eq!(c.suggest("\u{e9}", 10), Some(vec!["\u{e9}t\u{e9}"]));
    assert_eq!(c.suggest("\u{e8}", 10), Some(vec!["\u{e8}"]));
    assert_eq!(c.suggest("\u{ea}", 10), None);
}

#[test]
fn every_suggestion_is_found_by_search() {
    let c = setup_test_cache();
    for sig in c.suggest("", 10).unwrap() {
        assert!(!c.search(sig, 10, None).unwrap().is_empty());
    }
}

#[test]
fn a_snapshot_outlives_a_replacement() {
    let state = AppState::new(Arc::new(setup_test_cache()));
    let before = state.get_fn_cache();
    state.update_fn_cache(FnCache::build(&pairs(&[("New", 42)])));
    let after = state.get_fn_cache();
    assert_eq!(before.search("String -> Int", 10, None), Some(&[1, 5][..]));
    assert_eq!(before.search("New", 10, None), None);
    assert_eq!(after.search("New", 10, None), Some(&[42][..]));
    assert_eq!(after.search("String -> Int", 10, None), None);
    state.update_fn_cache(FnCache::build(&pairs(&[("Newer", 43)])));
    assert_eq!(after.search("New", 10, None), Some(&[42][..]));
    assert_eq!(state.get_fn_cache().search("Newer", 10, None), Some(&[43][..]));
    assert_eq!(state.get_fn_cache().search("New", 10, None), None);
}

#[test]
fn the_broker_hands_out_and_replaces_its_index() {
    let mut broker = FnCacheBroker::new(test_fns());
    let before = match broker.handle(Request::GetCache) {
        Response::Cache(c) => c,
        Response::Updated => panic!("no index"),
    };
    assert_eq!(before.search("String -> Int", 10, None), Some(&[1, 5][..]));
    let fresh = vec![Function {
        id: 9,
        repo_id: 0,
        name: String::from("n"),
        type_signature: String::from("New"),
    }];
    assert!(matches!(broker.handle(Request::UpdateCache(fresh)), Response::Updated));
    let after = match broker.handle(Request::GetCache) {
        Response::Cache(c) => c,
        Response::Updated => panic!("no index"),
    };
    assert_eq!(after.search("New", 10, None), Some(&[9][..]));
    assert_eq!(after.search("String -> Int", 10, None), None);
    assert_eq!(before.search("String -> Int", 10, None), Some(&[1, 5][..]));
    assert_eq!(before.search("New", 10, None), None);
}

#[test]
fn stored_functions_are_equal_by_id() {
    let fns = test_fns();
    let mut same_id = fns[1].clone();
    same_id.name = String::from("other");
    assert!(fns[1] == same_id);
    assert!(fns[1] != fns[5]);
}
