use fn_search_backend::exports::{get_elm_exports, resolve, ElmExport, ElmExports};
use fn_search_backend::grammar::ParseError;
use fn_search_backend::structs::{ElmCode, ElmModule, Function, Type, TypeOrFunction};

fn terms(items: &[&str]) -> Option<Vec<String>> {
    Some(items.iter().map(|t| t.to_string()).collect())
}

fn function_export(name: &str, signature: &[&str]) -> ElmExport {
    ElmExport::Function { name: name.to_string(), type_signature: terms(signature) }
}

fn declared<'a>(name: &'a str, signature: &[&str]) -> ElmCode<'a> {
    ElmCode::Function(Function { name, type_signature: terms(signature) })
}

fn listed_function(name: &str) -> TypeOrFunction<'_> {
    TypeOrFunction::Function(Function { name, type_signature: None })
}

fn listed_type(name: &str) -> TypeOrFunction<'_> {
    TypeOrFunction::Type(Type { name, definition: None })
}

fn names(exports: &ElmExports) -> Vec<&str> {
    exports
        .exports
        .iter()
        .map(|e| match e {
            ElmExport::Function { name, .. } => name.as_str(),
            ElmExport::Type { name, .. } => name.as_str(),
        })
        .collect()
}

#[test]
fn exposing_all_exports_every_declaration() {
    let code = "module X exposing (..)\n\n{-| one -}\na : Int\na = 1\n\n-- two\n\nb : Int -> Int\nb x = x\n\n{- three -}\n{- four -}\nc : String\nc = \"\"\n";
    let exports = get_elm_exports(code).unwrap();
    assert_eq!(
        exports.exports,
        vec![
            function_export("a", &["Int"]),
            function_export("b", &["Int", "Int"]),
            function_export("c", &["String"]),
        ]
    );
    let bare = "module X exposing (..)\n\na : Int\na = 1\n\nb : Int -> Int\nb x = x\n\nc : String\nc = \"\"\n";
    assert_eq!(get_elm_exports(bare).unwrap(), exports);
}

#[test]
fn an_export_list_keeps_what_is_listed_and_declared() {
    let code = "module X exposing (a, Gone, c)\n\na : Int\na = 1\n\nb : Int\nb = 2\n\nc : Int -> Int\nc x = x\n";
    let exports = get_elm_exports(code).unwrap();
    assert_eq!(
        exports.exports,
        vec![function_export("a", &["Int"]), function_export("c", &["Int", "Int"])]
    );
    assert!(exports.exports.len() <= 3);
}

#[test]
fn nothing_listed_or_nothing_declared_gives_no_export() {
    assert_eq!(
        get_elm_exports("module X exposing ()\n\na : Int\na = 1\n").unwrap().exports,
        vec![]
    );
    assert_eq!(get_elm_exports("module X exposing (a, b)\n").unwrap().exports, vec![]);
    assert_eq!(get_elm_exports("module X exposing (..)").unwrap().exports, vec![]);
}

#[test]
fn a_text_without_a_header_has_no_exports() {
    assert_eq!(get_elm_exports(""), Err(ParseError::Mismatch));
    assert_eq!(get_elm_exports("a : Int\na = 1\n"), Err(ParseError::Mismatch));
    assert_eq!(get_elm_exports("module X exposing (a"), Err(ParseError::Mismatch));
}

#[test]
fn resolve_keeps_the_order_of_the_body() {
    let header = ElmModule::List(vec![listed_function("z"), listed_function("a"), listed_type("T")]);
    let body = vec![
        ElmCode::Comment,
        declared("a", &["Int"]),
        ElmCode::Ignore,
        ElmCode::Type(Type { name: "T", definition: Some("= A | B") }),
        ElmCode::Declaration,
        declared("hidden", &["Int"]),
        declared("z", &["String"]),
    ];
    assert_eq!(
        resolve(&header, &body).exports,
        vec![
            function_export("a", &["Int"]),
            ElmExport::Type { name: "T".to_string(), definition: Some("= A | B".to_string()) },
            function_export("z", &["String"]),
        ]
    );
    assert_eq!(names(&resolve(&ElmModule::All, &body)), vec!["a", "T", "hidden", "z"]);
}

#[test]
fn a_name_declared_twice_is_exported_twice() {
    let header = ElmModule::List(vec![listed_function("a")]);
    let body = vec![declared("a", &["Int"]), declared("a", &["String"])];
    assert_eq!(
        resolve(&header, &body).exports,
        vec![function_export("a", &["Int"]), function_export("a", &["String"])]
    );
}

#[test]
fn a_name_listed_twice_is_exported_once() {
    let header = ElmModule::List(vec![listed_function("a"), listed_function("a")]);
    let body = vec![declared("a", &["Int"])];
    assert_eq!(resolve(&header, &body).exports, vec![function_export("a", &["Int"])]);
}

#[test]
fn the_body_says_more_than_the_header() {
    let header = ElmModule::List(vec![
        TypeOrFunction::Function(Function { name: "a", type_signature: None }),
        TypeOrFunction::Function(Function { name: "a", type_signature: terms(&["Inline"]) }),
        TypeOrFunction::Function(Function { name: "b", type_signature: terms(&["Inline"]) }),
        TypeOrFunction::Type(Type { name: "T", definition: Some("inline") }),
        TypeOrFunction::Type(Type { name: "U", definition: None }),
    ]);
    let body = vec![
        ElmCode::Function(Function { name: "a", type_signature: None }),
        declared("b", &["Body"]),
        ElmCode::Type(Type { name: "T", definition: None }),
        ElmCode::Type(Type { name: "U", definition: None }),
        ElmCode::Type(Type { name: "T", definition: Some("body") }),
    ];
    assert_eq!(
        resolve(&header, &body).exports,
        vec![
            function_export("a", &["Inline"]),
            function_export("b", &["Body"]),
            ElmExport::Type { name: "T".to_string(), definition: Some("inline".to_string()) },
            ElmExport::Type { name: "U".to_string(), definition: None },
            ElmExport::Type { name: "T".to_string(), definition: Some("body".to_string()) },
        ]
    );
    let all = resolve(&ElmModule::All, &body).exports;
    assert_eq!(all[0], ElmExport::Function { name: "a".to_string(), type_signature: None });
    assert_eq!(all[2], ElmExport::Type { name: "T".to_string(), definition: None });
}

#[test]
fn a_listed_name_matches_a_declaration_of_either_kind() {
    let header = ElmModule::List(vec![listed_type("a"), listed_function("T")]);
    let body = vec![declared("a", &["Int"]), ElmCode::Type(Type { name: "T", definition: None })];
    assert_eq!(names(&resolve(&header, &body)), vec!["a", "T"]);
}

#[test]
fn a_line_comment_above_a_declaration_does_not_hide_it() {
    assert_eq!(
        get_elm_exports("module X exposing (..)\n-- c\nf : Int -> Int\nf = 1\n").unwrap().exports,
        vec![function_export("f", &["Int", "Int"])]
    );
}

#[test]
fn a_declared_name_is_a_type_unless_it_begins_in_lowercase() {
    assert_eq!(
        get_elm_exports("module M exposing (FooBar)\nFooBar : Int\nFooBar = 1\n").unwrap().exports,
        vec![ElmExport::Type { name: "FooBar".to_string(), definition: Some("Int\n".to_string()) }]
    );
    assert_eq!(
        get_elm_exports("module M exposing (fooBar)\nfooBar : Int\nfooBar = 1\n").unwrap().exports,
        vec![function_export("fooBar", &["Int"])]
    );
}

#[test]
fn names_only_listed_or_only_declared_are_left_out() {
    assert_eq!(
        get_elm_exports("module M exposing (a, c)\n\na : Int\na = 1\n\nb : Int\nb = 2\n")
            .unwrap()
            .exports,
        vec![function_export("a", &["Int"])]
    );
    assert_eq!(
        get_elm_exports("module Utils exposing (test)\ntest : Int -> List Int -> Int\ntest")
            .unwrap()
            .exports,
        vec![function_export("test", &["Int", "List Int", "Int"])]
    );
}
