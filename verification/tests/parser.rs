use fn_search_backend::grammar::ParseError;
use fn_search_backend::helpers::{
    is_allowed_for_types_and_functions, is_alphanumeric, is_operator, is_space_or_newline,
    is_space_or_newline_or_comma, same_text, CharClass,
};
use fn_search_backend::parser::{
    comments, declaration, elm, elm_mod_def, exported_name, expose_all,
    expose_functions_and_types, function, function_or_type, ignore_any, ignore_comments,
    multi_spaces_or_new_line_or_comma, type_signature,
};
use fn_search_backend::structs::{ElmCode, ElmModule, Function, Type, TypeOrFunction};

fn exported_function(name: &str) -> TypeOrFunction<'_> {
    TypeOrFunction::Function(Function { name, type_signature: None })
}

fn exported_type(name: &str) -> TypeOrFunction<'_> {
    TypeOrFunction::Type(Type { name, definition: None })
}

fn declared<'a>(name: &'a str, terms: &[&str]) -> ElmCode<'a> {
    ElmCode::Function(Function {
        name,
        type_signature: Some(terms.iter().map(|t| t.to_string()).collect()),
    })
}

fn ignore_many(input: &str) -> (&str, Vec<ElmCode<'_>>) {
    let mut rest = input;
    let mut items = Vec::new();
    while let Ok((after, item)) = ignore_any(rest) {
        items.push(item);
        rest = after;
    }
    (rest, items)
}

#[test]
fn parser_multiline_comment() {
    assert_eq!(ignore_comments("{- \nhello world \n-}"), Ok(("", ElmCode::Comment)));
}

#[test]
fn parser_singleline_comment() {
    assert_eq!(ignore_comments("-- hello world\nhello"), Ok(("hello", ElmCode::Comment)));
}

#[test]
fn parser_ignore_all() {
    assert_eq!(
        ignore_many("t s "),
        ("", vec![ElmCode::Ignore, ElmCode::Ignore, ElmCode::Ignore, ElmCode::Ignore])
    );
}

#[test]
fn parser_function_type_signature() {
    assert_eq!(
        function("\ntest : Int -> List Int -> \nInt\ntest"),
        Ok((
            "",
            ElmCode::Function(Function {
                name: "test",
                type_signature: Some(vec![
                    "Int".to_string(),
                    "List Int".to_string(),
                    "Int".to_string()
                ])
            })
        ))
    );
}

#[test]
fn parser_expose_all_works() {
    assert_eq!(elm_mod_def("module Main exposing (..)"), Ok(("", ElmModule::All)));
}

#[test]
fn parser_expose_one_type_works() {
    assert_eq!(
        elm_mod_def("module Main exposing (test0)"),
        Ok((
            "",
            ElmModule::List(vec![TypeOrFunction::Function(Function {
                name: "test0",
                type_signature: None
            }),])
        ))
    );
}

#[test]
fn parser_expose_many_types_works() {
    assert_eq!(
        elm_mod_def("module Main exposing (Test0, test1)"),
        Ok((
            "",
            ElmModule::List(vec![
                TypeOrFunction::Type(Type { name: "Test0", definition: None }),
                TypeOrFunction::Function(Function { name: "test1", type_signature: None }),
            ])
        ))
    );
}

#[test]
fn parser_newline_separator() {
    assert_eq!(
        elm_mod_def("module Utils.Time\n   exposing\n  ( a\n , b\n , c\n , d\n   )"),
        Ok((
            "",
            ElmModule::List(vec![
                TypeOrFunction::Function(Function { name: "a", type_signature: None }),
                TypeOrFunction::Function(Function { name: "b", type_signature: None }),
                TypeOrFunction::Function(Function { name: "c", type_signature: None }),
                TypeOrFunction::Function(Function { name: "d", type_signature: None }),
            ])
        ))
    );
}

#[test]
fn integration() {
    assert_eq!(
        elm("module Utils exposing (test)\ntest : Int -> List Int -> Int\ntest"),
        Ok((
            "",
            (
                ElmModule::List(vec![TypeOrFunction::Function(Function {
                    name: "test",
                    type_signature: None
                })]),
                vec![ElmCode::Function(Function {
                    name: "test",
                    type_signature: Some(vec![
                        "Int".to_string(),
                        "List Int".to_string(),
                        "Int".to_string()
                    ])
                })]
            )
        ))
    );
}

#[test]
fn lib_multiline_comment() {
    assert_eq!(ignore_comments("{- \nhello world \n-}"), Ok(("", ElmCode::Comment)));
}

#[test]
fn lib_singleline_comment() {
    assert_eq!(ignore_comments("-- hello world\nhello"), Ok(("hello", ElmCode::Comment)));
}

#[test]
fn lib_ignore_all() {
    assert_eq!(
        ignore_many("t s "),
        ("", vec![ElmCode::Ignore, ElmCode::Ignore, ElmCode::Ignore, ElmCode::Ignore])
    );
}

#[test]
fn lib_function_type_signature() {
    assert_eq!(
        declaration("test : hello -> \nworld -> Int\ntest"),
        Ok(("", declared("test", &["hello", "world", "Int"])))
    );
}

#[test]
fn lib_expose_all_works() {
    assert_eq!(elm_mod_def("module Main exposing (..)"), Ok(("", ElmModule::All)));
}

#[test]
fn lib_expose_one_type_works() {
    assert_eq!(
        elm_mod_def("module Main exposing (test0)"),
        Ok((
            "",
            ElmModule::List(vec![TypeOrFunction::Function(Function {
                name: "test0",
                type_signature: None
            }),])
        ))
    );
}

#[test]
fn lib_expose_many_types_works() {
    assert_eq!(
        elm_mod_def("module Main exposing (Test0, test1)"),
        Ok((
            "",
            ElmModule::List(vec![
                TypeOrFunction::Type(Type { name: "Test0", definition: None }),
                TypeOrFunction::Function(Function { name: "test1", type_signature: None }),
            ])
        ))
    );
}

#[test]
fn lib_newline_separator() {
    assert_eq!(
        elm_mod_def("module Utils.Time\n   exposing\n  ( a\n , b\n , c\n , d\n   )"),
        Ok((
            "",
            ElmModule::List(vec![
                TypeOrFunction::Function(Function { name: "a", type_signature: None }),
                TypeOrFunction::Function(Function { name: "b", type_signature: None }),
                TypeOrFunction::Function(Function { name: "c", type_signature: None }),
                TypeOrFunction::Function(Function { name: "d", type_signature: None }),
            ])
        ))
    );
}

#[test]
fn expose_all_reads_two_dots() {
    assert_eq!(expose_all("..)"), Ok((")", ElmModule::All)));
    assert_eq!(expose_all("."), Err(ParseError::Incomplete));
    assert_eq!(expose_all(""), Err(ParseError::Incomplete));
    assert_eq!(expose_all(".a"), Err(ParseError::Mismatch));
    assert_eq!(expose_all("a"), Err(ParseError::Mismatch));
}

#[test]
fn comment_texts() {
    assert_eq!(comments("{- a -} b"), Ok((" b", " a ")));
    assert_eq!(comments("-- a\nb"), Ok(("b", " a")));
    assert_eq!(comments("{--}"), Ok(("", "")));
    assert_eq!(comments("{- a"), Err(ParseError::Incomplete));
    assert_eq!(comments("-- a"), Err(ParseError::Incomplete));
    assert_eq!(comments("{"), Err(ParseError::Incomplete));
    assert_eq!(comments("-"), Err(ParseError::Incomplete));
    assert_eq!(comments(""), Err(ParseError::Incomplete));
    assert_eq!(comments("{a"), Err(ParseError::Mismatch));
    assert_eq!(comments("a"), Err(ParseError::Mismatch));
    assert_eq!(comments("{-}"), Err(ParseError::Incomplete));
}

#[test]
fn ignore_any_takes_one_character() {
    assert_eq!(ignore_any("ab"), Ok(("b", ElmCode::Ignore)));
    assert_eq!(ignore_any("\u{e9}b"), Ok(("b", ElmCode::Ignore)));
    assert_eq!(ignore_any(""), Err(ParseError::Incomplete));
}

#[test]
fn runs_need_a_character_behind_them() {
    assert_eq!(multi_spaces_or_new_line_or_comma(" ,\n x"), Ok(("x", " ,\n ")));
    assert_eq!(multi_spaces_or_new_line_or_comma("x"), Ok(("x", "")));
    assert_eq!(multi_spaces_or_new_line_or_comma(" , "), Err(ParseError::Incomplete));
    assert_eq!(multi_spaces_or_new_line_or_comma(""), Err(ParseError::Incomplete));
}

#[test]
fn character_classes() {
    for c in [' ', '\n', '\t', '\r', '\u{a0}', '\u{2003}'] {
        assert!(is_space_or_newline(c));
        assert!(is_space_or_newline_or_comma(c));
        assert!(CharClass::Whitespace.contains(c));
        assert!(!is_alphanumeric(c));
    }
    assert!(is_space_or_newline_or_comma(','));
    assert!(!is_space_or_newline(','));
    assert!(!CharClass::SpaceOrNewline.contains(','));
    assert!(CharClass::SpaceOrNewlineOrComma.contains(','));
    for c in ['a', 'Z', '0', '9', '_', '\u{e9}', '\u{663}', '\u{85cf}'] {
        assert!(is_alphanumeric(c));
        assert!(is_allowed_for_types_and_functions(c));
        assert!(CharClass::Alphanumeric.contains(c));
        assert!(!is_space_or_newline_or_comma(c));
    }
    for c in ['.', ','] {
        assert!(is_allowed_for_types_and_functions(c));
        assert!(CharClass::TypesAndFunctions.contains(c));
        assert!(!is_alphanumeric(c));
    }
    for c in ['(', ')', ' ', '-', ':', '\n'] {
        assert!(!is_allowed_for_types_and_functions(c));
    }
    for c in ['+', '-', '/', '*', '^', '=', '>', '<', '&', '|'] {
        assert!(is_operator(c));
    }
    for c in ['a', ' ', '.', ',', '!', '%', '~', ':'] {
        assert!(!is_operator(c));
    }
    assert!(same_text("a", "a"));
    assert!(!same_text("a", "A"));
    assert!(same_text("", ""));
}

#[test]
fn character_classes_over_all_characters() {
    let listed = |c: char| {
        let n = c as u32;
        n == 0x20
            || (0x09..=0x0d).contains(&n)
            || n == 0x85
            || n == 0xa0
            || n == 0x1680
            || (0x2000..=0x200a).contains(&n)
            || n == 0x2028
            || n == 0x2029
            || n == 0x202f
            || n == 0x205f
            || n == 0x3000
    };
    let mut white = 0;
    for n in 0..=0x10ffff_u32 {
        if let Some(c) = char::from_u32(n) {
            assert_eq!(CharClass::Whitespace.contains(c), listed(c), "white space {:x}", n);
            assert_eq!(is_space_or_newline(c), listed(c), "space or line feed {:x}", n);
            assert_eq!(is_space_or_newline_or_comma(c), listed(c) || c == ',');
            if listed(c) {
                white += 1;
            }
            if n < 128 {
                let letter_or_digit = c.is_ascii_digit() || c.is_ascii_alphabetic();
                assert_eq!(is_alphanumeric(c), letter_or_digit || c == '_', "name {:x}", n);
                assert_eq!(
                    is_allowed_for_types_and_functions(c),
                    letter_or_digit || c == '_' || c == '.' || c == ','
                );
                let item = [c, 'x'].iter().collect::<String>();
                let is_function =
                    matches!(exported_name(item.as_str()), TypeOrFunction::Function(_));
                assert_eq!(is_function, ('a'..='z').contains(&c), "lowercase {:x}", n);
            }
        }
    }
    assert_eq!(white, 25);
}

#[test]
fn names_by_their_first_character() {
    assert_eq!(exported_name("fooBar"), exported_function("fooBar"));
    assert_eq!(exported_name("FooBar"), exported_type("FooBar"));
    assert_eq!(exported_name("\u{3b4}"), exported_function("\u{3b4}"));
    assert_eq!(exported_name("\u{394}"), exported_type("\u{394}"));
    assert_eq!(exported_name("_f"), exported_type("_f"));
    assert_eq!(exported_name("1f"), exported_type("1f"));
    assert_eq!(exported_name(""), exported_type(""));
}

#[test]
fn case_classification() {
    assert_eq!(function_or_type("fooBar)"), Ok((")", exported_function("fooBar"))));
    assert_eq!(function_or_type("FooBar)"), Ok((")", exported_type("FooBar"))));
    assert_eq!(function_or_type("_x)"), Ok((")", exported_type("_x"))));
    assert_eq!(function_or_type("\u{e9}t\u{e9})"), Ok((")", exported_function("\u{e9}t\u{e9}"))));
    assert_eq!(
        elm_mod_def("module M exposing (fooBar, FooBar)"),
        Ok(("", ElmModule::List(vec![exported_function("fooBar"), exported_type("FooBar")])))
    );
    assert_eq!(
        function("\nfooBar : Int\nfooBar"),
        Ok(("", declared("fooBar", &["Int"])))
    );
}

#[test]
fn export_items() {
    assert_eq!(function_or_type("  a  ,b"), Ok((",b", exported_function("a"))));
    assert_eq!(
        function_or_type(" {- c -} -- d\n Msg(..) {- e -} )"),
        Ok((")", exported_type("Msg")))
    );
    assert_eq!(function_or_type("Msg(A,B),"), Ok((",", exported_type("Msg"))));
    assert_eq!(function_or_type("Msg(A, B),"), Ok(("(A, B),", exported_type("Msg"))));
    assert_eq!(function_or_type("a"), Err(ParseError::Incomplete));
    assert_eq!(function_or_type("a "), Err(ParseError::Incomplete));
    assert_eq!(function_or_type("a("), Err(ParseError::Incomplete));
    assert_eq!(function_or_type("a {- "), Err(ParseError::Incomplete));
    assert_eq!(function_or_type(")"), Err(ParseError::Mismatch));
    assert_eq!(function_or_type("  )"), Err(ParseError::Mismatch));
}

#[test]
fn a_list_keeps_a_name_as_often_as_it_stands() {
    assert_eq!(
        elm_mod_def("module M exposing (a, B, a)"),
        Ok((
            "",
            ElmModule::List(vec![
                exported_function("a"),
                exported_type("B"),
                exported_function("a")
            ])
        ))
    );
}

#[test]
fn a_body_declaration_is_classified_by_its_first_character() {
    assert_eq!(function("\nfooBar : Int\nfooBar"), Ok(("", declared("fooBar", &["Int"]))));
    assert_eq!(
        function("\nFooBar : Int\nFooBar"),
        Ok(("", ElmCode::Type(Type { name: "FooBar", definition: Some("Int\n") })))
    );
    assert_eq!(
        declaration("_x : a -> b\n_x"),
        Ok(("", ElmCode::Type(Type { name: "_x", definition: Some("a -> b\n") })))
    );
    assert_eq!(
        elm("module M exposing (FooBar)\nFooBar : Int\nFooBar"),
        Ok((
            "",
            (
                ElmModule::List(vec![exported_type("FooBar")]),
                vec![ElmCode::Type(Type { name: "FooBar", definition: Some("Int\n") })]
            )
        ))
    );
}

#[test]
fn export_lists() {
    assert_eq!(
        expose_functions_and_types("a, B ,c)"),
        Ok((
            ")",
            ElmModule::List(vec![exported_function("a"), exported_type("B"), exported_function("c")])
        ))
    );
    assert_eq!(expose_functions_and_types(")"), Ok((")", ElmModule::List(vec![]))));
    assert_eq!(
        expose_functions_and_types("a,)"),
        Ok((",)", ElmModule::List(vec![exported_function("a")])))
    );
    assert_eq!(expose_functions_and_types("a, b"), Err(ParseError::Incomplete));
    assert_eq!(expose_functions_and_types(""), Err(ParseError::Incomplete));
}

#[test]
fn headers() {
    assert_eq!(
        elm_mod_def("-- about\nport module A.B exposing ( a )\nrest"),
        Ok(("\nrest", ElmModule::List(vec![exported_function("a")])))
    );
    assert_eq!(elm_mod_def("module A exposing ()"), Ok(("", ElmModule::List(vec![]))));
    assert_eq!(elm_mod_def("module A exposing , ,(..)x"), Ok(("x", ElmModule::All)));
    assert_eq!(elm_mod_def("module A exposing (a,)"), Err(ParseError::Mismatch));
    assert_eq!(elm_mod_def("module A exposing [a]"), Err(ParseError::Mismatch));
    assert_eq!(elm_mod_def("module A exposing (a"), Err(ParseError::Incomplete));
    assert_eq!(elm_mod_def("module A exposing (.."), Err(ParseError::Incomplete));
    assert_eq!(elm_mod_def("module A exposing (..]"), Err(ParseError::Mismatch));
    assert_eq!(elm_mod_def("module A exposing"), Err(ParseError::Incomplete));
    assert_eq!(elm_mod_def("module A"), Err(ParseError::Incomplete));
    assert_eq!(elm_mod_def("exposing (..) module"), Err(ParseError::Incomplete));
    assert_eq!(elm_mod_def(""), Err(ParseError::Incomplete));
}

#[test]
fn a_module_word_in_a_comment_starts_the_header() {
    assert_eq!(
        elm_mod_def("-- this module exposing (a) only\nmodule A exposing (b)"),
        Ok((" only\nmodule A exposing (b)", ElmModule::List(vec![exported_function("a")])))
    );
}

#[test]
fn function_declarations() {
    assert_eq!(
        function("\nf : ( Int, String ) -> { a : Int }\nf x = 1"),
        Ok((" x = 1", declared("f", &["( Int, String )", "{ a : Int }"])))
    );
    assert_eq!(function("\nf:Int\nf"), Ok(("", declared("f", &["Int"]))));
    assert_eq!(function("\nf : a\n\t-> b\n    ->\tc\nf"), Ok(("", declared("f", &["a", "b", "c"]))));
    assert_eq!(function("f : Int\nf"), Err(ParseError::Mismatch));
    assert_eq!(function("\nf = 1\ng"), Err(ParseError::Mismatch));
    assert_eq!(function("\nf : Int\ng"), Err(ParseError::Incomplete));
    assert_eq!(function("\nf"), Err(ParseError::Incomplete));
    assert_eq!(function(""), Err(ParseError::Incomplete));
}

#[test]
fn a_signature_ends_at_the_name_wherever_it_stands() {
    assert_eq!(
        function("\nmap : (a -> b) -> Bitmap a -> Bitmap b\nmap f"),
        Ok((" a -> Bitmap b\nmap f", declared("map", &["(a", "b)", "Bit"])))
    );
}

#[test]
fn a_declaration_needs_a_name() {
    assert_eq!(function("\n: x"), Err(ParseError::Mismatch));
    assert_eq!(declaration(": x"), Err(ParseError::Mismatch));
    assert_eq!(declaration(" f : x\nf"), Err(ParseError::Mismatch));
    assert_eq!(elm("module M exposing (..)\n : x\n"), Ok(("", (ElmModule::All, vec![]))));
}

#[test]
fn signature_terms_are_split_and_normalised() {
    assert_eq!(type_signature("Int -> List Int -> Int"), vec!["Int", "List Int", "Int"]);
    assert_eq!(type_signature("Int"), vec!["Int"]);
    assert_eq!(type_signature(""), vec![""]);
    assert_eq!(type_signature("->"), vec!["", ""]);
    assert_eq!(type_signature(" a\n b\t->\n\tc "), vec!["a b", "c"]);
    assert_eq!(type_signature("a-->b"), vec!["a-", "b"]);
    assert_eq!(type_signature("(a, b) -> { x : Int }"), vec!["(a, b)", "{ x : Int }"]);
    assert_eq!(type_signature("a\u{a0}->\u{2003}b"), vec!["a", "b"]);
}

#[test]
fn splitting_a_joined_signature_gives_its_terms_back() {
    let terms = type_signature("Int -> List Int -> Int");
    assert_eq!(terms, vec!["Int", "List Int", "Int"]);
    let joined = terms.join(" -> ");
    assert_eq!(joined, "Int -> List Int -> Int");
    assert_eq!(type_signature(&joined), terms);
}

#[test]
fn module_bodies() {
    assert_eq!(
        elm("module M exposing (..)\n\n-- doc\n\nf : Int\nf = 1\n\n{-| doc -}\ng : Int -> Int\ng x = x\n"),
        Ok((
            "",
            (
                ElmModule::All,
                vec![
                    ElmCode::Comment,
                    declared("f", &["Int"]),
                    ElmCode::Comment,
                    declared("g", &["Int", "Int"]),
                ]
            )
        ))
    );
    assert_eq!(elm("module M exposing (..)"), Ok(("", (ElmModule::All, vec![]))));
}

#[test]
fn a_comment_does_not_hide_the_declaration_below_it() {
    assert_eq!(
        elm("module M exposing (..)\n-- doc\nf : Int\nf = 1\n"),
        Ok(("", (ElmModule::All, vec![ElmCode::Comment, declared("f", &["Int"])])))
    );
    assert_eq!(
        elm("module X exposing (..)\n-- c\nf : Int -> Int\nf = 1\n"),
        Ok(("", (ElmModule::All, vec![ElmCode::Comment, declared("f", &["Int", "Int"])])))
    );
    assert_eq!(
        elm("module M exposing (..)\n{-| a -}{- b -}f : Int\nf = 1\n-- c\n-- d\ng : Int\ng = 2\n"),
        Ok((
            "",
            (
                ElmModule::All,
                vec![
                    ElmCode::Comment,
                    ElmCode::Comment,
                    declared("f", &["Int"]),
                    ElmCode::Comment,
                    ElmCode::Comment,
                    declared("g", &["Int"]),
                ]
            )
        ))
    );
}

#[test]
fn a_declaration_stands_at_the_start_of_a_line_or_behind_a_comment() {
    assert_eq!(
        elm("module M exposing (..) f : Int\nf = 1\n"),
        Ok(("", (ElmModule::All, vec![])))
    );
    assert_eq!(
        elm("module M exposing (..)f : Int\nf = 1\n"),
        Ok(("", (ElmModule::All, vec![declared("f", &["Int"])])))
    );
    assert_eq!(
        elm("module M exposing (..)\nr = { f : Int\n, f = 1 }\n"),
        Ok(("", (ElmModule::All, vec![])))
    );
}

#[test]
fn a_text_without_a_header_is_no_module() {
    assert_eq!(elm(""), Err(ParseError::Mismatch));
    assert_eq!(elm("\nf : Int\nf = 1\n"), Err(ParseError::Mismatch));
    assert_eq!(elm("module M where"), Err(ParseError::Mismatch));
    assert_eq!(elm("module M exposing (a"), Err(ParseError::Mismatch));
    assert_eq!(elm("module M exposing (a]"), Err(ParseError::Mismatch));
    assert_eq!(elm("\u{0}\u{1}\u{fffd}\u{10ffff}"), Err(ParseError::Mismatch));
}
