//! The parser of Elm modules: the export clause of the header and the type
//! declarations of the body.
//!
//! Each function takes the text to read and gives what is left of it together
//! with what it read, as the grammar defines it.

use crate::grammar::{
    classify, comment, export_item, export_list, function_decl, module, module_header,
    signature_decl, signature_terms, tag, take_run, ParseError,
};
use crate::helpers::CharClass;
use crate::rules::{
    characters, comment_at, declarations_at, export_item_at, export_list_at, function_decl_at,
    module_header_at, named, signature_decl_at, tag2, take, terms_of,
};
use crate::structs::{
    body_view, signature_view, ElmCode, ElmCodeView, ElmModule, ElmModuleView,
    TypeOrFunction,
};
use vstd::prelude::*;
use vstd::string::*;

verus! {

/// What is left of `input` behind position `j`.
pub open spec fn rest_from(input: Seq<char>, j: int) -> Seq<char> {
    input.subrange(j, input.len() as int)
}

/// The exported name that `name` stands for: a function where its first
/// character is a lowercase letter, a type otherwise.
pub fn exported_name<'a>(name: &'a str) -> (item: TypeOrFunction<'a>)
    ensures
        item@ == classify(name@),
{
    let chars = characters(name);
    if chars.len() > 0 {
        named(name, Some(chars[0]))
    } else {
        named(name, None)
    }
}

/// The export clause `..`, which exports everything.
pub fn expose_all<'a>(input: &'a str) -> (r: Result<(&'a str, ElmModule<'a>), ParseError>)
    ensures
        match tag(input@, seq!['.', '.'], 0) {
            Ok(j) => r matches Ok((rest, exports)) && rest@ == rest_from(input@, j) && exports@
                == ElmModuleView::All,
            Err(e) => r matches Err(f) && f == e,
        },
{
    let chars = characters(input);
    match tag2(&chars, '.', '.', 0) {
        Ok(j) => Ok((input.substring_char(j, chars.len()), ElmModule::All)),
        Err(e) => Err(e),
    }
}

/// An export list: items separated by commas, none included.
pub fn expose_functions_and_types<'a>(input: &'a str) -> (r: Result<
    (&'a str, ElmModule<'a>),
    ParseError,
>)
    ensures
        match export_list(input@, 0) {
            Ok((j, items)) => r matches Ok((rest, exports)) && rest@ == rest_from(input@, j)
                && exports@ == ElmModuleView::List(items),
            Err(e) => r matches Err(f) && f == e,
        },
{
    let chars = characters(input);
    match export_list_at(input, &chars, 0) {
        Ok((j, items)) => Ok((input.substring_char(j, chars.len()), ElmModule::List(items))),
        Err(e) => Err(e),
    }
}

/// One item of an export list, with the comments and white space around it.
pub fn function_or_type<'a>(input: &'a str) -> (r: Result<(&'a str, TypeOrFunction<'a>), ParseError>)
    ensures
        match export_item(input@, 0) {
            Ok((j, v)) => r matches Ok((rest, item)) && rest@ == rest_from(input@, j) && item@
                == v,
            Err(e) => r matches Err(f) && f == e,
        },
{
    let chars = characters(input);
    match export_item_at(input, &chars, 0) {
        Ok((j, item)) => Ok((input.substring_char(j, chars.len()), item)),
        Err(e) => Err(e),
    }
}

/// A run of white space, line feeds and commas, which may be empty: what is
/// left, and the run.
pub fn multi_spaces_or_new_line_or_comma<'a>(input: &'a str) -> (r: Result<
    (&'a str, &'a str),
    ParseError,
>)
    ensures
        match take_run(input@, CharClass::SpaceOrNewlineOrComma, 0) {
            Ok(j) => r matches Ok((rest, run)) && rest@ == rest_from(input@, j) && run@
                == input@.subrange(0, j),
            Err(e) => r matches Err(f) && f == e,
        },
{
    let chars = characters(input);
    match take(&chars, CharClass::SpaceOrNewlineOrComma, 0) {
        Ok(j) => Ok((input.substring_char(j, chars.len()), input.substring_char(0, j))),
        Err(e) => Err(e),
    }
}

/// Any one character, which leaves no item.
pub fn ignore_any<'a>(input: &'a str) -> (r: Result<(&'a str, ElmCode<'a>), ParseError>)
    ensures
        input@.len() == 0 ==> (r matches Err(f) && f == ParseError::Incomplete),
        input@.len() > 0 ==> (r matches Ok((rest, item)) && rest@ == rest_from(input@, 1) && item@
            == ElmCodeView::Ignore),
{
    let chars = characters(input);
    if chars.len() == 0 {
        Err(ParseError::Incomplete)
    } else {
        Ok((input.substring_char(1, chars.len()), ElmCode::Ignore))
    }
}

/// A comment, as an item of a module body.
pub fn ignore_comments<'a>(input: &'a str) -> (r: Result<(&'a str, ElmCode<'a>), ParseError>)
    ensures
        match comment(input@, 0) {
            Ok((j, _)) => r matches Ok((rest, item)) && rest@ == rest_from(input@, j) && item@
                == ElmCodeView::Comment,
            Err(e) => r matches Err(f) && f == e,
        },
{
    let chars = characters(input);
    match comment_at(&chars, 0) {
        Ok((j, _)) => Ok((input.substring_char(j, chars.len()), ElmCode::Comment)),
        Err(e) => Err(e),
    }
}

/// A comment: what is left behind it, and the text between its delimiters.
pub fn comments<'a>(input: &'a str) -> (r: Result<(&'a str, &'a str), ParseError>)
    ensures
        match comment(input@, 0) {
            Ok((j, body)) => r matches Ok((rest, text)) && rest@ == rest_from(input@, j) && text@
                == body,
            Err(e) => r matches Err(f) && f == e,
        },
{
    let chars = characters(input);
    match comment_at(&chars, 0) {
        Ok((j, span)) => Ok(
            (input.substring_char(j, chars.len()), input.substring_char(span.start, span.end)),
        ),
        Err(e) => Err(e),
    }
}

/// The terms of a signature text: its pieces between arrows `->`, each without
/// line feeds and tabs and without white space around it.
pub fn type_signature(text: &str) -> (terms: Vec<String>)
    ensures
        signature_view(terms@) == signature_terms(text@),
{
    let chars = characters(text);
    terms_of(&chars)
}

/// A type declaration from its name on: `name : signature`, which ends where
/// the name stands again. The item is a function for a name that begins with a
/// lowercase letter and a type for any other.
pub fn declaration<'a>(input: &'a str) -> (r: Result<(&'a str, ElmCode<'a>), ParseError>)
    ensures
        match signature_decl(input@, 0) {
            Ok((j, v)) => r matches Ok((rest, item)) && rest@ == rest_from(input@, j) && item@
                == v,
            Err(e) => r matches Err(f) && f == e,
        },
{
    let chars = characters(input);
    match signature_decl_at(input, &chars, 0) {
        Ok((j, item)) => Ok((input.substring_char(j, chars.len()), item)),
        Err(e) => Err(e),
    }
}

/// A type declaration at the start of a line: a line feed, `name : signature`,
/// and the name again.
pub fn function<'a>(input: &'a str) -> (r: Result<(&'a str, ElmCode<'a>), ParseError>)
    ensures
        match function_decl(input@, 0) {
            Ok((j, v)) => r matches Ok((rest, item)) && rest@ == rest_from(input@, j) && item@
                == v,
            Err(e) => r matches Err(f) && f == e,
        },
{
    let chars = characters(input);
    match function_decl_at(input, &chars, 0) {
        Ok((j, item)) => Ok((input.substring_char(j, chars.len()), item)),
        Err(e) => Err(e),
    }
}

/// A module header, with whatever stands before it: the export clause.
pub fn elm_mod_def<'a>(input: &'a str) -> (r: Result<(&'a str, ElmModule<'a>), ParseError>)
    ensures
        match module_header(input@, 0) {
            Ok((j, v)) => r matches Ok((rest, exports)) && rest@ == rest_from(input@, j)
                && exports@ == v,
            Err(e) => r matches Err(f) && f == e,
        },
{
    let chars = characters(input);
    match module_header_at(input, &chars, 0) {
        Ok((j, exports)) => Ok((input.substring_char(j, chars.len()), exports)),
        Err(e) => Err(e),
    }
}

/// A whole module: the export clause of its header and the items of its body.
/// Nothing is left of the text. A text without a header is no module.
pub fn elm<'a>(input: &'a str) -> (r: Result<
    (&'a str, (ElmModule<'a>, Vec<ElmCode<'a>>)),
    ParseError,
>)
    ensures
        match module(input@) {
            Ok((exports, items)) => r matches Ok((rest, (e, d))) && rest@.len() == 0 && e@
                == exports && body_view(d@) == items,
            Err(e) => r matches Err(f) && f == e,
        },
{
    let chars = characters(input);
    match module_header_at(input, &chars, 0) {
        Ok((j, exports)) => {
            let items = declarations_at(input, &chars, j, true);
            Ok((input.substring_char(chars.len(), chars.len()), (exports, items)))
        },
        Err(_) => Err(ParseError::Mismatch),
    }
}

} // verus!
