//! The grammar of a module, over its text as a sequence of characters.
//!
//! Every rule is a function of the text and of the position at which it is
//! tried. A rule that applies gives the position behind what it took. A rule
//! that does not apply gives `Mismatch`, or `Incomplete` where the text ended
//! before the rule could be decided: a run of characters is over only when a
//! character outside of it follows, and a literal that the end of the text cuts
//! short might still have come.

use crate::helpers::{lowercase, white_space, CharClass};
use crate::structs::{
    ElmCodeView, ElmModuleView, FunctionView, TypeOrFunctionView, TypeView,
};
use vstd::prelude::*;

verus! {

/// Why a rule did not apply.
#[derive(Debug, Clone, Copy, PartialEq, Eq)]
pub enum ParseError {
    /// The text does not have the shape the rule asks for.
    Mismatch,
    /// The text ended before the rule could be decided.
    Incomplete,
}

/// `t` stands in `s` at position `i`.
pub open spec fn occurs_at(s: Seq<char>, t: Seq<char>, i: int) -> bool {
    0 <= i && i + t.len() <= s.len() && s.subrange(i, i + t.len()) =~= t
}

/// The first position at or behind `i` at which `t` stands in `s`.
pub open spec fn find(s: Seq<char>, t: Seq<char>, i: int) -> Option<int>
    decreases s.len() - i,
{
    if i < 0 || i + t.len() > s.len() {
        None
    } else if occurs_at(s, t, i) {
        Some(i)
    } else {
        find(s, t, i + 1)
    }
}

/// The end of the run of characters of class `k` that starts at `i`: the first
/// position at or behind `i` whose character is outside the class, or the length
/// of the text where there is none.
pub open spec fn run_end(s: Seq<char>, k: CharClass, i: int) -> int
    decreases s.len() - i,
{
    if i < 0 || i >= s.len() {
        s.len() as int
    } else if !k.has(s[i]) {
        i
    } else {
        run_end(s, k, i + 1)
    }
}

/// A run of class `k` from `i`, which a character outside the class must end.
pub open spec fn take_run(s: Seq<char>, k: CharClass, i: int) -> Result<int, ParseError> {
    let j = run_end(s, k, i);
    if j >= s.len() {
        Err(ParseError::Incomplete)
    } else {
        Ok(j)
    }
}

/// The literal `t` at `i`. Where the text ends inside what could still become
/// `t`, the rule is undecided.
pub open spec fn tag(s: Seq<char>, t: Seq<char>, i: int) -> Result<int, ParseError> {
    if occurs_at(s, t, i) {
        Ok(i + t.len())
    } else if 0 <= i <= s.len() && s.len() - i < t.len() && s.subrange(i, s.len() as int)
        == t.subrange(0, s.len() - i) {
        Err(ParseError::Incomplete)
    } else {
        Err(ParseError::Mismatch)
    }
}

/// Text between an opening literal at `i` and the first closing literal behind
/// it: the position behind the closing literal, and the text between the two.
pub open spec fn enclosed(s: Seq<char>, open: Seq<char>, close: Seq<char>, i: int) -> Result<
    (int, Seq<char>),
    ParseError,
> {
    match tag(s, open, i) {
        Ok(a) => match find(s, close, a) {
            Some(j) => Ok((j + close.len(), s.subrange(a, j))),
            None => Err(ParseError::Incomplete),
        },
        Err(e) => Err(e),
    }
}

/// A block comment `{- .. -}` or a line comment `-- ..` up to its line feed.
pub open spec fn comment(s: Seq<char>, i: int) -> Result<(int, Seq<char>), ParseError> {
    match enclosed(s, seq!['{', '-'], seq!['-', '}'], i) {
        Err(ParseError::Mismatch) => enclosed(s, seq!['-', '-'], seq!['\n'], i),
        r => r,
    }
}

/// A comment ends behind where it starts.
pub proof fn lemma_comment_advances(s: Seq<char>, i: int)
    ensures
        comment(s, i) matches Ok((q, _)) ==> i + 2 < q <= s.len(),
{
    lemma_enclosed_advances(s, seq!['{', '-'], seq!['-', '}'], i);
    lemma_enclosed_advances(s, seq!['-', '-'], seq!['\n'], i);
}

/// What `find` gives is an occurrence at or behind the start, and the first.
pub proof fn lemma_find(s: Seq<char>, t: Seq<char>, i: int)
    requires
        0 <= i,
    ensures
        find(s, t, i) matches Some(j) ==> i <= j && occurs_at(s, t, j) && forall|k: int|
            i <= k < j ==> !occurs_at(s, t, k),
        find(s, t, i) is None ==> forall|k: int| i <= k ==> !occurs_at(s, t, k),
    decreases s.len() - i,
{
    if i < 0 || i + t.len() > s.len() {
    } else if occurs_at(s, t, i) {
    } else {
        lemma_find(s, t, i + 1);
    }
}

/// Enclosed text ends behind its two literals.
pub proof fn lemma_enclosed_advances(s: Seq<char>, open: Seq<char>, close: Seq<char>, i: int)
    ensures
        enclosed(s, open, close, i) matches Ok((q, body)) ==> i + open.len() + close.len() <= q
            <= s.len() && i + open.len() + body.len() + close.len() == q,
{
    if let Ok(a) = tag(s, open, i) {
        lemma_find(s, close, a);
    }
}

/// The end of a run lies between its start and the end of the text, and every
/// character before it belongs to the class.
pub proof fn lemma_run_end(s: Seq<char>, k: CharClass, i: int)
    requires
        0 <= i <= s.len(),
    ensures
        i <= run_end(s, k, i) <= s.len(),
        forall|j: int| i <= j < run_end(s, k, i) ==> k.has(#[trigger] s[j]),
        run_end(s, k, i) < s.len() ==> !k.has(s[run_end(s, k, i)]),
    decreases s.len() - i,
{
    if i < s.len() && k.has(s[i]) {
        lemma_run_end(s, k, i + 1);
    }
}

/// Comments and white space in any order, up to the first character that is
/// neither. The text must go on behind them.
pub open spec fn trivia(s: Seq<char>, i: int) -> Result<int, ParseError>
    decreases s.len() - i,
{
    match comment(s, i) {
        Ok((q, _)) => {
            proof {
                lemma_comment_advances(s, i);
            }
            trivia(s, q)
        },
        Err(ParseError::Incomplete) => Err(ParseError::Incomplete),
        Err(ParseError::Mismatch) => {
            let j = run_end(s, CharClass::SpaceOrNewline, i);
            if i < 0 || j >= s.len() {
                Err(ParseError::Incomplete)
            } else if j == i {
                Ok(i)
            } else {
                proof {
                    lemma_run_end(s, CharClass::SpaceOrNewline, i);
                }
                trivia(s, j)
            }
        },
    }
}

/// What `trivia` skips ends inside the text, at or behind where it starts.
pub proof fn lemma_trivia_bounds(s: Seq<char>, i: int)
    requires
        0 <= i <= s.len(),
    ensures
        trivia(s, i) matches Ok(j) ==> i <= j < s.len(),
    decreases s.len() - i,
{
    lemma_comment_advances(s, i);
    lemma_run_end(s, CharClass::SpaceOrNewline, i);
    match comment(s, i) {
        Ok((q, _)) => lemma_trivia_bounds(s, q),
        Err(ParseError::Incomplete) => {},
        Err(ParseError::Mismatch) => {
            let j = run_end(s, CharClass::SpaceOrNewline, i);
            if j < s.len() && j != i {
                lemma_trivia_bounds(s, j);
            }
        },
    }
}

/// The name of an export item at `a` and where the item ends: the run of
/// identifier characters from `a`, and behind it, where one follows, a
/// parenthesised list of constructors without white space.
pub open spec fn export_name(s: Seq<char>, a: int) -> Result<(int, int), ParseError> {
    let k = run_end(s, CharClass::Alphanumeric, a);
    if k >= s.len() {
        Err(ParseError::Incomplete)
    } else if s[k] == '(' {
        let m = run_end(s, CharClass::TypesAndFunctions, k + 1);
        if m >= s.len() {
            Err(ParseError::Incomplete)
        } else if s[m] == ')' {
            Ok((k, m + 1))
        } else {
            Ok((k, k))
        }
    } else {
        Ok((k, k))
    }
}

/// An exported name by its first character: a function where that is a
/// lowercase letter, a type otherwise.
pub open spec fn classify(name: Seq<char>) -> TypeOrFunctionView
    recommends
        name.len() > 0,
{
    if name.len() > 0 && lowercase(name[0]) {
        TypeOrFunctionView::Function(FunctionView { name, type_signature: None })
    } else {
        TypeOrFunctionView::Type(TypeView { name, definition: None })
    }
}

/// One item of an export list: a name that is not empty, with comments and
/// white space allowed on both sides.
pub open spec fn export_item(s: Seq<char>, i: int) -> Result<
    (int, TypeOrFunctionView),
    ParseError,
> {
    match trivia(s, i) {
        Err(e) => Err(e),
        Ok(a) => match export_name(s, a) {
            Err(e) => Err(e),
            Ok((k, m)) => match trivia(s, m) {
                Err(e) => Err(e),
                Ok(b) => if k == a {
                    Err(ParseError::Mismatch)
                } else {
                    Ok((b, classify(s.subrange(a, k))))
                },
            },
        },
    }
}

/// An export item ends inside the text, behind where it starts.
pub proof fn lemma_export_item_advances(s: Seq<char>, i: int)
    requires
        0 <= i <= s.len(),
    ensures
        export_item(s, i) matches Ok((q, _)) ==> i < q < s.len(),
{
    lemma_trivia_bounds(s, i);
    if let Ok(a) = trivia(s, i) {
        lemma_run_end(s, CharClass::Alphanumeric, a);
        if let Ok((k, m)) = export_name(s, a) {
            lemma_run_end(s, CharClass::TypesAndFunctions, k + 1);
            lemma_trivia_bounds(s, m);
        }
    }
}

/// The items that follow in a list whose items so far are `acc` and end at `p`:
/// each a comma and an item.
pub open spec fn export_list_tail(s: Seq<char>, p: int, acc: Seq<TypeOrFunctionView>) -> Result<
    (int, Seq<TypeOrFunctionView>),
    ParseError,
>
    decreases s.len() - p,
{
    match tag(s, seq![','], p) {
        Err(ParseError::Mismatch) => Ok((p, acc)),
        Err(ParseError::Incomplete) => Err(ParseError::Incomplete),
        Ok(behind) => match export_item(s, behind) {
            Err(ParseError::Mismatch) => Ok((p, acc)),
            Err(ParseError::Incomplete) => Err(ParseError::Incomplete),
            Ok((q, item)) => {
                proof {
                    lemma_export_item_advances(s, behind);
                }
                export_list_tail(s, q, acc.push(item))
            },
        },
    }
}

/// Export items separated by commas; none is a list too.
pub open spec fn export_list(s: Seq<char>, i: int) -> Result<
    (int, Seq<TypeOrFunctionView>),
    ParseError,
> {
    match export_item(s, i) {
        Err(ParseError::Mismatch) => Ok((i, Seq::empty())),
        Err(ParseError::Incomplete) => Err(ParseError::Incomplete),
        Ok((p, item)) => export_list_tail(s, p, seq![item]),
    }
}

/// What stands between the parentheses of an export clause: `..` or a list.
pub open spec fn exposed(s: Seq<char>, i: int) -> Result<(int, ElmModuleView), ParseError> {
    match tag(s, seq!['.', '.'], i) {
        Ok(p) => Ok((p, ElmModuleView::All)),
        Err(ParseError::Incomplete) => Err(ParseError::Incomplete),
        Err(ParseError::Mismatch) => match export_list(s, i) {
            Ok((p, items)) => Ok((p, ElmModuleView::List(items))),
            Err(e) => Err(e),
        },
    }
}

/// The closing parenthesis of an export clause at `p`.
pub open spec fn closing(s: Seq<char>, p: int, exports: ElmModuleView) -> Result<
    (int, ElmModuleView),
    ParseError,
> {
    if p < 0 || p >= s.len() {
        Err(ParseError::Incomplete)
    } else if s[p] == ')' {
        Ok((p + 1, exports))
    } else {
        Err(ParseError::Mismatch)
    }
}

/// The export clause behind the word `exposing`, which ends at `j`.
pub open spec fn export_clause(s: Seq<char>, j: int) -> Result<(int, ElmModuleView), ParseError> {
    match take_run(s, CharClass::SpaceOrNewlineOrComma, j) {
        Err(e) => Err(e),
        Ok(o) => if s[o] != '(' {
            Err(ParseError::Mismatch)
        } else {
            match exposed(s, o + 1) {
                Err(e) => Err(e),
                Ok((p, exports)) => closing(s, p, exports),
            }
        },
    }
}

/// A module header: whatever stands before the first `module`, whatever stands
/// between it and the next `exposing`, and the export clause.
pub open spec fn module_header(s: Seq<char>, i: int) -> Result<(int, ElmModuleView), ParseError> {
    match find(s, "module"@, i) {
        None => Err(ParseError::Incomplete),
        Some(m) => match find(s, "exposing"@, m + "module"@.len()) {
            None => Err(ParseError::Incomplete),
            Some(e) => export_clause(s, e + "exposing"@.len()),
        },
    }
}

/// Not a line feed and not a tab.
pub open spec fn no_break(c: char) -> bool {
    c != '\n' && c != '\t'
}

/// `t` without its line feeds and tabs.
pub open spec fn without_breaks(t: Seq<char>) -> Seq<char> {
    t.filter(|c: char| no_break(c))
}

/// Where what is left of `t` begins once the white space at its start is gone.
pub open spec fn trim_start(t: Seq<char>) -> int {
    run_end(t, CharClass::Whitespace, 0)
}

/// Where what is left of `t` ends once the white space at its end is gone; not
/// before `from`.
pub open spec fn trim_end(t: Seq<char>, from: int) -> int
    decreases t.len(),
{
    if t.len() <= from || t.len() == 0 {
        from
    } else if !white_space(t.last()) {
        t.len() as int
    } else {
        trim_end(t.drop_last(), from)
    }
}

/// `t` without the white space at its start and at its end.
pub open spec fn trimmed(t: Seq<char>) -> Seq<char> {
    t.subrange(trim_start(t), trim_end(t, trim_start(t)))
}

/// One term of a signature as it is kept: without line feeds and tabs, then
/// without white space around it.
pub open spec fn normal_term(piece: Seq<char>) -> Seq<char> {
    trimmed(without_breaks(piece))
}

/// The terms of the signature text `t` from `i` on: its pieces between arrows
/// `->`, taken from the left, each normalised.
pub open spec fn signature_terms_from(t: Seq<char>, i: int) -> Seq<Seq<char>>
    decreases t.len() - i,
{
    match find(t, seq!['-', '>'], i) {
        None => seq![normal_term(t.subrange(i, t.len() as int))],
        Some(j) => {
            proof {
                lemma_find(t, seq!['-', '>'], i);
            }
            seq![normal_term(t.subrange(i, j))] + signature_terms_from(t, j + 2)
        },
    }
}

/// The terms of a signature text.
pub open spec fn signature_terms(t: Seq<char>) -> Seq<Seq<char>> {
    signature_terms_from(t, 0)
}

/// What a declaration of `name` with the text `text` behind its colon is: for
/// a name that begins with a lowercase letter a function, whose signature is
/// the terms of `text`; for any other name a type, whose definition is `text`
/// as it stands.
pub open spec fn declared(name: Seq<char>, text: Seq<char>) -> ElmCodeView {
    if name.len() > 0 && lowercase(name[0]) {
        ElmCodeView::Function(FunctionView { name, type_signature: Some(signature_terms(text)) })
    } else {
        ElmCodeView::Type(TypeView { name, definition: Some(text) })
    }
}

/// A name is classified alike in an export list and in the body: a function
/// where it begins with a lowercase letter, a type where it does not.
pub proof fn lemma_classified_alike(name: Seq<char>, text: Seq<char>)
    ensures
        classify(name) is Function <==> name.len() > 0 && lowercase(name[0]),
        declared(name, text) is Function <==> name.len() > 0 && lowercase(name[0]),
        classify(name) is Type <==> declared(name, text) is Type,
        classify(name).name() == name,
        declared(name, text) matches ElmCodeView::Function(f) ==> f.name == name,
        declared(name, text) matches ElmCodeView::Type(t) ==> t.name == name,
{
}

/// A type declaration from its name on: the name, which is not empty, a colon
/// with optional white space on both sides, and the text of the signature,
/// which ends where the characters of the name stand again, be it inside a
/// longer word. The rule ends behind that second name.
pub open spec fn signature_decl(s: Seq<char>, a: int) -> Result<(int, ElmCodeView), ParseError> {
    match take_run(s, CharClass::Alphanumeric, a) {
        Err(e) => Err(e),
        Ok(k) => if k == a {
            Err(ParseError::Mismatch)
        } else {
            match take_run(s, CharClass::SpaceOrNewlineOrComma, k) {
                Err(e) => Err(e),
                Ok(c) => if s[c] != ':' {
                    Err(ParseError::Mismatch)
                } else {
                    match take_run(s, CharClass::SpaceOrNewlineOrComma, c + 1) {
                        Err(e) => Err(e),
                        Ok(b) => {
                            let name = s.subrange(a, k);
                            match find(s, name, b) {
                                None => Err(ParseError::Incomplete),
                                Some(e) => Ok((e + name.len(), declared(name, s.subrange(b, e)))),
                            }
                        },
                    }
                },
            }
        },
    }
}

/// A type declaration at the start of a line: a line feed, then the
/// declaration from its name on.
pub open spec fn function_decl(s: Seq<char>, i: int) -> Result<(int, ElmCodeView), ParseError> {
    match tag(s, seq!['\n'], i) {
        Err(e) => Err(e),
        Ok(a) => signature_decl(s, a),
    }
}

/// A declaration from its name on ends inside the text, behind its colon.
pub proof fn lemma_signature_decl_advances(s: Seq<char>, a: int)
    requires
        0 <= a <= s.len(),
    ensures
        signature_decl(s, a) matches Ok((q, _)) ==> a + 1 < q <= s.len(),
{
    lemma_run_end(s, CharClass::Alphanumeric, a);
    if let Ok(k) = take_run(s, CharClass::Alphanumeric, a) {
        lemma_run_end(s, CharClass::SpaceOrNewlineOrComma, k);
        if let Ok(c) = take_run(s, CharClass::SpaceOrNewlineOrComma, k) {
            lemma_run_end(s, CharClass::SpaceOrNewlineOrComma, c + 1);
            if let Ok(b) = take_run(s, CharClass::SpaceOrNewlineOrComma, c + 1) {
                lemma_find(s, s.subrange(a, k), b);
            }
        }
    }
}

/// The declaration that is tried at `i`: one from its name on where a line or
/// a comment has just ended (`fresh`), none elsewhere.
pub open spec fn declaration_at(s: Seq<char>, i: int, fresh: bool) -> Result<
    (int, ElmCodeView),
    ParseError,
> {
    if fresh {
        signature_decl(s, i)
    } else {
        Err(ParseError::Mismatch)
    }
}

/// The items of a module body from `i` on; `fresh` says that a line feed or a
/// comment ends at `i`. At each position a comment is tried first. Behind a
/// line feed or a comment a type declaration is tried, so that a declaration
/// is an item whatever comment stands before it. Where neither applies one
/// character is passed over and leaves no item.
pub open spec fn declarations(s: Seq<char>, i: int, fresh: bool) -> Seq<ElmCodeView>
    decreases s.len() - i,
{
    if i < 0 || i >= s.len() {
        Seq::empty()
    } else {
        match comment(s, i) {
            Ok((q, _)) => {
                proof {
                    lemma_comment_advances(s, i);
                }
                seq![ElmCodeView::Comment] + declarations(s, q, true)
            },
            Err(_) => match declaration_at(s, i, fresh) {
                Ok((q, item)) => {
                    proof {
                        lemma_signature_decl_advances(s, i);
                    }
                    seq![item] + declarations(s, q, false)
                },
                Err(_) => declarations(s, i + 1, s[i] == '\n'),
            },
        }
    }
}

/// A declaration directly behind a comment is an item: the comment does not
/// hide it.
pub proof fn lemma_declaration_behind_comment(s: Seq<char>, i: int, fresh: bool)
    requires
        0 <= i < s.len(),
        comment(s, i) is Ok,
        comment(s, comment(s, i)->Ok_0.0) is Err,
        signature_decl(s, comment(s, i)->Ok_0.0) is Ok,
    ensures
        ({
            let q = comment(s, i)->Ok_0.0;
            let (r, item) = signature_decl(s, q)->Ok_0;
            declarations(s, i, fresh) == seq![ElmCodeView::Comment, item] + declarations(
                s,
                r,
                false,
            )
        }),
{
    let q = comment(s, i)->Ok_0.0;
    let (r, item) = signature_decl(s, q)->Ok_0;
    lemma_comment_advances(s, i);
    lemma_signature_decl_advances(s, q);
    assert(declarations(s, q, true) == seq![item] + declarations(s, r, false));
    assert(seq![ElmCodeView::Comment] + (seq![item] + declarations(s, r, false)) =~= seq![
        ElmCodeView::Comment,
        item,
    ] + declarations(s, r, false));
}

/// A declaration at the start of a line is an item.
pub proof fn lemma_declaration_behind_line_feed(s: Seq<char>, i: int, fresh: bool)
    requires
        0 <= i < s.len(),
        s[i] == '\n',
        comment(s, i + 1) is Err,
        signature_decl(s, i + 1) is Ok,
    ensures
        ({
            let (r, item) = signature_decl(s, i + 1)->Ok_0;
            declarations(s, i, fresh) == seq![item] + declarations(s, r, false)
        }),
{
    let (r, item) = signature_decl(s, i + 1)->Ok_0;
    lemma_signature_decl_advances(s, i + 1);
    lemma_run_end(s, CharClass::Alphanumeric, i);
    assert(comment(s, i) is Err) by {
        assert(s.subrange(i, i + 2)[0] == '\n') by {
            if i + 2 <= s.len() {
            }
        }
        assert(!occurs_at(s, seq!['{', '-'], i)) by {
            if occurs_at(s, seq!['{', '-'], i) {
                assert(s.subrange(i, i + 2)[0] == '{');
            }
        }
        assert(!occurs_at(s, seq!['-', '-'], i)) by {
            if occurs_at(s, seq!['-', '-'], i) {
                assert(s.subrange(i, i + 2)[0] == '-');
            }
        }
        assert(s.subrange(i, s.len() as int)[0] == '\n');
    }
    assert(signature_decl(s, i) is Err) by {
        assert(!CharClass::Alphanumeric.has(s[i]));
    }
    assert(declaration_at(s, i, fresh) is Err);
    assert(declarations(s, i, fresh) == declarations(s, i + 1, true));
}

/// A declaration as it is commonly written: the name, ` : `, the text of the
/// signature, a line feed, and the name again.
pub open spec fn declaration_text(name: Seq<char>, text: Seq<char>) -> Seq<char> {
    name + seq![' ', ':', ' '] + text + seq!['\n'] + name
}

/// A declaration written as `name : text`, a line feed and `name`, is read
/// as what it declares, wherever it stands: the name is made of name
/// characters and is not empty, the text begins with a character that is no
/// white space and no comma, and the name stands nowhere in the text.
pub proof fn lemma_reads_declaration(s: Seq<char>, a: int, name: Seq<char>, text: Seq<char>)
    requires
        0 <= a,
        a + declaration_text(name, text).len() <= s.len(),
        s.subrange(a, a + declaration_text(name, text).len()) == declaration_text(name, text),
        name.len() > 0,
        forall|i: int| 0 <= i < name.len() ==> CharClass::Alphanumeric.has(#[trigger] name[i]),
        text.len() > 0,
        !CharClass::SpaceOrNewlineOrComma.has(text[0]),
        forall|k: int| 0 <= k <= text.len() ==> !occurs_at(text + seq!['\n'] + name, name, k),
    ensures
        signature_decl(s, a) == Ok::<(int, ElmCodeView), ParseError>(
            (a + declaration_text(name, text).len(), declared(name, text + seq!['\n'])),
        ),
{
    let whole = declaration_text(name, text);
    let n = name.len() as int;
    let t = text.len() as int;
    let k = a + n;
    let b = k + 3;
    let e = b + t + 1;
    let tail = text + seq!['\n'] + name;
    assert(whole.len() == n + 3 + t + 1 + n);
    assert forall|i: int| 0 <= i < whole.len() implies s[a + i] == #[trigger] whole[i] by {
        assert(s.subrange(a, a + whole.len())[i] == s[a + i]);
    }
    assert forall|i: int| a <= i < k implies CharClass::Alphanumeric.has(#[trigger] s[i]) by {
        assert(s[a + (i - a)] == whole[i - a]);
        assert(whole[i - a] == name[i - a]);
    }
    assert(s[k] == ' ') by {
        assert(s[a + n] == whole[n]);
    }
    assert(s[k + 1] == ':') by {
        assert(s[a + (n + 1)] == whole[n + 1]);
    }
    assert(s[k + 2] == ' ') by {
        assert(s[a + (n + 2)] == whole[n + 2]);
    }
    assert(s[b] == text[0]) by {
        assert(s[a + (n + 3)] == whole[n + 3]);
    }
    lemma_run_end_at(s, CharClass::Alphanumeric, a, k);
    lemma_run_end_at(s, CharClass::SpaceOrNewlineOrComma, k, k + 1);
    lemma_run_end_at(s, CharClass::SpaceOrNewlineOrComma, k + 2, b);
    assert(s.subrange(a, k) =~= name);
    assert(s.subrange(b, a + whole.len()) =~= tail) by {
        assert forall|i: int| 0 <= i < tail.len() implies s.subrange(b, a + whole.len())[i]
            == tail[i] by {
            assert(s[a + (n + 3 + i)] == whole[n + 3 + i]);
        }
    }
    assert(occurs_at(s, name, e)) by {
        assert(s.subrange(e, e + n) =~= tail.subrange(t + 1, t + 1 + n));
        assert(tail.subrange(t + 1, t + 1 + n) =~= name);
    }
    assert forall|j: int| b <= j < e implies !occurs_at(s, name, j) by {
        if occurs_at(s, name, j) {
            assert(s.subrange(j, j + n) =~= tail.subrange(j - b, j - b + n));
            assert(occurs_at(tail, name, j - b));
        }
    }
    lemma_find_first(s, name, b, e);
    assert(s.subrange(b, e) =~= text + seq!['\n']);
}

/// A whole module: its header, which must be there, and the items of the body
/// behind it. A declaration may stand directly behind the header.
pub open spec fn module(s: Seq<char>) -> Result<(ElmModuleView, Seq<ElmCodeView>), ParseError> {
    match module_header(s, 0) {
        Ok((p, exports)) => Ok((exports, declarations(s, p, true))),
        Err(_) => Err(ParseError::Mismatch),
    }
}

/// Where `t` stands nowhere in `s` at or behind `i`, `find` gives nothing.
pub proof fn lemma_find_nothing(s: Seq<char>, t: Seq<char>, i: int)
    requires
        0 <= i,
        forall|k: int| i <= k ==> !occurs_at(s, t, k),
    ensures
        find(s, t, i) is None,
{
    lemma_find(s, t, i);
}

/// Where `t` stands in `s` at `j` and nowhere between `i` and `j`, `find`
/// gives `j`.
pub proof fn lemma_find_first(s: Seq<char>, t: Seq<char>, i: int, j: int)
    requires
        0 <= i <= j,
        occurs_at(s, t, j),
        forall|k: int| i <= k < j ==> !occurs_at(s, t, k),
    ensures
        find(s, t, i) == Some(j),
{
    lemma_find(s, t, i);
}

/// A blank in front of `text` where `lead` holds.
pub open spec fn padded_front(lead: bool, text: Seq<char>) -> Seq<char> {
    if lead {
        seq![' '] + text
    } else {
        text
    }
}

/// A blank behind `text` where `trail` holds.
pub open spec fn padded_back(text: Seq<char>, trail: bool) -> Seq<char> {
    if trail {
        text + seq![' ']
    } else {
        text
    }
}

/// The terms with ` -> ` between each two.
pub open spec fn joined(terms: Seq<Seq<char>>) -> Seq<char>
    decreases terms.len(),
{
    if terms.len() == 0 {
        Seq::empty()
    } else if terms.len() == 1 {
        terms[0]
    } else {
        terms[0] + seq![' ', '-', '>', ' '] + joined(terms.drop_first())
    }
}

/// One more term is joined on behind an arrow.
pub proof fn lemma_joined_push(terms: Seq<Seq<char>>, term: Seq<char>)
    requires
        terms.len() > 0,
    ensures
        joined(terms.push(term)) == joined(terms) + seq![' ', '-', '>', ' '] + term,
    decreases terms.len(),
{
    let sep = seq![' ', '-', '>', ' '];
    let more = terms.push(term);
    assert(more.drop_first() =~= terms.drop_first().push(term));
    assert(more[0] == terms[0]);
    if terms.len() == 1 {
        assert(more.drop_first() =~= seq![term]);
        assert(joined(more.drop_first()) == term);
    } else {
        lemma_joined_push(terms.drop_first(), term);
        assert(terms[0] + sep + (joined(terms.drop_first()) + sep + term) =~= (terms[0] + sep
            + joined(terms.drop_first())) + sep + term);
    }
}

/// A term as splitting leaves it and as it can be told from its neighbours: no
/// line feed, no tab and no arrow in it, and no white space at either end.
pub open spec fn is_normal(t: Seq<char>) -> bool {
    &&& forall|i: int| 0 <= i < t.len() ==> no_break(#[trigger] t[i])
    &&& forall|i: int| 0 <= i < t.len() - 1 ==> !(#[trigger] t[i] == '-' && t[i + 1] == '>')
    &&& t.len() > 0 ==> !white_space(t[0]) && !white_space(t.last())
}

/// A text without line feeds and tabs loses nothing with them.
pub proof fn lemma_without_breaks_keeps(t: Seq<char>)
    requires
        forall|i: int| 0 <= i < t.len() ==> no_break(#[trigger] t[i]),
    ensures
        without_breaks(t) == t,
    decreases t.len(),
{
    reveal(Seq::filter);
    if t.len() > 0 {
        lemma_without_breaks_keeps(t.drop_last());
        assert(no_break(t[t.len() - 1]));
        assert(t.drop_last().push(t.last()) =~= t);
    }
}

/// A run ends at `end` where every character from `i` up to `end` belongs to
/// the class and the one at `end`, if there is one, does not.
pub proof fn lemma_run_end_at(s: Seq<char>, k: CharClass, i: int, end: int)
    requires
        0 <= i <= end <= s.len(),
        forall|j: int| i <= j < end ==> k.has(#[trigger] s[j]),
        end < s.len() ==> !k.has(s[end]),
    ensures
        run_end(s, k, i) == end,
    decreases end - i,
{
    if i < end {
        assert(k.has(s[i]));
        lemma_run_end_at(s, k, i + 1, end);
    }
}

/// What is left of `t` ends at `end` where only white space stands from `end`
/// on and the character before `end` is none, or `end` is the start.
pub proof fn lemma_trim_end_at(t: Seq<char>, from: int, end: int)
    requires
        0 <= from <= end <= t.len(),
        forall|j: int| end <= j < t.len() ==> white_space(#[trigger] t[j]),
        end > from ==> !white_space(t[end - 1]),
    ensures
        trim_end(t, from) == end,
    decreases t.len() - end,
{
    if end < t.len() {
        assert(white_space(t[t.len() - 1]));
        lemma_trim_end_at(t.drop_last(), from, end);
    }
}

/// A text that holds the normal term `t` from `off` on and blanks around it
/// is normalised to `t`.
proof fn lemma_normal_term_between_blanks(p: Seq<char>, t: Seq<char>, off: int)
    requires
        is_normal(t),
        0 <= off,
        off + t.len() <= p.len(),
        forall|i: int| off <= i < off + t.len() ==> #[trigger] p[i] == t[i - off],
        forall|i: int| 0 <= i < off ==> #[trigger] p[i] == ' ',
        forall|i: int| off + t.len() <= i < p.len() ==> #[trigger] p[i] == ' ',
    ensures
        normal_term(p) == t,
{
    assert forall|i: int| 0 <= i < p.len() implies no_break(#[trigger] p[i]) by {
        if off <= i < off + t.len() {
            assert(no_break(t[i - off]));
        }
    }
    lemma_without_breaks_keeps(p);
    if t.len() == 0 {
        lemma_run_end_at(p, CharClass::Whitespace, 0, p.len() as int);
        assert(trimmed(p) =~= t);
    } else {
        assert(p[off] == t[0]);
        assert(p[off + t.len() - 1] == t.last());
        lemma_run_end_at(p, CharClass::Whitespace, 0, off);
        lemma_trim_end_at(p, off, off + t.len());
        assert(trimmed(p) =~= t);
    }
}

/// A normal term with a blank in front of it, behind it, or both, is
/// normalised to itself.
pub proof fn lemma_normal_term_padded(t: Seq<char>, lead: bool, trail: bool)
    requires
        is_normal(t),
    ensures
        normal_term(padded_back(padded_front(lead, t), trail)) == t,
{
    let p = padded_back(padded_front(lead, t), trail);
    let off: int = if lead {
        1
    } else {
        0
    };
    lemma_normal_term_between_blanks(p, t, off);
}

/// Splitting `text` from `i` on gives `terms` back, where what stands there is
/// `terms` joined, with or without a blank in front.
#[verifier::rlimit(60)]
proof fn lemma_split_joined_from(text: Seq<char>, i: int, lead: bool, terms: Seq<Seq<char>>)
    requires
        0 <= i <= text.len(),
        terms.len() > 0,
        forall|k: int| 0 <= k < terms.len() ==> is_normal(#[trigger] terms[k]),
        text.subrange(i, text.len() as int) == padded_front(lead, joined(terms)),
    ensures
        signature_terms_from(text, i) == terms,
    decreases terms.len(),
{
    let arrow = seq!['-', '>'];
    let t = terms[0];
    let rest = text.subrange(i, text.len() as int);
    let front = padded_front(lead, t);
    let off: int = if lead {
        1
    } else {
        0
    };
    assert(is_normal(t));
    assert forall|k: int| 0 <= k < text.len() - i implies text[i + k] == #[trigger] rest[k] by {}
    if terms.len() == 1 {
        assert(rest =~= front);
        assert forall|k: int| i <= k implies !occurs_at(text, arrow, k) by {
            if occurs_at(text, arrow, k) {
                assert(text.subrange(k, k + 2)[0] == '-');
                assert(text.subrange(k, k + 2)[1] == '>');
                assert(text[k] == rest[k - i]);
                assert(text[k + 1] == rest[k - i + 1]);
                if lead && k == i {
                    assert(rest[0] == ' ');
                } else {
                    assert(rest[k - i] == t[k - i - off]);
                    assert(rest[k - i + 1] == t[k - i - off + 1]);
                }
            }
        }
        lemma_find_nothing(text, arrow, i);
        lemma_normal_term_padded(t, lead, false);
        assert(signature_terms_from(text, i) =~= terms);
    } else {
        let tail = terms.drop_first();
        let sep = seq![' ', '-', '>', ' '];
        assert(joined(terms) == t + sep + joined(tail));
        let j = i + off + t.len() + 1;
        assert(rest =~= front + sep + joined(tail));
        assert(rest[off + t.len() as int] == ' ');
        assert(rest[off + t.len() + 1] == '-');
        assert(rest[off + t.len() + 2] == '>');
        assert(rest[off + t.len() + 3] == ' ');
        assert(occurs_at(text, arrow, j)) by {
            assert(text[j] == rest[j - i]);
            assert(text[j + 1] == rest[j - i + 1]);
            assert(text.subrange(j, j + 2) =~= arrow);
        }
        assert forall|k: int| i <= k < j implies !occurs_at(text, arrow, k) by {
            if occurs_at(text, arrow, k) {
                assert(text.subrange(k, k + 2)[0] == '-');
                assert(text.subrange(k, k + 2)[1] == '>');
                assert(text[k] == rest[k - i]);
                assert(text[k + 1] == rest[k - i + 1]);
                if lead && k == i {
                    assert(rest[0] == ' ');
                } else if k - i - off < t.len() - 1 {
                    assert(rest[k - i] == t[k - i - off]);
                    assert(rest[k - i + 1] == t[k - i - off + 1]);
                } else if k - i - off == t.len() - 1 {
                    assert(rest[k - i + 1] == ' ');
                } else {
                    assert(rest[k - i] == ' ');
                }
            }
        }
        lemma_find_first(text, arrow, i, j);
        assert(text.subrange(i, j) =~= padded_back(front, true));
        lemma_normal_term_padded(t, lead, true);
        assert(text.subrange(j + 2, text.len() as int) =~= padded_front(true, joined(tail))) by {
            assert(text.subrange(j + 2, text.len() as int) =~= rest.subrange(
                off + t.len() + 3,
                rest.len() as int,
            ));
        }
        assert forall|k: int| 0 <= k < tail.len() implies is_normal(#[trigger] tail[k]) by {
            assert(tail[k] == terms[k + 1]);
        }
        lemma_split_joined_from(text, j + 2, true, tail);
        assert(signature_terms_from(text, i) =~= seq![t] + tail);
        assert(seq![t] + tail =~= terms);
    }
}

/// Splitting is the inverse of joining: terms that are normal, joined with
/// ` -> ` between each two and split again, come back as they were.
pub proof fn lemma_joined_terms_split_back(terms: Seq<Seq<char>>)
    requires
        terms.len() > 0,
        forall|k: int| 0 <= k < terms.len() ==> is_normal(#[trigger] terms[k]),
    ensures
        signature_terms(joined(terms)) == terms,
{
    let text = joined(terms);
    assert(text.subrange(0, text.len() as int) =~= text);
    lemma_split_joined_from(text, 0, false, terms);
}

/// A term as splitting leaves it, but for arrows in it: no line feed and no
/// tab, and no white space at either end.
pub open spec fn is_trimmed(t: Seq<char>) -> bool {
    &&& forall|i: int| 0 <= i < t.len() ==> no_break(#[trigger] t[i])
    &&& t.len() > 0 ==> !white_space(t[0]) && !white_space(t.last())
}

/// No arrow stands in `t`.
pub open spec fn has_no_arrow(t: Seq<char>) -> bool {
    forall|i: int| 0 <= i < t.len() - 1 ==> !(#[trigger] t[i] == '-' && t[i + 1] == '>')
}

/// What is left of a text without its line feeds and tabs holds none.
pub proof fn lemma_without_breaks_has_none(t: Seq<char>)
    ensures
        forall|i: int| 0 <= i < without_breaks(t).len() ==> no_break(#[trigger] without_breaks(t)[i]),
    decreases t.len(),
{
    reveal(Seq::filter);
    if t.len() > 0 {
        lemma_without_breaks_has_none(t.drop_last());
    }
}

/// What is left of `t` ends between `from` and the end of `t`, and not with
/// white space.
pub proof fn lemma_trim_end(t: Seq<char>, from: int)
    requires
        0 <= from <= t.len(),
    ensures
        from <= trim_end(t, from) <= t.len(),
        trim_end(t, from) > from ==> !white_space(t[trim_end(t, from) - 1]),
    decreases t.len(),
{
    if t.len() > from && t.len() > 0 && white_space(t.last()) {
        lemma_trim_end(t.drop_last(), from);
    }
}

/// Every term that splitting gives is trimmed.
pub proof fn lemma_normal_term_is_trimmed(piece: Seq<char>)
    ensures
        is_trimmed(normal_term(piece)),
{
    let kept = without_breaks(piece);
    lemma_without_breaks_has_none(piece);
    lemma_run_end(kept, CharClass::Whitespace, 0);
    let start = trim_start(kept);
    lemma_trim_end(kept, start);
    let end = trim_end(kept, start);
    let term = kept.subrange(start, end);
    assert forall|i: int| 0 <= i < term.len() implies no_break(#[trigger] term[i]) by {
        assert(term[i] == kept[start + i]);
    }
    if term.len() > 0 {
        assert(term[0] == kept[start]);
        assert(term.last() == kept[end - 1]);
    }
}

/// Splitting gives at least one term, and every term it gives is trimmed.
pub proof fn lemma_terms_are_trimmed(t: Seq<char>, i: int)
    requires
        0 <= i <= t.len(),
    ensures
        signature_terms_from(t, i).len() > 0,
        forall|k: int|
            0 <= k < signature_terms_from(t, i).len() ==> is_trimmed(
                #[trigger] signature_terms_from(t, i)[k],
            ),
    decreases t.len() - i,
{
    lemma_find(t, seq!['-', '>'], i);
    match find(t, seq!['-', '>'], i) {
        None => {
            lemma_normal_term_is_trimmed(t.subrange(i, t.len() as int));
        },
        Some(j) => {
            lemma_normal_term_is_trimmed(t.subrange(i, j));
            lemma_terms_are_trimmed(t, j + 2);
            let rest = signature_terms_from(t, j + 2);
            let all = signature_terms_from(t, i);
            assert forall|k: int| 0 <= k < all.len() implies is_trimmed(#[trigger] all[k]) by {
                if k > 0 {
                    assert(all[k] == rest[k - 1]);
                }
            }
        },
    }
}

/// Splitting is idempotent: the terms of a text, joined with ` -> ` between
/// each two and split again, are the same terms. This holds of every text none
/// of whose terms holds an arrow; a term holds one where a line feed or a tab
/// stood between `-` and `>`.
pub proof fn lemma_split_is_idempotent(text: Seq<char>)
    requires
        forall|k: int|
            0 <= k < signature_terms(text).len() ==> has_no_arrow(
                #[trigger] signature_terms(text)[k],
            ),
    ensures
        signature_terms(joined(signature_terms(text))) == signature_terms(text),
{
    let terms = signature_terms(text);
    lemma_terms_are_trimmed(text, 0);
    assert forall|k: int| 0 <= k < terms.len() implies is_normal(#[trigger] terms[k]) by {
        assert(is_trimmed(terms[k]));
        assert(has_no_arrow(terms[k]));
    }
    lemma_joined_terms_split_back(terms);
}

} // verus!
