//! What the grammar reads of a module body that is written in parts:
//! comments, line feeds and type declarations in any order. Every
//! declaration of such a body is one item, whatever stands before it.

use crate::exports::{exports_of_text, lemma_resolved_concat, resolved, ElmExportView};
use crate::grammar::{
    comment, declaration_text, declarations, declared, enclosed, find, lemma_comment_advances,
    lemma_find, lemma_find_first, lemma_reads_declaration, lemma_run_end_at,
    module_header, occurs_at, signature_decl, signature_terms, tag, ParseError,
};
use crate::helpers::{lowercase, CharClass};
use crate::structs::{ElmCodeView, ElmModuleView, FunctionView, TypeView};
use vstd::prelude::*;

verus! {

/// One part of a module body.
pub enum BodyPart {
    /// A comment, with its delimiters.
    Comment(Seq<char>),
    /// A line feed.
    LineFeed,
    /// A declaration written as `name : text`, a line feed and `name`.
    Declaration { name: Seq<char>, text: Seq<char> },
}

/// The text of a part.
pub open spec fn part_text(part: BodyPart) -> Seq<char> {
    match part {
        BodyPart::Comment(text) => text,
        BodyPart::LineFeed => seq!['\n'],
        BodyPart::Declaration { name, text } => declaration_text(name, text),
    }
}

/// The text of a body: the texts of its parts, one behind the other.
pub open spec fn body_text(parts: Seq<BodyPart>) -> Seq<char>
    decreases parts.len(),
{
    if parts.len() == 0 {
        Seq::empty()
    } else {
        part_text(parts[0]) + body_text(parts.drop_first())
    }
}

/// The items of a part: one for a comment, one for a declaration, none for a
/// line feed.
pub open spec fn part_items(part: BodyPart) -> Seq<ElmCodeView> {
    match part {
        BodyPart::Comment(_) => seq![ElmCodeView::Comment],
        BodyPart::LineFeed => Seq::empty(),
        BodyPart::Declaration { name, text } => seq![declared(name, text + seq!['\n'])],
    }
}

/// The items of a body: those of its parts, in their order.
pub open spec fn body_items(parts: Seq<BodyPart>) -> Seq<ElmCodeView>
    decreases parts.len(),
{
    if parts.len() == 0 {
        Seq::empty()
    } else {
        part_items(parts[0]) + body_items(parts.drop_first())
    }
}

/// `text` is one whole comment and nothing more.
pub open spec fn is_comment_text(text: Seq<char>) -> bool {
    comment(text, 0) matches Ok((q, _)) && q == text.len()
}

/// A declaration that can be read: its name is made of name characters and is
/// not empty, its text begins with a character that is no white space and no
/// comma, and the name stands nowhere in the text.
pub open spec fn is_readable(name: Seq<char>, text: Seq<char>) -> bool {
    &&& name.len() > 0
    &&& forall|i: int| 0 <= i < name.len() ==> CharClass::Alphanumeric.has(#[trigger] name[i])
    &&& text.len() > 0
    &&& !CharClass::SpaceOrNewlineOrComma.has(text[0])
    &&& forall|k: int| 0 <= k <= text.len() ==> !occurs_at(text + seq!['\n'] + name, name, k)
}

/// The parts fit together: every comment is one whole comment, every
/// declaration can be read and stands behind a line feed or a comment
/// (`fresh` says whether the first part does).
pub open spec fn parts_fit(parts: Seq<BodyPart>, fresh: bool) -> bool
    decreases parts.len(),
{
    if parts.len() == 0 {
        true
    } else {
        match parts[0] {
            BodyPart::Comment(text) => is_comment_text(text) && parts_fit(
                parts.drop_first(),
                true,
            ),
            BodyPart::LineFeed => parts_fit(parts.drop_first(), true),
            BodyPart::Declaration { name, text } => fresh && is_readable(name, text) && parts_fit(
                parts.drop_first(),
                false,
            ),
        }
    }
}

/// What `find` gives inside a piece of a text, it gives in the text.
pub proof fn lemma_find_in_piece(s: Seq<char>, i: int, piece: Seq<char>, t: Seq<char>, a: int)
    requires
        0 <= i,
        i + piece.len() <= s.len(),
        s.subrange(i, i + piece.len()) == piece,
        0 <= a,
        find(piece, t, a) is Some,
    ensures
        find(s, t, i + a) == Some(i + find(piece, t, a)->0),
{
    let j = find(piece, t, a)->0;
    lemma_find(piece, t, a);
    assert(occurs_at(s, t, i + j)) by {
        assert(s.subrange(i + j, i + j + t.len()) =~= piece.subrange(j, j + t.len()));
    }
    assert forall|k: int| i + a <= k < i + j implies !occurs_at(s, t, k) by {
        if occurs_at(s, t, k) {
            assert(s.subrange(k, k + t.len()) =~= piece.subrange(k - i, k - i + t.len()));
            assert(occurs_at(piece, t, k - i));
        }
    }
    lemma_find_first(s, t, i + a, i + j);
}

/// Enclosed text that is read in a piece of a text is read in the text.
pub proof fn lemma_enclosed_in_piece(
    s: Seq<char>,
    i: int,
    piece: Seq<char>,
    open: Seq<char>,
    close: Seq<char>,
)
    requires
        0 <= i,
        i + piece.len() <= s.len(),
        s.subrange(i, i + piece.len()) == piece,
        enclosed(piece, open, close, 0) is Ok,
    ensures
        enclosed(s, open, close, i) matches Ok((q, _)) && q == i + enclosed(
            piece,
            open,
            close,
            0,
        )->Ok_0.0,
{
    assert(occurs_at(piece, open, 0));
    assert(occurs_at(s, open, i)) by {
        assert(s.subrange(i, i + open.len()) =~= piece.subrange(0, open.len() as int));
    }
    lemma_find_in_piece(s, i, piece, close, open.len() as int);
}

/// A whole comment is read as a comment wherever it stands.
pub proof fn lemma_reads_comment(s: Seq<char>, i: int, text: Seq<char>)
    requires
        0 <= i,
        i + text.len() <= s.len(),
        s.subrange(i, i + text.len()) == text,
        is_comment_text(text),
    ensures
        comment(s, i) matches Ok((q, _)) && q == i + text.len(),
{
    let block_open = seq!['{', '-'];
    let block_close = seq!['-', '}'];
    let line_open = seq!['-', '-'];
    let line_close = seq!['\n'];
    lemma_comment_advances(text, 0);
    if enclosed(text, block_open, block_close, 0) is Ok {
        lemma_enclosed_in_piece(s, i, text, block_open, block_close);
    } else {
        assert(!occurs_at(text, block_open, 0));
        assert(!occurs_at(s, block_open, i)) by {
            if occurs_at(s, block_open, i) {
                assert(s.subrange(i, i + 2) =~= text.subrange(0, 2));
            }
        }
        assert(tag(s, block_open, i) == Err::<int, ParseError>(ParseError::Mismatch));
        lemma_enclosed_in_piece(s, i, text, line_open, line_close);
    }
}

/// No comment begins with a name character, nor with a line feed.
pub proof fn lemma_no_comment_at(s: Seq<char>, i: int)
    requires
        0 <= i < s.len(),
        CharClass::Alphanumeric.has(s[i]) || s[i] == '\n',
    ensures
        comment(s, i) is Err,
{
    assert(!occurs_at(s, seq!['{', '-'], i)) by {
        if occurs_at(s, seq!['{', '-'], i) {
            assert(s.subrange(i, i + 2)[0] == '{');
        }
    }
    assert(!occurs_at(s, seq!['-', '-'], i)) by {
        if occurs_at(s, seq!['-', '-'], i) {
            assert(s.subrange(i, i + 2)[0] == '-');
        }
    }
}

/// The text of a part is not empty.
pub proof fn lemma_part_text_not_empty(part: BodyPart)
    requires
        part matches BodyPart::Comment(text) ==> is_comment_text(text),
    ensures
        part_text(part).len() > 0,
{
    if let BodyPart::Comment(text) = part {
        lemma_comment_advances(text, 0);
    }
}

/// A body written in parts that fit together is read part by part: its items
/// are those of its parts, and every declaration among them is one item,
/// whatever comment or line feed stands before it.
pub proof fn lemma_reads_body(s: Seq<char>, i: int, fresh: bool, parts: Seq<BodyPart>)
    requires
        0 <= i <= s.len(),
        s.subrange(i, s.len() as int) == body_text(parts),
        parts_fit(parts, fresh),
    ensures
        declarations(s, i, fresh) == body_items(parts),
    decreases parts.len(),
{
    if parts.len() == 0 {
        assert(s.subrange(i, s.len() as int).len() == 0);
    } else {
        let part = parts[0];
        let rest = parts.drop_first();
        let text = part_text(part);
        let n = text.len() as int;
        let tail = s.subrange(i, s.len() as int);
        lemma_part_text_not_empty(part);
        assert(tail.len() == n + body_text(rest).len());
        assert(s.subrange(i, i + n) =~= text) by {
            assert forall|k: int| 0 <= k < n implies s.subrange(i, i + n)[k] == text[k] by {
                assert(tail[k] == s[i + k]);
            }
        }
        assert(s.subrange(i + n, s.len() as int) =~= body_text(rest)) by {
            assert forall|k: int| 0 <= k < body_text(rest).len() implies s.subrange(
                i + n,
                s.len() as int,
            )[k] == body_text(rest)[k] by {
                assert(tail[n + k] == s[i + n + k]);
            }
        }
        assert(s[i] == text[0]) by {
            assert(s.subrange(i, i + n)[0] == s[i]);
        }
        match part {
            BodyPart::Comment(c) => {
                lemma_reads_comment(s, i, c);
                lemma_reads_body(s, i + n, true, rest);
            },
            BodyPart::LineFeed => {
                lemma_no_comment_at(s, i);
                lemma_run_end_at(s, CharClass::Alphanumeric, i, i);
                assert(signature_decl(s, i) is Err);
                lemma_reads_body(s, i + 1, true, rest);
                assert(Seq::<ElmCodeView>::empty() + body_items(rest) =~= body_items(rest));
            },
            BodyPart::Declaration { name, text: signature } => {
                assert(text[0] == name[0]);
                lemma_no_comment_at(s, i);
                lemma_reads_declaration(s, i, name, signature);
                lemma_reads_body(s, i + n, false, rest);
            },
        }
    }
}

/// The export that a declaration makes where everything is exported.
pub open spec fn declared_export(name: Seq<char>, text: Seq<char>) -> ElmExportView {
    if lowercase(name[0]) {
        ElmExportView::Function(
            FunctionView { name, type_signature: Some(signature_terms(text + seq!['\n'])) },
        )
    } else {
        ElmExportView::Type(TypeView { name, definition: Some(text + seq!['\n']) })
    }
}

/// The exports of a body in parts where everything is exported: one for each
/// declaration, in their order.
pub open spec fn body_exports(parts: Seq<BodyPart>) -> Seq<ElmExportView>
    decreases parts.len(),
{
    if parts.len() == 0 {
        Seq::empty()
    } else {
        match parts[0] {
            BodyPart::Declaration { name, text } => seq![declared_export(name, text)]
                + body_exports(parts.drop_first()),
            _ => body_exports(parts.drop_first()),
        }
    }
}

/// How many declarations a body in parts holds.
pub open spec fn declarations_among(parts: Seq<BodyPart>) -> nat
    decreases parts.len(),
{
    if parts.len() == 0 {
        0
    } else if parts[0] is Declaration {
        declarations_among(parts.drop_first()) + 1
    } else {
        declarations_among(parts.drop_first())
    }
}

/// Where everything is exported, the items of a body in parts give one export
/// for each declaration, in their order, and nothing else.
pub proof fn lemma_body_exports(parts: Seq<BodyPart>)
    requires
        parts_fit(parts, true) || parts_fit(parts, false),
    ensures
        resolved(ElmModuleView::All, body_items(parts)) == body_exports(parts),
        body_exports(parts).len() == declarations_among(parts),
    decreases parts.len(),
{
    if parts.len() > 0 {
        let rest = parts.drop_first();
        let first = part_items(parts[0]);
        lemma_body_exports(rest);
        lemma_resolved_concat(ElmModuleView::All, first, body_items(rest));
        let none = Seq::<ElmExportView>::empty();
        let no_item = Seq::<ElmCodeView>::empty();
        assert(resolved(ElmModuleView::All, no_item) == none);
        match parts[0] {
            BodyPart::Declaration { name, text } => {
                assert(first.drop_last() =~= no_item);
                assert(first.last() == declared(name, text + seq!['\n']));
                assert(resolved(ElmModuleView::All, first) =~= seq![declared_export(name, text)]);
            },
            BodyPart::Comment(_) => {
                assert(first.drop_last() =~= no_item);
                assert(resolved(ElmModuleView::All, first) =~= none);
                assert(none + body_exports(rest) =~= body_exports(rest));
            },
            BodyPart::LineFeed => {
                assert(none + body_exports(rest) =~= body_exports(rest));
            },
        }
    }
}

/// A header ends inside the text.
pub proof fn lemma_header_bounds(s: Seq<char>)
    ensures
        module_header(s, 0) matches Ok((p, _)) ==> 0 < p <= s.len(),
{
}

/// A module whose body is written in parts that fit together exports what its
/// header exports of the items of the parts.
pub proof fn lemma_module_reads_parts(s: Seq<char>, parts: Seq<BodyPart>)
    requires
        module_header(s, 0) matches Ok((p, _)) && s.subrange(p, s.len() as int) == body_text(
            parts,
        ),
        parts_fit(parts, true),
    ensures
        module_header(s, 0) matches Ok((_, header)) && exports_of_text(s) == Ok::<
            Seq<ElmExportView>,
            ParseError,
        >(resolved(header, body_items(parts))),
{
    let p = module_header(s, 0)->Ok_0.0;
    lemma_header_bounds(s);
    lemma_reads_body(s, p, true, parts);
}

/// A module that exports everything and whose body is written in parts that
/// fit together has exactly one export for each of its declarations, with the
/// declaration's name and what it declares, in the order of the body,
/// whatever comments stand between them.
pub proof fn lemma_module_exports_every_declaration(s: Seq<char>, parts: Seq<BodyPart>)
    requires
        module_header(s, 0) matches Ok((p, header)) && header == ElmModuleView::All && s.subrange(
            p,
            s.len() as int,
        ) == body_text(parts),
        parts_fit(parts, true),
    ensures
        exports_of_text(s) == Ok::<Seq<ElmExportView>, ParseError>(body_exports(parts)),
        body_exports(parts).len() == declarations_among(parts),
{
    let p = module_header(s, 0)->Ok_0.0;
    lemma_header_bounds(s);
    lemma_reads_body(s, p, true, parts);
    lemma_body_exports(parts);
}

} // verus!
