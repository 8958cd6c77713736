//! The rules of the grammar as they are run: each works on the characters of
//! the whole text and starts at a position in it.

use crate::grammar::{
    classify, comment, declarations, declared, enclosed, export_clause, export_item, export_list,
    export_list_tail, export_name, exposed, find, function_decl, lemma_export_item_advances,
    lemma_find, lemma_signature_decl_advances, module, module_header, normal_term, occurs_at,
    run_end, signature_decl, signature_terms, signature_terms_from, tag, take_run, trim_end,
    trivia, without_breaks, ParseError,
};
use crate::helpers::CharClass;
use crate::structs::{
    body_view, export_list_view, signature_view, ElmCode, ElmCodeView, ElmModule, Function,
    Type, TypeOrFunction,
};
use vstd::prelude::*;
use vstd::string::*;

verus! {

/// A position that a rule gave, as the grammar counts it.
pub open spec fn position(r: Result<usize, ParseError>) -> Result<int, ParseError> {
    match r {
        Ok(j) => Ok(j as int),
        Err(e) => Err(e),
    }
}

/// The characters of a text.
pub(crate) fn characters(s: &str) -> (chars: Vec<char>)
    ensures
        chars@ == s@,
{
    broadcast use vstd::string::group_string_axioms;

    let mut chars: Vec<char> = Vec::new();
    for c in it: s.chars()
        invariant
            it.seq() == s@,
            chars@ == it.seq().take(it.index()),
    {
        chars.push(c);
    }
    assert(chars@ == s@);
    chars
}

/// The end of the run of class `k` that starts at `i`.
pub(crate) fn scan(chars: &Vec<char>, k: CharClass, i: usize) -> (j: usize)
    requires
        i <= chars.len(),
    ensures
        j == run_end(chars@, k, i as int),
        i <= j <= chars.len(),
{
    let mut j: usize = i;
    while j < chars.len() && k.contains(chars[j])
        invariant
            i <= j <= chars.len(),
            run_end(chars@, k, j as int) == run_end(chars@, k, i as int),
        decreases chars.len() - j,
    {
        j += 1;
    }
    j
}

/// A run of class `k` from `i`, which a character outside the class must end.
pub(crate) fn take(chars: &Vec<char>, k: CharClass, i: usize) -> (r: Result<usize, ParseError>)
    requires
        i <= chars.len(),
    ensures
        position(r) == take_run(chars@, k, i as int),
        r matches Ok(j) ==> i <= j < chars.len(),
{
    let j = scan(chars, k, i);
    if j >= chars.len() {
        Err(ParseError::Incomplete)
    } else {
        Ok(j)
    }
}

/// Whether `needle[lo..hi]` stands in `hay` at `i`.
pub(crate) fn stands_at(hay: &Vec<char>, needle: &Vec<char>, lo: usize, hi: usize, i: usize) -> (b: bool)
    requires
        lo <= hi <= needle.len(),
        i + (hi - lo) <= hay.len(),
    ensures
        b == occurs_at(hay@, needle@.subrange(lo as int, hi as int), i as int),
{
    let m = hi - lo;
    let mut k: usize = 0;
    while k < m
        invariant
            lo <= hi <= needle.len(),
            m == hi - lo,
            i + m <= hay.len(),
            k <= m,
            hay@.subrange(i as int, i + k) == needle@.subrange(lo as int, lo + k),
        decreases m - k,
    {
        if hay[i + k] != needle[lo + k] {
            proof {
                let t = needle@.subrange(lo as int, hi as int);
                assert(hay@.subrange(i as int, i + t.len())[k as int] != t[k as int]);
            }
            return false;
        }
        proof {
            let a = hay@.subrange(i as int, i + k);
            let b = needle@.subrange(lo as int, lo + k);
            assert(hay@.subrange(i as int, i + k + 1) =~= a.push(hay@[i + k]));
            assert(needle@.subrange(lo as int, lo + k + 1) =~= b.push(needle@[lo + k]));
        }
        k += 1;
    }
    proof {
        let t = needle@.subrange(lo as int, hi as int);
        assert(hay@.subrange(i as int, i + t.len()) =~= t);
    }
    true
}

/// The first position at or behind `from` at which `needle[lo..hi]` stands in
/// `hay`.
pub(crate) fn find_in(hay: &Vec<char>, needle: &Vec<char>, lo: usize, hi: usize, from: usize) -> (r: Option<
    usize,
>)
    requires
        lo <= hi <= needle.len(),
        from <= hay.len(),
    ensures
        match find(hay@, needle@.subrange(lo as int, hi as int), from as int) {
            Some(j) => r matches Some(j2) && j2 == j && from <= j && j + (hi - lo) <= hay.len(),
            None => r is None,
        },
{
    let m = hi - lo;
    let n = hay.len();
    if m > n {
        return None;
    }
    let mut i: usize = from;
    while i <= n - m
        invariant
            lo <= hi <= needle.len(),
            m == hi - lo,
            n == hay.len(),
            m <= n,
            from <= i <= n,
            find(hay@, needle@.subrange(lo as int, hi as int), i as int) == find(
                hay@,
                needle@.subrange(lo as int, hi as int),
                from as int,
            ),
        decreases n - i,
    {
        if stands_at(hay, needle, lo, hi, i) {
            return Some(i);
        }
        i += 1;
    }
    None
}

/// The character `c` at `i`.
pub(crate) fn tag1(chars: &Vec<char>, c: char, i: usize) -> (r: Result<usize, ParseError>)
    requires
        i <= chars.len(),
    ensures
        position(r) == tag(chars@, seq![c], i as int),
        r matches Ok(j) ==> j == i + 1 && j <= chars.len(),
{
    let ghost t = seq![c];
    if i >= chars.len() {
        proof {
            assert(chars@.subrange(i as int, chars@.len() as int) =~= t.subrange(0, 0));
        }
        Err(ParseError::Incomplete)
    } else if chars[i] == c {
        proof {
            assert(chars@.subrange(i as int, i + 1) =~= t);
        }
        Ok(i + 1)
    } else {
        proof {
            assert(chars@.subrange(i as int, i + 1)[0] != t[0]);
        }
        Err(ParseError::Mismatch)
    }
}

/// The two characters `c0`, `c1` at `i`.
pub(crate) fn tag2(chars: &Vec<char>, c0: char, c1: char, i: usize) -> (r: Result<usize, ParseError>)
    requires
        i <= chars.len(),
    ensures
        position(r) == tag(chars@, seq![c0, c1], i as int),
        r matches Ok(j) ==> j == i + 2 && j <= chars.len(),
{
    let ghost t = seq![c0, c1];
    let ghost s = chars@;
    let n = chars.len();
    if i >= n {
        proof {
            assert(s.subrange(i as int, s.len() as int) =~= t.subrange(0, 0));
        }
        Err(ParseError::Incomplete)
    } else if chars[i] != c0 {
        proof {
            if i + 2 <= n {
                assert(s.subrange(i as int, i + 2)[0] != t[0]);
            } else {
                assert(s.subrange(i as int, s.len() as int)[0] != t.subrange(0, 1)[0]);
            }
        }
        Err(ParseError::Mismatch)
    } else if n - i < 2 {
        proof {
            assert(s.subrange(i as int, s.len() as int) =~= t.subrange(0, 1));
        }
        Err(ParseError::Incomplete)
    } else if chars[i + 1] == c1 {
        proof {
            assert(s.subrange(i as int, i + 2) =~= t);
        }
        Ok(i + 2)
    } else {
        proof {
            assert(s.subrange(i as int, i + 2)[1] != t[1]);
        }
        Err(ParseError::Mismatch)
    }
}

/// Where a piece of text lies: from `start` up to `end`.
#[derive(Debug, Clone, Copy, PartialEq, Eq)]
pub struct Span {
    pub start: usize,
    pub end: usize,
}

impl Span {
    /// The piece of `s` that the span marks.
    pub open spec fn of(self, s: Seq<char>) -> Seq<char> {
        s.subrange(self.start as int, self.end as int)
    }

    /// The span lies inside a text of length `n`.
    pub open spec fn within(self, n: nat) -> bool {
        self.start <= self.end <= n
    }
}

/// What a rule gave that reads a piece of text: where it ended, and the piece.
pub open spec fn piece(chars: Seq<char>, r: Result<(usize, Span), ParseError>) -> Result<
    (int, Seq<char>),
    ParseError,
> {
    match r {
        Ok((j, span)) => Ok((j as int, span.of(chars))),
        Err(e) => Err(e),
    }
}

/// Text between the two characters `o0`, `o1` at `i` and the first `close`
/// behind them.
pub(crate) fn enclosed_at(chars: &Vec<char>, o0: char, o1: char, close: &Vec<char>, i: usize) -> (r: Result<
    (usize, Span),
    ParseError,
>)
    requires
        i <= chars.len(),
    ensures
        piece(chars@, r) == enclosed(chars@, seq![o0, o1], close@, i as int),
        r matches Ok((j, span)) ==> i < j <= chars.len() && span.within(chars@.len()),
{
    match tag2(chars, o0, o1, i) {
        Err(e) => Err(e),
        Ok(a) => {
            assert(close@.subrange(0, close@.len() as int) =~= close@);
            proof {
                lemma_find(chars@, close@, a as int);
            }
            match find_in(chars, close, 0, close.len(), a) {
                None => Err(ParseError::Incomplete),
                Some(j) => Ok((j + close.len(), Span { start: a, end: j })),
            }
        },
    }
}

/// A comment at `i`: where it ends, and the text between its delimiters.
pub(crate) fn comment_at(chars: &Vec<char>, i: usize) -> (r: Result<(usize, Span), ParseError>)
    requires
        i <= chars.len(),
    ensures
        piece(chars@, r) == comment(chars@, i as int),
        r matches Ok((j, span)) ==> i < j <= chars.len() && span.within(chars@.len()),
{
    let close_block: Vec<char> = vec!['-', '}'];
    assert(close_block@ =~= seq!['-', '}']);
    match enclosed_at(chars, '{', '-', &close_block, i) {
        Err(ParseError::Mismatch) => {
            let close_line: Vec<char> = vec!['\n'];
            assert(close_line@ =~= seq!['\n']);
            enclosed_at(chars, '-', '-', &close_line, i)
        },
        r => r,
    }
}

/// Comments and white space from `i` up to the first character that is neither.
pub(crate) fn trivia_at(chars: &Vec<char>, i: usize) -> (r: Result<usize, ParseError>)
    requires
        i <= chars.len(),
    ensures
        position(r) == trivia(chars@, i as int),
        r matches Ok(j) ==> i <= j < chars.len(),
{
    let mut p: usize = i;
    loop
        invariant
            i <= p <= chars.len(),
            trivia(chars@, p as int) == trivia(chars@, i as int),
        decreases chars.len() - p,
    {
        match comment_at(chars, p) {
            Ok((q, _)) => {
                p = q;
            },
            Err(ParseError::Incomplete) => {
                return Err(ParseError::Incomplete);
            },
            Err(ParseError::Mismatch) => {
                let j = scan(chars, CharClass::SpaceOrNewline, p);
                if j >= chars.len() {
                    return Err(ParseError::Incomplete);
                } else if j == p {
                    return Ok(p);
                }
                p = j;
            },
        }
    }
}

/// The name of an export item at `a`: where the name ends, and where the item
/// ends.
pub(crate) fn export_name_at(chars: &Vec<char>, a: usize) -> (r: Result<(usize, usize), ParseError>)
    requires
        a <= chars.len(),
    ensures
        match export_name(chars@, a as int) {
            Ok((k, m)) => r matches Ok((k2, m2)) && k2 == k && m2 == m,
            Err(e) => r matches Err(f) && f == e,
        },
        r matches Ok((k, m)) ==> a <= k <= m <= chars.len() && k < chars.len(),
{
    let k = scan(chars, CharClass::Alphanumeric, a);
    if k >= chars.len() {
        Err(ParseError::Incomplete)
    } else if chars[k] == '(' {
        let m = scan(chars, CharClass::TypesAndFunctions, k + 1);
        if m >= chars.len() {
            Err(ParseError::Incomplete)
        } else if chars[m] == ')' {
            Ok((k, m + 1))
        } else {
            Ok((k, k))
        }
    } else {
        Ok((k, k))
    }
}

/// The exported name that `name` stands for, given its first character where
/// it has one: a function where that is a lowercase letter, a type otherwise.
pub(crate) fn named<'a>(name: &'a str, first: Option<char>) -> (item: TypeOrFunction<'a>)
    requires
        match first {
            Some(c) => name@.len() > 0 && name@[0] == c,
            None => name@.len() == 0,
        },
    ensures
        item@ == classify(name@),
{
    let lowercase = match first {
        Some(c) => c.is_lowercase(),
        None => false,
    };
    if lowercase {
        TypeOrFunction::Function(Function { name, type_signature: None })
    } else {
        TypeOrFunction::Type(Type { name, definition: None })
    }
}

/// One item of an export list at `i`.
pub(crate) fn export_item_at<'a>(input: &'a str, chars: &Vec<char>, i: usize) -> (r: Result<
    (usize, TypeOrFunction<'a>),
    ParseError,
>)
    requires
        chars@ == input@,
        i <= chars.len(),
    ensures
        match export_item(chars@, i as int) {
            Ok((q, v)) => r matches Ok((j, item)) && j == q && item@ == v,
            Err(e) => r matches Err(f) && f == e,
        },
        r matches Ok((j, _)) ==> i < j < chars.len(),
{
    proof {
        lemma_export_item_advances(chars@, i as int);
    }
    let a = match trivia_at(chars, i) {
        Ok(a) => a,
        Err(e) => {
            return Err(e);
        },
    };
    let (k, m) = match export_name_at(chars, a) {
        Ok(km) => km,
        Err(e) => {
            return Err(e);
        },
    };
    let b = match trivia_at(chars, m) {
        Ok(b) => b,
        Err(e) => {
            return Err(e);
        },
    };
    if k == a {
        return Err(ParseError::Mismatch);
    }
    let name = input.substring_char(a, k);
    Ok((b, named(name, Some(chars[a]))))
}

/// Export items separated by commas, from `i`.
pub(crate) fn export_list_at<'a>(input: &'a str, chars: &Vec<char>, i: usize) -> (r: Result<
    (usize, Vec<TypeOrFunction<'a>>),
    ParseError,
>)
    requires
        chars@ == input@,
        i <= chars.len(),
    ensures
        match export_list(chars@, i as int) {
            Ok((q, v)) => r matches Ok((j, items)) && j == q && export_list_view(items@) == v,
            Err(e) => r matches Err(f) && f == e,
        },
        r matches Ok((j, _)) ==> i <= j <= chars.len(),
{
    let mut items: Vec<TypeOrFunction<'a>> = Vec::new();
    let mut p: usize = match export_item_at(input, chars, i) {
        Err(ParseError::Mismatch) => {
            assert(export_list_view(items@) =~= Seq::empty());
            return Ok((i, items));
        },
        Err(ParseError::Incomplete) => {
            return Err(ParseError::Incomplete);
        },
        Ok((p, item)) => {
            items.push(item);
            assert(export_list_view(items@) =~= seq![item@]);
            p
        },
    };
    loop
        invariant
            chars@ == input@,
            i <= p <= chars.len(),
            export_list_tail(chars@, p as int, export_list_view(items@)) == export_list(
                chars@,
                i as int,
            ),
        decreases chars.len() - p,
    {
        let behind = match tag1(chars, ',', p) {
            Err(ParseError::Mismatch) => {
                return Ok((p, items));
            },
            Err(ParseError::Incomplete) => {
                return Err(ParseError::Incomplete);
            },
            Ok(behind) => behind,
        };
        match export_item_at(input, chars, behind) {
            Err(ParseError::Mismatch) => {
                return Ok((p, items));
            },
            Err(ParseError::Incomplete) => {
                return Err(ParseError::Incomplete);
            },
            Ok((q, item)) => {
                let ghost before = export_list_view(items@);
                items.push(item);
                assert(export_list_view(items@) =~= before.push(item@));
                p = q;
            },
        }
    }
}

/// What stands between the parentheses of an export clause, from `i`.
pub(crate) fn exposed_at<'a>(input: &'a str, chars: &Vec<char>, i: usize) -> (r: Result<
    (usize, ElmModule<'a>),
    ParseError,
>)
    requires
        chars@ == input@,
        i <= chars.len(),
    ensures
        match exposed(chars@, i as int) {
            Ok((q, v)) => r matches Ok((j, exports)) && j == q && exports@ == v,
            Err(e) => r matches Err(f) && f == e,
        },
        r matches Ok((j, _)) ==> i <= j <= chars.len(),
{
    match tag2(chars, '.', '.', i) {
        Ok(p) => Ok((p, ElmModule::All)),
        Err(ParseError::Incomplete) => Err(ParseError::Incomplete),
        Err(ParseError::Mismatch) => match export_list_at(input, chars, i) {
            Ok((p, items)) => Ok((p, ElmModule::List(items))),
            Err(e) => Err(e),
        },
    }
}

/// The export clause behind the word `exposing`, which ends at `j`.
pub(crate) fn export_clause_at<'a>(input: &'a str, chars: &Vec<char>, j: usize) -> (r: Result<
    (usize, ElmModule<'a>),
    ParseError,
>)
    requires
        chars@ == input@,
        j <= chars.len(),
    ensures
        match export_clause(chars@, j as int) {
            Ok((q, v)) => r matches Ok((p, exports)) && p == q && exports@ == v,
            Err(e) => r matches Err(f) && f == e,
        },
        r matches Ok((p, _)) ==> j <= p <= chars.len(),
{
    let o = match take(chars, CharClass::SpaceOrNewlineOrComma, j) {
        Ok(o) => o,
        Err(e) => {
            return Err(e);
        },
    };
    if chars[o] != '(' {
        return Err(ParseError::Mismatch);
    }
    match exposed_at(input, chars, o + 1) {
        Err(e) => Err(e),
        Ok((p, exports)) => {
            if p >= chars.len() {
                Err(ParseError::Incomplete)
            } else if chars[p] == ')' {
                Ok((p + 1, exports))
            } else {
                Err(ParseError::Mismatch)
            }
        },
    }
}

/// A module header, looked for from `i` on.
pub(crate) fn module_header_at<'a>(input: &'a str, chars: &Vec<char>, i: usize) -> (r: Result<
    (usize, ElmModule<'a>),
    ParseError,
>)
    requires
        chars@ == input@,
        i <= chars.len(),
    ensures
        match module_header(chars@, i as int) {
            Ok((q, v)) => r matches Ok((p, exports)) && p == q && exports@ == v,
            Err(e) => r matches Err(f) && f == e,
        },
        r matches Ok((p, _)) ==> i <= p <= chars.len(),
{
    let module_word = characters("module");
    let exposing_word = characters("exposing");
    assert(module_word@.subrange(0, module_word@.len() as int) =~= module_word@);
    assert(exposing_word@.subrange(0, exposing_word@.len() as int) =~= exposing_word@);
    let m = match find_in(chars, &module_word, 0, module_word.len(), i) {
        None => {
            return Err(ParseError::Incomplete);
        },
        Some(m) => m,
    };
    let e = match find_in(chars, &exposing_word, 0, exposing_word.len(), m + module_word.len()) {
        None => {
            return Err(ParseError::Incomplete);
        },
        Some(e) => e,
    };
    export_clause_at(input, chars, e + exposing_word.len())
}

/// The text `chars[lo..hi]` as a term of a signature: without line feeds and
/// tabs, then without white space around it.
pub(crate) fn term_of(chars: &Vec<char>, lo: usize, hi: usize) -> (term: String)
    requires
        lo <= hi <= chars.len(),
    ensures
        term@ == normal_term(chars@.subrange(lo as int, hi as int)),
{
    let mut kept: Vec<char> = Vec::new();
    let mut i: usize = lo;
    proof {
        reveal(Seq::filter);
        assert(chars@.subrange(lo as int, lo as int) =~= Seq::<char>::empty());
    }
    while i < hi
        invariant
            lo <= i <= hi <= chars.len(),
            kept@ == without_breaks(chars@.subrange(lo as int, i as int)),
        decreases hi - i,
    {
        let c = chars[i];
        proof {
            reveal(Seq::filter);
            let next = chars@.subrange(lo as int, i + 1);
            assert(next.drop_last() =~= chars@.subrange(lo as int, i as int));
            assert(next.last() == c);
        }
        if c != '\n' && c != '\t' {
            kept.push(c);
        }
        i += 1;
    }
    let start = scan(&kept, CharClass::Whitespace, 0);
    let mut end: usize = kept.len();
    assert(kept@.take(end as int) =~= kept@);
    while end > start && kept[end - 1].is_whitespace()
        invariant
            start <= end <= kept.len(),
            trim_end(kept@.take(end as int), start as int) == trim_end(kept@, start as int),
        decreases end,
    {
        assert(kept@.take(end as int).drop_last() =~= kept@.take(end - 1));
        end -= 1;
    }
    assert(trim_end(kept@, start as int) == end) by {
        if end > start {
            assert(kept@.take(end as int).last() == kept@[end - 1]);
        }
    }
    let mut term = String::new();
    let mut j: usize = start;
    while j < end
        invariant
            start <= j <= end <= kept.len(),
            term@ == kept@.subrange(start as int, j as int),
        decreases end - j,
    {
        term.push(kept[j]);
        assert(kept@.subrange(start as int, j + 1) =~= kept@.subrange(
            start as int,
            j as int,
        ).push(kept@[j as int]));
        j += 1;
    }
    term
}

/// The terms of the signature text `text`.
pub(crate) fn terms_of(text: &Vec<char>) -> (terms: Vec<String>)
    ensures
        signature_view(terms@) == signature_terms(text@),
{
    let arrow: Vec<char> = vec!['-', '>'];
    assert(arrow@ =~= seq!['-', '>']);
    assert(arrow@.subrange(0, 2) =~= arrow@);
    let mut terms: Vec<String> = Vec::new();
    let mut i: usize = 0;
    assert(signature_view(terms@) =~= Seq::empty());
    loop
        invariant
            i <= text.len(),
            arrow@ == seq!['-', '>'],
            arrow@.subrange(0, 2) == arrow@,
            signature_view(terms@) + signature_terms_from(text@, i as int) == signature_terms(
                text@,
            ),
        decreases text.len() - i,
    {
        let ghost before = signature_view(terms@);
        match find_in(text, &arrow, 0, 2, i) {
            None => {
                let term = term_of(text, i, text.len());
                terms.push(term);
                assert(signature_view(terms@) =~= before.push(term@));
                assert(before.push(term@) =~= before + seq![term@]);
                return terms;
            },
            Some(j) => {
                let term = term_of(text, i, j);
                terms.push(term);
                assert(signature_view(terms@) =~= before.push(term@));
                assert(before.push(term@) + signature_terms_from(text@, j + 2) =~= before + (
                    seq![term@] + signature_terms_from(text@, j + 2)));
                i = j + 2;
            },
        }
    }
}

/// A copy of `chars[lo..hi]`.
pub(crate) fn copy_of(chars: &Vec<char>, lo: usize, hi: usize) -> (text: Vec<char>)
    requires
        lo <= hi <= chars.len(),
    ensures
        text@ == chars@.subrange(lo as int, hi as int),
{
    let mut text: Vec<char> = Vec::new();
    let mut i: usize = lo;
    while i < hi
        invariant
            lo <= i <= hi <= chars.len(),
            text@ == chars@.subrange(lo as int, i as int),
        decreases hi - i,
    {
        text.push(chars[i]);
        assert(chars@.subrange(lo as int, i + 1) =~= chars@.subrange(lo as int, i as int).push(
            chars@[i as int],
        ));
        i += 1;
    }
    text
}

/// The item that a declaration of `input[a..k]` with the text `input[b..e]`
/// behind its colon is.
fn declared_item<'a>(input: &'a str, chars: &Vec<char>, a: usize, k: usize, b: usize, e: usize) -> (item:
    ElmCode<'a>)
    requires
        chars@ == input@,
        a < k <= chars.len(),
        b <= e <= chars.len(),
    ensures
        item@ == declared(chars@.subrange(a as int, k as int), chars@.subrange(b as int, e as int)),
{
    let name = input.substring_char(a, k);
    assert(name@[0] == chars@[a as int]);
    if chars[a].is_lowercase() {
        let text = copy_of(chars, b, e);
        let terms = terms_of(&text);
        ElmCode::Function(Function { name, type_signature: Some(terms) })
    } else {
        ElmCode::Type(Type { name, definition: Some(input.substring_char(b, e)) })
    }
}

/// A type declaration from its name at `a` on.
pub(crate) fn signature_decl_at<'a>(input: &'a str, chars: &Vec<char>, a: usize) -> (r: Result<
    (usize, ElmCode<'a>),
    ParseError,
>)
    requires
        chars@ == input@,
        a <= chars.len(),
    ensures
        match signature_decl(chars@, a as int) {
            Ok((q, v)) => r matches Ok((p, item)) && p == q && item@ == v,
            Err(e) => r matches Err(f) && f == e,
        },
        r matches Ok((p, _)) ==> a < p <= chars.len(),
{
    proof {
        lemma_signature_decl_advances(chars@, a as int);
    }
    let k = match take(chars, CharClass::Alphanumeric, a) {
        Ok(k) => k,
        Err(e) => {
            return Err(e);
        },
    };
    if k == a {
        return Err(ParseError::Mismatch);
    }
    let c = match take(chars, CharClass::SpaceOrNewlineOrComma, k) {
        Ok(c) => c,
        Err(e) => {
            return Err(e);
        },
    };
    if chars[c] != ':' {
        return Err(ParseError::Mismatch);
    }
    let b = match take(chars, CharClass::SpaceOrNewlineOrComma, c + 1) {
        Ok(b) => b,
        Err(e) => {
            return Err(e);
        },
    };
    match find_in(chars, chars, a, k, b) {
        None => Err(ParseError::Incomplete),
        Some(e) => Ok((e + (k - a), declared_item(input, chars, a, k, b, e))),
    }
}

/// A type declaration at the start of a line, whose line feed stands at `i`.
pub(crate) fn function_decl_at<'a>(input: &'a str, chars: &Vec<char>, i: usize) -> (r: Result<
    (usize, ElmCode<'a>),
    ParseError,
>)
    requires
        chars@ == input@,
        i <= chars.len(),
    ensures
        match function_decl(chars@, i as int) {
            Ok((q, v)) => r matches Ok((p, item)) && p == q && item@ == v,
            Err(e) => r matches Err(f) && f == e,
        },
        r matches Ok((p, _)) ==> i < p <= chars.len(),
{
    match tag1(chars, '\n', i) {
        Err(e) => Err(e),
        Ok(a) => signature_decl_at(input, chars, a),
    }
}

/// The items of a module body from `i` on; `fresh` says that a line feed or a
/// comment ends at `i`.
pub(crate) fn declarations_at<'a>(input: &'a str, chars: &Vec<char>, i: usize, fresh: bool) -> (items:
    Vec<ElmCode<'a>>)
    requires
        chars@ == input@,
        i <= chars.len(),
    ensures
        body_view(items@) == declarations(chars@, i as int, fresh),
{
    let mut items: Vec<ElmCode<'a>> = Vec::new();
    let mut p: usize = i;
    let mut at_start = fresh;
    assert(body_view(items@) =~= Seq::empty());
    while p < chars.len()
        invariant
            chars@ == input@,
            i <= p <= chars.len(),
            body_view(items@) + declarations(chars@, p as int, at_start) == declarations(
                chars@,
                i as int,
                fresh,
            ),
        decreases chars.len() - p,
    {
        let ghost before = body_view(items@);
        match comment_at(chars, p) {
            Ok((q, _)) => {
                items.push(ElmCode::Comment);
                assert(body_view(items@) =~= before.push(ElmCodeView::Comment));
                assert(before.push(ElmCodeView::Comment) + declarations(chars@, q as int, true)
                    =~= before + (seq![ElmCodeView::Comment] + declarations(
                    chars@,
                    q as int,
                    true,
                )));
                p = q;
                at_start = true;
            },
            Err(_) => {
                let tried = if at_start {
                    signature_decl_at(input, chars, p)
                } else {
                    Err(ParseError::Mismatch)
                };
                match tried {
                    Ok((q, item)) => {
                        let ghost v = item@;
                        items.push(item);
                        assert(body_view(items@) =~= before.push(v));
                        assert(before.push(v) + declarations(chars@, q as int, false) =~= before
                            + (seq![v] + declarations(chars@, q as int, false)));
                        p = q;
                        at_start = false;
                    },
                    Err(_) => {
                        at_start = chars[p] == '\n';
                        p += 1;
                    },
                }
            },
        }
    }
    assert(body_view(items@) + Seq::<ElmCodeView>::empty() =~= body_view(items@));
    items
}

} // verus!
