//! What goes into the database: the rows of the functions that the files of a
//! package export.

use crate::elm_package::ElmFile;
use crate::exports::{ElmExport, ElmExportView};
use crate::grammar::{
    is_normal, joined, lemma_joined_push, lemma_joined_terms_split_back, signature_terms,
};
use crate::models::NewFunction;
use crate::structs::signature_view;
use vstd::prelude::*;
use vstd::string::*;

verus! {

/// Why the database was not changed.
#[derive(Debug, Clone, PartialEq, Eq)]
pub enum UpdateUrlError {
    /// No connection; the driver's message.
    DieselConnectionError(String),
    /// A statement failed; the driver's message.
    DieselError(String),
    RepoNotFound,
}

/// A row to store, as text.
pub struct NewFunctionView {
    pub repo_id: i32,
    pub type_signature: Seq<char>,
    pub name: Seq<char>,
}

impl<'a> View for NewFunction<'a> {
    type V = NewFunctionView;

    open spec fn view(&self) -> NewFunctionView {
        NewFunctionView {
            repo_id: self.repo_id,
            type_signature: self.type_signature@,
            name: self.name@,
        }
    }
}

/// Some rows, as text.
pub open spec fn rows_view(rows: Seq<NewFunction>) -> Seq<NewFunctionView> {
    Seq::new(rows.len(), |i: int| rows[i]@)
}

/// The signature as it is stored and as the index is keyed by it: its terms
/// with ` -> ` between each two, from which splitting gives the terms back.
/// A function without a signature is stored with the empty text.
pub open spec fn stored_signature(signature: Option<Seq<Seq<char>>>) -> Seq<char> {
    match signature {
        Some(terms) => joined(terms),
        None => Seq::empty(),
    }
}

/// The stored signature gives the terms back: splitting it at its arrows
/// yields the terms it was made of, where these are as splitting leaves them.
pub proof fn lemma_stored_signature_splits_back(terms: Seq<Seq<char>>)
    requires
        terms.len() > 0,
        forall|k: int| 0 <= k < terms.len() ==> is_normal(#[trigger] terms[k]),
    ensures
        signature_terms(stored_signature(Some(terms))) == terms,
{
    lemma_joined_terms_split_back(terms);
}

/// The row of an export of the repository `repo_id`: one for a function, none
/// for a type.
pub open spec fn row_of(repo_id: i32, export: ElmExportView) -> Option<NewFunctionView> {
    match export {
        ElmExportView::Function(f) => Some(
            NewFunctionView {
                repo_id,
                type_signature: stored_signature(f.type_signature),
                name: f.name,
            },
        ),
        ElmExportView::Type(_) => None,
    }
}

/// The rows of some exports, in their order.
pub open spec fn rows_of_exports(repo_id: i32, exports: Seq<ElmExportView>) -> Seq<
    NewFunctionView,
>
    decreases exports.len(),
{
    if exports.len() == 0 {
        Seq::empty()
    } else {
        match row_of(repo_id, exports.last()) {
            Some(row) => rows_of_exports(repo_id, exports.drop_last()).push(row),
            None => rows_of_exports(repo_id, exports.drop_last()),
        }
    }
}

/// The exports of each of some files.
pub open spec fn file_exports(files: Seq<ElmFile>) -> Seq<Seq<ElmExportView>> {
    Seq::new(files.len(), |i: int| files[i].exports@)
}

/// The rows of the exports of some files, file after file.
pub open spec fn rows_of_files(repo_id: i32, files: Seq<Seq<ElmExportView>>) -> Seq<
    NewFunctionView,
>
    decreases files.len(),
{
    if files.len() == 0 {
        Seq::empty()
    } else {
        rows_of_files(repo_id, files.drop_last()) + rows_of_exports(repo_id, files.last())
    }
}

/// The terms with ` -> ` between each two.
pub fn join_terms(terms: &Vec<String>) -> (text: String)
    ensures
        text@ == joined(signature_view(terms@)),
{
    let ghost all = signature_view(terms@);
    let mut text = String::new();
    let mut i: usize = 0;
    assert(all.take(0) =~= Seq::empty());
    while i < terms.len()
        invariant
            i <= terms.len(),
            all == signature_view(terms@),
            text@ == joined(all.take(i as int)),
        decreases terms.len() - i,
    {
        proof {
            reveal_strlit(" -> ");
            assert(" -> "@ =~= seq![' ', '-', '>', ' ']);
            assert(all.take(i + 1) =~= all.take(i as int).push(all[i as int]));
            if i > 0 {
                lemma_joined_push(all.take(i as int), all[i as int]);
            } else {
                assert(all.take(1)[0] == all[0]);
            }
        }
        if i > 0 {
            text.append(" -> ");
        }
        text.append(terms[i].as_str());
        assert(text@ =~= joined(all.take(i + 1)));
        i += 1;
    }
    assert(all.take(terms.len() as int) =~= all);
    text
}

/// The rows of the functions that the files of the repository `repo_id`
/// export, file after file and each file in its order.
pub fn new_functions<'a>(repo_id: i32, elm_files: &'a Vec<ElmFile>) -> (rows: Vec<NewFunction<'a>>)
    ensures
        rows_view(rows@) == rows_of_files(repo_id, file_exports(elm_files@)),
{
    let mut rows: Vec<NewFunction<'a>> = Vec::new();
    let mut i: usize = 0;
    let ghost files = file_exports(elm_files@);
    assert(files.take(0) =~= Seq::empty());
    assert(rows_view(rows@) =~= Seq::empty());
    while i < elm_files.len()
        invariant
            i <= elm_files.len(),
            files == file_exports(elm_files@),
            rows_view(rows@) == rows_of_files(repo_id, files.take(i as int)),
        decreases elm_files.len() - i,
    {
        let exports = &elm_files[i].exports.exports;
        let ghost views = elm_files@[i as int].exports@;
        let ghost before = rows_view(rows@);
        let mut j: usize = 0;
        assert(views.take(0) =~= Seq::empty());
        assert(before + Seq::<NewFunctionView>::empty() =~= before);
        while j < exports.len()
            invariant
                j <= exports.len(),
                exports == &elm_files@[i as int].exports.exports,
                views == elm_files@[i as int].exports@,
                rows_view(rows@) == before + rows_of_exports(repo_id, views.take(j as int)),
            decreases exports.len() - j,
        {
            let ghost so_far = rows_of_exports(repo_id, views.take(j as int));
            proof {
                let next = views.take(j + 1);
                assert(next.drop_last() =~= views.take(j as int));
                assert(next.last() == exports@[j as int]@);
            }
            match &exports[j] {
                ElmExport::Function { name, type_signature } => {
                    let a = match type_signature {
                        Some(typ_sig) => join_terms(typ_sig),
                        None => String::new(),
                    };
                    let row = NewFunction { repo_id, name: name.as_str(), type_signature: a };
                    let ghost held = rows_view(rows@);
                    let ghost added = row@;
                    rows.push(row);
                    assert(rows_view(rows@) =~= held.push(added));
                    assert(held.push(added) =~= before + so_far.push(added));
                },
                ElmExport::Type { .. } => {},
            }
            j += 1;
        }
        proof {
            assert(views.take(exports.len() as int) =~= views);
            let next = files.take(i + 1);
            assert(next.drop_last() =~= files.take(i as int));
            assert(next.last() == views);
        }
        i += 1;
    }
    assert(files.take(elm_files.len() as int) =~= files);
    rows
}

} // verus!
