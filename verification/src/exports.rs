//! The exports of a module: what its header exports of what its body
//! declares.

use crate::grammar::{module, ParseError};
use crate::helpers::same_text;
use crate::parser::elm;
use crate::structs::{
    body_view, export_list_view, optional_signature, signature_view, ElmCode,
    ElmCodeView, ElmModule, ElmModuleView, FunctionView, TypeOrFunction, TypeOrFunctionView,
    TypeView,
};
use vstd::prelude::*;
use vstd::string::*;

verus! {

/// One exported name with what the module says of it.
#[derive(Debug, Clone, PartialEq)]
pub enum ElmExport {
    Function { name: String, type_signature: Option<Vec<String>> },
    Type { name: String, definition: Option<String> },
}

/// The exports of one module, in the order of its body.
#[derive(Debug, Clone, PartialEq)]
pub struct ElmExports {
    pub exports: Vec<ElmExport>,
}

/// An export, as text.
pub enum ElmExportView {
    Function(FunctionView),
    Type(TypeView),
}

impl ElmExportView {
    /// The exported name.
    pub open spec fn name(self) -> Seq<char> {
        match self {
            ElmExportView::Function(f) => f.name,
            ElmExportView::Type(t) => t.name,
        }
    }
}

impl View for ElmExport {
    type V = ElmExportView;

    open spec fn view(&self) -> ElmExportView {
        match self {
            ElmExport::Function { name, type_signature } => ElmExportView::Function(
                FunctionView {
                    name: name@,
                    type_signature: match type_signature {
                        Some(terms) => Some(signature_view(terms@)),
                        None => None,
                    },
                },
            ),
            ElmExport::Type { name, definition } => ElmExportView::Type(
                TypeView {
                    name: name@,
                    definition: match definition {
                        Some(text) => Some(text@),
                        None => None,
                    },
                },
            ),
        }
    }
}

/// Some exports, as text.
pub open spec fn exports_view(exports: Seq<ElmExport>) -> Seq<ElmExportView> {
    Seq::new(exports.len(), |i: int| exports[i]@)
}

impl View for ElmExports {
    type V = Seq<ElmExportView>;

    open spec fn view(&self) -> Seq<ElmExportView> {
        exports_view(self.exports@)
    }
}

impl ElmExport {
    /// A copy of the export.
    pub fn duplicate(&self) -> (copy: Self)
        ensures
            copy@ == self@,
    {
        match self {
            ElmExport::Function { name, type_signature } => ElmExport::Function {
                name: name.clone(),
                type_signature: match type_signature {
                    Some(terms) => Some(copy_signature(terms)),
                    None => None,
                },
            },
            ElmExport::Type { name, definition } => ElmExport::Type {
                name: name.clone(),
                definition: match definition {
                    Some(text) => Some(text.clone()),
                    None => None,
                },
            },
        }
    }
}

impl ElmExports {
    /// A copy of the exports.
    pub fn duplicate(&self) -> (copy: Self)
        ensures
            copy@ == self@,
    {
        let mut exports: Vec<ElmExport> = Vec::new();
        let mut i: usize = 0;
        while i < self.exports.len()
            invariant
                i <= self.exports.len(),
                exports_view(exports@) == exports_view(self.exports@).take(i as int),
            decreases self.exports.len() - i,
        {
            let ghost before = exports_view(exports@);
            let export = self.exports[i].duplicate();
            exports.push(export);
            assert(exports_view(exports@) =~= before.push(export@));
            assert(before.push(export@) =~= exports_view(self.exports@).take(i + 1));
            i += 1;
        }
        assert(exports_view(self.exports@).take(self.exports.len() as int) =~= exports_view(
            self.exports@,
        ));
        ElmExports { exports }
    }
}

/// The name that a body item declares, where it declares one.
pub open spec fn declared_name(item: ElmCodeView) -> Option<Seq<char>> {
    match item {
        ElmCodeView::Function(f) => Some(f.name),
        ElmCodeView::Type(t) => Some(t.name),
        _ => None,
    }
}

/// `name` is one of the names of the export list `items`.
pub open spec fn is_listed(items: Seq<TypeOrFunctionView>, name: Seq<char>) -> bool {
    exists|i: int| 0 <= i < items.len() && (#[trigger] items[i]).name() == name
}

/// The header exports `name`.
pub open spec fn exports_name(header: ElmModuleView, name: Seq<char>) -> bool {
    match header {
        ElmModuleView::All => true,
        ElmModuleView::List(items) => is_listed(items, name),
    }
}

/// The signature that the export list itself gives for the function `name`:
/// that of the first of its items from `i` on that names the function and has
/// one.
pub open spec fn listed_signature(items: Seq<TypeOrFunctionView>, name: Seq<char>, i: int) -> Option<
    Seq<Seq<char>>,
>
    decreases items.len() - i,
{
    if i < 0 || i >= items.len() {
        None
    } else {
        match items[i] {
            TypeOrFunctionView::Function(f) if f.name == name && f.type_signature is Some => f.type_signature,
            _ => listed_signature(items, name, i + 1),
        }
    }
}

/// The definition that the export list itself gives for the type `name`: that
/// of the first of its items from `i` on that names the type and has one.
pub open spec fn listed_definition(items: Seq<TypeOrFunctionView>, name: Seq<char>, i: int) -> Option<
    Seq<char>,
>
    decreases items.len() - i,
{
    if i < 0 || i >= items.len() {
        None
    } else {
        match items[i] {
            TypeOrFunctionView::Type(t) if t.name == name && t.definition is Some => t.definition,
            _ => listed_definition(items, name, i + 1),
        }
    }
}

/// What the header itself says of the signature of the function `name`.
pub open spec fn header_signature(header: ElmModuleView, name: Seq<char>) -> Option<
    Seq<Seq<char>>,
> {
    match header {
        ElmModuleView::All => None,
        ElmModuleView::List(items) => listed_signature(items, name, 0),
    }
}

/// What the header itself says of the definition of the type `name`.
pub open spec fn header_definition(header: ElmModuleView, name: Seq<char>) -> Option<Seq<char>> {
    match header {
        ElmModuleView::All => None,
        ElmModuleView::List(items) => listed_definition(items, name, 0),
    }
}

/// What the body says, and where it says nothing, what the header says.
pub open spec fn richer<T>(body: Option<T>, header: Option<T>) -> Option<T> {
    if body is Some {
        body
    } else {
        header
    }
}

/// The export that a body item makes under a header: none for a comment or a
/// passed-over character, and none for a declaration whose name the header
/// does not export.
pub open spec fn export_of(header: ElmModuleView, item: ElmCodeView) -> Option<ElmExportView> {
    match item {
        ElmCodeView::Function(f) => if exports_name(header, f.name) {
            Some(
                ElmExportView::Function(
                    FunctionView {
                        name: f.name,
                        type_signature: richer(f.type_signature, header_signature(header, f.name)),
                    },
                ),
            )
        } else {
            None
        },
        ElmCodeView::Type(t) => if exports_name(header, t.name) {
            Some(
                ElmExportView::Type(
                    TypeView {
                        name: t.name,
                        definition: richer(t.definition, header_definition(header, t.name)),
                    },
                ),
            )
        } else {
            None
        },
        _ => None,
    }
}

/// The exports of a body under a header: the export of each item that makes
/// one, in the order of the body.
pub open spec fn resolved(header: ElmModuleView, body: Seq<ElmCodeView>) -> Seq<ElmExportView>
    decreases body.len(),
{
    if body.len() == 0 {
        Seq::empty()
    } else {
        match export_of(header, body.last()) {
            Some(export) => resolved(header, body.drop_last()).push(export),
            None => resolved(header, body.drop_last()),
        }
    }
}

/// An owned copy of a signature.
pub(crate) fn copy_signature(terms: &Vec<String>) -> (copy: Vec<String>)
    ensures
        signature_view(copy@) == signature_view(terms@),
{
    let mut copy: Vec<String> = Vec::new();
    let mut i: usize = 0;
    while i < terms.len()
        invariant
            i <= terms.len(),
            signature_view(copy@) == signature_view(terms@).take(i as int),
        decreases terms.len() - i,
    {
        let ghost before = signature_view(copy@);
        let term = terms[i].clone();
        copy.push(term);
        assert(signature_view(copy@) =~= before.push(term@));
        assert(before.push(term@) =~= signature_view(terms@).take(i + 1));
        i += 1;
    }
    assert(signature_view(terms@).take(terms.len() as int) =~= signature_view(terms@));
    copy
}

/// Whether `name` is one of the names of the export list `items`.
fn listed(items: &Vec<TypeOrFunction>, name: &str) -> (found: bool)
    ensures
        found == is_listed(export_list_view(items@), name@),
{
    let mut i: usize = 0;
    while i < items.len()
        invariant
            i <= items.len(),
            forall|j: int| 0 <= j < i ==> (#[trigger] export_list_view(items@)[j]).name() != name@,
        decreases items.len() - i,
    {
        let item_name = match &items[i] {
            TypeOrFunction::Type(t) => t.name,
            TypeOrFunction::Function(f) => f.name,
        };
        if same_text(item_name, name) {
            assert(export_list_view(items@)[i as int].name() == name@);
            return true;
        }
        i += 1;
    }
    false
}

/// The signature that the export list `items` itself gives for the function
/// `name`.
fn signature_in_list(items: &Vec<TypeOrFunction>, name: &str) -> (found: Option<Vec<String>>)
    ensures
        optional_signature(found) == listed_signature(export_list_view(items@), name@, 0),
{
    let mut i: usize = 0;
    while i < items.len()
        invariant
            i <= items.len(),
            listed_signature(export_list_view(items@), name@, i as int) == listed_signature(
                export_list_view(items@),
                name@,
                0,
            ),
        decreases items.len() - i,
    {
        assert(export_list_view(items@)[i as int] == items@[i as int]@);
        match &items[i] {
            TypeOrFunction::Function(f) => {
                if same_text(f.name, name) {
                    match &f.type_signature {
                        Some(terms) => {
                            return Some(copy_signature(terms));
                        },
                        None => {},
                    }
                }
            },
            TypeOrFunction::Type(_) => {},
        }
        i += 1;
    }
    None
}

/// The definition that the export list `items` itself gives for the type
/// `name`.
fn definition_in_list(items: &Vec<TypeOrFunction>, name: &str) -> (found: Option<String>)
    ensures
        match listed_definition(export_list_view(items@), name@, 0) {
            Some(text) => found matches Some(d) && d@ == text,
            None => found is None,
        },
{
    let mut i: usize = 0;
    while i < items.len()
        invariant
            i <= items.len(),
            listed_definition(export_list_view(items@), name@, i as int) == listed_definition(
                export_list_view(items@),
                name@,
                0,
            ),
        decreases items.len() - i,
    {
        assert(export_list_view(items@)[i as int] == items@[i as int]@);
        match &items[i] {
            TypeOrFunction::Type(t) => {
                if same_text(t.name, name) {
                    match t.definition {
                        Some(text) => {
                            return Some(String::from_str(text));
                        },
                        None => {},
                    }
                }
            },
            TypeOrFunction::Function(_) => {},
        }
        i += 1;
    }
    None
}

/// Whether the header exports `name`.
fn exported(header: &ElmModule, name: &str) -> (yes: bool)
    ensures
        yes == exports_name(header@, name@),
{
    match header {
        ElmModule::All => true,
        ElmModule::List(items) => listed(items, name),
    }
}

/// The export that a body item makes under a header.
fn export_item(header: &ElmModule, item: &ElmCode) -> (r: Option<ElmExport>)
    ensures
        match export_of(header@, item@) {
            Some(v) => r matches Some(export) && export@ == v,
            None => r is None,
        },
{
    match item {
        ElmCode::Function(f) => {
            if !exported(header, f.name) {
                return None;
            }
            let type_signature = match &f.type_signature {
                Some(terms) => Some(copy_signature(terms)),
                None => match header {
                    ElmModule::All => None,
                    ElmModule::List(items) => signature_in_list(items, f.name),
                },
            };
            Some(ElmExport::Function { name: String::from_str(f.name), type_signature })
        },
        ElmCode::Type(t) => {
            if !exported(header, t.name) {
                return None;
            }
            let definition = match t.definition {
                Some(text) => Some(String::from_str(text)),
                None => match header {
                    ElmModule::All => None,
                    ElmModule::List(items) => definition_in_list(items, t.name),
                },
            };
            Some(ElmExport::Type { name: String::from_str(t.name), definition })
        },
        _ => None,
    }
}

/// The exports of a module: of the functions and types that its body
/// declares, those that its header exports, in the order of the body. A name
/// that the header lists and the body does not declare gives no export.
pub fn resolve(header: &ElmModule, body: &Vec<ElmCode>) -> (exports: ElmExports)
    ensures
        exports@ == resolved(header@, body_view(body@)),
{
    let mut exports: Vec<ElmExport> = Vec::new();
    let mut i: usize = 0;
    assert(body_view(body@).take(0) =~= Seq::empty());
    assert(exports_view(exports@) =~= Seq::empty());
    while i < body.len()
        invariant
            i <= body.len(),
            exports_view(exports@) == resolved(header@, body_view(body@).take(i as int)),
        decreases body.len() - i,
    {
        let ghost before = exports_view(exports@);
        proof {
            let next = body_view(body@).take(i + 1);
            assert(next.drop_last() =~= body_view(body@).take(i as int));
            assert(next.last() == body@[i as int]@);
        }
        match export_item(header, &body[i]) {
            Some(export) => {
                exports.push(export);
                assert(exports_view(exports@) =~= before.push(export@));
            },
            None => {},
        }
        i += 1;
    }
    assert(body_view(body@).take(body.len() as int) =~= body_view(body@));
    ElmExports { exports }
}

/// The exports that the text of a module has, as far as the grammar reads it.
pub open spec fn exports_of_text(code: Seq<char>) -> Result<Seq<ElmExportView>, ParseError> {
    match module(code) {
        Ok((header, body)) => Ok(resolved(header, body)),
        Err(e) => Err(e),
    }
}

/// The exports of the module whose text is `code`, or the reason why `code` is
/// no module.
pub fn get_elm_exports(code: &str) -> (r: Result<ElmExports, ParseError>)
    ensures
        match exports_of_text(code@) {
            Ok(v) => r matches Ok(exports) && exports@ == v,
            Err(e) => r matches Err(f) && f == e,
        },
{
    match elm(code) {
        Ok((_, (header, body))) => Ok(resolve(&header, &body)),
        Err(e) => Err(e),
    }
}

/// How many functions and types a body declares.
pub open spec fn declarations_in(body: Seq<ElmCodeView>) -> nat
    decreases body.len(),
{
    if body.len() == 0 {
        0
    } else if declared_name(body.last()) is Some {
        declarations_in(body.drop_last()) + 1
    } else {
        declarations_in(body.drop_last())
    }
}

/// The names that a body declares, in its order.
pub open spec fn declared_names(body: Seq<ElmCodeView>) -> Seq<Seq<char>>
    decreases body.len(),
{
    if body.len() == 0 {
        Seq::empty()
    } else {
        match declared_name(body.last()) {
            Some(name) => declared_names(body.drop_last()).push(name),
            None => declared_names(body.drop_last()),
        }
    }
}

/// The names of some exports, in their order.
pub open spec fn export_names(exports: Seq<ElmExportView>) -> Seq<Seq<char>> {
    Seq::new(exports.len(), |i: int| exports[i].name())
}

/// The names of an export list, in its order.
pub open spec fn listed_names(items: Seq<TypeOrFunctionView>) -> Seq<Seq<char>> {
    Seq::new(items.len(), |i: int| items[i].name())
}

/// The exports of a body in two parts are those of the first part, then those
/// of the second.
pub proof fn lemma_resolved_concat(
    header: ElmModuleView,
    first: Seq<ElmCodeView>,
    second: Seq<ElmCodeView>,
)
    ensures
        resolved(header, first + second) == resolved(header, first) + resolved(header, second),
    decreases second.len(),
{
    if second.len() == 0 {
        assert(first + second =~= first);
        assert(resolved(header, first) + resolved(header, second) =~= resolved(header, first));
    } else {
        let whole = first + second;
        assert(whole.drop_last() =~= first + second.drop_last());
        assert(whole.last() == second.last());
        lemma_resolved_concat(header, first, second.drop_last());
        let a = resolved(header, first);
        let b = resolved(header, second.drop_last());
        match export_of(header, second.last()) {
            Some(export) => {
                assert((a + b).push(export) =~= a + b.push(export));
            },
            None => {},
        }
    }
}

/// Under a header that exports everything, every function and type that the
/// body declares is exported, and nothing else: the exports are as many as
/// the declarations.
pub proof fn lemma_all_exports_every_declaration(body: Seq<ElmCodeView>)
    ensures
        resolved(ElmModuleView::All, body).len() == declarations_in(body),
    decreases body.len(),
{
    if body.len() > 0 {
        lemma_all_exports_every_declaration(body.drop_last());
    }
}

/// A comment in a body, wherever it stands, changes nothing in the exports.
pub proof fn lemma_comments_make_no_export(
    header: ElmModuleView,
    before: Seq<ElmCodeView>,
    after: Seq<ElmCodeView>,
)
    ensures
        resolved(header, before + seq![ElmCodeView::Comment] + after) == resolved(
            header,
            before + after,
        ),
{
    let comment = seq![ElmCodeView::Comment];
    lemma_resolved_concat(header, before + comment, after);
    lemma_resolved_concat(header, before, comment);
    lemma_resolved_concat(header, before, after);
    assert(comment.drop_last() =~= Seq::<ElmCodeView>::empty());
    assert(resolved(header, comment.drop_last()) =~= Seq::<ElmExportView>::empty());
    assert(resolved(header, comment) =~= Seq::<ElmExportView>::empty());
    assert(resolved(header, before) + Seq::<ElmExportView>::empty() =~= resolved(header, before));
}

/// A module text whose header exports everything has as many exports as its
/// body has type declarations, whatever comments stand between them.
pub proof fn lemma_module_exposing_all(code: Seq<char>)
    requires
        module(code) matches Ok((header, _)) && header == ElmModuleView::All,
    ensures
        exports_of_text(code) matches Ok(exports) && module(code) matches Ok((_, body))
            && exports.len() == declarations_in(body),
{
    lemma_all_exports_every_declaration(module(code)->Ok_0.1);
}

/// A module text with an export list exports only names that the list holds
/// and the body declares, each declaration at most once.
pub proof fn lemma_module_exposing_list(code: Seq<char>)
    requires
        module(code) matches Ok((header, _)) && header is List,
    ensures
        exports_of_text(code) matches Ok(exports) && module(code) matches Ok((header, body)) && {
            &&& exports.len() <= declarations_in(body)
            &&& forall|i: int|
                0 <= i < exports.len() ==> {
                    &&& is_listed(header->List_0, (#[trigger] exports[i]).name())
                    &&& declared_names(body).contains(exports[i].name())
                }
        },
{
    let (header, body) = module(code)->Ok_0;
    lemma_exports_are_exported_and_declared(header, body);
}

/// Every export is of a name that the header exports and the body declares,
/// and the exports are no more than the declarations of the body.
pub proof fn lemma_exports_are_exported_and_declared(
    header: ElmModuleView,
    body: Seq<ElmCodeView>,
)
    ensures
        resolved(header, body).len() <= declarations_in(body) <= body.len(),
        forall|i: int|
            0 <= i < resolved(header, body).len() ==> {
                let name = (#[trigger] resolved(header, body)[i]).name();
                &&& exports_name(header, name)
                &&& declared_names(body).contains(name)
            },
    decreases body.len(),
{
    if body.len() > 0 {
        let rest = body.drop_last();
        lemma_exports_are_exported_and_declared(header, rest);
        assert forall|i: int| 0 <= i < resolved(header, body).len() implies {
            let name = (#[trigger] resolved(header, body)[i]).name();
            &&& exports_name(header, name)
            &&& declared_names(body).contains(name)
        } by {
            let name = resolved(header, body)[i].name();
            if i < resolved(header, rest).len() {
                assert(resolved(header, body)[i] == resolved(header, rest)[i]);
                let j = choose|j: int|
                    0 <= j < declared_names(rest).len() && declared_names(rest)[j] == name;
                assert(declared_names(body)[j] == name);
            } else {
                let last = declared_names(body).len() - 1;
                assert(declared_names(body)[last] == name);
            }
        }
    }
}

/// Where no name is declared twice, no name is exported twice.
pub proof fn lemma_export_names_distinct(header: ElmModuleView, body: Seq<ElmCodeView>)
    requires
        declared_names(body).no_duplicates(),
    ensures
        export_names(resolved(header, body)).no_duplicates(),
    decreases body.len(),
{
    if body.len() > 0 {
        let rest = body.drop_last();
        let names = declared_names(body);
        assert(declared_names(rest).no_duplicates()) by {
            assert forall|i: int, j: int|
                0 <= i < declared_names(rest).len() && 0 <= j < declared_names(rest).len() && i
                    != j implies declared_names(rest)[i] != declared_names(rest)[j] by {
                assert(names[i] == declared_names(rest)[i]);
                assert(names[j] == declared_names(rest)[j]);
            }
        }
        lemma_export_names_distinct(header, rest);
        lemma_exports_are_exported_and_declared(header, rest);
        let old_names = export_names(resolved(header, rest));
        let new_names = export_names(resolved(header, body));
        if let Some(export) = export_of(header, body.last()) {
            assert forall|i: int, j: int|
                0 <= i < new_names.len() && 0 <= j < new_names.len() && i != j implies new_names[i]
                    != new_names[j] by {
                let last = old_names.len() as int;
                if i < last && j < last {
                    assert(new_names[i] == old_names[i]);
                    assert(new_names[j] == old_names[j]);
                } else {
                    let k = if i < last {
                        i
                    } else {
                        j
                    };
                    let name = resolved(header, rest)[k].name();
                    assert(new_names[k] == name);
                    assert(declared_names(rest).contains(name));
                    let d = choose|d: int|
                        0 <= d < declared_names(rest).len() && declared_names(rest)[d] == name;
                    assert(names[d] == name);
                    assert(names[names.len() - 1] == export.name());
                }
            }
        } else {
            assert(new_names =~= old_names);
        }
    }
}

/// Under an export list, where the body declares no name twice, the exports
/// are no more than the names of the list.
pub proof fn lemma_exports_within_list(items: Seq<TypeOrFunctionView>, body: Seq<ElmCodeView>)
    requires
        declared_names(body).no_duplicates(),
    ensures
        resolved(ElmModuleView::List(items), body).len() <= items.len(),
{
    broadcast use vstd::seq_lib::seq_to_set_is_finite;

    let header = ElmModuleView::List(items);
    let names = export_names(resolved(header, body));
    let listed = listed_names(items);
    lemma_export_names_distinct(header, body);
    lemma_exports_are_exported_and_declared(header, body);
    assert forall|name: Seq<char>| names.to_set().contains(name) implies listed.to_set().contains(
        name,
    ) by {
        let i = choose|i: int| 0 <= i < names.len() && names[i] == name;
        assert(resolved(header, body)[i].name() == name);
        assert(is_listed(items, name));
        let j = choose|j: int| 0 <= j < items.len() && (#[trigger] items[j]).name() == name;
        assert(listed[j] == name);
    }
    names.unique_seq_to_set();
    listed.lemma_cardinality_of_set();
    vstd::set_lib::lemma_len_subset(names.to_set(), listed.to_set());
}

} // verus!
