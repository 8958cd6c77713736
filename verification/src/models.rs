//! The records that the database holds.

use vstd::prelude::*;

verus! {

/// A package repository as stored.
#[derive(Debug, Clone)]
pub struct Repository {
    pub id: i32,
    pub name: String,
    pub url: String,
    pub ver: String,
}

/// A package repository to store.
#[derive(Debug)]
pub struct NewRepository<'a> {
    pub name: &'a str,
    pub url: &'a str,
    pub ver: &'a str,
}

/// An exported function as stored. Two records are equal where their ids are.
#[derive(Debug, Clone)]
pub struct Function {
    pub id: i64,
    pub repo_id: i32,
    pub name: String,
    pub type_signature: String,
}

impl PartialEq for Function {
    fn eq(&self, other: &Function) -> (equal: bool) {
        self.id == other.id
    }
}

impl vstd::std_specs::cmp::PartialEqSpecImpl for Function {
    open spec fn obeys_eq_spec() -> bool {
        true
    }

    open spec fn eq_spec(&self, other: &Function) -> bool {
        self.id == other.id
    }
}

/// An exported function to store.
#[derive(Debug)]
pub struct NewFunction<'a> {
    pub repo_id: i32,
    pub type_signature: String,
    pub name: &'a str,
}

/// A stored function together with the repository it belongs to.
#[derive(Debug, Clone)]
pub struct FunctionWithRepo {
    pub repo_id: i32,
    pub repo_name: String,
    pub repo_url: String,
    pub repo_version: String,
    pub func_id: i64,
    pub func_name: String,
    pub func_type_sig: String,
}

} // verus!
