//! Search backend core: reading the exports of Elm modules and indexing
//! functions by their type signature.

pub mod actors;
pub mod app_state;
pub mod chromium_dl;
pub mod config;
pub mod db_queries;
pub mod elm_package;
pub mod exports;
pub mod fn_cache;
pub mod git_repo;
pub mod grammar;
pub mod handlers;
pub mod helpers;
pub mod messages;
pub mod models;
pub mod parser;
pub mod reading;
pub mod repo_cache;
pub mod repo_exports;
mod rules;
pub mod structs;
pub mod subprocess;
