//! Repair of semantically broken SQL `SELECT` statements by best-first search
//! over edits of the parse tree, and the SoftQL query notation.
//!
//! The search engine:
//! - `tree`: the statement model, its canonical text and deep copy;
//! - `mutate`: edits of a statement (renames, casts, joins, qualifications);
//! - `locate`: walkers that find edit sites;
//! - `catalog`, `similarity`: answers of the catalog similarity service and
//!   the text of its queries;
//! - `generate`: the refinement generators and the cost model;
//! - `classify`: analyzer and executor errors to repair cases;
//! - `route`: which refinement families an outcome calls for;
//! - `search`: the best-first search state machine;
//! - `cache`: the slot cache of similarity answers.
//!
//! SoftQL: `ast`, `lexer`, `parser`; and the model front end: `prompt`,
//! `chat`.

pub mod ast;
pub mod cache;
pub mod catalog;
pub mod chat;
pub mod classify;
pub mod embedding;
pub mod generate;
pub mod lexer;
pub mod locate;
pub mod mutate;
pub mod parser;
pub mod prompt;
pub mod route;
pub mod search;
pub mod similarity;
pub mod tree;

pub use parser::static_parse_softql;
