use vstd::prelude::*;

pub mod anthropic;
pub mod cli;
pub mod commit;
pub mod config;
pub mod diff_parse;
pub mod diff_sampling;
pub mod generate;
pub mod git;
pub mod laws;
pub mod lines;
pub mod message;
pub mod openai;
pub mod prompt;
pub mod terminal_ui;
pub mod text;
pub mod text_budget;
pub mod tokenizer;

verus! {

} // verus!
