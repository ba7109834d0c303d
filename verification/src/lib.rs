use vstd::prelude::*;

pub mod text;
pub mod ids;
pub mod weak;
pub mod due;
pub mod llm;
pub mod deepseek;
pub mod openai;
pub mod failure;
pub mod ks;
pub mod todoist;
pub mod auth;
pub mod prompt;
pub mod quiz;
pub mod blurting;
pub mod cards_from_node;
pub mod chat;
pub mod socratic;
pub mod feynman;
pub mod generate;
pub mod reviews;
pub mod stats;
pub mod edit;
pub mod todos;
pub mod crud;
pub mod migrate;
pub mod cli;
pub mod flow;

verus! {

} // verus!
