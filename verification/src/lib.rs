//! Core logic of the persona companion: input validation, prompt assembly,
//! personality arithmetic, group-speaker selection and the post-processing rules.

pub mod commands;
pub mod context;
pub mod conversation;
pub mod error;
pub mod export;
pub mod inference;
pub mod json;
pub mod memory;
pub mod models;
pub mod personality;
pub mod prompt;
pub mod speaker;
pub mod text;
pub mod worker;
