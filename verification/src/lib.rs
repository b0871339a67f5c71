pub mod applier;
pub mod collector;
pub mod conversation;
pub mod credential;
pub mod failure;
pub mod git;
pub mod guarantees;
pub mod json;
pub mod pattern;
pub mod prompt;
pub mod session;
pub mod text;
pub mod tools;
