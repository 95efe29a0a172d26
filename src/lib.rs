//! A small interactive command interpreter: tokenizing an input line,
//! classifying its command as a built-in or an executable on the search
//! path, and turning the outcome of each operation into the response text.

pub mod text;
pub mod resolver;
pub mod dispatch;
pub mod shell;
