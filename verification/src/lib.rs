//! The rules of a bot that runs shell commands on comments.
//!
//! A rule file holds rule blocks. A block for comments has conditions and
//! steps: for a comment of which its conditions hold, its steps are run, one
//! after the other, until one fails. The command line of a step is a
//! template, in which `${{ path }}` stands for the value that the path has in
//! the payload of the event.
//!
//! - `config`: the rule file.
//! - `event`: the events, and the kinds of event that there are.
//! - `runner`: which conditions hold of a comment, which steps a rule file
//!   has for an event, and what a run through them does next.
//! - `template`: how a template is rendered.
//! - `path`: what the path engine says of a path, and the paths that are
//!   kept from it because it would abort on them.
//! - `json`: the values in which the paths are looked up.
//! - `text`: lines, white space and prefixes.
//!
//! The library starts no command and reads no file. The caller asks
//! `runner::Run` what to do next, does it, and tells how it ended.

pub mod config;
pub mod event;
pub mod json;
pub mod path;
pub mod runner;
pub mod template;
pub mod text;
