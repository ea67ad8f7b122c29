//! A verified core for an interactive command-line shell.
//!
//! The library covers the pure logic of the shell: tokenizing an input line
//! under POSIX-like quoting and escaping rules, assembling token fragments
//! into logical words, stripping redirection operators, dispatching builtin
//! commands, parsing exit codes, and choosing an executable from a directory
//! listing. Everything that touches the operating system (reading input,
//! changing the working directory, scanning `PATH` directories, spawning
//! child processes, writing to files or the terminal) stays outside and
//! hands this library plain values.

pub mod lexer;
pub mod lines;
pub mod quoting;
pub mod redirect;
pub mod resolve;
pub mod shell;
pub mod strutil;
pub mod words;
