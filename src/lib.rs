//! A small interactive command interpreter: word splitting, redirection,
//! command lookup, pipelines and the decisions of the read-eval loop.
//!
//! Everything that touches the operating system (reading directories, spawning
//! processes, opening files) is left to the caller; the functions here take the
//! observations as plain values and say exactly what to do with them.

pub mod command;
pub mod words;
pub mod tokenize;
pub mod redirect;
pub mod pipeline;
pub mod line;
pub mod builtins;
pub mod history;
pub mod complete;

pub use command::{builtin_kind, find_in_listing, is_executable, resolve, BuiltinKind, DirFile, ResolvedCommand, SearchEntry};
pub use words::join_words;
pub use tokenize::{drop_empty_words, tokenize, ParseError};
pub use redirect::{extract, operator, Extraction, OutStream, Redirection, WriteMode};
pub use pipeline::{split, Dest, Input, Link, Phase, Pipeline, PipelineError, StageAction};
pub use line::{contains_bar, parse_command, parse_stage, parse_line, Line, ParsedCommand};
pub use builtins::{builtin_output, cd_failure_message, cd_target, join_path, CdError, decimal, echo_output, not_found_message, type_report};
pub use history::{history_lines, parse_count, HistoryArgError, HistoryInfo};
pub use complete::{command_completions, completion_text};
