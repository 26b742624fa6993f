use minishell::{
    builtin_kind, builtin_output, cd_failure_message, command_completions, completion_text, cd_target, decimal, drop_empty_words, echo_output, extract,
    history_lines, is_executable, join_path, join_words, not_found_message, operator, parse_command,
    parse_count, parse_line, resolve, split, tokenize, type_report, BuiltinKind, CdError, Dest,
    DirFile, HistoryArgError, HistoryInfo, Input, Line, Link, OutStream, ParseError, Phase,
    Pipeline, PipelineError, ResolvedCommand, SearchEntry, StageAction, WriteMode,
};

use minishell::complete::{starts_with, text_le_exec};
use minishell::words::{same_text, trim};

fn strings(ws: &[&str]) -> Vec<String> {
    ws.iter().map(|w| w.to_string()).collect()
}

#[test]
fn test_parser() {
    let words = tokenize("arg1 'arg2' arg3 'ar''g''4'").unwrap();
    let mut it = words.iter();
    assert_eq!(it.next().map(|s| s.as_str()), Some("arg1"));
    assert_eq!(it.next().map(|s| s.as_str()), Some("arg2"));
    assert_eq!(it.next().map(|s| s.as_str()), Some("arg3"));
    assert_eq!(it.next().map(|s| s.as_str()), Some("arg4"));
    assert_eq!(it.next().map(|s| s.as_str()), None);
}

#[test]
fn tokenize_quoting() {
    assert_eq!(tokenize("echo \"a  b\" c").unwrap(), strings(&["echo", "a  b", "c"]));
    assert_eq!(tokenize("a\"b\"'c'd").unwrap(), strings(&["abcd"]));
    assert_eq!(tokenize("'a\\b'").unwrap(), strings(&["a\\b"]));
    assert_eq!(tokenize("\"a\\\"b\"").unwrap(), strings(&["a\"b"]));
    assert_eq!(tokenize("   ").unwrap(), strings(&[]));
}

#[test]
fn tokenize_drops_bare_empty_quotes() {
    assert_eq!(tokenize("a '' b \"\"").unwrap(), strings(&["a", "b"]));
    assert_eq!(tokenize("a''").unwrap(), strings(&["a"]));
}

#[test]
fn tokenize_unterminated_quote() {
    assert_eq!(tokenize("echo 'abc"), Err(ParseError::UnterminatedQuote));
    assert_eq!(tokenize("echo \"abc"), Err(ParseError::UnterminatedQuote));
}

#[test]
fn tokenize_rejoin_round_trip() {
    let first = tokenize("  echo   'hello'   world\tagain ").unwrap();
    assert_eq!(first, strings(&["echo", "hello", "world", "again"]));
    let joined = join_words(&first);
    assert_eq!(joined, "echo hello world again");
    assert_eq!(tokenize(&joined).unwrap(), first);
}

#[test]
fn join_words_spaces() {
    assert_eq!(join_words(&strings(&[])), "");
    assert_eq!(join_words(&strings(&["a"])), "a");
    assert_eq!(join_words(&strings(&["a", "b c", "d"])), "a b c d");
}

#[test]
fn drop_empty_words_keeps_order() {
    assert_eq!(drop_empty_words(strings(&["", "a", "", "b", ""])), strings(&["a", "b"]));
}

#[test]
fn extract_stdout_truncate() {
    let e = extract(&strings(&["hi", ">", "out.txt"])).unwrap();
    assert_eq!(e.args, strings(&["hi"]));
    let t = e.target(OutStream::Stdout).unwrap();
    assert_eq!(t.mode, WriteMode::Truncate);
    assert_eq!(t.target, "out.txt");
    assert!(e.target(OutStream::Stderr).is_none());
}

#[test]
fn extract_append_and_stderr() {
    let e = extract(&strings(&["a", ">>", "log", "b", "2>", "err", "c", "2>>", "err2", "1>", "o"]))
        .unwrap();
    assert_eq!(e.args, strings(&["a", "b", "c"]));
    assert_eq!(e.redirections.len(), 4);
    assert_eq!(e.redirections[0].stream, OutStream::Stdout);
    assert_eq!(e.redirections[0].mode, WriteMode::Append);
    assert_eq!(e.redirections[0].target, "log");
    let out = e.target(OutStream::Stdout).unwrap();
    assert_eq!((out.mode, out.target.as_str()), (WriteMode::Truncate, "o"));
    let err = e.target(OutStream::Stderr).unwrap();
    assert_eq!((err.mode, err.target.as_str()), (WriteMode::Append, "err2"));
}

#[test]
fn extract_last_target_wins() {
    let e = extract(&strings(&["x", ">", "first", "1>>", "second"])).unwrap();
    let out = e.target(OutStream::Stdout).unwrap();
    assert_eq!((out.mode, out.target.as_str()), (WriteMode::Append, "second"));
    assert_eq!(e.redirections.len(), 2);
}

#[test]
fn extract_missing_target() {
    assert_eq!(extract(&strings(&["hi", ">"])), Err(ParseError::MissingRedirectionTarget));
    assert_eq!(extract(&strings(&["2>>"])), Err(ParseError::MissingRedirectionTarget));
}

#[test]
fn operator_words() {
    assert_eq!(operator(">"), Some((OutStream::Stdout, WriteMode::Truncate)));
    assert_eq!(operator("1>"), Some((OutStream::Stdout, WriteMode::Truncate)));
    assert_eq!(operator(">>"), Some((OutStream::Stdout, WriteMode::Append)));
    assert_eq!(operator("1>>"), Some((OutStream::Stdout, WriteMode::Append)));
    assert_eq!(operator("2>"), Some((OutStream::Stderr, WriteMode::Truncate)));
    assert_eq!(operator("2>>"), Some((OutStream::Stderr, WriteMode::Append)));
    assert_eq!(operator("3>"), None);
    assert_eq!(operator(">>>"), None);
    assert_eq!(operator("x"), None);
}

#[test]
fn resolve_builtins_and_missing() {
    assert_eq!(resolve("cd", &vec![]), ResolvedCommand::Builtin(BuiltinKind::Cd));
    assert_eq!(
        resolve("definitely-not-a-real-binary-xyz", &vec![]),
        ResolvedCommand::NotFound
    );
    assert_eq!(builtin_kind("history"), Some(BuiltinKind::History));
    assert_eq!(builtin_kind("ls"), None);
    assert_eq!(BuiltinKind::Type.name(), "type");
}

fn file(name: &str, path: &str, mode: Option<u32>) -> DirFile {
    DirFile { name: name.to_string(), path: path.to_string(), mode }
}

#[test]
fn resolve_searches_in_order() {
    let dirs = vec![
        SearchEntry {
            path: "/a".to_string(),
            file_name: Some("a".to_string()),
            mode: Some(0o755),
            is_file: false,
            listing: vec![file("ls", "/a/ls", Some(0o644)), file("cat", "/a/cat", None)],
        },
        SearchEntry {
            path: "/b".to_string(),
            file_name: Some("b".to_string()),
            mode: Some(0o755),
            is_file: false,
            listing: vec![file("ls", "/b/ls", Some(0o700)), file("ls", "/b/ls2", Some(0o755))],
        },
        SearchEntry {
            path: "/c/tool".to_string(),
            file_name: Some("tool".to_string()),
            mode: Some(0o001),
            is_file: true,
            listing: vec![],
        },
    ];
    assert_eq!(resolve("ls", &dirs), ResolvedCommand::External("/b/ls".to_string()));
    assert_eq!(resolve("tool", &dirs), ResolvedCommand::External("/c/tool".to_string()));
    assert_eq!(resolve("cat", &dirs), ResolvedCommand::NotFound);
    assert_eq!(resolve("echo", &dirs), ResolvedCommand::Builtin(BuiltinKind::Echo));
}

#[test]
fn resolve_skips_directory_entries() {
    let dirs = vec![
        SearchEntry {
            path: "/usr/local/bin".to_string(),
            file_name: Some("bin".to_string()),
            mode: Some(0o755),
            is_file: false,
            listing: vec![file("tool", "/usr/local/bin/tool", Some(0o755))],
        },
        SearchEntry {
            path: "/opt/bin".to_string(),
            file_name: Some("bin".to_string()),
            mode: Some(0o755),
            is_file: true,
            listing: vec![],
        },
    ];
    assert_eq!(resolve("bin", &dirs), ResolvedCommand::External("/opt/bin".to_string()));
    assert_eq!(resolve("bin", &dirs[..1].to_vec()), ResolvedCommand::NotFound);
}

#[test]
fn parse_stage_needs_words() {
    assert_eq!(minishell::parse_stage("''"), Err(ParseError::PipelineTooShort));
    assert_eq!(minishell::parse_stage("a 'b"), Err(ParseError::UnterminatedQuote));
    assert_eq!(minishell::parse_stage("cat > f").unwrap().name, "cat");
}

#[test]
fn tokenize_comment_word() {
    assert_eq!(tokenize("echo #note").unwrap(), strings(&["echo"]));
    assert_eq!(tokenize("echo a#b '#c'").unwrap(), strings(&["echo", "a#b", "#c"]));
}

#[test]
fn executable_bits() {
    assert!(is_executable(Some(0o100)));
    assert!(is_executable(Some(0o010)));
    assert!(is_executable(Some(0o001)));
    assert!(!is_executable(Some(0o644)));
    assert!(!is_executable(None));
}

#[test]
fn split_segments() {
    assert_eq!(split("a | b | c").unwrap(), strings(&["a", "b", "c"]));
    assert_eq!(split("echo 'x y'|wc -l").unwrap(), strings(&["echo 'x y'", "wc -l"]));
    assert_eq!(split("a |"), Err(ParseError::PipelineTooShort));
    assert_eq!(split("| a"), Err(ParseError::PipelineTooShort));
    assert_eq!(split("a | | b"), Err(ParseError::PipelineTooShort));
    assert_eq!(split("a"), Err(ParseError::PipelineTooShort));
}

#[test]
fn pipeline_echo_into_cat() {
    let mut p = Pipeline::new(2);
    let echo = ResolvedCommand::Builtin(BuiltinKind::Echo);
    assert_eq!(p.start_stage(&"echo".to_string(), &echo, false), StageAction::RunBuiltin(Dest::Capture));
    let out = echo_output(&strings(&["hello"]));
    assert_eq!(out, "hello\n");
    p.builtin_done(out);
    assert_eq!(p.link, Link::Buffered("hello\n".to_string()));
    let cat = ResolvedCommand::External("/bin/cat".to_string());
    assert_eq!(
        p.start_stage(&"cat".to_string(), &cat, false),
        StageAction::Spawn { input: Input::Feed("hello\n".to_string()), pipe_output: false }
    );
    p.spawn_done(true);
    assert_eq!(p.phase, Phase::Finished);
    assert_eq!(p.error, None);
    assert_eq!(p.reap_order(), vec![1]);
}

#[test]
fn pipeline_external_chain_reaped_in_reverse() {
    let mut p = Pipeline::new(3);
    let prog = ResolvedCommand::External("/bin/x".to_string());
    let name = "x".to_string();
    assert_eq!(
        p.start_stage(&name, &prog, false),
        StageAction::Spawn { input: Input::Terminal, pipe_output: true }
    );
    p.spawn_done(true);
    assert_eq!(
        p.start_stage(&name, &prog, false),
        StageAction::Spawn { input: Input::PreviousOutput, pipe_output: true }
    );
    p.spawn_done(true);
    assert_eq!(
        p.start_stage(&name, &prog, false),
        StageAction::Spawn { input: Input::PreviousOutput, pipe_output: false }
    );
    p.spawn_done(true);
    assert_eq!(p.phase, Phase::Finished);
    assert_eq!(p.reap_order(), vec![2, 1, 0]);
}

#[test]
fn pipeline_cd_stops_and_reaps_earlier() {
    let mut p = Pipeline::new(3);
    let prog = ResolvedCommand::External("/bin/ls".to_string());
    assert_eq!(
        p.start_stage(&"ls".to_string(), &prog, false),
        StageAction::Spawn { input: Input::Terminal, pipe_output: true }
    );
    p.spawn_done(true);
    let cd = ResolvedCommand::Builtin(BuiltinKind::Cd);
    assert_eq!(
        p.start_stage(&"cd".to_string(), &cd, false),
        StageAction::Abort(PipelineError::DisallowedBuiltin(BuiltinKind::Cd))
    );
    assert_eq!(p.phase, Phase::Finished);
    assert_eq!(p.spawned, vec![0]);
    assert_eq!(p.reap_order(), vec![0]);
    assert_eq!(
        PipelineError::DisallowedBuiltin(BuiltinKind::Cd).message(),
        "cd cannot be used in pipelines"
    );
}

#[test]
fn pipeline_not_found_and_failures() {
    let mut p = Pipeline::new(2);
    assert_eq!(
        p.start_stage(&"nope".to_string(), &ResolvedCommand::NotFound, false),
        StageAction::Abort(PipelineError::NotFound("nope".to_string()))
    );
    assert_eq!(p.reap_order(), Vec::<usize>::new());
    assert_eq!(PipelineError::NotFound("nope".to_string()).message(), "nope: command not found");

    let mut q = Pipeline::new(2);
    let prog = ResolvedCommand::External("/bin/x".to_string());
    q.start_stage(&"x".to_string(), &prog, false);
    q.spawn_done(false);
    assert_eq!(q.error, Some(PipelineError::SpawnFailed(0)));
    assert_eq!(q.phase, Phase::Finished);
    assert_eq!(PipelineError::SpawnFailed(12).message(), "could not start stage 12");

    let mut r = Pipeline::new(2);
    r.stop(PipelineError::Parse(ParseError::UnterminatedQuote));
    assert_eq!(r.error, Some(PipelineError::Parse(ParseError::UnterminatedQuote)));
    assert_eq!(r.phase, Phase::Finished);
    assert_eq!(
        PipelineError::OpenFailed(1).message(),
        "could not open a redirection target of stage 1"
    );
}

#[test]
fn pipeline_builtin_outputs() {
    let mut p = Pipeline::new(3);
    let ty = ResolvedCommand::Builtin(BuiltinKind::Type);
    assert_eq!(p.start_stage(&"type".to_string(), &ty, true), StageAction::RunBuiltin(Dest::File));
    p.builtin_done(String::new());
    assert_eq!(p.link, Link::Empty);
    let prog = ResolvedCommand::External("/bin/x".to_string());
    assert_eq!(
        p.start_stage(&"x".to_string(), &prog, true),
        StageAction::Spawn { input: Input::Empty, pipe_output: false }
    );
    p.spawn_done(true);
    assert_eq!(p.link, Link::Empty);
    let pwd = ResolvedCommand::Builtin(BuiltinKind::Pwd);
    assert_eq!(p.start_stage(&"pwd".to_string(), &pwd, false), StageAction::RunBuiltin(Dest::Terminal));
    p.builtin_done("/tmp\n".to_string());
    assert_eq!(p.phase, Phase::Finished);
    assert_eq!(p.reap_order(), vec![1]);
}

#[test]
fn parse_line_kinds() {
    match parse_line("echo hi | cat").unwrap() {
        Line::Pipeline(v) => assert_eq!(v, strings(&["echo hi", "cat"])),
        other => panic!("unexpected {:?}", other),
    }
    match parse_line("  echo hi > out.txt  ").unwrap() {
        Line::Single(c) => {
            assert_eq!(c.name, "echo");
            assert_eq!(c.parts.args, strings(&["hi"]));
            assert_eq!(c.parts.redirections[0].target, "out.txt");
        },
        other => panic!("unexpected {:?}", other),
    }
    assert_eq!(parse_line("   ").unwrap(), Line::Empty);
    assert_eq!(parse_line("a |"), Err(ParseError::PipelineTooShort));
    assert_eq!(parse_line("echo 'x"), Err(ParseError::UnterminatedQuote));
    assert_eq!(parse_line("echo >"), Err(ParseError::MissingRedirectionTarget));
    assert_eq!(parse_command("''").unwrap(), None);
}

#[test]
fn builtin_texts() {
    assert_eq!(echo_output(&strings(&["a", "b"])), "a b\n");
    assert_eq!(echo_output(&strings(&[])), "\n");
    assert_eq!(type_report("cd", &ResolvedCommand::Builtin(BuiltinKind::Cd)), "cd is a shell builtin\n");
    assert_eq!(
        type_report("ls", &ResolvedCommand::External("/bin/ls".to_string())),
        "ls is /bin/ls\n"
    );
    assert_eq!(type_report("zz", &ResolvedCommand::NotFound), "zz: not found\n");
    assert_eq!(not_found_message("zz"), "zz: command not found");
    assert_eq!(ParseError::PipelineTooShort.message(), "pipeline needs a command on each side of |");
    assert_eq!(decimal(0), "0");
    assert_eq!(decimal(907), "907");
    assert_eq!(decimal(usize::MAX), usize::MAX.to_string());
}

#[test]
fn cd_targets() {
    assert_eq!(cd_target(Some("/usr"), Some("/home/u"), "/tmp"), Ok("/usr".to_string()));
    assert_eq!(cd_target(Some("docs"), Some("/home/u"), "/tmp"), Ok("/tmp/docs".to_string()));
    assert_eq!(cd_target(Some("docs"), None, "/"), Ok("/docs".to_string()));
    assert_eq!(cd_target(Some("~"), Some("/home/u"), "/tmp"), Ok("/home/u".to_string()));
    assert_eq!(cd_target(Some("~/src"), Some("/home/u/"), "/tmp"), Ok("/home/u/src".to_string()));
    assert_eq!(cd_target(None, Some("/home/u"), "/tmp"), Ok("/home/u".to_string()));
    assert_eq!(cd_target(Some("~x"), Some("/home/u"), "/tmp"), Ok("/tmp/~x".to_string()));
    assert_eq!(cd_target(Some("~/a"), None, "/tmp"), Err(CdError::NoHome));
    assert_eq!(join_path("/a", ""), "/a");
    assert_eq!(cd_failure_message("/nope"), "cd: /nope: No such file or directory");
}

#[test]
fn history_arguments() {
    assert_eq!(HistoryInfo::new(&strings(&[])), Ok(HistoryInfo { read: None, num: None }));
    assert_eq!(HistoryInfo::new(&strings(&["3"])), Ok(HistoryInfo { read: None, num: Some(3) }));
    assert_eq!(
        HistoryInfo::new(&strings(&["-r", "h.txt", "2"])),
        Ok(HistoryInfo { read: Some("h.txt".to_string()), num: Some(2) })
    );
    assert_eq!(HistoryInfo::new(&strings(&["-r"])), Err(HistoryArgError::MissingPath));
    assert_eq!(HistoryInfo::new(&strings(&["x"])), Err(HistoryArgError::NotANumber));
    assert_eq!(parse_count("+7"), Some(7));
    assert_eq!(parse_count("+"), None);
    assert_eq!(parse_count("-1"), None);
    assert_eq!(parse_count("18446744073709551615"), Some(usize::MAX));
    assert_eq!(parse_count("18446744073709551616"), None);
}

#[test]
fn history_listing_lines() {
    let entries = strings(&["ls", "pwd", "echo hi"]);
    assert_eq!(
        history_lines(&entries, None),
        strings(&["    1  ls", "    2  pwd", "    3  echo hi"])
    );
    assert_eq!(history_lines(&entries, Some(2)), strings(&["  2  pwd", "  3  echo hi"]));
    assert_eq!(history_lines(&entries, Some(9)).len(), 3);
    assert_eq!(history_lines(&entries, Some(0)), strings(&[]));
}

#[test]
fn builtin_output_texts() {
    let none = ResolvedCommand::NotFound;
    let args = strings(&["x", "y"]);
    let text = |k, a: &Vec<String>| builtin_output(k, a, "/w", &none);
    assert_eq!(text(BuiltinKind::Echo, &args), Some("x y\n".to_string()));
    assert_eq!(text(BuiltinKind::Pwd, &args), Some("/w\n".to_string()));
    assert_eq!(text(BuiltinKind::Type, &args), Some("x: not found\n".to_string()));
    assert_eq!(text(BuiltinKind::Type, &strings(&[])), Some(String::new()));
    assert_eq!(text(BuiltinKind::Cd, &args), None);
    assert_eq!(text(BuiltinKind::History, &args), None);
    assert_eq!(text(BuiltinKind::Exit, &args), None);
}

#[test]
fn completions_sorted_and_filtered() {
    let programs = strings(&["ezsh", "cat", "ed", "echo"]);
    assert_eq!(
        command_completions(&programs, "e"),
        strings(&["echo", "echo", "ed", "exit", "ezsh"])
    );
    assert_eq!(command_completions(&programs, "h"), strings(&["history"]));
    assert_eq!(command_completions(&programs, "zz"), strings(&[]));
    assert_eq!(command_completions(&programs, "").len(), 7);
}

#[test]
fn completion_text_spacing() {
    let programs = strings(&["cat", "cargo"]);
    assert_eq!(completion_text(&programs, "cat"), "cat ");
    assert_eq!(completion_text(&programs, "ca"), "ca");
    assert_eq!(completion_text(&programs, "echo"), "echo ");
    assert_eq!(completion_text(&programs, "history"), "history");
}

#[test]
fn text_helpers() {
    assert_eq!(trim("\u{3000} a b \t\n"), "a b");
    assert_eq!(trim("   "), "");
    assert!(same_text("abc", "abc"));
    assert!(!same_text("abc", "abd"));
    assert!(starts_with("history", "hist"));
    assert!(!starts_with("hi", "hist"));
    assert!(text_le_exec("ab", "abc"));
    assert!(!text_le_exec("b", "abc"));
    assert!(text_le_exec("é", "é"));
    assert!(minishell::contains_bar("a|b"));
    assert!(!minishell::contains_bar("ab"));
}

#[test]
fn listing_lookup() {
    let files = vec![file("x", "/d/x", Some(0o600)), file("x", "/d/x2", Some(0o700))];
    assert_eq!(minishell::find_in_listing("x", &files), Some("/d/x2".to_string()));
    assert_eq!(minishell::find_in_listing("y", &files), None);
}
