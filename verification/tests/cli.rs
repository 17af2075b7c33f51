use rcl_front::cli::{
    parse, Cmd, FormatOptions, FormatTarget, GlobalOptions, MarkupMode, OutputFormat,
    OutputOptions, Target,
};

fn fail_parse(args: &[&'static str]) -> String {
    let args_vec: Vec<_> = args.iter().map(|a| a.to_string()).collect();
    let err = parse(args_vec).err().unwrap();
    err.report()
}

fn parse_ok(args: &[&'static str]) -> (GlobalOptions, Cmd) {
    let args_vec: Vec<_> = args.iter().map(|a| a.to_string()).collect();
    parse(args_vec).unwrap()
}

#[test]
fn parse_cmd_eval() {
    let expected_opt = GlobalOptions { markup: None };
    let expected_cmd = Cmd::Evaluate {
        output_opts: OutputOptions::default(),
        format_opts: FormatOptions::default(),
        fname: Target::File("infile".into()),
    };
    let mut expected = (expected_opt, expected_cmd);

    // All of the aliases should behave the same.
    assert_eq!(parse_ok(&["rcl", "evaluate", "infile"]), expected);
    assert_eq!(parse_ok(&["rcl", "eval", "infile"]), expected);
    assert_eq!(parse_ok(&["rcl", "e", "infile"]), expected);

    // Test that --color works.
    assert_eq!(parse_ok(&["rcl", "--color=auto", "e", "infile"]), expected);
    expected.0.markup = Some(MarkupMode::NoColor);
    assert_eq!(parse_ok(&["rcl", "--color=none", "e", "infile"]), expected);
    expected.0.markup = Some(MarkupMode::Ansi);
    assert_eq!(parse_ok(&["rcl", "--color=ansi", "e", "infile"]), expected);

    // We should be able to pass --color in any place.
    assert_eq!(parse_ok(&["rcl", "--color=ansi", "e", "infile"]), expected);
    assert_eq!(parse_ok(&["rcl", "--color", "ansi", "e", "infile"]), expected);
    assert_eq!(
        parse_ok(&["rcl", "eval", "--color", "ansi", "infile"]),
        expected
    );
    assert_eq!(
        parse_ok(&["rcl", "eval", "infile", "--color", "ansi"]),
        expected
    );

    // If we specify an option twice, the last one takes precedence.
    assert_eq!(
        parse_ok(&["rcl", "e", "infile", "--color=none", "--color=ansi"]),
        expected
    );

    // Test that --width works, in any location, last option wins.
    expected.0.markup = None;
    if let Cmd::Evaluate { format_opts, .. } = &mut expected.1 {
        format_opts.width = 42;
    }
    assert_eq!(parse_ok(&["rcl", "e", "--width=42", "infile"]), expected);
    assert_eq!(parse_ok(&["rcl", "e", "--width", "42", "infile"]), expected);
    assert_eq!(parse_ok(&["rcl", "e", "-w42", "infile"]), expected);
    assert_eq!(parse_ok(&["rcl", "e", "-w", "42", "infile"]), expected);
    assert_eq!(parse_ok(&["rcl", "e", "infile", "-w42"]), expected);
    assert_eq!(parse_ok(&["rcl", "-w42", "e", "infile"]), expected);
    assert_eq!(
        parse_ok(&["rcl", "-w100", "e", "--width=42", "infile"]),
        expected
    );

    // Test that --output works. We don't have to be as thorough, it's using
    // the same parser, if it works for the other options it should work here.
    if let Cmd::Evaluate {
        format_opts,
        output_opts,
        ..
    } = &mut expected.1
    {
        format_opts.width = 80;
        output_opts.format = OutputFormat::Json;
    }
    assert_eq!(parse_ok(&["rcl", "e", "infile", "-ojson"]), expected);
    assert_eq!(
        parse_ok(&["rcl", "e", "infile", "--output", "json"]),
        expected
    );
    assert_eq!(parse_ok(&["rcl", "e", "infile", "--output=json"]), expected);
    assert_eq!(parse_ok(&["rcl", "-ojson", "e", "infile"]), expected);
    assert_eq!(parse_ok(&["rcl", "-orcl", "-ojson", "e", "infile"]), expected);
}

#[test]
fn parse_cmd_eval_fails_on_invalid_usage() {
    assert_eq!(
        fail_parse(&["rcl", "eval"]),
        "Error: Expected an input file. See --help for usage.\n"
    );
    assert_eq!(
        fail_parse(&["rcl", "eval", "infile", "--width=bobcat"]),
        "Error: 'bobcat' is not valid for --width. See --help for usage.\n"
    );
    assert_eq!(
        fail_parse(&["rcl", "eval", "infile", "-wbobcat"]),
        "Error: 'bobcat' is not valid for -w. See --help for usage.\n"
    );
    assert_eq!(
        fail_parse(&["rcl", "eval", "infile", "--output=yamr"]),
        "Error: Expected --output to be followed by one of json, rcl. See --help for usage.\n"
    );
    assert_eq!(
        fail_parse(&["rcl", "frobnicate", "infile"]),
        "Error: Unknown command 'frobnicate'. See --help for usage.\n"
    );
    assert_eq!(
        fail_parse(&["rcl", "eval", "--frobnicate", "infile"]),
        "Error: Unknown option '--frobnicate'. See --help for usage.\n"
    );
}

#[test]
fn parse_cmd_fmt() {
    let expected_opt = GlobalOptions { markup: None };
    let expected_cmd = Cmd::Format {
        format_opts: FormatOptions::default(),
        target: FormatTarget::Stdout {
            fname: Target::File("infile".into()),
        },
    };
    let mut expected = (expected_opt, expected_cmd);

    // All of the aliases should behave the same.
    assert_eq!(parse_ok(&["rcl", "format", "infile"]), expected);
    assert_eq!(parse_ok(&["rcl", "fmt", "infile"]), expected);
    assert_eq!(parse_ok(&["rcl", "f", "infile"]), expected);

    // Without --in-place, we can do only one arg.
    assert_eq!(
        fail_parse(&["rcl", "f", "f1", "f2"]),
        "Error: Too many input files. See --help for usage.\n",
    );

    if let Cmd::Format { ref mut target, .. } = &mut expected.1 {
        *target = FormatTarget::InPlace {
            fnames: vec![Target::File("f1".into()), Target::File("f2".into())],
        };
    }
    assert_eq!(parse_ok(&["rcl", "f", "--in-place", "f1", "f2"]), expected);
    assert_eq!(parse_ok(&["rcl", "-i", "f", "f1", "f2"]), expected);
}

#[test]
fn parse_cmd_help_version() {
    assert!(matches!(parse_ok(&["rcl", "--help"]).1, Cmd::Help { .. }));
    assert!(matches!(parse_ok(&["rcl", "--version"]).1, Cmd::Version));
    assert!(matches!(parse_ok(&["rcl", "eval", "-h"]).1, Cmd::Help { .. }));
    assert!(matches!(
        parse_ok(&["rcl", "format", "-h"]).1,
        Cmd::Help { .. }
    ));
    assert!(matches!(
        parse_ok(&["rcl", "highlight", "-h"]).1,
        Cmd::Help { .. }
    ));
    assert!(matches!(parse_ok(&["rcl", "query", "-h"]).1, Cmd::Help { .. }));
    // Missing subcommand also triggers help.
    assert!(matches!(parse_ok(&["rcl"]).1, Cmd::Help { .. }));
}

#[test]
fn parse_cmd_highlight() {
    let expected_opt = GlobalOptions { markup: None };
    let expected_cmd = Cmd::Highlight {
        fname: Target::File("infile".into()),
    };
    let expected = (expected_opt, expected_cmd);
    assert_eq!(parse_ok(&["rcl", "highlight", "infile"]), expected);
}

#[test]
fn parse_cmd_query() {
    let expected_opt = GlobalOptions { markup: None };
    let expected_cmd = Cmd::Query {
        output_opts: OutputOptions::default(),
        format_opts: FormatOptions::default(),
        fname: Target::File("infile".into()),
        query: "input.name".to_string(),
    };
    let mut expected = (expected_opt, expected_cmd);
    assert_eq!(parse_ok(&["rcl", "query", "infile", "input.name"]), expected);
    assert_eq!(parse_ok(&["rcl", "q", "infile", "input.name"]), expected);

    if let Cmd::Query { output_opts, .. } = &mut expected.1 {
        output_opts.format = OutputFormat::Json
    };
    assert_eq!(parse_ok(&["rcl", "jq", "infile", "input.name"]), expected);

    assert_eq!(
        fail_parse(&["rcl", "q", "infile"]),
        "Error: Expected an input file and a query. See --help for usage.\n",
    );
}

#[test]
fn parse_cmd_handles_stdin_and_double_dash() {
    assert_eq!(
        parse_ok(&["rcl", "highlight", "infile"]).1,
        Cmd::Highlight {
            fname: Target::File("infile".into()),
        }
    );
    assert_eq!(
        parse_ok(&["rcl", "highlight", "--", "infile"]).1,
        Cmd::Highlight {
            fname: Target::File("infile".into()),
        }
    );
    assert_eq!(
        parse_ok(&["rcl", "highlight", "-"]).1,
        Cmd::Highlight {
            fname: Target::Stdin,
        }
    );
    assert_eq!(
        parse_ok(&["rcl", "highlight", "--", "-"]).1,
        Cmd::Highlight {
            fname: Target::File("-".into()),
        }
    );
}

#[test]
fn parse_cmd_sandbox_modes() {
    let mut expected = (
        GlobalOptions { markup: None },
        Cmd::Evaluate {
            output_opts: OutputOptions::default(),
            format_opts: FormatOptions::default(),
            fname: Target::File("infile".into()),
        },
    );
    if let Cmd::Evaluate { output_opts, .. } = &mut expected.1 {
        output_opts.sandbox = rcl_front::cli::SandboxMode::Pure;
    }
    assert_eq!(
        parse_ok(&["rcl", "e", "--sandbox=pure", "infile"]),
        expected
    );
    if let Cmd::Evaluate { output_opts, .. } = &mut expected.1 {
        output_opts.sandbox = rcl_front::cli::SandboxMode::Unrestricted;
    }
    assert_eq!(
        parse_ok(&["rcl", "e", "--sandbox", "unrestricted", "infile"]),
        expected
    );
    assert_eq!(
        fail_parse(&["rcl", "e", "--sandbox=jail", "infile"]),
        "Error: Expected --sandbox to be followed by one of pure, workdir, unrestricted. See --help for usage.\n",
    );
}

#[test]
fn parse_cmd_option_value_errors() {
    assert_eq!(
        fail_parse(&["rcl", "e", "--color=purple", "infile"]),
        "Error: Expected --color to be followed by one of auto, ansi, none. See --help for usage.\n",
    );
    // An option that expects a value as the very last argument.
    assert_eq!(
        fail_parse(&["rcl", "e", "infile", "-w"]),
        "Error: Expected a value for -w. See --help for usage.\n",
    );
}

#[test]
fn parse_cmd_includes() {
    // `-I` and `--include` collect (alias, file) pairs; the last occurrence
    // of an alias wins, keeping the place of the first; the value splits at
    // its first colon.
    let mut expected = (
        GlobalOptions { markup: None },
        Cmd::Evaluate {
            output_opts: OutputOptions {
                format: OutputFormat::Rcl,
                sandbox: rcl_front::cli::SandboxMode::Workdir,
                includes: vec![
                    ("a".to_string(), "b".to_string()),
                    ("c".to_string(), "d".to_string()),
                ],
            },
            format_opts: FormatOptions::default(),
            fname: Target::File("infile".into()),
        },
    );
    assert_eq!(
        parse_ok(&["rcl", "e", "-I", "a:b", "--include=c:d", "infile"]),
        expected
    );
    assert_eq!(
        parse_ok(&["rcl", "e", "-Ia:b", "--include", "c:d", "infile"]),
        expected
    );

    if let Cmd::Evaluate { output_opts, .. } = &mut expected.1 {
        output_opts.includes = vec![("a".to_string(), "x:y".to_string())];
    }
    assert_eq!(
        parse_ok(&["rcl", "e", "-Ia:b", "-Ia:x:y", "infile"]),
        expected
    );

    // A value without a colon is rejected.
    assert_eq!(
        fail_parse(&["rcl", "e", "--include=nope", "infile"]),
        "Error: 'nope' is not valid for --include. See --help for usage.\n",
    );
}

#[test]
fn parse_cmd_width_bounds() {
    // The largest width that fits a 32-bit integer parses; one past it does not.
    let mut expected = (
        GlobalOptions { markup: None },
        Cmd::Evaluate {
            output_opts: OutputOptions::default(),
            format_opts: FormatOptions { width: 4294967295 },
            fname: Target::File("infile".into()),
        },
    );
    assert_eq!(
        parse_ok(&["rcl", "e", "--width=4294967295", "infile"]),
        expected
    );
    assert_eq!(
        fail_parse(&["rcl", "e", "--width=4294967296", "infile"]),
        "Error: '4294967296' is not valid for --width. See --help for usage.\n",
    );
    assert_eq!(
        fail_parse(&["rcl", "e", "--width=", "infile"]),
        "Error: '' is not valid for --width. See --help for usage.\n",
    );
    if let Cmd::Evaluate { format_opts, .. } = &mut expected.1 {
        format_opts.width = 0;
    }
    assert_eq!(parse_ok(&["rcl", "e", "--width=0", "infile"]), expected);
}
