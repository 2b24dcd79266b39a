use cli::classify::dashed_key;
use cli::{Arg, Cmd, ErrorKind, Input, Opt};

fn arg(name: &str) -> Arg {
    Arg { name: name.to_string() }
}

fn expect_opt(input: Option<Input>, name: &str, value: &str) {
    match input {
        Some(Input::Opt(o, v)) => {
            assert_eq!(o.name(), name);
            assert_eq!(v, value);
        }
        other => panic!("expected option {:?}, got {:?}", name, other),
    }
}

fn expect_arg(input: Option<Input>, name: &str, value: &str) {
    match input {
        Some(Input::Arg(a, v)) => {
            assert_eq!(a.name, name);
            assert_eq!(v, value);
        }
        other => panic!("expected argument {:?}, got {:?}", name, other),
    }
}

fn expect_error(input: Option<Input>, kind: ErrorKind, text: &str) {
    match input {
        Some(Input::Error(e)) => {
            assert_eq!(e.kind(), kind);
            assert_eq!(e.to_string(), text);
        }
        other => panic!("expected error {:?}, got {:?}", kind, other),
    }
}

#[test]
fn flag_yields_one_match_and_consumes_one_token() {
    let mut cmd = Cmd::new("app").add_opt(Opt::new("flag", "", None)).parse("--flag");
    assert_eq!(cmd.len(), 1);
    expect_opt(cmd.next(), "flag", "");
    assert_eq!(cmd.len(), 0);
    assert!(cmd.next().is_none());
}

#[test]
fn flag_does_not_take_the_next_token() {
    let mut cmd = Cmd::new("app")
        .add_opt(Opt::new("flag", "", None))
        .add_arg(arg("file"))
        .parse("--flag x");
    expect_opt(cmd.next(), "flag", "");
    assert_eq!(cmd.len(), 1);
    expect_arg(cmd.next(), "file", "x");
}

#[test]
fn mandatory_value_consumes_two_tokens() {
    let mut cmd = Cmd::new("app")
        .add_opt(Opt::new("mode", "m", Some(true)))
        .parse("--mode release");
    assert_eq!(cmd.len(), 2);
    expect_opt(cmd.next(), "mode", "release");
    assert_eq!(cmd.len(), 0);
    assert!(cmd.next().is_none());
}

#[test]
fn mandatory_value_missing() {
    let mut cmd = Cmd::new("app").add_opt(Opt::new("mode", "m", Some(true))).parse("--mode");
    expect_error(cmd.next(), ErrorKind::OptionRequiresValue, "error: option requires a value");
    assert_eq!(cmd.len(), 0);
    assert!(cmd.next().is_none());
}

#[test]
fn missing_value_still_moves_the_cursor() {
    let mut cmd = Cmd::new("app")
        .add_opt(Opt::new("mode", "m", Some(true)))
        .add_arg(arg("file"))
        .parse("--mode");
    expect_error(cmd.next(), ErrorKind::OptionRequiresValue, "error: option requires a value");
    // The cursor stands behind the value that was not there.
    let mut cmd = cmd.parse("a b c");
    assert_eq!(cmd.len(), 1);
    expect_arg(cmd.next(), "file", "c");
    assert!(cmd.next().is_none());
}

#[test]
fn optional_value_present_and_missing() {
    let mut cmd = Cmd::new("app")
        .add_opt(Opt::new("color", "c", Some(false)))
        .parse("-c red --color");
    expect_opt(cmd.next(), "color", "red");
    assert_eq!(cmd.len(), 1);
    expect_opt(cmd.next(), "color", "");
    assert_eq!(cmd.len(), 0);
    assert!(cmd.next().is_none());
}

#[test]
fn value_may_look_like_an_option() {
    let mut cmd = Cmd::new("app")
        .add_opt(Opt::new("mode", "m", Some(true)))
        .add_opt(Opt::new("flag", "f", None))
        .parse("-m --flag -f");
    expect_opt(cmd.next(), "mode", "--flag");
    expect_opt(cmd.next(), "flag", "");
    assert!(cmd.next().is_none());
}

#[test]
fn unknown_option_does_not_end_the_sequence() {
    let mut cmd = Cmd::new("app").add_opt(Opt::new("flag", "", None)).parse("--nope --flag");
    expect_error(cmd.next(), ErrorKind::UnknownOption, "error: unknown option.");
    assert_eq!(cmd.len(), 1);
    expect_opt(cmd.next(), "flag", "");
}

#[test]
fn three_dashes_leave_one_in_the_key() {
    let mut cmd = Cmd::new("app").add_opt(Opt::new("-x", "", None)).parse("---x ---");
    expect_opt(cmd.next(), "-x", "");
    expect_error(cmd.next(), ErrorKind::UnknownOption, "error: unknown option.");
}

#[test]
fn single_dash_ends_the_sequence() {
    let mut cmd = Cmd::new("app").add_arg(arg("a")).add_arg(arg("b")).parse("x - y");
    expect_arg(cmd.next(), "a", "x");
    assert!(cmd.err().is_none());
    expect_error(cmd.next(), ErrorKind::EmptyOption, "error: empty option.");
    assert_eq!(cmd.err().unwrap().kind(), ErrorKind::EmptyOption);
    assert_eq!(cmd.err().unwrap().to_string(), "error: empty option.");
    assert_eq!(cmd.tokens().len(), 3);
    assert_eq!(cmd.len(), 0);
    assert!(cmd.next().is_none());
    assert!(cmd.next().is_none());
}

#[test]
fn double_dash_ends_the_sequence() {
    let mut cmd = Cmd::new("app").add_arg(arg("a")).parse("-- x y z");
    expect_error(cmd.next(), ErrorKind::EmptyOption, "error: empty option.");
    assert_eq!(cmd.err().unwrap().kind(), ErrorKind::EmptyOption);
    assert_eq!(cmd.len(), 0);
    assert!(cmd.next().is_none());
    assert!(cmd.next().is_none());
}

#[test]
fn empty_option_replaces_a_build_error() {
    let mut cmd = Cmd::new("app").add_cmd(Cmd::new("1")).parse("-");
    assert_eq!(cmd.err().unwrap().kind(), ErrorKind::InvalidCommandName);
    expect_error(cmd.next(), ErrorKind::EmptyOption, "error: empty option.");
    assert_eq!(cmd.err().unwrap().kind(), ErrorKind::EmptyOption);
    assert!(cmd.next().is_none());
}

#[test]
fn child_command_takes_the_rest_of_the_buffer() {
    let mut cmd = Cmd::new("app").add_cmd(Cmd::new("build")).parse("build x y");
    match cmd.next() {
        Some(Input::Cmd(child)) => {
            assert_eq!(child.name, "build");
            assert_eq!(*child.tokens(), ["build", "x", "y"]);
            assert_eq!(child.len(), 3);
        }
        other => panic!("expected a command, got {:?}", other),
    }
    assert_eq!(cmd.len(), 0);
    assert!(cmd.next().is_none());
}

#[test]
fn child_command_in_the_middle() {
    let mut cmd = Cmd::new("app")
        .add_opt(Opt::new("verbose", "v", None))
        .add_cmd(
            Cmd::new("build").add_opt(Opt::new("mode", "m", Some(true))).add_arg(arg("self")),
        )
        .parse("-v build -m release");
    expect_opt(cmd.next(), "verbose", "");
    let mut child = match cmd.next() {
        Some(Input::Cmd(child)) => child,
        other => panic!("expected a command, got {:?}", other),
    };
    assert!(cmd.next().is_none());
    assert_eq!(*child.tokens(), ["build", "-m", "release"]);
    expect_arg(child.next(), "self", "build");
    expect_opt(child.next(), "mode", "release");
    assert!(child.next().is_none());
    // The parent keeps its declaration of the child untouched.
    assert_eq!(cmd.tokens().len(), 4);
}

#[test]
fn child_keeps_the_cursors_it_was_declared_with() {
    let mut child = Cmd::new("build").add_arg(arg("a")).add_arg(arg("b")).parse("one two");
    expect_arg(child.next(), "a", "one");
    let mut cmd = Cmd::new("app").add_cmd(child).parse("build x y");
    let mut handed = match cmd.next() {
        Some(Input::Cmd(c)) => c,
        other => panic!("expected a command, got {:?}", other),
    };
    assert_eq!(*handed.tokens(), ["build", "x", "y"]);
    assert_eq!(handed.len(), 2);
    expect_arg(handed.next(), "b", "x");
}

#[test]
fn dashed_token_is_an_option_even_where_a_child_has_that_name() {
    let mut cmd = Cmd::new("app").add_cmd(Cmd::new("-b")).parse("-b");
    assert!(!cmd.is_err());
    expect_error(cmd.next(), ErrorKind::UnknownOption, "error: unknown option.");
}

#[test]
fn no_declared_arguments() {
    let mut cmd = Cmd::new("app").parse("x y");
    expect_error(
        cmd.next(),
        ErrorKind::TooManyArguments,
        "error: received too more arguments",
    );
    assert_eq!(cmd.len(), 1);
    expect_error(
        cmd.next(),
        ErrorKind::TooManyArguments,
        "error: received too more arguments",
    );
    assert!(cmd.next().is_none());
}

#[test]
fn arguments_are_filled_in_order() {
    let mut cmd = Cmd::new("app").add_arg(arg("src")).add_arg(arg("dst")).parse("a b c");
    expect_arg(cmd.next(), "src", "a");
    expect_arg(cmd.next(), "dst", "b");
    expect_error(
        cmd.next(),
        ErrorKind::TooManyArguments,
        "error: received too more arguments",
    );
    assert!(cmd.next().is_none());
}

#[test]
fn len_counts_what_is_left() {
    let mut cmd = Cmd::new("app").add_arg(arg("a")).parse("1 2 3");
    assert_eq!(cmd.len(), 3);
    cmd.next();
    assert_eq!(cmd.len(), 2);
    cmd.next();
    cmd.next();
    assert_eq!(cmd.len(), 0);
    cmd.next();
    assert_eq!(cmd.len(), 0);
}

#[test]
fn len_is_zero_where_the_cursor_is_past_a_shorter_buffer() {
    let mut cmd = Cmd::new("app").add_arg(arg("a")).add_arg(arg("b")).parse("1 2 3");
    cmd.next();
    cmd.next();
    let mut cmd = cmd.parse("only");
    assert_eq!(cmd.len(), 0);
    assert!(cmd.next().is_none());
}

#[test]
fn inputs_never_outnumber_tokens() {
    let line = "a -v b --mode x build c -- d";
    let mut cmd = Cmd::new("app")
        .add_arg(arg("one"))
        .add_opt(Opt::new("verbose", "v", None))
        .add_opt(Opt::new("mode", "", Some(true)))
        .parse(line);
    let total = cmd.len();
    assert_eq!(total, 9);
    let mut seen = 0;
    let mut left = total;
    let mut last = None;
    while let Some(input) = cmd.next() {
        seen += 1;
        assert!(cmd.len() < left);
        left = cmd.len();
        last = Some(input);
    }
    // a, -v, b, --mode x, build, c, and the dashes alone; d is never read.
    assert_eq!(seen, 7);
    assert!(seen <= total);
    expect_error(last, ErrorKind::EmptyOption, "error: empty option.");
    assert_eq!(cmd.err().unwrap().kind(), ErrorKind::EmptyOption);
}

#[test]
fn dashed_key_strips_one_or_two_dashes() {
    assert_eq!(dashed_key("-v"), Some("v".to_string()));
    assert_eq!(dashed_key("--verbose"), Some("verbose".to_string()));
    assert_eq!(dashed_key("---x"), Some("-x".to_string()));
    assert_eq!(dashed_key("-"), Some("".to_string()));
    assert_eq!(dashed_key("--"), Some("".to_string()));
    assert_eq!(dashed_key("-é-"), Some("é-".to_string()));
    assert_eq!(dashed_key(""), None);
    assert_eq!(dashed_key("v"), None);
    assert_eq!(dashed_key("v-"), None);
    assert_eq!(dashed_key("\u{2013}v"), None);
}

#[test]
fn input_clone_keeps_what_it_holds() {
    let mut cmd = Cmd::new("app")
        .add_opt(Opt::new("mode", "m", Some(false)))
        .add_arg(arg("file"))
        .add_cmd(Cmd::new("run").add_arg(arg("x")))
        .parse("-m fast a b run c");
    expect_opt(cmd.next().clone(), "mode", "fast");
    expect_arg(cmd.next().clone(), "file", "a");
    expect_error(
        cmd.next().clone(),
        ErrorKind::TooManyArguments,
        "error: received too more arguments",
    );
    match cmd.next().clone() {
        Some(Input::Cmd(mut child)) => {
            assert_eq!(*child.tokens(), ["run", "c"]);
            expect_arg(child.next(), "x", "run");
            expect_error(
                child.next(),
                ErrorKind::TooManyArguments,
                "error: received too more arguments",
            );
        }
        other => panic!("expected a command, got {:?}", other),
    }
}

#[test]
fn inputs_collects_the_whole_sequence() {
    let mut cmd = Cmd::new("app")
        .add_arg(arg("file"))
        .add_opt(Opt::new("verbose", "v", None))
        .add_opt(Opt::new("mode", "m", Some(true)))
        .parse("a -v --mode fast b --x");
    let all = cmd.inputs();
    assert_eq!(all.len(), 5);
    let mut all = all.into_iter();
    expect_arg(all.next(), "file", "a");
    expect_opt(all.next(), "verbose", "");
    expect_opt(all.next(), "mode", "fast");
    expect_error(
        all.next(),
        ErrorKind::TooManyArguments,
        "error: received too more arguments",
    );
    expect_error(all.next(), ErrorKind::UnknownOption, "error: unknown option.");
    assert_eq!(cmd.len(), 0);
    assert!(cmd.next().is_none());
    assert!(cmd.inputs().is_empty());
}

#[test]
fn inputs_stops_at_dashes_alone() {
    let mut cmd = Cmd::new("app").add_arg(arg("file")).parse("a -- b c");
    let all = cmd.inputs();
    assert_eq!(all.len(), 2);
    let mut all = all.into_iter();
    expect_arg(all.next(), "file", "a");
    expect_error(all.next(), ErrorKind::EmptyOption, "error: empty option.");
    assert_eq!(cmd.err().unwrap().kind(), ErrorKind::EmptyOption);
    assert!(cmd.inputs().is_empty());
}

#[test]
fn inputs_stops_at_a_child_command() {
    let mut cmd = Cmd::new("app")
        .add_arg(arg("file"))
        .add_cmd(Cmd::new("run").add_arg(arg("self")).add_arg(arg("what")))
        .parse("a run b");
    let mut all = cmd.inputs();
    assert_eq!(all.len(), 2);
    let mut child = match all.pop() {
        Some(Input::Cmd(child)) => child,
        other => panic!("expected a command, got {:?}", other),
    };
    let rest = child.inputs();
    assert_eq!(rest.len(), 2);
    let mut rest = rest.into_iter();
    expect_arg(rest.next(), "self", "run");
    expect_arg(rest.next(), "what", "b");
}

#[test]
fn inputs_of_nothing() {
    assert!(Cmd::new("app").inputs().is_empty());
    assert!(Cmd::new("app").parse("   ").inputs().is_empty());
}

#[test]
fn dashes_alone_are_no_option_whatever_is_declared() {
    for line in ["-", "--", "- x", "-- --flag"] {
        let mut cmd = Cmd::new("app")
            .add_opt(Opt::new("flag", "f", None))
            .add_cmd(Cmd::new("x"))
            .add_arg(arg("a"))
            .parse(line);
        expect_error(cmd.next(), ErrorKind::EmptyOption, "error: empty option.");
        assert!(cmd.next().is_none(), "{:?}", line);
        assert_eq!(cmd.len(), 0);
    }
}
