use cli::{Arg, Cmd, ErrorKind, Input, Opt, Platform};

fn strings(items: &[&str]) -> Vec<String> {
    items.iter().map(|s| s.to_string()).collect()
}

#[test]
fn parse_splits_on_whitespace() {
    let cmd = Cmd::new("app").parse("  a\tb\n c   d  ");
    assert_eq!(*cmd.tokens(), ["a", "b", "c", "d"]);
    assert_eq!(cmd.len(), 4);
}

#[test]
fn parse_of_nothing() {
    assert!(Cmd::new("app").parse("").tokens().is_empty());
    assert!(Cmd::new("app").parse(" \t\r\n").tokens().is_empty());
}

#[test]
fn parse_drops_the_commands_own_name() {
    let cmd = Cmd::new("app").parse("app build app --app apps app");
    assert_eq!(*cmd.tokens(), ["build", "--app", "apps"]);
}

#[test]
fn parse_keeps_the_cursors() {
    let mut cmd = Cmd::new("app").add_arg(Arg { name: "a".to_string() }).parse("x y");
    assert!(matches!(cmd.next(), Some(Input::Arg(_, _))));
    let mut cmd = cmd.parse("p q r");
    assert_eq!(*cmd.tokens(), ["p", "q", "r"]);
    assert_eq!(cmd.len(), 2);
    match cmd.next() {
        Some(Input::Error(e)) => assert_eq!(e.kind(), ErrorKind::TooManyArguments),
        other => panic!("expected an error, got {:?}", other),
    }
}

#[test]
fn parse_keeps_the_declarations_and_the_error() {
    let cmd = Cmd::new("app").add_opt(Opt::new("v", "", None)).add_cmd(Cmd::new("1"));
    let mut cmd = cmd.parse("-v");
    assert_eq!(cmd.err().unwrap().kind(), ErrorKind::InvalidCommandName);
    assert!(matches!(cmd.next(), Some(Input::Opt(_, _))));
}

#[test]
fn parse_knows_unicode_whitespace() {
    let cmd = Cmd::new("app").parse("a\u{00A0}b\u{2003}c\u{3000}d\u{0085}e\u{200B}f");
    assert_eq!(*cmd.tokens(), ["a", "b", "c", "d", "e\u{200B}f"]);
}

#[test]
fn from_args_on_linux() {
    let cmd = Cmd::from_args(Platform::Linux, strings(&["/usr/local/bin/tool", "build", "-v"]))
        .unwrap();
    assert_eq!(cmd.name, "tool");
    assert_eq!(*cmd.tokens(), ["build", "-v"]);
    assert_eq!(cmd.len(), 2);
    assert!(!cmd.is_err());
}

#[test]
fn from_args_on_linux_without_a_directory() {
    let cmd = Cmd::from_args(Platform::Linux, strings(&["tool"])).unwrap();
    assert_eq!(cmd.name, "tool");
    assert!(cmd.tokens().is_empty());
}

#[test]
fn from_args_on_linux_with_a_trailing_slash() {
    let cmd = Cmd::from_args(Platform::Linux, strings(&["dir/", "x"])).unwrap();
    assert_eq!(cmd.name, "");
    assert_eq!(*cmd.tokens(), ["x"]);
}

#[test]
fn from_args_on_linux_keeps_backslashes_and_suffix() {
    let cmd = Cmd::from_args(Platform::Linux, strings(&["a\\b/c\\tool.exe"])).unwrap();
    assert_eq!(cmd.name, "c\\tool.exe");
}

#[test]
fn from_args_on_windows() {
    let cmd = Cmd::from_args(
        Platform::Windows,
        strings(&["C:\\Program Files\\tool\\tool.exe", "init", "--name", "x"]),
    )
    .unwrap();
    assert_eq!(cmd.name, "tool");
    assert_eq!(*cmd.tokens(), ["init", "--name", "x"]);
}

#[test]
fn from_args_on_windows_strips_the_suffix_once() {
    let cmd = Cmd::from_args(Platform::Windows, strings(&["tool.exe.exe"])).unwrap();
    assert_eq!(cmd.name, "tool.exe");
    let cmd = Cmd::from_args(Platform::Windows, strings(&[".exe"])).unwrap();
    assert_eq!(cmd.name, "");
}

#[test]
fn from_args_on_windows_without_the_suffix() {
    for path in ["C:\\bin\\tool", "tool.EXE", "exe", "C:\\tool.exe\\", "C:/bin/tool.ex"] {
        let e = Cmd::from_args(Platform::Windows, strings(&[path, "x"])).unwrap_err();
        assert_eq!(e.kind(), ErrorKind::Unknown, "{:?}", path);
        assert_eq!(e.to_string(), "error: unknown error.");
    }
}

#[test]
fn from_args_on_windows_keeps_forward_slashes() {
    let cmd = Cmd::from_args(Platform::Windows, strings(&["C:/bin/tool.exe"])).unwrap();
    assert_eq!(cmd.name, "C:/bin/tool");
}

#[test]
fn from_args_on_another_platform() {
    let e = Cmd::from_args(Platform::Other, strings(&["/bin/tool", "x"])).unwrap_err();
    assert_eq!(e.kind(), ErrorKind::Unknown);
}

#[test]
fn from_args_of_nothing() {
    for platform in [Platform::Windows, Platform::Linux, Platform::Other] {
        let e = Cmd::from_args(platform, Vec::new()).unwrap_err();
        assert_eq!(e.kind(), ErrorKind::Unknown);
    }
}

#[test]
fn from_args_does_not_drop_the_commands_own_name() {
    let cmd = Cmd::from_args(Platform::Linux, strings(&["/bin/tool", "tool", "x"])).unwrap();
    assert_eq!(*cmd.tokens(), ["tool", "x"]);
}
